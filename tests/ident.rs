use site_markup::ident::to_id;

#[test]
fn heading_text_to_id() {
    assert_eq!(to_id("Header 1"), "header-1");
    assert_eq!(to_id("With link"), "with-link");
    assert_eq!(to_id("  Hello,   World!  "), "hello-world");
    assert_eq!(to_id("C++ & Rust_2021"), "c-rust-2021");
    assert_eq!(to_id("Café au lait"), "caf-au-lait");
}

#[test]
fn empty_and_symbol_only_text_fall_back() {
    assert_eq!(to_id(""), "heading");
    assert_eq!(to_id("!?- --"), "heading");
}

#[test]
fn canonical_ids_are_unchanged() {
    for s in ["Header 1", "header-1", "my-id", "x", "--A--b--", "Ünïcode Heading", "", "heading"] {
        let once = to_id(s);
        assert_eq!(to_id(&once), once);
    }
    assert_eq!(to_id("my-id"), "my-id");
}
