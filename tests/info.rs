use site_markup::info::{
    BrokenLinkInfo, HeadingContext, HeadingInfo, LinkDefInfo, PostInfo, SeriesInfo, SeriesItem,
    Site, Tag, TagInfo,
};
use site_markup::lookup::{Heading, LinkDef, NeovimRange};

fn post(title: &str) -> PostInfo {
    PostInfo {
        title: title.to_string(),
        path: format!("posts/{title}.dj"),
        created: "2024-01-02".to_string(),
        url: format!("/blog/{title}"),
        tags: vec!["rust".to_string()],
        series: None,
    }
}

fn site() -> Site {
    Site { posts: vec![post("a"), post("b"), post("c")] }
}

#[test]
fn tag_collects_posts_in_order() {
    let tag = Tag { id: "rust".to_string(), name: "Rust".to_string(), url: "/blog/tags/rust".to_string() };
    let info = TagInfo::from_tag(&tag, &[2, 0], &site());
    assert_eq!(
        info,
        TagInfo {
            id: "rust".to_string(),
            name: "Rust".to_string(),
            url: "/blog/tags/rust".to_string(),
            posts: vec![post("c"), post("a")],
        }
    );
    assert!(TagInfo::from_tag(&tag, &[], &site()).posts.is_empty());
}

#[test]
fn series_collects_posts_in_order() {
    let item = SeriesItem {
        id: "s".to_string(),
        title: "Series".to_string(),
        url: "/series/s".to_string(),
        path: "series/s.dj".to_string(),
        posts: vec![1, 2],
    };
    let info = SeriesInfo::from(&item, &site());
    assert_eq!(info.id, "s");
    assert_eq!(info.title, "Series");
    assert_eq!(info.url, "/series/s");
    assert_eq!(info.path, "series/s.dj");
    assert_eq!(info.posts, vec![post("b"), post("c")]);
}

#[test]
fn element_infos_copy_fields() {
    let h = Heading {
        id: "intro".to_string(),
        level: 2,
        content: "Intro".to_string(),
        range: NeovimRange::new((3, 0), (3, 7)),
        char_range: 10..18,
    };
    let info = HeadingInfo::from_heading(&h, HeadingContext::SameFile { start_row: 3, end_row: 3 });
    assert_eq!(
        info,
        HeadingInfo {
            id: "intro".to_string(),
            content: "Intro".to_string(),
            level: 2,
            context: HeadingContext::SameFile { start_row: 3, end_row: 3 },
        }
    );
    let d = LinkDef {
        label: "home".to_string(),
        url: "https://example.com".to_string(),
        range: NeovimRange::new((5, 0), (5, 20)),
        char_range: 30..51,
    };
    assert_eq!(
        LinkDefInfo::from_link_def(&d, 5, 6),
        LinkDefInfo { label: "home".to_string(), url: "https://example.com".to_string(), start_row: 5, end_row: 6 }
    );
    assert_eq!(BrokenLinkInfo::from_link("missing", 9), BrokenLinkInfo { tag: "missing".to_string(), row: 9 });
}
