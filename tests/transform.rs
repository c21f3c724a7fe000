use jotdown::Container as C;
use jotdown::{html, Parser, Render};
use site_markup::transform::{transform_headers, Attributes, Container, Event, TransformHeaders};

fn attrs_from(a: &jotdown::Attributes) -> Attributes {
    Attributes { pairs: a.iter().map(|(k, v)| (k.to_string(), v.to_string())).collect() }
}

fn to_library<'s>(ev: jotdown::Event<'s>, kept: &mut Vec<jotdown::Event<'s>>) -> Event {
    match ev {
        jotdown::Event::Start(C::Heading { level, has_section, id }, a) => Event::Start(
            Container::Heading { level, has_section, id: id.to_string() },
            attrs_from(&a),
        ),
        jotdown::Event::End(C::Heading { level, has_section, id }) => {
            Event::End(Container::Heading { level, has_section, id: id.to_string() })
        }
        jotdown::Event::Start(C::Section { id }, a) => {
            Event::Start(Container::Section { id: id.to_string() }, attrs_from(&a))
        }
        jotdown::Event::End(C::Section { id }) => Event::End(Container::Section { id: id.to_string() }),
        other => {
            kept.push(other);
            Event::Other(kept.len() - 1)
        }
    }
}

fn container_back<'o>(c: &'o Container) -> jotdown::Container<'o> {
    match c {
        Container::Heading { level, has_section, id } => {
            C::Heading { level: *level, has_section: *has_section, id: id.as_str().into() }
        }
        Container::Section { id } => C::Section { id: id.as_str().into() },
        Container::Link { dest } => {
            C::Link(dest.as_str().into(), jotdown::LinkType::Span(jotdown::SpanLinkType::Inline))
        }
        Container::Other(_) => unreachable!(),
    }
}

fn to_jotdown<'o>(ev: &'o Event, kept: &[jotdown::Event<'o>]) -> jotdown::Event<'o> {
    match ev {
        Event::Start(c, a) => {
            let mut attrs = jotdown::Attributes::new();
            for (k, v) in &a.pairs {
                attrs.insert(k.as_str(), v.as_str().into());
            }
            jotdown::Event::Start(container_back(c), attrs)
        }
        Event::End(c) => jotdown::Event::End(container_back(c)),
        Event::Other(h) => kept[*h].clone(),
    }
}

fn convert(s: &str) -> String {
    let mut kept = Vec::new();
    let events: Vec<Event> = Parser::new(s).map(|e| to_library(e, &mut kept)).collect();
    let out = transform_headers(events);
    let mut body = String::new();
    html::Renderer::default()
        .push(out.iter().map(|e| to_jotdown(e, &kept)), &mut body)
        .unwrap();
    body
}

#[test]
fn test_transform_headers() {
    let s = "# Header 1";
    assert_eq!(
        convert(s),
        r##"<section id="header-1">
<h2><a href="#header-1" class="heading-ref">Header 1</a></h2>
</section>
"##
    );

    let s = "## Header 2";
    assert_eq!(
        convert(s),
        r##"<section id="header-2">
<h3><a href="#header-2" class="heading-ref">Header 2</a></h3>
</section>
"##
    );

    let s = "## With [link](#x)";
    assert_eq!(
        convert(s),
        r##"<section id="with-link">
<h3><a href="#with-link" class="heading-ref">With <a href="#x">link</a></a></h3>
</section>
"##
    );

    let s = "{ #my-id }\n## Manual";
    assert_eq!(
        convert(s),
        r##"<section id="my-id">
<h3><a href="#my-id" class="heading-ref">Manual</a></h3>
</section>
"##
    );

    let s = "{ #my-id .class}\n# Head";
    assert_eq!(
        convert(s),
        r##"<section id="my-id" class="class">
<h2><a href="#my-id" class="heading-ref">Head</a></h2>
</section>
"##
    );
}

fn no_attrs() -> Attributes {
    Attributes { pairs: vec![] }
}

fn start_heading(level: u16, id: &str) -> Event {
    Event::Start(Container::Heading { level, has_section: true, id: id.to_string() }, no_attrs())
}

fn end_heading(level: u16, id: &str) -> Event {
    Event::End(Container::Heading { level, has_section: true, id: id.to_string() })
}

fn describe(ev: &Event) -> String {
    match ev {
        Event::Start(Container::Heading { level, id, .. }, a) => format!("h{level}#{id}{:?}", a.pairs),
        Event::End(Container::Heading { level, id, .. }) => format!("/h{level}#{id}"),
        Event::Start(Container::Section { id }, a) => format!("s#{id}{:?}", a.pairs),
        Event::End(Container::Section { id }) => format!("/s#{id}"),
        Event::Start(Container::Link { dest }, a) => format!("a{dest}{:?}", a.pairs),
        Event::End(Container::Link { dest }) => format!("/a{dest}"),
        Event::Start(Container::Other(h), _) => format!("o{h}"),
        Event::End(Container::Other(h)) => format!("/o{h}"),
        Event::Other(h) => format!("{h}"),
    }
}

fn describe_all(evs: &[Event]) -> Vec<String> {
    evs.iter().map(describe).collect()
}

#[test]
fn heading_is_deepened_and_wrapped() {
    let out = transform_headers(vec![start_heading(1, "Header-1"), Event::Other(7), end_heading(1, "Header-1")]);
    assert_eq!(
        describe_all(&out),
        vec![
            "h2#header-1[]",
            "a#header-1[(\"class\", \"heading-ref\")]",
            "7",
            "/a#header-1",
            "/h2#header-1",
        ]
    );
}

#[test]
fn inner_link_stays_inside_anchor() {
    let out = transform_headers(vec![
        start_heading(2, "With-link"),
        Event::Other(1),
        Event::Start(Container::Link { dest: "#x".to_string() }, no_attrs()),
        Event::Other(2),
        Event::End(Container::Link { dest: "#x".to_string() }),
        end_heading(2, "With-link"),
    ]);
    assert_eq!(
        describe_all(&out),
        vec![
            "h3#with-link[]",
            "a#with-link[(\"class\", \"heading-ref\")]",
            "1",
            "a#x[]",
            "2",
            "/a#x",
            "/a#with-link",
            "/h3#with-link",
        ]
    );
}

#[test]
fn manual_id_and_class_are_kept() {
    let class = Attributes { pairs: vec![("class".to_string(), "class".to_string())] };
    let out = transform_headers(vec![
        Event::Start(Container::Section { id: "my-id".to_string() }, class),
        start_heading(1, "my-id"),
        Event::Other(0),
        end_heading(1, "my-id"),
        Event::End(Container::Section { id: "my-id".to_string() }),
    ]);
    assert_eq!(
        describe_all(&out),
        vec![
            "s#my-id[(\"class\", \"class\")]",
            "h2#my-id[]",
            "a#my-id[(\"class\", \"heading-ref\")]",
            "0",
            "/a#my-id",
            "/h2#my-id",
            "/s#my-id",
        ]
    );
}

#[test]
fn sections_get_canonical_ids_and_others_pass() {
    let out = transform_headers(vec![
        Event::Start(Container::Section { id: "Some Title".to_string() }, no_attrs()),
        Event::Start(Container::Other(3), no_attrs()),
        Event::Other(4),
        Event::End(Container::Other(3)),
        Event::End(Container::Section { id: "Some Title".to_string() }),
    ]);
    assert_eq!(describe_all(&out), vec!["s#some-title[]", "o3", "4", "/o3", "/s#some-title"]);
}

#[test]
fn unterminated_heading_ends_the_stream() {
    let out = transform_headers(vec![Event::Other(1), start_heading(1, "Cut"), Event::Other(2)]);
    assert_eq!(describe_all(&out), vec!["1"]);

    let mut t = TransformHeaders::new();
    assert!(!t.inside_heading());
    assert!(t.push(start_heading(1, "Cut")).is_empty());
    assert!(t.inside_heading());
    assert!(t.push(Event::Other(5)).is_empty());
    let out = t.push(end_heading(1, "Cut"));
    assert!(!t.inside_heading());
    assert_eq!(describe_all(&out), vec!["h2#cut[]", "a#cut[(\"class\", \"heading-ref\")]", "5", "/a#cut", "/h2#cut"]);
}
