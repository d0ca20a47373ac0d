use appstream::builders::{ImageBuilder, ScreenshotBuilder, VideoBuilder};
use appstream::enums::ImageKind;
use appstream::text::{parse_u32, same_text, u32_text};
use appstream::tree::{parse_document, root_from_events, split_tag, trim, Node};
use appstream::xml::{read_events, RawEvent, RawKind};
use appstream::{Screenshot, TranslatableString, Url};

#[test]
fn numbers_are_read_in_decimal() {
    assert_eq!(parse_u32("0"), Some(0));
    assert_eq!(parse_u32("800"), Some(800));
    assert_eq!(parse_u32("+17"), Some(17));
    assert_eq!(parse_u32("007"), Some(7));
    assert_eq!(parse_u32("4294967295"), Some(4294967295));
}

#[test]
fn what_is_no_number_is_not_read() {
    for bad in ["", "+", "-1", "1.5", " 1", "1 ", "0x10", "4294967296", "99999999999999999999", "++1", "1+"] {
        assert_eq!(parse_u32(bad), None, "{:?}", bad);
    }
}

#[test]
fn numbers_are_written_in_decimal() {
    assert_eq!(u32_text(0), "0");
    assert_eq!(u32_text(9), "9");
    assert_eq!(u32_text(10), "10");
    assert_eq!(u32_text(1600), "1600");
    assert_eq!(u32_text(u32::MAX), "4294967295");
    for n in [0u32, 1, 42, 1000, 65535, u32::MAX] {
        assert_eq!(parse_u32(&u32_text(n)), Some(n));
    }
}

#[test]
fn texts_are_compared_and_trimmed() {
    assert!(same_text("a", "a"));
    assert!(!same_text("a", "A"));
    assert_eq!(trim("  \n\tFoo Bar \r\n"), "Foo Bar");
    assert_eq!(trim(" \n "), "");
    assert_eq!(trim(""), "");
    assert_eq!(trim("x"), "x");
    assert_eq!(trim("\u{a0}x"), "\u{a0}x");
}

#[test]
fn tags_split_at_the_first_space() {
    assert_eq!(split_tag("image type='source'"), ("image".to_string(), " type='source'".to_string()));
    assert_eq!(split_tag("image"), ("image".to_string(), String::new()));
    assert_eq!(split_tag("a\n b"), ("a".to_string(), "\n b".to_string()));
    assert_eq!(split_tag(""), (String::new(), String::new()));
}

#[test]
fn events_come_in_document_order() {
    let events = read_events("<a x='1'>t<b/><!-- c --></a>").unwrap();
    let kinds: Vec<RawKind> = events.iter().map(|e| e.kind).collect();
    assert_eq!(kinds, vec![RawKind::Start, RawKind::Text, RawKind::Empty, RawKind::Other, RawKind::End]);
    assert_eq!(events[0].content, "a x='1'");
    assert_eq!(events[1].content, "t");
    assert_eq!(events[2].content, "b");
    assert_eq!(events[4].content, "a");
}

#[test]
fn empty_text_has_no_events() {
    assert_eq!(read_events("").unwrap().len(), 0);
}

#[test]
fn mismatched_closing_tag_fails() {
    assert!(read_events("<a></b>").is_none());
    assert!(read_events("<a>&</a>").is_none());
}

#[test]
fn document_becomes_a_tree() {
    let root = parse_document("<r a='1' b=\"x &lt; y\"><c>one</c>two<![CDATA[<raw>]]><c/></r>").unwrap();
    assert_eq!(root.name, "r");
    assert_eq!(root.attribute("a"), Some(&"1".to_string()));
    assert_eq!(root.attribute("b"), Some(&"x < y".to_string()));
    assert_eq!(root.attribute("c"), None);
    assert_eq!(root.text(), "two<raw>");
    assert_eq!(root.children_named("c").len(), 2);
    assert_eq!(root.children_named("c")[0].text(), "one");
    assert_eq!(root.children_named("c")[1].text(), "");
    assert_eq!(root.child_elements().len(), 2);
    assert_eq!(root.children.len(), 4);
    assert!(matches!(&root.children[1], Node::Text(t) if t == "two"));
}

#[test]
fn duplicate_attribute_is_malformed() {
    assert!(parse_document("<r a='1' a='2'/>").is_none());
    assert!(parse_document("<r a=1/>").is_none());
}

#[test]
fn tree_is_written_as_markup() {
    let root = parse_document("<r a='1'><c>x &amp; y</c><d/></r>").unwrap();
    assert_eq!(root.to_xml(), "<r a=\"1\"><c>x &amp; y</c><d/></r>");
}

#[test]
fn screenshot_is_written_as_markup() {
    let shot = ScreenshotBuilder::new()
        .caption(TranslatableString::with_default("A < B").and_locale("de", "\"B\""))
        .image(
            ImageBuilder::new(Url::parse("https://example.org/a.png?x=1&y=2").unwrap())
                .width(800)
                .height(600)
                .build(),
        )
        .video(VideoBuilder::new(Url::parse("https://example.org/v.mkv").unwrap()).codec("av1").height(9).build())
        .build();
    assert_eq!(
        shot.to_xml(),
        "<screenshot type=\"default\"><caption>A &lt; B</caption>\
         <caption xml:lang=\"de\">&quot;B&quot;</caption>\
         <image type=\"source\" width=\"800\" height=\"600\">https://example.org/a.png?x=1&amp;y=2</image>\
         <video codec=\"av1\" height=\"9\">https://example.org/v.mkv</video></screenshot>"
    );
}

#[test]
fn written_screenshot_reads_back() {
    let shots = vec![
        ScreenshotBuilder::new().build(),
        ScreenshotBuilder::new().set_default(false).build(),
        ScreenshotBuilder::new()
            .set_default(false)
            .caption(TranslatableString::with_default("Tom & Jerry").and_locale("fr", "l'été <3"))
            .image(
                ImageBuilder::new(Url::parse("https://example.org/a.png").unwrap())
                    .kind(ImageKind::Thumbnail)
                    .width(1)
                    .build(),
            )
            .image(
                ImageBuilder::new(Url::parse("https://example.org/b.png").unwrap())
                    .kind(ImageKind::Unknown("poster".to_string()))
                    .build(),
            )
            .video(
                VideoBuilder::new(Url::parse("https://example.org/v.webm").unwrap())
                    .container("webm")
                    .codec("vp9")
                    .width(1600)
                    .height(900)
                    .build(),
            )
            .build(),
    ];
    for shot in shots {
        assert_eq!(Screenshot::from_xml(&shot.to_xml()), Ok(shot));
    }
}

fn event(kind: RawKind, content: &str) -> RawEvent {
    RawEvent { kind, content: content.to_string() }
}

#[test]
fn events_nest_into_a_tree() {
    let events = vec![
        event(RawKind::Other, "xml version='1.0'"),
        event(RawKind::Start, "a k='v'"),
        event(RawKind::Text, "x"),
        event(RawKind::Reference, "amp"),
        event(RawKind::Empty, "b"),
        event(RawKind::CData, "<y>"),
        event(RawKind::End, "a"),
    ];
    let root = root_from_events(&events).unwrap();
    assert_eq!(root.name, "a");
    assert_eq!(root.attribute("k"), Some(&"v".to_string()));
    assert_eq!(root.text(), "x&<y>");
    assert_eq!(root.child_elements().len(), 1);
    assert_eq!(root.to_xml(), "<a k=\"v\">x&amp;<b/>&lt;y&gt;</a>");
}

#[test]
fn events_that_do_not_nest_give_no_tree() {
    let open_only = vec![event(RawKind::Start, "a")];
    assert!(root_from_events(&open_only).is_none());
    let wrong_name = vec![event(RawKind::Start, "a"), event(RawKind::End, "b")];
    assert!(root_from_events(&wrong_name).is_none());
    let stray_end = vec![event(RawKind::Empty, "a"), event(RawKind::End, "a")];
    assert!(root_from_events(&stray_end).is_none());
    let two_roots = vec![event(RawKind::Empty, "a"), event(RawKind::Empty, "b")];
    assert!(root_from_events(&two_roots).is_none());
    let no_root = vec![event(RawKind::Text, "t")];
    assert!(root_from_events(&no_root).is_none());
    let bad_reference = vec![event(RawKind::Start, "a"), event(RawKind::Reference, "nope"), event(RawKind::End, "a")];
    assert!(root_from_events(&bad_reference).is_none());
    let bad_attribute = vec![event(RawKind::Empty, "a k")];
    assert!(root_from_events(&bad_attribute).is_none());
}
