use appstream::builders::{ImageBuilder, ScreenshotBuilder, VideoBuilder};
use appstream::enums::ImageKind;
use appstream::{DecodeError, Screenshot, TranslatableString, Url};

#[test]
fn default_screenshot() {
    let xml = r"
            <screenshot type='default'>
                <image type='source'>https://raw.githubusercontent.com/PapirusDevelopmentTeam/papirus-icon-theme/master/preview.png</image>
            </screenshot>";
    let s1: Screenshot = Screenshot::from_xml(&xml).unwrap();

    let s2 = ScreenshotBuilder::new().image(
                ImageBuilder::new(Url::parse("https://raw.githubusercontent.com/PapirusDevelopmentTeam/papirus-icon-theme/master/preview.png").unwrap())
                .build()
            )
            .build();

    assert_eq!(s1, s2);
}

#[test]
fn name() {
    let xml = r"
        <screenshot type='default'>
            <caption>FooBar showing kitchen-sink functionality.</caption>
            <caption xml:lang='de'>FooBar beim Ausführen der Spühlbecken-Funktion.</caption>
            <image type='source' width='800' height='600'>https://www.example.org/en_US/main.png</image>
            <image type='thumbnail' width='752' height='423'>https://www.example.org/en_US/main-large.png</image>
            <image type='thumbnail' width='112' height='63'>https://www.example.org/en_US/main-small.png</image>
        </screenshot>";
    let s1: Screenshot = Screenshot::from_xml(&xml).unwrap();

    let s2 = ScreenshotBuilder::new()
        .caption(
            TranslatableString::with_default("FooBar showing kitchen-sink functionality.")
                .and_locale("de", "FooBar beim Ausführen der Spühlbecken-Funktion."),
        )
        .image(
            ImageBuilder::new(Url::parse("https://www.example.org/en_US/main.png").unwrap())
                .width(800)
                .height(600)
                .build(),
        )
        .image(
            ImageBuilder::new(
                Url::parse("https://www.example.org/en_US/main-large.png").unwrap(),
            )
            .width(752)
            .height(423)
            .kind(ImageKind::Thumbnail)
            .build(),
        )
        .image(
            ImageBuilder::new(
                Url::parse("https://www.example.org/en_US/main-small.png").unwrap(),
            )
            .width(112)
            .height(63)
            .kind(ImageKind::Thumbnail)
            .build(),
        )
        .build();
    assert_eq!(s1, s2);
}

#[test]
fn screenshot_video() {
    let xml = r"
            <screenshot>
                <video codec='av1' width='1600' height='900'>https://example.com/foobar/screencast.mkv</video>
            </screenshot>";
    let s1: Screenshot = Screenshot::from_xml(&xml).unwrap();

    // A screenshot that names no type is the default one.
    let s2 = ScreenshotBuilder::new()
        .video(
            VideoBuilder::new(Url::parse("https://example.com/foobar/screencast.mkv").unwrap())
                .width(1600)
                .height(900)
                .codec("av1")
                .build(),
        )
        .build();
    assert_eq!(s1, s2);
    assert!(s1.is_default);
}

#[test]
fn screenshot_with_other_type_is_not_default() {
    let shot = Screenshot::from_xml("<screenshot type='extra'/>").unwrap();
    assert!(!shot.is_default);
    assert_eq!(shot, ScreenshotBuilder::new().set_default(false).build());
}

#[test]
fn image_without_type_is_the_source() {
    let shot =
        Screenshot::from_xml("<screenshot><image>https://example.org/a.png</image></screenshot>")
            .unwrap();
    assert_eq!(shot.images.len(), 1);
    assert_eq!(shot.images[0].kind, ImageKind::Source);
    assert_eq!(shot.images[0].width, None);
    assert_eq!(shot.images[0].url.as_str(), "https://example.org/a.png");
}

#[test]
fn image_of_unknown_kind_keeps_its_token() {
    let shot = Screenshot::from_xml(
        "<screenshot><image type='poster'>https://example.org/a.png</image></screenshot>",
    )
    .unwrap();
    assert_eq!(shot.images[0].kind, ImageKind::Unknown("poster".to_string()));
    assert_eq!(shot.images[0].kind.to_token(), "poster");
}

#[test]
fn images_and_videos_stand_side_by_side() {
    let shot = Screenshot::from_xml(
        "<screenshot><video container='matroska'>https://example.org/v.mkv</video>\
         <image width='10'>https://example.org/a.png</image>\
         <image height='20'>https://example.org/b.png</image></screenshot>",
    )
    .unwrap();
    assert_eq!(shot.videos.len(), 1);
    assert_eq!(shot.videos[0].container, Some("matroska".to_string()));
    assert_eq!(shot.images.len(), 2);
    assert_eq!((shot.images[0].width, shot.images[0].height), (Some(10), None));
    assert_eq!((shot.images[1].width, shot.images[1].height), (None, Some(20)));
}

#[test]
fn width_that_is_no_number_is_rejected() {
    let r = Screenshot::from_xml(
        "<screenshot><image width='wide'>https://example.org/a.png</image></screenshot>",
    );
    match r {
        Err(DecodeError::ValidationError(e)) => {
            assert_eq!(e.path, "image/@width");
            assert_eq!(e.input, "wide");
        }
        other => panic!("{:?}", other),
    }
}

#[test]
fn image_text_that_is_no_location_is_rejected() {
    let r = Screenshot::from_xml("<screenshot><image>not a location</image></screenshot>");
    match r {
        Err(DecodeError::ValidationError(e)) => {
            assert_eq!(e.path, "image");
            assert_eq!(e.input, "not a location");
        }
        other => panic!("{:?}", other),
    }
}

#[test]
fn unclosed_markup_is_malformed() {
    assert_eq!(
        Screenshot::from_xml("<screenshot><image>https://example.org/a.png</screenshot>"),
        Err(DecodeError::MalformedDocument)
    );
    assert_eq!(Screenshot::from_xml("<screenshot>"), Err(DecodeError::MalformedDocument));
    assert_eq!(Screenshot::from_xml(""), Err(DecodeError::MalformedDocument));
    assert_eq!(Screenshot::from_xml("<a/><b/>"), Err(DecodeError::MalformedDocument));
}

#[test]
fn references_in_text_and_attributes_are_resolved() {
    let shot = Screenshot::from_xml(
        "<screenshot><caption>Tom &amp; Jerry &#60;3</caption>\
         <video codec='a&amp;b'>https://example.org/v.mkv?a=1&amp;b=2</video></screenshot>",
    )
    .unwrap();
    assert_eq!(shot.caption.unwrap().get_default(), "Tom & Jerry <3");
    assert_eq!(shot.videos[0].codec, Some("a&b".to_string()));
    assert_eq!(shot.videos[0].url.as_str(), "https://example.org/v.mkv?a=1&b=2");
}

#[test]
fn unknown_reference_is_malformed() {
    assert_eq!(
        Screenshot::from_xml("<screenshot><caption>&nope;</caption></screenshot>"),
        Err(DecodeError::MalformedDocument)
    );
}

#[test]
fn default_screenshot_value_is_default_and_empty() {
    let shot = Screenshot::default();
    assert!(shot.is_default);
    assert_eq!(shot, ScreenshotBuilder::new().build());
}
