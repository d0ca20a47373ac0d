use appstream::enums::{Category, ComponentKind, Icon, ImageKind, ProjectUrl, Provide};
use appstream::Url;

#[test]
fn known_tokens_decode_to_their_variants() {
    assert_eq!(Category::from_token("Education"), Category::Education);
    assert_eq!(Category::from_token("WebBrowser"), Category::WebBrowser);
    assert_eq!(ComponentKind::from_token("desktop-application"), ComponentKind::DesktopApplication);
    assert_eq!(ComponentKind::from_token("font"), ComponentKind::Font);
    assert_eq!(ComponentKind::from_token("operating-system"), ComponentKind::OS);
    assert_eq!(ImageKind::from_token("source"), ImageKind::Source);
    assert_eq!(ImageKind::from_token("thumbnail"), ImageKind::Thumbnail);
}

#[test]
fn known_variants_encode_to_their_tokens() {
    assert_eq!(Category::AudioVideo.to_token(), "AudioVideo");
    assert_eq!(ComponentKind::WebApplication.to_token(), "web-application");
    assert_eq!(ComponentKind::IconTheme.to_token(), "icon-theme");
    assert_eq!(ImageKind::Thumbnail.to_token(), "thumbnail");
}

#[test]
fn tokens_are_matched_exactly() {
    assert_eq!(Category::from_token("education"), Category::Unknown("education".to_string()));
    assert_eq!(ComponentKind::from_token("Font"), ComponentKind::Unknown("Font".to_string()));
    assert_eq!(ImageKind::from_token(" source"), ImageKind::Unknown(" source".to_string()));
}

#[test]
fn unrecognized_tokens_round_trip() {
    for token in ["", "Quantum", "x-vendor-thing", "données"] {
        assert_eq!(Category::from_token(token).to_token(), token);
        assert_eq!(ComponentKind::from_token(token).to_token(), token);
        assert_eq!(ImageKind::from_token(token).to_token(), token);
        assert_eq!(Provide::from_parts(token, "v").kind_token(), token);
        let url = Url::parse("https://example.org/").unwrap();
        assert_eq!(ProjectUrl::from_parts(token, url).kind_token(), token);
    }
}

#[test]
fn every_known_token_round_trips() {
    for token in ["AudioVideo", "Audio", "Video", "Development", "Education", "Game", "Graphics",
        "Network", "Office", "Science", "Settings", "System", "Utility", "Literature"] {
        let c = Category::from_token(token);
        assert!(!matches!(c, Category::Unknown(_)), "{}", token);
        assert_eq!(c.to_token(), token);
    }
    for token in ["runtime", "console-application", "desktop-application", "web-application",
        "inputmethod", "operating-system", "theme", "firmware", "addon", "font", "generic",
        "icon-theme", "localization", "driver", "codec"] {
        let k = ComponentKind::from_token(token);
        assert!(!matches!(k, ComponentKind::Unknown(_)), "{}", token);
        assert_eq!(k.to_token(), token);
    }
}

#[test]
fn defaults_are_generic_and_source() {
    assert_eq!(ComponentKind::default(), ComponentKind::Generic);
    assert_eq!(ImageKind::default(), ImageKind::Source);
}

#[test]
fn provided_items_decode_by_kind() {
    assert_eq!(Provide::from_parts("binary", "firefox"), Provide::Binary("firefox".to_string()));
    assert_eq!(Provide::from_parts("library", "libx.so"), Provide::Library("libx.so".to_string()));
    assert_eq!(Provide::from_parts("dbus", "org.x"), Provide::DBus("org.x".to_string()));
    let p = Provide::from_parts("plugin", "p");
    assert_eq!(p, Provide::Unknown("plugin".to_string(), "p".to_string()));
    assert_eq!(p.target(), "p");
}

#[test]
fn project_locations_decode_by_kind() {
    let url = Url::parse("https://example.org/").unwrap();
    assert_eq!(ProjectUrl::from_parts("homepage", url.clone()), ProjectUrl::Homepage(url.clone()));
    assert_eq!(ProjectUrl::from_parts("bugtracker", url.clone()), ProjectUrl::BugTracker(url.clone()));
    assert_eq!(ProjectUrl::from_parts("donation", url.clone()).kind_token(), "donation");
    assert_eq!(ProjectUrl::from_parts("homepage", url.clone()).target(), &url);
}

#[test]
fn icons_decode_by_kind() {
    assert_eq!(Icon::from_parts("stock", "web-browser", Some(1), None), Ok(Icon::Stock("web-browser".to_string())));
    assert_eq!(Icon::from_parts("cached", "a.png", None, None), Ok(Icon::Cached("a.png".to_string())));
    assert_eq!(
        Icon::from_parts("local", "/a.png", Some(64), Some(64)),
        Ok(Icon::Local { path: "/a.png".to_string(), width: Some(64), height: Some(64) })
    );
    assert_eq!(
        Icon::from_parts("remote", "https://example.org/a.png", None, Some(8)),
        Ok(Icon::Remote { url: Url::parse("https://example.org/a.png").unwrap(), width: None, height: Some(8) })
    );
    assert_eq!(Icon::from_parts("glow", "g", None, None), Ok(Icon::Unknown("glow".to_string(), "g".to_string())));
    let e = Icon::from_parts("remote", "nowhere", None, None).unwrap_err();
    assert_eq!((e.path.as_str(), e.input.as_str()), ("icon", "nowhere"));
}
