use appstream::weburl::Url;
use appstream::AppId;

#[test]
fn reverse_domain_identifier_is_accepted() {
    let id = AppId::try_from("org.mozilla.Firefox").unwrap();
    assert_eq!(id.as_str(), "org.mozilla.Firefox");
    assert!(AppId::is_valid("org.mozilla.Firefox"));
}

#[test]
fn identifier_with_other_characters_is_rejected() {
    for bad in ["org.mozilla.Fire fox", "org.mozilla.Firefox!", "org/mozilla", "örg.mozilla", " org.a"] {
        let e = AppId::try_from(bad).unwrap_err();
        assert_eq!(e.input, bad);
        assert_eq!(e.path, "id");
        assert!(!AppId::is_valid(bad));
    }
}

#[test]
fn identifier_of_one_segment_is_rejected() {
    assert!(AppId::try_from("firefox").is_err());
    assert!(AppId::try_from("").is_err());
}

#[test]
fn identifier_with_an_empty_segment_is_rejected() {
    for bad in [".org.a", "org.a.", "org..a", "."] {
        assert!(AppId::try_from(bad).is_err(), "{}", bad);
    }
}

#[test]
fn identifier_is_not_normalized() {
    let a = AppId::try_from("Org.Example.App").unwrap();
    let b = AppId::try_from("org.example.app").unwrap();
    assert_ne!(a, b);
    assert_eq!(a.as_str(), "Org.Example.App");
    assert_eq!(a.clone(), a);
}

#[test]
fn identifier_may_hold_digits_hyphens_and_underscores() {
    assert!(AppId::is_valid("io.github.some-one.my_app2"));
    assert!(AppId::is_valid("a.b"));
}

#[test]
fn location_is_held_as_the_url_crate_writes_it() {
    let u = Url::parse("HTTPS://Example.ORG").unwrap();
    assert_eq!(u.as_str(), "https://example.org/");
    assert_eq!(u, Url::parse("https://example.org/").unwrap());
    assert_eq!(u.clone(), u);
}

#[test]
fn text_that_is_no_location_is_rejected() {
    let e = Url::parse("not a location").unwrap_err();
    assert_eq!(e.input, "not a location");
    assert_eq!(e.path, "url");
}
