use appstream::{TranslatableString, TranslatableVec};

fn tagged(tag: Option<&str>, text: &str) -> (Option<String>, String) {
    (tag.map(|t| t.to_string()), text.to_string())
}

#[test]
fn default_alone_has_no_translation() {
    let t = TranslatableString::with_default("Firefox");
    assert_eq!(t.get_default(), "Firefox");
    assert_eq!(t.get_translation("de"), None);
    assert_eq!(t.get_for_locale("de"), "Firefox");
}

#[test]
fn lookup_prefers_the_translation() {
    let t = TranslatableString::with_default("Web browser").and_locale("fr_FR", "Navigateur web");
    assert_eq!(t.get_for_locale("fr_FR"), "Navigateur web");
    assert_eq!(t.get_for_locale("fr"), "Web browser");
    assert_eq!(t.get_translation("fr_FR"), Some(&"Navigateur web".to_string()));
}

#[test]
fn and_locale_replaces_an_earlier_translation() {
    let t = TranslatableString::with_default("a").and_locale("de", "eins").and_locale("de", "zwei");
    assert_eq!(t.get_for_locale("de"), "zwei");
    assert_eq!(t, TranslatableString::with_default("a").and_locale("de", "zwei"));
    assert_eq!(t.entries().len(), 2);
}

#[test]
fn equality_ignores_the_order_of_translations() {
    let a = TranslatableString::with_default("x").and_locale("de", "d").and_locale("fr", "f");
    let b = TranslatableString::with_default("x").and_locale("fr", "f").and_locale("de", "d");
    assert_eq!(a, b);
    assert_ne!(a, TranslatableString::with_default("x").and_locale("de", "d"));
    assert_ne!(a, TranslatableString::with_default("y").and_locale("de", "d").and_locale("fr", "f"));
    assert_ne!(a, TranslatableString::with_default("x").and_locale("de", "d").and_locale("fr", "g"));
}

#[test]
fn merge_takes_the_untagged_text_as_default() {
    let merged = TranslatableString::merge(&vec![
        tagged(None, "Firefox"),
        tagged(Some("en_GB"), "Firefoux"),
        tagged(Some("de"), "Feuerfuchs"),
    ])
    .unwrap();
    assert_eq!(
        merged,
        TranslatableString::with_default("Firefox")
            .and_locale("en_GB", "Firefoux")
            .and_locale("de", "Feuerfuchs")
    );
}

#[test]
fn merge_does_not_depend_on_the_order_of_tagged_texts() {
    let a = TranslatableString::merge(&vec![
        tagged(None, "n"),
        tagged(Some("de"), "d"),
        tagged(Some("fr"), "f"),
        tagged(Some("it"), "i"),
    ]);
    let b = TranslatableString::merge(&vec![
        tagged(None, "n"),
        tagged(Some("it"), "i"),
        tagged(Some("de"), "d"),
        tagged(Some("fr"), "f"),
    ]);
    assert_eq!(a, b);
    assert_eq!(a.unwrap().get_for_locale("it"), "i");
}

#[test]
fn merge_keeps_the_later_of_two_texts_with_one_tag() {
    let merged = TranslatableString::merge(&vec![
        tagged(None, "n"),
        tagged(Some("de"), "first"),
        tagged(Some("fr"), "f"),
        tagged(Some("de"), "second"),
    ])
    .unwrap();
    assert_eq!(merged.get_for_locale("de"), "second");
    assert_eq!(merged.get_for_locale("fr"), "f");
}

#[test]
fn merge_without_an_untagged_text_gives_nothing() {
    assert_eq!(TranslatableString::merge(&vec![tagged(Some("de"), "d")]), None);
    assert_eq!(TranslatableString::merge(&vec![]), None);
}

#[test]
fn merge_keeps_the_last_untagged_text() {
    let merged =
        TranslatableString::merge(&vec![tagged(None, "one"), tagged(None, "two")]).unwrap();
    assert_eq!(merged.get_default(), "two");
}

#[test]
fn entries_merge_back_into_the_value() {
    let t = TranslatableString::with_default("x").and_locale("de", "d").and_locale("fr", "f");
    let entries = t.entries();
    assert_eq!(entries[0], (None, "x".to_string()));
    assert_eq!(TranslatableString::merge(&entries), Some(t));
}

#[test]
fn list_with_default_and_translation() {
    let k = TranslatableVec::with_default(vec!["internet", "web", "browser"])
        .and_locale("fr_FR", vec!["navigateur"]);
    assert_eq!(k.get_default(), &vec!["internet".to_string(), "web".to_string(), "browser".to_string()]);
    assert_eq!(k.get_for_locale("fr_FR"), &vec!["navigateur".to_string()]);
    assert_eq!(k.get_for_locale("de").len(), 3);
    assert_eq!(k.get_translation("de"), None);
}

#[test]
fn list_equality_sees_order_of_words_but_not_of_locales() {
    let a = TranslatableVec::with_default(vec!["a", "b"]).and_locale("de", vec!["x"]).and_locale("fr", vec!["y"]);
    let b = TranslatableVec::with_default(vec!["a", "b"]).and_locale("fr", vec!["y"]).and_locale("de", vec!["x"]);
    assert_eq!(a, b);
    assert_ne!(a, TranslatableVec::with_default(vec!["b", "a"]).and_locale("de", vec!["x"]).and_locale("fr", vec!["y"]));
    assert_ne!(TranslatableVec::with_default(vec!["a"]), TranslatableVec::with_default(vec!["a", "a"]));
}

#[test]
fn list_merge_follows_the_rule_of_texts() {
    let words = |w: &[&str]| w.iter().map(|s| s.to_string()).collect::<Vec<String>>();
    let merged = TranslatableVec::merge(&vec![
        (None, words(&["book", "reader"])),
        (Some("de".to_string()), words(&["Buch"])),
        (Some("de".to_string()), words(&["Buch", "Leser"])),
    ])
    .unwrap();
    assert_eq!(
        merged,
        TranslatableVec::with_default(vec!["book", "reader"]).and_locale("de", vec!["Buch", "Leser"])
    );
    assert_eq!(TranslatableVec::merge(&vec![(Some("de".to_string()), words(&["Buch"]))]), None);
}
