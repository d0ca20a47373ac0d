use appstream::enums::{Category, ComponentKind, Icon, ImageKind, ProjectUrl, Provide};
use appstream::{
    AppId, Collection, CollectionBuilder, ComponentBuilder, DecodeError, ImageBuilder,
    ReleaseBuilder, ScreenshotBuilder, TranslatableString, TranslatableVec, Url,
};

const SPEC_EXAMPLE: &str = r#"<?xml version="1.0" encoding="UTF-8"?>
<components version="0.10">
  <component type="desktop-application">
    <id>org.mozilla.Firefox</id>
    <pkgname>firefox-bin</pkgname>
    <name>Firefox</name>
    <name xml:lang="en_GB">Firefoux</name>
    <summary>Web browser</summary>
    <summary xml:lang="fr_FR">Navigateur web</summary>
    <project_license>MPL-2.0</project_license>
    <keywords>
      <keyword>internet</keyword>
      <keyword>web</keyword>
      <keyword>browser</keyword>
    </keywords>
    <keywords xml:lang="fr_FR">
      <keyword>navigateur</keyword>
    </keywords>
    <url type="homepage">https://www.mozilla.com</url>
    <screenshots>
      <screenshot type="default">
        <image type="source" width="800" height="600">https://www.awesomedistro.example.org/en_US/firefox.desktop/main.png</image>
        <image type="thumbnail" width="200" height="150">https://www.awesomedistro.example.org/en_US/firefox.desktop/main-small.png</image>
      </screenshot>
    </screenshots>
    <provides>
      <binary>firefox</binary>
    </provides>
    <mimetypes>
      <mimetype>text/html</mimetype>
      <mimetype>text/xml</mimetype>
      <mimetype>application/xhtml+xml</mimetype>
      <mimetype>application/vnd.mozilla.xul+xml</mimetype>
      <mimetype>text/mml</mimetype>
      <mimetype>application/x-xpinstall</mimetype>
      <mimetype>x-scheme-handler/http</mimetype>
      <mimetype>x-scheme-handler/https</mimetype>
    </mimetypes>
    <categories>
      <category>network</category>
      <category>webbrowser</category>
    </categories>
    <icon type="stock">web-browser</icon>
    <icon type="cached">firefox.png</icon>
  </component>
  <component>
    <id>org.freedesktop.PulseAudio</id>
    <name>PulseAudio</name>
    <summary>The PulseAudio sound server</summary>
    <url type="homepage">https://www.freedesktop.org/wiki/Software/PulseAudio/</url>
    <project_license>GPL-2.0+</project_license>
    <provides>
      <library>libpulse-simple.so.0</library>
      <library>libpulse.so.0</library>
      <binary>start-pulseaudio-kde</binary>
      <binary>start-pulseaudio-x11</binary>
    </provides>
    <releases>
      <release version="2.0"/>
    </releases>
  </component>
  <component type="font">
    <id>org.linuxlibertine.LinuxLibertine</id>
    <name>Linux Libertine</name>
    <summary>Linux Libertine Open fonts</summary>
    <provides>
      <font>LinLibertine_M.otf</font>
    </provides>
  </component>
</components>
"#;

const WEB_APPS: &str = r#"<?xml version="1.0" encoding="UTF-8"?>
<components version="0.8" origin="fedora-web-apps">
  <component type="web-application">
    <id>epiphany-kindlecloud.desktop</id>
    <name>Kindle Cloud Reader</name>
    <summary>Read instantly in your browser</summary>
    <icon type="remote">http://g-ecx.images-amazon.com/images/G/01/kindle/www/ariel/kindle-icon-kcp120._SL90_.png</icon>
    <categories>
      <category>Education</category>
      <category>Literature</category>
    </categories>
    <keywords>
      <keyword>book</keyword>
      <keyword>ebook</keyword>
      <keyword>reader</keyword>
    </keywords>
    <url type="homepage">https://read.amazon.com</url>
    <metadata_license>CC0-1.0</metadata_license>
  </component>
</components>
"#;

#[test]
fn spec_example_collection() {
    let c1 = Collection::from_xml(SPEC_EXAMPLE).unwrap();

    let c2 = CollectionBuilder::new("0.10")
        .component(
            ComponentBuilder::new(
                AppId::try_from("org.mozilla.Firefox").unwrap(),
                TranslatableString::with_default("Firefox").and_locale("en_GB", "Firefoux")
            )
            .kind(ComponentKind::DesktopApplication)
            .pkgname("firefox-bin")
            .project_license("MPL-2.0".into())
            .keywords(TranslatableVec::with_default(vec!["internet","web", "browser"]).and_locale("fr_FR", vec!["navigateur"]))
            .summary(TranslatableString::with_default("Web browser").and_locale("fr_FR", "Navigateur web"))
            .url(ProjectUrl::Homepage(Url::parse("https://www.mozilla.com").unwrap()))
            .screenshot(
                ScreenshotBuilder::new().image(
                    ImageBuilder::new(Url::parse("https://www.awesomedistro.example.org/en_US/firefox.desktop/main.png").unwrap())
                        .kind(ImageKind::Source)
                        .width(800)
                        .height(600)
                        .build(),
                )
                .image(
                    ImageBuilder::new(Url::parse("https://www.awesomedistro.example.org/en_US/firefox.desktop/main-small.png").unwrap())
                        .kind(ImageKind::Thumbnail)
                        .width(200)
                        .height(150)
                        .build(),
                ).build()
            )
            .provide(Provide::Binary("firefox".into()))
            .mimetype("text/html")
            .mimetype("text/xml")
            .mimetype("application/xhtml+xml")
            .mimetype("application/vnd.mozilla.xul+xml")
            .mimetype("text/mml")
            .mimetype("application/x-xpinstall")
            .mimetype("x-scheme-handler/http")
            .mimetype("x-scheme-handler/https")
            .category(Category::Unknown("network".into()))
            .category(Category::Unknown("webbrowser".into()))
            .icon(Icon::Stock("web-browser".into()))
            .icon(Icon::Cached("firefox.png".into()))
            .build()
        )
        .component(
            ComponentBuilder::new(
                AppId::try_from("org.freedesktop.PulseAudio").unwrap(),
                TranslatableString::with_default("PulseAudio")
            )
            .summary(TranslatableString::with_default("The PulseAudio sound server"))
            .project_license("GPL-2.0+".into())
            .url(ProjectUrl::Homepage(Url::parse("https://www.freedesktop.org/wiki/Software/PulseAudio/").unwrap()))
            .provide(Provide::Library("libpulse-simple.so.0".into()))
            .provide(Provide::Library("libpulse.so.0".into()))
            .provide(Provide::Binary("start-pulseaudio-kde".into()))
            .provide(Provide::Binary("start-pulseaudio-x11".into()))
            .release(ReleaseBuilder::new("2.0").build())
            .build()
        )
        .component(
            ComponentBuilder::new(
                AppId::try_from("org.linuxlibertine.LinuxLibertine").unwrap(),
                TranslatableString::with_default("Linux Libertine")
            )
            .kind(ComponentKind::Font)
            .summary(TranslatableString::with_default("Linux Libertine Open fonts"))
            .provide(Provide::Font("LinLibertine_M.otf".into()))
            .build()
        )
        .build();
    assert_eq!(c1, c2);
}

#[test]
fn web_collection() {
    let c = Collection::from_xml(WEB_APPS).unwrap();

    assert_eq!(c.version, "0.8");
    let comp = c.components.get(0).unwrap();
    assert_eq!(comp.kind, ComponentKind::WebApplication);
    assert_eq!(comp.icons, vec![
        Icon::Remote{
            url: Url::parse("http://g-ecx.images-amazon.com/images/G/01/kindle/www/ariel/kindle-icon-kcp120._SL90_.png").unwrap(),
            width: None,
            height: None
        }
    ]);
    assert_eq!(
        comp.categories,
        vec![Category::Education, Category::Literature,]
    );

    let keywords = vec!["book", "ebook", "reader"];

    assert_eq!(comp.keywords, Some(TranslatableVec::with_default(keywords)))
}

#[test]
fn origin_is_read_and_may_be_absent() {
    assert_eq!(Collection::from_xml(WEB_APPS).unwrap().origin, Some("fedora-web-apps".to_string()));
    assert_eq!(Collection::from_xml(SPEC_EXAMPLE).unwrap().origin, None);
}

fn two_of_one_id() -> Collection {
    Collection::from_xml(
        "<components version='0.12'>\
         <component><id>org.example.App</id><name>First</name></component>\
         <component><id>org.example.Other</id><name>Between</name></component>\
         <component type='addon'><id>org.example.App</id><name>Second</name></component>\
         </components>",
    )
    .unwrap()
}

#[test]
fn lookup_returns_every_component_of_the_id_in_order() {
    let c = two_of_one_id();
    let found = c.find_by_id(AppId::try_from("org.example.App").unwrap());
    assert_eq!(found.len(), 2);
    assert_eq!(found[0].name.get_default(), "First");
    assert_eq!(found[1].name.get_default(), "Second");
    assert_eq!(found[1].kind, ComponentKind::Addon);
}

#[test]
fn lookup_of_an_absent_id_finds_nothing() {
    let c = two_of_one_id();
    assert!(c.find_by_id(AppId::try_from("org.example.Absent").unwrap()).is_empty());
    assert_eq!(c.find_by_id(AppId::try_from("org.example.Other").unwrap()).len(), 1);
}

#[test]
fn component_without_type_is_generic() {
    let c = two_of_one_id();
    assert_eq!(c.components[0].kind, ComponentKind::Generic);
    assert_eq!(c.components[0].summary, None);
    assert_eq!(c.components[0].keywords, None);
    assert!(c.components[0].urls.is_empty());
}

#[test]
fn missing_version_is_reported() {
    assert_eq!(
        Collection::from_xml("<components/>"),
        Err(DecodeError::MissingRequiredField("components/@version".to_string()))
    );
}

#[test]
fn missing_identifier_is_reported() {
    assert_eq!(
        Collection::from_xml("<components version='1'><component><name>N</name></component></components>"),
        Err(DecodeError::MissingRequiredField("component/id".to_string()))
    );
}

#[test]
fn missing_default_name_is_reported() {
    assert_eq!(
        Collection::from_xml(
            "<components version='1'><component><id>a.b</id><name xml:lang='de'>N</name></component></components>"
        ),
        Err(DecodeError::MissingRequiredField("component/name".to_string()))
    );
}

#[test]
fn malformed_identifier_is_reported() {
    let r = Collection::from_xml(
        "<components version='1'><component><id>no dots</id><name>N</name></component></components>",
    );
    match r {
        Err(DecodeError::ValidationError(e)) => {
            assert_eq!(e.path, "component/id");
            assert_eq!(e.input, "no dots");
        }
        other => panic!("{:?}", other),
    }
}

#[test]
fn malformed_location_is_reported() {
    let r = Collection::from_xml(
        "<components version='1'><component><id>a.b</id><name>N</name>\
         <url type='homepage'>::</url></component></components>",
    );
    match r {
        Err(DecodeError::ValidationError(e)) => {
            assert_eq!(e.path, "url");
            assert_eq!(e.input, "::");
        }
        other => panic!("{:?}", other),
    }
}

#[test]
fn release_without_version_is_reported() {
    assert_eq!(
        Collection::from_xml(
            "<components version='1'><component><id>a.b</id><name>N</name>\
             <releases><release date='2020-01-01'/></releases></component></components>"
        ),
        Err(DecodeError::MissingRequiredField("release/@version".to_string()))
    );
}

#[test]
fn first_failing_component_fails_the_document() {
    assert_eq!(
        Collection::from_xml(
            "<components version='1'><component><id>a.b</id><name>N</name></component>\
             <component><name>M</name></component></components>"
        ),
        Err(DecodeError::MissingRequiredField("component/id".to_string()))
    );
}

#[test]
fn unknown_vocabulary_is_kept() {
    let c = Collection::from_xml(
        "<components version='1'><component type='gadget'><id>a.b</id><name>N</name>\
         <url type='mailing-list'>https://example.org/list</url>\
         <url>https://example.org/plain</url>\
         <icon type='holographic'>shiny</icon>\
         <provides><kernel-module>kmod</kernel-module></provides>\
         <categories><category>Quantum</category></categories>\
         </component></components>",
    )
    .unwrap();
    let comp = &c.components[0];
    assert_eq!(comp.kind, ComponentKind::Unknown("gadget".to_string()));
    assert_eq!(comp.kind.to_token(), "gadget");
    assert_eq!(
        comp.urls,
        vec![
            ProjectUrl::Unknown("mailing-list".to_string(), Url::parse("https://example.org/list").unwrap()),
            ProjectUrl::Unknown(String::new(), Url::parse("https://example.org/plain").unwrap()),
        ]
    );
    assert_eq!(comp.urls[0].kind_token(), "mailing-list");
    assert_eq!(comp.icons, vec![Icon::Unknown("holographic".to_string(), "shiny".to_string())]);
    assert_eq!(comp.provides, vec![Provide::Unknown("kernel-module".to_string(), "kmod".to_string())]);
    assert_eq!(comp.provides[0].kind_token(), "kernel-module");
    assert_eq!(comp.categories, vec![Category::Unknown("Quantum".to_string())]);
    assert_eq!(comp.categories[0].to_token(), "Quantum");
}

#[test]
fn icon_sizes_are_read_for_local_and_remote_icons() {
    let c = Collection::from_xml(
        "<components version='1'><component><id>a.b</id><name>N</name>\
         <icon type='local' width='64' height='32'>/usr/share/a.png</icon>\
         <icon type='remote' width='128'>https://example.org/a.png</icon>\
         </component></components>",
    )
    .unwrap();
    assert_eq!(
        c.components[0].icons,
        vec![
            Icon::Local { path: "/usr/share/a.png".to_string(), width: Some(64), height: Some(32) },
            Icon::Remote { url: Url::parse("https://example.org/a.png").unwrap(), width: Some(128), height: None },
        ]
    );
}

#[test]
fn errors_describe_themselves() {
    assert_eq!(DecodeError::MalformedDocument.describe(), "the document is not well-formed");
    assert_eq!(
        DecodeError::MissingRequiredField("component/id".to_string()).describe(),
        "missing required field component/id"
    );
    assert_eq!(
        DecodeError::invalid("image/@width", "wide").describe(),
        "invalid value at image/@width: wide"
    );
}

#[test]
fn decoded_collection_can_be_rebuilt_by_the_builders() {
    for text in [SPEC_EXAMPLE, WEB_APPS] {
        let decoded = Collection::from_xml(text).unwrap();
        assert_eq!(decoded.rebuild(), decoded);
    }
    let odd = Collection::from_xml(
        "<components version='1' origin='o'><component type='gadget'><id>a.b</id><name>N</name>\
         <icon type='local' width='1'>/p</icon><icon type='glow'>g</icon>\
         <url type='faq'>https://example.org/faq</url>\
         <screenshots><screenshot type='extra'><caption>c</caption><caption xml:lang='de'>d</caption>\
         <image type='poster' height='2'>https://example.org/i</image>\
         <video container='mkv'>https://example.org/v</video></screenshot></screenshots>\
         <releases><release version='1.0' date='2020-02-02'/></releases>\
         </component></components>",
    )
    .unwrap();
    assert_eq!(odd.rebuild(), odd);
    assert_eq!(odd.components[0].releases[0].date, Some("2020-02-02".to_string()));
}
