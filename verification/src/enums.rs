//! Open vocabularies: fixed variants beside one that keeps an unknown token.

use vstd::prelude::*;
use crate::text::same_text;
use crate::error::ValidationError;
use crate::weburl::{url_parse, Url};

verus! {

/// The menu category of a component.
#[derive(Clone, Debug, PartialEq, Eq)]
pub enum Category {
    AudioVideo,
    Audio,
    Video,
    Development,
    Education,
    Game,
    Graphics,
    Network,
    Office,
    Science,
    Settings,
    System,
    Utility,
    Building,
    Debugger,
    IDE,
    Translation,
    Calendar,
    Database,
    Dictionary,
    Email,
    Finance,
    Presentation,
    Spreadsheet,
    WordProcessor,
    Photography,
    Publishing,
    Viewer,
    TextEditor,
    WebBrowser,
    Literature,
    /// A category outside the vocabulary, kept as written.
    Unknown(String),
}

impl Category {
    /// The token that stands for this category in a document.
    pub open spec fn token(&self) -> Seq<char> {
        match self {
            Category::AudioVideo => "AudioVideo"@,
            Category::Audio => "Audio"@,
            Category::Video => "Video"@,
            Category::Development => "Development"@,
            Category::Education => "Education"@,
            Category::Game => "Game"@,
            Category::Graphics => "Graphics"@,
            Category::Network => "Network"@,
            Category::Office => "Office"@,
            Category::Science => "Science"@,
            Category::Settings => "Settings"@,
            Category::System => "System"@,
            Category::Utility => "Utility"@,
            Category::Building => "Building"@,
            Category::Debugger => "Debugger"@,
            Category::IDE => "IDE"@,
            Category::Translation => "Translation"@,
            Category::Calendar => "Calendar"@,
            Category::Database => "Database"@,
            Category::Dictionary => "Dictionary"@,
            Category::Email => "Email"@,
            Category::Finance => "Finance"@,
            Category::Presentation => "Presentation"@,
            Category::Spreadsheet => "Spreadsheet"@,
            Category::WordProcessor => "WordProcessor"@,
            Category::Photography => "Photography"@,
            Category::Publishing => "Publishing"@,
            Category::Viewer => "Viewer"@,
            Category::TextEditor => "TextEditor"@,
            Category::WebBrowser => "WebBrowser"@,
            Category::Literature => "Literature"@,
            Category::Unknown(t) => t@,
        }
    }

    /// Whether `token` belongs to the vocabulary.
    pub open spec fn is_known(token: Seq<char>) -> bool {
        token == "AudioVideo"@
            || token == "Audio"@
            || token == "Video"@
            || token == "Development"@
            || token == "Education"@
            || token == "Game"@
            || token == "Graphics"@
            || token == "Network"@
            || token == "Office"@
            || token == "Science"@
            || token == "Settings"@
            || token == "System"@
            || token == "Utility"@
            || token == "Building"@
            || token == "Debugger"@
            || token == "IDE"@
            || token == "Translation"@
            || token == "Calendar"@
            || token == "Database"@
            || token == "Dictionary"@
            || token == "Email"@
            || token == "Finance"@
            || token == "Presentation"@
            || token == "Spreadsheet"@
            || token == "WordProcessor"@
            || token == "Photography"@
            || token == "Publishing"@
            || token == "Viewer"@
            || token == "TextEditor"@
            || token == "WebBrowser"@
            || token == "Literature"@
    }

    /// Whether the value is in the form that decoding gives: a token of the
    /// vocabulary is never held as unknown.
    pub open spec fn wf(&self) -> bool {
        match self {
            Category::Unknown(t) => !Self::is_known(t@),
            _ => true,
        }
    }

    /// The category that `token` names; a token outside the vocabulary is kept.
    pub fn from_token(token: &str) -> (r: Self)
        ensures
            r.token() == token@,
            r.wf(),
            r is Unknown <==> !Self::is_known(token@),
    {
        if same_text(token, "AudioVideo") {
            Category::AudioVideo
        } else if same_text(token, "Audio") {
            Category::Audio
        } else if same_text(token, "Video") {
            Category::Video
        } else if same_text(token, "Development") {
            Category::Development
        } else if same_text(token, "Education") {
            Category::Education
        } else if same_text(token, "Game") {
            Category::Game
        } else if same_text(token, "Graphics") {
            Category::Graphics
        } else if same_text(token, "Network") {
            Category::Network
        } else if same_text(token, "Office") {
            Category::Office
        } else if same_text(token, "Science") {
            Category::Science
        } else if same_text(token, "Settings") {
            Category::Settings
        } else if same_text(token, "System") {
            Category::System
        } else if same_text(token, "Utility") {
            Category::Utility
        } else if same_text(token, "Building") {
            Category::Building
        } else if same_text(token, "Debugger") {
            Category::Debugger
        } else if same_text(token, "IDE") {
            Category::IDE
        } else if same_text(token, "Translation") {
            Category::Translation
        } else if same_text(token, "Calendar") {
            Category::Calendar
        } else if same_text(token, "Database") {
            Category::Database
        } else if same_text(token, "Dictionary") {
            Category::Dictionary
        } else if same_text(token, "Email") {
            Category::Email
        } else if same_text(token, "Finance") {
            Category::Finance
        } else if same_text(token, "Presentation") {
            Category::Presentation
        } else if same_text(token, "Spreadsheet") {
            Category::Spreadsheet
        } else if same_text(token, "WordProcessor") {
            Category::WordProcessor
        } else if same_text(token, "Photography") {
            Category::Photography
        } else if same_text(token, "Publishing") {
            Category::Publishing
        } else if same_text(token, "Viewer") {
            Category::Viewer
        } else if same_text(token, "TextEditor") {
            Category::TextEditor
        } else if same_text(token, "WebBrowser") {
            Category::WebBrowser
        } else if same_text(token, "Literature") {
            Category::Literature
        } else {
            Category::Unknown(token.to_owned())
        }
    }

    /// The token that stands for this category.
    pub fn to_token(&self) -> (r: String)
        ensures
            r@ == self.token(),
    {
        match self {
            Category::AudioVideo => "AudioVideo".to_owned(),
            Category::Audio => "Audio".to_owned(),
            Category::Video => "Video".to_owned(),
            Category::Development => "Development".to_owned(),
            Category::Education => "Education".to_owned(),
            Category::Game => "Game".to_owned(),
            Category::Graphics => "Graphics".to_owned(),
            Category::Network => "Network".to_owned(),
            Category::Office => "Office".to_owned(),
            Category::Science => "Science".to_owned(),
            Category::Settings => "Settings".to_owned(),
            Category::System => "System".to_owned(),
            Category::Utility => "Utility".to_owned(),
            Category::Building => "Building".to_owned(),
            Category::Debugger => "Debugger".to_owned(),
            Category::IDE => "IDE".to_owned(),
            Category::Translation => "Translation".to_owned(),
            Category::Calendar => "Calendar".to_owned(),
            Category::Database => "Database".to_owned(),
            Category::Dictionary => "Dictionary".to_owned(),
            Category::Email => "Email".to_owned(),
            Category::Finance => "Finance".to_owned(),
            Category::Presentation => "Presentation".to_owned(),
            Category::Spreadsheet => "Spreadsheet".to_owned(),
            Category::WordProcessor => "WordProcessor".to_owned(),
            Category::Photography => "Photography".to_owned(),
            Category::Publishing => "Publishing".to_owned(),
            Category::Viewer => "Viewer".to_owned(),
            Category::TextEditor => "TextEditor".to_owned(),
            Category::WebBrowser => "WebBrowser".to_owned(),
            Category::Literature => "Literature".to_owned(),
            Category::Unknown(t) => t.clone(),
        }
    }
}

/// What sort of software a component is.
#[derive(Clone, Debug, PartialEq, Eq)]
pub enum ComponentKind {
    Runtime,
    ConsoleApplication,
    DesktopApplication,
    WebApplication,
    InputMethod,
    OS,
    Theme,
    Firmware,
    Addon,
    Font,
    Generic,
    IconTheme,
    Localization,
    Driver,
    Codec,
    /// A kind outside the vocabulary, kept as written.
    Unknown(String),
}

impl ComponentKind {
    /// The token that stands for this kind in a document.
    pub open spec fn token(&self) -> Seq<char> {
        match self {
            ComponentKind::Runtime => "runtime"@,
            ComponentKind::ConsoleApplication => "console-application"@,
            ComponentKind::DesktopApplication => "desktop-application"@,
            ComponentKind::WebApplication => "web-application"@,
            ComponentKind::InputMethod => "inputmethod"@,
            ComponentKind::OS => "operating-system"@,
            ComponentKind::Theme => "theme"@,
            ComponentKind::Firmware => "firmware"@,
            ComponentKind::Addon => "addon"@,
            ComponentKind::Font => "font"@,
            ComponentKind::Generic => "generic"@,
            ComponentKind::IconTheme => "icon-theme"@,
            ComponentKind::Localization => "localization"@,
            ComponentKind::Driver => "driver"@,
            ComponentKind::Codec => "codec"@,
            ComponentKind::Unknown(t) => t@,
        }
    }

    /// Whether `token` belongs to the vocabulary.
    pub open spec fn is_known(token: Seq<char>) -> bool {
        token == "runtime"@
            || token == "console-application"@
            || token == "desktop-application"@
            || token == "web-application"@
            || token == "inputmethod"@
            || token == "operating-system"@
            || token == "theme"@
            || token == "firmware"@
            || token == "addon"@
            || token == "font"@
            || token == "generic"@
            || token == "icon-theme"@
            || token == "localization"@
            || token == "driver"@
            || token == "codec"@
    }

    /// Whether the value is in the form that decoding gives: a token of the
    /// vocabulary is never held as unknown.
    pub open spec fn wf(&self) -> bool {
        match self {
            ComponentKind::Unknown(t) => !Self::is_known(t@),
            _ => true,
        }
    }

    /// The kind that `token` names; a token outside the vocabulary is kept.
    pub fn from_token(token: &str) -> (r: Self)
        ensures
            r.token() == token@,
            r.wf(),
            r is Unknown <==> !Self::is_known(token@),
    {
        if same_text(token, "runtime") {
            ComponentKind::Runtime
        } else if same_text(token, "console-application") {
            ComponentKind::ConsoleApplication
        } else if same_text(token, "desktop-application") {
            ComponentKind::DesktopApplication
        } else if same_text(token, "web-application") {
            ComponentKind::WebApplication
        } else if same_text(token, "inputmethod") {
            ComponentKind::InputMethod
        } else if same_text(token, "operating-system") {
            ComponentKind::OS
        } else if same_text(token, "theme") {
            ComponentKind::Theme
        } else if same_text(token, "firmware") {
            ComponentKind::Firmware
        } else if same_text(token, "addon") {
            ComponentKind::Addon
        } else if same_text(token, "font") {
            ComponentKind::Font
        } else if same_text(token, "generic") {
            ComponentKind::Generic
        } else if same_text(token, "icon-theme") {
            ComponentKind::IconTheme
        } else if same_text(token, "localization") {
            ComponentKind::Localization
        } else if same_text(token, "driver") {
            ComponentKind::Driver
        } else if same_text(token, "codec") {
            ComponentKind::Codec
        } else {
            ComponentKind::Unknown(token.to_owned())
        }
    }

    /// The token that stands for this kind.
    pub fn to_token(&self) -> (r: String)
        ensures
            r@ == self.token(),
    {
        match self {
            ComponentKind::Runtime => "runtime".to_owned(),
            ComponentKind::ConsoleApplication => "console-application".to_owned(),
            ComponentKind::DesktopApplication => "desktop-application".to_owned(),
            ComponentKind::WebApplication => "web-application".to_owned(),
            ComponentKind::InputMethod => "inputmethod".to_owned(),
            ComponentKind::OS => "operating-system".to_owned(),
            ComponentKind::Theme => "theme".to_owned(),
            ComponentKind::Firmware => "firmware".to_owned(),
            ComponentKind::Addon => "addon".to_owned(),
            ComponentKind::Font => "font".to_owned(),
            ComponentKind::Generic => "generic".to_owned(),
            ComponentKind::IconTheme => "icon-theme".to_owned(),
            ComponentKind::Localization => "localization".to_owned(),
            ComponentKind::Driver => "driver".to_owned(),
            ComponentKind::Codec => "codec".to_owned(),
            ComponentKind::Unknown(t) => t.clone(),
        }
    }
}

/// Whether an image is the full-size one or a reduced copy.
#[derive(Clone, Debug, PartialEq, Eq)]
pub enum ImageKind {
    Source,
    Thumbnail,
    /// A kind outside the vocabulary, kept as written.
    Unknown(String),
}

impl ImageKind {
    /// The token that stands for this kind in a document.
    pub open spec fn token(&self) -> Seq<char> {
        match self {
            ImageKind::Source => "source"@,
            ImageKind::Thumbnail => "thumbnail"@,
            ImageKind::Unknown(t) => t@,
        }
    }

    /// Whether `token` belongs to the vocabulary.
    pub open spec fn is_known(token: Seq<char>) -> bool {
        token == "source"@
            || token == "thumbnail"@
    }

    /// Whether the value is in the form that decoding gives: a token of the
    /// vocabulary is never held as unknown.
    pub open spec fn wf(&self) -> bool {
        match self {
            ImageKind::Unknown(t) => !Self::is_known(t@),
            _ => true,
        }
    }

    /// The kind that `token` names; a token outside the vocabulary is kept.
    pub fn from_token(token: &str) -> (r: Self)
        ensures
            r.token() == token@,
            r.wf(),
            r is Unknown <==> !Self::is_known(token@),
    {
        if same_text(token, "source") {
            ImageKind::Source
        } else if same_text(token, "thumbnail") {
            ImageKind::Thumbnail
        } else {
            ImageKind::Unknown(token.to_owned())
        }
    }

    /// The token that stands for this kind.
    pub fn to_token(&self) -> (r: String)
        ensures
            r@ == self.token(),
    {
        match self {
            ImageKind::Source => "source".to_owned(),
            ImageKind::Thumbnail => "thumbnail".to_owned(),
            ImageKind::Unknown(t) => t.clone(),
        }
    }
}

/// Something that a component provides to the system.
#[derive(Clone, Debug, PartialEq, Eq)]
pub enum Provide {
    Library(String),
    Binary(String),
    Font(String),
    Modalias(String),
    Firmware(String),
    Python2(String),
    Python3(String),
    DBus(String),
    Id(String),
    Codec(String),
    /// An item of a kind outside the vocabulary: the kind as written, and the name.
    Unknown(String, String),
}

impl View for Provide {
    type V = (Seq<char>, Seq<char>);

    /// The kind token and the name of the item.
    open spec fn view(&self) -> (Seq<char>, Seq<char>) {
        match self {
            Provide::Library(p) => ("library"@, p@),
            Provide::Binary(p) => ("binary"@, p@),
            Provide::Font(p) => ("font"@, p@),
            Provide::Modalias(p) => ("modalias"@, p@),
            Provide::Firmware(p) => ("firmware"@, p@),
            Provide::Python2(p) => ("python2"@, p@),
            Provide::Python3(p) => ("python3"@, p@),
            Provide::DBus(p) => ("dbus"@, p@),
            Provide::Id(p) => ("id"@, p@),
            Provide::Codec(p) => ("codec"@, p@),
            Provide::Unknown(kind, p) => (kind@, p@),
        }
    }
}

impl Provide {
    /// Whether `kind` belongs to the vocabulary.
    pub open spec fn is_known(kind: Seq<char>) -> bool {
        kind == "library"@
            || kind == "binary"@
            || kind == "font"@
            || kind == "modalias"@
            || kind == "firmware"@
            || kind == "python2"@
            || kind == "python3"@
            || kind == "dbus"@
            || kind == "id"@
            || kind == "codec"@
    }

    /// Whether the value is in the form that decoding gives: a kind of the
    /// vocabulary is never held as unknown.
    pub open spec fn wf(&self) -> bool {
        match self {
            Provide::Unknown(kind, _) => !Self::is_known(kind@),
            _ => true,
        }
    }

    /// The provided item of kind `kind`; a kind outside the vocabulary is kept.
    pub fn from_parts(kind: &str, value: &str) -> (r: Self)
        ensures
            r@ == (kind@, value@),
            r.wf(),
            r is Unknown <==> !Self::is_known(kind@),
    {
        if same_text(kind, "library") {
            Provide::Library(value.to_owned())
        } else if same_text(kind, "binary") {
            Provide::Binary(value.to_owned())
        } else if same_text(kind, "font") {
            Provide::Font(value.to_owned())
        } else if same_text(kind, "modalias") {
            Provide::Modalias(value.to_owned())
        } else if same_text(kind, "firmware") {
            Provide::Firmware(value.to_owned())
        } else if same_text(kind, "python2") {
            Provide::Python2(value.to_owned())
        } else if same_text(kind, "python3") {
            Provide::Python3(value.to_owned())
        } else if same_text(kind, "dbus") {
            Provide::DBus(value.to_owned())
        } else if same_text(kind, "id") {
            Provide::Id(value.to_owned())
        } else if same_text(kind, "codec") {
            Provide::Codec(value.to_owned())
        } else {
            Provide::Unknown(kind.to_owned(), value.to_owned())
        }
    }

    /// The kind token of this provided item.
    pub fn kind_token(&self) -> (r: String)
        ensures
            r@ == self@.0,
    {
        match self {
            Provide::Library(_) => "library".to_owned(),
            Provide::Binary(_) => "binary".to_owned(),
            Provide::Font(_) => "font".to_owned(),
            Provide::Modalias(_) => "modalias".to_owned(),
            Provide::Firmware(_) => "firmware".to_owned(),
            Provide::Python2(_) => "python2".to_owned(),
            Provide::Python3(_) => "python3".to_owned(),
            Provide::DBus(_) => "dbus".to_owned(),
            Provide::Id(_) => "id".to_owned(),
            Provide::Codec(_) => "codec".to_owned(),
            Provide::Unknown(kind, _) => kind.clone(),
        }
    }

    /// What this provided item names.
    pub fn target(&self) -> (r: &String)
        ensures
            r@ == self@.1,
    {
        match self {
            Provide::Library(p) => p,
            Provide::Binary(p) => p,
            Provide::Font(p) => p,
            Provide::Modalias(p) => p,
            Provide::Firmware(p) => p,
            Provide::Python2(p) => p,
            Provide::Python3(p) => p,
            Provide::DBus(p) => p,
            Provide::Id(p) => p,
            Provide::Codec(p) => p,
            Provide::Unknown(_, p) => p,
        }
    }
}

/// A web location of the project behind a component.
#[derive(Clone, Debug, PartialEq, Eq)]
pub enum ProjectUrl {
    Homepage(Url),
    BugTracker(Url),
    Faq(Url),
    Help(Url),
    Donation(Url),
    Translate(Url),
    Contact(Url),
    /// A location of a kind outside the vocabulary: the kind as written, and the location.
    Unknown(String, Url),
}

impl View for ProjectUrl {
    type V = (Seq<char>, Seq<char>);

    /// The kind token and the location.
    open spec fn view(&self) -> (Seq<char>, Seq<char>) {
        match self {
            ProjectUrl::Homepage(p) => ("homepage"@, p@),
            ProjectUrl::BugTracker(p) => ("bugtracker"@, p@),
            ProjectUrl::Faq(p) => ("faq"@, p@),
            ProjectUrl::Help(p) => ("help"@, p@),
            ProjectUrl::Donation(p) => ("donation"@, p@),
            ProjectUrl::Translate(p) => ("translate"@, p@),
            ProjectUrl::Contact(p) => ("contact"@, p@),
            ProjectUrl::Unknown(kind, p) => (kind@, p@),
        }
    }
}

impl ProjectUrl {
    /// Whether `kind` belongs to the vocabulary.
    pub open spec fn is_known(kind: Seq<char>) -> bool {
        kind == "homepage"@
            || kind == "bugtracker"@
            || kind == "faq"@
            || kind == "help"@
            || kind == "donation"@
            || kind == "translate"@
            || kind == "contact"@
    }

    /// Whether the value is in the form that decoding gives: a kind of the
    /// vocabulary is never held as unknown.
    pub open spec fn wf(&self) -> bool {
        match self {
            ProjectUrl::Unknown(kind, _) => !Self::is_known(kind@),
            _ => true,
        }
    }

    /// The location of kind `kind`; a kind outside the vocabulary is kept.
    pub fn from_parts(kind: &str, url: Url) -> (r: Self)
        ensures
            r@ == (kind@, url@),
            r.wf(),
            r is Unknown <==> !Self::is_known(kind@),
    {
        if same_text(kind, "homepage") {
            ProjectUrl::Homepage(url)
        } else if same_text(kind, "bugtracker") {
            ProjectUrl::BugTracker(url)
        } else if same_text(kind, "faq") {
            ProjectUrl::Faq(url)
        } else if same_text(kind, "help") {
            ProjectUrl::Help(url)
        } else if same_text(kind, "donation") {
            ProjectUrl::Donation(url)
        } else if same_text(kind, "translate") {
            ProjectUrl::Translate(url)
        } else if same_text(kind, "contact") {
            ProjectUrl::Contact(url)
        } else {
            ProjectUrl::Unknown(kind.to_owned(), url)
        }
    }

    /// The kind token of this location.
    pub fn kind_token(&self) -> (r: String)
        ensures
            r@ == self@.0,
    {
        match self {
            ProjectUrl::Homepage(_) => "homepage".to_owned(),
            ProjectUrl::BugTracker(_) => "bugtracker".to_owned(),
            ProjectUrl::Faq(_) => "faq".to_owned(),
            ProjectUrl::Help(_) => "help".to_owned(),
            ProjectUrl::Donation(_) => "donation".to_owned(),
            ProjectUrl::Translate(_) => "translate".to_owned(),
            ProjectUrl::Contact(_) => "contact".to_owned(),
            ProjectUrl::Unknown(kind, _) => kind.clone(),
        }
    }

    /// What this location names.
    pub fn target(&self) -> (r: &Url)
        ensures
            r@ == self@.1,
    {
        match self {
            ProjectUrl::Homepage(p) => p,
            ProjectUrl::BugTracker(p) => p,
            ProjectUrl::Faq(p) => p,
            ProjectUrl::Help(p) => p,
            ProjectUrl::Donation(p) => p,
            ProjectUrl::Translate(p) => p,
            ProjectUrl::Contact(p) => p,
            ProjectUrl::Unknown(_, p) => p,
        }
    }
}

/// An icon of a component.
#[derive(Clone, Debug, PartialEq, Eq)]
pub enum Icon {
    /// The name of an icon of the desktop's theme.
    Stock(String),
    /// The file name of an icon in the catalog's cache.
    Cached(String),
    /// The path of an icon file on the system.
    Local { path: String, width: Option<u32>, height: Option<u32> },
    /// The location of an icon on the web.
    Remote { url: Url, width: Option<u32>, height: Option<u32> },
    /// An icon of a kind outside the vocabulary: the kind as written, and
    /// what it names.
    Unknown(String, String),
}

/// The mathematical model of an `Icon`: its kind token, what it names, and
/// its size where the kind carries one.
pub struct IconView {
    pub kind: Seq<char>,
    pub value: Seq<char>,
    pub width: Option<u32>,
    pub height: Option<u32>,
}

impl View for Icon {
    type V = IconView;

    open spec fn view(&self) -> IconView {
        match self {
            Icon::Stock(name) => IconView {
                kind: "stock"@,
                value: name@,
                width: None,
                height: None,
            },
            Icon::Cached(name) => IconView {
                kind: "cached"@,
                value: name@,
                width: None,
                height: None,
            },
            Icon::Local { path, width, height } => IconView {
                kind: "local"@,
                value: path@,
                width: *width,
                height: *height,
            },
            Icon::Remote { url, width, height } => IconView {
                kind: "remote"@,
                value: url@,
                width: *width,
                height: *height,
            },
            Icon::Unknown(kind, value) => IconView {
                kind: kind@,
                value: value@,
                width: None,
                height: None,
            },
        }
    }
}

/// The icon that a kind token, a name and a size stand for: a remote icon's
/// name must be a location, and only local and remote icons keep a size.
/// `None` where a remote icon's name is no location.
pub open spec fn icon_of(
    kind: Seq<char>,
    value: Seq<char>,
    width: Option<u32>,
    height: Option<u32>,
) -> Option<IconView> {
    if kind == "remote"@ {
        match url_parse(value) {
            Some(url) => Some(IconView { kind, value: url, width, height }),
            None => None,
        }
    } else if kind == "local"@ {
        Some(IconView { kind, value, width, height })
    } else {
        Some(IconView { kind, value, width: None, height: None })
    }
}

impl Icon {
    /// Whether `kind` belongs to the vocabulary.
    pub open spec fn is_known(kind: Seq<char>) -> bool {
        kind == "stock"@ || kind == "cached"@ || kind == "local"@ || kind == "remote"@
    }

    /// Whether the value is in the form that decoding gives: a kind of the
    /// vocabulary is never held as unknown.
    pub open spec fn wf(&self) -> bool {
        match self {
            Icon::Unknown(kind, _) => !Self::is_known(kind@),
            _ => true,
        }
    }

    /// The icon of kind `kind` that names `value`; a kind outside the
    /// vocabulary is kept. Fails where a remote icon's name is no location.
    pub fn from_parts(kind: &str, value: &str, width: Option<u32>, height: Option<u32>) -> (r:
        Result<Self, ValidationError>)
        ensures
            match r {
                Ok(icon) => icon_of(kind@, value@, width, height) == Some(icon@) && icon.wf() && (
                icon is Unknown <==> !Self::is_known(kind@)),
                Err(e) => icon_of(kind@, value@, width, height) is None && e.path@ == "icon"@
                    && e.input@ == value@,
            },
    {
        if same_text(kind, "remote") {
            match Url::parse(value) {
                Ok(url) => Ok(Icon::Remote { url, width, height }),
                Err(_) => Err(ValidationError::new("icon", value)),
            }
        } else if same_text(kind, "local") {
            Ok(Icon::Local { path: value.to_owned(), width, height })
        } else if same_text(kind, "stock") {
            Ok(Icon::Stock(value.to_owned()))
        } else if same_text(kind, "cached") {
            Ok(Icon::Cached(value.to_owned()))
        } else {
            Ok(Icon::Unknown(kind.to_owned(), value.to_owned()))
        }
    }
}

/// A category token outside the vocabulary decodes to the variant that
/// keeps it, and so encodes to the same token again.
pub proof fn unrecognized_category_is_kept(decoded: Category, token: Seq<char>)
    requires
        decoded.token() == token,
        !Category::is_known(token),
    ensures
        decoded matches Category::Unknown(kept) && kept@ == token,
{
}

/// A component kind token outside the vocabulary decodes to the variant
/// that keeps it, and so encodes to the same token again.
pub proof fn unrecognized_component_kind_is_kept(decoded: ComponentKind, token: Seq<char>)
    requires
        decoded.token() == token,
        !ComponentKind::is_known(token),
    ensures
        decoded matches ComponentKind::Unknown(kept) && kept@ == token,
{
}

/// An image kind token outside the vocabulary decodes to the variant that
/// keeps it, and so encodes to the same token again.
pub proof fn unrecognized_image_kind_is_kept(decoded: ImageKind, token: Seq<char>)
    requires
        decoded.token() == token,
        !ImageKind::is_known(token),
    ensures
        decoded matches ImageKind::Unknown(kept) && kept@ == token,
{
}

/// A provided item of a kind outside the vocabulary decodes to the variant
/// that keeps the kind and the name as written.
pub proof fn unrecognized_provide_is_kept(decoded: Provide, kind: Seq<char>, value: Seq<char>)
    requires
        decoded@ == (kind, value),
        !Provide::is_known(kind),
    ensures
        decoded matches Provide::Unknown(k, v) && k@ == kind && v@ == value,
{
}

/// A project location of a kind outside the vocabulary decodes to the
/// variant that keeps the kind as written.
pub proof fn unrecognized_project_url_is_kept(decoded: ProjectUrl, kind: Seq<char>, url: Seq<char>)
    requires
        decoded@ == (kind, url),
        !ProjectUrl::is_known(kind),
    ensures
        decoded matches ProjectUrl::Unknown(k, u) && k@ == kind && u@ == url,
{
}

/// An icon of a kind outside the vocabulary decodes to the variant that
/// keeps the kind and the name as written.
pub proof fn unrecognized_icon_is_kept(decoded: Icon, kind: Seq<char>, value: Seq<char>)
    requires
        decoded@.kind == kind,
        decoded@.value == value,
        !Icon::is_known(kind),
    ensures
        decoded matches Icon::Unknown(k, v) && k@ == kind && v@ == value,
{
}

impl Default for ComponentKind {
    /// A component that names no kind is a generic one.
    fn default() -> (r: Self)
        ensures
            r == ComponentKind::Generic,
    {
        ComponentKind::Generic
    }
}

impl Default for ImageKind {
    /// An image that names no kind is the full-size one.
    fn default() -> (r: Self)
        ensures
            r == ImageKind::Source,
    {
        ImageKind::Source
    }
}

} // verus!
