//! Components: the units of software that a catalog describes.

use vstd::prelude::*;
use crate::decode::{
    element_texts, first_element_text, first_text, localized_entries, number_attribute, number_of,
    tagged_texts, text_attribute, text_option_view, texts_of, try_map, try_map_fails,
    try_map_step,
};
use crate::enums::{icon_of, Category, ComponentKind, Icon, IconView, ProjectUrl, Provide};
use crate::error::{DecodeError, DecodeErrorView};
use crate::ident::{is_valid_id, AppId};
use crate::release::{release_decoder, releases_from, releases_view, Release, ReleaseView};
use crate::screenshot::{
    localized_option_view, screenshot_of, Screenshot, ScreenshotView,
};
use crate::tree::{elements_view, Element, ElementView};
use crate::types::{
    merged, strings_view, LocalizedList, LocalizedText, TranslatableString, TranslatableVec,
};
use crate::weburl::{url_parse, Url};

verus! {

/// One unit of software in a catalog.
#[derive(Clone, Debug, PartialEq)]
pub struct Component {
    pub id: AppId,
    pub kind: ComponentKind,
    pub name: TranslatableString,
    pub summary: Option<TranslatableString>,
    pub pkgname: Option<String>,
    pub project_license: Option<String>,
    pub metadata_license: Option<String>,
    pub keywords: Option<TranslatableVec>,
    pub urls: Vec<ProjectUrl>,
    pub screenshots: Vec<Screenshot>,
    pub releases: Vec<Release>,
    pub provides: Vec<Provide>,
    pub mimetypes: Vec<String>,
    pub categories: Vec<Category>,
    pub icons: Vec<Icon>,
}

/// The mathematical model of a `Component`. Kinds and categories are held
/// as their tokens, project locations and provided items as a kind token
/// with what it names.
pub struct ComponentView {
    pub id: Seq<char>,
    pub kind: Seq<char>,
    pub name: LocalizedText,
    pub summary: Option<LocalizedText>,
    pub pkgname: Option<Seq<char>>,
    pub project_license: Option<Seq<char>>,
    pub metadata_license: Option<Seq<char>>,
    pub keywords: Option<LocalizedList>,
    pub urls: Seq<(Seq<char>, Seq<char>)>,
    pub screenshots: Seq<ScreenshotView>,
    pub releases: Seq<ReleaseView>,
    pub provides: Seq<(Seq<char>, Seq<char>)>,
    pub mimetypes: Seq<Seq<char>>,
    pub categories: Seq<Seq<char>>,
    pub icons: Seq<IconView>,
}

/// The views of a list of project locations.
pub open spec fn urls_view(urls: Seq<ProjectUrl>) -> Seq<(Seq<char>, Seq<char>)> {
    urls.map_values(|u: ProjectUrl| u@)
}

/// The views of a list of screenshots.
pub open spec fn screenshots_view(screenshots: Seq<Screenshot>) -> Seq<ScreenshotView> {
    screenshots.map_values(|s: Screenshot| s@)
}

/// The views of a list of provided items.
pub open spec fn provides_view(provides: Seq<Provide>) -> Seq<(Seq<char>, Seq<char>)> {
    provides.map_values(|p: Provide| p@)
}

/// The tokens of a list of categories.
pub open spec fn categories_view(categories: Seq<Category>) -> Seq<Seq<char>> {
    categories.map_values(|c: Category| c.token())
}

/// The views of a list of icons.
pub open spec fn icons_view(icons: Seq<Icon>) -> Seq<IconView> {
    icons.map_values(|i: Icon| i@)
}

/// The view of a localized list that may be absent.
pub open spec fn list_option_view(list: Option<TranslatableVec>) -> Option<LocalizedList> {
    match list {
        Some(l) => Some(l@),
        None => None,
    }
}

impl View for Component {
    type V = ComponentView;

    open spec fn view(&self) -> ComponentView {
        ComponentView {
            id: self.id@,
            kind: self.kind.token(),
            name: self.name@,
            summary: localized_option_view(self.summary),
            pkgname: text_option_view(self.pkgname),
            project_license: text_option_view(self.project_license),
            metadata_license: text_option_view(self.metadata_license),
            keywords: list_option_view(self.keywords),
            urls: urls_view(self.urls@),
            screenshots: screenshots_view(self.screenshots@),
            releases: releases_view(self.releases@),
            provides: provides_view(self.provides@),
            mimetypes: strings_view(self.mimetypes@),
            categories: categories_view(self.categories@),
            icons: icons_view(self.icons@),
        }
    }
}

/// The elements named `item` inside the first element named `group` inside
/// `e`; none where `e` holds no such group.
pub open spec fn grouped(e: ElementView, group: Seq<char>, item: Seq<char>) -> Seq<ElementView> {
    if e.named(group).len() > 0 {
        e.named(group)[0].named(item)
    } else {
        Seq::empty()
    }
}

/// All elements inside the first element named `group` inside `e`.
pub open spec fn group_members(e: ElementView, group: Seq<char>) -> Seq<ElementView> {
    if e.named(group).len() > 0 {
        e.named(group)[0].elements()
    } else {
        Seq::empty()
    }
}

/// A token that may be absent, read as the empty token where it is.
pub open spec fn token_or_empty(token: Option<Seq<char>>) -> Seq<char> {
    match token {
        Some(t) => t,
        None => Seq::empty(),
    }
}

/// The project location that a `url` element stands for: the kind from its
/// `type` attribute, the location from its text.
pub open spec fn project_url_of(e: ElementView) -> Result<(Seq<char>, Seq<char>), DecodeErrorView> {
    match url_parse(e.text()) {
        None => Err(DecodeErrorView::ValidationError { path: "url"@, input: e.text() }),
        Some(url) => Ok((token_or_empty(e.attribute("type"@)), url)),
    }
}

/// The icon that an `icon` element stands for.
pub open spec fn icon_element_of(e: ElementView) -> Result<IconView, DecodeErrorView> {
    match number_of(e, "width"@, "icon/@width"@) {
        Err(err) => Err(err),
        Ok(width) => match number_of(e, "height"@, "icon/@height"@) {
            Err(err) => Err(err),
            Ok(height) => match icon_of(
                token_or_empty(e.attribute("type"@)),
                e.text(),
                width,
                height,
            ) {
                None => Err(DecodeErrorView::ValidationError { path: "icon"@, input: e.text() }),
                Some(icon) => Ok(icon),
            },
        },
    }
}

/// `project_url_of` as a function value.
pub open spec fn project_url_decoder() -> spec_fn(ElementView) -> Result<
    (Seq<char>, Seq<char>),
    DecodeErrorView,
> {
    |e: ElementView| project_url_of(e)
}

/// `icon_element_of` as a function value.
pub open spec fn icon_decoder() -> spec_fn(ElementView) -> Result<IconView, DecodeErrorView> {
    |e: ElementView| icon_element_of(e)
}

/// `screenshot_of` as a function value.
pub open spec fn screenshot_decoder() -> spec_fn(ElementView) -> Result<
    ScreenshotView,
    DecodeErrorView,
> {
    |e: ElementView| screenshot_of(e)
}

/// The provided items that elements stand for: each element's name is the
/// kind, its text the item.
pub open spec fn provided_by(elements: Seq<ElementView>) -> Seq<(Seq<char>, Seq<char>)> {
    elements.map_values(|e: ElementView| (e.name, e.text()))
}

/// The lists of keywords that `keywords` elements stand for, each with the
/// locale tag of its element.
pub open spec fn tagged_lists(elements: Seq<ElementView>) -> Seq<
    (Option<Seq<char>>, Seq<Seq<char>>),
> {
    elements.map_values(
        |e: ElementView| (e.attribute("xml:lang"@), texts_of(e.named("keyword"@))),
    )
}

/// The identifier of a component, from its `id` elements: the first one is
/// read; it is required and must follow the identifier grammar.
pub open spec fn id_of(ids: Seq<ElementView>) -> Result<Seq<char>, DecodeErrorView> {
    match first_text(ids) {
        None => Err(DecodeErrorView::MissingRequiredField { path: "component/id"@ }),
        Some(text) => if is_valid_id(text) {
            Ok(text)
        } else {
            Err(DecodeErrorView::ValidationError { path: "component/id"@, input: text })
        },
    }
}

/// The component that a `component` element stands for. The identifier and
/// a name without a locale tag are required. What can fail is read in this
/// order: identifier, name, locations, icons, screenshots, releases.
pub open spec fn component_of(e: ElementView) -> Result<ComponentView, DecodeErrorView> {
    match id_of(e.named("id"@)) {
        Err(err) => Err(err),
        Ok(id) => match merged(tagged_texts(e.named("name"@))) {
            None => Err(DecodeErrorView::MissingRequiredField { path: "component/name"@ }),
            Some(name) => match try_map(e.named("url"@), project_url_decoder()) {
                Err(err) => Err(err),
                Ok(urls) => match try_map(e.named("icon"@), icon_decoder()) {
                    Err(err) => Err(err),
                    Ok(icons) => match try_map(
                        grouped(e, "screenshots"@, "screenshot"@),
                        screenshot_decoder(),
                    ) {
                        Err(err) => Err(err),
                        Ok(screenshots) => match try_map(
                            grouped(e, "releases"@, "release"@),
                            release_decoder(),
                        ) {
                            Err(err) => Err(err),
                            Ok(releases) => Ok(
                                ComponentView {
                                    id,
                                    kind: match e.attribute("type"@) {
                                        Some(token) => token,
                                        None => "generic"@,
                                    },
                                    name,
                                    summary: merged(tagged_texts(e.named("summary"@))),
                                    pkgname: first_text(e.named("pkgname"@)),
                                    project_license: first_text(e.named("project_license"@)),
                                    metadata_license: first_text(e.named("metadata_license"@)),
                                    keywords: merged(tagged_lists(e.named("keywords"@))),
                                    urls,
                                    screenshots,
                                    releases,
                                    provides: provided_by(group_members(e, "provides"@)),
                                    mimetypes: texts_of(grouped(e, "mimetypes"@, "mimetype"@)),
                                    categories: texts_of(grouped(e, "categories"@, "category"@)),
                                    icons,
                                },
                            ),
                        },
                    },
                },
            },
        },
    }
}

/// The elements named `item` inside the first element named `group` inside
/// `e`.
pub fn group_children<'a>(e: &'a Element, group: &str, item: &str) -> (r: Vec<&'a Element>)
    ensures
        elements_view(r@) == grouped(e@, group@, item@),
{
    let groups = e.children_named(group);
    if groups.len() > 0 {
        assert(elements_view(groups@)[0] == groups[0]@);
        groups[0].children_named(item)
    } else {
        let none: Vec<&'a Element> = Vec::new();
        assert(elements_view(none@) =~= Seq::empty());
        none
    }
}

/// All elements inside the first element named `group` inside `e`.
pub fn group_member_elements<'a>(e: &'a Element, group: &str) -> (r: Vec<&'a Element>)
    ensures
        elements_view(r@) == group_members(e@, group@),
{
    let groups = e.children_named(group);
    if groups.len() > 0 {
        assert(elements_view(groups@)[0] == groups[0]@);
        groups[0].child_elements()
    } else {
        let none: Vec<&'a Element> = Vec::new();
        assert(elements_view(none@) =~= Seq::empty());
        none
    }
}

/// Decodes a `url` element.
pub fn project_url_from(e: &Element) -> (r: Result<ProjectUrl, DecodeError>)
    ensures
        match r {
            Ok(url) => project_url_of(e@) == Ok::<(Seq<char>, Seq<char>), DecodeErrorView>(url@)
                && url.wf(),
            Err(err) => project_url_of(e@) == Err::<(Seq<char>, Seq<char>), DecodeErrorView>(
                err@,
            ),
        },
{
    let text = e.text();
    let url = match Url::parse(text.as_str()) {
        Ok(url) => url,
        Err(_) => {
            return Err(DecodeError::invalid("url", text.as_str()));
        },
    };
    match e.attribute("type") {
        Some(kind) => Ok(ProjectUrl::from_parts(kind.as_str(), url)),
        None => {
            let kind = String::new();
            Ok(ProjectUrl::from_parts(kind.as_str(), url))
        },
    }
}

/// Decodes an `icon` element.
pub fn icon_from(e: &Element) -> (r: Result<Icon, DecodeError>)
    ensures
        match r {
            Ok(icon) => icon_element_of(e@) == Ok::<IconView, DecodeErrorView>(icon@)
                && icon.wf(),
            Err(err) => icon_element_of(e@) == Err::<IconView, DecodeErrorView>(err@),
        },
{
    let width = match number_attribute(e, "width", "icon/@width") {
        Ok(n) => n,
        Err(err) => {
            return Err(err);
        },
    };
    let height = match number_attribute(e, "height", "icon/@height") {
        Ok(n) => n,
        Err(err) => {
            return Err(err);
        },
    };
    let text = e.text();
    let kind = match e.attribute("type") {
        Some(kind) => kind.clone(),
        None => String::new(),
    };
    match Icon::from_parts(kind.as_str(), text.as_str(), width, height) {
        Ok(icon) => Ok(icon),
        Err(_) => Err(DecodeError::invalid("icon", text.as_str())),
    }
}

/// Decodes each of `elements` as a project location.
pub fn urls_from(elements: &Vec<&Element>) -> (r: Result<Vec<ProjectUrl>, DecodeError>)
    ensures
        match r {
            Ok(items) => try_map(elements_view(elements@), project_url_decoder()) == Ok::<
                Seq<(Seq<char>, Seq<char>)>,
                DecodeErrorView,
            >(urls_view(items@)) && forall|j: int|
                0 <= j < items.len() ==> (#[trigger] items[j]).wf(),
            Err(err) => try_map(elements_view(elements@), project_url_decoder()) == Err::<
                Seq<(Seq<char>, Seq<char>)>,
                DecodeErrorView,
            >(err@),
        },
{
    let ghost all = elements_view(elements@);
    let mut items: Vec<ProjectUrl> = Vec::new();
    let mut i: usize = 0;
    assert(all.take(0) =~= Seq::empty());
    assert(urls_view(items@) =~= Seq::empty());
    while i < elements.len()
        invariant
            i <= elements.len(),
            all == elements_view(elements@),
            try_map(all.take(i as int), project_url_decoder()) == Ok::<Seq<(Seq<char>, Seq<char>)>, DecodeErrorView>(
                urls_view(items@),
            ),
            forall|j: int| 0 <= j < items.len() ==> (#[trigger] items[j]).wf(),
        decreases elements.len() - i,
    {
        proof {
            try_map_step(all, project_url_decoder(), i as int);
        }
        match project_url_from(elements[i]) {
            Ok(item) => {
                let ghost before = urls_view(items@);
                items.push(item);
                assert(urls_view(items@) =~= before.push(item@));
            },
            Err(err) => {
                proof {
                    try_map_fails(all, project_url_decoder(), i + 1);
                }
                return Err(err);
            },
        }
        i = i + 1;
    }
    assert(all.take(i as int) =~= all);
    Ok(items)
}

/// Decodes each of `elements` as an icon.
pub fn icons_from(elements: &Vec<&Element>) -> (r: Result<Vec<Icon>, DecodeError>)
    ensures
        match r {
            Ok(items) => try_map(elements_view(elements@), icon_decoder()) == Ok::<
                Seq<IconView>,
                DecodeErrorView,
            >(icons_view(items@)) && forall|j: int|
                0 <= j < items.len() ==> (#[trigger] items[j]).wf(),
            Err(err) => try_map(elements_view(elements@), icon_decoder()) == Err::<
                Seq<IconView>,
                DecodeErrorView,
            >(err@),
        },
{
    let ghost all = elements_view(elements@);
    let mut items: Vec<Icon> = Vec::new();
    let mut i: usize = 0;
    assert(all.take(0) =~= Seq::empty());
    assert(icons_view(items@) =~= Seq::empty());
    while i < elements.len()
        invariant
            i <= elements.len(),
            all == elements_view(elements@),
            try_map(all.take(i as int), icon_decoder()) == Ok::<Seq<IconView>, DecodeErrorView>(
                icons_view(items@),
            ),
            forall|j: int| 0 <= j < items.len() ==> (#[trigger] items[j]).wf(),
        decreases elements.len() - i,
    {
        proof {
            try_map_step(all, icon_decoder(), i as int);
        }
        match icon_from(elements[i]) {
            Ok(item) => {
                let ghost before = icons_view(items@);
                items.push(item);
                assert(icons_view(items@) =~= before.push(item@));
            },
            Err(err) => {
                proof {
                    try_map_fails(all, icon_decoder(), i + 1);
                }
                return Err(err);
            },
        }
        i = i + 1;
    }
    assert(all.take(i as int) =~= all);
    Ok(items)
}

/// Decodes each of `elements` as a screenshot.
pub fn screenshots_from(elements: &Vec<&Element>) -> (r: Result<Vec<Screenshot>, DecodeError>)
    ensures
        match r {
            Ok(items) => try_map(elements_view(elements@), screenshot_decoder()) == Ok::<
                Seq<ScreenshotView>,
                DecodeErrorView,
            >(screenshots_view(items@)) && forall|j: int|
                0 <= j < items.len() ==> (#[trigger] items[j]).wf(),
            Err(err) => try_map(elements_view(elements@), screenshot_decoder()) == Err::<
                Seq<ScreenshotView>,
                DecodeErrorView,
            >(err@),
        },
{
    let ghost all = elements_view(elements@);
    let mut items: Vec<Screenshot> = Vec::new();
    let mut i: usize = 0;
    assert(all.take(0) =~= Seq::empty());
    assert(screenshots_view(items@) =~= Seq::empty());
    while i < elements.len()
        invariant
            i <= elements.len(),
            all == elements_view(elements@),
            try_map(all.take(i as int), screenshot_decoder()) == Ok::<Seq<ScreenshotView>, DecodeErrorView>(
                screenshots_view(items@),
            ),
            forall|j: int| 0 <= j < items.len() ==> (#[trigger] items[j]).wf(),
        decreases elements.len() - i,
    {
        proof {
            try_map_step(all, screenshot_decoder(), i as int);
        }
        match Screenshot::from_element(elements[i]) {
            Ok(item) => {
                let ghost before = screenshots_view(items@);
                items.push(item);
                assert(screenshots_view(items@) =~= before.push(item@));
            },
            Err(err) => {
                proof {
                    try_map_fails(all, screenshot_decoder(), i + 1);
                }
                return Err(err);
            },
        }
        i = i + 1;
    }
    assert(all.take(i as int) =~= all);
    Ok(items)
}

/// The provided items that `elements` stand for.
pub fn provides_from(elements: &Vec<&Element>) -> (r: Vec<Provide>)
    ensures
        provides_view(r@) == provided_by(elements_view(elements@)),
        forall|j: int| 0 <= j < r.len() ==> (#[trigger] r[j]).wf(),
{
    let mut items: Vec<Provide> = Vec::new();
    let mut i: usize = 0;
    while i < elements.len()
        invariant
            i <= elements.len(),
            items.len() == i,
            forall|j: int|
                0 <= j < i ==> (#[trigger] items[j])@ == (elements[j]@.name, elements[j]@.text()),
            forall|j: int| 0 <= j < i ==> (#[trigger] items[j]).wf(),
        decreases elements.len() - i,
    {
        let text = elements[i].text();
        items.push(Provide::from_parts(elements[i].name.as_str(), text.as_str()));
        i = i + 1;
    }
    assert(provides_view(items@) =~= provided_by(elements_view(elements@)));
    items
}

/// The categories that `tokens` name.
pub fn categories_from(tokens: &Vec<String>) -> (r: Vec<Category>)
    ensures
        categories_view(r@) == strings_view(tokens@),
        forall|j: int| 0 <= j < r.len() ==> (#[trigger] r[j]).wf(),
{
    let mut items: Vec<Category> = Vec::new();
    let mut i: usize = 0;
    while i < tokens.len()
        invariant
            i <= tokens.len(),
            items.len() == i,
            forall|j: int| 0 <= j < i ==> (#[trigger] items[j]).token() == tokens[j]@,
            forall|j: int| 0 <= j < i ==> (#[trigger] items[j]).wf(),
        decreases tokens.len() - i,
    {
        items.push(Category::from_token(tokens[i].as_str()));
        i = i + 1;
    }
    assert(categories_view(items@) =~= strings_view(tokens@));
    items
}

/// The lists of keywords that `keywords` elements stand for, each with the
/// locale tag of its element.
pub fn keyword_lists(elements: &Vec<&Element>) -> (r: Vec<(Option<String>, Vec<String>)>)
    ensures
        crate::types::tagged_lists_view(r@) == tagged_lists(elements_view(elements@)),
{
    let mut lists: Vec<(Option<String>, Vec<String>)> = Vec::new();
    let mut i: usize = 0;
    while i < elements.len()
        invariant
            i <= elements.len(),
            lists.len() == i,
            forall|j: int|
                0 <= j < i ==> crate::types::tagged_list_view(#[trigger] lists[j]) == (
                    elements[j]@.attribute("xml:lang"@),
                    texts_of(elements[j]@.named("keyword"@)),
                ),
        decreases elements.len() - i,
    {
        let tag = text_attribute(elements[i], "xml:lang");
        let words = element_texts(&elements[i].children_named("keyword"));
        lists.push((tag, words));
        i = i + 1;
    }
    assert(crate::types::tagged_lists_view(lists@) =~= tagged_lists(elements_view(elements@)));
    lists
}

impl Component {
    /// Whether the component is in the form that decoding gives: nowhere in
    /// it is a token of a vocabulary held as unknown.
    pub open spec fn wf(&self) -> bool {
        &&& self.kind.wf()
        &&& forall|j: int| 0 <= j < self.urls.len() ==> (#[trigger] self.urls[j]).wf()
        &&& forall|j: int| 0 <= j < self.screenshots.len() ==> (#[trigger] self.screenshots[j]).wf()
        &&& forall|j: int| 0 <= j < self.provides.len() ==> (#[trigger] self.provides[j]).wf()
        &&& forall|j: int| 0 <= j < self.categories.len() ==> (#[trigger] self.categories[j]).wf()
        &&& forall|j: int| 0 <= j < self.icons.len() ==> (#[trigger] self.icons[j]).wf()
    }

    /// Decodes a `component` element.
    pub fn from_element(e: &Element) -> (r: Result<Component, DecodeError>)
        ensures
            match r {
                Ok(component) => component_of(e@) == Ok::<ComponentView, DecodeErrorView>(
                    component@,
                ) && component.wf(),
                Err(err) => component_of(e@) == Err::<ComponentView, DecodeErrorView>(err@),
            },
    {
        let id = match first_element_text(&e.children_named("id")) {
            None => {
                return Err(DecodeError::missing("component/id"));
            },
            Some(text) => match AppId::try_from(text.as_str()) {
                Ok(id) => id,
                Err(_) => {
                    return Err(DecodeError::invalid("component/id", text.as_str()));
                },
            },
        };
        let name = match TranslatableString::merge(&localized_entries(&e.children_named("name"))) {
            Some(name) => name,
            None => {
                return Err(DecodeError::missing("component/name"));
            },
        };
        let urls = match urls_from(&e.children_named("url")) {
            Ok(urls) => urls,
            Err(err) => {
                return Err(err);
            },
        };
        let icons = match icons_from(&e.children_named("icon")) {
            Ok(icons) => icons,
            Err(err) => {
                return Err(err);
            },
        };
        let screenshots = match screenshots_from(&group_children(e, "screenshots", "screenshot")) {
            Ok(screenshots) => screenshots,
            Err(err) => {
                return Err(err);
            },
        };
        let releases = match releases_from(&group_children(e, "releases", "release")) {
            Ok(releases) => releases,
            Err(err) => {
                return Err(err);
            },
        };
        let kind = match e.attribute("type") {
            Some(token) => ComponentKind::from_token(token.as_str()),
            None => ComponentKind::Generic,
        };
        Ok(
            Component {
                id,
                kind,
                name,
                summary: TranslatableString::merge(
                    &localized_entries(&e.children_named("summary")),
                ),
                pkgname: first_element_text(&e.children_named("pkgname")),
                project_license: first_element_text(&e.children_named("project_license")),
                metadata_license: first_element_text(&e.children_named("metadata_license")),
                keywords: TranslatableVec::merge(&keyword_lists(&e.children_named("keywords"))),
                urls,
                screenshots,
                releases,
                provides: provides_from(&group_member_elements(e, "provides")),
                mimetypes: element_texts(&group_children(e, "mimetypes", "mimetype")),
                categories: categories_from(
                    &element_texts(&group_children(e, "categories", "category")),
                ),
                icons,
            },
        )
    }
}

} // verus!
