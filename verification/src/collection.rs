//! Collections: the components of one catalog.

use vstd::prelude::*;
use crate::component::{component_of, Component, ComponentView};
use crate::decode::{text_attribute, text_option_view, try_map, try_map_fails, try_map_step};
use crate::error::{DecodeError, DecodeErrorView};
use crate::ident::AppId;
use crate::text::same_text;
use crate::tree::{document_root, elements_view, parse_document, Element, ElementView};

verus! {

/// The components of one catalog, in document order.
#[derive(Clone, Debug, PartialEq)]
pub struct Collection {
    pub version: String,
    pub origin: Option<String>,
    pub components: Vec<Component>,
}

/// The mathematical model of a `Collection`.
pub struct CollectionView {
    pub version: Seq<char>,
    pub origin: Option<Seq<char>>,
    pub components: Seq<ComponentView>,
}

/// The views of a list of components.
pub open spec fn components_view(components: Seq<Component>) -> Seq<ComponentView> {
    components.map_values(|c: Component| c@)
}

impl View for Collection {
    type V = CollectionView;

    open spec fn view(&self) -> CollectionView {
        CollectionView {
            version: self.version@,
            origin: text_option_view(self.origin),
            components: components_view(self.components@),
        }
    }
}

/// `component_of` as a function value.
pub open spec fn component_decoder() -> spec_fn(ElementView) -> Result<
    ComponentView,
    DecodeErrorView,
> {
    |e: ElementView| component_of(e)
}

/// The collection that a root element stands for: its `version` attribute
/// is required, and each `component` inside it is one component.
pub open spec fn collection_of(root: ElementView) -> Result<CollectionView, DecodeErrorView> {
    match root.attribute("version"@) {
        None => Err(DecodeErrorView::MissingRequiredField { path: "components/@version"@ }),
        Some(version) => match try_map(root.named("component"@), component_decoder()) {
            Err(err) => Err(err),
            Ok(components) => Ok(
                CollectionView { version, origin: root.attribute("origin"@), components },
            ),
        },
    }
}

/// The collection that the document `text` stands for.
pub open spec fn decoded_collection(text: Seq<char>) -> Result<CollectionView, DecodeErrorView> {
    match document_root(text) {
        None => Err(DecodeErrorView::MalformedDocument),
        Some(root) => collection_of(root),
    }
}

/// The components among `components` whose identifier is `id`, in order.
pub open spec fn with_id(components: Seq<Component>, id: Seq<char>) -> Seq<Component>
    decreases components.len(),
{
    if components.len() == 0 {
        Seq::empty()
    } else if components.last().id@ == id {
        with_id(components.drop_last(), id).push(components.last())
    } else {
        with_id(components.drop_last(), id)
    }
}

/// What borrowed components refer to.
pub open spec fn referents(found: Seq<&Component>) -> Seq<Component> {
    found.map_values(|c: &Component| *c)
}

/// A lookup finds each component of that identifier and no other, keeps
/// their order, and so returns every one of several that share it.
pub proof fn lookup_finds_all(components: Seq<Component>, id: Seq<char>)
    ensures
        with_id(components, id).len() <= components.len(),
        forall|k: int|
            0 <= k < with_id(components, id).len() ==> (#[trigger] with_id(components, id)[k]).id@
                == id,
        forall|i: int|
            0 <= i < components.len() && (#[trigger] components[i]).id@ == id ==> with_id(
                components,
                id,
            ).contains(components[i]),
        forall|i: int, j: int|
            0 <= i < j < components.len() && (#[trigger] components[i]).id@ == id && (
            #[trigger] components[j]).id@ == id ==> exists|a: int, b: int|
                0 <= a < b < with_id(components, id).len() && with_id(components, id)[a]
                    == components[i] && with_id(components, id)[b] == components[j],
    decreases components.len(),
{
    if components.len() > 0 {
        let init = components.drop_last();
        let last = components.last();
        let found = with_id(components, id);
        lookup_finds_all(init, id);
        assert forall|i: int|
            0 <= i < components.len() && (#[trigger] components[i]).id@ == id implies found.contains(
            components[i],
        ) by {
            if i < init.len() {
                assert(init[i] == components[i]);
                let k = choose|k: int| 0 <= k < with_id(init, id).len() && with_id(init, id)[k] == init[i];
                assert(found[k] == components[i]);
            } else {
                assert(found[found.len() - 1] == components[i]);
            }
        }
        assert forall|i: int, j: int|
            0 <= i < j < components.len() && (#[trigger] components[i]).id@ == id && (
            #[trigger] components[j]).id@ == id implies exists|a: int, b: int|
            0 <= a < b < found.len() && found[a] == components[i] && found[b] == components[j] by {
            assert(init[i] == components[i]);
            if j < init.len() {
                assert(init[j] == components[j]);
                let (a, b) = choose|a: int, b: int|
                    0 <= a < b < with_id(init, id).len() && with_id(init, id)[a] == init[i]
                        && with_id(init, id)[b] == init[j];
                assert(found[a] == components[i] && found[b] == components[j]);
            } else {
                assert(with_id(init, id).contains(init[i]));
                let a = choose|a: int| 0 <= a < with_id(init, id).len() && with_id(init, id)[a] == init[i];
                assert(found[a] == components[i] && found[found.len() - 1] == components[j]);
            }
        }
    }
}

/// Decodes each of `elements` as a component.
pub fn components_from(elements: &Vec<&Element>) -> (r: Result<Vec<Component>, DecodeError>)
    ensures
        match r {
            Ok(items) => try_map(elements_view(elements@), component_decoder()) == Ok::<
                Seq<ComponentView>,
                DecodeErrorView,
            >(components_view(items@)) && forall|j: int|
                0 <= j < items.len() ==> (#[trigger] items[j]).wf(),
            Err(err) => try_map(elements_view(elements@), component_decoder()) == Err::<
                Seq<ComponentView>,
                DecodeErrorView,
            >(err@),
        },
{
    let ghost all = elements_view(elements@);
    let mut items: Vec<Component> = Vec::new();
    let mut i: usize = 0;
    assert(all.take(0) =~= Seq::empty());
    assert(components_view(items@) =~= Seq::empty());
    while i < elements.len()
        invariant
            i <= elements.len(),
            all == elements_view(elements@),
            try_map(all.take(i as int), component_decoder()) == Ok::<
                Seq<ComponentView>,
                DecodeErrorView,
            >(components_view(items@)),
            forall|j: int| 0 <= j < items.len() ==> (#[trigger] items[j]).wf(),
        decreases elements.len() - i,
    {
        proof {
            try_map_step(all, component_decoder(), i as int);
        }
        match Component::from_element(elements[i]) {
            Ok(item) => {
                let ghost before = components_view(items@);
                items.push(item);
                assert(components_view(items@) =~= before.push(item@));
            },
            Err(err) => {
                proof {
                    try_map_fails(all, component_decoder(), i + 1);
                }
                return Err(err);
            },
        }
        i = i + 1;
    }
    assert(all.take(i as int) =~= all);
    Ok(items)
}

impl Collection {
    /// Whether the collection is in the form that decoding gives: each of
    /// its components is.
    pub open spec fn wf(&self) -> bool {
        forall|j: int| 0 <= j < self.components.len() ==> (#[trigger] self.components[j]).wf()
    }

    /// Decodes the root element of a catalog.
    pub fn from_element(root: &Element) -> (r: Result<Collection, DecodeError>)
        ensures
            match r {
                Ok(collection) => collection_of(root@) == Ok::<CollectionView, DecodeErrorView>(
                    collection@,
                ) && collection.wf(),
                Err(err) => collection_of(root@) == Err::<CollectionView, DecodeErrorView>(err@),
            },
    {
        let version = match text_attribute(root, "version") {
            Some(version) => version,
            None => {
                return Err(DecodeError::missing("components/@version"));
            },
        };
        let components = match components_from(&root.children_named("component")) {
            Ok(components) => components,
            Err(err) => {
                return Err(err);
            },
        };
        Ok(Collection { version, origin: text_attribute(root, "origin"), components })
    }

    /// Decodes a catalog from the text of its document. The result depends
    /// on the text alone.
    pub fn from_xml(text: &str) -> (r: Result<Collection, DecodeError>)
        ensures
            match r {
                Ok(collection) => decoded_collection(text@) == Ok::<
                    CollectionView,
                    DecodeErrorView,
                >(collection@) && collection.wf(),
                Err(err) => decoded_collection(text@) == Err::<CollectionView, DecodeErrorView>(
                    err@,
                ),
            },
    {
        match parse_document(text) {
            None => Err(DecodeError::MalformedDocument),
            Some(root) => Collection::from_element(&root),
        }
    }

    /// Every component whose identifier is `id`, in document order.
    pub fn find_by_id(&self, id: AppId) -> (r: Vec<&Component>)
        ensures
            referents(r@) == with_id(self.components@, id@),
    {
        let mut found: Vec<&Component> = Vec::new();
        let mut i: usize = 0;
        assert(self.components@.take(0) =~= Seq::empty());
        assert(referents(found@) =~= Seq::empty());
        while i < self.components.len()
            invariant
                i <= self.components.len(),
                referents(found@) == with_id(self.components@.take(i as int), id@),
            decreases self.components.len() - i,
        {
            proof {
                assert(self.components@.take(i + 1).drop_last() =~= self.components@.take(
                    i as int,
                ));
            }
            if same_text(self.components[i].id.as_str(), id.as_str()) {
                let ghost before = referents(found@);
                found.push(&self.components[i]);
                assert(referents(found@) =~= before.push(self.components[i as int]));
            }
            i = i + 1;
        }
        assert(self.components@.take(i as int) =~= self.components@);
        found
    }
}

} // verus!
