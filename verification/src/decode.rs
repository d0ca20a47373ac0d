//! The rules that the decoders of all elements share.

use vstd::prelude::*;
use crate::error::{DecodeError, DecodeErrorView};
use crate::text::{parse_u32, parsed_u32};
use crate::tree::{elements_view, Element, ElementView};
use crate::types::{strings_view, tagged_texts_view};

verus! {

/// The number in the attribute `name` of `e`: absent where the attribute is;
/// an error naming `path` where its value is no number.
pub open spec fn number_of(e: ElementView, name: Seq<char>, path: Seq<char>) -> Result<
    Option<u32>,
    DecodeErrorView,
> {
    match e.attribute(name) {
        None => Ok(None),
        Some(text) => match parsed_u32(text) {
            Some(n) => Ok(Some(n)),
            None => Err(DecodeErrorView::ValidationError { path, input: text }),
        },
    }
}

/// Reads the number in the attribute `name` of `e`.
pub fn number_attribute(e: &Element, name: &str, path: &str) -> (r: Result<
    Option<u32>,
    DecodeError,
>)
    ensures
        match r {
            Ok(n) => number_of(e@, name@, path@) == Ok::<Option<u32>, DecodeErrorView>(n),
            Err(err) => number_of(e@, name@, path@) == Err::<Option<u32>, DecodeErrorView>(err@),
        },
{
    match e.attribute(name) {
        None => Ok(None),
        Some(text) => match parse_u32(text.as_str()) {
            Some(n) => Ok(Some(n)),
            None => Err(DecodeError::invalid(path, text.as_str())),
        },
    }
}

/// The view of a text that may be absent.
pub open spec fn text_option_view(text: Option<String>) -> Option<Seq<char>> {
    match text {
        Some(t) => Some(t@),
        None => None,
    }
}

/// A copy of the attribute `name` of `e`, if the element has it.
pub fn text_attribute(e: &Element, name: &str) -> (r: Option<String>)
    ensures
        text_option_view(r) == e@.attribute(name@),
{
    match e.attribute(name) {
        Some(text) => Some(text.clone()),
        None => None,
    }
}

/// The texts of `elements`, in order.
pub open spec fn texts_of(elements: Seq<ElementView>) -> Seq<Seq<char>> {
    elements.map_values(|e: ElementView| e.text())
}

/// The texts of `elements`, in order.
pub fn element_texts(elements: &Vec<&Element>) -> (r: Vec<String>)
    ensures
        strings_view(r@) == texts_of(elements_view(elements@)),
{
    let mut texts: Vec<String> = Vec::new();
    let mut i: usize = 0;
    while i < elements.len()
        invariant
            i <= elements.len(),
            texts.len() == i,
            forall|j: int| 0 <= j < i ==> (#[trigger] texts[j])@ == elements[j]@.text(),
        decreases elements.len() - i,
    {
        texts.push(elements[i].text());
        i = i + 1;
    }
    assert(strings_view(texts@) =~= texts_of(elements_view(elements@)));
    texts
}

/// The text of the first of `elements`, if there is one.
pub open spec fn first_text(elements: Seq<ElementView>) -> Option<Seq<char>> {
    if elements.len() > 0 {
        Some(elements[0].text())
    } else {
        None
    }
}

/// The text of the first of `elements`, if there is one.
pub fn first_element_text(elements: &Vec<&Element>) -> (r: Option<String>)
    ensures
        text_option_view(r) == first_text(elements_view(elements@)),
{
    if elements.len() > 0 {
        Some(elements[0].text())
    } else {
        None
    }
}

/// The texts of `elements`, each with the locale tag of its element, in
/// order.
pub open spec fn tagged_texts(elements: Seq<ElementView>) -> Seq<(Option<Seq<char>>, Seq<char>)> {
    elements.map_values(|e: ElementView| (e.attribute("xml:lang"@), e.text()))
}

/// The texts of `elements`, each with the locale tag of its element.
pub fn localized_entries(elements: &Vec<&Element>) -> (r: Vec<(Option<String>, String)>)
    ensures
        tagged_texts_view(r@) == tagged_texts(elements_view(elements@)),
{
    let mut entries: Vec<(Option<String>, String)> = Vec::new();
    let mut i: usize = 0;
    while i < elements.len()
        invariant
            i <= elements.len(),
            entries.len() == i,
            forall|j: int|
                0 <= j < i ==> crate::types::tagged_view(#[trigger] entries[j]) == (
                    elements[j]@.attribute("xml:lang"@),
                    elements[j]@.text(),
                ),
        decreases elements.len() - i,
    {
        let tag = text_attribute(elements[i], "xml:lang");
        entries.push((tag, elements[i].text()));
        i = i + 1;
    }
    assert(tagged_texts_view(entries@) =~= tagged_texts(elements_view(elements@)));
    entries
}

/// What `f` decodes from each of `elements`, in order, or the first error
/// that it gives.
pub open spec fn try_map<T>(
    elements: Seq<ElementView>,
    f: spec_fn(ElementView) -> Result<T, DecodeErrorView>,
) -> Result<Seq<T>, DecodeErrorView>
    decreases elements.len(),
{
    if elements.len() == 0 {
        Ok(Seq::empty())
    } else {
        match try_map(elements.drop_last(), f) {
            Err(e) => Err(e),
            Ok(init) => match f(elements.last()) {
                Err(e) => Err(e),
                Ok(value) => Ok(init.push(value)),
            },
        }
    }
}

/// One more element: what `try_map` gives for the first `i + 1` elements,
/// from what it gives for the first `i`.
pub proof fn try_map_step<T>(
    elements: Seq<ElementView>,
    f: spec_fn(ElementView) -> Result<T, DecodeErrorView>,
    i: int,
)
    requires
        0 <= i < elements.len(),
    ensures
        try_map(elements.take(i + 1), f) == match try_map(elements.take(i), f) {
            Err(e) => Err(e),
            Ok(init) => match f(elements[i]) {
                Err(e) => Err(e),
                Ok(value) => Ok(init.push(value)),
            },
        },
{
    assert(elements.take(i + 1).drop_last() =~= elements.take(i));
}

/// An error among the first elements is the error of the whole list.
pub proof fn try_map_fails<T>(
    elements: Seq<ElementView>,
    f: spec_fn(ElementView) -> Result<T, DecodeErrorView>,
    i: int,
)
    requires
        0 <= i <= elements.len(),
        try_map(elements.take(i), f) is Err,
    ensures
        try_map(elements, f) == try_map(elements.take(i), f),
    decreases elements.len() - i,
{
    if i < elements.len() {
        try_map_step(elements, f, i);
        try_map_fails(elements, f, i + 1);
    } else {
        assert(elements.take(i) =~= elements);
    }
}

} // verus!
