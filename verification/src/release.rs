//! Releases of a component.

use vstd::prelude::*;
use crate::decode::{text_attribute, text_option_view, try_map, try_map_fails, try_map_step};
use crate::error::{DecodeError, DecodeErrorView};
use crate::tree::{elements_view, Element, ElementView};

verus! {

/// One release of a component.
#[derive(Clone, Debug, PartialEq, Eq)]
pub struct Release {
    pub version: String,
    pub date: Option<String>,
}

/// The mathematical model of a `Release`.
pub struct ReleaseView {
    pub version: Seq<char>,
    pub date: Option<Seq<char>>,
}

impl View for Release {
    type V = ReleaseView;

    open spec fn view(&self) -> ReleaseView {
        ReleaseView { version: self.version@, date: text_option_view(self.date) }
    }
}

/// The views of a list of releases.
pub open spec fn releases_view(releases: Seq<Release>) -> Seq<ReleaseView> {
    releases.map_values(|r: Release| r@)
}

/// The release that a `release` element stands for; its version is
/// required.
pub open spec fn release_of(e: ElementView) -> Result<ReleaseView, DecodeErrorView> {
    match e.attribute("version"@) {
        None => Err(DecodeErrorView::MissingRequiredField { path: "release/@version"@ }),
        Some(version) => Ok(ReleaseView { version, date: e.attribute("date"@) }),
    }
}

/// `release_of` as a function value.
pub open spec fn release_decoder() -> spec_fn(ElementView) -> Result<ReleaseView, DecodeErrorView> {
    |e: ElementView| release_of(e)
}

impl Release {
    /// Decodes a `release` element.
    pub fn from_element(e: &Element) -> (r: Result<Release, DecodeError>)
        ensures
            match r {
                Ok(release) => release_of(e@) == Ok::<ReleaseView, DecodeErrorView>(release@),
                Err(err) => release_of(e@) == Err::<ReleaseView, DecodeErrorView>(err@),
            },
    {
        match text_attribute(e, "version") {
            None => Err(DecodeError::missing("release/@version")),
            Some(version) => Ok(Release { version, date: text_attribute(e, "date") }),
        }
    }
}

/// Decodes each of `elements` as a release.
pub fn releases_from(elements: &Vec<&Element>) -> (r: Result<Vec<Release>, DecodeError>)
    ensures
        match r {
            Ok(releases) => try_map(elements_view(elements@), release_decoder()) == Ok::<
                Seq<ReleaseView>,
                DecodeErrorView,
            >(releases_view(releases@)),
            Err(err) => try_map(elements_view(elements@), release_decoder()) == Err::<
                Seq<ReleaseView>,
                DecodeErrorView,
            >(err@),
        },
{
    let ghost all = elements_view(elements@);
    let mut releases: Vec<Release> = Vec::new();
    let mut i: usize = 0;
    assert(all.take(0) =~= Seq::empty());
    assert(releases_view(releases@) =~= Seq::empty());
    while i < elements.len()
        invariant
            i <= elements.len(),
            all == elements_view(elements@),
            try_map(all.take(i as int), release_decoder()) == Ok::<
                Seq<ReleaseView>,
                DecodeErrorView,
            >(releases_view(releases@)),
        decreases elements.len() - i,
    {
        proof {
            try_map_step(all, release_decoder(), i as int);
        }
        match Release::from_element(elements[i]) {
            Ok(release) => {
                let ghost before = releases_view(releases@);
                releases.push(release);
                assert(releases_view(releases@) =~= before.push(release@));
            },
            Err(err) => {
                proof {
                    try_map_fails(all, release_decoder(), i + 1);
                }
                return Err(err);
            },
        }
        i = i + 1;
    }
    assert(all.take(i as int) =~= all);
    Ok(releases)
}

} // verus!
