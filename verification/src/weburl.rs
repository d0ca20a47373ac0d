//! Locations on the web, validated by the `url` crate.

use vstd::prelude::*;
use crate::error::ValidationError;

verus! {

/// The serialization of the location that `input` parses to, or `None` where
/// `input` is no location.
pub uninterp spec fn url_parse(input: Seq<char>) -> Option<Seq<char>>;

/// `url::Url::parse`, then the parsed value's serialization.
#[verifier::external_body]
fn parse_url(input: &str) -> (r: Option<String>)
    ensures
        match r {
            Some(text) => url_parse(input@) == Some(text@),
            None => url_parse(input@) is None,
        },
{
    url::Url::parse(input).ok().map(|parsed| String::from(parsed))
}

/// A validated location, held in its serialized form.
#[derive(Debug, PartialEq, Eq)]
pub struct Url {
    text: String,
}

impl View for Url {
    type V = Seq<char>;

    closed spec fn view(&self) -> Seq<char> {
        self.text@
    }
}

impl Clone for Url {
    fn clone(&self) -> (r: Self)
        ensures
            r@ == self@,
    {
        proof {
            use_type_invariant(self);
        }
        Url { text: self.text.clone() }
    }
}

impl Url {
    #[verifier::type_invariant]
    spec fn well_formed(&self) -> bool {
        exists|input: Seq<char>| url_parse(input) == Some(self.text@)
    }

    /// Validates `input` as a location.
    pub fn parse(input: &str) -> (r: Result<Url, ValidationError>)
        ensures
            match r {
                Ok(url) => url_parse(input@) == Some(url@),
                Err(e) => url_parse(input@) is None && e.input@ == input@ && e.path@ == "url"@,
            },
    {
        match parse_url(input) {
            Some(text) => Ok(Url { text }),
            None => Err(ValidationError::new("url", input)),
        }
    }

    /// The location in its serialized form.
    pub fn as_str(&self) -> (s: &str)
        ensures
            s@ == self@,
            exists|input: Seq<char>| url_parse(input) == Some(s@),
    {
        proof {
            use_type_invariant(self);
        }
        self.text.as_str()
    }
}

} // verus!
