//! The ways in which decoding a document or validating a value can fail.

use vstd::prelude::*;

verus! {

/// A value that does not follow the grammar of its field.
#[derive(Clone, Debug, PartialEq, Eq)]
pub struct ValidationError {
    /// Where the value stood, as a path of element and attribute names.
    pub path: String,
    /// The rejected text, verbatim.
    pub input: String,
}

/// Why a document could not be decoded.
#[derive(Clone, Debug, PartialEq, Eq)]
pub enum DecodeError {
    /// The text is not well-formed markup.
    MalformedDocument,
    /// An identifier, a location or a number does not follow its grammar.
    ValidationError(ValidationError),
    /// A required element or attribute is absent; the payload is its path.
    MissingRequiredField(String),
}

/// The mathematical model of a `DecodeError`.
pub enum DecodeErrorView {
    MalformedDocument,
    ValidationError { path: Seq<char>, input: Seq<char> },
    MissingRequiredField { path: Seq<char> },
}

impl View for DecodeError {
    type V = DecodeErrorView;

    open spec fn view(&self) -> DecodeErrorView {
        match self {
            DecodeError::MalformedDocument => DecodeErrorView::MalformedDocument,
            DecodeError::ValidationError(e) => DecodeErrorView::ValidationError {
                path: e.path@,
                input: e.input@,
            },
            DecodeError::MissingRequiredField(path) => DecodeErrorView::MissingRequiredField {
                path: path@,
            },
        }
    }
}

/// The sentence that describes an error: what went wrong, where, and on
/// which text.
pub open spec fn description_of(e: DecodeErrorView) -> Seq<char> {
    match e {
        DecodeErrorView::MalformedDocument => "the document is not well-formed"@,
        DecodeErrorView::ValidationError { path, input } => "invalid value at "@ + path + ": "@
            + input,
        DecodeErrorView::MissingRequiredField { path } => "missing required field "@ + path,
    }
}

impl DecodeError {
    /// One sentence that names the offending path and the cause.
    pub fn describe(&self) -> (r: String)
        ensures
            r@ == description_of(self@),
    {
        match self {
            DecodeError::MalformedDocument => "the document is not well-formed".to_owned(),
            DecodeError::ValidationError(e) => String::from_str("invalid value at ").concat(
                e.path.as_str(),
            ).concat(": ").concat(e.input.as_str()),
            DecodeError::MissingRequiredField(path) => String::from_str(
                "missing required field ",
            ).concat(path.as_str()),
        }
    }

    /// The error for the malformed `input` found at `path`.
    pub fn invalid(path: &str, input: &str) -> (e: DecodeError)
        ensures
            e@ == (DecodeErrorView::ValidationError { path: path@, input: input@ }),
    {
        DecodeError::ValidationError(ValidationError::new(path, input))
    }

    /// The error for the required field at `path` that is absent.
    pub fn missing(path: &str) -> (e: DecodeError)
        ensures
            e@ == (DecodeErrorView::MissingRequiredField { path: path@ }),
    {
        DecodeError::MissingRequiredField(path.to_owned())
    }
}

impl ValidationError {
    /// The error for `input` found at `path`.
    pub fn new(path: &str, input: &str) -> (e: ValidationError)
        ensures
            e.path@ == path@,
            e.input@ == input@,
    {
        ValidationError { path: path.to_owned(), input: input.to_owned() }
    }
}

} // verus!
