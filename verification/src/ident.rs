//! Component identifiers: dot-separated names in reverse-domain style.

use vstd::prelude::*;
use crate::error::ValidationError;

verus! {

/// Whether `c` may stand inside a segment of an identifier.
pub open spec fn is_segment_char(c: char) -> bool {
    ('a' <= c && c <= 'z') || ('A' <= c && c <= 'Z') || ('0' <= c && c <= '9') || c == '-'
        || c == '_'
}

/// The identifier grammar: two or more non-empty segments of segment
/// characters, separated by single dots.
pub open spec fn is_valid_id(s: Seq<char>) -> bool {
    &&& s.len() > 0
    &&& s[0] != '.'
    &&& s[s.len() - 1] != '.'
    &&& exists|i: int| 0 <= i < s.len() && s[i] == '.'
    &&& forall|i: int| 0 <= i < s.len() ==> is_segment_char(#[trigger] s[i]) || s[i] == '.'
    &&& forall|i: int| 0 <= i < s.len() - 1 ==> !(#[trigger] s[i] == '.' && s[i + 1] == '.')
}

/// A validated component identifier.
#[derive(Debug, PartialEq, Eq)]
pub struct AppId(String);

impl Clone for AppId {
    fn clone(&self) -> (r: Self)
        ensures
            r@ == self@,
    {
        proof {
            use_type_invariant(self);
        }
        AppId(self.0.clone())
    }
}

impl View for AppId {
    type V = Seq<char>;

    closed spec fn view(&self) -> Seq<char> {
        self.0@
    }
}

fn segment_char(c: char) -> (b: bool)
    ensures
        b == is_segment_char(c),
{
    ('a' <= c && c <= 'z') || ('A' <= c && c <= 'Z') || ('0' <= c && c <= '9') || c == '-'
        || c == '_'
}

impl AppId {
    #[verifier::type_invariant]
    spec fn well_formed(&self) -> bool {
        is_valid_id(self.0@)
    }

    /// Whether `id` follows the identifier grammar.
    pub fn is_valid(id: &str) -> (b: bool)
        ensures
            b == is_valid_id(id@),
    {
        let n = id.unicode_len();
        if n == 0 {
            return false;
        }
        let mut i: usize = 0;
        let mut dots: usize = 0;
        let mut after_dot = true;
        while i < n
            invariant
                n == id@.len(),
                i <= n,
                dots <= i,
                dots > 0 <==> exists|k: int| 0 <= k < i && id@[k] == '.',
                forall|k: int| 0 <= k < i ==> is_segment_char(#[trigger] id@[k]) || id@[k] == '.',
                forall|k: int| 0 <= k < i - 1 ==> !(#[trigger] id@[k] == '.' && id@[k + 1] == '.'),
                i > 0 ==> id@[0] != '.',
                after_dot <==> (i == 0 || id@[i - 1] == '.'),
            decreases n - i,
        {
            let c = id.get_char(i);
            if c == '.' {
                if after_dot {
                    proof {
                        if i > 0 {
                            assert(id@[i - 1] == '.' && id@[i - 1 + 1] == '.');
                        }
                    }
                    return false;
                }
                dots = dots + 1;
                after_dot = true;
            } else if segment_char(c) {
                after_dot = false;
            } else {
                return false;
            }
            i = i + 1;
        }
        !after_dot && dots > 0
    }

    /// Validates `id`; nothing is trimmed or changed in case.
    pub fn try_from(id: &str) -> (r: Result<AppId, ValidationError>)
        ensures
            is_valid_id(id@) ==> r is Ok && r->Ok_0@ == id@,
            !is_valid_id(id@) ==> r is Err && r->Err_0.input@ == id@ && r->Err_0.path@ == "id"@,
    {
        if AppId::is_valid(id) {
            Ok(AppId(id.to_owned()))
        } else {
            Err(ValidationError::new("id", id))
        }
    }

    /// The identifier as text.
    pub fn as_str(&self) -> (s: &str)
        ensures
            s@ == self@,
            is_valid_id(s@),
    {
        proof {
            use_type_invariant(self);
        }
        self.0.as_str()
    }
}

} // verus!
