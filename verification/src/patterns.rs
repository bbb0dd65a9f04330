//! Pattern matching and text layout that outside crates perform for this library.
//! The contracts in this file are believed, not proved.

use vstd::prelude::*;
use crate::text::is_space;

verus! {

/// Whether the regular expression `pattern` matches somewhere in `haystack`;
/// `None` where `pattern` is no regular expression.
pub uninterp spec fn pattern_found(pattern: Seq<char>, haystack: Seq<char>) -> Option<bool>;

/// `text` with `prefix` set before each of its lines.
pub uninterp spec fn indented(text: Seq<char>, prefix: Seq<char>) -> Seq<char>;

/// What the first group of the regular expression `pattern` holds in its first
/// match in `haystack`; `None` where `pattern` is no regular expression, where
/// it matches nowhere, and where the match leaves the group out.
pub uninterp spec fn captured(pattern: Seq<char>, haystack: Seq<char>) -> Option<Seq<char>>;

/// `haystack` with `replacement` in place of the first match of the regular
/// expression `pattern`; `None` where `pattern` is no regular expression.
pub uninterp spec fn replaced(pattern: Seq<char>, haystack: Seq<char>, replacement: Seq<char>) -> Option<Seq<char>>;

/// `text` between double quotes, with escapes for what cannot stand there as it is.
pub uninterp spec fn quoted(text: Seq<char>) -> Seq<char>;

/// Compiles `pattern` with `regex::Regex::new` and searches `haystack` with
/// `regex::Regex::is_match`. Claimed: the answer depends on the two texts alone.
#[verifier::external_body]
pub(crate) fn is_match(pattern: &str, haystack: &str) -> (r: Option<bool>)
    ensures
        r == pattern_found(pattern@, haystack@),
{
    match regex::Regex::new(pattern) {
        Ok(re) => Some(re.is_match(haystack)),
        Err(_) => None,
    }
}

/// `textwrap::indent`. Claimed: the result depends on the two texts alone,
/// and a text of one line that is not blank comes back with the prefix before it.
#[verifier::external_body]
pub(crate) fn indent(text: &str, prefix: &str) -> (r: String)
    ensures
        r@ == indented(text@, prefix@),
        (forall|i: int| 0 <= i < text@.len() ==> #[trigger] text@[i] != '\n') && (exists|i: int|
            0 <= i < text@.len() && !is_space(#[trigger] text@[i])) ==> r@ == prefix@ + text@,
{
    textwrap::indent(text, prefix)
}

/// Compiles `pattern` with `regex::Regex::new`, searches `haystack` with
/// `regex::Regex::captures` and takes the first group with `regex::Captures::get`.
/// Claimed: the answer depends on the two texts alone.
#[verifier::external_body]
pub(crate) fn first_capture(pattern: &str, haystack: &str) -> (r: Option<String>)
    ensures
        captured(pattern@, haystack@) == match r {
            Some(text) => Some(text@),
            None => None,
        },
{
    match regex::Regex::new(pattern) {
        Ok(re) => match re.captures(haystack) {
            Some(groups) => match groups.get(1) {
                Some(found) => Some(found.as_str().to_string()),
                None => None,
            },
            None => None,
        },
        Err(_) => None,
    }
}

/// Compiles `pattern` with `regex::Regex::new` and replaces with
/// `regex::Regex::replace`. Claimed: the answer depends on the three texts alone.
#[verifier::external_body]
pub(crate) fn replace_first(pattern: &str, haystack: &str, replacement: &str) -> (r: Option<String>)
    ensures
        replaced(pattern@, haystack@, replacement@) == match r {
            Some(text) => Some(text@),
            None => None,
        },
{
    match regex::Regex::new(pattern) {
        Ok(re) => Some(re.replace(haystack, replacement).into_owned()),
        Err(_) => None,
    }
}

/// `std::format!` with `{:?}` on a text: the text as a quoted literal.
/// Claimed: the result depends on the text alone.
#[verifier::external_body]
pub(crate) fn debug_quoted(text: &str) -> (r: String)
    ensures
        r@ == quoted(text@),
{
    format!("{:?}", text)
}

} // verus!
