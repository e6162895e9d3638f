//! The regular-expression searches the library makes, through the `regex`
//! crate. What a pattern matches is left to names: the facts stated beside
//! them are that a match is a piece of the text searched, and that the empty
//! pattern compiles and matches the empty text at the start.
use vstd::prelude::*;

verus! {

/// Whether a piece of text occurs in `haystack`.
pub open spec fn is_substring(piece: Seq<char>, haystack: Seq<char>) -> bool {
    exists|i: int|
        0 <= i && i + piece.len() <= haystack.len() && #[trigger] haystack.subrange(
            i,
            i + piece.len(),
        ) == piece
}

/// Whether `regex::Regex::new(pattern)` succeeds.
pub uninterp spec fn regex_valid(pattern: Seq<char>) -> bool;

/// The text of the leftmost-first match that `Regex::find` reports.
pub uninterp spec fn regex_first_match(pattern: Seq<char>, haystack: Seq<char>) -> Option<
    Seq<char>,
>;

/// The text of group `group` of the first match that `Regex::captures`
/// reports, `None` where there is no match or the group did not take part.
pub uninterp spec fn regex_capture(pattern: Seq<char>, haystack: Seq<char>, group: int) -> Option<
    Seq<char>,
>;

/// The text that `Regex::replace_all(haystack, "")` leaves.
pub uninterp spec fn regex_erase_all(pattern: Seq<char>, haystack: Seq<char>) -> Seq<char>;

/// The view of an optional string.
pub open spec fn opt_string_view(o: Option<String>) -> Option<Seq<char>> {
    match o {
        Some(s) => Some(s@),
        None => None,
    }
}

/// `regex::Regex::new(pattern).is_ok()`. The regex crate compiles the empty
/// pattern.
#[verifier::external_body]
pub(crate) fn regex_is_valid(pattern: &str) -> (b: bool)
    ensures
        b == regex_valid(pattern@),
        pattern@.len() == 0 ==> b,
{
    regex::Regex::new(pattern).is_ok()
}

/// `Regex::find` on a pattern that compiles, the match handed back as its
/// text. A match is a slice of the haystack; the empty pattern matches the
/// empty text at the start of any haystack.
#[verifier::external_body]
pub(crate) fn regex_find(pattern: &str, haystack: &str) -> (r: Option<String>)
    requires
        regex_valid(pattern@),
    ensures
        opt_string_view(r) == regex_first_match(pattern@, haystack@),
        r matches Some(m) ==> is_substring(m@, haystack@),
        pattern@.len() == 0 ==> opt_string_view(r) == Some(Seq::<char>::empty()),
{
    regex::Regex::new(pattern).unwrap().find(haystack).map(|m| m.as_str().to_string())
}

/// `Regex::captures` followed by `Captures::get(group)` on a pattern that
/// compiles, the group handed back as its text, which is a slice of the
/// haystack.
#[verifier::external_body]
pub(crate) fn regex_capture_group(pattern: &str, haystack: &str, group: usize) -> (r: Option<String>)
    requires
        regex_valid(pattern@),
    ensures
        opt_string_view(r) == regex_capture(pattern@, haystack@, group as int),
        r matches Some(m) ==> is_substring(m@, haystack@),
{
    regex::Regex::new(pattern).unwrap().captures(haystack).and_then(|c| c.get(group)).map(
        |m| m.as_str().to_string(),
    )
}

/// `Regex::replace_all(haystack, "")` on a pattern that compiles: every
/// match removed.
#[verifier::external_body]
pub(crate) fn regex_erase(pattern: &str, haystack: &str) -> (r: String)
    requires
        regex_valid(pattern@),
    ensures
        r@ == regex_erase_all(pattern@, haystack@),
{
    regex::Regex::new(pattern).unwrap().replace_all(haystack, "").into_owned()
}

} // verus!
