//! Regular expressions, compiled and applied by `regex_lite`.
use vstd::prelude::*;

verus! {

/// `regex_lite::Regex`, a compiled regular expression; opaque here.
#[verifier::external_type_specification]
#[verifier::external_body]
pub struct ExRegex(regex_lite::Regex);

/// Whether `regex_lite::Regex::new` accepts `pattern`.
pub uninterp spec fn regex_compiles(pattern: Seq<char>) -> bool;

/// What `regex_lite::Regex::replace_all` makes of `haystack` for the regex
/// compiled from `pattern` and the replacement `replacement`.
pub uninterp spec fn regex_replace_all(
    pattern: Seq<char>,
    haystack: Seq<char>,
    replacement: Seq<char>,
) -> Seq<char>;

/// What `regex_lite::Regex::replace` (leftmost-first match only) makes of
/// `haystack` for the regex compiled from `pattern` and the replacement
/// `replacement`.
pub uninterp spec fn regex_replace_first(
    pattern: Seq<char>,
    haystack: Seq<char>,
    replacement: Seq<char>,
) -> Seq<char>;

/// A regular expression together with the pattern it was compiled from.
pub struct Pattern {
    source: String,
    regex: regex_lite::Regex,
}

impl View for Pattern {
    type V = Seq<char>;

    /// The pattern the expression was compiled from.
    closed spec fn view(&self) -> Seq<char> {
        self.source@
    }
}

/// Compiles `pattern` with `regex_lite::Regex::new`, dropping the reason of
/// a failure. Claimed: it succeeds exactly when `regex_compiles(pattern)`,
/// and the compiled expression keeps `pattern` as its source. Which patterns
/// compile is left to the name.
#[verifier::external_body]
pub(crate) fn compile(pattern: &str) -> (r: Option<Pattern>)
    ensures
        r is Some <==> regex_compiles(pattern@),
        r matches Some(p) ==> p@ == pattern@,
{
    match regex_lite::Regex::new(pattern) {
        Ok(regex) => Some(Pattern { source: pattern.to_string(), regex }),
        Err(_) => None,
    }
}

/// Replaces every non-overlapping match of `p` in `haystack` with
/// `replacement` (`regex_lite::Regex::replace_all`). Claimed: the result is
/// `regex_replace_all` of the source of `p`, the haystack and the
/// replacement, and with an empty replacement, which only removes the
/// matches, it is no longer than the haystack and holds only characters of
/// the haystack. Which spans match is left to the name.
#[verifier::external_body]
pub(crate) fn replace_all(p: &Pattern, haystack: &str, replacement: &str) -> (s: String)
    ensures
        s@ == regex_replace_all(p@, haystack@, replacement@),
        replacement@.len() == 0 ==> s@.len() <= haystack@.len(),
        replacement@.len() == 0 ==> (forall|i: int|
            0 <= i < s@.len() ==> haystack@.contains(#[trigger] s@[i])),
{
    p.regex.replace_all(haystack, replacement).into_owned()
}

/// Replaces the leftmost-first match of `p` in `haystack` with `replacement`
/// (`regex_lite::Regex::replace`). Claimed: the result is
/// `regex_replace_first` of the source of `p`, the haystack and the
/// replacement, and with an empty replacement, which only removes the
/// match, it is no longer than the haystack and holds only characters of the
/// haystack. Which span matches is left to the name.
#[verifier::external_body]
pub(crate) fn replace_first(p: &Pattern, haystack: &str, replacement: &str) -> (s: String)
    ensures
        s@ == regex_replace_first(p@, haystack@, replacement@),
        replacement@.len() == 0 ==> s@.len() <= haystack@.len(),
        replacement@.len() == 0 ==> (forall|i: int|
            0 <= i < s@.len() ==> haystack@.contains(#[trigger] s@[i])),
{
    p.regex.replace(haystack, replacement).into_owned()
}

} // verus!
