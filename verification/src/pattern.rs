use regex::Regex;
use vstd::prelude::*;

verus! {

/// What the `regex` crate answers when the pattern text is compiled with
/// `Regex::new` and searched for in `haystack` with `Regex::is_match`:
/// `None` when the pattern does not compile, otherwise whether it matches
/// anywhere in the haystack.
pub uninterp spec fn regex_finds(pattern: Seq<char>, haystack: Seq<char>) -> Option<bool>;

/// What the `regex` crate answers when the pattern is compiled and
/// `Regex::captures` is run on `haystack`: the text of capture group 1 of the
/// leftmost match, or `None` when the pattern does not compile, does not
/// match, or group 1 took no part in the match.
pub uninterp spec fn regex_group_one(pattern: Seq<char>, haystack: Seq<char>) -> Option<Seq<char>>;

/// `regex::Regex::new` followed by `Regex::is_match`. The contract claims
/// only that the answer is the named function of the pattern and the
/// haystack; a pattern that fails to compile gives `None`.
#[verifier::external_body]
fn regex_search(pattern: &str, haystack: &str) -> (r: Option<bool>)
    ensures
        r == regex_finds(pattern@, haystack@),
{
    match Regex::new(pattern) {
        Ok(re) => Some(re.is_match(haystack)),
        Err(_) => None,
    }
}

/// `regex::Regex::new` followed by `Regex::captures` and `Captures::get(1)`.
/// The contract claims only that the captured text is the named function of
/// the pattern and the haystack.
#[verifier::external_body]
pub(crate) fn regex_capture_one(pattern: &str, haystack: &str) -> (r: Option<String>)
    ensures
        match r {
            Some(s) => regex_group_one(pattern@, haystack@) == Some(s@),
            None => regex_group_one(pattern@, haystack@) is None,
        },
{
    let re = match Regex::new(pattern) {
        Ok(re) => re,
        Err(_) => return None,
    };
    match re.captures(haystack) {
        Some(caps) => match caps.get(1) {
            Some(m) => Some(m.as_str().to_string()),
            None => None,
        },
        None => None,
    }
}

/// Whether `pattern` compiles and matches somewhere in `haystack`.
pub open spec fn pattern_hits(pattern: Seq<char>, haystack: Seq<char>) -> bool {
    regex_finds(pattern, haystack) == Some(true)
}

/// Whether `pattern` compiles and matches somewhere in `haystack`; a
/// pattern that does not compile matches nothing.
pub fn matches_pattern(pattern: &str, haystack: &str) -> (r: bool)
    ensures
        r == pattern_hits(pattern@, haystack@),
{
    match regex_search(pattern, haystack) {
        Some(b) => b,
        None => false,
    }
}

} // verus!
