use vstd::prelude::*;
use crate::sensor::text_of;

verus! {

/// What the `regex` crate finds when the pattern `pattern` is searched in
/// `text`: the stretch of `text` that capture group `group` of the leftmost
/// match took, and nothing where the pattern does not compile, does not match,
/// or matches without that group.
pub uninterp spec fn regex_capture(pattern: Seq<char>, text: Seq<char>, group: int) -> Option<
    Seq<char>,
>;

/// Searches `text` for `pattern` with the `regex` crate: `Regex::new` compiles
/// the pattern and `Regex::captures` finds the leftmost match, of which
/// `Captures::get` and `Match::as_str` give the text of one group. Nothing here
/// is proved; the contract only gives the outcome its name.
#[verifier::external_body]
pub(crate) fn capture_group(pattern: &str, text: &str, group: usize) -> (r: Option<String>)
    ensures
        text_of(r) == regex_capture(pattern@, text@, group as int),
{
    match regex::Regex::new(pattern) {
        Ok(re) => re.captures(text).and_then(|c| c.get(group)).map(|m| m.as_str().to_string()),
        Err(_) => None,
    }
}

} // verus!
