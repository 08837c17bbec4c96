use regex::Regex;
use vstd::prelude::*;

verus! {

/// What capture group `group` holds in the leftmost match of the regular
/// expression `pattern` in `text`, as `regex::Regex::captures` reports it;
/// group 0 is the whole match. `None` where there is no match, the group took
/// no part in it, or `pattern` is not a regular expression that
/// `regex::Regex::new` accepts.
pub uninterp spec fn regex_capture(pattern: Seq<char>, text: Seq<char>, group: int) -> Option<
    Seq<char>,
>;

/// Compiles `pattern` with `regex::Regex::new` and searches `text` with
/// `regex::Regex::captures`. What comes back is the part of `text` that capture
/// group `group` matched, named [`regex_capture`].
#[verifier::external_body]
pub(crate) fn capture_first(pattern: &str, text: &str, group: usize) -> (found: Option<String>)
    ensures
        found.deep_view() == regex_capture(pattern@, text@, group as int),
{
    match Regex::new(pattern) {
        Ok(re) => re.captures(text).and_then(|caps| caps.get(group)).map(|m| m.as_str().to_owned()),
        Err(_) => None,
    }
}

} // verus!
