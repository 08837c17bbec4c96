use crate::tells::{Pending, TellsView};
use std::collections::BTreeMap;
use vstd::prelude::*;

verus! {

/// `serde_json::Error`, carried from the calls below to their callers as a
/// value that nothing is read out of.
#[verifier::external_type_specification]
#[verifier::external_body]
pub struct ExJsonError(serde_json::Error);

/// The mapping that a list of entries builds up when each entry in turn sets
/// the queue of its recipient: of two entries for one recipient the later stands.
pub open spec fn entries_map(e: Seq<(Seq<char>, Pending)>) -> TellsView
    decreases e.len(),
{
    if e.len() == 0 {
        Map::empty()
    } else {
        entries_map(e.drop_last()).insert(e.last().0, e.last().1)
    }
}

/// Whether no two entries of `e` are for the same recipient.
pub open spec fn distinct_recipients(e: Seq<(Seq<char>, Pending)>) -> bool {
    forall|i: int, j: int| 0 <= i < j < e.len() ==> (#[trigger] e[i]).0 != (#[trigger] e[j]).0
}

/// The JSON text that `serde_json::to_string` writes for a map from recipient
/// to a list of sender and content pairs.
pub uninterp spec fn json_text(m: TellsView) -> Seq<char>;

/// The map from recipient to a list of sender and content pairs that
/// `serde_json::from_str` reads out of `text`; `None` where it reports an error.
pub uninterp spec fn json_parse(text: Seq<char>) -> Option<TellsView>;

/// Calls `serde_json::to_string` on the entries, gathered in a `BTreeMap` keyed by
/// recipient; with one entry for each recipient the map holds exactly the
/// entries. The call writes into memory and fails only for a map whose keys are
/// no strings or a value that refuses to be written, neither of which texts
/// and lists of pairs of texts are: so a text comes back, and it is the one
/// named [`json_text`], for the mapping that the entries build up.
#[verifier::external_body]
pub(crate) fn encode(entries: &Vec<(String, Vec<(String, String)>)>) -> (out: Result<
    String,
    serde_json::Error,
>)
    requires
        distinct_recipients(entries.deep_view()),
    ensures
        out is Ok,
        out matches Ok(text) ==> text@ == json_text(entries_map(entries.deep_view())),
{
    let map: BTreeMap<&String, &Vec<(String, String)>> = entries.iter().map(|e| (&e.0, &e.1)).collect();
    serde_json::to_string(&map)
}

/// Calls `serde_json::from_str` for a `BTreeMap` from recipient to a list of
/// sender and content pairs, and hands its entries out as a list. The entries
/// build up the mapping named [`json_parse`]; an error comes back exactly
/// where that name is `None`.
#[verifier::external_body]
pub(crate) fn decode(text: &str) -> (out: Result<
    Vec<(String, Vec<(String, String)>)>,
    serde_json::Error,
>)
    ensures
        match out {
            Ok(entries) => json_parse(text@) == Some(entries_map(entries.deep_view())),
            Err(_) => json_parse(text@) is None,
        },
{
    let parsed: Result<BTreeMap<String, Vec<(String, String)>>, serde_json::Error> =
        serde_json::from_str(text);
    parsed.map(|map| map.into_iter().collect())
}

} // verus!
