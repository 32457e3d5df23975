//! JSON text of lists and tables of strings.

use vstd::prelude::*;
use vstd::string::*;
use crate::interaction::text_view;
use crate::text::utf8_len;
use crate::unicode::views;

verus! {

/// The JSON text of a list of strings.
pub uninterp spec fn json_array(items: Seq<Seq<char>>) -> Seq<char>;

/// The JSON text of a string.
pub uninterp spec fn json_string(text: Seq<char>) -> Seq<char>;

/// The JSON text of a table from strings to strings.
pub uninterp spec fn json_object(entries: Seq<(Seq<char>, Seq<char>)>) -> Seq<char>;

/// The list of strings that a JSON text stands for, if it stands for one.
pub uninterp spec fn array_in(text: Seq<char>) -> Option<Seq<Seq<char>>>;

/// The table from strings to strings that a JSON text stands for, if it stands
/// for one, in the order of its keys.
pub uninterp spec fn object_in(text: Seq<char>) -> Option<Seq<(Seq<char>, Seq<char>)>>;

/// A JSON text laid out over several lines, if it is one.
pub uninterp spec fn pretty_json(text: Seq<char>) -> Option<Seq<char>>;

/// The contents of the entries of a table.
pub open spec fn entry_views(entries: Seq<(String, String)>) -> Seq<(Seq<char>, Seq<char>)> {
    entries.map_values(|entry: (String, String)| (entry.0@, entry.1@))
}

/// Whether a text stands before another in the order of strings, character by
/// character.
pub open spec fn stands_before(left: Seq<char>, right: Seq<char>) -> bool {
    exists|i: int|
        #![trigger right[i]]
        0 <= i < right.len() && i <= left.len() && left.take(i) == right.take(i) && (i < left.len()
            ==> (left[i] as u32) < (right[i] as u32))
}

/// Whether a table lists its keys in order, none of them twice.
pub open spec fn in_key_order(entries: Seq<(Seq<char>, Seq<char>)>) -> bool {
    forall|i: int, j: int|
        0 <= i < j < entries.len() ==> stands_before(
            (#[trigger] entries[i]).0,
            (#[trigger] entries[j]).0,
        )
}

/// `serde_json::to_string` on a list of strings. Claimed: the text depends on
/// the strings alone. The call cannot fail on strings.
#[verifier::external_body]
pub(crate) fn array_text(items: &Vec<String>) -> (text: String)
    ensures
        text@ == json_array(views(items@)),
{
    serde_json::to_string(items).unwrap_or_default()
}

/// `serde_json::to_string` on a map from strings to strings. Claimed: the text
/// depends on the entries alone. The call cannot fail on strings.
#[verifier::external_body]
pub(crate) fn object_text(entries: &Vec<(String, String)>) -> (text: String)
    ensures
        text@ == json_object(entry_views(entries@)),
{
    let map: std::collections::BTreeMap<String, String> = entries.iter().cloned().collect();
    serde_json::to_string(&map).unwrap_or_default()
}

/// `serde_json::to_string` on a string. Claimed: the text depends on the string
/// alone. The call cannot fail on a string.
#[verifier::external_body]
pub(crate) fn string_text(text: &str) -> (json: String)
    ensures
        json@ == json_string(text@),
{
    serde_json::to_string(text).unwrap_or_default()
}

/// `simd_json::serde::from_slice` to a list of strings. Claimed: whether the
/// text is such a list, and which, depends on the text alone, and the text that
/// `serde_json::to_string` gives a list is read back as that list unless it is
/// longer than the parser takes, `u32::MAX` bytes. Of the message that comes with
/// a refusal nothing is claimed.
#[verifier::external_body]
pub(crate) fn parse_array(text: &str) -> (list: Result<Vec<String>, String>)
    ensures
        match list {
            Ok(items) => array_in(text@) == Some(views(items@)),
            Err(_) => array_in(text@) is None,
        },
        forall|items: Seq<Seq<char>>|
            text@ == #[trigger] json_array(items) && utf8_len(text@) <= u32::MAX ==> {
                &&& list is Ok
                &&& views(list->Ok_0@) == items
            },
{
    let mut bytes: Vec<u8> = text.as_bytes().to_vec();
    simd_json::serde::from_slice::<Vec<String>>(&mut bytes).map_err(|error| error.to_string())
}

/// `simd_json::serde::from_slice` to a map from strings to strings. Claimed:
/// whether the text is such a map, and which, depends on the text alone, and a
/// map comes in the order of its keys. The text that `serde_json::to_string` gives
/// a map is read back as that map unless it is longer than the parser takes,
/// `u32::MAX` bytes. Of the message that comes with a refusal nothing is claimed.
#[verifier::external_body]
pub(crate) fn parse_object(text: &str) -> (table: Result<Vec<(String, String)>, String>)
    ensures
        match table {
            Ok(entries) => object_in(text@) == Some(entry_views(entries@)) && in_key_order(
                entry_views(entries@),
            ),
            Err(_) => object_in(text@) is None,
        },
        forall|entries: Seq<(Seq<char>, Seq<char>)>|
            text@ == #[trigger] json_object(entries) && in_key_order(entries) && utf8_len(text@)
                <= u32::MAX ==> {
                &&& table is Ok
                &&& entry_views(table->Ok_0@) == entries
            },
{
    let mut bytes: Vec<u8> = text.as_bytes().to_vec();
    simd_json::serde::from_slice::<std::collections::BTreeMap<String, String>>(&mut bytes)
        .map(|map| map.into_iter().collect())
        .map_err(|error| error.to_string())
}

/// `serde_json::to_string_pretty` on the value that `serde_json::from_str` reads.
/// Claimed: whether the text is JSON, and how it is laid out, depends on the text
/// alone.
#[verifier::external_body]
pub(crate) fn pretty_text(text: &str) -> (pretty: Option<String>)
    ensures
        text_view(pretty) == pretty_json(text@),
{
    let value: serde_json::Value = serde_json::from_str(text).ok()?;
    serde_json::to_string_pretty(&value).ok()
}

} // verus!
