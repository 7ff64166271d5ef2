//! JSON through `serde_json`: validity of texts, the opaque JSON value that
//! a request carries, and the pretty rendering of string maps.
use vstd::prelude::*;
use crate::string_map::{entry_views, keys_distinct, value_for, Entries};
use crate::text::is_white_space;

verus! {

/// `serde_json::Value`, carried through the library without being looked
/// into.
#[verifier::external_type_specification]
#[verifier::external_body]
pub struct ExJsonValue(serde_json::Value);

/// Whether `serde_json::from_str::<serde_json::Value>` accepts the text: a
/// single JSON value, possibly surrounded by white space.
pub uninterp spec fn json_text_valid(text: Seq<char>) -> bool;

/// The value that `serde_json::from_str::<serde_json::Value>` reads from a
/// valid JSON text.
pub uninterp spec fn parsed_json(text: Seq<char>) -> serde_json::Value;

/// `serde_json::from_str::<serde_json::Value>(text).ok()`.
/// Claimed: a value comes back exactly when the text is valid JSON, and it
/// is `parsed_json` of the text, a function of the text alone (objects are
/// `BTreeMap`s here, so the order of their members is fixed by the keys).
/// Also claimed: the pretty text of a value read this way reads back as
/// JSON.  The reader nests no deeper than its limit, so the writer's text
/// does not either; strings are escaped so that the reader accepts them;
/// and a number read as a finite float is written as the shortest text of
/// that float, which the reader takes back without leaving the float range.
#[verifier::external_body]
pub(crate) fn parse_json_text(text: &str) -> (res: Option<serde_json::Value>)
    ensures
        res == (if json_text_valid(text@) {
            Some(parsed_json(text@))
        } else {
            None
        }),
        res is Some ==> json_text_valid(pretty_value_text(res.unwrap())),
{
    serde_json::from_str::<serde_json::Value>(text).ok()
}

/// Whether `serde_json::from_slice::<serde_json::Value>` accepts the bytes.
pub uninterp spec fn json_bytes_valid(bytes: Seq<u8>) -> bool;

/// The value that `serde_json::from_slice::<serde_json::Value>` reads from
/// valid JSON bytes.
pub uninterp spec fn parsed_json_bytes(bytes: Seq<u8>) -> serde_json::Value;

/// `serde_json::from_slice::<serde_json::Value>(bytes).ok()`.
/// Claimed: a value comes back exactly when the bytes are valid JSON, and
/// it is `parsed_json_bytes` of the bytes, a function of the bytes alone.
#[verifier::external_body]
pub(crate) fn parse_json_bytes(bytes: &[u8]) -> (res: Option<serde_json::Value>)
    ensures
        res == (if json_bytes_valid(bytes@) {
            Some(parsed_json_bytes(bytes@))
        } else {
            None
        }),
{
    serde_json::from_slice::<serde_json::Value>(bytes).ok()
}

/// The text that `serde_json::to_string_pretty` gives for a value.
pub uninterp spec fn pretty_value_text(value: serde_json::Value) -> Seq<char>;

/// `serde_json::to_string_pretty(value)`, empty should it fail (it does not
/// for a `Value`, whose maps have string keys, written into a `Vec`).
/// Claimed: the text is not empty, and it starts and ends with a character
/// of the value itself (`{`, `[`, `"`, a digit, a sign or a letter of
/// `null`, `true`, `false`; `}`, `]`, `"`, a digit or a letter), never with
/// white space: the pretty formatter writes line breaks and indentation
/// only between the tokens of an array or object.  The text is
/// `pretty_value_text` of the value, a function of the value alone.
#[verifier::external_body]
pub(crate) fn pretty_json(value: &serde_json::Value) -> (r: String)
    ensures
        r@ == pretty_value_text(*value),
        r@.len() > 0,
        !is_white_space(r@[0]),
        !is_white_space(r@.last()),
{
    serde_json::to_string_pretty(value).unwrap_or_default()
}

/// The text that `serde_json::to_string_pretty` gives for the JSON object
/// whose string members are the entries.
pub uninterp spec fn pretty_object_text(entries: Entries) -> Seq<char>;

/// `serde_json::to_string_pretty` of a `serde_json::Map` holding each entry
/// as a string member, empty should it fail (it does not: the keys are
/// strings).
/// Claimed: the text is `pretty_object_text` of the entries, a function of
/// the entries alone; it starts with `{` and ends with `}`, so it is not
/// empty and has no white space at either end; and, the keys being
/// distinct, reading it back as a map of strings succeeds and gives each
/// key its value (`serde_json` escapes every string it writes so that its
/// reader restores it, and the object is one level deep).
#[verifier::external_body]
pub(crate) fn pretty_json_object(entries: &Vec<(String, String)>) -> (res: String)
    ensures
        res@ == pretty_object_text(entry_views(entries@)),
        res@.len() > 0,
        !is_white_space(res@[0]),
        !is_white_space(res@.last()),
        keys_distinct(entry_views(entries@)) ==> string_object_members(res@) is Some,
        keys_distinct(entry_views(entries@)) ==> forall|k: Seq<char>|
            value_for(string_object_members(res@).unwrap(), k) == value_for(
                entry_views(entries@),
                k,
            ),
{
    let object: serde_json::Map<String, serde_json::Value> = entries.iter().map(
        |(k, v)| (k.clone(), serde_json::Value::String(v.clone())),
    ).collect();
    serde_json::to_string_pretty(&object).unwrap_or_default()
}

/// The members of the JSON object of string values that the text holds,
/// in the order of their keys, or `None` when the text is not such an
/// object.
pub uninterp spec fn string_object_members(text: Seq<char>) -> Option<Entries>;

/// `serde_json::from_str` of the text as a map from strings to strings,
/// the members handed out in key order.
/// Claimed: the outcome is `string_object_members` of the text, a function
/// of the text alone.
#[verifier::external_body]
pub(crate) fn parse_json_string_object(text: &str) -> (res: Option<Vec<(String, String)>>)
    ensures
        match res {
            Some(m) => string_object_members(text@) == Some(entry_views(m@)),
            None => string_object_members(text@) is None,
        },
{
    serde_json::from_str::<std::collections::BTreeMap<String, String>>(text).ok().map(
        |m| m.into_iter().collect(),
    )
}

} // verus!
