//! Reading values out of JSON text.
//!
//! Parsing is serde_json's work. Each reader below parses the text, follows a
//! JSON pointer (RFC 6901, as `serde_json::Value::pointer` does) and converts
//! what it finds to a plain value. What a parse yields takes pages to state, so
//! each reader's result is given a name over the text and the pointer.

use vstd::prelude::*;

verus! {

/// Whether serde_json accepts `text` as one JSON document.
pub uninterp spec fn json_parses(text: Seq<char>) -> bool;

/// The string at `pointer` in the JSON document `text`, if there is a string there.
pub uninterp spec fn json_str_at(text: Seq<char>, pointer: Seq<char>) -> Option<Seq<char>>;

/// The integer at `pointer` in `text`, if it is a JSON number that fits in an `i64`.
pub uninterp spec fn json_i64_at(text: Seq<char>, pointer: Seq<char>) -> Option<i64>;

/// The integer at `pointer` in `text`, if it is a JSON number that fits in a `u64`.
pub uninterp spec fn json_u64_at(text: Seq<char>, pointer: Seq<char>) -> Option<u64>;

/// The elements of the array at `pointer` in `text`, each written back as
/// compact JSON text, if there is an array there.
pub uninterp spec fn json_items_at(text: Seq<char>, pointer: Seq<char>) -> Option<
    Seq<Seq<char>>,
>;

/// The value at `pointer` in `text` written as compact JSON (`null` when absent
/// or when `text` does not parse).
pub uninterp spec fn json_shown_at(text: Seq<char>, pointer: Seq<char>) -> Seq<char>;

/// Whether a value stands at `pointer` in `text`.
pub uninterp spec fn json_has_at(text: Seq<char>, pointer: Seq<char>) -> bool;

/// The document `text` written back as indented JSON, if it parses.
pub uninterp spec fn json_pretty_of(text: Seq<char>) -> Option<Seq<char>>;

/// Whether `serde_json::from_str::<serde_json::Value>` accepts `text`.
#[verifier::external_body]
pub(crate) fn json_valid(text: &str) -> (r: bool)
    ensures
        r == json_parses(text@),
{
    serde_json::from_str::<serde_json::Value>(text).is_ok()
}

/// `serde_json::from_str`, then `Value::pointer`, then `Value::as_str`; the
/// string found, copied out.
#[verifier::external_body]
pub(crate) fn json_str(text: &str, pointer: &str) -> (r: Option<String>)
    ensures
        r is Some <==> json_str_at(text@, pointer@) is Some,
        r matches Some(v) ==> json_str_at(text@, pointer@) == Some(v@),
{
    let v: serde_json::Value = serde_json::from_str(text).ok()?;
    v.pointer(pointer)?.as_str().map(|s| s.to_string())
}

/// `serde_json::from_str`, then `Value::pointer`, then `Value::as_i64`.
#[verifier::external_body]
pub(crate) fn json_i64(text: &str, pointer: &str) -> (r: Option<i64>)
    ensures
        r == json_i64_at(text@, pointer@),
{
    let v: serde_json::Value = serde_json::from_str(text).ok()?;
    v.pointer(pointer)?.as_i64()
}

/// `serde_json::from_str`, then `Value::pointer`, then `Value::as_u64`.
#[verifier::external_body]
pub(crate) fn json_u64(text: &str, pointer: &str) -> (r: Option<u64>)
    ensures
        r == json_u64_at(text@, pointer@),
{
    let v: serde_json::Value = serde_json::from_str(text).ok()?;
    v.pointer(pointer)?.as_u64()
}

/// `serde_json::from_str`, then `Value::pointer`, then `Value::as_array`; each
/// element written back with `serde_json::to_string`.
#[verifier::external_body]
pub(crate) fn json_items(text: &str, pointer: &str) -> (r: Option<Vec<String>>)
    ensures
        r is Some <==> json_items_at(text@, pointer@) is Some,
        r matches Some(items) ==> json_items_at(text@, pointer@) == Some(
            items@.map_values(|s: String| s@),
        ),
{
    let v: serde_json::Value = serde_json::from_str(text).ok()?;
    let items = v.pointer(pointer)?.as_array()?;
    Some(items.iter().map(|item| item.to_string()).collect())
}

/// The value at `pointer` as `serde_json::Value`'s `Display` writes it,
/// `Value::Null` standing in for a missing value, as indexing does.
#[verifier::external_body]
pub(crate) fn json_shown(text: &str, pointer: &str) -> (r: String)
    ensures
        r@ == json_shown_at(text@, pointer@),
{
    let v: serde_json::Value = serde_json::from_str(text).unwrap_or(serde_json::Value::Null);
    v.pointer(pointer).unwrap_or(&serde_json::Value::Null).to_string()
}

/// Whether `Value::pointer` finds a value at `pointer`.
#[verifier::external_body]
pub(crate) fn json_has(text: &str, pointer: &str) -> (r: bool)
    ensures
        r == json_has_at(text@, pointer@),
{
    match serde_json::from_str::<serde_json::Value>(text) {
        Ok(v) => v.pointer(pointer).is_some(),
        Err(_) => false,
    }
}

/// `serde_json::to_string_pretty` of the parsed document.
#[verifier::external_body]
pub(crate) fn json_pretty(text: &str) -> (r: Option<String>)
    ensures
        r is Some <==> json_pretty_of(text@) is Some,
        r matches Some(p) ==> json_pretty_of(text@) == Some(p@),
{
    let v: serde_json::Value = serde_json::from_str(text).ok()?;
    serde_json::to_string_pretty(&v).ok()
}

} // verus!
