//! JSON values, as `serde_json` holds them. The library carries such values
//! and asks `serde_json` for what it needs of them; the contracts here are
//! taken on trust from that crate.

use vstd::prelude::*;

verus! {

#[verifier::external_type_specification]
#[verifier::external_body]
pub struct ExJsonValue(serde_json::Value);

#[verifier::external_type_specification]
#[verifier::external_body]
pub struct ExJsonError(serde_json::Error);

/// The member that a JSON value holds under `key`: present only where the
/// value is an object that has the key.
pub uninterp spec fn json_member(value: serde_json::Value, key: Seq<char>) -> Option<serde_json::Value>;

/// The text of a JSON value that is a string; nothing for any other value.
pub uninterp spec fn json_string(value: serde_json::Value) -> Option<Seq<char>>;

/// The compact JSON text that `serde_json` writes for a value, where it
/// writes one.
pub uninterp spec fn json_encoding(value: serde_json::Value) -> Option<Seq<char>>;

/// `serde_json::Value::get` with a string index: looks `key` up in a JSON
/// object. The result is the member named by [`json_member`].
#[verifier::external_body]
pub(crate) fn member<'a>(value: &'a serde_json::Value, key: &str) -> (found: Option<&'a serde_json::Value>)
    ensures
        match found {
            Some(m) => json_member(*value, key@) == Some(*m),
            None => json_member(*value, key@) is None,
        },
{
    value.get(key)
}

/// `serde_json::Value::as_str`: the text of a JSON string. The result is
/// the text named by [`json_string`].
#[verifier::external_body]
pub(crate) fn string_of<'a>(value: &'a serde_json::Value) -> (text: Option<&'a str>)
    ensures
        match text {
            Some(t) => json_string(*value) == Some(t@),
            None => json_string(*value) is None,
        },
{
    value.as_str()
}

/// `serde_json::to_string` on a JSON value: its compact JSON text. On
/// success the result is the text named by [`json_encoding`]; a failure
/// means the value has no such text.
#[verifier::external_body]
pub(crate) fn encode(value: &serde_json::Value) -> (text: Result<String, serde_json::Error>)
    ensures
        match text {
            Ok(t) => json_encoding(*value) == Some(t@),
            Err(_) => json_encoding(*value) is None,
        },
{
    serde_json::to_string(value)
}

} // verus!
