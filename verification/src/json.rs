//! Members of a JSON object, as the `serde_json` crate reads them.

use vstd::prelude::*;

verus! {

/// The integer member `key` of the JSON text `text`, as `serde_json` reads
/// it: `from_slice` to a `Value`, then `get(key)`, then `as_i64`. `None`
/// where the text is no JSON, is no object, has no such member, or the
/// member is no integer that fits in 64 bits.
pub uninterp spec fn json_integer_member(text: Seq<u8>, key: Seq<char>) -> Option<i64>;

/// The string member `key` of the JSON text `text`, as `serde_json` reads
/// it: `from_slice` to a `Value`, then `get(key)`, then `as_str`. `None`
/// where the text is no JSON, is no object, has no such member, or the
/// member is no string.
pub uninterp spec fn json_string_member(text: Seq<u8>, key: Seq<char>) -> Option<Seq<char>>;

/// Calls `serde_json::from_slice` for a `serde_json::Value` and, on the
/// value, `get` and `as_i64`.
///
/// Trusted: the result is a function of the text and the key alone;
/// nothing else is claimed of it.
#[verifier::external_body]
pub(crate) fn json_integer(text: &[u8], key: &str) -> (member: Option<i64>)
    ensures
        member == json_integer_member(text@, key@),
{
    serde_json::from_slice::<serde_json::Value>(text).ok()?.get(key)?.as_i64()
}

/// Calls `serde_json::from_slice` for a `serde_json::Value` and, on the
/// value, `get` and `as_str`; the text is copied out with `to_string`.
///
/// Trusted: the result is a function of the text and the key alone;
/// nothing else is claimed of it.
#[verifier::external_body]
pub(crate) fn json_string(text: &[u8], key: &str) -> (member: Option<String>)
    ensures
        match member {
            Some(found) => json_string_member(text@, key@) == Some(found@),
            None => json_string_member(text@, key@) is None,
        },
{
    Some(serde_json::from_slice::<serde_json::Value>(text).ok()?.get(key)?.as_str()?.to_string())
}

} // verus!
