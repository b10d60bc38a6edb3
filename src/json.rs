use vstd::prelude::*;
use serde_json::Error as JsonParseError;

verus! {

/// `serde_json::Value`, carried through as an opaque payload.
#[verifier::external_type_specification]
#[verifier::external_body]
pub struct ExValue(serde_json::Value);

/// `serde_json::Error`, carried through in the library's own error.
#[verifier::external_type_specification]
#[verifier::external_body]
pub struct ExJsonError(JsonParseError);

/// Relies on the derived `Clone` of `serde_json::Value`; nothing is claimed of the copy.
pub assume_specification[ <serde_json::Value as std::clone::Clone>::clone ](v: &serde_json::Value) -> serde_json::Value;

/// The members of a JSON object text, each name mapped to the JSON text of its
/// value; `None` where the text is not one JSON object.
pub uninterp spec fn members_of(s: Seq<char>) -> Option<Map<Seq<char>, Seq<char>>>;

/// The string that a JSON text denotes; `None` where it is not one JSON string.
pub uninterp spec fn json_text_of(s: Seq<char>) -> Option<Seq<char>>;

/// Whether the text is one JSON value.
pub uninterp spec fn is_json(s: Seq<char>) -> bool;

/// The list holds each member of the map once, as (name, raw value text).
pub open spec fn lists_members(v: Seq<(String, String)>, m: Map<Seq<char>, Seq<char>>) -> bool {
    &&& forall|i: int, j: int|
        0 <= i < j < v.len() ==> #[trigger] v[i].0@ != #[trigger] v[j].0@
    &&& forall|i: int|
        0 <= i < v.len() ==> m.contains_key(#[trigger] v[i].0@) && m[v[i].0@] == v[i].1@
    &&& forall|k: Seq<char>| #[trigger] m.contains_key(k) ==> exists|i: int| 0 <= i < v.len() && v[i].0@ == k
}

/// Relies on `serde_json::from_str` into a `BTreeMap<String, Box<RawValue>>`:
/// it succeeds on one JSON object, and keeps each member once, with the raw
/// text of its value.
#[verifier::external_body]
pub(crate) fn parse_members(s: &str) -> (r: Result<Vec<(String, String)>, serde_json::Error>)
    ensures
        r is Ok <==> members_of(s@) is Some,
        r matches Ok(v) ==> lists_members(v@, members_of(s@)->0),
{
    let parsed = serde_json::from_str::<
        std::collections::BTreeMap<String, Box<serde_json::value::RawValue>>,
    >(s)?;
    Ok(parsed.into_iter().map(|(k, v)| (k, v.get().to_string())).collect())
}

/// Relies on `serde_json::from_str` into a `String`: it succeeds on one JSON
/// string and gives the text that it denotes.
#[verifier::external_body]
pub(crate) fn parse_json_text(s: &str) -> (r: Result<String, serde_json::Error>)
    ensures
        r is Ok <==> json_text_of(s@) is Some,
        r matches Ok(t) ==> json_text_of(s@) == Some(t@),
{
    serde_json::from_str::<String>(s)
}

/// Relies on `serde_json::from_str` into a `serde_json::Value`: it succeeds
/// on one JSON value.
#[verifier::external_body]
pub(crate) fn parse_value(s: &str) -> (r: Result<serde_json::Value, serde_json::Error>)
    ensures
        r is Ok <==> is_json(s@),
{
    serde_json::from_str::<serde_json::Value>(s)
}

/// Relies on `serde::de::Error::custom` for `serde_json::Error`: an error
/// that names the missing member.
#[verifier::external_body]
pub(crate) fn missing_member_error(name: &str) -> serde_json::Error {
    <serde_json::Error as serde::de::Error>::custom(format!("missing field `{}`", name))
}

} // verus!
