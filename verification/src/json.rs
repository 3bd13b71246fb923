use vstd::prelude::*;

verus! {

/// A JSON value as serde_json holds it. The library carries such values (request
/// ids, method results, parsed documents) without looking inside them.
#[verifier::external_type_specification]
#[verifier::external_body]
pub struct ExJsonValue(serde_json::Value);

/// Whether serde_json accepts `text` as one JSON document.
pub uninterp spec fn is_json_document(text: Seq<char>) -> bool;

/// The document that serde_json parses `text` into, where it accepts it.
pub uninterp spec fn json_document(text: Seq<char>) -> serde_json::Value;

/// The member named `key` of a JSON value, as `serde_json::Value::get` finds it.
pub uninterp spec fn json_member(document: serde_json::Value, key: Seq<char>) -> Option<serde_json::Value>;

/// Parses `text` with `serde_json::from_str::<serde_json::Value>`.
/// Claimed: the result is `Some` exactly on the texts that serde_json accepts as a
/// JSON document, and the document is then the one serde_json makes of that text,
/// a function of the text alone. What the document holds is not described.
#[verifier::external_body]
pub(crate) fn parse_document(text: &str) -> (r: Option<serde_json::Value>)
    ensures
        r is Some <==> is_json_document(text@),
        r matches Some(d) ==> d == json_document(text@),
{
    serde_json::from_str::<serde_json::Value>(text).ok()
}

/// Looks up the member named `key` with `serde_json::Value::get` and clones it.
/// serde_json gives `None` when the value is not an object or has no such member.
/// Claimed: the result is a function of the document and the key alone
/// (`json_member`).
#[verifier::external_body]
pub(crate) fn member(document: &serde_json::Value, key: &str) -> (r: Option<serde_json::Value>)
    ensures
        r == json_member(*document, key@),
{
    document.get(key).cloned()
}

/// The JSON `null` value, `serde_json::Value::Null`.
/// Claimed: it is the document serde_json parses the text `null` into, as its
/// deserializer shows (`null` is read as a unit, which a `Value` takes as `Null`).
#[verifier::external_body]
pub(crate) fn null_value() -> (r: serde_json::Value)
    ensures
        r == json_document("null"@),
{
    serde_json::Value::Null
}

} // verus!
