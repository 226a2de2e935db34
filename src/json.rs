use vstd::prelude::*;

verus! {

#[verifier::external_type_specification]
#[verifier::external_body]
pub struct ExJsonValue(serde_json::Value);

/// Whether a text is one JSON document.
pub uninterp spec fn json_parses(text: Seq<char>) -> bool;

/// The JSON document that a text holds, when it holds one.
pub uninterp spec fn json_of(text: Seq<char>) -> serde_json::Value;

/// The document of a text, or `None` when the text is not JSON.
pub open spec fn parsed(text: Seq<char>) -> Option<serde_json::Value> {
    if json_parses(text) {
        Some(json_of(text))
    } else {
        None
    }
}

/// The keys of a JSON object (none for any other value).
pub uninterp spec fn json_keys(v: serde_json::Value) -> Set<Seq<char>>;

/// The entries of a JSON object whose values are strings.
pub uninterp spec fn json_strs(v: serde_json::Value) -> Map<Seq<char>, Seq<char>>;

/// The entries of a JSON object whose values are integers in the range of `u64`.
pub uninterp spec fn json_u64s(v: serde_json::Value) -> Map<Seq<char>, u64>;

/// Relies on `serde_json::from_str::<Value>`: it succeeds exactly on the texts that hold one
/// JSON document, and the value it gives depends on the text alone.
#[verifier::external_body]
pub(crate) fn parse_json(text: &str) -> (r: Option<serde_json::Value>)
    ensures
        r is Some == json_parses(text@),
        r matches Some(v) ==> v == json_of(text@),
{
    serde_json::from_str::<serde_json::Value>(text).ok()
}

/// Relies on `Value::get` with a `&str` key: `Some` exactly when the value is an object that
/// has the key.
#[verifier::external_body]
pub(crate) fn has_field(v: &serde_json::Value, key: &str) -> (r: bool)
    ensures
        r == json_keys(*v).contains(key@),
{
    v.get(key).is_some()
}

/// Relies on `Value::get` with a `&str` key, keeping the entry only when it holds a string.
#[verifier::external_body]
pub(crate) fn str_field(v: &serde_json::Value, key: &str) -> (r: Option<String>)
    ensures
        match r {
            Some(t) => json_strs(*v).contains_key(key@) && json_strs(*v)[key@] == t@ && json_keys(
                *v,
            ).contains(key@),
            None => !json_strs(*v).contains_key(key@),
        },
{
    match v.get(key) {
        Some(serde_json::Value::String(s)) => Some(s.clone()),
        _ => None,
    }
}

/// Relies on `Value::get` with a `&str` key and `Value::as_u64`, which gives the entry's
/// number when it is a non-negative integer that fits in `u64`.
#[verifier::external_body]
pub(crate) fn u64_field(v: &serde_json::Value, key: &str) -> (r: Option<u64>)
    ensures
        match r {
            Some(n) => json_u64s(*v).contains_key(key@) && json_u64s(*v)[key@] == n && json_keys(
                *v,
            ).contains(key@),
            None => !json_u64s(*v).contains_key(key@),
        },
{
    v.get(key).and_then(serde_json::Value::as_u64)
}

} // verus!
