//! Looking up one field of a JSON text.
use vstd::prelude::*;

verus! {

/// What `serde_json` finds under `key` in `body` read as a JSON value:
/// `None` when the body is not JSON, not an object, or has no such key;
/// `Some(None)` when the field is there but is not a string; `Some(Some(t))`
/// when it is the string `t`.
pub uninterp spec fn json_field(body: Seq<char>, key: Seq<char>) -> Option<Option<Seq<char>>>;

/// `serde_json::from_str::<serde_json::Value>` of the body, `Value::get` of
/// the key, then `Value::as_str` of the field. Claimed: the outcome is
/// `json_field` of the body and the key, the string converted to a `String`;
/// what the parser accepts is not stated.
#[verifier::external_body]
pub(crate) fn json_field_of(body: &str, key: &str) -> (r: Option<Option<String>>)
    ensures
        field_view(r) == json_field(body@, key@),
{
    let parsed = serde_json::from_str::<serde_json::Value>(body).ok();
    parsed.as_ref().and_then(|v| v.get(key)).map(|f| f.as_str().map(str::to_owned))
}

/// A looked-up field taken by its view.
pub open spec fn field_view(f: Option<Option<String>>) -> Option<Option<Seq<char>>> {
    match f {
        None => None,
        Some(None) => Some(None),
        Some(Some(s)) => Some(Some(s@)),
    }
}

/// The field found so far when there is one, else the field under `key`.
pub open spec fn or_field(found: Option<Option<Seq<char>>>, body: Seq<char>, key: Seq<char>) -> Option<
    Option<Seq<char>>,
> {
    if found is Some {
        found
    } else {
        json_field(body, key)
    }
}

/// The string of a field that is present and a string.
pub open spec fn field_text(f: Option<Option<Seq<char>>>) -> Option<Seq<char>> {
    match f {
        Some(Some(t)) => Some(t),
        _ => None,
    }
}

/// Keeps the field found so far; looks `key` up only when there is none.
pub fn or_field_of(found: Option<Option<String>>, body: &str, key: &str) -> (r: Option<Option<String>>)
    ensures
        field_view(r) == or_field(field_view(found), body@, key@),
{
    if found.is_some() {
        found
    } else {
        json_field_of(body, key)
    }
}

/// The string of a field that is present and a string.
pub fn text_of_field(f: Option<Option<String>>) -> (r: Option<String>)
    ensures
        match field_text(field_view(f)) {
            Some(t) => r matches Some(s) && s@ == t,
            None => r is None,
        },
{
    match f {
        Some(Some(s)) => Some(s),
        _ => None,
    }
}

} // verus!
