//! What the logic reads from the JSON text of tool arguments and tool
//! metadata, through `serde_json`: a string, number, flag or array length
//! under a key, an array item's string field, or the first member of an
//! object.

use vstd::prelude::*;

use crate::text::chars_of;

verus! {

/// The string that `serde_json` finds under `key` in the JSON text, or None
/// when the text is not JSON, not an object, lacks the key or holds another
/// kind of value there.
pub uninterp spec fn json_str_member(text: Seq<char>, key: Seq<char>) -> Option<Seq<char>>;

/// The unsigned integer that `serde_json` finds under `key` in the JSON text.
pub uninterp spec fn json_u64_member(text: Seq<char>, key: Seq<char>) -> Option<u64>;

/// The boolean that `serde_json` finds under `key` in the JSON text.
pub uninterp spec fn json_bool_member(text: Seq<char>, key: Seq<char>) -> Option<bool>;

/// The length of the array that `serde_json` finds under `key` in the JSON text.
pub uninterp spec fn json_array_member_len(text: Seq<char>, key: Seq<char>) -> Option<usize>;

/// The first key of the JSON object in the text (in the order of
/// `serde_json::Map`), with its value written back as compact JSON.
pub uninterp spec fn json_first_member(text: Seq<char>) -> Option<(Seq<char>, Seq<char>)>;

/// The string that `serde_json` finds under `field` in item `index` of the
/// array under `key` in the JSON text.
pub uninterp spec fn json_item_str_member(
    text: Seq<char>,
    key: Seq<char>,
    index: usize,
    field: Seq<char>,
) -> Option<Seq<char>>;

/// The string that `serde_json` finds at the JSON pointer `ptr` (such as
/// `/0/function/name`) in the JSON text.
pub uninterp spec fn json_pointer_str(text: Seq<char>, ptr: Seq<char>) -> Option<Seq<char>>;

/// Whether the JSON text holds a value (null included) at the JSON pointer.
pub uninterp spec fn json_pointer_present(text: Seq<char>, ptr: Seq<char>) -> bool;

/// The value at the JSON pointer as text: a string as it is, any other value
/// written back as compact JSON.
pub uninterp spec fn json_pointer_text(text: Seq<char>, ptr: Seq<char>) -> Option<Seq<char>>;

/// The length of the array at the JSON pointer (the empty pointer is the
/// whole text).
pub uninterp spec fn json_pointer_array_len(text: Seq<char>, ptr: Seq<char>) -> Option<usize>;

pub open spec fn opt_view(o: Option<String>) -> Option<Seq<char>> {
    match o {
        Some(s) => Some(s@),
        None => None,
    }
}

/// The string held, or `d`.
pub open spec fn or_else(o: Option<Seq<char>>, d: Seq<char>) -> Seq<char> {
    match o {
        Some(s) => s,
        None => d,
    }
}

/// The string held, or `d`, as characters.
pub(crate) fn or_else_string(o: Option<String>, d: &str) -> (r: Vec<char>)
    ensures
        r@ == or_else(opt_view(o), d@),
{
    match o {
        Some(s) => chars_of(&s),
        None => chars_of(d),
    }
}

/// `serde_json::from_str::<Value>(text)`, then `Value::as_str` on the value
/// under `key`. Claims only that the result is the named value
/// `json_str_member(text@, key@)`.
#[verifier::external_body]
pub(crate) fn json_str_field(text: &str, key: &str) -> (r: Option<String>)
    ensures
        opt_view(r) == json_str_member(text@, key@),
{
    let v: serde_json::Value = serde_json::from_str(text).ok()?;
    v[key].as_str().map(|s| s.to_string())
}

/// `serde_json::from_str::<Value>(text)`, then `Value::as_u64` on the value
/// under `key`. Claims only that the result is `json_u64_member(text@, key@)`.
#[verifier::external_body]
pub(crate) fn json_u64_field(text: &str, key: &str) -> (r: Option<u64>)
    ensures
        r == json_u64_member(text@, key@),
{
    let v: serde_json::Value = serde_json::from_str(text).ok()?;
    v[key].as_u64()
}

/// `serde_json::from_str::<Value>(text)`, then `Value::as_bool` on the value
/// under `key`. Claims only that the result is `json_bool_member(text@, key@)`.
#[verifier::external_body]
pub(crate) fn json_bool_field(text: &str, key: &str) -> (r: Option<bool>)
    ensures
        r == json_bool_member(text@, key@),
{
    let v: serde_json::Value = serde_json::from_str(text).ok()?;
    v[key].as_bool()
}

/// `serde_json::from_str::<Value>(text)`, then the length of `Value::as_array`
/// on the value under `key`. Claims only that the result is
/// `json_array_member_len(text@, key@)`.
#[verifier::external_body]
pub(crate) fn json_array_len(text: &str, key: &str) -> (r: Option<usize>)
    ensures
        r == json_array_member_len(text@, key@),
{
    let v: serde_json::Value = serde_json::from_str(text).ok()?;
    v[key].as_array().map(|a| a.len())
}

/// `serde_json::from_str::<Value>(text)`, then the first key of
/// `Value::as_object` and the `Display` text of its value. Claims only that
/// the result is `json_first_member(text@)`.
#[verifier::external_body]
pub(crate) fn json_first_field(text: &str) -> (r: Option<(String, String)>)
    ensures
        match json_first_member(text@) {
            Some((k, v)) => r matches Some(p) && p.0@ == k && p.1@ == v,
            None => r is None,
        },
{
    let v: serde_json::Value = serde_json::from_str(text).ok()?;
    let key = v.as_object()?.keys().next()?.clone();
    let shown = v[&key].to_string();
    Some((key, shown))
}

/// `serde_json::from_str::<Value>(text)`, then `Value::as_str` on
/// `value[key][index][field]`. Claims only that the result is
/// `json_item_str_member(text@, key@, index, field@)`.
#[verifier::external_body]
pub(crate) fn json_item_str_field(text: &str, key: &str, index: usize, field: &str) -> (r: Option<
    String,
>)
    ensures
        opt_view(r) == json_item_str_member(text@, key@, index, field@),
{
    let v: serde_json::Value = serde_json::from_str(text).ok()?;
    v[key][index][field].as_str().map(|s| s.to_string())
}

/// `serde_json::from_str::<Value>(text)`, then `Value::pointer(ptr)` and
/// `Value::as_str`. Claims only that the result is
/// `json_pointer_str(text@, ptr@)`.
#[verifier::external_body]
pub(crate) fn json_at_str(text: &str, ptr: &str) -> (r: Option<String>)
    ensures
        opt_view(r) == json_pointer_str(text@, ptr@),
{
    let v: serde_json::Value = serde_json::from_str(text).ok()?;
    v.pointer(ptr)?.as_str().map(|s| s.to_string())
}

/// `serde_json::from_str::<Value>(text)`, then whether `Value::pointer(ptr)`
/// finds a value (false for text that is not JSON). Claims only that the
/// result is `json_pointer_present(text@, ptr@)`.
#[verifier::external_body]
pub(crate) fn json_at_present(text: &str, ptr: &str) -> (r: bool)
    ensures
        r == json_pointer_present(text@, ptr@),
{
    match serde_json::from_str::<serde_json::Value>(text) {
        Ok(v) => v.pointer(ptr).is_some(),
        Err(_) => false,
    }
}

/// `serde_json::from_str::<Value>(text)`, then `Value::pointer(ptr)`: a
/// string value as it is, another value by its `Display`. Claims only that
/// the result is `json_pointer_text(text@, ptr@)`.
#[verifier::external_body]
pub(crate) fn json_at_text(text: &str, ptr: &str) -> (r: Option<String>)
    ensures
        opt_view(r) == json_pointer_text(text@, ptr@),
{
    let v: serde_json::Value = serde_json::from_str(text).ok()?;
    match v.pointer(ptr)? {
        serde_json::Value::String(s) => Some(s.clone()),
        other => Some(other.to_string()),
    }
}

/// `serde_json::from_str::<Value>(text)`, then the length of
/// `Value::as_array` on `Value::pointer(ptr)`. Claims only that the result
/// is `json_pointer_array_len(text@, ptr@)`.
#[verifier::external_body]
pub(crate) fn json_at_array_len(text: &str, ptr: &str) -> (r: Option<usize>)
    ensures
        r == json_pointer_array_len(text@, ptr@),
{
    let v: serde_json::Value = serde_json::from_str(text).ok()?;
    v.pointer(ptr)?.as_array().map(|a| a.len())
}

} // verus!
