//! Trusted wrappers around serde_json. The wire format is one JSON
//! object per line; each accessor here reads one field straight from
//! the line's cleaned text, so its result is a function of the
//! characters alone and carries a name the decoder's contract can
//! speak of. The repeated parse is cheap at log-line sizes, and keeps
//! every trusted body to a single call chain.

use vstd::prelude::*;

verus! {

/// Whether the text parses as JSON and is an object.
pub uninterp spec fn is_object_text(s: Seq<char>) -> bool;

/// The string held under `key` in the object text, if the text is an
/// object and the field is a string.
pub uninterp spec fn str_field_of(s: Seq<char>, key: Seq<char>) -> Option<Seq<char>>;

/// The unsigned number held under `key`, if it is one.
pub uninterp spec fn u64_field_of(s: Seq<char>, key: Seq<char>) -> Option<u64>;

/// The signed number held under `key`, if it is one.
pub uninterp spec fn i64_field_of(s: Seq<char>, key: Seq<char>) -> Option<i64>;

/// The length of the event's payload field list, if it is an array.
pub uninterp spec fn fields_len_of(s: Seq<char>) -> Option<usize>;

/// The `i`-th payload field as a string, if it is one.
pub uninterp spec fn field_str_of(s: Seq<char>, i: usize) -> Option<Seq<char>>;

/// The `i`-th payload field as an unsigned number, if it is one.
pub uninterp spec fn field_u64_of(s: Seq<char>, i: usize) -> Option<u64>;

/// How many embedded compiler diagnostics the event carries, if the
/// list is there.
pub uninterp spec fn rendered_len_of(s: Seq<char>) -> Option<usize>;

/// The rendered text of the `i`-th embedded compiler diagnostic, if it
/// has one.
pub uninterp spec fn rendered_item_of(s: Seq<char>, i: usize) -> Option<Seq<char>>;

/// Relies on serde_json::from_str and Value::is_object.
#[verifier::external_body]
pub(crate) fn text_is_object(s: &str) -> (r: bool)
    ensures
        r == is_object_text(s@),
{
    serde_json::from_str::<serde_json::Value>(s).map(|v| v.is_object()).unwrap_or(false)
}

/// Relies on serde_json::from_str, Value::get and Value::as_str.
#[verifier::external_body]
pub(crate) fn text_get_str(s: &str, key: &str) -> (r: Option<String>)
    ensures
        match r {
            Some(t) => str_field_of(s@, key@) == Some(t@),
            None => str_field_of(s@, key@) is None,
        },
{
    serde_json::from_str::<serde_json::Value>(s).ok()?.get(key)?.as_str().map(|x| x.to_string())
}

/// Relies on serde_json::from_str, Value::get and Value::as_u64.
#[verifier::external_body]
pub(crate) fn text_get_u64(s: &str, key: &str) -> (r: Option<u64>)
    ensures
        r == u64_field_of(s@, key@),
{
    serde_json::from_str::<serde_json::Value>(s).ok()?.get(key)?.as_u64()
}

/// Relies on serde_json::from_str, Value::get and Value::as_i64.
#[verifier::external_body]
pub(crate) fn text_get_i64(s: &str, key: &str) -> (r: Option<i64>)
    ensures
        r == i64_field_of(s@, key@),
{
    serde_json::from_str::<serde_json::Value>(s).ok()?.get(key)?.as_i64()
}

/// Relies on serde_json::from_str, Value::get and Value::as_array.
#[verifier::external_body]
pub(crate) fn text_fields_len(s: &str) -> (r: Option<usize>)
    ensures
        r == fields_len_of(s@),
{
    serde_json::from_str::<serde_json::Value>(s).ok()?.get("fields")?.as_array().map(|a| a.len())
}

/// Relies on serde_json::from_str, Value::get, Value::as_array and
/// Value::as_str.
#[verifier::external_body]
pub(crate) fn text_field_str(s: &str, i: usize) -> (r: Option<String>)
    ensures
        match r {
            Some(t) => field_str_of(s@, i) == Some(t@),
            None => field_str_of(s@, i) is None,
        },
{
    serde_json::from_str::<serde_json::Value>(s).ok()?.get("fields")?.as_array()?.get(
        i,
    )?.as_str().map(|x| x.to_string())
}

/// Relies on serde_json::from_str, Value::get, Value::as_array and
/// Value::as_u64.
#[verifier::external_body]
pub(crate) fn text_field_u64(s: &str, i: usize) -> (r: Option<u64>)
    ensures
        r == field_u64_of(s@, i),
{
    serde_json::from_str::<serde_json::Value>(s).ok()?.get("fields")?.as_array()?.get(
        i,
    )?.as_u64()
}

/// Relies on serde_json::from_str, Value::get and Value::as_array.
#[verifier::external_body]
pub(crate) fn text_msgs_len(s: &str) -> (r: Option<usize>)
    ensures
        r == rendered_len_of(s@),
{
    serde_json::from_str::<serde_json::Value>(s).ok()?.get("rustc_messages")?.as_array().map(
        |a| a.len(),
    )
}

/// Relies on serde_json::from_str, Value::get, Value::as_array and
/// Value::as_str.
#[verifier::external_body]
pub(crate) fn text_msg_rendered(s: &str, i: usize) -> (r: Option<String>)
    ensures
        match r {
            Some(t) => rendered_item_of(s@, i) == Some(t@),
            None => rendered_item_of(s@, i) is None,
        },
{
    serde_json::from_str::<serde_json::Value>(s).ok()?.get("rustc_messages")?.as_array()?.get(
        i,
    )?.get("rendered")?.as_str().map(|x| x.to_string())
}

} // verus!
