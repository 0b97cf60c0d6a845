//! Reading fields out of JSON documents with `serde_json`.
//!
//! Each reader parses a document into a `serde_json::Value` and reads one
//! field of it the way the app does (`value[key]`, then `as_u64`, `as_str` or
//! `as_array`). JSON parsing takes pages to state, so what each reader returns
//! is given a name, a function of its arguments alone; the verified code
//! around the readers is stated over those names.

use vstd::prelude::*;

verus! {

/// What `serde_json::from_str::<Value>(text)` and then `value[key].as_u64()`
/// give: the field `key` of the top-level object as a `u64`, or `None` when
/// the text does not parse, is not an object, lacks the key, or holds
/// something other than a non-negative integer there.
pub uninterp spec fn json_u64_at(text: Seq<char>, key: Seq<char>) -> Option<u64>;

/// What `serde_json::from_str::<Value>(text)` and then `value[key].as_str()`
/// give: the string held by the field `key` of the top-level object, or
/// `None` when there is no such string.
pub uninterp spec fn json_str_at(text: Seq<char>, key: Seq<char>) -> Option<Seq<char>>;

/// The same read as `json_str_at`, from raw bytes through
/// `serde_json::from_slice::<Value>`.
pub uninterp spec fn json_bytes_str_at(bytes: Seq<u8>, key: Seq<char>) -> Option<Seq<char>>;

/// What `brew info --cask --json=v2` output gives, read through
/// `serde_json::from_slice::<Value>`: for each element `c` of the array
/// `casks`, `c["token"].as_str()` and `c["name"][0].as_str()` (the first
/// display name). `None` when the bytes do not parse or `casks` is not an
/// array.
pub uninterp spec fn cask_info_of(bytes: Seq<u8>) -> Option<Seq<(Option<Seq<char>>, Option<Seq<char>>)>>;

/// An optional string by its characters.
pub open spec fn opt_text(o: Option<String>) -> Option<Seq<char>> {
    match o {
        Some(s) => Some(s@),
        None => None,
    }
}

/// The casks read from `brew info`, by their characters.
pub open spec fn cask_fields_view(v: Seq<(Option<String>, Option<String>)>) -> Seq<(Option<Seq<char>>, Option<Seq<char>>)> {
    v.map_values(|p: (Option<String>, Option<String>)| (opt_text(p.0), opt_text(p.1)))
}

/// `serde_json::from_str::<serde_json::Value>(text)`, then
/// `value[key].as_u64()`. Claimed: the result is `json_u64_at(text, key)`, a
/// function of the two strings alone. Neither call panics: indexing a value
/// that is not an object, or lacks the key, gives `Null`.
#[verifier::external_body]
pub(crate) fn json_u64_field(text: &str, key: &str) -> (r: Option<u64>)
    ensures
        r == json_u64_at(text@, key@),
{
    serde_json::from_str::<serde_json::Value>(text).ok().and_then(|v| v[key].as_u64())
}

/// `serde_json::from_str::<serde_json::Value>(text)`, then
/// `value[key].as_str()`, copied into a `String`. Claimed: the result is
/// `json_str_at(text, key)`, a function of the two strings alone.
#[verifier::external_body]
pub(crate) fn json_str_field(text: &str, key: &str) -> (r: Option<String>)
    ensures
        opt_text(r) == json_str_at(text@, key@),
{
    serde_json::from_str::<serde_json::Value>(text).ok().and_then(|v| v[key].as_str().map(|s| s.to_string()))
}

/// `serde_json::from_slice::<serde_json::Value>(bytes)`, then
/// `value[key].as_str()`, copied into a `String`. Claimed: the result is
/// `json_bytes_str_at(bytes, key)`, a function of the bytes and the key
/// alone.
#[verifier::external_body]
pub(crate) fn json_bytes_str_field(bytes: &[u8], key: &str) -> (r: Option<String>)
    ensures
        opt_text(r) == json_bytes_str_at(bytes@, key@),
{
    serde_json::from_slice::<serde_json::Value>(bytes).ok().and_then(|v| v[key].as_str().map(|s| s.to_string()))
}

/// `serde_json::from_slice::<serde_json::Value>(bytes)`, then
/// `value["casks"].as_array()`, and of each element `c` the pair
/// `c["token"].as_str()` and `c["name"].as_array()`'s first element
/// `.as_str()`, copied into `String`s. Claimed: the result is
/// `cask_info_of(bytes)`, a function of the bytes alone.
#[verifier::external_body]
pub(crate) fn cask_info_fields(bytes: &[u8]) -> (r: Option<Vec<(Option<String>, Option<String>)>>)
    ensures
        match r {
            Some(v) => cask_info_of(bytes@) == Some(cask_fields_view(v@)),
            None => cask_info_of(bytes@) is None,
        },
{
    let json = serde_json::from_slice::<serde_json::Value>(bytes).ok()?;
    let casks = json["casks"].as_array()?;
    Some(casks.iter().map(|c| (
        c["token"].as_str().map(|s| s.to_string()),
        c["name"].as_array().and_then(|a| a.first()).and_then(|v| v.as_str()).map(|s| s.to_string()),
    )).collect())
}

} // verus!
