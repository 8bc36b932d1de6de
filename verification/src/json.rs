//! The few things read from JSON documents, through serde_json. Each
//! function parses a document and reads one field; what serde_json returns is
//! named, not restated.
use vstd::prelude::*;
use crate::text::opt_chars;

verus! {

/// Name for what serde_json makes of `doc[outer][inner].as_u64()`: `Err`
/// with serde_json's message when `doc` is not valid JSON, else the number
/// at that place when it is an unsigned integer that fits in 64 bits, else
/// `None`.
pub uninterp spec fn json_u64_at(doc: Seq<u8>, outer: Seq<char>, inner: Seq<char>) -> Result<
    Option<u64>,
    Seq<char>,
>;

/// Parses `doc` with `serde_json::from_slice::<serde_json::Value>` and reads
/// `value[outer][inner].as_u64()`; a parse error becomes its `to_string()`.
/// The contract names the result and claims nothing of JSON syntax.
#[verifier::external_body]
pub(crate) fn json_u64_lookup(doc: &[u8], outer: &str, inner: &str) -> (r: Result<Option<u64>, String>)
    ensures
        match r {
            Ok(v) => json_u64_at(doc@, outer@, inner@) == Ok::<Option<u64>, Seq<char>>(v),
            Err(m) => json_u64_at(doc@, outer@, inner@) == Err::<Option<u64>, Seq<char>>(m@),
        },
{
    match serde_json::from_slice::<serde_json::Value>(doc) {
        Ok(v) => Ok(v[outer][inner].as_u64()),
        Err(e) => Err(e.to_string()),
    }
}

/// Name for what serde_json makes of `doc.get(key).and_then(as_str)` after
/// `serde_json::from_str::<Value>(doc)`: the string at `key` of the JSON
/// object `doc`, or `None` when `doc` is not JSON, not an object, lacks
/// `key` or has something else than a string there.
pub uninterp spec fn json_str_at(doc: Seq<char>, key: Seq<char>) -> Option<Seq<char>>;

/// Parses `doc` with `serde_json::from_str::<serde_json::Value>` and reads
/// the string at `key`. The contract names the result and claims nothing of
/// JSON syntax.
#[verifier::external_body]
pub(crate) fn json_str_field(doc: &str, key: &str) -> (r: Option<String>)
    ensures
        opt_chars(r) == json_str_at(doc@, key@),
{
    let v = serde_json::from_str::<serde_json::Value>(doc).ok()?;
    Some(v.get(key)?.as_str()?.to_string())
}

/// Name for whether serde_json accepts `doc` as a JSON document
/// (`serde_json::from_str::<Value>(doc)` is `Ok`).
pub uninterp spec fn json_valid(doc: Seq<char>) -> bool;

/// Whether `doc` parses as JSON with `serde_json::from_str::<serde_json::Value>`.
/// The contract names the result and claims nothing of JSON syntax.
#[verifier::external_body]
pub(crate) fn json_parses(doc: &str) -> (r: bool)
    ensures
        r == json_valid(doc@),
{
    serde_json::from_str::<serde_json::Value>(doc).is_ok()
}

/// Name for what serde_json makes of `doc.get(key).and_then(as_u64)` after
/// `serde_json::from_str::<Value>(doc)`: the unsigned number at `key` of
/// the JSON object `doc`, or `None` when `doc` is not JSON, not an object,
/// lacks `key` or has something else there.
pub uninterp spec fn json_u64_field_at(doc: Seq<char>, key: Seq<char>) -> Option<u64>;

/// Parses `doc` with `serde_json::from_str::<serde_json::Value>` and reads
/// the unsigned number at `key`. The contract names the result and claims
/// nothing of JSON syntax.
#[verifier::external_body]
pub(crate) fn json_u64_field(doc: &str, key: &str) -> (r: Option<u64>)
    ensures
        r == json_u64_field_at(doc@, key@),
{
    let v = serde_json::from_str::<serde_json::Value>(doc).ok()?;
    v.get(key)?.as_u64()
}

/// Name for the text serde_json writes for the JSON object with the string
/// fields `k1: v1`, `k2: v2`, `k3: v3` and the number fields `k4: n4`,
/// `k5: n5` (`Value::Object` of a `serde_json::Map`, then `to_string()`).
pub uninterp spec fn json_object_text(
    k1: Seq<char>,
    v1: Seq<char>,
    k2: Seq<char>,
    v2: Seq<char>,
    k3: Seq<char>,
    v3: Seq<char>,
    k4: Seq<char>,
    n4: u32,
    k5: Seq<char>,
    n5: u32,
) -> Seq<char>;

/// Writes a JSON object of three string fields and two number fields with
/// serde_json (a `Map` of `Value`s, then `Value::to_string`). The text is
/// named; the contract also states that serde_json reads it back: it
/// parses, and each key holds the string or number written under it (the
/// keys being distinct, none overwrites another).
#[verifier::external_body]
pub(crate) fn json_object(
    k1: &str,
    v1: &str,
    k2: &str,
    v2: &str,
    k3: &str,
    v3: &str,
    k4: &str,
    n4: u32,
    k5: &str,
    n5: u32,
) -> (r: String)
    requires
        k1@ != k2@ && k1@ != k3@ && k1@ != k4@ && k1@ != k5@,
        k2@ != k3@ && k2@ != k4@ && k2@ != k5@,
        k3@ != k4@ && k3@ != k5@ && k4@ != k5@,
    ensures
        r@ == json_object_text(k1@, v1@, k2@, v2@, k3@, v3@, k4@, n4, k5@, n5),
        json_valid(r@),
        json_str_at(r@, k1@) == Some(v1@),
        json_str_at(r@, k2@) == Some(v2@),
        json_str_at(r@, k3@) == Some(v3@),
        json_u64_field_at(r@, k4@) == Some(n4 as u64),
        json_u64_field_at(r@, k5@) == Some(n5 as u64),
{
    let mut m = serde_json::Map::new();
    m.insert(k1.to_string(), serde_json::Value::from(v1));
    m.insert(k2.to_string(), serde_json::Value::from(v2));
    m.insert(k3.to_string(), serde_json::Value::from(v3));
    m.insert(k4.to_string(), serde_json::Value::from(n4));
    m.insert(k5.to_string(), serde_json::Value::from(n5));
    serde_json::Value::Object(m).to_string()
}

} // verus!
