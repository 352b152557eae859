//! A thin, trusted reading layer over `serde_json`, together with a
//! mathematical model of parsed JSON documents.
//!
//! The pipeline consumes and produces JSON text. The text-to-tree step is
//! `serde_json`'s work and is taken on trust; everything that walks the tree
//! and interprets its shape is verified against the model below.

use vstd::prelude::*;

verus! {

/// Mathematical model of a JSON document tree.
///
/// `Num` carries `Some(n)` when the number is stored as an exact integer
/// (serde_json keeps integers in `u64`/`i64` variants), and `None` when it is
/// stored as a float.
pub enum JsonModel {
    Null,
    Bool(bool),
    Num(Option<int>),
    Str(Seq<char>),
    Arr(Seq<JsonModel>),
    Obj(Map<Seq<char>, JsonModel>),
}

#[verifier::external_type_specification]
#[verifier::external_body]
pub struct ExValue(serde_json::Value);

/// The model of a parsed `serde_json::Value` tree.
pub uninterp spec fn jv_model(v: serde_json::Value) -> JsonModel;

/// The result of parsing a character sequence as a complete JSON document:
/// `Some` with the document's model when the text is valid JSON, `None`
/// otherwise. A function of the text alone.
pub uninterp spec fn json_of(s: Seq<char>) -> Option<JsonModel>;

/// Relies on serde_json::from_str::<Value>: parses the whole input as one
/// JSON document, returning the document tree on success and an error on
/// malformed input.
#[verifier::external_body]
pub fn jv_parse(s: &str) -> (r: Result<serde_json::Value, String>)
    ensures
        match r {
            Ok(v) => json_of(s@) == Some(jv_model(v)),
            Err(_) => json_of(s@) is None,
        },
{
    match serde_json::from_str::<serde_json::Value>(s) {
        Ok(v) => Ok(v),
        Err(e) => Err(format!("{}", e)),
    }
}

/// Relies on serde_json::Value::get with a string index: returns the entry
/// under the key when the value is an object containing it, and `None` when
/// the key is absent or the value is not an object.
#[verifier::external_body]
pub fn jv_get<'a>(v: &'a serde_json::Value, key: &str) -> (r: Option<&'a serde_json::Value>)
    ensures
        match r {
            Some(w) => {
                &&& jv_model(*v) matches JsonModel::Obj(o)
                &&& o.contains_key(key@)
                &&& jv_model(*w) == o[key@]
            },
            None => forall|o: Map<Seq<char>, JsonModel>|
                jv_model(*v) == JsonModel::Obj(o) ==> !o.contains_key(key@),
        },
{
    v.get(key)
}

/// Relies on serde_json::Value::as_str: returns the string slice exactly
/// when the value is a JSON string.
#[verifier::external_body]
pub fn jv_as_str<'a>(v: &'a serde_json::Value) -> (r: Option<&'a str>)
    ensures
        match r {
            Some(s) => jv_model(*v) == JsonModel::Str(s@),
            None => !(jv_model(*v) is Str),
        },
{
    v.as_str()
}

/// Relies on serde_json::Value::as_array: returns the element vector exactly
/// when the value is a JSON array.
#[verifier::external_body]
pub fn jv_as_array<'a>(v: &'a serde_json::Value) -> (r: Option<&'a Vec<serde_json::Value>>)
    ensures
        match r {
            Some(a) => jv_model(*v) == JsonModel::Arr(
                a@.map_values(|x: serde_json::Value| jv_model(x)),
            ),
            None => !(jv_model(*v) is Arr),
        },
{
    v.as_array()
}

/// What `as_u64` yields on a value with the given model.
pub open spec fn model_u64(m: JsonModel) -> Option<u64> {
    match m {
        JsonModel::Num(on) => match on {
            Some(n) => if 0 <= n <= u64::MAX {
                Some(n as u64)
            } else {
                None
            },
            None => None,
        },
        _ => None,
    }
}

/// What `as_i64` yields on a value with the given model.
pub open spec fn model_i64(m: JsonModel) -> Option<i64> {
    match m {
        JsonModel::Num(on) => match on {
            Some(n) => if i64::MIN <= n <= i64::MAX {
                Some(n as i64)
            } else {
                None
            },
            None => None,
        },
        _ => None,
    }
}

/// Relies on serde_json::Value::as_u64: returns the number exactly when the
/// value is stored as a non-negative integer.
#[verifier::external_body]
pub fn jv_as_u64(v: &serde_json::Value) -> (r: Option<u64>)
    ensures
        r == model_u64(jv_model(*v)),
{
    v.as_u64()
}

/// Relies on serde_json::Value::as_i64: returns the number exactly when the
/// value is stored as an integer in `i64` range.
#[verifier::external_body]
pub fn jv_as_i64(v: &serde_json::Value) -> (r: Option<i64>)
    ensures
        r == model_i64(jv_model(*v)),
{
    v.as_i64()
}

} // verus!
