//! A model of JSON values and the trusted interface to `serde_json`.

use vstd::prelude::*;

verus! {

#[verifier::external_type_specification]
#[verifier::external_body]
pub struct ExJsonValue(serde_json::Value);

/// The mathematical content of a JSON value, as far as this library reads it.
/// A number is represented by what `as_u64` gives for it.
pub enum JsonModel {
    Null,
    Bool(bool),
    Number(Option<u64>),
    Str(Seq<char>),
    Array(Seq<JsonModel>),
    Object(Map<Seq<char>, JsonModel>),
}

/// The content of a `serde_json::Value`.
pub uninterp spec fn json_model(v: serde_json::Value) -> JsonModel;

/// What `serde_json::from_str` gives for a text: `None` when it rejects it.
pub uninterp spec fn json_parse(text: Seq<char>) -> Option<JsonModel>;

/// Member lookup: the value stored under `key` when `v` is an object.
pub open spec fn model_get(v: JsonModel, key: Seq<char>) -> Option<JsonModel> {
    match v {
        JsonModel::Object(m) => if m.dom().contains(key) { Some(m[key]) } else { None },
        _ => None,
    }
}

pub open spec fn model_str(v: JsonModel) -> Option<Seq<char>> {
    match v {
        JsonModel::Str(s) => Some(s),
        _ => None,
    }
}

pub open spec fn model_array(v: JsonModel) -> Option<Seq<JsonModel>> {
    match v {
        JsonModel::Array(a) => Some(a),
        _ => None,
    }
}

pub open spec fn model_bool(v: JsonModel) -> Option<bool> {
    match v {
        JsonModel::Bool(b) => Some(b),
        _ => None,
    }
}

pub open spec fn model_u64(v: JsonModel) -> Option<u64> {
    match v {
        JsonModel::Number(n) => n,
        _ => None,
    }
}

/// Member lookup that goes on from a missing value: `None` stays `None`.
pub open spec fn model_get_opt(v: Option<JsonModel>, key: Seq<char>) -> Option<JsonModel> {
    match v {
        Some(x) => model_get(x, key),
        None => None,
    }
}

/// The string at the end of a lookup, if any.
pub open spec fn model_str_opt(v: Option<JsonModel>) -> Option<Seq<char>> {
    match v {
        Some(x) => model_str(x),
        None => None,
    }
}

/// The contents of a sequence of values.
pub open spec fn models_of(v: Seq<serde_json::Value>) -> Seq<JsonModel> {
    v.map_values(|x: serde_json::Value| json_model(x))
}

/// `Value::get` with a string key: the member of an object, `None` for
/// anything else or a missing key.
#[verifier::external_body]
pub(crate) fn json_get<'a>(v: &'a serde_json::Value, key: &str) -> (res: Option<&'a serde_json::Value>)
    ensures
        res is Some <==> model_get(json_model(*v), key@) is Some,
        res matches Some(r) ==> model_get(json_model(*v), key@) == Some(json_model(*r)),
{
    v.get(key)
}

/// `Value::as_str`: the text of a string value.
#[verifier::external_body]
pub(crate) fn json_as_str(v: &serde_json::Value) -> (res: Option<&str>)
    ensures
        res is Some <==> model_str(json_model(*v)) is Some,
        res matches Some(s) ==> model_str(json_model(*v)) == Some(s@),
{
    v.as_str()
}

/// `serde_json::from_str` into a `Value`: `None` where it returns an error.
#[verifier::external_body]
pub(crate) fn json_from_str(text: &str) -> (res: Option<serde_json::Value>)
    ensures
        res is Some <==> json_parse(text@) is Some,
        res matches Some(v) ==> json_parse(text@) == Some(json_model(v)),
{
    serde_json::from_str::<serde_json::Value>(text).ok()
}

/// `Value::as_array`: the elements of an array value.
#[verifier::external_body]
pub(crate) fn json_as_array(v: &serde_json::Value) -> (res: Option<&Vec<serde_json::Value>>)
    ensures
        res is Some <==> model_array(json_model(*v)) is Some,
        res matches Some(a) ==> model_array(json_model(*v)) == Some(models_of(a@)),
{
    v.as_array()
}

/// `Value::as_bool`: the value of a boolean.
#[verifier::external_body]
pub(crate) fn json_as_bool(v: &serde_json::Value) -> (res: Option<bool>)
    ensures
        res == model_bool(json_model(*v)),
{
    v.as_bool()
}

/// `Value::as_u64`: a number that is a non-negative integer within `u64`.
#[verifier::external_body]
pub(crate) fn json_as_u64(v: &serde_json::Value) -> (res: Option<u64>)
    ensures
        res == model_u64(json_model(*v)),
{
    v.as_u64()
}

/// `Value::clone`: a value with the same content.
#[verifier::external_body]
pub(crate) fn json_clone(v: &serde_json::Value) -> (res: serde_json::Value)
    ensures
        json_model(res) == json_model(*v),
{
    v.clone()
}

/// The string stored under `key` in an object.
pub fn get_str<'a>(v: &'a serde_json::Value, key: &str) -> (res: Option<&'a str>)
    ensures
        match res {
            Some(s) => model_str_opt(model_get(json_model(*v), key@)) == Some(s@),
            None => model_str_opt(model_get(json_model(*v), key@)) is None,
        },
{
    match json_get(v, key) {
        Some(x) => json_as_str(x),
        None => None,
    }
}

/// The array stored under `key` in an object.
pub fn get_array<'a>(v: &'a serde_json::Value, key: &str) -> (res: Option<&'a Vec<serde_json::Value>>)
    ensures
        match res {
            Some(a) => model_array_opt(model_get(json_model(*v), key@)) == Some(models_of(a@)),
            None => model_array_opt(model_get(json_model(*v), key@)) is None,
        },
{
    match json_get(v, key) {
        Some(x) => json_as_array(x),
        None => None,
    }
}

/// The array at the end of a lookup, if any.
pub open spec fn model_array_opt(v: Option<JsonModel>) -> Option<Seq<JsonModel>> {
    match v {
        Some(x) => model_array(x),
        None => None,
    }
}

/// The boolean at the end of a lookup, if any.
pub open spec fn model_bool_opt(v: Option<JsonModel>) -> Option<bool> {
    match v {
        Some(x) => model_bool(x),
        None => None,
    }
}

/// The number at the end of a lookup, as `as_u64` reads it, if any.
pub open spec fn model_u64_opt(v: Option<JsonModel>) -> Option<u64> {
    match v {
        Some(x) => model_u64(x),
        None => None,
    }
}

/// The boolean stored under `key` in an object.
pub fn get_bool(v: &serde_json::Value, key: &str) -> (res: Option<bool>)
    ensures
        res == model_bool_opt(model_get(json_model(*v), key@)),
{
    match json_get(v, key) {
        Some(x) => json_as_bool(x),
        None => None,
    }
}

/// The string under `outer`, then `inner`.
pub fn get_str2<'a>(v: &'a serde_json::Value, outer: &str, inner: &str) -> (res: Option<&'a str>)
    ensures
        match res {
            Some(s) => model_str_opt(model_get_opt(model_get(json_model(*v), outer@), inner@)) == Some(s@),
            None => model_str_opt(model_get_opt(model_get(json_model(*v), outer@), inner@)) is None,
        },
{
    match json_get(v, outer) {
        Some(x) => get_str(x, inner),
        None => None,
    }
}

} // verus!
