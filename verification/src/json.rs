//! Records of the upstream service, which arrive as JSON objects.
//!
//! A record is kept as the `serde_json` object that was received. The library
//! reads single fields of it and never looks inside otherwise, so a record is
//! modelled by three maps from field names to plain values: the fields that
//! hold an unsigned integer, those that hold a boolean and those that hold a
//! string. A field whose value is of another kind is in none of them.

use serde_json::{Map as JsonMap, Value as JsonValue};
use vstd::prelude::*;

verus! {

/// `serde_json::Map`, the object type of `serde_json`. Opaque here.
#[verifier::external_type_specification]
#[verifier::external_body]
#[verifier::reject_recursive_types(K)]
#[verifier::reject_recursive_types(V)]
pub struct ExJsonMap<K, V>(JsonMap<K, V>);

/// `serde_json::Value`, any JSON value. Opaque here.
#[verifier::external_type_specification]
#[verifier::external_body]
pub struct ExJsonValue(JsonValue);

/// A record of the upstream service.
pub type Record = JsonMap<String, JsonValue>;

/// The fields of a record whose value is a number that `u64` represents,
/// each with that number.
pub uninterp spec fn unsigned_fields(record: Record) -> Map<Seq<char>, u64>;

/// The fields of a record whose value is a boolean, each with that boolean.
pub uninterp spec fn boolean_fields(record: Record) -> Map<Seq<char>, bool>;

/// The fields of a record whose value is a string, each with the characters
/// of that string.
pub uninterp spec fn text_fields(record: Record) -> Map<Seq<char>, Seq<char>>;

/// The unsigned integer in field `key` of a record, if the field is there and
/// holds one.
pub open spec fn unsigned_field(record: Record, key: Seq<char>) -> Option<u64> {
    if unsigned_fields(record).contains_key(key) {
        Some(unsigned_fields(record)[key])
    } else {
        None
    }
}

/// The boolean in field `key` of a record, if the field is there and holds
/// one.
pub open spec fn boolean_field(record: Record, key: Seq<char>) -> Option<bool> {
    if boolean_fields(record).contains_key(key) {
        Some(boolean_fields(record)[key])
    } else {
        None
    }
}

/// The string in field `key` of a record, if the field is there and holds
/// one.
pub open spec fn text_field(record: Record, key: Seq<char>) -> Option<Seq<char>> {
    if text_fields(record).contains_key(key) {
        Some(text_fields(record)[key])
    } else {
        None
    }
}

/// Calls `serde_json::Map::get` and, on the value found, `Value::as_u64`.
/// Trusted: the result is the number in field `key` where the record has that
/// field and its value is a number that `u64` represents, `None` otherwise.
#[verifier::external_body]
pub(crate) fn get_u64(record: &Record, key: &str) -> (value: Option<u64>)
    ensures
        value == (if unsigned_fields(*record).contains_key(key@) {
            Some(unsigned_fields(*record)[key@])
        } else {
            None
        }),
{
    record.get(key).and_then(JsonValue::as_u64)
}

/// Calls `serde_json::Map::get` and, on the value found, `Value::as_bool`.
/// Trusted: the result is the boolean in field `key` where the record has
/// that field and its value is a boolean, `None` otherwise.
#[verifier::external_body]
pub(crate) fn get_bool(record: &Record, key: &str) -> (value: Option<bool>)
    ensures
        value == (if boolean_fields(*record).contains_key(key@) {
            Some(boolean_fields(*record)[key@])
        } else {
            None
        }),
{
    record.get(key).and_then(JsonValue::as_bool)
}

/// Calls `serde_json::Map::get` and, on the value found, `Value::as_str`.
/// Trusted: the result is the string in field `key` where the record has that
/// field and its value is a string, `None` otherwise.
#[verifier::external_body]
pub(crate) fn get_str<'a>(record: &'a Record, key: &str) -> (value: Option<&'a str>)
    ensures
        match value {
            Some(text) => text_fields(*record).contains_key(key@) && text_fields(*record)[key@]
                == text@,
            None => !text_fields(*record).contains_key(key@),
        },
{
    record.get(key).and_then(JsonValue::as_str)
}

} // verus!
