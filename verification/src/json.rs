//! What is read of JSON values.
use vstd::prelude::*;

use crate::text::text_of;

verus! {

/// A JSON value, as `serde_json` holds it.
#[verifier::external_type_specification]
#[verifier::external_body]
pub struct ExValue(serde_json::Value);

/// The values of the JSON array that a text is, where it is one.
pub uninterp spec fn json_array(text: Seq<char>) -> Option<Seq<serde_json::Value>>;

/// The value that a JSON pointer leads to.
pub uninterp spec fn json_pointer(value: serde_json::Value, pointer: Seq<char>) -> Option<
    serde_json::Value,
>;

/// The text that a JSON value is, where it is a string.
pub uninterp spec fn json_text(value: serde_json::Value) -> Option<Seq<char>>;

/// The number that a JSON value is, where it is a nonnegative integer of 64 bits.
pub uninterp spec fn json_number(value: serde_json::Value) -> Option<u64>;

/// `serde_json::from_str`, for an array of values: what it gives is a function of the text
/// alone. What the grammar of JSON makes of a given text is not stated.
#[verifier::external_body]
pub(crate) fn parse_array(text: &str) -> (r: Option<Vec<serde_json::Value>>)
    ensures
        r is Some <==> json_array(text@) is Some,
        r matches Some(values) ==> json_array(text@) == Some(values@),
{
    serde_json::from_str(text).ok()
}

/// `serde_json::Value::pointer`: the value found depends on the value and the pointer alone.
/// How a pointer is read is not stated.
pub assume_specification<'a>[ serde_json::Value::pointer ](
    value: &'a serde_json::Value,
    pointer: &str,
) -> (r: Option<&'a serde_json::Value>)
    ensures
        r is Some <==> json_pointer(*value, pointer@) is Some,
        r matches Some(found) ==> json_pointer(*value, pointer@) == Some(*found),
;

/// `serde_json::Value::as_str`: the text of a string, and nothing for any other value.
pub assume_specification<'a>[ serde_json::Value::as_str ](value: &'a serde_json::Value) -> (r:
    Option<&'a str>)
    ensures
        r is Some <==> json_text(*value) is Some,
        r matches Some(text) ==> json_text(*value) == Some(text@),
;

/// `serde_json::Value::as_u64`: the number, where the value is an integer that fits.
pub assume_specification[ serde_json::Value::as_u64 ](value: &serde_json::Value) -> (r: Option<u64>)
    ensures
        r == json_number(*value),
;

/// The values that a JSON value holds, where it is an array.
pub uninterp spec fn json_items(value: serde_json::Value) -> Option<Seq<serde_json::Value>>;

/// Whether two JSON values count as equal.
pub uninterp spec fn json_equal(a: serde_json::Value, b: serde_json::Value) -> bool;

/// `serde_json::Value::as_array`: the values of an array, and nothing for any other value.
pub assume_specification<'a>[ serde_json::Value::as_array ](value: &'a serde_json::Value) -> (r:
    Option<&'a Vec<serde_json::Value>>)
    ensures
        r is Some <==> json_items(*value) is Some,
        r matches Some(items) ==> json_items(*value) == Some(items@),
;

/// `==` of `serde_json::Value`: a function of the two values. Which values count as equal is
/// not stated.
#[verifier::external_body]
pub(crate) fn same_value(a: &serde_json::Value, b: &serde_json::Value) -> (r: bool)
    ensures
        r == json_equal(*a, *b),
{
    a == b
}

/// The number that a pointer into a value leads to.
pub open spec fn number_at(value: serde_json::Value, pointer: Seq<char>) -> Option<u64> {
    match json_pointer(value, pointer) {
        Some(found) => json_number(found),
        None => None,
    }
}

/// The number that a pointer into a value leads to.
pub fn read_number(value: &serde_json::Value, pointer: &str) -> (r: Option<u64>)
    ensures
        r == number_at(*value, pointer@),
{
    match value.pointer(pointer) {
        Some(found) => found.as_u64(),
        None => None,
    }
}

/// The text that a pointer into a value leads to.
pub open spec fn text_at(value: serde_json::Value, pointer: Seq<char>) -> Option<Seq<char>> {
    match json_pointer(value, pointer) {
        Some(found) => json_text(found),
        None => None,
    }
}

/// The text that a pointer into a value leads to.
pub fn read_text(value: &serde_json::Value, pointer: &str) -> (r: Option<String>)
    ensures
        text_of(r) == text_at(*value, pointer@),
{
    match value.pointer(pointer) {
        Some(found) => match found.as_str() {
            Some(text) => Some(text.to_owned()),
            None => None,
        },
        None => None,
    }
}

} // verus!
