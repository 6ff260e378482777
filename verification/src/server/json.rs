//! Values to and from JSON.

use vstd::prelude::*;
use crate::types::{Value, SValue, ColumnType};
use crate::migration::hex_lower;

verus! {

/// A JSON number as the API reads it: as an `i64` when it is one, as an
/// `f64` (bits) when it converts, and its text.
#[derive(Debug, Clone)]
pub struct JsonNumber {
    pub as_i64: Option<i64>,
    pub as_f64: Option<u64>,
    pub text: String,
}

/// The form of a JSON value.
#[derive(Debug, Clone)]
pub enum JsonKind {
    Null,
    Bool(bool),
    Number(JsonNumber),
    String(String),
    /// An array or an object.
    Other,
}

/// A JSON value the API reads: its form and its JSON text.
#[derive(Debug, Clone)]
pub struct JsonValue {
    pub kind: JsonKind,
    pub text: String,
}

/// A JSON value the API writes.
#[derive(Debug, Clone, PartialEq)]
pub enum JsonOut {
    Null,
    Bool(bool),
    Integer(i64),
    /// A finite float, as bits.
    Float(u64),
    String(String),
}

/// The RFC 3339 text of a time given in microseconds since the Unix epoch,
/// when chrono represents it.
pub uninterp spec fn rfc3339_text(micros: i64) -> Option<Seq<char>>;

/// `chrono::DateTime::from_timestamp_micros` followed by `to_rfc3339`.
#[verifier::external_body]
fn timestamp_rfc3339(micros: i64) -> (r: Option<String>)
    ensures
        match r {
            Some(s) => rfc3339_text(micros) == Some(s@),
            None => rfc3339_text(micros) is None,
        },
{
    match chrono::DateTime::from_timestamp_micros(micros) {
        Some(dt) => Some(dt.to_rfc3339()),
        None => None,
    }
}

/// The view of a JSON value written: (kind 0..4, integer, bits, text).
pub open spec fn out_view(j: JsonOut) -> (int, i64, u64, Seq<char>) {
    match j {
        JsonOut::Null => (0, 0, 0, Seq::empty()),
        JsonOut::Bool(b) => (1, if b { 1 } else { 0 }, 0, Seq::empty()),
        JsonOut::Integer(i) => (2, i, 0, Seq::empty()),
        JsonOut::Float(b) => (3, 0, b, Seq::empty()),
        JsonOut::String(s) => (4, 0, 0, s@),
    }
}

/// Whether float bits are finite (neither infinite nor NaN).
pub open spec fn finite(b: u64) -> bool {
    crate::float::exp_field(b) != 2047
}

/// The JSON of a value: numbers as numbers (a non-finite float as 0.0),
/// text as a string, a blob as its hex text, a timestamp as RFC 3339 text
/// (`invalid_timestamp` when out of range), NULL as null.
pub open spec fn json_of(v: SValue) -> (int, i64, u64, Seq<char>) {
    match v {
        SValue::Integer(i) => (2, i, 0, Seq::empty()),
        SValue::Float(b) => (3, 0, if finite(b) { b } else { 0 }, Seq::empty()),
        SValue::Text(s) => (4, 0, 0, s),
        SValue::Blob(b) => (4, 0, 0, hex_lower(b)),
        SValue::Boolean(x) => (1, if x { 1 } else { 0 }, 0, Seq::empty()),
        SValue::Timestamp(t) => (4, 0, 0, match rfc3339_text(t) { Some(s) => s, None => "invalid_timestamp"@ }),
        SValue::Null => (0, 0, 0, Seq::empty()),
    }
}

impl Value {
    /// The JSON of the value.
    pub fn to_json_value(&self) -> (r: JsonOut)
        ensures
            out_view(r) == json_of(self@),
    {
        match self {
            Value::Integer(i) => JsonOut::Integer(*i),
            Value::Float(b) => {
                let e = (*b / 4503599627370496u64) % 2048;
                if e != 2047 { JsonOut::Float(*b) } else { JsonOut::Float(0) }
            },
            Value::Text(s) => JsonOut::String(s.clone()),
            Value::Blob(b) => JsonOut::String(crate::migration::hex_text(b.as_slice())),
            Value::Boolean(x) => JsonOut::Bool(*x),
            Value::Timestamp(t) => match timestamp_rfc3339(*t) {
                Some(s) => JsonOut::String(s),
                None => JsonOut::String(String::from_str("invalid_timestamp")),
            },
            Value::Null => JsonOut::Null,
        }
    }
}

/// The value a JSON value gives for a column type: a number of the column's
/// numeric type (0 when it does not convert), a boolean, a text, RFC 3339 text
/// as a timestamp; null as NULL; any other number as an integer or float;
/// anything else as its JSON text.
pub open spec fn json_value_spec(j: JsonValue, t: ColumnType) -> Option<SValue> {
    match (t, j.kind) {
        (ColumnType::Integer, JsonKind::Number(n)) => Some(SValue::Integer(match n.as_i64 { Some(i) => i, None => 0 })),
        (ColumnType::Float, JsonKind::Number(n)) => Some(SValue::Float(match n.as_f64 { Some(b) => b, None => 0 })),
        (ColumnType::Boolean, JsonKind::Bool(b)) => Some(SValue::Boolean(b)),
        (ColumnType::Text, JsonKind::String(s)) => Some(SValue::Text(s@)),
        (ColumnType::Timestamp, JsonKind::String(s)) => match crate::sql::coerce::rfc3339_micros(s@) {
            Some(m) => Some(SValue::Timestamp(m)),
            None => Some(SValue::Text(s@)),
        },
        (_, JsonKind::Null) => Some(SValue::Null),
        (_, JsonKind::Number(n)) => match n.as_i64 {
            Some(i) => Some(SValue::Integer(i)),
            None => match n.as_f64 {
                Some(b) => Some(SValue::Float(b)),
                None => Some(SValue::Text(n.text@)),
            },
        },
        (_, _) => Some(SValue::Text(j.text@)),
    }
}

/// The value a JSON value gives for a column type.
pub fn json_to_value(val: &JsonValue, col_type: ColumnType) -> (r: Value)
    ensures
        json_value_spec(*val, col_type) == Some(r@),
{
    match (col_type, &val.kind) {
        (ColumnType::Integer, JsonKind::Number(n)) => Value::Integer(match n.as_i64 { Some(i) => i, None => 0 }),
        (ColumnType::Float, JsonKind::Number(n)) => Value::Float(match n.as_f64 { Some(b) => b, None => 0 }),
        (ColumnType::Boolean, JsonKind::Bool(b)) => Value::Boolean(*b),
        (ColumnType::Text, JsonKind::String(s)) => Value::Text(s.clone()),
        (ColumnType::Timestamp, JsonKind::String(s)) => match crate::sql::coerce::rfc3339_to_micros(s.as_str()) {
            Some(m) => Value::Timestamp(m),
            None => Value::Text(s.clone()),
        },
        (_, JsonKind::Null) => Value::Null,
        (_, JsonKind::Number(n)) => match n.as_i64 {
            Some(i) => Value::Integer(i),
            None => match n.as_f64 {
                Some(b) => Value::Float(b),
                None => Value::Text(n.text.clone()),
            },
        },
        (_, _) => Value::Text(val.text.clone()),
    }
}

/// A JSON number that converts to a float is imported into a FLOAT column
/// as exactly that float (its `f64` bits), whatever its integer reading.
pub proof fn law_json_number_into_float_column(j: JsonValue, b: u64)
    requires
        j.kind matches JsonKind::Number(n) && n.as_f64 == Some(b),
    ensures
        json_value_spec(j, ColumnType::Float) == Some(SValue::Float(b)),
{
}

/// A JSON number that is an integer is imported into an INTEGER column as
/// that integer.
pub proof fn law_json_number_into_integer_column(j: JsonValue, i: i64)
    requires
        j.kind matches JsonKind::Number(n) && n.as_i64 == Some(i),
    ensures
        json_value_spec(j, ColumnType::Integer) == Some(SValue::Integer(i)),
{
}

} // verus!
