//! SQL data types, runtime values, column definitions and rows.
//!
//! Floating-point values are held as their IEEE-754 binary64 bit pattern
//! (`Value::Float(bits)`); the arithmetic that needs a floating-point unit is
//! supplied by the host through [`FloatOps`].

use vstd::prelude::*;

verus! {

/// The SQL column types.
#[derive(Clone, Copy, Debug, PartialEq, Eq, Structural)]
pub enum ColumnType {
    /// Signed 64-bit integer.
    Integer,
    /// 64-bit floating point.
    Float,
    /// UTF-8 text.
    Text,
    /// Binary data.
    Blob,
    /// Boolean.
    Boolean,
    /// Timestamp in microseconds since the Unix epoch.
    Timestamp,
    /// Placeholder for the null type (not used as a column type).
    Null,
}

/// A runtime value.  `Float` holds the bit pattern of an IEEE-754 double.
#[derive(Clone, Debug, PartialEq)]
pub enum Value {
    Integer(i64),
    Float(u64),
    Text(String),
    Blob(Vec<u8>),
    Boolean(bool),
    Timestamp(i64),
    Null,
}

/// The mathematical view of a [`Value`].
pub enum SValue {
    Integer(i64),
    Float(u64),
    Text(Seq<char>),
    Blob(Seq<u8>),
    Boolean(bool),
    Timestamp(i64),
    Null,
}

impl View for Value {
    type V = SValue;

    open spec fn view(&self) -> SValue {
        match self {
            Value::Integer(i) => SValue::Integer(*i),
            Value::Float(b) => SValue::Float(*b),
            Value::Text(s) => SValue::Text(s@),
            Value::Blob(b) => SValue::Blob(b@),
            Value::Boolean(b) => SValue::Boolean(*b),
            Value::Timestamp(t) => SValue::Timestamp(*t),
            Value::Null => SValue::Null,
        }
    }
}

/// The view of a sequence of values.
pub open spec fn values_view(v: Seq<Value>) -> Seq<SValue> {
    v.map_values(|x: Value| x@)
}

/// Host-supplied floating-point operations on IEEE-754 binary64 bit patterns.
///
/// The library's own code performs no floating-point arithmetic; where the
/// database needs a float parsed, printed, added or divided it asks the host.
pub trait FloatOps {
    /// `str::parse::<f64>` on `s`, as bits.
    fn parse(&self, s: &str) -> Option<u64>;

    /// The `Display` text of the float.
    fn display(&self, bits: u64) -> String;

    /// The `Debug` text of the float.
    fn debug(&self, bits: u64) -> String;

    /// The sum `a + b` of two floats.
    fn add(&self, a: u64, b: u64) -> u64;

    /// The quotient `a / b` of two floats.
    fn div(&self, a: u64, b: u64) -> u64;
}

/// A column definition.
#[derive(Clone, Debug, PartialEq)]
pub struct ColumnDef {
    pub name: String,
    pub col_type: ColumnType,
    pub nullable: bool,
    pub is_primary_key: bool,
    pub default: Option<Value>,
    pub auto_increment: bool,
    pub comment: Option<String>,
}

/// A row: an ordered list of values.
#[derive(Clone, Debug, PartialEq)]
pub struct Row {
    pub values: Vec<Value>,
}

impl View for Row {
    type V = Seq<SValue>;

    open spec fn view(&self) -> Seq<SValue> {
        values_view(self.values@)
    }
}

impl Row {
    /// Builds a row from its values.
    pub fn new(values: Vec<Value>) -> (r: Row)
        ensures
            r.values@ == values@,
    {
        Row { values }
    }
}

impl ColumnType {
    /// The default value of a column of this type.
    pub open spec fn spec_default(self) -> SValue {
        match self {
            ColumnType::Integer => SValue::Integer(0),
            ColumnType::Float => SValue::Float(0),
            ColumnType::Text => SValue::Text(Seq::empty()),
            ColumnType::Blob => SValue::Blob(Seq::empty()),
            ColumnType::Boolean => SValue::Boolean(false),
            ColumnType::Timestamp => SValue::Timestamp(0),
            ColumnType::Null => SValue::Null,
        }
    }

    /// The default value of a column of this type.
    pub fn default_value(&self) -> (v: Value)
        ensures
            v@ == self.spec_default(),
    {
        match self {
            ColumnType::Integer => Value::Integer(0),
            ColumnType::Float => Value::Float(0),
            ColumnType::Text => Value::Text(String::new()),
            ColumnType::Blob => Value::Blob(Vec::new()),
            ColumnType::Boolean => Value::Boolean(false),
            ColumnType::Timestamp => Value::Timestamp(0),
            ColumnType::Null => Value::Null,
        }
    }

    /// The SQL keyword of the type (its `Display` text).
    pub fn type_keyword(&self) -> (s: &'static str)
        ensures
            s@ == spec_type_keyword(*self),
    {
        match self {
            ColumnType::Integer => "INTEGER",
            ColumnType::Float => "FLOAT",
            ColumnType::Text => "TEXT",
            ColumnType::Blob => "BLOB",
            ColumnType::Boolean => "BOOLEAN",
            ColumnType::Timestamp => "TIMESTAMP",
            ColumnType::Null => "NULL",
        }
    }
}

/// The SQL keyword of a column type.
pub open spec fn spec_type_keyword(t: ColumnType) -> Seq<char> {
    match t {
        ColumnType::Integer => "INTEGER"@,
        ColumnType::Float => "FLOAT"@,
        ColumnType::Text => "TEXT"@,
        ColumnType::Blob => "BLOB"@,
        ColumnType::Boolean => "BOOLEAN"@,
        ColumnType::Timestamp => "TIMESTAMP"@,
        ColumnType::Null => "NULL"@,
    }
}

/// Whether a value has the variant of a column type (null matches no type).
pub open spec fn spec_type_matches(t: ColumnType, v: SValue) -> bool {
    match (t, v) {
        (ColumnType::Integer, SValue::Integer(_)) => true,
        (ColumnType::Float, SValue::Float(_)) => true,
        (ColumnType::Text, SValue::Text(_)) => true,
        (ColumnType::Blob, SValue::Blob(_)) => true,
        (ColumnType::Boolean, SValue::Boolean(_)) => true,
        (ColumnType::Timestamp, SValue::Timestamp(_)) => true,
        _ => false,
    }
}

/// Checks whether a value matches a column type.
pub fn type_matches(col_type: &ColumnType, val: &Value) -> (r: bool)
    ensures
        r == spec_type_matches(*col_type, val@),
{
    match (col_type, val) {
        (ColumnType::Integer, Value::Integer(_)) => true,
        (ColumnType::Float, Value::Float(_)) => true,
        (ColumnType::Text, Value::Text(_)) => true,
        (ColumnType::Blob, Value::Blob(_)) => true,
        (ColumnType::Boolean, Value::Boolean(_)) => true,
        (ColumnType::Timestamp, Value::Timestamp(_)) => true,
        _ => false,
    }
}

impl Value {
    /// Whether the value is `NULL`.
    pub fn is_null(&self) -> (r: bool)
        ensures
            r == (self@ is Null),
    {
        match self {
            Value::Null => true,
            _ => false,
        }
    }

    /// A copy of the value.
    pub fn copy(&self) -> (r: Value)
        ensures
            r@ == self@,
    {
        match self {
            Value::Integer(i) => Value::Integer(*i),
            Value::Float(b) => Value::Float(*b),
            Value::Text(s) => Value::Text(s.clone()),
            Value::Blob(b) => Value::Blob(b.clone()),
            Value::Boolean(b) => Value::Boolean(*b),
            Value::Timestamp(t) => Value::Timestamp(*t),
            Value::Null => Value::Null,
        }
    }
}

/// A copy of a list of values.
pub fn copy_values(v: &Vec<Value>) -> (r: Vec<Value>)
    ensures
        values_view(r@) == values_view(v@),
        r@.len() == v@.len(),
{
    let mut r: Vec<Value> = Vec::new();
    let mut i: usize = 0;
    while i < v.len()
        invariant
            i <= v@.len(),
            r@.len() == i,
            forall|j: int| 0 <= j < i ==> r@[j]@ == v@[j]@,
        decreases v.len() - i,
    {
        r.push(v[i].copy());
        i += 1;
    }
    assert(values_view(r@) =~= values_view(v@));
    r
}

impl Row {
    /// A copy of the row.
    pub fn copy(&self) -> (r: Row)
        ensures
            r@ == self@,
            r.values@.len() == self.values@.len(),
    {
        Row { values: copy_values(&self.values) }
    }
}

} // verus!
