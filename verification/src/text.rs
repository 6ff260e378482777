//! `Debug` texts of values and the messages of row errors.

use vstd::prelude::*;
use crate::types::{Value, SValue, ColumnType, FloatOps};
use crate::schema::RowError;
use crate::encoding::value_debug;
use crate::strutil::{push_str, push_char, push_u64_decimal, i64_to_string, u64_to_string, nat_decimal, int_decimal};

verus! {

broadcast use vstd::string::group_string_axioms;

/// The `Debug` text of a string: quoted, with escapes.
pub uninterp spec fn str_debug(s: Seq<char>) -> Seq<char>;

/// The `Debug` text of a string (`format!("{:?}", s)`).
#[verifier::external_body]
pub(crate) fn debug_str(s: &str) -> (r: String)
    ensures
        r@ == str_debug(s@),
{
    format!("{:?}", s)
}

/// The `Debug` text of a column type: its variant name.
pub open spec fn type_debug(t: ColumnType) -> Seq<char> {
    match t {
        ColumnType::Integer => "Integer"@,
        ColumnType::Float => "Float"@,
        ColumnType::Text => "Text"@,
        ColumnType::Blob => "Blob"@,
        ColumnType::Boolean => "Boolean"@,
        ColumnType::Timestamp => "Timestamp"@,
        ColumnType::Null => "Null"@,
    }
}

/// The `Debug` text of a column type.
pub fn type_debug_str(t: ColumnType) -> (s: &'static str)
    ensures
        s@ == type_debug(t),
{
    match t {
        ColumnType::Integer => "Integer",
        ColumnType::Float => "Float",
        ColumnType::Text => "Text",
        ColumnType::Blob => "Blob",
        ColumnType::Boolean => "Boolean",
        ColumnType::Timestamp => "Timestamp",
        ColumnType::Null => "Null",
    }
}

/// The `Debug` text of a value other than a float.
pub open spec fn value_debug_text(v: SValue) -> Seq<char> {
    match v {
        SValue::Integer(i) => "Integer("@ + int_decimal(i as int) + ")"@,
        SValue::Text(s) => "Text("@ + str_debug(s) + ")"@,
        SValue::Null => "Null"@,
        _ => value_debug(v),
    }
}

/// The `Debug` text of a value; a float's number is written by the host.
pub fn value_debug_string<F: FloatOps>(v: &Value, floats: &F) -> (s: String)
    ensures
        !(v@ is Float) ==> s@ == value_debug_text(v@),
{
    match v {
        Value::Integer(i) => {
            let mut s = String::from_str("Integer(");
            let n = i64_to_string(*i);
            push_str(&mut s, n.as_str());
            push_char(&mut s, ')');
            proof { reveal_strlit(")"); }
            assert(s@ =~= value_debug_text(v@));
            s
        },
        Value::Float(b) => {
            let mut s = String::from_str("Float(");
            let d = floats.debug(*b);
            push_str(&mut s, d.as_str());
            push_char(&mut s, ')');
            s
        },
        Value::Text(t) => {
            let mut s = String::from_str("Text(");
            let d = debug_str(t.as_str());
            push_str(&mut s, d.as_str());
            push_char(&mut s, ')');
            proof { reveal_strlit(")"); }
            assert(s@ =~= value_debug_text(v@));
            s
        },
        Value::Null => String::from_str("Null"),
        Value::Blob(bytes) => {
            let mut s = String::from_str("Blob([");
            let mut i: usize = 0;
            while i < bytes.len()
                invariant
                    i <= bytes@.len(),
                    s@ == "Blob(["@ + crate::encoding::bytes_debug_items(bytes@.take(i as int)),
                decreases bytes.len() - i,
            {
                if i > 0 {
                    push_str(&mut s, ", ");
                }
                push_u64_decimal(&mut s, bytes[i] as u64);
                proof {
                    let t = bytes@.take(i + 1);
                    assert(t.drop_last() =~= bytes@.take(i as int));
                    if i == 0 {
                        assert(bytes@.take(0) =~= Seq::<u8>::empty());
                    }
                }
                i += 1;
                assert(s@ =~= "Blob(["@ + crate::encoding::bytes_debug_items(bytes@.take(i as int)));
            }
            push_str(&mut s, "])");
            proof {
                assert(bytes@.take(i as int) =~= bytes@);
                reveal_strlit("Blob(");
                reveal_strlit("Blob([");
                reveal_strlit("[");
                reveal_strlit("]");
                reveal_strlit(")");
                reveal_strlit("])");
            }
            assert(s@ =~= value_debug_text(v@));
            s
        },
        Value::Boolean(x) => if *x { String::from_str("Boolean(true)") } else { String::from_str("Boolean(false)") },
        Value::Timestamp(t) => {
            let mut s = String::from_str("Timestamp(");
            let n = i64_to_string(*t);
            push_str(&mut s, n.as_str());
            push_char(&mut s, ')');
            proof { reveal_strlit(")"); }
            assert(s@ =~= value_debug_text(v@));
            s
        },
    }
}

/// The message of a row error; for a type mismatch on a float value, the
/// float's text is written by the host.
pub open spec fn row_error_text(e: RowError) -> Seq<char> {
    match e {
        RowError::ColumnCount { expected, actual } =>
            "列数不匹配: 期望 "@ + nat_decimal(expected as nat) + " 列，实际 "@ + nat_decimal(actual as nat) + " 列"@,
        RowError::NullValue { column } => "列 '"@ + column@ + "' 不能为 NULL"@,
        RowError::TypeMismatch { column, expected, actual } =>
            "列 '"@ + column@ + "' 类型不匹配: 期望 "@ + type_debug(expected) + "，实际 "@ + value_debug_text(actual@),
        RowError::MissingValue { column } => "缺少列 '"@ + column@ + "' 的值"@,
    }
}

impl RowError {
    /// The error's message.
    pub fn message<F: FloatOps>(&self, floats: &F) -> (s: String)
        ensures
            !(self matches RowError::TypeMismatch { actual, .. } && actual@ is Float) ==> s@ == row_error_text(*self),
    {
        match self {
            RowError::ColumnCount { expected, actual } => {
                let mut s = String::from_str("列数不匹配: 期望 ");
                push_str(&mut s, u64_to_string(*expected as u64).as_str());
                push_str(&mut s, " 列，实际 ");
                push_str(&mut s, u64_to_string(*actual as u64).as_str());
                push_str(&mut s, " 列");
                s
            },
            RowError::NullValue { column } => {
                let mut s = String::from_str("列 '");
                push_str(&mut s, column.as_str());
                push_str(&mut s, "' 不能为 NULL");
                s
            },
            RowError::TypeMismatch { column, expected, actual } => {
                let mut s = String::from_str("列 '");
                push_str(&mut s, column.as_str());
                push_str(&mut s, "' 类型不匹配: 期望 ");
                push_str(&mut s, type_debug_str(*expected));
                push_str(&mut s, "，实际 ");
                let d = value_debug_string(actual, floats);
                push_str(&mut s, d.as_str());
                s
            },
            RowError::MissingValue { column } => {
                let mut s = String::from_str("缺少列 '");
                push_str(&mut s, column.as_str());
                push_str(&mut s, "' 的值");
                s
            },
        }
    }
}

} // verus!
