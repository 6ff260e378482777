//! Evaluation of WHERE and HAVING conditions on a row.

use vstd::prelude::*;
use std::cmp::Ordering;
use crate::types::{Value, SValue, Row};
use crate::schema::{TableSchema, SColumn, col_pos};
use crate::strutil::{chars_of, is_prefix, starts_with_chars};
use crate::sql::ast::{WhereClause, SWhere, ComparisonOp};
use crate::sql::compare::compare_order;
use crate::sql::order::{compare_values, is_eq, is_lt, is_gt};
use crate::sql::like::{like, like_chars};
use crate::sql::rank::idx;

verus! {

/// The lower-case form of a string, as `str::to_lowercase` gives it.
pub uninterp spec fn lowercase(s: Seq<char>) -> Seq<char>;

/// `str::to_lowercase`.
#[verifier::external_body]
pub(crate) fn to_lower(s: &str) -> (r: String)
    ensures
        r@ == lowercase(s@),
{
    s.to_lowercase()
}

/// Whether the column exists and its position lies within a row of `len` values.
pub open spec fn column_ok(cols: Seq<SColumn>, len: nat, name: Seq<char>) -> bool {
    col_pos(cols, name) matches Some(k) && k < len
}

/// The value of the named column in a row.
pub open spec fn column_value(cols: Seq<SColumn>, row: Seq<SValue>, name: Seq<char>) -> SValue {
    row[col_pos(cols, name)->0]
}

/// Whether every column a condition names exists within a row of `len` values.
pub open spec fn pred_ok(p: SWhere, cols: Seq<SColumn>, len: nat) -> bool
    decreases p,
{
    match p {
        SWhere::Simple { column, .. } => column_ok(cols, len, column),
        SWhere::Like { column, .. } => column_ok(cols, len, column),
        SWhere::InList { column, .. } => column_ok(cols, len, column),
        SWhere::IsNull { column, .. } => column_ok(cols, len, column),
        SWhere::Between { column, .. } => column_ok(cols, len, column),
        SWhere::And(a, b) => pred_ok(*a, cols, len) && pred_ok(*b, cols, len),
        SWhere::Or(a, b) => pred_ok(*a, cols, len) && pred_ok(*b, cols, len),
    }
}

/// Whether a comparison result satisfies an operator.
pub open spec fn op_holds(op: ComparisonOp, o: Ordering) -> bool {
    match op {
        ComparisonOp::Eq => o == Ordering::Equal,
        ComparisonOp::NotEq => o != Ordering::Equal,
        ComparisonOp::Lt => o == Ordering::Less,
        ComparisonOp::LtEq => o != Ordering::Greater,
        ComparisonOp::Gt => o == Ordering::Greater,
        ComparisonOp::GtEq => o != Ordering::Less,
    }
}

/// Whether a LIKE pattern matches a value: only text matches; a pattern
/// that begins with `ILike:` matches the rest of the pattern against the
/// value with both in lower case.
pub open spec fn like_holds(pattern: Seq<char>, v: SValue) -> bool {
    match v {
        SValue::Text(s) => if is_prefix("ILike:"@, pattern) {
            like(lowercase(pattern.skip(6)), lowercase(s))
        } else {
            like(pattern, s)
        },
        _ => false,
    }
}

/// Whether any list entry compares equal to `v`.
pub open spec fn in_list(v: SValue, list: Seq<SValue>) -> bool {
    exists|i: int| 0 <= i < list.len() && compare_order(v, list[i]) == Ordering::Equal
}

/// The truth of a condition on a row.
pub open spec fn eval_pred(p: SWhere, cols: Seq<SColumn>, row: Seq<SValue>) -> bool
    decreases p,
{
    match p {
        SWhere::Simple { column, operator, value } =>
            op_holds(operator, compare_order(column_value(cols, row, column), value)),
        SWhere::Like { column, pattern, negated } =>
            like_holds(pattern, column_value(cols, row, column)) != negated,
        SWhere::InList { column, values, negated } =>
            in_list(column_value(cols, row, column), values) != negated,
        SWhere::IsNull { column, negated } =>
            (column_value(cols, row, column) is Null) != negated,
        SWhere::Between { column, low, high } =>
            compare_order(column_value(cols, row, column), low) != Ordering::Less
            && compare_order(column_value(cols, row, column), high) != Ordering::Greater,
        SWhere::And(a, b) => eval_pred(*a, cols, row) && eval_pred(*b, cols, row),
        SWhere::Or(a, b) => eval_pred(*a, cols, row) || eval_pred(*b, cols, row),
    }
}

fn lookup_column<'a>(row: &'a Row, schema: &TableSchema, column: &String) -> (v: &'a Value)
    requires
        column_ok(schema@.columns, row@.len(), column@),
    ensures
        v@ == column_value(schema@.columns, row@, column@),
{
    let idx = schema.col_index(column.as_str());
    let k = idx.unwrap();
    &row.values[k]
}

fn like_value(pattern: &String, v: &Value) -> (r: bool)
    ensures
        r == like_holds(pattern@, v@),
{
    match v {
        Value::Text(s) => {
            let pv = chars_of(pattern.as_str());
            if starts_with_chars(&pv, "ILike:") {
                proof { reveal_strlit("ILike:"); }
                let rest = crate::strutil::string_from_range(&pv, 6, pv.len());
                assert(rest@ == pattern@.skip(6));
                let lp = to_lower(rest.as_str());
                let ls = to_lower(s.as_str());
                like_chars(&chars_of(lp.as_str()), &chars_of(ls.as_str()))
            } else {
                like_chars(&pv, &chars_of(s.as_str()))
            }
        },
        _ => false,
    }
}

/// Evaluates a condition on a row.
pub fn evaluate_predicate(predicate: &WhereClause, row: &Row, schema: &TableSchema) -> (r: bool)
    requires
        pred_ok(predicate@, schema@.columns, row@.len()),
    ensures
        r == eval_pred(predicate@, schema@.columns, row@),
    decreases predicate,
{
    match predicate {
        WhereClause::Simple { column, operator, value } => {
            let rv = lookup_column(row, schema, column);
            let o = compare_values(rv, value);
            assert(o == compare_order(column_value(schema@.columns, row@, column@), value@));
            match operator {
                ComparisonOp::Eq => is_eq(o),
                ComparisonOp::NotEq => !is_eq(o),
                ComparisonOp::Lt => is_lt(o),
                ComparisonOp::LtEq => !is_gt(o),
                ComparisonOp::Gt => is_gt(o),
                ComparisonOp::GtEq => !is_lt(o),
            }
        },
        WhereClause::Like { column, pattern, negated } => {
            let rv = lookup_column(row, schema, column);
            let m = like_value(pattern, rv);
            if *negated { !m } else { m }
        },
        WhereClause::InList { column, values, negated } => {
            let rv = lookup_column(row, schema, column);
            let ghost lv = crate::types::values_view(values@);
            let mut found = false;
            let mut i: usize = 0;
            while i < values.len() && !found
                invariant
                    i <= values@.len(),
                    lv == crate::types::values_view(values@),
                    found ==> in_list(rv@, lv),
                    !found ==> forall|j: int| 0 <= j < i ==> compare_order(rv@, lv[j]) != Ordering::Equal,
                decreases values.len() - i,
            {
                if is_eq(compare_values(rv, &values[i])) {
                    found = true;
                    assert(compare_order(rv@, lv[idx(i)]) == Ordering::Equal);
                }
                i += 1;
            }
            if *negated { !found } else { found }
        },
        WhereClause::IsNull { column, negated } => {
            let rv = lookup_column(row, schema, column);
            let n = rv.is_null();
            if *negated { !n } else { n }
        },
        WhereClause::Between { column, low, high } => {
            let rv = lookup_column(row, schema, column);
            !is_lt(compare_values(rv, low)) && !is_gt(compare_values(rv, high))
        },
        WhereClause::And(a, b) => evaluate_predicate(a, row, schema) && evaluate_predicate(b, row, schema),
        WhereClause::Or(a, b) => evaluate_predicate(a, row, schema) || evaluate_predicate(b, row, schema),
    }
}

} // verus!
