//! Executable value comparison.

use vstd::prelude::*;
use std::cmp::Ordering;
use crate::types::Value;
use crate::float::{total_order_key, int_to_float_bits};
use crate::strutil::str_lex_rank;
use crate::sql::rank::{rank_i64_exec, rank_u64_exec, rank_value};
use crate::sql::compare::{compare_order, sign_order};

verus! {

fn to_order(c: i8) -> (o: Ordering)
    ensures
        o == sign_order(rank_value(c)),
{
    if c < 0 { Ordering::Less } else if c > 0 { Ordering::Greater } else { Ordering::Equal }
}

/// Compares two values for ordering (ORDER BY, comparisons, MIN/MAX).
pub fn compare_values(a: &Value, b: &Value) -> (o: Ordering)
    ensures
        o == compare_order(a@, b@),
{
    match (a, b) {
        (Value::Integer(x), Value::Integer(y)) => to_order(rank_i64_exec(*x, *y)),
        (Value::Integer(x), Value::Float(y)) => to_order(rank_u64_exec(total_order_key(int_to_float_bits(*x)), total_order_key(*y))),
        (Value::Float(x), Value::Integer(y)) => to_order(rank_u64_exec(total_order_key(*x), total_order_key(int_to_float_bits(*y)))),
        (Value::Float(x), Value::Float(y)) => to_order(rank_u64_exec(total_order_key(*x), total_order_key(*y))),
        (Value::Text(x), Value::Text(y)) => to_order(str_lex_rank(x.as_str(), y.as_str())),
        (Value::Timestamp(x), Value::Timestamp(y)) => to_order(rank_i64_exec(*x, *y)),
        (Value::Boolean(x), Value::Boolean(y)) => {
            if !*x && *y { Ordering::Less } else if *x && !*y { Ordering::Greater } else { Ordering::Equal }
        },
        _ => Ordering::Equal,
    }
}

} // verus!

verus! {

/// Whether an ordering is `Equal`.
pub fn is_eq(o: Ordering) -> (r: bool)
    ensures
        r == (o == Ordering::Equal),
{
    match o {
        Ordering::Equal => true,
        _ => false,
    }
}

/// Whether an ordering is `Less`.
pub fn is_lt(o: Ordering) -> (r: bool)
    ensures
        r == (o == Ordering::Less),
{
    match o {
        Ordering::Less => true,
        _ => false,
    }
}

/// Whether an ordering is `Greater`.
pub fn is_gt(o: Ordering) -> (r: bool)
    ensures
        r == (o == Ordering::Greater),
{
    match o {
        Ordering::Greater => true,
        _ => false,
    }
}

} // verus!
