//! The ordering of values used by ORDER BY, comparisons in WHERE, MIN and MAX.

use vstd::prelude::*;
use std::cmp::Ordering;
use crate::types::SValue;
use crate::strutil::lex_rank;
use crate::sql::rank::{rank_i64, rank_bool, rank_float, rank_int_float, rank_float_int};

verus! {

/// The ordering given by a -1/0/1 comparison result.
pub open spec fn sign_order(c: int) -> Ordering {
    if c < 0 { Ordering::Less } else if c > 0 { Ordering::Greater } else { Ordering::Equal }
}

/// How two values compare: integers and timestamps numerically, floats by
/// `f64::total_cmp`, an integer against a float by converting the integer to
/// a float first, text lexicographically, booleans with `false < true`; every
/// other pair of values counts as equal.
pub open spec fn compare_order(a: SValue, b: SValue) -> Ordering {
    match (a, b) {
        (SValue::Integer(x), SValue::Integer(y)) => sign_order(rank_i64(x, y)),
        (SValue::Integer(x), SValue::Float(y)) => sign_order(rank_int_float(x, y)),
        (SValue::Float(x), SValue::Integer(y)) => sign_order(rank_float_int(x, y)),
        (SValue::Float(x), SValue::Float(y)) => sign_order(rank_float(x, y)),
        (SValue::Text(x), SValue::Text(y)) => sign_order(lex_rank(x, y)),
        (SValue::Timestamp(x), SValue::Timestamp(y)) => sign_order(rank_i64(x, y)),
        (SValue::Boolean(x), SValue::Boolean(y)) => sign_order(rank_bool(x, y)),
        _ => Ordering::Equal,
    }
}

} // verus!
