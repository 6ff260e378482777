//! Three-way comparison results (-1, 0, 1) of the primitive kinds of values.

use vstd::prelude::*;
use crate::float::{total_key, int_to_float};

verus! {

/// -1, 0 or 1 as `x` is below, equal to or above `y`.
pub open spec fn rank_int(x: int, y: int) -> int {
    if x < y { -1 } else if x > y { 1 } else { 0 }
}

/// Three-way comparison of two machine integers.
pub open spec fn rank_i64(x: i64, y: i64) -> int {
    rank_int(x as int, y as int)
}

/// Three-way comparison of two booleans (`false < true`).
pub open spec fn rank_bool(x: bool, y: bool) -> int {
    rank_int(if x { 1 } else { 0 }, if y { 1 } else { 0 })
}

/// Three-way comparison of two floats by `total_cmp`.
pub open spec fn rank_float(x: u64, y: u64) -> int {
    rank_int(total_key(x) as int, total_key(y) as int)
}

/// Three-way comparison of an integer converted to a float with a float.
pub open spec fn rank_int_float(x: i64, y: u64) -> int {
    rank_int(total_key(int_to_float(x as int) as u64) as int, total_key(y) as int)
}

/// Three-way comparison of a float with an integer converted to a float.
pub open spec fn rank_float_int(x: u64, y: i64) -> int {
    rank_int(total_key(x) as int, total_key(int_to_float(y as int) as u64) as int)
}

/// Three-way comparison of two machine integers.
pub fn rank_i64_exec(x: i64, y: i64) -> (r: i8)
    ensures
        r as int == rank_i64(x, y),
{
    if x < y { -1 } else if x > y { 1 } else { 0 }
}

/// Three-way comparison of two unsigned keys.
pub fn rank_u64_exec(x: u64, y: u64) -> (r: i8)
    ensures
        r as int == rank_int(x as int, y as int),
{
    if x < y { -1 } else if x > y { 1 } else { 0 }
}

} // verus!

verus! {

/// The integer value of a small comparison result.
pub open spec fn rank_value(c: i8) -> int {
    c as int
}

} // verus!

verus! {

/// A machine index as a mathematical integer.
pub open spec fn idx(i: usize) -> int {
    i as int
}

} // verus!
