//! Aggregate functions (COUNT, SUM, AVG, MIN, MAX) and GROUP BY.

use vstd::prelude::*;
use std::cmp::Ordering;
use crate::types::{Value, SValue, Row, FloatOps};
use crate::schema::{TableSchema, SColumn, col_pos};
use crate::float::{exp_field, frac_field, int_to_float_bits, float_bits_to_i64};
use crate::strutil::str_eq;
use crate::sql::ast::{AggregateDef, SAgg, strings_view, aggs_view};
use crate::sql::compare::compare_order;
use crate::sql::order::{compare_values, is_gt};
use crate::sql::rows::{rows_view, pick, fits};
use crate::sql::rank::idx;

verus! {

/// Whether the float with bits `b` is a NaN.
pub open spec fn is_nan(b: u64) -> bool {
    exp_field(b) == 2047 && frac_field(b) != 0
}

/// Whether the float with bits `b` is +0.0 or -0.0.
pub open spec fn is_zero(b: u64) -> bool {
    exp_field(b) == 0 && frac_field(b) == 0
}

/// IEEE-754 equality of two floats given by their bits: no NaN equals
/// anything, and the two zeros are equal.
pub open spec fn float_eq(a: u64, b: u64) -> bool {
    !is_nan(a) && !is_nan(b) && (a == b || (is_zero(a) && is_zero(b)))
}

/// Value equality (`==` on values): same variant and equal contents, floats
/// compared as IEEE-754 numbers.
pub open spec fn value_eq(a: SValue, b: SValue) -> bool {
    match (a, b) {
        (SValue::Integer(x), SValue::Integer(y)) => x == y,
        (SValue::Float(x), SValue::Float(y)) => float_eq(x, y),
        (SValue::Text(x), SValue::Text(y)) => x == y,
        (SValue::Blob(x), SValue::Blob(y)) => x == y,
        (SValue::Boolean(x), SValue::Boolean(y)) => x == y,
        (SValue::Timestamp(x), SValue::Timestamp(y)) => x == y,
        (SValue::Null, SValue::Null) => true,
        _ => false,
    }
}

/// Equality of two value lists, element by element.
pub open spec fn key_eq(a: Seq<SValue>, b: Seq<SValue>) -> bool {
    a.len() == b.len() && forall|i: int| 0 <= i < a.len() ==> value_eq(#[trigger] a[i], b[i])
}

fn float_bits_eq(a: u64, b: u64) -> (r: bool)
    ensures
        r == float_eq(a, b),
{
    let a_nan = (a / 4503599627370496u64) % 2048 == 2047 && a % 4503599627370496u64 != 0;
    let b_nan = (b / 4503599627370496u64) % 2048 == 2047 && b % 4503599627370496u64 != 0;
    let a_zero = (a / 4503599627370496u64) % 2048 == 0 && a % 4503599627370496u64 == 0;
    let b_zero = (b / 4503599627370496u64) % 2048 == 0 && b % 4503599627370496u64 == 0;
    !a_nan && !b_nan && (a == b || (a_zero && b_zero))
}

fn bytes_eq(a: &Vec<u8>, b: &Vec<u8>) -> (r: bool)
    ensures
        r == (a@ == b@),
{
    if a.len() != b.len() {
        return false;
    }
    let mut i: usize = 0;
    while i < a.len()
        invariant
            a@.len() == b@.len(),
            i <= a@.len(),
            forall|j: int| 0 <= j < i ==> a@[j] == b@[j],
        decreases a.len() - i,
    {
        if a[i] != b[i] {
            return false;
        }
        i += 1;
    }
    assert(a@ =~= b@);
    true
}

/// Whether two values are equal (`==` on values).
pub fn values_equal(a: &Value, b: &Value) -> (r: bool)
    ensures
        r == value_eq(a@, b@),
{
    match (a, b) {
        (Value::Integer(x), Value::Integer(y)) => *x == *y,
        (Value::Float(x), Value::Float(y)) => float_bits_eq(*x, *y),
        (Value::Text(x), Value::Text(y)) => str_eq(x.as_str(), y.as_str()),
        (Value::Blob(x), Value::Blob(y)) => bytes_eq(x, y),
        (Value::Boolean(x), Value::Boolean(y)) => *x == *y,
        (Value::Timestamp(x), Value::Timestamp(y)) => *x == *y,
        (Value::Null, Value::Null) => true,
        _ => false,
    }
}

/// Whether two value lists are equal element by element.
pub fn keys_equal(a: &Vec<Value>, b: &Vec<Value>) -> (r: bool)
    ensures
        r == key_eq(crate::types::values_view(a@), crate::types::values_view(b@)),
{
    let ghost av = crate::types::values_view(a@);
    let ghost bv = crate::types::values_view(b@);
    assert(av.len() == a@.len() && bv.len() == b@.len());
    if a.len() != b.len() {
        return false;
    }
    let mut i: usize = 0;
    while i < a.len()
        invariant
            a@.len() == b@.len(),
            av.len() == a@.len() && bv.len() == b@.len(),
            av == crate::types::values_view(a@),
            bv == crate::types::values_view(b@),
            i <= a@.len(),
            forall|j: int| 0 <= j < i ==> value_eq(#[trigger] av[j], bv[j]),
        decreases a.len() - i,
    {
        if !values_equal(&a[i], &b[i]) {
            assert(!value_eq(av[idx(i)], bv[idx(i)]));
            return false;
        }
        i += 1;
    }
    true
}

/// Whether a name is one of the aggregate functions.
pub open spec fn is_agg_function(f: Seq<char>) -> bool {
    f == "COUNT"@ || f == "SUM"@ || f == "AVG"@ || f == "MIN"@ || f == "MAX"@
}

/// The column position an aggregate reads from each row, if it reads one.
pub open spec fn agg_reads(a: SAgg, cols: Seq<SColumn>) -> Option<int> {
    if !is_agg_function(a.function) || (a.function == "COUNT"@ && a.column == "*"@) {
        None
    } else {
        col_pos(cols, a.column)
    }
}

/// Whether every row is long enough for what an aggregate reads.
pub open spec fn reads_ok(a: SAgg, cols: Seq<SColumn>, rows: Seq<Seq<SValue>>) -> bool {
    forall|i: int| 0 <= i < rows.len() ==> (agg_reads(a, cols) matches Some(p) ==> p < #[trigger] rows[i].len())
}

/// The number of rows whose value at `p` is not NULL.
pub open spec fn count_non_null(rows: Seq<Seq<SValue>>, p: int) -> nat
    decreases rows.len(),
{
    if rows.len() == 0 {
        0
    } else {
        count_non_null(rows.drop_last(), p) + if rows.last()[p] is Null { 0nat } else { 1nat }
    }
}

/// The first least non-NULL value at `p` (a later value replaces the current
/// one only when the current one compares greater).
pub open spec fn min_of(rows: Seq<Seq<SValue>>, p: int) -> Option<SValue>
    decreases rows.len(),
{
    if rows.len() == 0 {
        None
    } else {
        let v = rows.last()[p];
        let acc = min_of(rows.drop_last(), p);
        if v is Null {
            acc
        } else {
            match acc {
                None => Some(v),
                Some(a) => if compare_order(a, v) == Ordering::Greater { Some(v) } else { Some(a) },
            }
        }
    }
}

/// The last greatest non-NULL value at `p` (a later value replaces the
/// current one unless the current one compares greater).
pub open spec fn max_of(rows: Seq<Seq<SValue>>, p: int) -> Option<SValue>
    decreases rows.len(),
{
    if rows.len() == 0 {
        None
    } else {
        let v = rows.last()[p];
        let acc = max_of(rows.drop_last(), p);
        if v is Null {
            acc
        } else {
            match acc {
                None => Some(v),
                Some(a) => if compare_order(a, v) == Ordering::Greater { Some(a) } else { Some(v) },
            }
        }
    }
}

/// Whether a value is an integer or a float.
pub open spec fn is_numeric(v: SValue) -> bool {
    v is Integer || v is Float
}

/// Whether some row holds a number at `p`.
pub open spec fn has_numeric(rows: Seq<Seq<SValue>>, p: int) -> bool {
    exists|i: int| 0 <= i < rows.len() && is_numeric(#[trigger] rows[i][p])
}

/// Whether every row holds an integer or NULL at `p`.
pub open spec fn all_integer_or_null(rows: Seq<Seq<SValue>>, p: int) -> bool {
    forall|i: int| 0 <= i < rows.len() ==> (#[trigger] rows[i][p] is Integer || rows[i][p] is Null)
}

/// The sum of the integers at `p` (other values count for nothing).
pub open spec fn int_total(rows: Seq<Seq<SValue>>, p: int) -> int
    decreases rows.len(),
{
    if rows.len() == 0 {
        0
    } else {
        int_total(rows.drop_last(), p) + match rows.last()[p] {
            SValue::Integer(x) => x as int,
            _ => 0int,
        }
    }
}

/// The bound within which floating point holds every integer exactly.
pub open spec fn exact_bound() -> int {
    0x20_0000_0000_0000
}

/// Whether every integer at `p`, and every running total of them, lies
/// within `exact_bound()` either way, so that adding them up in floating
/// point loses nothing.
pub open spec fn sums_exact(rows: Seq<Seq<SValue>>, p: int) -> bool
    decreases rows.len(),
{
    if rows.len() == 0 {
        true
    } else {
        &&& sums_exact(rows.drop_last(), p)
        &&& rows.last()[p] matches SValue::Integer(x) ==> -exact_bound() <= x <= exact_bound()
        &&& -exact_bound() <= int_total(rows, p) <= exact_bound()
    }
}

/// SUM adds up a column of integers. Over a group whose column holds only
/// integers and NULLs, SUM is NULL exactly when no integer is there; and a row
/// whose value is the integer `x` added to the group adds `x` to its SUM
/// (taking a NULL SUM as 0). This holds where every integer of the column is
/// at most `m` either way and the grown group has at most 2^53 / `m` rows, so
/// that floating point adds them up exactly.
pub proof fn law_sum_adds_row(a: SAgg, cols: Seq<SColumn>, rows: Seq<Seq<SValue>>, r: Seq<SValue>,
    p: int, x: i64, m: int, v: SValue, w: SValue)
    requires
        a.function == "SUM"@,
        col_pos(cols, a.column) == Some(p),
        0 <= p < r.len(),
        forall|i: int| 0 <= i < rows.len() ==> p < #[trigger] rows[i].len(),
        forall|i: int| 0 <= i < rows.len() ==> (#[trigger] rows[i][p] is Integer || rows[i][p] is Null),
        r[p] == SValue::Integer(x),
        0 <= m,
        -m <= x <= m,
        forall|i: int| 0 <= i < rows.len() ==> (#[trigger] rows[i][p] matches SValue::Integer(y) ==> -m <= y <= m),
        (rows.len() + 1) * m <= 0x20_0000_0000_0000,
        agg_result(a, cols, rows, v),
        agg_result(a, cols, rows.push(r), w),
    ensures
        v is Null <==> forall|i: int| 0 <= i < rows.len() ==> #[trigger] rows[i][p] is Null,
        v is Null || v is Integer,
        w is Integer,
        w->Integer_0 == x + if v is Integer { v->Integer_0 as int } else { 0 },
{
    reveal_strlit("SUM");
    reveal_strlit("COUNT");
    let s = rows.push(r);
    assert forall|i: int| 0 <= i < s.len() implies (#[trigger] s[i][p] matches SValue::Integer(y) ==> -m <= y <= m) by {
        if i < rows.len() {
            assert(s[i] == rows[i]);
        }
    }
    lemma_total_bounded(s, p, m, s.len() as int);
    assert(s.drop_last() =~= rows);
    assert forall|i: int| 0 <= i < rows.len() implies (#[trigger] rows[i][p] matches SValue::Integer(y) ==> -m <= y <= m) by {}
    lemma_total_bounded(rows, p, m, s.len() as int);
    assert(s[rows.len() as int] == r);
    assert(has_numeric(s, p));
    assert(all_integer_or_null(s, p)) by {
        assert forall|i: int| 0 <= i < s.len() implies (#[trigger] s[i][p] is Integer || s[i][p] is Null) by {
            if i < rows.len() {
                assert(s[i] == rows[i]);
            }
        }
    }
    assert(all_integer_or_null(rows, p));
    assert("COUNT"@.len() != "SUM"@.len());
    assert(s.last() == r);
    assert(int_total(s, p) == int_total(rows, p) + x);
    assert(sums_exact(s, p));
    assert(w == SValue::Integer(int_total(s, p) as i64));
    if !has_numeric(rows, p) {
        lemma_total_none(rows, p);
        assert forall|i: int| 0 <= i < rows.len() implies #[trigger] rows[i][p] is Null by {
            assert(!is_numeric(rows[i][p]));
        }
    } else {
        let k = choose|i: int| 0 <= i < rows.len() && is_numeric(#[trigger] rows[i][p]);
        assert(!(rows[k][p] is Null));
        assert(v == SValue::Integer(int_total(rows, p) as i64));
    }
}

/// Every running total of integers each at most `m` either way, over at most
/// `n` rows with `n * m` within the exact bound, is within the bound too.
proof fn lemma_total_bounded(q: Seq<Seq<SValue>>, p: int, m: int, n: int)
    requires
        0 <= m,
        q.len() <= n,
        n * m <= exact_bound(),
        forall|i: int| 0 <= i < q.len() ==> (#[trigger] q[i][p] matches SValue::Integer(y) ==> -m <= y <= m),
    ensures
        -(q.len() * m) <= int_total(q, p) <= q.len() * m,
        sums_exact(q, p),
    decreases q.len(),
{
    if q.len() > 0 {
        let init = q.drop_last();
        assert forall|i: int| 0 <= i < init.len() implies (#[trigger] init[i][p] matches SValue::Integer(y) ==> -m <= y <= m) by {
            assert(init[i] == q[i]);
        }
        lemma_total_bounded(init, p, m, n);
        assert(q.last() == q[q.len() - 1]);
        let l = q.len() as int;
        assert(l * m == (l - 1) * m + m) by (nonlinear_arith);
        assert(l * m <= n * m) by (nonlinear_arith)
            requires l <= n, 0 <= m,
        ;
        assert(m <= n * m) by (nonlinear_arith)
            requires 1 <= n, 0 <= m,
        ;
    }
}

/// Where no row holds a number at `p`, the integers there sum to 0.
proof fn lemma_total_none(q: Seq<Seq<SValue>>, p: int)
    requires
        !has_numeric(q, p),
    ensures
        int_total(q, p) == 0,
    decreases q.len(),
{
    if q.len() > 0 {
        let init = q.drop_last();
        assert(!is_numeric(q[q.len() - 1][p]));
        if has_numeric(init, p) {
            let k = choose|i: int| 0 <= i < init.len() && is_numeric(#[trigger] init[i][p]);
            assert(init[k] == q[k]);
        }
        lemma_total_none(init, p);
    }
}

/// A value, or NULL for none.
pub open spec fn or_null(o: Option<SValue>) -> SValue {
    match o {
        Some(v) => v,
        None => SValue::Null,
    }
}

/// What an aggregate gives on a group of rows.  COUNT, MIN and MAX are exact;
/// SUM and AVG are computed in floating point. SUM is an integer when every
/// value is an integer or NULL, and then the sum of those integers where
/// floating point adds them exactly; otherwise only the kind of SUM and AVG
/// is fixed here: AVG is a float, and both are NULL when no value is a number.
pub open spec fn agg_result(a: SAgg, cols: Seq<SColumn>, rows: Seq<Seq<SValue>>, v: SValue) -> bool {
    if a.function == "COUNT"@ {
        if a.column == "*"@ {
            v == SValue::Integer(rows.len() as i64)
        } else {
            match col_pos(cols, a.column) {
                Some(p) => v == SValue::Integer(count_non_null(rows, p) as i64),
                None => v == SValue::Integer(0),
            }
        }
    } else if a.function == "SUM"@ {
        match col_pos(cols, a.column) {
            Some(p) => if !has_numeric(rows, p) {
                v is Null
            } else if all_integer_or_null(rows, p) {
                v is Integer && (sums_exact(rows, p) ==> v == SValue::Integer(int_total(rows, p) as i64))
            } else {
                v is Float
            },
            None => v is Null,
        }
    } else if a.function == "AVG"@ {
        match col_pos(cols, a.column) {
            Some(p) => if has_numeric(rows, p) { v is Float } else { v is Null },
            None => v is Null,
        }
    } else if a.function == "MIN"@ {
        match col_pos(cols, a.column) {
            Some(p) => v == or_null(min_of(rows, p)),
            None => v is Null,
        }
    } else if a.function == "MAX"@ {
        match col_pos(cols, a.column) {
            Some(p) => v == or_null(max_of(rows, p)),
            None => v is Null,
        }
    } else {
        v is Null
    }
}

fn count_column(rows: &Vec<Row>, p: usize) -> (n: usize)
    requires
        forall|i: int| 0 <= i < rows@.len() ==> p < #[trigger] rows@[i]@.len(),
    ensures
        n == count_non_null(rows_view(rows@), idx(p)),
{
    let ghost rv = rows_view(rows@);
    let mut n: usize = 0;
    let mut i: usize = 0;
    while i < rows.len()
        invariant
            i <= rows@.len(),
            rv == rows_view(rows@),
            forall|j: int| 0 <= j < rows@.len() ==> p < #[trigger] rows@[j]@.len(),
            n == count_non_null(rv.take(idx(i)), idx(p)),
            n <= i,
        decreases rows.len() - i,
    {
        let row = &rows[i];
        assert(rv[idx(i)] == row@);
        assert(row@.len() == row.values@.len());
        proof {
            let t = rv.take(idx(i) + 1);
            assert(t.drop_last() =~= rv.take(idx(i)));
            assert(t.last() == row@);
            assert(row@[idx(p)] == row.values@[idx(p)]@);
        }
        if !row.values[p].is_null() {
            n += 1;
        }
        i += 1;
    }
    assert(rv.take(idx(i)) =~= rv);
    n
}

/// The first least non-NULL value of a column.
fn min_column(rows: &Vec<Row>, p: usize) -> (v: Value)
    requires
        forall|i: int| 0 <= i < rows@.len() ==> p < #[trigger] rows@[i]@.len(),
    ensures
        v@ == or_null(min_of(rows_view(rows@), idx(p))),
{
    let ghost rv = rows_view(rows@);
    let mut acc: Option<Value> = None;
    let mut i: usize = 0;
    while i < rows.len()
        invariant
            i <= rows@.len(),
            rv == rows_view(rows@),
            forall|j: int| 0 <= j < rows@.len() ==> p < #[trigger] rows@[j]@.len(),
            crate::sql::planner::opt_view(acc) == min_of(rv.take(idx(i)), idx(p)),
        decreases rows.len() - i,
    {
        let row = &rows[i];
        assert(rv[idx(i)] == row@);
        assert(row@.len() == row.values@.len());
        proof {
            let t = rv.take(idx(i) + 1);
            assert(t.drop_last() =~= rv.take(idx(i)));
            assert(t.last() == row@);
            assert(row@[idx(p)] == row.values@[idx(p)]@);
        }
        let x = &row.values[p];
        if !x.is_null() {
            let replace = match &acc {
                None => true,
                Some(a) => is_gt(compare_values(a, x)),
            };
            if replace {
                acc = Some(x.copy());
            }
        }
        i += 1;
    }
    assert(rv.take(idx(i)) =~= rv);
    match acc {
        Some(a) => a,
        None => Value::Null,
    }
}

/// The last greatest non-NULL value of a column.
fn max_column(rows: &Vec<Row>, p: usize) -> (v: Value)
    requires
        forall|i: int| 0 <= i < rows@.len() ==> p < #[trigger] rows@[i]@.len(),
    ensures
        v@ == or_null(max_of(rows_view(rows@), idx(p))),
{
    let ghost rv = rows_view(rows@);
    let mut acc: Option<Value> = None;
    let mut i: usize = 0;
    while i < rows.len()
        invariant
            i <= rows@.len(),
            rv == rows_view(rows@),
            forall|j: int| 0 <= j < rows@.len() ==> p < #[trigger] rows@[j]@.len(),
            crate::sql::planner::opt_view(acc) == max_of(rv.take(idx(i)), idx(p)),
        decreases rows.len() - i,
    {
        let row = &rows[i];
        assert(rv[idx(i)] == row@);
        assert(row@.len() == row.values@.len());
        proof {
            let t = rv.take(idx(i) + 1);
            assert(t.drop_last() =~= rv.take(idx(i)));
            assert(t.last() == row@);
            assert(row@[idx(p)] == row.values@[idx(p)]@);
        }
        let x = &row.values[p];
        if !x.is_null() {
            let replace = match &acc {
                None => true,
                Some(a) => !is_gt(compare_values(a, x)),
            };
            if replace {
                acc = Some(x.copy());
            }
        }
        i += 1;
    }
    assert(rv.take(idx(i)) =~= rv);
    match acc {
        Some(a) => a,
        None => Value::Null,
    }
}

/// SUM of a column, added in floating point through the host.
fn sum_column<F: FloatOps>(rows: &Vec<Row>, p: usize, floats: &F) -> (v: Value)
    requires
        forall|i: int| 0 <= i < rows@.len() ==> p < #[trigger] rows@[i]@.len(),
    ensures
        !has_numeric(rows_view(rows@), idx(p)) ==> v@ is Null,
        has_numeric(rows_view(rows@), idx(p)) && all_integer_or_null(rows_view(rows@), idx(p)) ==> v@ is Integer,
        has_numeric(rows_view(rows@), idx(p)) && all_integer_or_null(rows_view(rows@), idx(p))
            && sums_exact(rows_view(rows@), idx(p)) ==> v@ == SValue::Integer(int_total(rows_view(rows@), idx(p)) as i64),
        has_numeric(rows_view(rows@), idx(p)) && !all_integer_or_null(rows_view(rows@), idx(p)) ==> v@ is Float,
{
    let ghost rv = rows_view(rows@);
    let mut sum: Option<u64> = None;
    let mut all_int = true;
    let mut exact: i64 = 0;
    let mut small = true;
    let mut i: usize = 0;
    while i < rows.len()
        invariant
            i <= rows@.len(),
            rv == rows_view(rows@),
            forall|j: int| 0 <= j < rows@.len() ==> p < #[trigger] rows@[j]@.len(),
            sum is Some <==> has_numeric(rv.take(idx(i)), idx(p)),
            all_int <==> all_integer_or_null(rv.take(idx(i)), idx(p)),
            small <==> sums_exact(rv.take(idx(i)), idx(p)),
            small ==> exact == int_total(rv.take(idx(i)), idx(p)),
            small ==> -exact_bound() <= exact <= exact_bound(),
        decreases rows.len() - i,
    {
        let row = &rows[i];
        assert(rv[idx(i)] == row@);
        assert(row@.len() == row.values@.len());
        let ghost t = rv.take(idx(i) + 1);
        proof {
            assert(row@[idx(p)] == row.values@[idx(p)]@);
            assert(t[idx(i)] == row@);
            assert forall|j: int| 0 <= j < idx(i) implies #[trigger] t[j] == rv.take(idx(i))[j] by {}
        }
        let acc: u64 = match sum {
            Some(s) => s,
            None => 0,
        };
        match &row.values[p] {
            Value::Integer(x) => {
                sum = Some(floats.add(acc, int_to_float_bits(*x)));
                if small {
                    if -0x20_0000_0000_0000i64 <= *x && *x <= 0x20_0000_0000_0000i64
                        && -0x20_0000_0000_0000i64 <= exact + *x && exact + *x <= 0x20_0000_0000_0000i64 {
                        exact = exact + *x;
                    } else {
                        small = false;
                    }
                }
            },
            Value::Float(f) => {
                sum = Some(floats.add(acc, *f));
                all_int = false;
            },
            Value::Null => {},
            _ => {
                all_int = false;
            },
        }
        proof {
            if has_numeric(rv.take(idx(i)), idx(p)) {
                let w = choose|j: int| 0 <= j < idx(i) && is_numeric(#[trigger] rv.take(idx(i))[j][idx(p)]);
                assert(is_numeric(t[w][idx(p)]));
            }
            if has_numeric(t, idx(p)) && !is_numeric(row@[idx(p)]) {
                let w = choose|j: int| 0 <= j < idx(i) + 1 && is_numeric(#[trigger] t[j][idx(p)]);
                assert(is_numeric(rv.take(idx(i))[w][idx(p)]));
            }
            assert(t.drop_last() =~= rv.take(idx(i)));
            assert(t.last() == row@);
            if !all_int {
                if all_integer_or_null(t, idx(p)) {
                    if !all_integer_or_null(rv.take(idx(i)), idx(p)) {
                        let w = choose|j: int| 0 <= j < idx(i) && !(#[trigger] rv.take(idx(i))[j][idx(p)] is Integer
                            || rv.take(idx(i))[j][idx(p)] is Null);
                        assert(t[w] == rv.take(idx(i))[w]);
                    } else {
                        assert(t[idx(i)][idx(p)] is Integer || t[idx(i)][idx(p)] is Null);
                    }
                }
            }
        }
        i += 1;
    }
    assert(rv.take(idx(i)) =~= rv);
    match sum {
        Some(s) => if all_int {
            if small { Value::Integer(exact) } else { Value::Integer(float_bits_to_i64(s)) }
        } else {
            Value::Float(s)
        },
        None => Value::Null,
    }
}

/// AVG of a column, computed in floating point through the host.
fn avg_column<F: FloatOps>(rows: &Vec<Row>, p: usize, floats: &F) -> (v: Value)
    requires
        forall|i: int| 0 <= i < rows@.len() ==> p < #[trigger] rows@[i]@.len(),
    ensures
        !has_numeric(rows_view(rows@), idx(p)) ==> v@ is Null,
        has_numeric(rows_view(rows@), idx(p)) ==> v@ is Float,
{
    let ghost rv = rows_view(rows@);
    let mut sum: u64 = 0;
    let mut count: usize = 0;
    let mut i: usize = 0;
    while i < rows.len()
        invariant
            i <= rows@.len(),
            count <= i,
            rv == rows_view(rows@),
            forall|j: int| 0 <= j < rows@.len() ==> p < #[trigger] rows@[j]@.len(),
            count > 0 <==> has_numeric(rv.take(idx(i)), idx(p)),
        decreases rows.len() - i,
    {
        let row = &rows[i];
        assert(rv[idx(i)] == row@);
        assert(row@.len() == row.values@.len());
        let ghost t = rv.take(idx(i) + 1);
        proof {
            assert(row@[idx(p)] == row.values@[idx(p)]@);
            assert(t[idx(i)] == row@);
            assert forall|j: int| 0 <= j < idx(i) implies #[trigger] t[j] == rv.take(idx(i))[j] by {}
        }
        match &row.values[p] {
            Value::Integer(x) => {
                sum = floats.add(sum, int_to_float_bits(*x));
                count += 1;
            },
            Value::Float(f) => {
                sum = floats.add(sum, *f);
                count += 1;
            },
            _ => {},
        }
        proof {
            if has_numeric(rv.take(idx(i)), idx(p)) {
                let w = choose|j: int| 0 <= j < idx(i) && is_numeric(#[trigger] rv.take(idx(i))[j][idx(p)]);
                assert(is_numeric(t[w][idx(p)]));
            }
            if has_numeric(t, idx(p)) && !is_numeric(row@[idx(p)]) {
                let w = choose|j: int| 0 <= j < idx(i) + 1 && is_numeric(#[trigger] t[j][idx(p)]);
                assert(is_numeric(rv.take(idx(i))[w][idx(p)]));
            }
        }
        i += 1;
    }
    assert(rv.take(idx(i)) =~= rv);
    if count > 0 {
        Value::Float(floats.div(sum, int_to_float_bits(count as i64)))
    } else {
        Value::Null
    }
}

/// The value of one aggregate over a group of rows.
pub fn compute_aggregate<F: FloatOps>(agg: &AggregateDef, rows: &Vec<Row>, schema: &TableSchema, floats: &F) -> (v: Value)
    requires
        reads_ok(agg@, schema@.columns, rows_view(rows@)),
    ensures
        agg_result(agg@, schema@.columns, rows_view(rows@), v@),
{
    let ghost rv = rows_view(rows@);
    let f = agg.function.as_str();
    let is_count = str_eq(f, "COUNT");
    let is_sum = str_eq(f, "SUM");
    let is_avg = str_eq(f, "AVG");
    let is_min = str_eq(f, "MIN");
    let is_max = str_eq(f, "MAX");
    if !(is_count || is_sum || is_avg || is_min || is_max) {
        return Value::Null;
    }
    if is_count && str_eq(agg.column.as_str(), "*") {
        return Value::Integer(rows.len() as i64);
    }
    let p = match schema.col_index(agg.column.as_str()) {
        Some(p) => p,
        None => {
            return if is_count { Value::Integer(0) } else { Value::Null };
        },
    };
    assert forall|i: int| 0 <= i < rows@.len() implies p < #[trigger] rows@[i]@.len() by {
        assert(rv[i] == rows@[i]@);
    }
    if is_count {
        let n = count_column(rows, p);
        Value::Integer(n as i64)
    } else if is_sum {
        sum_column(rows, p, floats)
    } else if is_avg {
        avg_column(rows, p, floats)
    } else if is_min {
        min_column(rows, p)
    } else {
        max_column(rows, p)
    }
}

/// The positions of the GROUP BY columns that exist, in order.
pub open spec fn group_positions(cols: Seq<SColumn>, names: Seq<Seq<char>>) -> Seq<int>
    decreases names.len(),
{
    if names.len() == 0 {
        Seq::empty()
    } else {
        let rest = group_positions(cols, names.drop_last());
        match col_pos(cols, names.last()) {
            Some(k) => rest.push(k),
            None => rest,
        }
    }
}

/// A group: its key and its rows in input order.
pub type Group = (Seq<SValue>, Seq<Seq<SValue>>);

/// The first group from `j` on whose key equals `key`.
pub open spec fn find_group(groups: Seq<Group>, key: Seq<SValue>, j: int) -> Option<int>
    decreases groups.len() - j,
{
    if j < 0 || j >= groups.len() {
        None
    } else if key_eq(groups[j].0, key) {
        Some(j)
    } else {
        find_group(groups, key, j + 1)
    }
}

pub(crate) proof fn lemma_find_group(groups: Seq<Group>, key: Seq<SValue>, k: int)
    ensures
        find_group(groups, key, k) matches Some(j) ==> k <= j < groups.len() && key_eq(groups[j].0, key),
    decreases groups.len() - k,
{
    if 0 <= k < groups.len() && !key_eq(groups[k].0, key) {
        lemma_find_group(groups, key, k + 1);
    }
}

/// The groups of the rows: each row joins the first group whose key equals
/// its key, or starts a new group at the end.
pub open spec fn groups_of(rows: Seq<Seq<SValue>>, gp: Seq<int>) -> Seq<Group>
    decreases rows.len(),
{
    if rows.len() == 0 {
        Seq::empty()
    } else {
        let g = groups_of(rows.drop_last(), gp);
        let r = rows.last();
        let key = pick(r, gp);
        match find_group(g, key, 0) {
            Some(j) => g.update(j, (g[j].0, g[j].1.push(r))),
            None => g.push((key, seq![r])),
        }
    }
}

/// The one row that aggregates give on no input: 0 for COUNT, NULL otherwise.
pub open spec fn empty_aggregate_row(aggs: Seq<SAgg>) -> Seq<SValue> {
    aggs.map_values(|a: SAgg| if a.function == "COUNT"@ { SValue::Integer(0) } else { SValue::Null })
}

/// Whether `out` is the row of a group: its key, then each aggregate's value.
pub open spec fn group_row(aggs: Seq<SAgg>, cols: Seq<SColumn>, g: Group, out: Seq<SValue>) -> bool {
    &&& out.len() == g.0.len() + aggs.len()
    &&& out.take(g.0.len() as int) == g.0
    &&& forall|j: int| 0 <= j < aggs.len() ==> agg_result(#[trigger] aggs[j], cols, g.1, out[g.0.len() + j])
}

/// Whether a row is long enough for the aggregates and the GROUP BY columns.
pub open spec fn agg_row_ok(aggs: Seq<SAgg>, cols: Seq<SColumn>, gp: Seq<int>, r: Seq<SValue>) -> bool {
    &&& forall|j: int| 0 <= j < aggs.len() ==> (agg_reads(#[trigger] aggs[j], cols) matches Some(p) ==> p < r.len())
    &&& fits(gp, r)
}

/// Whether every row is long enough for the aggregates and the GROUP BY columns.
pub open spec fn aggregate_rows_ok(aggs: Seq<SAgg>, cols: Seq<SColumn>, gp: Seq<int>, rows: Seq<Seq<SValue>>) -> bool {
    forall|i: int| 0 <= i < rows.len() ==> agg_row_ok(aggs, cols, gp, #[trigger] rows[i])
}


/// The groups held as parallel lists of keys and member rows.
pub open spec fn groups_view(keys: Seq<Vec<Value>>, members: Seq<Vec<Row>>) -> Seq<Group> {
    Seq::new(keys.len(), |i: int| (crate::types::values_view(keys[i]@), rows_view(members[i]@)))
}

/// The positions of the GROUP BY columns that exist.
pub(crate) fn group_positions_exec(schema: &TableSchema, group_by: &Vec<String>) -> (r: Vec<usize>)
    ensures
        r@.map_values(|k: usize| idx(k)) == group_positions(schema@.columns, strings_view(group_by@)),
{
    let ghost names = strings_view(group_by@);
    let mut r: Vec<usize> = Vec::new();
    let mut j: usize = 0;
    assert(r@.map_values(|k: usize| idx(k)) =~= group_positions(schema@.columns, names.take(0)));
    while j < group_by.len()
        invariant
            j <= group_by@.len(),
            names == strings_view(group_by@),
            r@.map_values(|k: usize| idx(k)) == group_positions(schema@.columns, names.take(idx(j))),
        decreases group_by.len() - j,
    {
        proof {
            assert(names.take(idx(j) + 1).drop_last() =~= names.take(idx(j)));
            assert(names.take(idx(j) + 1).last() == group_by@[idx(j)]@);
        }
        match schema.col_index(group_by[j].as_str()) {
            Some(k) => {
                r.push(k);
                assert(r@.map_values(|k: usize| idx(k)) =~= group_positions(schema@.columns, names.take(idx(j) + 1)));
            },
            None => {},
        }
        j += 1;
    }
    assert(names.take(idx(j)) =~= names);
    r
}

/// The values of a row at some positions.
fn group_key(row: &Row, gpos: &Vec<usize>, gp: Ghost<Seq<int>>) -> (r: Vec<Value>)
    requires
        gpos@.map_values(|k: usize| idx(k)) == gp@,
        fits(gp@, row@),
    ensures
        crate::types::values_view(r@) == pick(row@, gp@),
{
    assert(row@.len() == row.values@.len());
    let mut r: Vec<Value> = Vec::new();
    let mut k: usize = 0;
    while k < gpos.len()
        invariant
            k <= gpos@.len(),
            gpos@.map_values(|k: usize| idx(k)) == gp@,
            fits(gp@, row@),
            row@.len() == row.values@.len(),
            r@.len() == k,
            forall|q: int| 0 <= q < k ==> r@[q]@ == row@[gp@[q]],
        decreases gpos.len() - k,
    {
        assert(gp@[idx(k)] == idx(gpos@[idx(k)]));
        assert(gp@[idx(k)] < row@.len());
        r.push(row.values[gpos[k]].copy());
        k += 1;
    }
    assert(crate::types::values_view(r@) =~= pick(row@, gp@));
    r
}

/// The position of the first key equal to `key`.
fn find_key(keys: &Vec<Vec<Value>>, key: &Vec<Value>, g: Ghost<Seq<Group>>) -> (r: Option<usize>)
    requires
        g@.len() == keys@.len(),
        forall|i: int| 0 <= i < keys@.len() ==> (#[trigger] g@[i]).0 == crate::types::values_view(keys@[i]@),
    ensures
        match r {
            Some(j) => find_group(g@, crate::types::values_view(key@), 0) == Some(idx(j)),
            None => find_group(g@, crate::types::values_view(key@), 0) is None,
        },
{
    let ghost kv = crate::types::values_view(key@);
    let mut j: usize = 0;
    while j < keys.len()
        invariant
            j <= keys@.len(),
            g@.len() == keys@.len(),
            kv == crate::types::values_view(key@),
            forall|i: int| 0 <= i < keys@.len() ==> (#[trigger] g@[i]).0 == crate::types::values_view(keys@[i]@),
            find_group(g@, kv, 0) == find_group(g@, kv, idx(j)),
        decreases keys.len() - j,
    {
        assert(g@[idx(j)].0 == crate::types::values_view(keys@[idx(j)]@));
        if keys_equal(&keys[j], key) {
            return Some(j);
        }
        j += 1;
    }
    None
}

/// The row of aggregate values for no input rows.
fn empty_aggregates(aggregates: &Vec<AggregateDef>) -> (r: Row)
    ensures
        r@ == empty_aggregate_row(aggs_view(aggregates@)),
{
    let mut values: Vec<Value> = Vec::new();
    let mut j: usize = 0;
    while j < aggregates.len()
        invariant
            j <= aggregates@.len(),
            values@.len() == j,
            forall|q: int| 0 <= q < j ==> values@[q]@ == (if aggregates@[q]@.function == "COUNT"@ {
                SValue::Integer(0)
            } else {
                SValue::Null
            }),
        decreases aggregates.len() - j,
    {
        if str_eq(aggregates[j].function.as_str(), "COUNT") {
            values.push(Value::Integer(0));
        } else {
            values.push(Value::Null);
        }
        j += 1;
    }
    let r = Row { values };
    assert(r@ =~= empty_aggregate_row(aggs_view(aggregates@)));
    r
}

/// Groups rows and computes the aggregates of each group.
pub fn execute_aggregate<F: FloatOps>(
    rows: &Vec<Row>,
    schema: &TableSchema,
    aggregates: &Vec<AggregateDef>,
    group_by: &Vec<String>,
    floats: &F,
) -> (r: Vec<Row>)
    requires
        aggregate_rows_ok(aggs_view(aggregates@), schema@.columns,
            group_positions(schema@.columns, strings_view(group_by@)), rows_view(rows@)),
    ensures
        rows@.len() == 0 ==> rows_view(r@) == seq![empty_aggregate_row(aggs_view(aggregates@))],
        rows@.len() > 0 ==> ({
            let g = groups_of(rows_view(rows@), group_positions(schema@.columns, strings_view(group_by@)));
            &&& r@.len() == g.len()
            &&& forall|i: int| 0 <= i < g.len() ==> group_row(aggs_view(aggregates@), schema@.columns, #[trigger] g[i], r@[i]@)
        }),
{
    if rows.len() == 0 {
        let r = vec![empty_aggregates(aggregates)];
        assert(rows_view(r@) =~= seq![empty_aggregate_row(aggs_view(aggregates@))]);
        return r;
    }
    let ghost cols = schema@.columns;
    let ghost av = aggs_view(aggregates@);
    let ghost rv = rows_view(rows@);
    let gpos = group_positions_exec(schema, group_by);
    let ghost gp = group_positions(cols, strings_view(group_by@));
    let mut keys: Vec<Vec<Value>> = Vec::new();
    let mut members: Vec<Vec<Row>> = Vec::new();
    let mut i: usize = 0;
    assert(groups_view(keys@, members@) =~= groups_of(rv.take(0), gp));
    while i < rows.len()
        invariant
            i <= rows@.len(),
            rv == rows_view(rows@),
            gpos@.map_values(|k: usize| idx(k)) == gp,
            aggregate_rows_ok(av, cols, gp, rv),
            keys@.len() == members@.len(),
            groups_view(keys@, members@) == groups_of(rv.take(idx(i)), gp),
            forall|a: int, b: int| 0 <= a < members@.len() && 0 <= b < members@[a]@.len()
                ==> agg_row_ok(av, cols, gp, #[trigger] members@[a]@[b]@),
        decreases rows.len() - i,
    {
        let row = &rows[i];
        assert(rv[idx(i)] == row@);
        assert(agg_row_ok(av, cols, gp, rv[idx(i)]));
        let key = group_key(row, &gpos, Ghost(gp));
        let ghost g = groups_view(keys@, members@);
        proof {
            assert(rv.take(idx(i) + 1).drop_last() =~= rv.take(idx(i)));
            assert(rv.take(idx(i) + 1).last() == row@);
        }
        match find_key(&keys, &key, Ghost(g)) {
            Some(j) => {
                proof { lemma_find_group(g, crate::types::values_view(key@), 0); }
                let ghost om = members@;
                let mut m = members.remove(j);
                m.push(row.copy());
                members.insert(j, m);
                proof {
                    assert(rows_view(m@) =~= g[idx(j)].1.push(row@));
                    assert(groups_view(keys@, members@) =~= g.update(idx(j), (g[idx(j)].0, g[idx(j)].1.push(row@))));
                    assert forall|a: int, b: int| 0 <= a < members@.len() && 0 <= b < members@[a]@.len()
                        implies agg_row_ok(av, cols, gp, #[trigger] members@[a]@[b]@) by {
                        if a != idx(j) {
                            assert(members@[a] == om[a]);
                        } else if b < om[a]@.len() {
                            assert(members@[a]@[b] == om[a]@[b]);
                        } else {
                            assert(members@[a]@[b]@ == row@);
                        }
                    }
                }
            },
            None => {
                let ghost kv = crate::types::values_view(key@);
                keys.push(key);
                let mut one: Vec<Row> = Vec::new();
                one.push(row.copy());
                assert(rows_view(one@) =~= seq![row@]);
                members.push(one);
                proof {
                    assert(groups_view(keys@, members@) =~= g.push((kv, seq![row@])));
                }
            },
        }
        i += 1;
    }
    assert(rv.take(idx(i)) =~= rv);
    let ghost g = groups_view(keys@, members@);
    assert(g.len() == keys@.len());
    let mut out: Vec<Row> = Vec::new();
    let mut q: usize = 0;
    while q < keys.len()
        invariant
            q <= keys@.len(),
            keys@.len() == members@.len(),
            g == groups_view(keys@, members@),
            out@.len() == q,
            forall|a: int, b: int| 0 <= a < members@.len() && 0 <= b < members@[a]@.len()
                ==> agg_row_ok(av, cols, gp, #[trigger] members@[a]@[b]@),
            av == aggs_view(aggregates@),
            cols == schema@.columns,
            forall|a: int| 0 <= a < q ==> group_row(av, cols, #[trigger] g[a], out@[a]@),
        decreases keys.len() - q,
    {
        let mut values = crate::types::copy_values(&keys[q]);
        let ghost kv = crate::types::values_view(keys@[idx(q)]@);
        let ghost mv = rows_view(members@[idx(q)]@);
        assert(g[idx(q)] == (kv, mv));
        let mut j: usize = 0;
        while j < aggregates.len()
            invariant
                j <= aggregates@.len(),
                q < keys@.len(),
                keys@.len() == members@.len(),
                av == aggs_view(aggregates@),
                cols == schema@.columns,
                mv == rows_view(members@[idx(q)]@),
                forall|b: int| 0 <= b < members@[idx(q)]@.len()
                    ==> agg_row_ok(av, cols, gp, #[trigger] members@[idx(q)]@[b]@),
                values@.len() == kv.len() + j,
                crate::types::values_view(values@).take(kv.len() as int) == kv,
                forall|c: int| 0 <= c < j ==> agg_result(#[trigger] av[c], cols, mv, values@[kv.len() + c]@),
            decreases aggregates.len() - j,
        {
            proof {
                assert forall|b: int| 0 <= b < mv.len() implies (agg_reads(av[idx(j)], cols) matches Some(p) ==> p < #[trigger] mv[b].len()) by {
                    assert(mv[b] == members@[idx(q)]@[b]@);
                    assert(agg_row_ok(av, cols, gp, members@[idx(q)]@[b]@));
                }
            }
            let v = compute_aggregate(&aggregates[j], &members[q], schema, floats);
            let ghost before = values@;
            values.push(v);
            proof {
                assert(crate::types::values_view(values@).take(kv.len() as int) =~= crate::types::values_view(before).take(kv.len() as int));
            }
            j += 1;
        }
        let nr = Row { values };
        assert(nr@.take(kv.len() as int) == kv);
        out.push(nr);
        q += 1;
    }
    out
}

} // verus!
