//! Conversion of inserted values to their columns' types.

use vstd::prelude::*;
use crate::types::{Value, SValue, ColumnType, FloatOps, spec_type_matches, type_matches, values_view};
use crate::schema::{TableSchema, SColumn};
use crate::float::{int_to_float, int_to_float_bits, float_to_int, float_bits_to_i64};
use crate::strutil::{chars_of, push_str};

verus! {

/// The microseconds since the Unix epoch of an RFC 3339 date-time, when the
/// text is one.
pub uninterp spec fn rfc3339_micros(s: Seq<char>) -> Option<i64>;

/// `chrono::DateTime::parse_from_rfc3339` followed by `timestamp_micros`.
#[verifier::external_body]
fn parse_rfc3339_micros(s: &str) -> (r: Option<i64>)
    ensures
        r == rfc3339_micros(s@),
{
    match chrono::DateTime::parse_from_rfc3339(s) {
        Ok(dt) => Some(dt.timestamp_micros()),
        Err(_) => None,
    }
}

/// The microseconds of an RFC 3339 date-time, when the text is one.
pub fn rfc3339_to_micros(s: &str) -> (r: Option<i64>)
    ensures
        r == rfc3339_micros(s@),
{
    parse_rfc3339_micros(s)
}

/// Whether a character is an ASCII digit.
pub open spec fn is_digit(c: char) -> bool {
    '0' <= c && c <= '9'
}

/// The value of a string of ASCII digits.
pub open spec fn digits_value(s: Seq<char>) -> int
    decreases s.len(),
{
    if s.len() == 0 {
        0
    } else {
        digits_value(s.drop_last()) * 10 + ((s.last() as int) - ('0' as int))
    }
}

/// What `str::parse::<i64>` gives: an optional `+` or `-`, then one or more
/// ASCII digits whose value fits in an `i64`.
pub open spec fn parse_i64_spec(s: Seq<char>) -> Option<i64> {
    let body = unsigned_part(s);
    if body.len() == 0 || !all_digits(body) {
        None
    } else {
        let v = if s.len() > 0 && s[0] == '-' { -digits_value(body) } else { digits_value(body) };
        if i64::MIN <= v <= i64::MAX { Some(v as i64) } else { None }
    }
}

/// A numeral without its leading sign, if it has one.
pub open spec fn unsigned_part(s: Seq<char>) -> Seq<char> {
    if s.len() > 0 && (s[0] == '+' || s[0] == '-') { s.subrange(1, s.len() as int) } else { s }
}

/// Whether every character is an ASCII digit.
pub open spec fn all_digits(s: Seq<char>) -> bool {
    forall|i: int| 0 <= i < s.len() ==> is_digit(#[trigger] s[i])
}

proof fn lemma_digits_value_nonneg(s: Seq<char>)
    requires
        forall|i: int| 0 <= i < s.len() ==> is_digit(#[trigger] s[i]),
    ensures
        digits_value(s) >= 0,
    decreases s.len(),
{
    if s.len() > 0 {
        assert forall|i: int| 0 <= i < s.drop_last().len() implies is_digit(#[trigger] s.drop_last()[i]) by {
            assert(s.drop_last()[i] == s[i]);
        }
        lemma_digits_value_nonneg(s.drop_last());
        assert(is_digit(s[s.len() - 1]));
    }
}

proof fn lemma_digits_value_grows(s: Seq<char>, k: int)
    requires
        0 <= k <= s.len(),
        forall|i: int| 0 <= i < s.len() ==> is_digit(#[trigger] s[i]),
    ensures
        digits_value(s.take(k)) <= digits_value(s),
    decreases s.len() - k,
{
    if k < s.len() {
        lemma_digits_value_grows(s, k + 1);
        assert(s.take(k + 1).drop_last() =~= s.take(k));
        assert(is_digit(s[k]));
        assert forall|i: int| 0 <= i < s.take(k).len() implies is_digit(#[trigger] s.take(k)[i]) by {
            assert(s.take(k)[i] == s[i]);
        }
        lemma_digits_value_nonneg(s.take(k));
    } else {
        assert(s.take(k) =~= s);
    }
}

/// `str::parse::<i64>`.
pub fn parse_i64(s: &str) -> (r: Option<i64>)
    ensures
        r == parse_i64_spec(s@),
{
    let v = chars_of(s);
    let n = v.len();
    let mut start: usize = 0;
    let mut neg = false;
    if n > 0 && (v[0] == '+' || v[0] == '-') {
        start = 1;
        neg = v[0] == '-';
    }
    let ghost body = if start == 1 { s@.subrange(1, s@.len() as int) } else { s@ };
    let ghost neg_spec = s@.len() > 0 && s@[0] == '-';
    assert(body == unsigned_part(s@));
    assert(neg == neg_spec);
    if start == n {
        return None;
    }
    // The magnitude of the digits read so far, which stays at most 2^63.
    let mut acc: u64 = 0;
    let mut i: usize = start;
    while i < n
        invariant
            start <= i <= n,
            n == v@.len(),
            v@ == s@,
            start == 0 || start == 1,
            start < n,
            body == s@.subrange(start as int, n as int),
            forall|j: int| 0 <= j < i - start ==> is_digit(#[trigger] body[j]),
            acc as int == digits_value(body.take(i - start)),
            acc <= 9223372036854775808u64,
            neg == (s@.len() > 0 && s@[0] == '-'),
            body == unsigned_part(s@),
        decreases n - i,
    {
        let c = v[i];
        proof {
            assert(body[i - start] == c);
            assert(body.take(i - start + 1).drop_last() =~= body.take(i - start));
        }
        if !('0' <= c && c <= '9') {
            assert(!is_digit(body[i - start]));
            return None;
        }
        let d = (c as u64) - ('0' as u64);
        if acc > (9223372036854775808u64 - d) / 10 {
            proof {
                assert(forall|j: int| 0 <= j < i - start + 1 ==> is_digit(#[trigger] body[j]));
                assert(acc * 10 + d > 9223372036854775808u64) by (nonlinear_arith)
                    requires acc > (9223372036854775808u64 - d) / 10, d <= 9;
                let k = i - start + 1;
                assert(body.take(k).last() == c);
                assert(digits_value(body.take(k)) == digits_value(body.take(k).drop_last()) * 10 + ((c as int) - ('0' as int)));
                assert(digits_value(body.take(k)) == acc * 10 + d);
                let rest_ok = forall|j: int| 0 <= j < body.len() ==> is_digit(#[trigger] body[j]);
                if rest_ok {
                    lemma_digits_value_grows(body, k);
                    assert(digits_value(body) > 9223372036854775808u64);
                }
            }
            return None;
        }
        acc = acc * 10 + d;
        i += 1;
    }
    proof {
        assert(body.take(i - start) =~= body);
    }
    if neg {
        if acc == 9223372036854775808u64 {
            Some(i64::MIN)
        } else {
            Some(-(acc as i64))
        }
    } else {
        if acc == 9223372036854775808u64 {
            None
        } else {
            Some(acc as i64)
        }
    }
}

/// What converting a value to a column type gives, for every case but text
/// to float (which the host parses): RFC 3339 text (or a date, read at
/// midnight UTC) to a timestamp, an integer to the nearest float, a float to
/// an integer (truncating, saturating), decimal text to an integer, and a
/// value that already has the type to itself.
pub open spec fn coerce_spec(t: ColumnType, v: SValue) -> Option<SValue> {
    match (t, v) {
        (ColumnType::Timestamp, SValue::Text(s)) => match rfc3339_micros(s) {
            Some(m) => Some(SValue::Timestamp(m)),
            None => match rfc3339_micros(s + "T00:00:00Z"@) {
                Some(m) => Some(SValue::Timestamp(m)),
                None => None,
            },
        },
        (ColumnType::Float, SValue::Integer(i)) => Some(SValue::Float(int_to_float(i as int) as u64)),
        (ColumnType::Integer, SValue::Float(f)) => Some(SValue::Integer(float_to_int(f) as i64)),
        (ColumnType::Integer, SValue::Text(s)) => match parse_i64_spec(s) {
            Some(n) => Some(SValue::Integer(n)),
            None => None,
        },
        _ => if spec_type_matches(t, v) { Some(v) } else { None },
    }
}

/// Whether `r` is what converting `v` to type `t` may give: `coerce_spec`,
/// except that text to float gives a float or nothing.
pub open spec fn coerce_ok(t: ColumnType, v: SValue, r: Option<SValue>) -> bool {
    if t == ColumnType::Float && v is Text {
        r is None || r matches Some(SValue::Float(_))
    } else {
        r == coerce_spec(t, v)
    }
}

impl Value {
    /// Converts the value to a column type, when it can be.
    pub fn coerce_for_type<F: FloatOps>(&self, target: &ColumnType, floats: &F) -> (r: Option<Value>)
        ensures
            coerce_ok(*target, self@, crate::sql::planner::opt_view(r)),
    {
        match (target, self) {
            (ColumnType::Timestamp, Value::Text(s)) => {
                if let Some(m) = parse_rfc3339_micros(s.as_str()) {
                    return Some(Value::Timestamp(m));
                }
                let mut t = s.clone();
                push_str(&mut t, "T00:00:00Z");
                if let Some(m) = parse_rfc3339_micros(t.as_str()) {
                    return Some(Value::Timestamp(m));
                }
                None
            },
            (ColumnType::Float, Value::Integer(i)) => Some(Value::Float(int_to_float_bits(*i))),
            (ColumnType::Integer, Value::Float(f)) => Some(Value::Integer(float_bits_to_i64(*f))),
            (ColumnType::Integer, Value::Text(s)) => match parse_i64(s.as_str()) {
                Some(n) => Some(Value::Integer(n)),
                None => None,
            },
            (ColumnType::Float, Value::Text(s)) => match floats.parse(s.as_str()) {
                Some(b) => Some(Value::Float(b)),
                None => None,
            },
            _ => if type_matches(target, self) { Some(self.copy()) } else { None },
        }
    }
}

/// Whether `out` is a value `v` may become in a column of type `t`: NULL stays,
/// a value that converts becomes the converted value, any other stays.
pub open spec fn cell_coerced(t: ColumnType, v: SValue, out: SValue) -> bool {
    if v is Null {
        out == v
    } else {
        exists|r: Option<SValue>| #[trigger] coerce_ok(t, v, r) && out == match r {
            Some(c) => c,
            None => v,
        }
    }
}

/// Whether `out` is `vals` with each value converted to its column's type
/// (values past the last column stay as they are).
pub open spec fn row_coerced(cols: Seq<SColumn>, vals: Seq<SValue>, out: Seq<SValue>) -> bool {
    &&& out.len() == vals.len()
    &&& forall|i: int| 0 <= i < vals.len() ==> if i < cols.len() {
            cell_coerced(cols[i].col_type, vals[i], #[trigger] out[i])
        } else {
            out[i] == vals[i]
        }
}

/// Converts each value to its column's type where it can.
pub fn coerce_row_values<F: FloatOps>(schema: &TableSchema, values: &Vec<Value>, floats: &F) -> (r: Vec<Value>)
    ensures
        row_coerced(schema@.columns, values_view(values@), values_view(r@)),
{
    let ghost cols = schema@.columns;
    let ghost vv = values_view(values@);
    let mut out: Vec<Value> = Vec::new();
    let mut i: usize = 0;
    while i < values.len()
        invariant
            i <= values@.len(),
            cols == schema@.columns,
            vv == values_view(values@),
            out@.len() == i,
            forall|j: int| 0 <= j < i ==> if j < cols.len() {
                cell_coerced(cols[j].col_type, vv[j], #[trigger] out@[j]@)
            } else {
                out@[j]@ == vv[j]
            },
        decreases values.len() - i,
    {
        let v = &values[i];
        assert(vv[i as int] == v@);
        if i < schema.columns.len() && !v.is_null() {
            let t = schema.columns[i].col_type;
            assert(cols[i as int].col_type == t);
            let c = v.coerce_for_type(&t, floats);
            let ghost cv = crate::sql::planner::opt_view(c);
            match c {
                Some(x) => {
                    out.push(x);
                },
                None => {
                    out.push(v.copy());
                },
            }
            assert(coerce_ok(t, v@, cv));
        } else {
            out.push(v.copy());
        }
        i += 1;
    }
    assert(values_view(out@) =~= values_view(out@));
    assert forall|j: int| 0 <= j < vv.len() implies (if j < cols.len() {
        cell_coerced(cols[j].col_type, vv[j], #[trigger] values_view(out@)[j])
    } else {
        values_view(out@)[j] == vv[j]
    }) by {
        assert(values_view(out@)[j] == out@[j]@);
    }
    out
}

/// What `str::parse::<usize>` gives: an optional `+`, then one or more
/// ASCII digits whose value fits in a `usize`.
pub open spec fn parse_usize_spec(s: Seq<char>) -> Option<usize> {
    if plus_stripped(s).len() == 0 || !all_digits(plus_stripped(s)) || digits_value(plus_stripped(s)) > usize::MAX {
        None
    } else {
        Some(digits_value(plus_stripped(s)) as usize)
    }
}

/// A numeral without its leading `+`, if it has one.
pub open spec fn plus_stripped(s: Seq<char>) -> Seq<char> {
    if s.len() > 0 && s[0] == '+' { s.subrange(1, s.len() as int) } else { s }
}

/// `str::parse::<usize>`.
pub fn parse_usize(s: &str) -> (r: Option<usize>)
    ensures
        r == parse_usize_spec(s@),
{
    let v = chars_of(s);
    let n = v.len();
    let mut start: usize = 0;
    if n > 0 && v[0] == '+' {
        start = 1;
    }
    let ghost body = if start == 1 { s@.subrange(1, s@.len() as int) } else { s@ };
    assert(body == plus_stripped(s@));
    if start == n {
        return None;
    }
    let mut acc: usize = 0;
    let mut i: usize = start;
    while i < n
        invariant
            start <= i <= n,
            n == v@.len(),
            v@ == s@,
            start == 0 || start == 1,
            start < n,
            body == s@.subrange(start as int, n as int),
            forall|j: int| 0 <= j < i - start ==> is_digit(#[trigger] body[j]),
            acc as int == digits_value(body.take(i - start)),
            body == plus_stripped(s@),
        decreases n - i,
    {
        let c = v[i];
        proof {
            assert(body[i - start] == c);
            assert(body.take(i - start + 1).drop_last() =~= body.take(i - start));
        }
        if !('0' <= c && c <= '9') {
            assert(!is_digit(body[i - start]));
            return None;
        }
        let d = (c as usize) - ('0' as usize);
        if acc > (usize::MAX - d) / 10 {
            proof {
                let k = i - start + 1;
                assert(body.take(k).last() == c);
                assert(digits_value(body.take(k)) == digits_value(body.take(k).drop_last()) * 10 + ((c as int) - ('0' as int)));
                assert(acc * 10 + d > usize::MAX) by (nonlinear_arith)
                    requires acc > (usize::MAX - d) / 10, d <= 9;
                if all_digits(body) {
                    lemma_digits_value_grows(body, k);
                }
            }
            return None;
        }
        acc = acc * 10 + d;
        i += 1;
    }
    proof {
        assert(body.take(i - start) =~= body);
    }
    Some(acc)
}

} // verus!
