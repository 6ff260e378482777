//! Operations on lists of rows: filtering, projection, sorting and paging.

use vstd::prelude::*;
use std::cmp::Ordering;
use crate::types::{Value, SValue, Row};
use crate::schema::{TableSchema, SColumn, col_pos};
use crate::sql::ast::{WhereClause, SWhere, OrderBy, OrderByItem, order_view, strings_view};
use crate::sql::predicate::{pred_ok, eval_pred, evaluate_predicate};
use crate::sql::compare::compare_order;
use crate::sql::order::{compare_values, is_eq, is_gt};
use crate::sql::laws::{reverse_order, lemma_compare_antisymmetric};
use crate::sql::rank::idx;

verus! {


/// The views of a list of rows.
pub open spec fn rows_view(rows: Seq<Row>) -> Seq<Seq<SValue>> {
    rows.map_values(|r: Row| r@)
}

/// Whether a condition can be evaluated on every row.
pub open spec fn pred_ok_all(p: SWhere, cols: Seq<SColumn>, rows: Seq<Seq<SValue>>) -> bool {
    forall|i: int| 0 <= i < rows.len() ==> pred_ok(p, cols, #[trigger] rows[i].len())
}

/// The rows that satisfy a condition, in order.
pub open spec fn filter_spec(p: SWhere, cols: Seq<SColumn>, rows: Seq<Seq<SValue>>) -> Seq<Seq<SValue>> {
    rows.filter(|r: Seq<SValue>| eval_pred(p, cols, r))
}

/// Keeps the rows that satisfy a condition.
pub fn filter_rows(rows: Vec<Row>, pred: &WhereClause, schema: &TableSchema) -> (r: Vec<Row>)
    requires
        pred_ok_all(pred@, schema@.columns, rows_view(rows@)),
    ensures
        rows_view(r@) == filter_spec(pred@, schema@.columns, rows_view(rows@)),
{
    let ghost rv = rows_view(rows@);
    let ghost f = |r: Seq<SValue>| eval_pred(pred@, schema@.columns, r);
    let mut out: Vec<Row> = Vec::new();
    let mut i: usize = 0;
    while i < rows.len()
        invariant
            i <= rows@.len(),
            rv == rows_view(rows@),
            f == (|r: Seq<SValue>| eval_pred(pred@, schema@.columns, r)),
            pred_ok_all(pred@, schema@.columns, rv),
            rows_view(out@) == rv.take(idx(i)).filter(f),
        decreases rows.len() - i,
    {
        let row = &rows[i];
        assert(rv[idx(i)] == row@);
        let keep = evaluate_predicate(pred, row, schema);
        proof {
            reveal_with_fuel(Seq::<_>::filter, 1);
            assert(rv.take(idx(i) + 1).drop_last() =~= rv.take(idx(i)));
            reveal(stable_sorted);
        }
        if keep {
            out.push(row.copy());
            assert(rows_view(out@) =~= rv.take(idx(i) + 1).filter(f));
        }
        i += 1;
    }
    assert(rv.take(idx(i)) =~= rv);
    out
}

/// The position of a named column, or 0 when there is none.
pub open spec fn pos_or_zero(cols: Seq<SColumn>, name: Seq<char>) -> int {
    match col_pos(cols, name) {
        Some(k) => k,
        None => 0,
    }
}

/// The positions a projection reads.
pub open spec fn projection_positions(cols: Seq<SColumn>, names: Seq<Seq<char>>) -> Seq<int> {
    names.map_values(|n: Seq<char>| pos_or_zero(cols, n))
}

/// Whether a row is long enough for the positions.
pub open spec fn fits(pos: Seq<int>, row: Seq<SValue>) -> bool {
    forall|j: int| 0 <= j < pos.len() ==> #[trigger] pos[j] < row.len()
}

/// Whether every row is long enough for the positions.
pub open spec fn positions_ok(pos: Seq<int>, rows: Seq<Seq<SValue>>) -> bool {
    forall|i: int| 0 <= i < rows.len() ==> fits(pos, #[trigger] rows[i])
}

/// A row reduced to the values at some positions.
pub open spec fn pick(row: Seq<SValue>, pos: Seq<int>) -> Seq<SValue> {
    pos.map_values(|k: int| row[k])
}

/// The position of a named column, or 0.
fn position_or_zero(schema: &TableSchema, name: &String) -> (r: usize)
    ensures
        idx(r) == pos_or_zero(schema@.columns, name@),
{
    match schema.col_index(name.as_str()) {
        Some(k) => k,
        None => 0,
    }
}

/// Each row reduced to the positions of the named columns.
pub open spec fn project_spec(rows: Seq<Seq<SValue>>, cols: Seq<SColumn>, names: Seq<Seq<char>>) -> Seq<Seq<SValue>> {
    rows.map_values(|row: Seq<SValue>| pick(row, projection_positions(cols, names)))
}

/// Reduces each row to the named columns (a missing name reads column 0).
pub fn project_rows(rows: Vec<Row>, columns: &Vec<String>, schema: &TableSchema) -> (r: Vec<Row>)
    requires
        positions_ok(projection_positions(schema@.columns, strings_view(columns@)), rows_view(rows@)),
    ensures
        rows_view(r@) == project_spec(rows_view(rows@), schema@.columns, strings_view(columns@)),
{
    let ghost pos = projection_positions(schema@.columns, strings_view(columns@));
    let mut indices: Vec<usize> = Vec::new();
    let mut j: usize = 0;
    while j < columns.len()
        invariant
            j <= columns@.len(),
            pos == projection_positions(schema@.columns, strings_view(columns@)),
            indices@.len() == j,
            forall|k: int| 0 <= k < j ==> idx(indices@[k]) == pos[k],
        decreases columns.len() - j,
    {
        indices.push(position_or_zero(schema, &columns[j]));
        j += 1;
    }
    let mut out: Vec<Row> = Vec::new();
    let mut i: usize = 0;
    while i < rows.len()
        invariant
            i <= rows@.len(),
            pos == projection_positions(schema@.columns, strings_view(columns@)),
            positions_ok(pos, rows_view(rows@)),
            indices@.len() == pos.len(),
            forall|k: int| 0 <= k < pos.len() ==> idx(indices@[k]) == pos[k],
            out@.len() == i,
            forall|k: int| 0 <= k < i ==> out@[k]@ == pick(rows@[k]@, pos),
        decreases rows.len() - i,
    {
        let row = &rows[i];
        assert(rows_view(rows@)[idx(i)] == row@);
        assert forall|q: int| 0 <= q < pos.len() implies pos[q] < row@.len() by {
            assert(pos[q] < rows_view(rows@)[idx(i)].len());
        }
        assert(row@.len() == row.values@.len());
        let mut vals: Vec<Value> = Vec::new();
        let mut k: usize = 0;
        while k < indices.len()
            invariant
                k <= indices@.len(),
                indices@.len() == pos.len(),
                forall|q: int| 0 <= q < pos.len() ==> idx(indices@[q]) == pos[q],
                forall|q: int| 0 <= q < pos.len() ==> pos[q] < row@.len(),
                row@.len() == row.values@.len(),
                vals@.len() == k,
                forall|q: int| 0 <= q < k ==> vals@[q]@ == row@[pos[q]],
            decreases indices.len() - k,
        {
            assert(idx(indices@[idx(k)]) == pos[idx(k)]);
            assert(pos[idx(k)] < row@.len());
            vals.push(row.values[indices[k]].copy());
            k += 1;
        }
        let nr = Row { values: vals };
        assert(nr@ =~= pick(row@, pos));
        out.push(nr);
        i += 1;
    }
    assert(rows_view(out@) =~= project_spec(rows_view(rows@), schema@.columns, strings_view(columns@)));
    out
}

/// The rows from position `offset` on, at most `limit` of them.
pub open spec fn page(rows: Seq<Seq<SValue>>, limit: usize, offset: usize) -> Seq<Seq<SValue>> {
    if offset >= rows.len() {
        Seq::empty()
    } else {
        let rest = rows.skip(offset as int);
        if limit >= rest.len() { rest } else { rest.take(limit as int) }
    }
}

/// Skips `offset` rows and keeps at most `limit` of the rest.
pub fn limit_rows(rows: Vec<Row>, limit: usize, offset: usize) -> (r: Vec<Row>)
    ensures
        rows_view(r@) == page(rows_view(rows@), limit, offset),
{
    let mut out: Vec<Row> = Vec::new();
    let mut i = offset;
    let ghost rv = rows_view(rows@);
    if offset >= rows.len() {
        return out;
    }
    while i < rows.len() && out.len() < limit
        invariant
            offset <= i <= rows@.len(),
            offset < rows@.len(),
            rv == rows_view(rows@),
            out@.len() == i - offset,
            out@.len() <= limit,
            rows_view(out@) == rv.subrange(offset as int, i as int),
        decreases rows.len() - i,
    {
        out.push(rows[i].copy());
        i += 1;
        assert(rows_view(out@) =~= rv.subrange(offset as int, i as int));
    }
    assert(rows_view(out@) =~= page(rv, limit, offset));
    out
}

/// How two rows compare under the ORDER BY keys from `k` on: the first key on
/// which they differ decides, reversed for a descending key.
pub open spec fn sort_order_from(keys: Seq<(Seq<char>, bool)>, cols: Seq<SColumn>, a: Seq<SValue>, b: Seq<SValue>, k: int) -> Ordering
    decreases keys.len() - k,
{
    if k < 0 || k >= keys.len() {
        Ordering::Equal
    } else {
        let p = pos_or_zero(cols, keys[k].0);
        let c = compare_order(a[p], b[p]);
        if c != Ordering::Equal {
            if keys[k].1 { c } else { reverse_order(c) }
        } else {
            sort_order_from(keys, cols, a, b, k + 1)
        }
    }
}

/// How two rows compare under ORDER BY keys.
#[verifier::opaque]
pub open spec fn sort_order(keys: Seq<(Seq<char>, bool)>, cols: Seq<SColumn>, a: Seq<SValue>, b: Seq<SValue>) -> Ordering {
    sort_order_from(keys, cols, a, b, 0)
}

/// Whether every adjacent pair is in order.
pub open spec fn adjacent_sorted(keys: Seq<(Seq<char>, bool)>, cols: Seq<SColumn>, rows: Seq<Seq<SValue>>) -> bool {
    forall|i: int| 0 <= i < rows.len() - 1 ==> sort_order(keys, cols, #[trigger] rows[i], rows[i + 1]) != Ordering::Greater
}

/// The positions the ORDER BY keys read.
pub open spec fn sort_positions(keys: Seq<(Seq<char>, bool)>, cols: Seq<SColumn>) -> Seq<int> {
    keys.map_values(|k: (Seq<char>, bool)| pos_or_zero(cols, k.0))
}

proof fn lemma_sort_order_antisymmetric(keys: Seq<(Seq<char>, bool)>, cols: Seq<SColumn>, a: Seq<SValue>, b: Seq<SValue>, k: int)
    ensures
        sort_order_from(keys, cols, a, b, k) == reverse_order(sort_order_from(keys, cols, b, a, k)),
    decreases keys.len() - k,
{
    if 0 <= k < keys.len() {
        let p = pos_or_zero(cols, keys[k].0);
        lemma_compare_antisymmetric(a[p], b[p]);
        lemma_sort_order_antisymmetric(keys, cols, a, b, k + 1);
    }
}

proof fn lemma_sort_order_reverse(keys: Seq<(Seq<char>, bool)>, cols: Seq<SColumn>, a: Seq<SValue>, b: Seq<SValue>)
    ensures
        sort_order(keys, cols, a, b) == reverse_order(sort_order(keys, cols, b, a)),
{
    reveal(sort_order);
    lemma_sort_order_antisymmetric(keys, cols, a, b, 0);
}

/// How two rows compare under ORDER BY keys.
fn compare_rows(keys: &Vec<(usize, bool)>, a: &Row, b: &Row, ghost_keys: Ghost<Seq<(Seq<char>, bool)>>, ghost_cols: Ghost<Seq<SColumn>>) -> (o: Ordering)
    requires
        keys@.len() == ghost_keys@.len(),
        forall|q: int| 0 <= q < keys@.len() ==> idx(keys@[q].0) == pos_or_zero(ghost_cols@, ghost_keys@[q].0)
            && keys@[q].1 == ghost_keys@[q].1,
        forall|q: int| 0 <= q < keys@.len() ==> keys@[q].0 < a@.len() && keys@[q].0 < b@.len(),
    ensures
        o == sort_order(ghost_keys@, ghost_cols@, a@, b@),
{
    reveal(sort_order);
    let mut k: usize = 0;
    while k < keys.len()
        invariant
            k <= keys@.len(),
            keys@.len() == ghost_keys@.len(),
            forall|q: int| 0 <= q < keys@.len() ==> idx(keys@[q].0) == pos_or_zero(ghost_cols@, ghost_keys@[q].0)
                && keys@[q].1 == ghost_keys@[q].1,
            forall|q: int| 0 <= q < keys@.len() ==> keys@[q].0 < a@.len() && keys@[q].0 < b@.len(),
            sort_order(ghost_keys@, ghost_cols@, a@, b@) == sort_order_from(ghost_keys@, ghost_cols@, a@, b@, idx(k)),
        decreases keys.len() - k,
    {
        let (p, asc) = keys[k];
        let c = compare_values(&a.values[p], &b.values[p]);
        if !is_eq(c) {
            return if asc { c } else {
                match c {
                    Ordering::Less => Ordering::Greater,
                    Ordering::Greater => Ordering::Less,
                    Ordering::Equal => Ordering::Equal,
                }
            };
        }
        k += 1;
    }
    Ordering::Equal
}

/// `x` put into sorted rows after the rows it does not precede: past every
/// row from the end that orders after it.
pub open spec fn sorted_insert(keys: Seq<(Seq<char>, bool)>, cols: Seq<SColumn>, rows: Seq<Seq<SValue>>, x: Seq<SValue>) -> Seq<Seq<SValue>>
    decreases rows.len(),
{
    if rows.len() == 0 {
        seq![x]
    } else if sort_order(keys, cols, rows.last(), x) == Ordering::Greater {
        sorted_insert(keys, cols, rows.drop_last(), x).push(rows.last())
    } else {
        rows.push(x)
    }
}

/// The stable sort of rows: each row in turn put after the rows before it
/// that it does not precede, so rows that order equal keep their order.
#[verifier::opaque]
pub open spec fn stable_sorted(keys: Seq<(Seq<char>, bool)>, cols: Seq<SColumn>, rows: Seq<Seq<SValue>>) -> Seq<Seq<SValue>>
    decreases rows.len(),
{
    if rows.len() == 0 {
        Seq::empty()
    } else {
        sorted_insert(keys, cols, stable_sorted(keys, cols, rows.drop_last()), rows.last())
    }
}

/// Sorting keeps the rows: the stable sort holds the same rows.
pub proof fn lemma_stable_sorted_items(keys: Seq<(Seq<char>, bool)>, cols: Seq<SColumn>, rows: Seq<Seq<SValue>>)
    ensures
        stable_sorted(keys, cols, rows).to_multiset() == rows.to_multiset(),
    decreases rows.len(),
{
    reveal(stable_sorted);
    if rows.len() > 0 {
        lemma_stable_sorted_items(keys, cols, rows.drop_last());
        lemma_sorted_insert_items(keys, cols, stable_sorted(keys, cols, rows.drop_last()), rows.last());
        assert(rows =~= rows.drop_last().push(rows.last()));
        vstd::seq_lib::to_multiset_build(rows.drop_last(), rows.last());
    } else {
        assert(stable_sorted(keys, cols, rows) =~= rows);
    }
}

/// Putting a row into sorted rows adds it to their items.
proof fn lemma_sorted_insert_items(keys: Seq<(Seq<char>, bool)>, cols: Seq<SColumn>, rows: Seq<Seq<SValue>>, x: Seq<SValue>)
    ensures
        sorted_insert(keys, cols, rows, x).to_multiset() == rows.to_multiset().insert(x),
    decreases rows.len(),
{
    reveal(sorted_insert);
    if rows.len() == 0 {
        vstd::seq_lib::to_multiset_build(rows, x);
        assert(rows.push(x) =~= seq![x]);
    } else if sort_order(keys, cols, rows.last(), x) == Ordering::Greater {
        lemma_sorted_insert_items(keys, cols, rows.drop_last(), x);
        let s = sorted_insert(keys, cols, rows.drop_last(), x);
        vstd::seq_lib::to_multiset_build(s, rows.last());
        vstd::seq_lib::to_multiset_build(rows.drop_last(), rows.last());
        assert(rows =~= rows.drop_last().push(rows.last()));
        assert(s.push(rows.last()).to_multiset() =~= rows.to_multiset().insert(x));
    } else {
        vstd::seq_lib::to_multiset_build(rows, x);
    }
}

/// Inserting where every later row orders after `x`, and the row before does
/// not, is `sorted_insert`.
proof fn lemma_sorted_insert_at(keys: Seq<(Seq<char>, bool)>, cols: Seq<SColumn>, ov: Seq<Seq<SValue>>, x: Seq<SValue>, j: int)
    requires
        0 <= j <= ov.len(),
        forall|q: int| j <= q < ov.len() ==> sort_order(keys, cols, #[trigger] ov[q], x) == Ordering::Greater,
        j == 0 || sort_order(keys, cols, ov[j - 1], x) != Ordering::Greater,
    ensures
        sorted_insert(keys, cols, ov, x) == ov.insert(j, x),
    decreases ov.len(),
{
    reveal(sorted_insert);
    if ov.len() == 0 {
        assert(ov.insert(j, x) =~= seq![x]);
    } else if j == ov.len() {
        assert(ov.insert(j, x) =~= ov.push(x));
    } else {
        let d = ov.drop_last();
        assert forall|q: int| j <= q < d.len() implies sort_order(keys, cols, #[trigger] d[q], x) == Ordering::Greater by {
            assert(d[q] == ov[q]);
        }
        if j > 0 {
            assert(d[j - 1] == ov[j - 1]);
        }
        assert(sort_order(keys, cols, ov[ov.len() - 1], x) == Ordering::Greater);
        lemma_sorted_insert_at(keys, cols, d, x, j);
        assert(d.insert(j, x).push(ov.last()) =~= ov.insert(j, x));
    }
}

/// Sorts rows by ORDER BY keys (a stable insertion sort).  The result holds
/// the same rows, every adjacent pair in order, and rows that order equal
/// keep their order.
#[verifier::rlimit(60)]
pub fn sort_rows(rows: Vec<Row>, order_by: &OrderBy, schema: &TableSchema) -> (r: Vec<Row>)
    requires
        positions_ok(sort_positions(order_view(*order_by), schema@.columns), rows_view(rows@)),
    ensures
        rows_view(r@) == stable_sorted(order_view(*order_by), schema@.columns, rows_view(rows@)),
        rows_view(r@).to_multiset() == rows_view(rows@).to_multiset(),
        adjacent_sorted(order_view(*order_by), schema@.columns, rows_view(r@)),
{
    let ghost keys = order_view(*order_by);
    let ghost cols = schema@.columns;
    let ghost pos = sort_positions(keys, cols);
    let mut kv: Vec<(usize, bool)> = Vec::new();
    let mut j: usize = 0;
    while j < order_by.items.len()
        invariant
            j <= order_by.items@.len(),
            keys == order_view(*order_by),
            cols == schema@.columns,
            kv@.len() == j,
            forall|q: int| 0 <= q < j ==> idx(kv@[q].0) == pos_or_zero(cols, keys[q].0) && kv@[q].1 == keys[q].1,
        decreases order_by.items.len() - j,
    {
        let it: &OrderByItem = &order_by.items[j];
        kv.push((position_or_zero(schema, &it.column), it.ascending));
        j += 1;
    }
    let ghost rv = rows_view(rows@);
    let mut out: Vec<Row> = Vec::new();
    let mut i: usize = 0;
    assert(rows_view(out@) =~= rv.take(0));
    proof {
        reveal(stable_sorted);
    }
    while i < rows.len()
        invariant
            i <= rows@.len(),
            rv == rows_view(rows@),
            keys == order_view(*order_by),
            cols == schema@.columns,
            pos == sort_positions(keys, cols),
            positions_ok(pos, rv),
            kv@.len() == keys.len(),
            forall|q: int| 0 <= q < kv@.len() ==> idx(kv@[q].0) == pos_or_zero(cols, keys[q].0) && kv@[q].1 == keys[q].1,
            rows_view(out@).to_multiset() == rv.take(idx(i)).to_multiset(),
            rows_view(out@) == stable_sorted(keys, cols, rv.take(idx(i))),
            adjacent_sorted(keys, cols, rows_view(out@)),
            positions_ok(pos, rows_view(out@)),
        decreases rows.len() - i,
    {
        let x = rows[i].copy();
        assert(rv[idx(i)] == x@);
        let ghost ov = rows_view(out@);
        insert_sorted(&mut out, x, &kv, Ghost(keys), Ghost(cols));
        proof {
            assert(rv.take(idx(i) + 1) =~= rv.take(idx(i)).push(rv[idx(i)]));
            assert(rv.take(idx(i) + 1).drop_last() =~= rv.take(idx(i)));
            reveal(stable_sorted);
            vstd::seq_lib::to_multiset_build(rv.take(idx(i)), rv[idx(i)]);
        }
        i += 1;
    }
    assert(rv.take(idx(i)) =~= rv);
    out
}

/// Inserts a row into a sorted list after the rows it does not precede.
#[verifier::rlimit(60)]
fn insert_sorted(out: &mut Vec<Row>, x: Row, kv: &Vec<(usize, bool)>, keys: Ghost<Seq<(Seq<char>, bool)>>, cols: Ghost<Seq<SColumn>>)
    requires
        kv@.len() == keys@.len(),
        forall|q: int| 0 <= q < kv@.len() ==> idx(kv@[q].0) == pos_or_zero(cols@, keys@[q].0) && kv@[q].1 == keys@[q].1,
        adjacent_sorted(keys@, cols@, rows_view(old(out)@)),
        positions_ok(sort_positions(keys@, cols@), rows_view(old(out)@)),
        fits(sort_positions(keys@, cols@), x@),
    ensures
        rows_view(final(out)@) == sorted_insert(keys@, cols@, rows_view(old(out)@), x@),
        rows_view(final(out)@).to_multiset() == rows_view(old(out)@).to_multiset().insert(x@),
        adjacent_sorted(keys@, cols@, rows_view(final(out)@)),
        positions_ok(sort_positions(keys@, cols@), rows_view(final(out)@)),
{
    let ghost ov = rows_view(out@);
    let ghost pos = sort_positions(keys@, cols@);
    let mut j = out.len();
    while j > 0
        invariant_except_break
            forall|q: int| j <= q < ov.len() ==> sort_order(keys@, cols@, #[trigger] ov[q], x@) == Ordering::Greater,
        invariant
            j <= out@.len(),
            ov == rows_view(out@),
            ov == rows_view(old(out)@),
            pos == sort_positions(keys@, cols@),
            kv@.len() == keys@.len(),
            forall|q: int| 0 <= q < kv@.len() ==> idx(kv@[q].0) == pos_or_zero(cols@, keys@[q].0) && kv@[q].1 == keys@[q].1,
            positions_ok(pos, ov),
            fits(pos, x@),
        ensures
            forall|q: int| j <= q < ov.len() ==> sort_order(keys@, cols@, #[trigger] ov[q], x@) == Ordering::Greater,
            j == 0 || sort_order(keys@, cols@, ov[j - 1], x@) != Ordering::Greater,
        decreases j,
    {
        let prev = &out[j - 1];
        assert(ov[j - 1] == prev@);
        assert forall|q: int| 0 <= q < kv@.len() implies kv@[q].0 < prev@.len() && kv@[q].0 < x@.len() by {
            assert(pos[q] < ov[j - 1].len());
        }
        let c = compare_rows(kv, prev, &x, keys, cols);
        if !is_gt(c) {
            break;
        }
        j -= 1;
    }
    proof {
        if j < ov.len() {
            lemma_sort_order_reverse(keys@, cols@, x@, ov[idx(j)]);
        }
    }
    out.insert(j, x);
    proof {
        assert(rows_view(out@) =~= ov.insert(idx(j), x@));
        lemma_insert_keeps_sorted(ov, x@, idx(j), keys@, cols@);
        lemma_sorted_insert_at(keys@, cols@, ov, x@, idx(j));
    }
}

proof fn lemma_insert_keeps_sorted(ov: Seq<Seq<SValue>>, x: Seq<SValue>, j: int, keys: Seq<(Seq<char>, bool)>, cols: Seq<SColumn>)
    requires
        0 <= j <= ov.len(),
        adjacent_sorted(keys, cols, ov),
        positions_ok(sort_positions(keys, cols), ov),
        fits(sort_positions(keys, cols), x),
        j == 0 || sort_order(keys, cols, ov[j - 1], x) != Ordering::Greater,
        j < ov.len() ==> sort_order(keys, cols, x, ov[j]) != Ordering::Greater,
    ensures
        adjacent_sorted(keys, cols, ov.insert(j, x)),
        positions_ok(sort_positions(keys, cols), ov.insert(j, x)),
        ov.insert(j, x).to_multiset() == ov.to_multiset().insert(x),
{
    vstd::seq_lib::to_multiset_insert(ov, j, x);
    lemma_insert_adjacent(ov, x, j, keys, cols);
    lemma_insert_fits(ov, x, j, sort_positions(keys, cols));
}

#[verifier::rlimit(20)]
proof fn lemma_insert_adjacent(ov: Seq<Seq<SValue>>, x: Seq<SValue>, j: int, keys: Seq<(Seq<char>, bool)>, cols: Seq<SColumn>)
    requires
        0 <= j <= ov.len(),
        adjacent_sorted(keys, cols, ov),
        j == 0 || sort_order(keys, cols, ov[j - 1], x) != Ordering::Greater,
        j < ov.len() ==> sort_order(keys, cols, x, ov[j]) != Ordering::Greater,
    ensures
        adjacent_sorted(keys, cols, ov.insert(j, x)),
{
    let nv = ov.insert(j, x);
    assert forall|q: int| 0 <= q < nv.len() - 1 implies sort_order(keys, cols, #[trigger] nv[q], nv[q + 1]) != Ordering::Greater by {
        if q < j - 1 {
            assert(nv[q] == ov[q] && nv[q + 1] == ov[q + 1]);
        } else if q == j - 1 {
            assert(nv[q] == ov[q] && nv[q + 1] == x);
        } else if q == j {
            assert(nv[q] == x && nv[q + 1] == ov[q]);
        } else {
            assert(nv[q] == ov[q - 1] && nv[q + 1] == ov[q]);
            assert(sort_order(keys, cols, ov[q - 1], ov[q - 1 + 1]) != Ordering::Greater);
        }
    }
}

proof fn lemma_insert_fits(ov: Seq<Seq<SValue>>, x: Seq<SValue>, j: int, pos: Seq<int>)
    requires
        0 <= j <= ov.len(),
        positions_ok(pos, ov),
        fits(pos, x),
    ensures
        positions_ok(pos, ov.insert(j, x)),
{
    let nv = ov.insert(j, x);
    assert forall|a: int| 0 <= a < nv.len() implies fits(pos, #[trigger] nv[a]) by {
        if a < j {
            assert(nv[a] == ov[a]);
        } else if a > j {
            assert(nv[a] == ov[a - 1]);
        }
    }
}

} // verus!
