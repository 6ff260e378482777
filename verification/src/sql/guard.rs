//! Whether a statement can run on the stored rows without reading past the
//! end of a row.
//!
//! Rows written before an `ALTER TABLE ... ADD COLUMN` are shorter than the
//! schema, and an aggregate yields rows of its own length that later nodes
//! still read by schema position.  Running a statement that reads a position a
//! row lacks is an error of the caller; the analysis here tells beforehand.

use vstd::prelude::*;
use crate::types::{SValue, Row};
use crate::schema::{SColumn, TableSchema};
use crate::strutil::str_eq;
use crate::sql::rank::idx;
use crate::sql::ast::{WhereClause, OrderBy, AggregateDef, order_view, aggs_view, strings_view};
use crate::sql::rows::{rows_view, pred_ok_all};
use crate::sql::predicate::{evaluate_predicate, eval_pred};
use crate::sql::aggregate::group_positions_exec;
use crate::types::{Value, FloatOps};
use crate::schema::{IndexDef, col_pos, pk_pos, entries_view};
use crate::error::RustMinidbError;
use crate::storage::engine::SIndex;
use crate::sql::ast::SqlStatement;
use crate::sql::planner::{PlanNode, plan_of};
use crate::sql::executor::{Executor, statement_safe, table_indexes, pk_fits, index_columns_fit, assignments_fit,
    update_safe, matching_rows, write_fits, upsert_safe};
use crate::sql::ast::{SConflict, OnConflictAction};
use crate::sql::planner::{Planner, opt_where_view};
use crate::storage::engine::model_rows;
use crate::storage::engine::{StorageEngine, TableModel};
use crate::sql::ast::{SWhere, SAgg};
use crate::sql::planner::SPlan;
use crate::sql::predicate::pred_ok;
use crate::sql::rows::{filter_spec, projection_positions, sort_positions, page, pick};
use crate::sql::aggregate::{agg_reads, group_positions, groups_of};
use crate::sql::eval::{plan_result, plan_safe, table_rows, aggregate_result};

verus! {

/// The shortest length among `rows`, or `d` when there are none.
pub open spec fn min_len(rows: Seq<Seq<SValue>>, d: nat) -> nat
    decreases rows.len(),
{
    if rows.len() == 0 {
        d
    } else {
        let m = min_len(rows.drop_last(), d);
        if rows.last().len() < m { rows.last().len() } else { m }
    }
}

/// Whether every row has at least `w` values.
pub open spec fn all_at_least(rows: Seq<Seq<SValue>>, w: nat) -> bool {
    forall|i: int| 0 <= i < rows.len() ==> #[trigger] rows[i].len() >= w
}

/// Whether every position lies below `w`.
pub open spec fn below(pos: Seq<int>, w: nat) -> bool {
    forall|j: int| 0 <= j < pos.len() ==> #[trigger] pos[j] < w
}

/// Whether a table holds an entry under a key equivalent to `pk`.
pub open spec fn key_stored<E: StorageEngine>(tables: Map<Seq<char>, TableModel>, t: Seq<char>, pk: SValue) -> bool {
    tables.contains_key(t) && exists|i: int| 0 <= i < tables[t].entries.len() && E::same_key(#[trigger] tables[t].entries[i].0, pk)
}

/// Whether the aggregates and the GROUP BY positions read below `w`.
pub open spec fn aggregate_below(aggs: Seq<SAgg>, cols: Seq<SColumn>, gp: Seq<int>, w: nat) -> bool {
    &&& forall|j: int| 0 <= j < aggs.len() ==> (agg_reads(#[trigger] aggs[j], cols) matches Some(p) ==> p < w)
    &&& below(gp, w)
}

/// Whether a condition over the input surely keeps a row: known only when the
/// input is a full scan, whose rows are the stored ones.
pub open spec fn filter_keeps_one(input: SPlan, pred: SWhere, tables: Map<Seq<char>, TableModel>, cols: Seq<SColumn>) -> bool {
    match input {
        SPlan::SeqScan { table } => filter_spec(pred, cols, table_rows(tables, table)).len() > 0,
        _ => false,
    }
}

/// What is known of a plan's result: a length that every row reaches, and
/// whether there is surely a row.  `None` when a node may read a position
/// that a row of its input lacks.  A scan's rows reach the shortest stored
/// row (the schema's length when none is stored); a projection's rows have
/// one value per column; an aggregate's rows hold the group key and one value
/// per aggregate, or only the aggregates when its input is empty.
pub open spec fn plan_shape<E: StorageEngine>(p: SPlan, tables: Map<Seq<char>, TableModel>, ix: crate::storage::engine::IndexEntries, cols: Seq<SColumn>) -> Option<(nat, bool)>
    decreases p,
{
    match p {
        SPlan::SeqScan { table } => Some((min_len(table_rows(tables, table), cols.len()), table_rows(tables, table).len() > 0)),
        SPlan::PointLookup { table, pk } => Some((min_len(table_rows(tables, table), cols.len()), key_stored::<E>(tables, table, pk))),
        SPlan::IndexScan { table, .. } => Some((min_len(table_rows(tables, table), cols.len()), false)),
        SPlan::Filter { input, predicate } => match plan_shape::<E>(*input, tables, ix, cols) {
            Some((w, _)) => if pred_ok(predicate, cols, w) {
                Some((w, filter_keeps_one(*input, predicate, tables, cols)))
            } else {
                None
            },
            None => None,
        },
        SPlan::Having { input, predicate } => match plan_shape::<E>(*input, tables, ix, cols) {
            Some((w, _)) => if pred_ok(predicate, cols, w) {
                Some((w, filter_keeps_one(*input, predicate, tables, cols)))
            } else {
                None
            },
            None => None,
        },
        SPlan::Projection { input, columns } => match plan_shape::<E>(*input, tables, ix, cols) {
            Some((w, ne)) => if below(projection_positions(cols, columns), w) { Some((columns.len(), ne)) } else { None },
            None => None,
        },
        SPlan::Sort { input, order_by } => match plan_shape::<E>(*input, tables, ix, cols) {
            Some((w, ne)) => if below(sort_positions(order_by, cols), w) { Some((w, ne)) } else { None },
            None => None,
        },
        SPlan::Aggregate { input, aggregates, group_by } => match plan_shape::<E>(*input, tables, ix, cols) {
            Some((w, ne)) => if aggregate_below(aggregates, cols, group_positions(cols, group_by), w) {
                Some((if ne { group_positions(cols, group_by).len() + aggregates.len() } else { aggregates.len() }, false))
            } else {
                None
            },
            None => None,
        },
        SPlan::Limit { input, .. } => match plan_shape::<E>(*input, tables, ix, cols) {
            Some((w, _)) => Some((w, false)),
            None => None,
        },
    }
}

/// Every row is at least as long as the shortest.
pub proof fn lemma_min_len(rows: Seq<Seq<SValue>>, d: nat)
    ensures
        all_at_least(rows, min_len(rows, d)),
    decreases rows.len(),
{
    if rows.len() > 0 {
        lemma_min_len(rows.drop_last(), d);
        assert forall|i: int| 0 <= i < rows.len() implies #[trigger] rows[i].len() >= min_len(rows, d) by {
            if i < rows.len() - 1 {
                assert(rows.drop_last()[i] == rows[i]);
            }
        }
    }
}

/// A condition that fits a row of some length fits every longer row.
pub proof fn lemma_pred_ok_longer(p: SWhere, cols: Seq<SColumn>, a: nat, b: nat)
    requires
        pred_ok(p, cols, a),
        a <= b,
    ensures
        pred_ok(p, cols, b),
    decreases p,
{
    match p {
        SWhere::And(x, y) => {
            lemma_pred_ok_longer(*x, cols, a, b);
            lemma_pred_ok_longer(*y, cols, a, b);
        },
        SWhere::Or(x, y) => {
            lemma_pred_ok_longer(*x, cols, a, b);
            lemma_pred_ok_longer(*y, cols, a, b);
        },
        _ => {},
    }
}

/// The rows a condition keeps are rows of its input.
proof fn lemma_filter_at_least(pred: SWhere, cols: Seq<SColumn>, inp: Seq<Seq<SValue>>, w: nat)
    requires
        all_at_least(inp, w),
    ensures
        all_at_least(filter_spec(pred, cols, inp), w),
{
    let f = filter_spec(pred, cols, inp);
    assert forall|i: int| 0 <= i < f.len() implies #[trigger] f[i].len() >= w by {
        assert(f.contains(f[i]));
        inp.lemma_filter_contains_rev(|r: Seq<SValue>| crate::sql::predicate::eval_pred(pred, cols, r), f[i]);
        assert(inp.contains(f[i]));
    }
}

/// Every group key holds one value per GROUP BY position.
proof fn lemma_group_keys(rows: Seq<Seq<SValue>>, gp: Seq<int>)
    ensures
        forall|k: int| 0 <= k < groups_of(rows, gp).len() ==> (#[trigger] groups_of(rows, gp)[k]).0.len() == gp.len(),
        rows.len() > 0 ==> groups_of(rows, gp).len() > 0,
    decreases rows.len(),
{
    if rows.len() > 0 {
        lemma_group_keys(rows.drop_last(), gp);
        let g = groups_of(rows.drop_last(), gp);
        let key = pick(rows.last(), gp);
        assert(key.len() == gp.len());
        crate::sql::aggregate::lemma_find_group(g, key, 0);
        match crate::sql::aggregate::find_group(g, key, 0) {
            Some(j) => {
                assert(groups_of(rows, gp) == g.update(j, (g[j].0, g[j].1.push(rows.last()))));
            },
            None => {
                assert(groups_of(rows, gp) == g.push((key, seq![rows.last()])));
            },
        }
        assert forall|k: int| 0 <= k < groups_of(rows, gp).len() implies (#[trigger] groups_of(rows, gp)[k]).0.len() == gp.len() by {
            if k < g.len() {
                assert(g[k].0.len() == gp.len());
            }
        }
    }
}

/// Whether what `plan_shape` says of a plan holds: the plan reads no position
/// a row lacks, and each result it may give has the stated shape.
pub open spec fn shape_holds<E: StorageEngine>(p: SPlan, tables: Map<Seq<char>, TableModel>, ix: crate::storage::engine::IndexEntries, cols: Seq<SColumn>) -> bool {
    plan_shape::<E>(p, tables, ix, cols) matches Some((w, ne)) ==> {
        &&& plan_safe::<E>(p, tables, ix, cols)
        &&& forall|out: Seq<Seq<SValue>>| #[trigger] plan_result::<E>(p, tables, ix, cols, out)
            ==> all_at_least(out, w) && (ne ==> out.len() > 0)
    }
}

proof fn lemma_leaf_shape<E: StorageEngine>(p: SPlan, tables: Map<Seq<char>, TableModel>, ix: crate::storage::engine::IndexEntries, cols: Seq<SColumn>)
    requires
        p is SeqScan || p is PointLookup || p is IndexScan,
    ensures
        shape_holds::<E>(p, tables, ix, cols),
{
    let s = plan_shape::<E>(p, tables, ix, cols)->0;
    match p {
        SPlan::SeqScan { table } => {
            lemma_min_len(table_rows(tables, table), cols.len());
        },
        SPlan::PointLookup { table, pk } => {
            let rows = table_rows(tables, table);
            lemma_min_len(rows, cols.len());
            assert forall|out: Seq<Seq<SValue>>| #[trigger] plan_result::<E>(p, tables, ix, cols, out)
                implies all_at_least(out, s.0) && (s.1 ==> out.len() > 0) by {
                if key_stored::<E>(tables, table, pk) {
                    let i = choose|i: int| 0 <= i < tables[table].entries.len()
                        && E::same_key(#[trigger] tables[table].entries[i].0, pk) && tables[table].entries[i].1 == out[0];
                    assert(rows[i] == out[0]);
                }
            }
        },
        SPlan::IndexScan { table, .. } => {
            let rows = table_rows(tables, table);
            lemma_min_len(rows, cols.len());
            assert forall|out: Seq<Seq<SValue>>| #[trigger] plan_result::<E>(p, tables, ix, cols, out)
                implies all_at_least(out, s.0) by {
                assert forall|k: int| 0 <= k < out.len() implies #[trigger] out[k].len() >= s.0 by {
                    assert(crate::sql::eval::stored_row(tables, table, out[k]));
                    let i = choose|i: int| 0 <= i < tables[table].entries.len() && (#[trigger] tables[table].entries[i]).1 == out[k];
                    assert(rows[i] == out[k]);
                }
            }
        },
        _ => {},
    }
}

proof fn lemma_filter_shape<E: StorageEngine>(input: SPlan, predicate: SWhere, tables: Map<Seq<char>, TableModel>, ix: crate::storage::engine::IndexEntries,
    cols: Seq<SColumn>, w: nat)
    requires
        plan_safe::<E>(input, tables, ix, cols),
        forall|inp: Seq<Seq<SValue>>| #[trigger] plan_result::<E>(input, tables, ix, cols, inp) ==> all_at_least(inp, w),
        pred_ok(predicate, cols, w),
    ensures
        forall|inp: Seq<Seq<SValue>>| #[trigger] plan_result::<E>(input, tables, ix, cols, inp)
            ==> crate::sql::rows::pred_ok_all(predicate, cols, inp) && all_at_least(filter_spec(predicate, cols, inp), w),
        forall|inp: Seq<Seq<SValue>>| #[trigger] plan_result::<E>(input, tables, ix, cols, inp)
            ==> (filter_keeps_one(input, predicate, tables, cols) ==> filter_spec(predicate, cols, inp).len() > 0),
{
    assert forall|inp: Seq<Seq<SValue>>| #[trigger] plan_result::<E>(input, tables, ix, cols, inp)
        implies crate::sql::rows::pred_ok_all(predicate, cols, inp) && all_at_least(filter_spec(predicate, cols, inp), w) by {
        assert forall|i: int| 0 <= i < inp.len() implies pred_ok(predicate, cols, #[trigger] inp[i].len()) by {
            lemma_pred_ok_longer(predicate, cols, w, inp[i].len());
        }
        lemma_filter_at_least(predicate, cols, inp, w);
    }
}

proof fn lemma_positions_shape<E: StorageEngine>(input: SPlan, pos: Seq<int>, tables: Map<Seq<char>, TableModel>, ix: crate::storage::engine::IndexEntries,
    cols: Seq<SColumn>, w: nat)
    requires
        forall|inp: Seq<Seq<SValue>>| #[trigger] plan_result::<E>(input, tables, ix, cols, inp) ==> all_at_least(inp, w),
        below(pos, w),
    ensures
        forall|inp: Seq<Seq<SValue>>| #[trigger] plan_result::<E>(input, tables, ix, cols, inp)
            ==> crate::sql::rows::positions_ok(pos, inp),
{
    assert forall|inp: Seq<Seq<SValue>>| #[trigger] plan_result::<E>(input, tables, ix, cols, inp)
        implies crate::sql::rows::positions_ok(pos, inp) by {
        assert forall|i: int| 0 <= i < inp.len() implies crate::sql::rows::fits(pos, #[trigger] inp[i]) by {
            assert forall|j: int| 0 <= j < pos.len() implies #[trigger] pos[j] < inp[i].len() by {
                assert(pos[j] < w);
            }
        }
    }
}

proof fn lemma_projection_shape<E: StorageEngine>(p: SPlan, tables: Map<Seq<char>, TableModel>, ix: crate::storage::engine::IndexEntries, cols: Seq<SColumn>)
    requires
        p is Projection,
        shape_holds::<E>(*p->Projection_input, tables, ix, cols),
    ensures
        shape_holds::<E>(p, tables, ix, cols),
{
    if let SPlan::Projection { input, columns } = p {
        if let Some((w, ne)) = plan_shape::<E>(*input, tables, ix, cols) {
            let pos = projection_positions(cols, columns);
            if below(pos, w) {
                lemma_positions_shape::<E>(*input, pos, tables, ix, cols, w);
                assert forall|out: Seq<Seq<SValue>>| #[trigger] plan_result::<E>(p, tables, ix, cols, out)
                    implies all_at_least(out, columns.len()) && (ne ==> out.len() > 0) by {
                    let inp = choose|inp: Seq<Seq<SValue>>| plan_result::<E>(*input, tables, ix, cols, inp)
                        && out == crate::sql::rows::project_spec(inp, cols, columns);
                    assert forall|k: int| 0 <= k < out.len() implies #[trigger] out[k].len() >= columns.len() by {
                        assert(out[k] == pick(inp[k], pos));
                    }
                }
            }
        }
    }
}

/// An item of a sequence is an item of any sequence with the same items.
proof fn lemma_same_items(a: Seq<Seq<SValue>>, b: Seq<Seq<SValue>>, k: int)
    requires
        a.to_multiset() == b.to_multiset(),
        0 <= k < a.len(),
    ensures
        b.contains(a[k]),
{
    a.to_multiset_ensures();
    b.to_multiset_ensures();
    assert(a.contains(a[k]));
    assert(a.to_multiset().count(a[k]) > 0);
}

proof fn lemma_sort_shape<E: StorageEngine>(p: SPlan, tables: Map<Seq<char>, TableModel>, ix: crate::storage::engine::IndexEntries, cols: Seq<SColumn>)
    requires
        p is Sort,
        shape_holds::<E>(*p->Sort_input, tables, ix, cols),
    ensures
        shape_holds::<E>(p, tables, ix, cols),
{
    if let SPlan::Sort { input, order_by } = p {
        if let Some((w, ne)) = plan_shape::<E>(*input, tables, ix, cols) {
            let pos = sort_positions(order_by, cols);
            if below(pos, w) {
                lemma_positions_shape::<E>(*input, pos, tables, ix, cols, w);
                assert forall|out: Seq<Seq<SValue>>| #[trigger] plan_result::<E>(p, tables, ix, cols, out)
                    implies all_at_least(out, w) && (ne ==> out.len() > 0) by {
                    let inp = choose|inp: Seq<Seq<SValue>>| plan_result::<E>(*input, tables, ix, cols, inp)
                        && out == crate::sql::rows::stable_sorted(order_by, cols, inp);
                    crate::sql::rows::lemma_stable_sorted_items(order_by, cols, inp);
                    assert forall|k: int| 0 <= k < out.len() implies #[trigger] out[k].len() >= w by {
                        lemma_same_items(out, inp, k);
                    }
                    out.to_multiset_ensures();
                    inp.to_multiset_ensures();
                }
            }
        }
    }
}

proof fn lemma_aggregate_shape<E: StorageEngine>(p: SPlan, tables: Map<Seq<char>, TableModel>, ix: crate::storage::engine::IndexEntries, cols: Seq<SColumn>)
    requires
        p is Aggregate,
        shape_holds::<E>(*p->Aggregate_input, tables, ix, cols),
    ensures
        shape_holds::<E>(p, tables, ix, cols),
{
    if let SPlan::Aggregate { input, aggregates, group_by } = p {
        if let Some((w, ne)) = plan_shape::<E>(*input, tables, ix, cols) {
            let gp = group_positions(cols, group_by);
            if aggregate_below(aggregates, cols, gp, w) {
                let s = plan_shape::<E>(p, tables, ix, cols)->0;
                assert forall|inp: Seq<Seq<SValue>>| #[trigger] plan_result::<E>(*input, tables, ix, cols, inp)
                    implies crate::sql::aggregate::aggregate_rows_ok(aggregates, cols, gp, inp) by {
                    assert forall|i: int| 0 <= i < inp.len() implies crate::sql::aggregate::agg_row_ok(aggregates, cols, gp, #[trigger] inp[i]) by {
                        assert(inp[i].len() >= w);
                        assert forall|j: int| 0 <= j < gp.len() implies #[trigger] gp[j] < inp[i].len() by {
                            assert(gp[j] < w);
                        }
                    }
                }
                assert forall|out: Seq<Seq<SValue>>| #[trigger] plan_result::<E>(p, tables, ix, cols, out)
                    implies all_at_least(out, s.0) by {
                    let inp = choose|inp: Seq<Seq<SValue>>| plan_result::<E>(*input, tables, ix, cols, inp)
                        && aggregate_result(aggregates, group_by, cols, inp, out);
                    if inp.len() == 0 {
                        assert(out[0].len() == aggregates.len());
                    } else {
                        let g = groups_of(inp, gp);
                        lemma_group_keys(inp, gp);
                        assert forall|k: int| 0 <= k < out.len() implies #[trigger] out[k].len() >= s.0 by {
                            assert(crate::sql::aggregate::group_row(aggregates, cols, g[k], out[k]));
                            assert(g[k].0.len() == gp.len());
                        }
                    }
                }
            }
        }
    }
}

proof fn lemma_limit_shape<E: StorageEngine>(p: SPlan, tables: Map<Seq<char>, TableModel>, ix: crate::storage::engine::IndexEntries, cols: Seq<SColumn>)
    requires
        p is Limit,
        shape_holds::<E>(*p->Limit_input, tables, ix, cols),
    ensures
        shape_holds::<E>(p, tables, ix, cols),
{
    if let SPlan::Limit { input, limit, offset } = p {
        if let Some((w, ne)) = plan_shape::<E>(*input, tables, ix, cols) {
            assert forall|out: Seq<Seq<SValue>>| #[trigger] plan_result::<E>(p, tables, ix, cols, out)
                implies all_at_least(out, w) by {
                let inp = choose|inp: Seq<Seq<SValue>>| plan_result::<E>(*input, tables, ix, cols, inp) && out == page(inp, limit, offset);
                assert forall|k: int| 0 <= k < out.len() implies #[trigger] out[k].len() >= w by {
                    assert(out[k] == inp[offset + k]);
                }
            }
        }
    }
}

/// What `plan_shape` says of a plan holds of every result it may give, and a
/// plan with a shape reads no position a row lacks.
pub proof fn lemma_plan_shape<E: StorageEngine>(p: SPlan, tables: Map<Seq<char>, TableModel>, ix: crate::storage::engine::IndexEntries, cols: Seq<SColumn>)
    ensures
        shape_holds::<E>(p, tables, ix, cols),
    decreases p,
{
    match p {
        SPlan::SeqScan { .. } => lemma_leaf_shape::<E>(p, tables, ix, cols),
        SPlan::PointLookup { .. } => lemma_leaf_shape::<E>(p, tables, ix, cols),
        SPlan::IndexScan { .. } => lemma_leaf_shape::<E>(p, tables, ix, cols),
        SPlan::Filter { input, predicate } => {
            lemma_plan_shape::<E>(*input, tables, ix, cols);
            if let Some((w, _)) = plan_shape::<E>(*input, tables, ix, cols) {
                if pred_ok(predicate, cols, w) {
                    lemma_filter_shape::<E>(*input, predicate, tables, ix, cols, w);
                    let ne = filter_keeps_one(*input, predicate, tables, cols);
                    assert forall|out: Seq<Seq<SValue>>| #[trigger] plan_result::<E>(p, tables, ix, cols, out)
                        implies all_at_least(out, w) && (ne ==> out.len() > 0) by {
                        let inp = choose|inp: Seq<Seq<SValue>>| plan_result::<E>(*input, tables, ix, cols, inp)
                            && out == filter_spec(predicate, cols, inp);
                    }
                }
            }
        },
        SPlan::Having { input, predicate } => {
            lemma_plan_shape::<E>(*input, tables, ix, cols);
            if let Some((w, _)) = plan_shape::<E>(*input, tables, ix, cols) {
                if pred_ok(predicate, cols, w) {
                    lemma_filter_shape::<E>(*input, predicate, tables, ix, cols, w);
                    let ne = filter_keeps_one(*input, predicate, tables, cols);
                    assert forall|out: Seq<Seq<SValue>>| #[trigger] plan_result::<E>(p, tables, ix, cols, out)
                        implies all_at_least(out, w) && (ne ==> out.len() > 0) by {
                        let inp = choose|inp: Seq<Seq<SValue>>| plan_result::<E>(*input, tables, ix, cols, inp)
                            && out == filter_spec(predicate, cols, inp);
                    }
                }
            }
        },
        SPlan::Projection { input, .. } => {
            lemma_plan_shape::<E>(*input, tables, ix, cols);
            lemma_projection_shape::<E>(p, tables, ix, cols);
        },
        SPlan::Sort { input, .. } => {
            lemma_plan_shape::<E>(*input, tables, ix, cols);
            lemma_sort_shape::<E>(p, tables, ix, cols);
        },
        SPlan::Aggregate { input, .. } => {
            lemma_plan_shape::<E>(*input, tables, ix, cols);
            lemma_aggregate_shape::<E>(p, tables, ix, cols);
        },
        SPlan::Limit { input, .. } => {
            lemma_plan_shape::<E>(*input, tables, ix, cols);
            lemma_limit_shape::<E>(p, tables, ix, cols);
        },
    }
}

/// The shortest length among the rows, or `d` when there are none.
fn min_row_len(rows: &Vec<Row>, d: usize) -> (r: usize)
    ensures
        r == min_len(rows_view(rows@), d as nat),
{
    let ghost v = rows_view(rows@);
    let mut m: usize = d;
    let mut i: usize = 0;
    assert(v.take(0) =~= Seq::<Seq<SValue>>::empty());
    while i < rows.len()
        invariant
            i <= rows@.len(),
            v == rows_view(rows@),
            m == min_len(v.take(i as int), d as nat),
        decreases rows.len() - i,
    {
        assert(v.take(i as int + 1).drop_last() =~= v.take(i as int));
        assert(v.take(i as int + 1).last() == rows@[i as int]@);
        assert(rows@[i as int]@.len() == rows@[i as int].values@.len());
        if rows[i].values.len() < m {
            m = rows[i].values.len();
        }
        i += 1;
    }
    assert(v.take(rows@.len() as int) =~= v);
    m
}

/// Whether every column a condition names exists within a row of `len` values.
fn pred_fits(pred: &WhereClause, schema: &TableSchema, len: u128) -> (r: bool)
    ensures
        r == pred_ok(pred@, schema@.columns, len as nat),
    decreases pred,
{
    match pred {
        WhereClause::Simple { column, .. } => column_fits(schema, column, len),
        WhereClause::Like { column, .. } => column_fits(schema, column, len),
        WhereClause::InList { column, .. } => column_fits(schema, column, len),
        WhereClause::IsNull { column, .. } => column_fits(schema, column, len),
        WhereClause::Between { column, .. } => column_fits(schema, column, len),
        WhereClause::And(a, b) => pred_fits(a, schema, len) && pred_fits(b, schema, len),
        WhereClause::Or(a, b) => pred_fits(a, schema, len) && pred_fits(b, schema, len),
    }
}

/// Whether the named column exists within a row of `len` values.
fn column_fits(schema: &TableSchema, column: &String, len: u128) -> (r: bool)
    ensures
        r == crate::sql::predicate::column_ok(schema@.columns, len as nat, column@),
{
    match schema.col_index(column.as_str()) {
        Some(k) => (k as u128) < len,
        None => false,
    }
}

/// The position of a named column, or 0.
fn position_or_zero(schema: &TableSchema, name: &String) -> (r: usize)
    ensures
        r as int == crate::sql::rows::pos_or_zero(schema@.columns, name@),
{
    match schema.col_index(name.as_str()) {
        Some(k) => k,
        None => 0,
    }
}

/// Whether the projected positions lie below `w`.
fn projection_below(schema: &TableSchema, columns: &Vec<String>, w: u128) -> (r: bool)
    ensures
        r == below(projection_positions(schema@.columns, strings_view(columns@)), w as nat),
{
    let ghost pos = projection_positions(schema@.columns, strings_view(columns@));
    let mut i: usize = 0;
    while i < columns.len()
        invariant
            i <= columns@.len(),
            pos == projection_positions(schema@.columns, strings_view(columns@)),
            pos.len() == columns@.len(),
            forall|j: int| 0 <= j < i ==> #[trigger] pos[j] < w,
        decreases columns.len() - i,
    {
        let k = position_or_zero(schema, &columns[i]);
        assert(pos[i as int] == k as int);
        if k as u128 >= w {
            return false;
        }
        i += 1;
    }
    true
}

/// Whether the sort positions lie below `w`.
fn sort_below(schema: &TableSchema, order_by: &OrderBy, w: u128) -> (r: bool)
    ensures
        r == below(sort_positions(order_view(*order_by), schema@.columns), w as nat),
{
    let ghost pos = sort_positions(order_view(*order_by), schema@.columns);
    let mut i: usize = 0;
    while i < order_by.items.len()
        invariant
            i <= order_by.items@.len(),
            pos == sort_positions(order_view(*order_by), schema@.columns),
            pos.len() == order_by.items@.len(),
            forall|j: int| 0 <= j < i ==> #[trigger] pos[j] < w,
        decreases order_by.items.len() - i,
    {
        let k = position_or_zero(schema, &order_by.items[i].column);
        assert(pos[i as int] == k as int);
        if k as u128 >= w {
            return false;
        }
        i += 1;
    }
    true
}

/// The position an aggregate reads from each row, if it reads one.
fn aggregate_reads(a: &AggregateDef, schema: &TableSchema) -> (r: Option<usize>)
    ensures
        match r {
            Some(k) => agg_reads(a@, schema@.columns) == Some(k as int),
            None => agg_reads(a@, schema@.columns) is None,
        },
{
    proof {
        reveal_strlit("COUNT");
        reveal_strlit("SUM");
        reveal_strlit("AVG");
        reveal_strlit("MIN");
        reveal_strlit("MAX");
        reveal_strlit("*");
    }
    let f = a.function.as_str();
    let known = str_eq(f, "COUNT") || str_eq(f, "SUM") || str_eq(f, "AVG") || str_eq(f, "MIN") || str_eq(f, "MAX");
    if !known || (str_eq(f, "COUNT") && str_eq(a.column.as_str(), "*")) {
        None
    } else {
        schema.col_index(a.column.as_str())
    }
}

/// Whether what an aggregate reads lies below `w`.
pub open spec fn read_below(a: SAgg, cols: Seq<SColumn>, w: nat) -> bool {
    agg_reads(a, cols) matches Some(p) ==> p < w
}

/// Whether the aggregates and the GROUP BY columns read below `w`.
fn aggregation_below(schema: &TableSchema, aggregates: &Vec<AggregateDef>, group_by: &Vec<String>, w: u128) -> (r: bool)
    ensures
        r == aggregate_below(aggs_view(aggregates@), schema@.columns,
            group_positions(schema@.columns, strings_view(group_by@)), w as nat),
{
    let ghost aggs = aggs_view(aggregates@);
    let mut i: usize = 0;
    while i < aggregates.len()
        invariant
            i <= aggregates@.len(),
            aggs == aggs_view(aggregates@),
            forall|j: int| 0 <= j < i ==> read_below(#[trigger] aggregates@[j]@, schema@.columns, w as nat),
        decreases aggregates.len() - i,
    {
        match aggregate_reads(&aggregates[i], schema) {
            Some(k) => {
                if k as u128 >= w {
                    assert(aggs[i as int] == aggregates@[i as int]@);
                    return false;
                }
            },
            None => {},
        }
        i += 1;
    }
    assert forall|j: int| 0 <= j < aggs.len() implies (agg_reads(#[trigger] aggs[j], schema@.columns) matches Some(p) ==> p < w) by {
        assert(aggs[j] == aggregates@[j]@);
        assert(read_below(aggregates@[j]@, schema@.columns, w as nat));
    }
    let gp = group_positions_exec(schema, group_by);
    let ghost gv = group_positions(schema@.columns, strings_view(group_by@));
    assert(gv.len() == gp@.len());
    let mut j: usize = 0;
    while j < gp.len()
        invariant
            j <= gp@.len(),
            gv == gp@.map_values(|k: usize| idx(k)),
            gv == group_positions(schema@.columns, strings_view(group_by@)),
            aggs == aggs_view(aggregates@),
            forall|q: int| 0 <= q < aggs.len() ==> (agg_reads(#[trigger] aggs[q], schema@.columns) matches Some(p) ==> p < w),
            forall|q: int| 0 <= q < j ==> #[trigger] gv[q] < w,
        decreases gp.len() - j,
    {
        assert(gv[j as int] == gp@[j as int] as int);
        if gp[j] as u128 >= w {
            assert(!(gv[j as int] < w as nat));
            assert(!below(gv, w as nat));
            return false;
        }
        j += 1;
    }
    true
}

/// Whether some row satisfies the condition.
fn some_row_matches(rows: &Vec<Row>, pred: &WhereClause, schema: &TableSchema) -> (r: bool)
    requires
        pred_ok_all(pred@, schema@.columns, rows_view(rows@)),
    ensures
        r == (filter_spec(pred@, schema@.columns, rows_view(rows@)).len() > 0),
{
    let ghost v = rows_view(rows@);
    let ghost p = pred@;
    let ghost cols = schema@.columns;
    let mut i: usize = 0;
    while i < rows.len()
        invariant
            i <= rows@.len(),
            v == rows_view(rows@),
            p == pred@,
            cols == schema@.columns,
            pred_ok_all(p, cols, v),
            forall|j: int| 0 <= j < i ==> !eval_pred(p, cols, #[trigger] v[j]),
        decreases rows.len() - i,
    {
        assert(v[i as int] == rows@[i as int]@);
        assert(pred_ok(p, cols, v[i as int].len()));
        if evaluate_predicate(pred, &rows[i], schema) {
            proof {
                v.lemma_filter_contains(|x: Seq<SValue>| eval_pred(p, cols, x), i as int);
            }
            return true;
        }
        i += 1;
    }
    proof {
        let fl = filter_spec(p, cols, v);
        if fl.len() > 0 {
            v.filter_lemma(|x: Seq<SValue>| eval_pred(p, cols, x));
            assert(fl.contains(fl[0]));
            v.lemma_filter_contains_rev(|x: Seq<SValue>| eval_pred(p, cols, x), fl[0]);
            let j = choose|j: int| 0 <= j < v.len() && v[j] == fl[0];
            assert(!eval_pred(p, cols, v[j]));
        }
    }
    false
}

/// The view of a plan shape computed with machine integers.
pub open spec fn shape_view(x: Option<(u128, bool)>) -> Option<(nat, bool)> {
    match x {
        Some((w, ne)) => Some((w as nat, ne)),
        None => None,
    }
}

/// Whether a query's plans (with the table's indexes, and without any, as
/// the executor may plan it either way) have a shape on the stored rows.
pub open spec fn select_guard<E: StorageEngine>(stmt: SqlStatement, table: Seq<char>, tables: Map<Seq<char>, TableModel>,
    idx: Map<Seq<char>, Seq<SIndex>>, ix: crate::storage::engine::IndexEntries) -> bool
{
    tables.contains_key(table) ==> {
        let s = tables[table].schema;
        &&& (plan_of(stmt, s, table_indexes(idx, table)) matches Some(p) ==> plan_shape::<E>(p, tables, ix, s.columns) is Some)
        &&& (plan_of(stmt, s, Seq::empty()) matches Some(p) ==> plan_shape::<E>(p, tables, ix, s.columns) is Some)
    }
}

/// What `Executor::can_execute` checks: for a query, that its plans have a
/// shape; for any other statement, exactly that it is safe to run.
pub open spec fn statement_guard<E: StorageEngine>(stmt: SqlStatement, tables: Map<Seq<char>, TableModel>,
    idx: Map<Seq<char>, Seq<SIndex>>, ix: crate::storage::engine::IndexEntries) -> bool
{
    match stmt {
        SqlStatement::Select { table, .. } => select_guard::<E>(stmt, table@, tables, idx, ix),
        _ => statement_safe::<E>(stmt, tables, idx, ix),
    }
}

/// Whether checking a statement reads the stored rows: a query, an UPDATE,
/// a DELETE, or an INSERT with ON CONFLICT DO UPDATE.  Every other statement
/// is safe on any state.
pub open spec fn reads_stored_rows(stmt: SqlStatement) -> bool {
    match stmt {
        SqlStatement::Insert { on_conflict, .. } => on_conflict matches Some(OnConflictAction::DoUpdate(_)),
        SqlStatement::Select { .. } => true,
        SqlStatement::Update { .. } => true,
        SqlStatement::Delete { .. } => true,
        _ => false,
    }
}

/// A statement that passes the check is safe to run.
pub proof fn lemma_guard_safe<E: StorageEngine>(stmt: SqlStatement, tables: Map<Seq<char>, TableModel>,
    idx: Map<Seq<char>, Seq<SIndex>>, ix: crate::storage::engine::IndexEntries)
    requires
        statement_guard::<E>(stmt, tables, idx, ix),
    ensures
        statement_safe::<E>(stmt, tables, idx, ix),
{
    if let SqlStatement::Select { table, .. } = stmt {
        if tables.contains_key(table@) {
            let s = tables[table@].schema;
            if let Some(p) = plan_of(stmt, s, table_indexes(idx, table@)) {
                lemma_plan_shape::<E>(p, tables, ix, s.columns);
            }
            if let Some(p) = plan_of(stmt, s, Seq::empty()) {
                lemma_plan_shape::<E>(p, tables, ix, s.columns);
            }
        }
    }
}


/// Whether a condition, if any, selects a row.
pub open spec fn selects(w: Option<SWhere>, cols: Seq<SColumn>, r: Seq<SValue>) -> bool {
    match w {
        Some(p) => eval_pred(p, cols, r),
        None => true,
    }
}

/// A row that the condition selects is among the matching rows.
proof fn lemma_selected(w: Option<SWhere>, cols: Seq<SColumn>, v: Seq<Seq<SValue>>, i: int)
    requires
        0 <= i < v.len(),
        selects(w, cols, v[i]),
    ensures
        exists|k: int| 0 <= k < matching_rows(w, cols, v).len() && #[trigger] matching_rows(w, cols, v)[k] == v[i],
{
    match w {
        Some(p) => {
            v.lemma_filter_contains(|x: Seq<SValue>| eval_pred(p, cols, x), i);
            let m = matching_rows(w, cols, v);
            assert(m.contains(v[i]));
            let k = choose|k: int| 0 <= k < m.len() && m[k] == v[i];
            assert(m[k] == v[i]);
        },
        None => {
            assert(matching_rows(w, cols, v)[i] == v[i]);
        },
    }
}

/// A matching row is a selected row of the input.
proof fn lemma_selected_from(w: Option<SWhere>, cols: Seq<SColumn>, v: Seq<Seq<SValue>>, k: int)
    requires
        0 <= k < matching_rows(w, cols, v).len(),
    ensures
        exists|j: int| 0 <= j < v.len() && #[trigger] v[j] == matching_rows(w, cols, v)[k]
            && selects(w, cols, v[j]),
{
    let m = matching_rows(w, cols, v);
    match w {
        Some(p) => {
            v.filter_lemma(|x: Seq<SValue>| eval_pred(p, cols, x));
            assert(m.contains(m[k]));
            v.lemma_filter_contains_rev(|x: Seq<SValue>| eval_pred(p, cols, x), m[k]);
            let j = choose|j: int| 0 <= j < v.len() && v[j] == m[k];
            assert(v[j] == m[k]);
        },
        None => {
            assert(v[k] == m[k]);
        },
    }
}

/// Whether every assigned column that exists lies within a row of `len` values.
#[verifier::rlimit(40)]
fn assignments_within(schema: &TableSchema, asg: &Vec<(String, Value)>, len: usize) -> (r: bool)
    ensures
        r == assignments_fit(schema@.columns, entries_view(asg@), len as nat),
{
    let ghost ev = entries_view(asg@);
    let mut i: usize = 0;
    while i < asg.len()
        invariant
            i <= asg@.len(),
            ev == entries_view(asg@),
            forall|j: int| 0 <= j < i ==> (col_pos(schema@.columns, (#[trigger] ev[j]).0) matches Some(k) ==> k < len),
        decreases asg.len() - i,
    {
        assert(ev[i as int].0 == asg@[i as int].0@);
        match schema.col_index(asg[i].0.as_str()) {
            Some(k) => {
                if k >= len {
                    return false;
                }
            },
            None => {},
        }
        i += 1;
    }
    true
}

/// Whether the columns of an index that exist lie within a row of `len` values.
pub open spec fn index_fits(d: SIndex, cols: Seq<SColumn>, len: nat) -> bool {
    forall|b: int| 0 <= b < d.columns.len() ==> (col_pos(cols, #[trigger] d.columns[b]) matches Some(k) ==> k < len)
}

#[verifier::rlimit(40)]
fn index_within(schema: &TableSchema, d: &IndexDef, len: usize) -> (r: bool)
    ensures
        r == index_fits(d@, schema@.columns, len as nat),
{
    let ghost cv = d@.columns;
    let mut j: usize = 0;
    while j < d.columns.len()
        invariant
            j <= d.columns@.len(),
            cv == d.columns@.map_values(|c: String| c@),
            forall|b: int| 0 <= b < j ==> (col_pos(schema@.columns, #[trigger] cv[b]) matches Some(k) ==> k < len),
        decreases d.columns.len() - j,
    {
        assert(cv[j as int] == d.columns@[j as int]@);
        match schema.col_index(d.columns[j].as_str()) {
            Some(k) => {
                if k >= len {
                    return false;
                }
            },
            None => {},
        }
        j += 1;
    }
    assert(cv == d@.columns);
    true
}

/// Whether every index column that exists lies within a row of `len` values.
fn index_columns_within(schema: &TableSchema, indexes: &Vec<IndexDef>, len: usize) -> (r: bool)
    ensures
        r == index_columns_fit(indexes@.map_values(|d: IndexDef| d@), schema@.columns, len as nat),
{
    let ghost iv = indexes@.map_values(|d: IndexDef| d@);
    let mut i: usize = 0;
    while i < indexes.len()
        invariant
            i <= indexes@.len(),
            iv == indexes@.map_values(|d: IndexDef| d@),
            forall|a: int| 0 <= a < i ==> index_fits(#[trigger] iv[a], schema@.columns, len as nat),
        decreases indexes.len() - i,
    {
        assert(iv[i as int] == indexes@[i as int]@);
        if !index_within(schema, &indexes[i], len) {
            assert(!index_columns_fit(iv, schema@.columns, len as nat));
            return false;
        }
        i += 1;
    }
    assert forall|a: int, b: int| #![trigger iv[a].columns[b]] 0 <= a < iv.len() && 0 <= b < iv[a].columns.len()
        implies (col_pos(schema@.columns, iv[a].columns[b]) matches Some(k) ==> k < len) by {
        assert(index_fits(iv[a], schema@.columns, len as nat));
    }
    true
}

/// Whether a row of `len` values holds the primary key (at `pk`), every index
/// column and every assigned column.
fn write_within(schema: &TableSchema, pk: Option<usize>, indexes: &Vec<IndexDef>, asg: &Vec<(String, Value)>, len: usize) -> (r: bool)
    requires
        match pk {
            Some(k) => pk_pos(schema@.columns) == Some(k as int),
            None => pk_pos(schema@.columns) is None,
        },
    ensures
        r == write_fits(schema@.columns, indexes@.map_values(|d: IndexDef| d@), entries_view(asg@), len as nat),
{
    match pk {
        Some(k) => k < len && index_columns_within(schema, indexes, len) && assignments_within(schema, asg, len),
        None => false,
    }
}

impl<E: StorageEngine, F: FloatOps> Executor<E, F> {
    /// The stored rows of a table (none when it does not exist).
    fn stored_rows(&self, table: &String) -> (r: Result<Vec<Row>, RustMinidbError>)
        ensures
            r matches Ok(rows) ==> rows_view(rows@) == table_rows(self.store().tables(), table@),
    {
        let rows = self.engine().scan_table(table.as_str())?;
        proof {
            assert(rows_view(rows@) =~= rows@.map_values(|x: Row| x@));
        }
        Ok(rows)
    }

    /// Whether a condition over a plan's input surely keeps a row.
    fn keeps_one(&self, input: &PlanNode, predicate: &WhereClause, schema: &TableSchema, w: u128) -> (r: Result<bool, RustMinidbError>)
        requires
            pred_ok(predicate@, schema@.columns, w as nat),
            plan_shape::<E>(input@, self.store().tables(), self.store().index_entries(), schema@.columns) matches Some((w2, _)) && w2 == w as nat,
        ensures
            r matches Ok(b) ==> b == filter_keeps_one(input@, predicate@, self.store().tables(), schema@.columns),
            !(input@ is SeqScan) ==> r is Ok,
    {
        match input {
            PlanNode::SeqScan { table } => {
                let rows = self.stored_rows(table)?;
                proof {
                    let cols = schema@.columns;
                    let v = rows_view(rows@);
                    lemma_min_len(v, cols.len());
                    assert forall|i: int| 0 <= i < v.len() implies pred_ok(predicate@, cols, #[trigger] v[i].len()) by {
                        lemma_pred_ok_longer(predicate@, cols, w as nat, v[i].len());
                    }
                }
                Ok(some_row_matches(&rows, predicate, schema))
            },
            _ => Ok(false),
        }
    }

    /// What is known of a plan's result on the stored rows (`plan_shape`).
    fn shape_of(&self, plan: &PlanNode, schema: &TableSchema) -> (r: Result<Option<(u128, bool)>, RustMinidbError>)
        ensures
            r matches Ok(x) ==> shape_view(x) == plan_shape::<E>(plan@, self.store().tables(), self.store().index_entries(), schema@.columns),
        decreases plan,
    {
        let ghost tables = self.store().tables();
        let ghost cols = schema@.columns;
        assert(cols.len() == schema.columns@.len());
        match plan {
            PlanNode::SeqScan { table } => {
                let rows = self.stored_rows(table)?;
                let w = min_row_len(&rows, schema.columns.len());
                Ok(Some((w as u128, rows.len() > 0)))
            },
            PlanNode::PointLookup { table, pk } => {
                let rows = self.stored_rows(table)?;
                let w = min_row_len(&rows, schema.columns.len());
                let found = match self.engine().get_row(table.as_str(), pk)? {
                    Some(_) => true,
                    None => false,
                };
                Ok(Some((w as u128, found)))
            },
            PlanNode::IndexScan { table, .. } => {
                let rows = self.stored_rows(table)?;
                let w = min_row_len(&rows, schema.columns.len());
                Ok(Some((w as u128, false)))
            },
            PlanNode::Filter { input, predicate } => {
                match self.shape_of(input, schema)? {
                    Some((w, _)) => {
                        if !pred_fits(predicate, schema, w) {
                            return Ok(None);
                        }
                        let ne = self.keeps_one(input, predicate, schema, w)?;
                        Ok(Some((w, ne)))
                    },
                    None => Ok(None),
                }
            },
            PlanNode::Having { input, predicate } => {
                match self.shape_of(input, schema)? {
                    Some((w, _)) => {
                        if !pred_fits(predicate, schema, w) {
                            return Ok(None);
                        }
                        let ne = self.keeps_one(input, predicate, schema, w)?;
                        Ok(Some((w, ne)))
                    },
                    None => Ok(None),
                }
            },
            PlanNode::Projection { input, columns } => {
                match self.shape_of(input, schema)? {
                    Some((w, ne)) => {
                        if projection_below(schema, columns, w) {
                            Ok(Some((columns.len() as u128, ne)))
                        } else {
                            Ok(None)
                        }
                    },
                    None => Ok(None),
                }
            },
            PlanNode::Sort { input, order_by } => {
                match self.shape_of(input, schema)? {
                    Some((w, ne)) => {
                        if sort_below(schema, order_by, w) {
                            Ok(Some((w, ne)))
                        } else {
                            Ok(None)
                        }
                    },
                    None => Ok(None),
                }
            },
            PlanNode::Aggregate { input, aggregates, group_by } => {
                match self.shape_of(input, schema)? {
                    Some((w, ne)) => {
                        if aggregation_below(schema, aggregates, group_by, w) {
                            let gp = group_positions_exec(schema, group_by);
                            let width: u128 = if ne { gp.len() as u128 + aggregates.len() as u128 } else { aggregates.len() as u128 };
                            Ok(Some((width, false)))
                        } else {
                            Ok(None)
                        }
                    },
                    None => Ok(None),
                }
            },
            PlanNode::Limit { input, .. } => {
                match self.shape_of(input, schema)? {
                    Some((w, _)) => Ok(Some((w, false))),
                    None => Ok(None),
                }
            },
        }
    }

    /// Whether a query's plans have a shape on the stored rows.
    fn select_fits(&self, stmt: &SqlStatement, table: &String) -> (r: Result<bool, RustMinidbError>)
        requires
            stmt matches SqlStatement::Select { table: t, .. } && t@ == table@,
        ensures
            r matches Ok(b) ==> b == select_guard::<E>(*stmt, table@, self.store().tables(), self.store().index_defs(), self.store().index_entries()),
    {
        let schema = match self.engine().get_schema(table.as_str())? {
            Some(s) => s,
            None => {
                return Ok(true);
            },
        };
        let indexes = self.engine().list_indexes(table.as_str())?;
        assert(indexes@.map_values(|d: IndexDef| d@) == table_indexes(self.store().index_defs(), table@));
        let plan = Planner::plan_select(stmt, &schema, &indexes)?;
        let with_indexes = self.shape_of(&plan, &schema)?;
        let none: Vec<IndexDef> = Vec::new();
        assert(none@.map_values(|d: IndexDef| d@) =~= Seq::<SIndex>::empty());
        let plan2 = Planner::plan_select(stmt, &schema, &none)?;
        let without = self.shape_of(&plan2, &schema)?;
        Ok(with_indexes.is_some() && without.is_some())
    }

    /// Whether every stored row that a condition selects holds the primary
    /// key, the index columns and the assigned columns (`update_safe`).
    fn writes_fit(&self, table: &String, where_clause: &Option<WhereClause>, asg: &Vec<(String, Value)>) -> (r: Result<bool, RustMinidbError>)
        ensures
            r matches Ok(b) ==> b == (self.store().tables().contains_key(table@) ==> update_safe(opt_where_view(*where_clause),
                self.store().tables()[table@], table_indexes(self.store().index_defs(), table@), entries_view(asg@))),
    {
        let ghost tables = self.store().tables();
        let schema = match self.engine().get_schema(table.as_str())? {
            Some(s) => s,
            None => {
                return Ok(true);
            },
        };
        let indexes = self.engine().list_indexes(table.as_str())?;
        let rows = self.stored_rows(table)?;
        let ghost t = tables[table@];
        let ghost cols = schema@.columns;
        let ghost v = rows_view(rows@);
        let ghost iv = indexes@.map_values(|d: IndexDef| d@);
        let ghost av = entries_view(asg@);
        let ghost w = opt_where_view(*where_clause);
        assert(iv == table_indexes(self.store().index_defs(), table@));
        assert(v == model_rows(t));
        assert(cols == t.schema.columns);
        if let Some(p) = where_clause {
            let mut i: usize = 0;
            while i < rows.len()
                invariant
                    i <= rows@.len(),
                    v == rows_view(rows@),
                    tables == self.store().tables(),
                    tables.contains_key(table@),
                    t == tables[table@],
                    v == model_rows(t),
                    cols == t.schema.columns,
                    cols == schema@.columns,
                    iv == table_indexes(self.store().index_defs(), table@),
                    iv == indexes@.map_values(|d: IndexDef| d@),
                    av == entries_view(asg@),
                    w == opt_where_view(*where_clause),
                    w == Some(p@),
                    forall|j: int| 0 <= j < i ==> pred_ok(p@, cols, #[trigger] v[j].len()),
                decreases rows.len() - i,
            {
                assert(v[i as int] == rows@[i as int]@);
                if !pred_fits(p, &schema, rows[i].values.len() as u128) {
                    assert(!pred_ok(p@, cols, v[i as int].len()));
                    assert(!pred_ok_all(p@, cols, v));
                    return Ok(false);
                }
                i += 1;
            }
            assert(pred_ok_all(p@, cols, v));
        }
        assert(w matches Some(p) ==> pred_ok_all(p, cols, v));
        let pk = schema.pk_index();
        let mut i: usize = 0;
        while i < rows.len()
            invariant
                i <= rows@.len(),
                v == rows_view(rows@),
                tables == self.store().tables(),
                tables.contains_key(table@),
                t == tables[table@],
                v == model_rows(t),
                cols == t.schema.columns,
                iv == table_indexes(self.store().index_defs(), table@),
                w == opt_where_view(*where_clause),
                w matches Some(p) ==> pred_ok_all(p, cols, v),
                cols == schema@.columns,
                iv == indexes@.map_values(|d: IndexDef| d@),
                av == entries_view(asg@),
                match pk {
                    Some(k) => pk_pos(cols) == Some(k as int),
                    None => pk_pos(cols) is None,
                },
                forall|j: int| 0 <= j < i ==> (selects(w, cols, #[trigger] v[j]) ==> write_fits(cols, iv, av, v[j].len())),
            decreases rows.len() - i,
        {
            assert(v[i as int] == rows@[i as int]@);
            let hit = match where_clause {
                Some(p) => {
                    assert(pred_ok(p@, cols, v[i as int].len()));
                    evaluate_predicate(p, &rows[i], &schema)
                },
                None => true,
            };
            if hit && !write_within(&schema, pk, &indexes, asg, rows[i].values.len()) {
                proof {
                    lemma_selected(w, cols, v, i as int);
                }
                return Ok(false);
            }
            i += 1;
        }
        proof {
            let m = matching_rows(w, cols, v);
            assert forall|k: int| 0 <= k < m.len() implies write_fits(cols, iv, av, (#[trigger] m[k]).len()) by {
                lemma_selected_from(w, cols, v, k);
            }
            assert(update_safe(w, t, iv, av));
        }
        Ok(true)
    }

    /// Whether every stored row holds the columns that ON CONFLICT DO UPDATE
    /// assigns (`upsert_safe`).
    fn upsert_fits(&self, table: &String, asg: &Vec<(String, Value)>) -> (r: Result<bool, RustMinidbError>)
        ensures
            r matches Ok(b) ==> b == (self.store().tables().contains_key(table@)
                ==> upsert_safe(Some(SConflict::DoUpdate(entries_view(asg@))), self.store().tables()[table@])),
    {
        let ghost tables = self.store().tables();
        let schema = match self.engine().get_schema(table.as_str())? {
            Some(s) => s,
            None => {
                return Ok(true);
            },
        };
        let rows = self.stored_rows(table)?;
        let ghost t = tables[table@];
        let ghost v = rows_view(rows@);
        assert(v == model_rows(t));
        let mut i: usize = 0;
        while i < rows.len()
            invariant
                i <= rows@.len(),
                v == rows_view(rows@),
                tables == self.store().tables(),
                tables.contains_key(table@),
                t == tables[table@],
                v == model_rows(t),
                schema@.columns == t.schema.columns,
                forall|j: int| 0 <= j < i ==> assignments_fit(t.schema.columns, entries_view(asg@), (#[trigger] t.entries[j]).1.len()),
            decreases rows.len() - i,
        {
            assert(v[i as int] == rows@[i as int]@);
            assert(model_rows(t).len() == t.entries.len());
            assert(model_rows(t)[i as int] == t.entries[i as int].1);
            if !assignments_within(&schema, asg, rows[i].values.len()) {
                return Ok(false);
            }
            i += 1;
        }
        Ok(true)
    }

    /// Whether the statement can run on the stored rows without reading a
    /// column that a row lacks.  For INSERT, UPDATE and DELETE the answer is
    /// exact (`statement_safe`); for a query it is the shape analysis of its
    /// plans (`select_guard`), which admits only safe queries.  An error is
    /// that of reading the stored state.
    pub fn can_execute(&self, stmt: &SqlStatement) -> (r: Result<bool, RustMinidbError>)
        ensures
            r matches Ok(b) ==> b == statement_guard::<E>(*stmt, self.store().tables(), self.store().index_defs(), self.store().index_entries()),
            r matches Ok(true) ==> statement_safe::<E>(*stmt, self.store().tables(), self.store().index_defs(), self.store().index_entries()),
            !reads_stored_rows(*stmt) ==> r matches Ok(true),
    {
        let r = match stmt {
            SqlStatement::Insert { table, on_conflict, .. } => match on_conflict {
                Some(OnConflictAction::DoUpdate(asg)) => self.upsert_fits(table, asg),
                _ => Ok(true),
            },
            SqlStatement::Select { table, .. } => self.select_fits(stmt, table),
            SqlStatement::Update { table, assignments, where_clause } => self.writes_fit(table, where_clause, assignments),
            SqlStatement::Delete { table, where_clause } => {
                let none: Vec<(String, Value)> = Vec::new();
                assert(entries_view(none@) =~= Seq::<(Seq<char>, SValue)>::empty());
                self.writes_fit(table, where_clause, &none)
            },
            _ => Ok(true),
        };
        proof {
            if r matches Ok(true) {
                lemma_guard_safe::<E>(*stmt, self.store().tables(), self.store().index_defs(), self.store().index_entries());
            }
        }
        r
    }
}

} // verus!
