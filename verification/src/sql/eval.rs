//! What a query plan yields over the stored tables.

use vstd::prelude::*;
use crate::types::SValue;
use crate::schema::SColumn;
use crate::storage::engine::{StorageEngine, TableModel, SIndex, model_rows};
use crate::sql::planner::SPlan;
use crate::sql::rows::{project_spec, pred_ok_all, filter_spec, positions_ok, projection_positions, pick, sort_positions,
    page};
use crate::sql::aggregate::{aggregate_rows_ok, group_positions, groups_of, group_row, empty_aggregate_row};

verus! {

/// The rows of a table in scan order, none for a table that does not exist.
pub open spec fn table_rows(tables: Map<Seq<char>, TableModel>, t: Seq<char>) -> Seq<Seq<SValue>> {
    if tables.contains_key(t) { model_rows(tables[t]) } else { Seq::empty() }
}

/// Whether `r` is a row stored in table `t`.
pub open spec fn stored_row(tables: Map<Seq<char>, TableModel>, t: Seq<char>, r: Seq<SValue>) -> bool {
    tables.contains_key(t) && exists|i: int| 0 <= i < tables[t].entries.len() && (#[trigger] tables[t].entries[i]).1 == r
}

/// Whether `out` is what a primary-key lookup may give: one row stored under
/// an equivalent key, or nothing when there is none.
pub open spec fn lookup_result<E: StorageEngine>(tables: Map<Seq<char>, TableModel>, t: Seq<char>, pk: SValue, out: Seq<Seq<SValue>>) -> bool {
    if tables.contains_key(t) && exists|i: int| 0 <= i < tables[t].entries.len() && E::same_key(#[trigger] tables[t].entries[i].0, pk) {
        out.len() == 1 && exists|i: int| 0 <= i < tables[t].entries.len()
            && E::same_key(#[trigger] tables[t].entries[i].0, pk) && tables[t].entries[i].1 == out[0]
    } else {
        out.len() == 0
    }
}

/// Whether the indexes of `t` include one called `name`.
pub open spec fn index_named(idx: Map<Seq<char>, Seq<SIndex>>, t: Seq<char>, name: Seq<char>) -> bool {
    idx.contains_key(t) && exists|i: int| 0 <= i < idx[t].len() && (#[trigger] idx[t][i]).name == name
}

/// Whether `out` is what an aggregation gives on `inp`.
pub open spec fn aggregate_result(aggs: Seq<crate::sql::ast::SAgg>, group_by: Seq<Seq<char>>, cols: Seq<SColumn>,
    inp: Seq<Seq<SValue>>, out: Seq<Seq<SValue>>) -> bool
{
    if inp.len() == 0 {
        out == seq![empty_aggregate_row(aggs)]
    } else {
        let g = groups_of(inp, group_positions(cols, group_by));
        &&& out.len() == g.len()
        &&& forall|i: int| 0 <= i < g.len() ==> group_row(aggs, cols, #[trigger] g[i], out[i])
    }
}

/// Rows one after another.
pub open spec fn flatten_rows(parts: Seq<Seq<Seq<SValue>>>) -> Seq<Seq<SValue>>
    decreases parts.len(),
{
    if parts.len() == 0 { Seq::empty() } else { flatten_rows(parts.drop_last()) + parts.last() }
}

/// Whether `out` is what looking a key up in an index of the table gives:
/// for an index of that name, the primary-key bytes recorded under the key's
/// bytes (each once, in some order), each decoded and looked up in the table.
pub open spec fn index_rows<E: StorageEngine>(tables: Map<Seq<char>, TableModel>, ix: crate::storage::engine::IndexEntries,
    table: Seq<char>, name: Seq<char>, key: SValue, out: Seq<Seq<SValue>>) -> bool
{
    exists|d: SIndex, k: Seq<u8>, pks: Seq<Seq<u8>>, parts: Seq<Seq<Seq<SValue>>>|
        #[trigger] index_lookup::<E>(tables, ix, table, d, k, pks, parts)
        && d.name == name && crate::encoding::serialized_as(key, k) && out == flatten_rows(parts)
}

/// Whether `pks` are the primary-key bytes index `d` records under `k`, and
/// `parts` what looking each up gives.
pub open spec fn index_lookup<E: StorageEngine>(tables: Map<Seq<char>, TableModel>, ix: crate::storage::engine::IndexEntries,
    table: Seq<char>, d: SIndex, k: Seq<u8>, pks: Seq<Seq<u8>>, parts: Seq<Seq<Seq<SValue>>>) -> bool
{
    &&& crate::storage::engine::index_holds(ix, d, k, pks)
    &&& parts.len() == pks.len()
    &&& forall|i: int| 0 <= i < pks.len() ==> lookup_result::<E>(tables, table,
        crate::encoding::key_decoded(#[trigger] pks[i]), parts[i])
}

/// Whether `out` is a result of the plan over the stored tables and indexes.
/// A scan gives the table's rows; a lookup at most one row stored under the
/// key; an index scan rows of the table (which ones is up to the index's
/// contents, which the engine keeps); the other nodes transform the result of
/// their input.
pub open spec fn plan_result<E: StorageEngine>(
    p: SPlan,
    tables: Map<Seq<char>, TableModel>, ix: crate::storage::engine::IndexEntries,
    cols: Seq<SColumn>,
    out: Seq<Seq<SValue>>,
) -> bool
    decreases p,
{
    match p {
        SPlan::SeqScan { table } => out == table_rows(tables, table),
        SPlan::PointLookup { table, pk } => lookup_result::<E>(tables, table, pk, out),
        SPlan::IndexScan { table, index_name, key } => (forall|i: int| 0 <= i < out.len() ==> stored_row(tables, table, #[trigger] out[i]))
            && (out == table_rows(tables, table) || index_rows::<E>(tables, ix, table, index_name, key, out)),
        SPlan::Filter { input, predicate } => exists|inp: Seq<Seq<SValue>>|
            plan_result::<E>(*input, tables, ix, cols, inp) && out == filter_spec(predicate, cols, inp),
        SPlan::Having { input, predicate } => exists|inp: Seq<Seq<SValue>>|
            plan_result::<E>(*input, tables, ix, cols, inp) && out == filter_spec(predicate, cols, inp),
        SPlan::Projection { input, columns } => exists|inp: Seq<Seq<SValue>>|
            plan_result::<E>(*input, tables, ix, cols, inp)
                && out == project_spec(inp, cols, columns),
        SPlan::Sort { input, order_by } => exists|inp: Seq<Seq<SValue>>|
            plan_result::<E>(*input, tables, ix, cols, inp)
                && out == crate::sql::rows::stable_sorted(order_by, cols, inp),
        SPlan::Aggregate { input, aggregates, group_by } => exists|inp: Seq<Seq<SValue>>|
            plan_result::<E>(*input, tables, ix, cols, inp) && aggregate_result(aggregates, group_by, cols, inp, out),
        SPlan::Limit { input, limit, offset } => exists|inp: Seq<Seq<SValue>>|
            plan_result::<E>(*input, tables, ix, cols, inp) && out == page(inp, limit, offset),
    }
}

/// Whether evaluating the plan reads only columns that exist in the rows it
/// meets: every condition's columns, every projected, sorted, grouped and
/// aggregated position lie within each row an input may give.
pub open spec fn plan_safe<E: StorageEngine>(p: SPlan, tables: Map<Seq<char>, TableModel>, ix: crate::storage::engine::IndexEntries, cols: Seq<SColumn>) -> bool
    decreases p,
{
    match p {
        SPlan::SeqScan { .. } => true,
        SPlan::PointLookup { .. } => true,
        SPlan::IndexScan { .. } => true,
        SPlan::Filter { input, predicate } => plan_safe::<E>(*input, tables, ix, cols)
            && forall|inp: Seq<Seq<SValue>>| #[trigger] plan_result::<E>(*input, tables, ix, cols, inp)
                ==> pred_ok_all(predicate, cols, inp),
        SPlan::Having { input, predicate } => plan_safe::<E>(*input, tables, ix, cols)
            && forall|inp: Seq<Seq<SValue>>| #[trigger] plan_result::<E>(*input, tables, ix, cols, inp)
                ==> pred_ok_all(predicate, cols, inp),
        SPlan::Projection { input, columns } => plan_safe::<E>(*input, tables, ix, cols)
            && forall|inp: Seq<Seq<SValue>>| #[trigger] plan_result::<E>(*input, tables, ix, cols, inp)
                ==> positions_ok(projection_positions(cols, columns), inp),
        SPlan::Sort { input, order_by } => plan_safe::<E>(*input, tables, ix, cols)
            && forall|inp: Seq<Seq<SValue>>| #[trigger] plan_result::<E>(*input, tables, ix, cols, inp)
                ==> positions_ok(sort_positions(order_by, cols), inp),
        SPlan::Aggregate { input, aggregates, group_by } => plan_safe::<E>(*input, tables, ix, cols)
            && forall|inp: Seq<Seq<SValue>>| #[trigger] plan_result::<E>(*input, tables, ix, cols, inp)
                ==> aggregate_rows_ok(aggregates, cols, group_positions(cols, group_by), inp),
        SPlan::Limit { input, .. } => plan_safe::<E>(*input, tables, ix, cols),
    }
}

/// The column names a plan's result carries.
pub open spec fn plan_columns(p: SPlan, cols: Seq<SColumn>) -> Seq<Seq<char>>
    decreases p,
{
    match p {
        SPlan::Projection { columns, .. } => columns,
        SPlan::SeqScan { .. } => cols.map_values(|c: SColumn| c.name),
        SPlan::PointLookup { .. } => cols.map_values(|c: SColumn| c.name),
        SPlan::IndexScan { .. } => cols.map_values(|c: SColumn| c.name),
        SPlan::Filter { input, .. } => plan_columns(*input, cols),
        SPlan::Sort { input, .. } => plan_columns(*input, cols),
        SPlan::Aggregate { input, .. } => plan_columns(*input, cols),
        SPlan::Having { input, .. } => plan_columns(*input, cols),
        SPlan::Limit { input, .. } => plan_columns(*input, cols),
    }
}

/// A limit node yields the page of its input's result.
pub proof fn lemma_limit_result<E: StorageEngine>(p: SPlan, tables: Map<Seq<char>, TableModel>, ix: crate::storage::engine::IndexEntries, cols: Seq<SColumn>,
    inp: Seq<Seq<SValue>>)
    requires
        p is Limit,
        plan_result::<E>(*p->Limit_input, tables, ix, cols, inp),
    ensures
        plan_result::<E>(p, tables, ix, cols, page(inp, p->Limit_limit, p->Limit_offset)),
{
}

/// An aggregate node yields the aggregation of its input's result.
pub proof fn lemma_aggregate_result<E: StorageEngine>(p: SPlan, tables: Map<Seq<char>, TableModel>, ix: crate::storage::engine::IndexEntries, cols: Seq<SColumn>,
    inp: Seq<Seq<SValue>>, out: Seq<Seq<SValue>>)
    requires
        p is Aggregate,
        plan_result::<E>(*p->Aggregate_input, tables, ix, cols, inp),
        aggregate_result(p->Aggregate_aggregates, p->Aggregate_group_by, cols, inp, out),
    ensures
        plan_result::<E>(p, tables, ix, cols, out),
{
}

/// A query that scans a table, keeps the rows a condition selects and
/// reads some columns gives exactly the selected rows of the table, in
/// stored order, reduced to those columns.
pub proof fn law_scan_filter_project<E: StorageEngine>(tables: Map<Seq<char>, TableModel>, ix: crate::storage::engine::IndexEntries,
    cols: Seq<SColumn>, table: Seq<char>, w: crate::sql::ast::SWhere, names: Seq<Seq<char>>, out: Seq<Seq<SValue>>)
    requires
        plan_result::<E>(SPlan::Projection {
            input: Box::new(SPlan::Filter { input: Box::new(SPlan::SeqScan { table }), predicate: w }),
            columns: names,
        }, tables, ix, cols, out),
    ensures
        out == project_spec(filter_spec(w, cols, table_rows(tables, table)), cols, names),
{
    let f = SPlan::Filter { input: Box::new(SPlan::SeqScan { table }), predicate: w };
    let inp = choose|inp: Seq<Seq<SValue>>| plan_result::<E>(f, tables, ix, cols, inp) && out == project_spec(inp, cols, names);
    let scan = choose|s: Seq<Seq<SValue>>| plan_result::<E>(SPlan::SeqScan { table }, tables, ix, cols, s)
        && inp == filter_spec(w, cols, s);
}

} // verus!
