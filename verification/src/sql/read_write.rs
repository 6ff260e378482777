//! What a read gives back of a write.

use vstd::prelude::*;
use crate::types::{SValue, Value};
use crate::schema::{SColumn, col_pos, pk_pos, row_fits, lemma_first_index_unique};
use crate::storage::engine::{StorageEngine, TableModel, inserted_somewhere};
use crate::error::RustMinidbError;
use crate::sql::ast::{SqlStatement, WhereClause, ComparisonOp, strings_view};
use crate::sql::rows::{pick, projection_positions, project_spec};
use crate::sql::eval::{plan_result, lookup_result};
use crate::sql::executor::{ExecuteResult, statement_outcome, inserts_applied, insert_chain, insert_step, key_taken,
    prepared_row, value_rows_view, with_entries};

verus! {

/// Whether the columns have distinct names.
pub open spec fn distinct_names(cols: Seq<SColumn>) -> bool {
    forall|i: int, j: int| 0 <= i < cols.len() && 0 <= j < cols.len() && i != j ==> cols[i].name != cols[j].name
}

/// Whether a SELECT reads every column of `table` where its primary-key
/// column (called `pk_name`) equals `v`, with nothing else: no aggregate,
/// grouping, ordering or paging.
pub open spec fn select_all_by_key(sel: SqlStatement, table: Seq<char>, pk_name: Seq<char>, v: SValue) -> bool {
    sel matches SqlStatement::Select { table: t, columns, where_clause, aggregates, group_by, having, order_by, limit, offset }
        && t@ == table
        && (columns@.len() == 0 || (columns@.len() == 1 && columns@[0]@ == "*"@))
        && (where_clause matches Some(WhereClause::Simple { column, operator, value })
            && column@ == pk_name && operator == ComparisonOp::Eq && value@ == v)
        && aggregates@.len() == 0 && group_by@.len() == 0 && having is None && order_by is None
        && limit is None && offset is None
}

/// A one-row INSERT without ON CONFLICT that succeeds stores the prepared
/// row under its key, which no entry held before.
pub proof fn lemma_single_insert<E: StorageEngine>(t: TableModel, names: Seq<Seq<char>>, vals: Seq<SValue>,
    e: Seq<(SValue, Seq<SValue>)>, n: nat)
    requires
        inserts_applied::<E>(t, names, seq![vals], None, e, n),
    ensures
        exists|row: Seq<SValue>| #[trigger] prepared_row(t, names, vals, row) && row_fits(t.schema.columns, row)
            && pk_pos(t.schema.columns) is Some
            && !key_taken::<E>(t.entries, row[pk_pos(t.schema.columns)->0])
            && inserted_somewhere(t.entries, e, (row[pk_pos(t.schema.columns)->0], row)),
{
    let (states, counts) = choose|states: Seq<Seq<(SValue, Seq<SValue>)>>, counts: Seq<bool>|
        #[trigger] insert_chain::<E>(t, names, seq![vals], None, states, counts) && states.last() == e
        && crate::sql::executor::count_true(counts) == n;
    assert(seq![vals][0] == vals);
    assert(TableModel { schema: t.schema, entries: states[0] } == t);
    assert(insert_step::<E>(t, names, vals, None, states[1], counts[0]));
    reveal(insert_step);
    assert(states[1] == e);
}

/// A key lookup on a table that holds exactly one entry under a key
/// equivalent to `v` (the one just put in) gives that entry's row.
proof fn lemma_lookup_new_entry<E: StorageEngine>(tables: Map<Seq<char>, TableModel>, t: Seq<char>, v: SValue,
    old: Seq<(SValue, Seq<SValue>)>, row: Seq<SValue>, out: Seq<Seq<SValue>>)
    requires
        tables.contains_key(t),
        inserted_somewhere(old, tables[t].entries, (v, row)),
        !key_taken::<E>(old, v),
        E::same_key(v, v),
        lookup_result::<E>(tables, t, v, out),
    ensures
        out == seq![row],
{
    let es = tables[t].entries;
    let i = choose|i: int| 0 <= i <= old.len() && es == old.insert(i, (v, row));
    assert(es[i] == (v, row));
    assert(E::same_key(es[i].0, v));
    let j = choose|j: int| 0 <= j < es.len() && E::same_key(#[trigger] es[j].0, v) && es[j].1 == out[0];
    if j < i {
        assert(es[j] == old[j]);
        assert(E::same_key(old[j].0, v));
    } else if j > i {
        assert(es[j] == old[j - 1]);
        assert(E::same_key(old[j - 1].0, v));
    }
    assert(out =~= seq![row]);
}

/// Reading every column of a row, when the column names are distinct, gives
/// the row back.
proof fn lemma_project_all(row: Seq<SValue>, cols: Seq<SColumn>)
    requires
        row.len() == cols.len(),
        distinct_names(cols),
    ensures
        pick(row, projection_positions(cols, cols.map_values(|c: SColumn| c.name))) == row,
{
    let pos = projection_positions(cols, cols.map_values(|c: SColumn| c.name));
    assert forall|i: int| 0 <= i < cols.len() implies #[trigger] pos[i] == i by {
        let name = cols[i].name;
        assert forall|j: int| 0 <= j < i implies !((|c: SColumn| c.name == name)(cols[j])) by {
            assert(cols[j].name != cols[i].name);
        }
        lemma_first_index_unique(cols, |c: SColumn| c.name == name, i);
        assert(col_pos(cols, name) == Some(i));
    }
    assert(pick(row, pos) =~= row);
}

/// The effect of a successful one-row INSERT without ON CONFLICT: the table
/// keeps its schema and gets the prepared row under its key, which no entry
/// held before.
proof fn lemma_insert_effect<E: StorageEngine>(before: E, after: E, table: &String, columns: &Vec<String>,
    values: &Vec<Vec<Value>>, r: Result<ExecuteResult, RustMinidbError>)
    requires
        crate::sql::executor::insert_outcome::<E>(before, after, table, columns, values, &None, r),
        r is Ok,
        values@.len() == 1,
        before.tables().contains_key(table@),
    ensures
        exists|row: Seq<SValue>| #[trigger] prepared_row(before.tables()[table@], strings_view(columns@),
            crate::types::values_view(values@[0]@), row) && ({
            let t = before.tables()[table@];
            let k = pk_pos(t.schema.columns)->0;
            &&& row_fits(t.schema.columns, row)
            &&& pk_pos(t.schema.columns) is Some
            &&& !key_taken::<E>(t.entries, row[k])
            &&& after.tables().contains_key(table@)
            &&& after.tables()[table@].schema == t.schema
            &&& inserted_somewhere(t.entries, after.tables()[table@].entries, (row[k], row))
        }),
{
    let t = before.tables()[table@];
    let cols = t.schema.columns;
    let names = strings_view(columns@);
    let rows_in = values@.map_values(|x: Vec<Value>| crate::types::values_view(x@));
    assert(rows_in =~= seq![crate::types::values_view(values@[0]@)]);
    let (e, n) = choose|e: Seq<(SValue, Seq<SValue>)>, n: nat|
        #[trigger] inserts_applied::<E>(t, names, rows_in, None, e, n)
        && after.tables() == with_entries(before.tables(), table@, e)
        && crate::sql::executor::is_write(r->Ok_0, n, crate::sql::executor::last_insert_id(cols, names, rows_in));
    lemma_single_insert::<E>(t, names, rows_in[0], e, n);
}

/// The plan of a SELECT of all columns by primary key: a key lookup, then
/// every column of the schema.
proof fn lemma_select_plan(sel: SqlStatement, table: Seq<char>, schema: crate::schema::STable, idx: Seq<crate::storage::engine::SIndex>, v: SValue)
    requires
        pk_pos(schema.columns) is Some,
        select_all_by_key(sel, table, schema.columns[pk_pos(schema.columns)->0].name, v),
    ensures
        crate::sql::planner::plan_of(sel, schema, idx) == Some(crate::sql::planner::SPlan::Projection {
            input: Box::new(crate::sql::planner::SPlan::PointLookup { table, pk: v }),
            columns: schema.columns.map_values(|c: SColumn| c.name),
        }),
{
    let cols = schema.columns;
    let k = pk_pos(cols)->0;
    if let SqlStatement::Select { table: st, columns: sc, where_clause, aggregates, group_by, having, order_by, limit, offset } = sel {
        let w = where_clause->0;
        assert(crate::sql::planner::pk_equals(w@, schema) == Some(v)) by {
            crate::schema::lemma_pk_pos_range(cols);
            assert(cols[k].is_primary_key);
        }
        assert(crate::sql::planner::projected_columns(strings_view(sc@), schema) == cols.map_values(|c: SColumn| c.name));
    }
}

/// A SELECT of all columns by primary key on a table that holds the row
/// under that key, and no other entry under an equivalent key, gives the row.
proof fn lemma_select_effect<E: StorageEngine>(state: E, sel: SqlStatement, table: &String, q: Result<ExecuteResult, RustMinidbError>,
    v: SValue, old: Seq<(SValue, Seq<SValue>)>, row: Seq<SValue>)
    requires
        crate::sql::executor::select_outcome::<E>(state, state, &sel, table, q),
        q is Ok,
        state.tables().contains_key(table@),
        distinct_names(state.tables()[table@].schema.columns),
        pk_pos(state.tables()[table@].schema.columns) is Some,
        select_all_by_key(sel, table@, state.tables()[table@].schema.columns[pk_pos(state.tables()[table@].schema.columns)->0].name, v),
        row.len() == state.tables()[table@].schema.columns.len(),
        inserted_somewhere(old, state.tables()[table@].entries, (v, row)),
        !key_taken::<E>(old, v),
        E::same_key(v, v),
    ensures
        q matches Ok(ExecuteResult::QueryResult { rows, .. }) && value_rows_view(rows@) == seq![row],
{
    let mid = state.tables();
    let mid_ix = state.index_entries();
    let schema = mid[table@].schema;
    let cols = schema.columns;
    let all = cols.map_values(|c: SColumn| c.name);
    let p = crate::sql::planner::SPlan::Projection {
        input: Box::new(crate::sql::planner::SPlan::PointLookup { table: table@, pk: v }),
        columns: all,
    };
    lemma_select_plan(sel, table@, schema, crate::sql::executor::table_indexes(state.index_defs(), table@), v);
    lemma_select_plan(sel, table@, schema, Seq::empty(), v);
    let res = q->Ok_0;
    assert(crate::sql::executor::query_result::<E>(res, p, mid, mid_ix, cols));
    lemma_lookup_rows::<E>(mid, mid_ix, table@, v, old, row, res, cols);
}

/// The rows of a key lookup read with every column, on a table that holds
/// the row under that key and no other entry under an equivalent key.
proof fn lemma_lookup_rows<E: StorageEngine>(mid: Map<Seq<char>, TableModel>, mid_ix: crate::storage::engine::IndexEntries,
    table: Seq<char>, v: SValue,
    old: Seq<(SValue, Seq<SValue>)>, row: Seq<SValue>, res: ExecuteResult, cols: Seq<SColumn>)
    requires
        mid.contains_key(table),
        distinct_names(cols),
        row.len() == cols.len(),
        inserted_somewhere(old, mid[table].entries, (v, row)),
        !key_taken::<E>(old, v),
        E::same_key(v, v),
        crate::sql::executor::query_result::<E>(res, crate::sql::planner::SPlan::Projection {
            input: Box::new(crate::sql::planner::SPlan::PointLookup { table, pk: v }),
            columns: cols.map_values(|c: SColumn| c.name),
        }, mid, mid_ix, cols),
    ensures
        res matches ExecuteResult::QueryResult { rows, .. } && value_rows_view(rows@) == seq![row],
{
    let all = cols.map_values(|c: SColumn| c.name);
    let out = value_rows_view(res->QueryResult_rows@);
    let lookup = crate::sql::planner::SPlan::PointLookup { table, pk: v };
    let p = crate::sql::planner::SPlan::Projection { input: Box::new(lookup), columns: all };
    assert(plan_result::<E>(p, mid, mid_ix, cols, out));
    let inp = choose|inp: Seq<Seq<SValue>>| plan_result::<E>(*p->Projection_input, mid, mid_ix, cols, inp)
        && out == project_spec(inp, cols, all);
    assert(lookup_result::<E>(mid, table, v, inp));
    lemma_lookup_new_entry::<E>(mid, table, v, old, row, inp);
    lemma_project_all(row, cols);
    assert(out =~= seq![row]);
}

/// The outcome of a statement is the outcome of its kind.
proof fn lemma_outcome_of<E: StorageEngine>(before: E, after: E, stmt: SqlStatement, r: Result<ExecuteResult, RustMinidbError>)
    requires
        statement_outcome::<E>(before, after, &stmt, r),
    ensures
        match stmt {
            SqlStatement::Insert { table, columns, values, on_conflict } =>
                crate::sql::executor::insert_outcome::<E>(before, after, &table, &columns, &values, &on_conflict, r),
            SqlStatement::Select { table, .. } =>
                after == before && crate::sql::executor::select_outcome::<E>(before, before, &stmt, &table, r),
            SqlStatement::DropTable { name } => crate::sql::executor::drop_outcome::<E>(before, after, &name, r),
            _ => true,
        },
{
    reveal(statement_outcome);
}

/// Read after write: once an INSERT of one row (without ON CONFLICT) into a
/// table has succeeded, a SELECT of all columns whose primary key equals the
/// key the row was stored under gives back exactly that row, and changes
/// nothing — when the engine's key equivalence holds of that key with itself
/// and the table's column names are distinct.
#[verifier::rlimit(80)]
pub proof fn law_read_after_insert<E: StorageEngine>(before: E, after_insert: E, ins: SqlStatement,
    r: Result<ExecuteResult, RustMinidbError>, sel: SqlStatement, after_select: E, q: Result<ExecuteResult, RustMinidbError>,
    v: SValue)
    requires
        statement_outcome::<E>(before, after_insert, &ins, r),
        r is Ok,
        ins matches SqlStatement::Insert { table, columns, values, on_conflict } && values@.len() == 1 && on_conflict is None
            && before.tables().contains_key(table@)
            && distinct_names(before.tables()[table@].schema.columns)
            && ({
                let t = before.tables()[table@];
                let k = pk_pos(t.schema.columns);
                &&& k is Some
                &&& select_all_by_key(sel, table@, t.schema.columns[k->0].name, v)
                &&& forall|row: Seq<SValue>| #[trigger] prepared_row(t, strings_view(columns@), crate::types::values_view(values@[0]@), row)
                    && row.len() == t.schema.columns.len() ==> row[k->0] == v
            }),
        E::same_key(v, v),
        statement_outcome::<E>(after_insert, after_select, &sel, q),
        q is Ok,
    ensures
        after_select == after_insert,
        ins matches SqlStatement::Insert { table, columns, values, .. } && ({
            let t = before.tables()[table@];
            exists|row: Seq<SValue>| #[trigger] prepared_row(t, strings_view(columns@), crate::types::values_view(values@[0]@), row)
                && (q matches Ok(ExecuteResult::QueryResult { rows, .. }) && value_rows_view(rows@) == seq![row])
        }),
{
    lemma_outcome_of::<E>(before, after_insert, ins, r);
    lemma_outcome_of::<E>(after_insert, after_select, sel, q);
    if let SqlStatement::Insert { table, columns, values, on_conflict } = ins {
        let t = before.tables()[table@];
        lemma_insert_effect::<E>(before, after_insert, &table, &columns, &values, r);
        let row = choose|row: Seq<SValue>| #[trigger] prepared_row(t, strings_view(columns@),
            crate::types::values_view(values@[0]@), row) && ({
            let k = pk_pos(t.schema.columns)->0;
            &&& row_fits(t.schema.columns, row)
            &&& pk_pos(t.schema.columns) is Some
            &&& !key_taken::<E>(t.entries, row[k])
            &&& after_insert.tables().contains_key(table@)
            &&& after_insert.tables()[table@].schema == t.schema
            &&& inserted_somewhere(t.entries, after_insert.tables()[table@].entries, (row[k], row))
        });
        let k = pk_pos(t.schema.columns)->0;
        assert(row[k] == v);
        if let SqlStatement::Select { table: st, .. } = sel {
            lemma_select_effect::<E>(after_insert, sel, &table, q, v, t.entries, row);
        }
    }
}

/// A table that was dropped cannot be read: once `DROP TABLE t` has
/// succeeded, any SELECT from `t` fails.
#[verifier::rlimit(80)]
pub proof fn law_select_after_drop<E: StorageEngine>(before: E, after_drop: E, drop: SqlStatement,
    r: Result<ExecuteResult, RustMinidbError>, sel: SqlStatement, after_select: E, q: Result<ExecuteResult, RustMinidbError>)
    requires
        statement_outcome::<E>(before, after_drop, &drop, r),
        r is Ok,
        drop matches SqlStatement::DropTable { name } && (sel matches SqlStatement::Select { table, .. } && table@ == name@),
        statement_outcome::<E>(after_drop, after_select, &sel, q),
    ensures
        q is Err,
        after_select == after_drop,
{
    lemma_outcome_of::<E>(before, after_drop, drop, r);
    lemma_outcome_of::<E>(after_drop, after_select, sel, q);
}

/// A second row under a taken key is refused: an INSERT of one row without
/// ON CONFLICT fails when the table already holds an entry under a key
/// equivalent to the key the row would be stored under.
#[verifier::rlimit(80)]
pub proof fn law_duplicate_key_refused<E: StorageEngine>(before: E, after: E, ins: SqlStatement,
    r: Result<ExecuteResult, RustMinidbError>, v: SValue)
    requires
        statement_outcome::<E>(before, after, &ins, r),
        ins matches SqlStatement::Insert { table, columns, values, on_conflict } && values@.len() == 1 && on_conflict is None
            && before.tables().contains_key(table@)
            && ({
                let t = before.tables()[table@];
                let k = pk_pos(t.schema.columns);
                &&& k is Some
                &&& key_taken::<E>(t.entries, v)
                &&& forall|row: Seq<SValue>| #[trigger] prepared_row(t, strings_view(columns@), crate::types::values_view(values@[0]@), row)
                    && row.len() == t.schema.columns.len() ==> row[k->0] == v
            }),
    ensures
        r is Err,
{
    lemma_outcome_of::<E>(before, after, ins, r);
    if let SqlStatement::Insert { table, columns, values, on_conflict } = ins {
        if r is Ok {
            let t = before.tables()[table@];
            lemma_insert_effect::<E>(before, after, &table, &columns, &values, r);
            let row = choose|row: Seq<SValue>| #[trigger] prepared_row(t, strings_view(columns@),
                crate::types::values_view(values@[0]@), row) && ({
                let k = pk_pos(t.schema.columns)->0;
                &&& row_fits(t.schema.columns, row)
                &&& pk_pos(t.schema.columns) is Some
                &&& !key_taken::<E>(t.entries, row[k])
                &&& after.tables().contains_key(table@)
                &&& after.tables()[table@].schema == t.schema
                &&& inserted_somewhere(t.entries, after.tables()[table@].entries, (row[k], row))
            });
            assert(row[pk_pos(t.schema.columns)->0] == v);
        }
    }
}

} // verus!
