//! Execution of statements against a storage engine.

use vstd::prelude::*;
use crate::types::{Value, SValue, Row, ColumnDef, FloatOps};
use crate::schema::{TableSchema, STable, SColumn, IndexDef, columns_view, copy_columns, col_pos, pk_pos};
use crate::error::{RustMinidbError, ExecError, SExecError};
use crate::storage::engine::{StorageEngine, TableModel, SIndex};
use crate::strutil::{push_str, str_eq};
use crate::sql::ast::{AlterTableOperation, SAlter, SConflict, OnConflictAction, strings_view, copy_strings};
use crate::sql::planner::{PlanNode, SPlan, Planner, plan_of};
use crate::sql::ast::{SqlStatement, WhereClause, SWhere};
use crate::sql::planner::opt_where_view;
use crate::sql::predicate::{eval_pred, evaluate_predicate};
use crate::schema::{pk_value, entries_view, row_fits};
use crate::sql::eval::{plan_result, plan_safe, plan_columns, table_rows, stored_row, lookup_result, aggregate_result};
use crate::sql::rows::{pred_ok_all, filter_spec, rows_view, filter_rows, project_rows, sort_rows, limit_rows};
use crate::sql::aggregate::{execute_aggregate, group_positions};
use crate::encoding::{serialize_value, deserialize_value};
use crate::storage::engine::model_rows;

verus! {

/// The outcome of a statement.
#[derive(Debug)]
pub enum ExecuteResult {
    /// Rows returned by a query.
    QueryResult { columns: Vec<String>, rows: Vec<Vec<Value>>, rows_affected: usize },
    /// The effect of a write.
    WriteResult { rows_affected: usize, last_insert_id: Option<i64> },
}

/// Runs statements against a storage engine; floating-point work goes to `F`.
pub struct Executor<E: StorageEngine, F: FloatOps> {
    engine: E,
    floats: F,
}

/// `a + b + c` as one string.
fn concat3(a: &str, b: &str, c: &str) -> (r: String)
    ensures
        r@ == a@ + b@ + c@,
{
    let mut s = String::new();
    push_str(&mut s, a);
    push_str(&mut s, b);
    push_str(&mut s, c);
    s
}

/// The number of primary-key columns.
pub open spec fn pk_count(cols: Seq<SColumn>) -> nat
    decreases cols.len(),
{
    if cols.len() == 0 {
        0
    } else {
        pk_count(cols.drop_last()) + if cols.last().is_primary_key { 1nat } else { 0nat }
    }
}

/// Why a list of column definitions cannot make a table, if it cannot: it
/// needs exactly one primary-key column, and that column must be NOT NULL.
pub open spec fn create_error(cols: Seq<SColumn>) -> Option<Seq<char>> {
    if pk_count(cols) == 0 {
        Some("每个表必须有主键"@)
    } else if pk_count(cols) > 1 {
        Some("MVP 只支持单列主键"@)
    } else if cols[pk_pos(cols)->0].nullable {
        Some("主键列 '"@ + cols[pk_pos(cols)->0].name + "' 不能为 NULL"@)
    } else {
        None
    }
}

/// The schema of a new table: its columns, its primary-key column's name as
/// the primary key, and no comment.
pub open spec fn created_schema(name: Seq<char>, cols: Seq<SColumn>) -> STable {
    STable { name, columns: cols, primary_key: seq![cols[pk_pos(cols)->0].name], comment: None }
}

/// Checks the column definitions of a new table and builds its schema.
#[verifier::rlimit(30)]
pub fn table_schema_for(name: &str, columns: &Vec<ColumnDef>) -> (r: Result<TableSchema, ExecError>)
    ensures
        match create_error(columns_view(columns@)) {
            Some(msg) => r matches Err(e) && e@ == SExecError::Validation(msg),
            None => r matches Ok(s) && s@ == created_schema(name@, columns_view(columns@)),
        },
{
    let ghost cols = columns_view(columns@);
    let mut count: usize = 0;
    let mut first: usize = 0;
    let mut i: usize = 0;
    while i < columns.len()
        invariant
            i <= columns@.len(),
            cols == columns_view(columns@),
            count == pk_count(cols.take(i as int)),
            count <= i,
            count > 0 ==> first < i && cols[first as int].is_primary_key,
            count > 0 ==> forall|j: int| 0 <= j < first ==> !(#[trigger] cols[j]).is_primary_key,
            count == 0 ==> forall|j: int| 0 <= j < i ==> !(#[trigger] cols[j]).is_primary_key,
        decreases columns.len() - i,
    {
        proof {
            assert(cols.take(i + 1).drop_last() =~= cols.take(i as int));
            assert(cols[i as int] == columns@[i as int]@);
        }
        if columns[i].is_primary_key {
            if count == 0 {
                first = i;
            }
            count += 1;
        }
        i += 1;
    }
    assert(cols.take(i as int) =~= cols);
    if count == 0 {
        return Err(ExecError::Validation(String::from_str("每个表必须有主键")));
    }
    if count > 1 {
        return Err(ExecError::Validation(String::from_str("MVP 只支持单列主键")));
    }
    let pk = &columns[first];
    assert(cols[first as int] == pk@);
    proof { crate::schema::lemma_first_pk(cols, first as int); }
    if pk.nullable {
        return Err(ExecError::Validation(concat3("主键列 '", pk.name.as_str(), "' 不能为 NULL")));
    }
    let mut primary_key: Vec<String> = Vec::new();
    primary_key.push(pk.name.clone());
    let s = TableSchema { name: name.to_owned(), columns: copy_columns(columns), primary_key, comment: None };
    assert(s@.primary_key =~= seq![pk.name@]);
    Ok(s)
}

/// What an `ALTER TABLE` operation makes of a table's schema, or why it fails.
pub open spec fn alter_result(s: STable, table: Seq<char>, op: SAlter) -> Result<STable, SExecError> {
    match op {
        SAlter::AddColumn { column_def } => if col_pos(s.columns, column_def.name) is Some {
            Err(SExecError::Validation("列 '"@ + column_def.name + "' 已存在于表 '"@ + table + "'"@))
        } else {
            Ok(STable { columns: s.columns.push(column_def), ..s })
        },
        SAlter::DropColumn { column_name } => match col_pos(s.columns, column_name) {
            None => Err(SExecError::ColumnNotFound(column_name)),
            Some(k) => if s.columns[k].is_primary_key {
                Err(SExecError::Validation("不能删除主键列 '"@ + column_name + "'"@))
            } else {
                Ok(STable { columns: s.columns.remove(k), ..s })
            },
        },
    }
}

/// Applies an `ALTER TABLE` operation to a schema.
pub fn altered_schema(schema: &TableSchema, table: &str, op: &AlterTableOperation) -> (r: Result<TableSchema, ExecError>)
    ensures
        match alter_result(schema@, table@, op@) {
            Ok(t) => r matches Ok(x) && x@ == t,
            Err(e) => r matches Err(x) && x@ == e,
        },
{
    let mut s = schema.copy();
    match op {
        AlterTableOperation::AddColumn { column_def } => {
            if schema.col_index(column_def.name.as_str()).is_some() {
                let mut m = concat3("列 '", column_def.name.as_str(), "' 已存在于表 '");
                push_str(&mut m, table);
                push_str(&mut m, "'");
                return Err(ExecError::Validation(m));
            }
            s.columns.push(column_def.copy());
            assert(s@.columns =~= schema@.columns.push(column_def@));
        },
        AlterTableOperation::DropColumn { column_name } => {
            let k = match schema.col_index(column_name.as_str()) {
                Some(k) => k,
                None => {
                    return Err(ExecError::ColumnNotFound(column_name.clone()));
                },
            };
            assert(schema@.columns[k as int] == schema.columns@[k as int]@);
            if schema.columns[k].is_primary_key {
                return Err(ExecError::Validation(concat3("不能删除主键列 '", column_name.as_str(), "'")));
            }
            s.columns.remove(k);
            assert(s@.columns =~= schema@.columns.remove(k as int));
        },
    }
    Ok(s)
}

/// The views of a list of value lists.
pub open spec fn value_rows_view(rows: Seq<Vec<Value>>) -> Seq<Seq<SValue>> {
    rows.map_values(|v: Vec<Value>| crate::types::values_view(v@))
}

/// The indexes of a table, none for a table without an entry.
pub open spec fn table_indexes(idx: Map<Seq<char>, Seq<SIndex>>, t: Seq<char>) -> Seq<SIndex> {
    if idx.contains_key(t) { idx[t] } else { Seq::empty() }
}

/// Whether a query may run on the stored tables: for the index list the
/// planner may see (the table's indexes, or none when listing them fails),
/// evaluating the plan reads only columns that exist in the rows it meets.
pub open spec fn select_safe<E: StorageEngine>(stmt: SqlStatement, table: Seq<char>, tables: Map<Seq<char>, TableModel>,
    idx: Map<Seq<char>, Seq<SIndex>>, ix: crate::storage::engine::IndexEntries) -> bool
{
    tables.contains_key(table) ==> {
        let s = tables[table].schema;
        &&& (plan_of(stmt, s, table_indexes(idx, table)) matches Some(p) ==> plan_safe::<E>(p, tables, ix, s.columns))
        &&& (plan_of(stmt, s, Seq::empty()) matches Some(p) ==> plan_safe::<E>(p, tables, ix, s.columns))
    }
}

/// Whether `res` is a query result of the plan: the plan's columns, rows it
/// yields, and their count.
pub open spec fn query_result<E: StorageEngine>(res: ExecuteResult, p: SPlan, tables: Map<Seq<char>, TableModel>, ix: crate::storage::engine::IndexEntries, cols: Seq<SColumn>) -> bool {
    res matches ExecuteResult::QueryResult { columns, rows, rows_affected }
        && strings_view(columns@) == plan_columns(p, cols)
        && plan_result::<E>(p, tables, ix, cols, value_rows_view(rows@))
        && rows_affected == rows@.len()
}

/// Whether the columns of every index that exist lie within a row of `len` values.
pub open spec fn index_columns_fit(idx: Seq<SIndex>, cols: Seq<SColumn>, len: nat) -> bool {
    forall|i: int, j: int| #![trigger idx[i].columns[j]] 0 <= i < idx.len() && 0 <= j < idx[i].columns.len()
        ==> (col_pos(cols, idx[i].columns[j]) matches Some(k) ==> k < len)
}

/// Whether the primary-key column, if any, lies within a row of `len` values.
pub open spec fn pk_fits(cols: Seq<SColumn>, len: nat) -> bool {
    pk_pos(cols) matches Some(k) ==> k < len
}

/// The rows a condition selects (all rows without one).
pub open spec fn matching_rows(w: Option<SWhere>, cols: Seq<SColumn>, rows: Seq<Seq<SValue>>) -> Seq<Seq<SValue>> {
    match w {
        Some(p) => filter_spec(p, cols, rows),
        None => rows,
    }
}

/// The value at position `k` of each row.
pub open spec fn column_of(rows: Seq<Seq<SValue>>, k: int) -> Seq<SValue> {
    rows.map_values(|r: Seq<SValue>| r[k])
}

/// The entries left after removing, for each key in turn, the entries whose
/// key is equivalent to it.
pub open spec fn without_keys<E: StorageEngine>(entries: Seq<(SValue, Seq<SValue>)>, keys: Seq<SValue>) -> Seq<(SValue, Seq<SValue>)>
    decreases keys.len(),
{
    if keys.len() == 0 {
        entries
    } else {
        without_keys::<E>(entries, keys.drop_last()).filter(|e: (SValue, Seq<SValue>)| !E::same_key(e.0, keys.last()))
    }
}

/// The tables with new entries for table `t`.
pub open spec fn with_entries(tables: Map<Seq<char>, TableModel>, t: Seq<char>, entries: Seq<(SValue, Seq<SValue>)>) -> Map<Seq<char>, TableModel> {
    tables.insert(t, TableModel { schema: tables[t].schema, entries })
}

/// Whether a DELETE may run: as an UPDATE that assigns nothing, its
/// condition's columns exist in every row, and every row it selects holds its
/// primary-key column (which must exist) and the columns of the table's indexes.
pub open spec fn delete_safe(w: Option<SWhere>, t: TableModel, idx: Seq<SIndex>) -> bool {
    update_safe(w, t, idx, Seq::empty())
}

/// Selecting from one more row selects that row too when it matches.
pub proof fn lemma_matching_prefix(w: Option<SWhere>, cols: Seq<SColumn>, rows: Seq<Seq<SValue>>, i: int)
    requires
        0 <= i < rows.len(),
    ensures
        matching_rows(w, cols, rows.take(i + 1)) == if w is None || eval_pred(w->0, cols, rows[i]) {
            matching_rows(w, cols, rows.take(i)).push(rows[i])
        } else {
            matching_rows(w, cols, rows.take(i))
        },
        matching_rows(w, cols, rows.take(i)).len() <= i,
{
    reveal_with_fuel(Seq::<_>::filter, 1);
    assert(rows.take(i + 1).drop_last() =~= rows.take(i));
    assert(rows.take(i + 1) =~= rows.take(i).push(rows[i]));
    match w {
        Some(p) => {
            rows.take(i).lemma_filter_len(|r: Seq<SValue>| eval_pred(p, cols, r));
        },
        None => {},
    }
}

/// What a condition selects from a prefix of the rows is a prefix of what it
/// selects from all of them.
pub proof fn lemma_matching_is_prefix(w: Option<SWhere>, cols: Seq<SColumn>, rows: Seq<Seq<SValue>>, i: int)
    requires
        0 <= i <= rows.len(),
    ensures
        matching_rows(w, cols, rows.take(i)).len() <= matching_rows(w, cols, rows).len(),
        matching_rows(w, cols, rows).take(matching_rows(w, cols, rows.take(i)).len() as int) == matching_rows(w, cols, rows.take(i)),
    decreases rows.len() - i,
{
    if i == rows.len() {
        assert(rows.take(i) =~= rows);
        assert(matching_rows(w, cols, rows).take(matching_rows(w, cols, rows).len() as int) =~= matching_rows(w, cols, rows));
    } else {
        lemma_matching_is_prefix(w, cols, rows, i + 1);
        lemma_matching_prefix(w, cols, rows, i);
        let a = matching_rows(w, cols, rows.take(i));
        let b = matching_rows(w, cols, rows.take(i + 1));
        let m = matching_rows(w, cols, rows);
        assert(m.take(a.len() as int) =~= b.take(a.len() as int));
        assert(b.take(a.len() as int) =~= a);
    }
}

/// A row with assignments applied in order, each to the first column with
/// its name.
pub open spec fn assigned(r: Seq<SValue>, cols: Seq<SColumn>, asg: Seq<(Seq<char>, SValue)>) -> Seq<SValue>
    decreases asg.len(),
{
    if asg.len() == 0 {
        r
    } else {
        assigned(r, cols, asg.drop_last()).update(col_pos(cols, asg.last().0)->0, asg.last().1)
    }
}

proof fn lemma_assigned_len(r: Seq<SValue>, cols: Seq<SColumn>, asg: Seq<(Seq<char>, SValue)>)
    requires
        forall|i: int| 0 <= i < asg.len() ==> (col_pos(cols, (#[trigger] asg[i]).0) matches Some(k) && 0 <= k < r.len()),
    ensures
        assigned(r, cols, asg).len() == r.len(),
    decreases asg.len(),
{
    if asg.len() > 0 {
        assert forall|i: int| 0 <= i < asg.drop_last().len() implies (col_pos(cols, (#[trigger] asg.drop_last()[i]).0) matches Some(k) && 0 <= k < r.len()) by {
            assert(asg.drop_last()[i] == asg[i]);
        }
        lemma_assigned_len(r, cols, asg.drop_last());
        assert(col_pos(cols, asg[asg.len() - 1].0) is Some);
    }
}

/// Whether every assigned column exists.
pub open spec fn assigned_columns_exist(cols: Seq<SColumn>, asg: Seq<(Seq<char>, SValue)>) -> bool {
    forall|i: int| 0 <= i < asg.len() ==> col_pos(cols, (#[trigger] asg[i]).0) is Some
}

/// Whether an assignment names the primary-key column.
pub open spec fn assigns_pk(cols: Seq<SColumn>, asg: Seq<(Seq<char>, SValue)>) -> bool {
    pk_pos(cols) matches Some(k) && exists|i: int| 0 <= i < asg.len() && (#[trigger] asg[i]).0 == cols[k].name
}

/// Whether the assigned columns that exist lie within a row of `len` values.
pub open spec fn assignments_fit(cols: Seq<SColumn>, asg: Seq<(Seq<char>, SValue)>, len: nat) -> bool {
    forall|i: int| 0 <= i < asg.len() ==> (col_pos(cols, (#[trigger] asg[i]).0) matches Some(k) ==> k < len)
}

/// One stored update: the entries with a key equivalent to `pk` get the new
/// row, or a new entry is put in when there is none.
pub open spec fn update_step<E: StorageEngine>(before: Seq<(SValue, Seq<SValue>)>, pk: SValue, row: Seq<SValue>,
    after: Seq<(SValue, Seq<SValue>)>) -> bool
{
    if exists|i: int| 0 <= i < before.len() && #[trigger] E::same_key(before[i].0, pk) {
        after.len() == before.len() && forall|i: int| 0 <= i < before.len() ==> #[trigger] after[i] == if E::same_key(before[i].0, pk) {
            (before[i].0, row)
        } else {
            before[i]
        }
    } else {
        crate::storage::engine::inserted_somewhere(before, after, (pk, row))
    }
}

/// Whether `states` runs from `before` through the stored updates in order.
pub open spec fn update_chain<E: StorageEngine>(before: Seq<(SValue, Seq<SValue>)>, ups: Seq<(SValue, Seq<SValue>)>,
    states: Seq<Seq<(SValue, Seq<SValue>)>>) -> bool
{
    &&& states.len() == ups.len() + 1
    &&& states[0] == before
    &&& forall|i: int| 0 <= i < ups.len() ==> update_step::<E>(#[trigger] states[i], ups[i].0, ups[i].1, states[i + 1])
}

/// Whether `after` comes from `before` by the stored updates in order.
pub open spec fn updates_applied<E: StorageEngine>(before: Seq<(SValue, Seq<SValue>)>, ups: Seq<(SValue, Seq<SValue>)>,
    after: Seq<(SValue, Seq<SValue>)>) -> bool
{
    exists|states: Seq<Seq<(SValue, Seq<SValue>)>>| #[trigger] update_chain::<E>(before, ups, states) && states.last() == after
}

proof fn lemma_updates_push<E: StorageEngine>(e0: Seq<(SValue, Seq<SValue>)>, ups: Seq<(SValue, Seq<SValue>)>, k: int,
    mid: Seq<(SValue, Seq<SValue>)>, after: Seq<(SValue, Seq<SValue>)>)
    requires
        0 <= k < ups.len(),
        updates_applied::<E>(e0, ups.take(k), mid),
        update_step::<E>(mid, ups[k].0, ups[k].1, after),
    ensures
        updates_applied::<E>(e0, ups.take(k + 1), after),
{
    let states = choose|states: Seq<Seq<(SValue, Seq<SValue>)>>| update_chain::<E>(e0, ups.take(k), states) && states.last() == mid;
    let s2 = states.push(after);
    let u = ups.take(k + 1);
    assert forall|i: int| 0 <= i < u.len() implies update_step::<E>(#[trigger] s2[i], u[i].0, u[i].1, s2[i + 1]) by {
        if i < k {
            assert(s2[i] == states[i] && s2[i + 1] == states[i + 1]);
            assert(u[i] == ups.take(k)[i]);
        } else {
            assert(s2[i] == mid && s2[i + 1] == after);
        }
    }
    assert(update_chain::<E>(e0, u, s2));
    assert(s2.last() == after);
}

proof fn lemma_no_updates<E: StorageEngine>(e0: Seq<(SValue, Seq<SValue>)>, ups: Seq<(SValue, Seq<SValue>)>)
    ensures
        updates_applied::<E>(e0, ups.take(0), e0),
{
    let states = seq![e0];
    assert(update_chain::<E>(e0, ups.take(0), states));
    assert(states.last() == e0);
}

/// What `update_row` stores, as one update step.
proof fn lemma_update_row_step<E: StorageEngine>(before: Seq<(SValue, Seq<SValue>)>, pk: SValue, row: Seq<SValue>,
    after: Seq<(SValue, Seq<SValue>)>)
    requires
        if exists|i: int| 0 <= i < before.len() && #[trigger] E::same_key(before[i].0, pk) {
            after == before.map_values(|e: (SValue, Seq<SValue>)| if E::same_key(e.0, pk) { (e.0, row) } else { e })
        } else {
            crate::storage::engine::inserted_somewhere(before, after, (pk, row))
        },
    ensures
        update_step::<E>(before, pk, row, after),
{
    if exists|i: int| 0 <= i < before.len() && #[trigger] E::same_key(before[i].0, pk) {
        assert(after.len() == before.len());
        assert forall|i: int| 0 <= i < before.len() implies #[trigger] after[i] == if E::same_key(before[i].0, pk) {
            (before[i].0, row)
        } else {
            before[i]
        } by {
            assert(after[i] == before.map_values(|e: (SValue, Seq<SValue>)| if E::same_key(e.0, pk) { (e.0, row) } else { e })[i]);
        }
    }
}

/// The stored updates of an UPDATE: for each selected row, its primary-key
/// value and the row with the assignments applied.
pub open spec fn update_list(m: Seq<Seq<SValue>>, cols: Seq<SColumn>, asg: Seq<(Seq<char>, SValue)>) -> Seq<(SValue, Seq<SValue>)> {
    m.map_values(|r: Seq<SValue>| (r[pk_pos(cols)->0], assigned(r, cols, asg)))
}

/// Whether an UPDATE may run: its condition's columns exist in every row, and
/// every row it selects holds the assigned columns, its primary-key column
/// (which must exist) and the columns of the table's indexes.
pub open spec fn update_safe(w: Option<SWhere>, t: TableModel, idx: Seq<SIndex>, asg: Seq<(Seq<char>, SValue)>) -> bool {
    let cols = t.schema.columns;
    let rows = model_rows(t);
    &&& (w matches Some(p) ==> pred_ok_all(p, cols, rows))
    &&& forall|i: int| 0 <= i < matching_rows(w, cols, rows).len()
        ==> write_fits(cols, idx, asg, (#[trigger] matching_rows(w, cols, rows)[i]).len())
}

/// Whether a row of `len` values holds the primary key (which must exist),
/// every index column and every assigned column.
pub open spec fn write_fits(cols: Seq<SColumn>, idx: Seq<SIndex>, asg: Seq<(Seq<char>, SValue)>, len: nat) -> bool {
    &&& pk_pos(cols) is Some
    &&& pk_fits(cols, len)
    &&& index_columns_fit(idx, cols, len)
    &&& assignments_fit(cols, asg, len)
}

/// The largest integer at position `p` among the rows long enough to have
/// one, or 0 when none is larger.
pub open spec fn max_int_at(rows: Seq<Seq<SValue>>, p: int) -> int
    decreases rows.len(),
{
    if rows.len() == 0 {
        0
    } else {
        let m = max_int_at(rows.drop_last(), p);
        let r = rows.last();
        if 0 <= p < r.len() && r[p] is Integer && r[p]->Integer_0 > m { r[p]->Integer_0 as int } else { m }
    }
}

/// The next AUTO_INCREMENT value: one more than the largest stored integer
/// of the column (wrapping), 1 when there is none or the column is unknown.
pub open spec fn next_id(rows: Seq<Seq<SValue>>, p: Option<int>) -> i64 {
    let m = match p {
        Some(k) => max_int_at(rows, k),
        None => 0,
    };
    if m >= i64::MAX { i64::MIN } else { (m + 1) as i64 }
}

/// Whether some row long enough to have a value at `k` holds the integer `v` there.
pub open spec fn int_stored_at(rows: Seq<Seq<SValue>>, k: int, v: int) -> bool {
    exists|i: int| 0 <= i < rows.len() && k < rows[i].len() && #[trigger] rows[i][k] == SValue::Integer(v as i64)
}

/// The next AUTO_INCREMENT value of a column is one more than the largest
/// integer stored in it: it lies above every stored integer of the column,
/// and one less than it is either 0 (nothing larger stored) or a stored
/// integer. This holds while no stored value of the column is `i64::MAX`.
pub proof fn law_next_id_above_stored(rows: Seq<Seq<SValue>>, k: int)
    requires
        0 <= k,
        forall|i: int| 0 <= i < rows.len() && k < rows[i].len() ==> #[trigger] rows[i][k] != SValue::Integer(i64::MAX),
    ensures
        forall|i: int| 0 <= i < rows.len() && k < rows[i].len() && (#[trigger] rows[i][k]) is Integer
            ==> rows[i][k]->Integer_0 < next_id(rows, Some(k)),
        next_id(rows, Some(k)) >= 1,
        next_id(rows, Some(k)) == 1 || int_stored_at(rows, k, next_id(rows, Some(k)) - 1),
    decreases rows.len(),
{
    lemma_max_int_at(rows, k);
    let m = max_int_at(rows, k);
    if m != 0 {
        let i = choose|i: int| 0 <= i < rows.len() && k < rows[i].len() && rows[i][k] == SValue::Integer(m as i64);
        assert(rows[i][k] != SValue::Integer(i64::MAX));
        assert(m < i64::MAX);
        assert(int_stored_at(rows, k, next_id(rows, Some(k)) - 1));
    }
}

/// `max_int_at` bounds every stored integer, is at least 0, and is 0 or stored.
proof fn lemma_max_int_at(rows: Seq<Seq<SValue>>, k: int)
    requires
        0 <= k,
    ensures
        max_int_at(rows, k) >= 0,
        max_int_at(rows, k) <= i64::MAX,
        forall|i: int| 0 <= i < rows.len() && k < rows[i].len() && (#[trigger] rows[i][k]) is Integer
            ==> rows[i][k]->Integer_0 <= max_int_at(rows, k),
        max_int_at(rows, k) == 0 || exists|i: int| 0 <= i < rows.len() && k < rows[i].len()
            && #[trigger] rows[i][k] == SValue::Integer(max_int_at(rows, k) as i64),
    decreases rows.len(),
{
    if rows.len() > 0 {
        let init = rows.drop_last();
        lemma_max_int_at(init, k);
        let m = max_int_at(init, k);
        assert forall|i: int| 0 <= i < rows.len() && k < rows[i].len() && (#[trigger] rows[i][k]) is Integer
            implies rows[i][k]->Integer_0 <= max_int_at(rows, k) by {
            if i < rows.len() - 1 {
                assert(init[i] == rows[i]);
            }
        }
        if max_int_at(rows, k) != 0 {
            if max_int_at(rows, k) == m {
                let j = choose|j: int| 0 <= j < init.len() && k < init[j].len()
                    && #[trigger] init[j][k] == SValue::Integer(m as i64);
                assert(rows[j] == init[j]);
            } else {
                assert(rows[rows.len() - 1][k] == SValue::Integer(max_int_at(rows, k) as i64));
            }
        }
    }
}

/// Two AUTO_INCREMENT inserts in a row count up: once a row holding the
/// column's next value is stored, the next value after it is one more.
pub proof fn law_next_id_counts_up(rows: Seq<Seq<SValue>>, k: int, row: Seq<SValue>)
    requires
        0 <= k < row.len(),
        row[k] == SValue::Integer(next_id(rows, Some(k))),
        next_id(rows, Some(k)) < i64::MAX,
        next_id(rows, Some(k)) > 0,
    ensures
        next_id(rows.push(row), Some(k)) == next_id(rows, Some(k)) + 1,
{
    assert(rows.push(row).drop_last() =~= rows);
    assert(rows.push(row).last() == row);
}

/// Whether `out` is `vals` with every AUTO_INCREMENT column that holds NULL
/// or 0 given the column's next value, as computed from the stored rows.
pub open spec fn auto_filled(cols: Seq<SColumn>, rows: Seq<Seq<SValue>>, vals: Seq<SValue>, out: Seq<SValue>) -> bool {
    &&& out.len() == vals.len()
    &&& forall|i: int| 0 <= i < vals.len() ==> if i < cols.len() && cols[i].auto_increment
            && (vals[i] is Null || vals[i] == SValue::Integer(0)) {
            #[trigger] out[i] == SValue::Integer(next_id(rows, col_pos(cols, cols[i].name)))
        } else {
            out[i] == vals[i]
        }
}

/// The (name, value) pairs of an INSERT row: names and values matched up by
/// position, as far as both go.
pub open spec fn zip_entries(names: Seq<Seq<char>>, vals: Seq<SValue>) -> Seq<(Seq<char>, SValue)> {
    Seq::new(if names.len() <= vals.len() { names.len() } else { vals.len() }, |i: int| (names[i], vals[i]))
}

/// The row an INSERT row builds before conversion: the values in schema order
/// when no columns are named, else each column's named value, NULL or default;
/// `None` when a column gets none of these.
pub open spec fn built_row(cols: Seq<SColumn>, names: Seq<Seq<char>>, vals: Seq<SValue>) -> Option<Seq<SValue>> {
    if names.len() == 0 {
        Some(vals)
    } else if forall|i: int| 0 <= i < cols.len() ==> (#[trigger] crate::schema::column_fill(cols[i], zip_entries(names, vals))) is Some {
        Some(Seq::new(cols.len(), |i: int| crate::schema::column_fill(cols[i], zip_entries(names, vals))->0))
    } else {
        None
    }
}

/// Whether `out` is a row an INSERT row may become before it is stored: built,
/// converted to the column types, and given its AUTO_INCREMENT values.
pub open spec fn prepared_row(t: TableModel, names: Seq<Seq<char>>, vals: Seq<SValue>, out: Seq<SValue>) -> bool {
    built_row(t.schema.columns, names, vals) matches Some(b) && exists|c: Seq<SValue>|
        #[trigger] crate::sql::coerce::row_coerced(t.schema.columns, b, c) && auto_filled(t.schema.columns, model_rows(t), c, out)
}

/// A stored row with the ON CONFLICT assignments applied, in order, to the
/// columns that exist.
pub open spec fn upsert_row(old: Seq<SValue>, cols: Seq<SColumn>, asg: Seq<(Seq<char>, SValue)>) -> Seq<SValue>
    decreases asg.len(),
{
    if asg.len() == 0 {
        old
    } else {
        let r = upsert_row(old, cols, asg.drop_last());
        match col_pos(cols, asg.last().0) {
            Some(k) => r.update(k, asg.last().1),
            None => r,
        }
    }
}

/// The id an INSERT reports: the last row's value for an integer primary-key
/// column (taken by position when no columns are named, else by the
/// column's name), when that value is an integer.
pub open spec fn last_insert_id(cols: Seq<SColumn>, names: Seq<Seq<char>>, rows: Seq<Seq<SValue>>) -> Option<i64> {
    match pk_pos(cols) {
        Some(k) => if cols[k].col_type == crate::types::ColumnType::Integer && rows.len() > 0 {
            let last = rows.last();
            let p: Option<int> = if names.len() == 0 {
                Some(k)
            } else {
                crate::sql::executor::name_pos(names, cols[k].name)
            };
            match p {
                Some(q) => if 0 <= q < last.len() && last[q] is Integer { Some(last[q]->Integer_0) } else { None },
                None => None,
            }
        } else {
            None
        },
        None => None,
    }
}

/// The position of the first name equal to `n`.
pub open spec fn name_pos(names: Seq<Seq<char>>, n: Seq<char>) -> Option<int> {
    if exists|i: int| 0 <= i < names.len() && names[i] == n {
        Some(choose|i: int| 0 <= i < names.len() && names[i] == n && forall|j: int| 0 <= j < i ==> names[j] != n)
    } else {
        None
    }
}

proof fn lemma_upsert_len(old: Seq<SValue>, cols: Seq<SColumn>, asg: Seq<(Seq<char>, SValue)>)
    requires
        assignments_fit(cols, asg, old.len()),
    ensures
        upsert_row(old, cols, asg).len() == old.len(),
    decreases asg.len(),
{
    if asg.len() > 0 {
        assert forall|i: int| 0 <= i < asg.drop_last().len() implies (col_pos(cols, (#[trigger] asg.drop_last()[i]).0) matches Some(k) ==> k < old.len()) by {
            assert(asg.drop_last()[i] == asg[i]);
        }
        lemma_upsert_len(old, cols, asg.drop_last());
        crate::schema::lemma_col_pos_range(cols, asg.last().0);
        assert(asg.last() == asg[asg.len() - 1]);
    }
}

/// Whether some entry's key is equivalent to `key`.
pub open spec fn key_taken<E: StorageEngine>(entries: Seq<(SValue, Seq<SValue>)>, key: SValue) -> bool {
    exists|i: int| 0 <= i < entries.len() && #[trigger] E::same_key(entries[i].0, key)
}

/// One INSERT row's effect on a table's entries: the prepared row is stored
/// under its key when no entry has an equivalent key; otherwise ON CONFLICT
/// DO NOTHING leaves the entries, DO UPDATE rewrites the entry stored under
/// the row's given key value, and without ON CONFLICT the statement fails.
/// `counted` tells whether the row counts as affected.
#[verifier::opaque]
pub open spec fn insert_step<E: StorageEngine>(t: TableModel, names: Seq<Seq<char>>, vals: Seq<SValue>,
    oc: Option<SConflict>, after: Seq<(SValue, Seq<SValue>)>, counted: bool) -> bool
{
    let cols = t.schema.columns;
    exists|row: Seq<SValue>| #[trigger] prepared_row(t, names, vals, row) && row_fits(cols, row) && pk_pos(cols) is Some && ({
        let key = row[pk_pos(cols)->0];
        ||| (counted && !key_taken::<E>(t.entries, key) && crate::storage::engine::inserted_somewhere(t.entries, after, (key, row)))
        ||| (key_taken::<E>(t.entries, key) && match oc {
                None => false,
                Some(SConflict::DoNothing) => !counted && after == t.entries,
                Some(SConflict::DoUpdate(asg)) => counted && pk_pos(cols)->0 < vals.len() && exists|i: int|
                    0 <= i < t.entries.len() && #[trigger] E::same_key(t.entries[i].0, vals[pk_pos(cols)->0])
                    && update_step::<E>(t.entries, vals[pk_pos(cols)->0], upsert_row(t.entries[i].1, cols, asg), after),
            })
    })
}

/// The number of `true`s.
pub open spec fn count_true(c: Seq<bool>) -> nat
    decreases c.len(),
{
    if c.len() == 0 { 0 } else { count_true(c.drop_last()) + if c.last() { 1nat } else { 0nat } }
}

/// Whether `states` runs from the table's entries through the INSERT rows in order.
pub open spec fn insert_chain<E: StorageEngine>(t: TableModel, names: Seq<Seq<char>>, rows: Seq<Seq<SValue>>,
    oc: Option<SConflict>, states: Seq<Seq<(SValue, Seq<SValue>)>>, counts: Seq<bool>) -> bool
{
    &&& states.len() == rows.len() + 1
    &&& counts.len() == rows.len()
    &&& states[0] == t.entries
    &&& forall|i: int| 0 <= i < rows.len() ==> insert_step::<E>(TableModel { schema: t.schema, entries: #[trigger] states[i] },
            names, rows[i], oc, states[i + 1], counts[i])
}

/// Whether the INSERT rows, in order, take the table's entries to `after`
/// with `n` rows affected.
pub open spec fn inserts_applied<E: StorageEngine>(t: TableModel, names: Seq<Seq<char>>, rows: Seq<Seq<SValue>>,
    oc: Option<SConflict>, after: Seq<(SValue, Seq<SValue>)>, n: nat) -> bool
{
    exists|states: Seq<Seq<(SValue, Seq<SValue>)>>, counts: Seq<bool>|
        #[trigger] insert_chain::<E>(t, names, rows, oc, states, counts) && states.last() == after && count_true(counts) == n
}

/// The view of an optional ON CONFLICT action.
pub open spec fn opt_conflict_view(o: Option<crate::sql::ast::OnConflictAction>) -> Option<SConflict> {
    match o {
        Some(a) => Some(a@),
        None => None,
    }
}

/// Whether every stored row of the table holds the columns that ON CONFLICT
/// DO UPDATE assigns.
pub open spec fn upsert_safe(oc: Option<SConflict>, t: TableModel) -> bool {
    oc matches Some(SConflict::DoUpdate(asg)) ==> forall|i: int| 0 <= i < t.entries.len()
        ==> assignments_fit(t.schema.columns, asg, (#[trigger] t.entries[i]).1.len())
}

/// Every index column that exists lies within a row as long as the schema.
proof fn lemma_index_columns_fit_full(idx: Seq<SIndex>, cols: Seq<SColumn>)
    ensures
        index_columns_fit(idx, cols, cols.len()),
{
    assert forall|i: int, j: int| #![trigger idx[i].columns[j]] 0 <= i < idx.len() && 0 <= j < idx[i].columns.len()
        implies (col_pos(cols, idx[i].columns[j]) matches Some(k) ==> k < cols.len()) by {
        crate::schema::lemma_col_pos_range(cols, idx[i].columns[j]);
    }
}

proof fn lemma_fits_full(cols: Seq<SColumn>, asg: Seq<(Seq<char>, SValue)>)
    ensures
        assignments_fit(cols, asg, cols.len()),
{
    assert forall|i: int| 0 <= i < asg.len() implies (col_pos(cols, (#[trigger] asg[i]).0) matches Some(k) ==> k < cols.len()) by {
        crate::schema::lemma_col_pos_range(cols, asg[i].0);
    }
}

proof fn lemma_inserted_fits(before: Seq<(SValue, Seq<SValue>)>, after: Seq<(SValue, Seq<SValue>)>,
    e: (SValue, Seq<SValue>), cols: Seq<SColumn>, asg: Seq<(Seq<char>, SValue)>)
    requires
        crate::storage::engine::inserted_somewhere(before, after, e),
        forall|i: int| 0 <= i < before.len() ==> assignments_fit(cols, asg, (#[trigger] before[i]).1.len()),
        assignments_fit(cols, asg, e.1.len()),
    ensures
        forall|i: int| 0 <= i < after.len() ==> assignments_fit(cols, asg, (#[trigger] after[i]).1.len()),
{
    let p = choose|p: int| 0 <= p <= before.len() && after == before.insert(p, e);
    assert forall|i: int| 0 <= i < after.len() implies assignments_fit(cols, asg, (#[trigger] after[i]).1.len()) by {
        if i < p {
            assert(after[i] == before[i]);
        } else if i > p {
            assert(after[i] == before[i - 1]);
        }
    }
}

/// An INSERT row keeps every stored row holding the columns that ON CONFLICT
/// DO UPDATE assigns.
proof fn lemma_insert_step_upsert_safe<E: StorageEngine>(t: TableModel, names: Seq<Seq<char>>, vals: Seq<SValue>,
    oc: Option<SConflict>, after: Seq<(SValue, Seq<SValue>)>, c: bool)
    requires
        insert_step::<E>(t, names, vals, oc, after, c),
        upsert_safe(oc, t),
    ensures
        upsert_safe(oc, TableModel { schema: t.schema, entries: after }),
{
    reveal(insert_step);
    let cols = t.schema.columns;
    if let Some(SConflict::DoUpdate(asg)) = oc {
        let row = choose|row: Seq<SValue>| #[trigger] prepared_row(t, names, vals, row) && row_fits(cols, row) && pk_pos(cols) is Some && ({
            let key = row[pk_pos(cols)->0];
            ||| (c && !key_taken::<E>(t.entries, key) && crate::storage::engine::inserted_somewhere(t.entries, after, (key, row)))
            ||| (key_taken::<E>(t.entries, key) && match oc {
                    None => false,
                    Some(SConflict::DoNothing) => !c && after == t.entries,
                    Some(SConflict::DoUpdate(asg)) => c && pk_pos(cols)->0 < vals.len() && exists|i: int|
                        0 <= i < t.entries.len() && #[trigger] E::same_key(t.entries[i].0, vals[pk_pos(cols)->0])
                        && update_step::<E>(t.entries, vals[pk_pos(cols)->0], upsert_row(t.entries[i].1, cols, asg), after),
                })
        });
        let key = row[pk_pos(cols)->0];
        lemma_fits_full(cols, asg);
        if c && !key_taken::<E>(t.entries, key) && crate::storage::engine::inserted_somewhere(t.entries, after, (key, row)) {
            lemma_inserted_fits(t.entries, after, (key, row), cols, asg);
        } else {
            let pk = vals[pk_pos(cols)->0];
            let i = choose|i: int| 0 <= i < t.entries.len() && #[trigger] E::same_key(t.entries[i].0, pk)
                && update_step::<E>(t.entries, pk, upsert_row(t.entries[i].1, cols, asg), after);
            let nr = upsert_row(t.entries[i].1, cols, asg);
            lemma_upsert_len(t.entries[i].1, cols, asg);
            if exists|q: int| 0 <= q < t.entries.len() && #[trigger] E::same_key(t.entries[q].0, pk) {
                assert forall|q: int| 0 <= q < after.len() implies assignments_fit(cols, asg, (#[trigger] after[q]).1.len()) by {
                    assert(after[q] == if E::same_key(t.entries[q].0, pk) { (t.entries[q].0, nr) } else { t.entries[q] });
                }
            } else {
                lemma_inserted_fits(t.entries, after, (pk, nr), cols, asg);
            }
        }
    }
}

proof fn lemma_inserts_push<E: StorageEngine>(t: TableModel, names: Seq<Seq<char>>, rows: Seq<Seq<SValue>>,
    oc: Option<SConflict>, k: int, mid: Seq<(SValue, Seq<SValue>)>, n: nat, after: Seq<(SValue, Seq<SValue>)>, c: bool)
    requires
        0 <= k < rows.len(),
        inserts_applied::<E>(t, names, rows.take(k), oc, mid, n),
        insert_step::<E>(TableModel { schema: t.schema, entries: mid }, names, rows[k], oc, after, c),
    ensures
        inserts_applied::<E>(t, names, rows.take(k + 1), oc, after, n + if c { 1nat } else { 0nat }),
{
    let (states, counts) = choose|states: Seq<Seq<(SValue, Seq<SValue>)>>, counts: Seq<bool>|
        #[trigger] insert_chain::<E>(t, names, rows.take(k), oc, states, counts) && states.last() == mid && count_true(counts) == n;
    let s2 = states.push(after);
    let c2 = counts.push(c);
    let u = rows.take(k + 1);
    assert forall|i: int| 0 <= i < u.len() implies insert_step::<E>(TableModel { schema: t.schema, entries: #[trigger] s2[i] },
        names, u[i], oc, s2[i + 1], c2[i]) by {
        if i < k {
            assert(s2[i] == states[i] && s2[i + 1] == states[i + 1] && c2[i] == counts[i]);
            assert(u[i] == rows.take(k)[i]);
        } else {
            assert(s2[i] == mid && s2[i + 1] == after && c2[i] == c && u[i] == rows[k]);
        }
    }
    assert(insert_chain::<E>(t, names, u, oc, s2, c2));
    assert(c2.drop_last() =~= counts);
    assert(s2.last() == after);
}

proof fn lemma_no_inserts<E: StorageEngine>(t: TableModel, names: Seq<Seq<char>>, rows: Seq<Seq<SValue>>, oc: Option<SConflict>)
    ensures
        inserts_applied::<E>(t, names, rows.take(0), oc, t.entries, 0),
{
    let states = seq![t.entries];
    let counts = Seq::<bool>::empty();
    assert(insert_chain::<E>(t, names, rows.take(0), oc, states, counts));
    assert(states.last() == t.entries);
}

/// The outcome of `execute_create`: from engine state `before` to `after`, with result `r`.
pub open spec fn create_outcome<E: StorageEngine>(before: E, after: E, name: &String, columns: &Vec<ColumnDef>, if_not_exists: bool, r: Result<ExecuteResult, RustMinidbError>) -> bool {
    &&& (after.index_defs() == before.index_defs())
    &&& (r is Err ==> after.tables() == before.tables())
    &&& (r matches Ok(res) ==> is_write(res, 0, None) && if before.tables().contains_key(name@) {
        if_not_exists && after.tables() == before.tables()
    } else {
        create_error(columns_view(columns@)) is None
            && after.tables() == before.tables().insert(name@,
                TableModel { schema: created_schema(name@, columns_view(columns@)), entries: Seq::empty() })
    })
    &&& (before.tables().contains_key(name@) && !if_not_exists ==> (r matches Err(e)
        && ((e matches RustMinidbError::Exec(ExecError::ConstraintViolation(_))) || crate::storage::engine::backend_error(e))))
    &&& (!before.tables().contains_key(name@) && create_error(columns_view(columns@)) is Some ==> (r matches Err(e)
        && ((e matches RustMinidbError::Exec(ExecError::Validation(m)) && Some(m@) == create_error(columns_view(columns@)))
            || crate::storage::engine::backend_error(e))))
    &&& (r matches Err(e) ==> crate::storage::engine::backend_error(e)
        || (before.tables().contains_key(name@) && !if_not_exists && e matches RustMinidbError::Exec(ExecError::ConstraintViolation(_)))
        || (!before.tables().contains_key(name@) && (e matches RustMinidbError::Exec(ExecError::Validation(m))
            && Some(m@) == create_error(columns_view(columns@)))))
}

/// Whether an error is that the table `name` is not found.
pub open spec fn table_not_found(e: RustMinidbError, name: Seq<char>) -> bool {
    e matches RustMinidbError::Exec(ExecError::TableNotFound(n)) && n@ == name
}

/// Whether a statement on a table that does not exist failed as it should:
/// the table is not found, unless reading the stored state failed first.
pub open spec fn missing_table(r: Result<ExecuteResult, RustMinidbError>, name: Seq<char>) -> bool {
    r matches Err(e) && ((e matches RustMinidbError::Exec(ExecError::TableNotFound(n)) && n@ == name)
        || crate::storage::engine::backend_error(e))
}

/// The outcome of `execute_drop`: from engine state `before` to `after`, with result `r`.
pub open spec fn drop_outcome<E: StorageEngine>(before: E, after: E, name: &String, r: Result<ExecuteResult, RustMinidbError>) -> bool {
    &&& (after.index_defs() == before.index_defs())
    &&& (r is Err ==> after.tables() == before.tables())
    &&& (r matches Ok(res) ==> is_write(res, 0, None) && before.tables().contains_key(name@)
        && after.tables() == before.tables().remove(name@))
    &&& (!before.tables().contains_key(name@) ==> missing_table(r, name@))
    &&& (r matches Err(e) ==> crate::storage::engine::backend_error(e) || (!before.tables().contains_key(name@) && table_not_found(e, name@)))
}

/// The outcome of `execute_alter_table`: from engine state `before` to `after`, with result `r`.
pub open spec fn alter_outcome<E: StorageEngine>(before: E, after: E, table: &String, operation: &AlterTableOperation, r: Result<ExecuteResult, RustMinidbError>) -> bool {
    &&& (after.index_defs() == before.index_defs())
    &&& (r is Err ==> after.tables() == before.tables())
    &&& (r matches Ok(res) ==> is_write(res, 0, None) && before.tables().contains_key(table@)
        && (alter_result(before.tables()[table@].schema, table@, operation@) matches Ok(s)
        && after.tables() == schema_update_effect(before.tables(), s)))
    &&& (!before.tables().contains_key(table@) ==> missing_table(r, table@))
    &&& (before.tables().contains_key(table@)
        && alter_result(before.tables()[table@].schema, table@, operation@) is Err ==> r is Err)
    &&& (r matches Err(e) ==> crate::storage::engine::backend_error(e) || (!before.tables().contains_key(table@) && table_not_found(e, table@))
        || (before.tables().contains_key(table@) && (e matches RustMinidbError::Exec(x)
            && alter_result(before.tables()[table@].schema, table@, operation@) == Err::<STable, SExecError>(x@))))
}

/// The outcome of `execute_create_index`: from engine state `before` to `after`, with result `r`.
pub open spec fn create_index_outcome<E: StorageEngine>(before: E, after: E, name: &String, table: &String, columns: &Vec<String>, unique: bool, r: Result<ExecuteResult, RustMinidbError>) -> bool {
    &&& (after.tables() == before.tables())
    &&& (r is Err ==> after.index_defs() == before.index_defs())
    &&& (r matches Ok(res) ==> is_write(res, 0, None) && before.tables().contains_key(table@)
        && (forall|i: int| 0 <= i < columns@.len()
            ==> col_pos(before.tables()[table@].schema.columns, #[trigger] columns@[i]@) is Some)
        && after.index_defs() == before.index_defs().insert(table@,
            (if before.index_defs().contains_key(table@) {
                before.index_defs()[table@]
            } else {
                Seq::empty()
            }).push(SIndex { name: name@, table_name: table@, columns: strings_view(columns@), unique })))
    &&& (!before.tables().contains_key(table@) ==> missing_table(r, table@))
    &&& (before.tables().contains_key(table@) && (exists|i: int| 0 <= i < columns@.len()
        && col_pos(before.tables()[table@].schema.columns, #[trigger] columns@[i]@) is None) ==> r is Err)
    &&& (r matches Err(e) ==> crate::storage::engine::backend_error(e) || (!before.tables().contains_key(table@) && table_not_found(e, table@))
        || (before.tables().contains_key(table@) && (e matches RustMinidbError::Exec(ExecError::ColumnNotFound(c))
            && exists|i: int| 0 <= i < columns@.len() && #[trigger] columns@[i]@ == c@
                && col_pos(before.tables()[table@].schema.columns, c@) is None)))
}

/// The outcome of `execute_drop_index`: from engine state `before` to `after`, with result `r`.
pub open spec fn drop_index_outcome<E: StorageEngine>(before: E, after: E, name: &String, table: &String, r: Result<ExecuteResult, RustMinidbError>) -> bool {
    &&& (after.tables() == before.tables())
    &&& (r is Err ==> after.index_defs() == before.index_defs())
    &&& (r matches Ok(res) ==> is_write(res, 0, None) && if table@.len() > 0 {
        after.index_defs() == drop_index_effect(before.index_defs(), table@, name@)
    } else {
        exists|t: Seq<char>| before.tables().contains_key(t)
            && has_index(before.index_defs(), t, name@)
            && after.index_defs() == drop_index_effect(before.index_defs(), t, name@)
    })
    &&& (table@.len() == 0 && (forall|t: Seq<char>| before.tables().contains_key(t)
        ==> !has_index(before.index_defs(), t, name@)) ==> r is Err)
    &&& (r matches Err(e) ==> crate::storage::engine::backend_error(e) || (table@.len() == 0 && (e matches RustMinidbError::Exec(ExecError::TableNotFound(_)))
        && forall|t: Seq<char>| before.tables().contains_key(t) ==> !has_index(before.index_defs(), t, name@)))
}

/// The outcome of `execute_select`: from engine state `before` to `after`, with result `r`.
pub open spec fn select_outcome<E: StorageEngine>(before: E, after: E, stmt: &SqlStatement, table: &String, r: Result<ExecuteResult, RustMinidbError>) -> bool {
    &&& (r matches Ok(res) ==> before.tables().contains_key(table@) && ({
        let s = before.tables()[table@].schema;
        ||| (plan_of(*stmt, s, table_indexes(before.index_defs(), table@)) matches Some(p)
                && query_result::<E>(res, p, before.tables(), before.index_entries(), s.columns))
        ||| (plan_of(*stmt, s, Seq::empty()) matches Some(p)
                && query_result::<E>(res, p, before.tables(), before.index_entries(), s.columns))
    }))
    &&& (!before.tables().contains_key(table@) ==> missing_table(r, table@))
    &&& (r matches Err(e) ==> crate::storage::engine::backend_error(e) || (!before.tables().contains_key(table@) && table_not_found(e, table@)))
}

/// The outcome of `execute_delete`: from engine state `before` to `after`, with result `r`.
pub open spec fn delete_outcome<E: StorageEngine>(before: E, after: E, table: &String, where_clause: &Option<WhereClause>, r: Result<ExecuteResult, RustMinidbError>) -> bool {
    &&& (after.index_defs() == before.index_defs())
    &&& (!before.tables().contains_key(table@) ==> missing_table(r, table@) && after.tables() == before.tables())
    &&& (before.tables().contains_key(table@) ==> ({
        let t = before.tables()[table@];
        let cols = t.schema.columns;
        let m = matching_rows(opt_where_view(*where_clause), cols, model_rows(t));
        let keys = column_of(m, pk_pos(cols)->0);
        &&& r matches Ok(res) ==> is_write(res, m.len(), None)
            && after.tables() == with_entries(before.tables(), table@, without_keys::<E>(t.entries, keys))
        &&& r is Err ==> after.tables() == before.tables()
            || exists|k: int| 0 <= k <= m.len() && after.tables()
                == with_entries(before.tables(), table@, without_keys::<E>(t.entries, keys.take(k)))
    }))
    &&& (r matches Err(e) ==> crate::storage::engine::backend_error(e) || (!before.tables().contains_key(table@) && table_not_found(e, table@)))
}

/// The outcome of `execute_update`: from engine state `before` to `after`, with result `r`.
pub open spec fn update_outcome<E: StorageEngine>(before: E, after: E, table: &String, assignments: &Vec<(String, Value)>, where_clause: &Option<WhereClause>, r: Result<ExecuteResult, RustMinidbError>) -> bool {
    &&& (after.index_defs() == before.index_defs())
    &&& (!before.tables().contains_key(table@) ==> missing_table(r, table@) && after.tables() == before.tables())
    &&& (before.tables().contains_key(table@) ==> ({
        let t = before.tables()[table@];
        let cols = t.schema.columns;
        let asg = entries_view(assignments@);
        let m = matching_rows(opt_where_view(*where_clause), cols, model_rows(t));
        let ups = update_list(m, cols, asg);
        &&& r matches Ok(res) ==> is_write(res, m.len(), None)
            && (m.len() > 0 ==> assigned_columns_exist(cols, asg) && !assigns_pk(cols, asg))
            && (forall|i: int| 0 <= i < m.len() ==> row_fits(cols, #[trigger] ups[i].1))
            && exists|e: Seq<(SValue, Seq<SValue>)>| updates_applied::<E>(t.entries, ups, e)
                && after.tables() == with_entries(before.tables(), table@, e)
        &&& m.len() > 0 && (!assigned_columns_exist(cols, asg) || assigns_pk(cols, asg)) ==> r is Err
        &&& (exists|i: int| 0 <= i < m.len() && assigned_columns_exist(cols, asg) && !row_fits(cols, #[trigger] ups[i].1)) ==> r is Err
        &&& r is Err ==> exists|k: int, e: Seq<(SValue, Seq<SValue>)>| 0 <= k <= m.len()
            && updates_applied::<E>(t.entries, ups.take(k), e)
            && after.tables() == with_entries(before.tables(), table@, e)
        &&& r matches Err(e) ==> crate::storage::engine::backend_error(e)
            || (e matches RustMinidbError::Exec(ExecError::ColumnNotFound(_)) && !assigned_columns_exist(cols, asg))
            || (e matches RustMinidbError::Exec(ExecError::Validation(_)) && assigns_pk(cols, asg))
            || (e matches RustMinidbError::Exec(ExecError::TypeMismatch(_))
                && exists|i: int| 0 <= i < m.len() && !row_fits(cols, #[trigger] ups[i].1))
    }))
}

/// The outcome of `execute_insert`: from engine state `before` to `after`, with result `r`.
pub open spec fn insert_outcome<E: StorageEngine>(before: E, after: E, table: &String, columns: &Vec<String>, values: &Vec<Vec<Value>>, on_conflict: &Option<OnConflictAction>, r: Result<ExecuteResult, RustMinidbError>) -> bool {
    &&& (after.index_defs() == before.index_defs())
    &&& (!before.tables().contains_key(table@) ==> missing_table(r, table@) && after.tables() == before.tables())
    &&& (before.tables().contains_key(table@) ==> ({
        let t = before.tables()[table@];
        let names = strings_view(columns@);
        let rows = values@.map_values(|v: Vec<Value>| crate::types::values_view(v@));
        let oc = opt_conflict_view(*on_conflict);
        &&& r matches Ok(res) ==> exists|e: Seq<(SValue, Seq<SValue>)>, n: nat|
            #[trigger] inserts_applied::<E>(t, names, rows, oc, e, n)
            && after.tables() == with_entries(before.tables(), table@, e)
            && is_write(res, n, last_insert_id(t.schema.columns, names, rows))
        &&& r is Err ==> exists|k: int, e: Seq<(SValue, Seq<SValue>)>, n: nat| 0 <= k <= rows.len()
            && #[trigger] inserts_applied::<E>(t, names, rows.take(k), oc, e, n)
            && after.tables() == with_entries(before.tables(), table@, e)
        &&& (exists|j: int| 0 <= j < rows.len() && #[trigger] built_row(t.schema.columns, names, rows[j]) is None) ==> r is Err
        &&& r matches Err(err) ==> crate::storage::engine::backend_error(err)
            || exists|k: int, es: Seq<(SValue, Seq<SValue>)>, n: nat| 0 <= k < rows.len()
            && #[trigger] inserts_applied::<E>(t, names, rows.take(k), oc, es, n)
            && after.tables() == with_entries(before.tables(), table@, es)
            && insert_error_cause::<E>(TableModel { schema: t.schema, entries: es }, table@, names, rows[k], oc, err)
    }))
}

/// Whether a statement may run on the stored state: it reads no column that
/// a row it meets lacks (the cases in which running it would index past the
/// end of a row or read a primary key that does not exist).
pub open spec fn statement_safe<E: StorageEngine>(stmt: SqlStatement, tables: Map<Seq<char>, TableModel>,
    idx: Map<Seq<char>, Seq<SIndex>>, ix: crate::storage::engine::IndexEntries) -> bool
{
    match stmt {
        SqlStatement::Insert { table, on_conflict, .. } =>
            tables.contains_key(table@) ==> upsert_safe(opt_conflict_view(on_conflict), tables[table@]),
        SqlStatement::Select { table, .. } => select_safe::<E>(stmt, table@, tables, idx, ix),
        SqlStatement::Update { table, assignments, where_clause } => tables.contains_key(table@)
            ==> update_safe(opt_where_view(where_clause), tables[table@], table_indexes(idx, table@), entries_view(assignments@)),
        SqlStatement::Delete { table, where_clause } => tables.contains_key(table@)
            ==> delete_safe(opt_where_view(where_clause), tables[table@], table_indexes(idx, table@)),
        _ => true,
    }
}

/// The outcome of a statement: that of the operation it names.
#[verifier::opaque]
pub open spec fn statement_outcome<E: StorageEngine>(before: E, after: E, stmt: &SqlStatement,
    r: Result<ExecuteResult, RustMinidbError>) -> bool
{
    match stmt {
        SqlStatement::CreateTable { name, columns, if_not_exists } =>
            create_outcome::<E>(before, after, name, columns, *if_not_exists, r),
        SqlStatement::Insert { table, columns, values, on_conflict } =>
            insert_outcome::<E>(before, after, table, columns, values, on_conflict, r),
        SqlStatement::Select { table, .. } => after == before && select_outcome::<E>(before, before, stmt, table, r),
        SqlStatement::Update { table, assignments, where_clause } =>
            update_outcome::<E>(before, after, table, assignments, where_clause, r),
        SqlStatement::Delete { table, where_clause } => delete_outcome::<E>(before, after, table, where_clause, r),
        SqlStatement::DropTable { name } => drop_outcome::<E>(before, after, name, r),
        SqlStatement::CreateIndex { name, table, columns, unique } =>
            create_index_outcome::<E>(before, after, name, table, columns, *unique, r),
        SqlStatement::DropIndex { name, table } => drop_index_outcome::<E>(before, after, name, table, r),
        SqlStatement::AlterTable { table, operation } => alter_outcome::<E>(before, after, table, operation, r),
    }
}

/// Whether a result reports a write of `n` rows with the given last id.
pub open spec fn is_write(r: ExecuteResult, n: nat, id: Option<i64>) -> bool {
    r matches ExecuteResult::WriteResult { rows_affected, last_insert_id } && rows_affected == n && last_insert_id == id
}

/// The index definitions after dropping index `name` of `table`.
pub open spec fn drop_index_effect(idx: Map<Seq<char>, Seq<SIndex>>, table: Seq<char>, name: Seq<char>) -> Map<Seq<char>, Seq<SIndex>> {
    if idx.contains_key(table) {
        idx.insert(table, idx[table].filter(|d: SIndex| d.name != name))
    } else {
        idx
    }
}

/// Whether the indexes of `table` include one called `name`.
pub open spec fn has_index(idx: Map<Seq<char>, Seq<SIndex>>, table: Seq<char>, name: Seq<char>) -> bool {
    idx.contains_key(table) && exists|i: int| 0 <= i < idx[table].len() && (#[trigger] idx[table][i]).name == name
}

/// The tables after storing a new schema for an existing table.
pub open spec fn schema_update_effect(t: Map<Seq<char>, TableModel>, s: STable) -> Map<Seq<char>, TableModel> {
    if t.contains_key(s.name) {
        t.insert(s.name, TableModel { schema: s, entries: t[s.name].entries })
    } else {
        t
    }
}

fn write_result(n: usize) -> (r: ExecuteResult)
    ensures
        is_write(r, n as nat, None),
{
    ExecuteResult::WriteResult { rows_affected: n, last_insert_id: None }
}

/// Whether `k` is the index key of a row: the serialized values of the row
/// in the index's columns that exist, one after another.
pub open spec fn index_key_ok(cols: Seq<SColumn>, names: Seq<Seq<char>>, row: Seq<SValue>, k: Seq<u8>) -> bool {
    exists|pieces: Seq<Seq<u8>>| pieces.len() == group_positions(cols, names).len()
        && (forall|j: int| 0 <= j < pieces.len() ==> crate::encoding::serialized_as(
            row[group_positions(cols, names)[j]], #[trigger] pieces[j]))
        && k == crate::encoding::concat_bytes(pieces)
}

/// The index entries after recording (`insert`) or removing a row's entry
/// in each index in turn: under the row's key in that index and its
/// primary-key bytes, for a table with a primary key, skipping an empty key.
pub open spec fn index_entries_after(m: Map<(Seq<char>, Seq<char>), Set<(Seq<u8>, Seq<u8>)>>, iv: Seq<SIndex>,
    keys: Seq<Seq<u8>>, pks: Seq<Seq<u8>>, has_pk: bool, insert: bool) -> Map<(Seq<char>, Seq<char>), Set<(Seq<u8>, Seq<u8>)>>
    decreases iv.len(),
{
    if iv.len() == 0 {
        m
    } else {
        let i = iv.len() - 1;
        let m2 = index_entries_after(m, iv.drop_last(), keys, pks, has_pk, insert);
        if has_pk && keys[i].len() > 0 {
            crate::storage::engine::entry_update(m2, (iv[i].table_name, iv[i].name), (keys[i], pks[i]), insert)
        } else {
            m2
        }
    }
}

/// Keys and primary-key bytes beyond the indexes folded over do not matter.
proof fn lemma_entries_after_prefix(m: Map<(Seq<char>, Seq<char>), Set<(Seq<u8>, Seq<u8>)>>, iv: Seq<SIndex>,
    keys: Seq<Seq<u8>>, pks: Seq<Seq<u8>>, keys2: Seq<Seq<u8>>, pks2: Seq<Seq<u8>>, has_pk: bool, insert: bool)
    requires
        keys.len() >= iv.len(),
        pks.len() >= iv.len(),
        keys2.len() >= iv.len(),
        pks2.len() >= iv.len(),
        forall|q: int| 0 <= q < iv.len() ==> keys[q] == keys2[q] && pks[q] == pks2[q],
    ensures
        index_entries_after(m, iv, keys, pks, has_pk, insert) == index_entries_after(m, iv, keys2, pks2, has_pk, insert),
    decreases iv.len(),
{
    if iv.len() > 0 {
        lemma_entries_after_prefix(m, iv.drop_last(), keys, pks, keys2, pks2, has_pk, insert);
    }
}

/// Whether `e` is an error INSERT may give for one row on table `t`
/// (called `table`): a backend failure, or one of its own errors under its
/// cause — the row cannot be built, or ON CONFLICT DO UPDATE lacks the key
/// value (`Validation`); the prepared row does not fit (`TypeMismatch`);
/// ON CONFLICT DO UPDATE on a table without a primary key
/// (`ConstraintViolation`); or no stored entry holds the key it updates
/// (`TableNotFound`).
pub open spec fn insert_error_cause<E: StorageEngine>(t: TableModel, table: Seq<char>, names: Seq<Seq<char>>,
    vals: Seq<SValue>, oc: Option<SConflict>, e: RustMinidbError) -> bool
{
    let cols = t.schema.columns;
    ||| crate::storage::engine::backend_error(e)
    ||| ((e matches RustMinidbError::Exec(ExecError::Validation(_))) && (built_row(cols, names, vals) is None
            || ((oc matches Some(SConflict::DoUpdate(_))) && (pk_pos(cols) matches Some(k) && k >= vals.len()))))
    ||| ((e matches RustMinidbError::Exec(ExecError::TypeMismatch(_)))
            && exists|out: Seq<SValue>| #[trigger] prepared_row(t, names, vals, out) && !row_fits(cols, out))
    ||| ((e matches RustMinidbError::Exec(ExecError::ConstraintViolation(_)))
            && (oc matches Some(SConflict::DoUpdate(_))) && pk_pos(cols) is None)
    ||| (table_not_found(e, table) && (oc matches Some(SConflict::DoUpdate(_))) && (pk_pos(cols) matches Some(k)
            && k < vals.len() && forall|i: int| 0 <= i < t.entries.len() ==> !E::same_key(#[trigger] t.entries[i].0, vals[k])))
}

/// Whether some AUTO_INCREMENT column is given NULL or 0, so that a value
/// must be drawn for it.
pub open spec fn needs_auto_value(cols: Seq<SColumn>, vals: Seq<SValue>) -> bool {
    exists|j: int| 0 <= j < vals.len() && j < cols.len() && cols[j].auto_increment
        && (#[trigger] vals[j] is Null || vals[j] == SValue::Integer(0))
}

impl<E: StorageEngine, F: FloatOps> Executor<E, F> {
    /// The storage engine's state.
    pub closed spec fn store(&self) -> E {
        self.engine
    }

    /// The floating-point operations the executor was made with.
    pub closed spec fn float_ops(&self) -> F {
        self.floats
    }

    /// An executor over a storage engine.
    pub fn new(engine: E, floats: F) -> (r: Self)
        ensures
            r.store() == engine,
            r.float_ops() == floats,
    {
        Executor { engine, floats }
    }

    /// The floating-point operations.
    pub fn floats(&self) -> (r: &F)
        ensures
            *r == self.float_ops(),
    {
        &self.floats
    }

    /// The storage engine.
    pub fn engine(&self) -> (r: &E)
        ensures
            *r == self.store(),
    {
        &self.engine
    }

    /// The storage engine, for changing it directly.
    pub fn engine_mut(&mut self) -> (r: &mut E)
        ensures
            *r == old(self).store(),
            final(self).store() == *final(r),
    {
        &mut self.engine
    }

    /// The storage engine, giving up the executor.
    pub fn into_engine(self) -> (r: E)
        ensures
            r == self.store(),
    {
        self.engine
    }

    /// Runs one statement.
    pub fn execute(&mut self, stmt: &SqlStatement) -> (r: Result<ExecuteResult, RustMinidbError>)
        requires
            statement_safe::<E>(*stmt, old(self).store().tables(), old(self).store().index_defs(), old(self).store().index_entries()),
        ensures
            statement_outcome::<E>(old(self).store(), final(self).store(), stmt, r),
    {
        reveal(statement_outcome);
        match stmt {
            SqlStatement::CreateTable { name, columns, if_not_exists } => self.execute_create(name, columns, *if_not_exists),
            SqlStatement::Insert { table, columns, values, on_conflict } => self.execute_insert(table, columns, values, on_conflict),
            SqlStatement::Select { table, .. } => self.execute_select(stmt, table),
            SqlStatement::Update { table, assignments, where_clause } => self.execute_update(table, assignments, where_clause),
            SqlStatement::Delete { table, where_clause } => self.execute_delete(table, where_clause),
            SqlStatement::DropTable { name } => self.execute_drop(name),
            SqlStatement::CreateIndex { name, table, columns, unique } => self.execute_create_index(name, table, columns, *unique),
            SqlStatement::DropIndex { name, table } => self.execute_drop_index(name, table),
            SqlStatement::AlterTable { table, operation } => self.execute_alter_table(table, operation),
        }
    }

    /// CREATE TABLE.
    fn execute_create(&mut self, name: &String, columns: &Vec<ColumnDef>, if_not_exists: bool) -> (r: Result<ExecuteResult, RustMinidbError>)
        ensures
            create_outcome::<E>(old(self).store(), final(self).store(), name, columns, if_not_exists, r),

    {
        if self.engine.table_exists(name.as_str())? {
            if if_not_exists {
                return Ok(write_result(0));
            }
            return Err(RustMinidbError::Exec(ExecError::ConstraintViolation(concat3("表 '", name.as_str(), "' 已存在"))));
        }
        let schema = match table_schema_for(name.as_str(), columns) {
            Ok(s) => s,
            Err(e) => {
                return Err(RustMinidbError::Exec(e));
            },
        };
        self.engine.create_table(&schema)?;
        Ok(write_result(0))
    }

    /// DROP TABLE.
    fn execute_drop(&mut self, name: &String) -> (r: Result<ExecuteResult, RustMinidbError>)
        ensures
            drop_outcome::<E>(old(self).store(), final(self).store(), name, r),

    {
        if !self.engine.table_exists(name.as_str())? {
            return Err(RustMinidbError::Exec(ExecError::TableNotFound(name.clone())));
        }
        self.engine.drop_table(name.as_str())?;
        Ok(write_result(0))
    }

    /// ALTER TABLE.
    fn execute_alter_table(&mut self, table: &String, operation: &AlterTableOperation) -> (r: Result<ExecuteResult, RustMinidbError>)
        ensures
            alter_outcome::<E>(old(self).store(), final(self).store(), table, operation, r),

    {
        let schema = match self.engine.get_schema(table.as_str())? {
            Some(s) => s,
            None => {
                return Err(RustMinidbError::Exec(ExecError::TableNotFound(table.clone())));
            },
        };
        let updated = match altered_schema(&schema, table.as_str(), operation) {
            Ok(s) => s,
            Err(e) => {
                return Err(RustMinidbError::Exec(e));
            },
        };
        self.engine.update_schema(&updated)?;
        Ok(write_result(0))
    }

    /// CREATE INDEX.
    fn execute_create_index(&mut self, name: &String, table: &String, columns: &Vec<String>, unique: bool) -> (r: Result<ExecuteResult, RustMinidbError>)
        ensures
            create_index_outcome::<E>(old(self).store(), final(self).store(), name, table, columns, unique, r),

    {
        let schema = match self.engine.get_schema(table.as_str())? {
            Some(s) => s,
            None => {
                return Err(RustMinidbError::Exec(ExecError::TableNotFound(table.clone())));
            },
        };
        let mut i: usize = 0;
        while i < columns.len()
            invariant
                i <= columns@.len(),
                old(self).store().tables().contains_key(table@),
                self.store() == old(self).store(),
                schema@ == old(self).store().tables()[table@].schema,
                forall|j: int| 0 <= j < i ==> col_pos(schema@.columns, #[trigger] columns@[j]@) is Some,
            decreases columns.len() - i,
        {
            if schema.col_index(columns[i].as_str()).is_none() {
                let c = columns[i].clone();
                assert(columns@[i as int]@ == c@);
                return Err(RustMinidbError::Exec(ExecError::ColumnNotFound(c)));
            }
            i += 1;
        }
        let index = IndexDef { name: name.clone(), table_name: table.clone(), columns: copy_strings(columns), unique };
        self.engine.create_index(&index)?;
        Ok(write_result(0))
    }

    /// DROP INDEX: from the named table, or, when no table is named, from the
    /// first table (in listing order) that has an index of that name.
    fn execute_drop_index(&mut self, name: &String, table: &String) -> (r: Result<ExecuteResult, RustMinidbError>)
        ensures
            drop_index_outcome::<E>(old(self).store(), final(self).store(), name, table, r),

    {
        if !table.as_str().is_empty() {
            self.engine.drop_index(table.as_str(), name.as_str())?;
            return Ok(write_result(0));
        }
        let tables = self.engine.list_tables()?;
        let ghost names = tables@.map_values(|s: String| s@);
        let mut k: usize = 0;
        while k < tables.len()
            invariant
                k <= tables@.len(),
                table@.len() == 0,
                names == tables@.map_values(|s: String| s@),
                names.to_set() == self.store().tables().dom(),
                self.store() == old(self).store(),
                forall|j: int| 0 <= j < k ==> !has_index(self.store().index_defs(), #[trigger] names[j], name@),
            decreases tables.len() - k,
        {
            let tbl = &tables[k];
            assert(names[k as int] == tbl@);
            let indexes = self.engine.list_indexes(tbl.as_str())?;
            let ghost iv = indexes@.map_values(|d: IndexDef| d@);
            let mut j: usize = 0;
            let mut found = false;
            while j < indexes.len()
                invariant
                    j <= indexes@.len(),
                    iv == indexes@.map_values(|d: IndexDef| d@),
                    !found ==> forall|q: int| 0 <= q < j ==> (#[trigger] iv[q]).name != name@,
                    found ==> exists|q: int| 0 <= q < iv.len() && (#[trigger] iv[q]).name == name@,
                decreases indexes.len() - j,
            {
                assert(iv[j as int] == indexes@[j as int]@);
                if str_eq(indexes[j].name.as_str(), name.as_str()) {
                    found = true;
                }
                j += 1;
            }
            if found {
                proof {
                    assert(names.contains(tbl@));
                    assert(names.to_set().contains(tbl@));
                    let q = choose|q: int| 0 <= q < iv.len() && (#[trigger] iv[q]).name == name@;
                    assert(self.store().index_defs().contains_key(tbl@));
                    assert(self.store().index_defs()[tbl@][q].name == name@);
                }
                let ghost before = self.store();
                self.engine.drop_index(tbl.as_str(), name.as_str())?;
                assert(self.store().index_defs() == drop_index_effect(before.index_defs(), tbl@, name@));
                return Ok(write_result(0));
            }
            proof {
                if has_index(self.store().index_defs(), tbl@, name@) {
                    let q = choose|q: int| 0 <= q < self.store().index_defs()[tbl@].len()
                        && (#[trigger] self.store().index_defs()[tbl@][q]).name == name@;
                    assert(iv[q].name == name@);
                }
            }
            k += 1;
        }
        proof {
            assert forall|t: Seq<char>| old(self).store().tables().contains_key(t)
                implies !has_index(old(self).store().index_defs(), t, name@) by {
                assert(names.to_set().contains(t));
                assert(names.contains(t));
                let j = choose|j: int| 0 <= j < names.len() && names[j] == t;
            }
        }
        Err(RustMinidbError::Exec(ExecError::TableNotFound(concat3("索引 '", name.as_str(), "' 不存在"))))
    }

    /// Looks a key up through the index called `index_name`, or scans the
    /// table when it has no such index.
    fn index_scan(&self, table: &String, index_name: &String, key: &Value) -> (r: Result<Vec<Row>, RustMinidbError>)
        ensures
            r matches Ok(rows) ==> forall|i: int| 0 <= i < rows@.len() ==> stored_row(self.store().tables(), table@, #[trigger] rows@[i]@),
            r matches Ok(rows) ==> rows_view(rows@) == table_rows(self.store().tables(), table@)
                || crate::sql::eval::index_rows::<E>(self.store().tables(), self.store().index_entries(), table@, index_name@, key@, rows_view(rows@)),
            r matches Err(e) ==> crate::storage::engine::backend_error(e),
    {
        let ghost tables = self.store().tables();
        let ghost ix = self.store().index_entries();
        let indexes = match self.engine.list_indexes(table.as_str()) {
            Ok(v) => v,
            Err(_) => Vec::new(),
        };
        let mut found: Option<usize> = None;
        let mut j: usize = 0;
        while j < indexes.len()
            invariant
                j <= indexes@.len(),
                found matches Some(k) ==> k < indexes@.len() && indexes@[k as int]@.name == index_name@,
            decreases indexes.len() - j,
        {
            if str_eq(indexes[j].name.as_str(), index_name.as_str()) {
                found = Some(j);
                break;
            }
            j += 1;
        }
        match found {
            Some(k) => {
                let key_bytes = serialize_value(key, &self.floats);
                let idx = &indexes[k];
                let kb = key_bytes.as_slice();
                let scanned = self.engine.scan_index_eq(idx, kb);
                let pks = match scanned {
                    Ok(v) => v,
                    Err(e) => {
                        return Err(e);
                    },
                };
                let ghost pv = pks@.map_values(|b: Vec<u8>| b@);
                proof {
                    assert(kb@ == key_bytes@);
                    assert(idx@ == indexes@[k as int]@);
                }
                let ghost mut parts: Seq<Seq<Seq<SValue>>> = Seq::empty();
                let mut rows: Vec<Row> = Vec::new();
                let mut q: usize = 0;
                while q < pks.len()
                    invariant
                        q <= pks@.len(),
                        tables == self.store().tables(),
                        pv == pks@.map_values(|b: Vec<u8>| b@),
                        crate::storage::engine::index_holds(self.store().index_entries(), indexes@[k as int]@, key_bytes@, pv),
                        parts.len() == q,
                        forall|i: int| 0 <= i < q ==> lookup_result::<E>(tables, table@,
                            crate::encoding::key_decoded(#[trigger] pv[i]), parts[i]),
                        rows_view(rows@) == crate::sql::eval::flatten_rows(parts),
                        forall|i: int| 0 <= i < rows@.len() ==> stored_row(tables, table@, #[trigger] rows@[i]@),
                    decreases pks.len() - q,
                {
                    let pk_val = deserialize_value(pks[q].as_slice());
                    assert(pv[q as int] == pks@[q as int]@);
                    let ghost before = rows_view(rows@);
                    match self.engine.get_row(table.as_str(), &pk_val)? {
                        Some(row) => {
                            proof {
                                let i = choose|i: int| 0 <= i < tables[table@].entries.len()
                                    && E::same_key(tables[table@].entries[i].0, pk_val@) && tables[table@].entries[i].1 == row@;
                                assert(tables[table@].entries[i].1 == row@);
                            }
                            let ghost rv = row@;
                            rows.push(row);
                            proof {
                                let np = parts.push(seq![rv]);
                                assert(np.drop_last() =~= parts);
                                assert(rows_view(rows@) =~= before + seq![rv]);
                                assert forall|i: int| 0 <= i < q + 1 implies lookup_result::<E>(tables, table@,
                                    crate::encoding::key_decoded(#[trigger] pv[i]), np[i]) by {
                                    if i < q { assert(np[i] == parts[i]); }
                                }
                                parts = np;
                            }
                        },
                        None => {
                            proof {
                                let np = parts.push(Seq::<Seq<SValue>>::empty());
                                assert(np.drop_last() =~= parts);
                                assert(rows_view(rows@) =~= before + Seq::<Seq<SValue>>::empty());
                                assert forall|i: int| 0 <= i < q + 1 implies lookup_result::<E>(tables, table@,
                                    crate::encoding::key_decoded(#[trigger] pv[i]), np[i]) by {
                                    if i < q { assert(np[i] == parts[i]); }
                                }
                                parts = np;
                            }
                        },
                    }
                    q += 1;
                }
                proof {
                    assert(crate::sql::eval::index_lookup::<E>(self.store().tables(), self.store().index_entries(), table@, indexes@[k as int]@, key_bytes@, pv, parts));
                    assert(crate::sql::eval::index_rows::<E>(self.store().tables(), self.store().index_entries(), table@, index_name@, key@, rows_view(rows@)));
                }
                Ok(rows)
            },
            None => {
                let rows = self.engine.scan_table(table.as_str())?;
                proof {
                    assert forall|i: int| 0 <= i < rows@.len() implies stored_row(tables, table@, #[trigger] rows@[i]@) by {
                        assert(rows_view(rows@)[i] == rows@[i]@);
                        assert(rows_view(rows@).len() == rows@.len());
                        if tables.contains_key(table@) {
                            assert(model_rows(tables[table@])[i] == tables[table@].entries[i].1);
                        }
                    }
                }
                Ok(rows)
            },
        }
    }

    /// Evaluates a plan node.
    #[verifier::rlimit(40)]
    fn evaluate_plan(&self, plan: &PlanNode, schema: &TableSchema) -> (r: Result<Vec<Row>, RustMinidbError>)
        requires
            plan_safe::<E>(plan@, self.store().tables(), self.store().index_entries(), schema@.columns),
        ensures
            r matches Ok(rows) ==> plan_result::<E>(plan@, self.store().tables(), self.store().index_entries(), schema@.columns, rows_view(rows@)),
            r matches Err(e) ==> crate::storage::engine::backend_error(e),
        decreases plan,
    {
        let ghost tables = self.store().tables();
        let ghost ix = self.store().index_entries();
        let ghost cols = schema@.columns;
        match plan {
            PlanNode::SeqScan { table } => {
                let rows = self.engine.scan_table(table.as_str())?;
                Ok(rows)
            },
            PlanNode::PointLookup { table, pk } => {
                match self.engine.get_row(table.as_str(), pk)? {
                    Some(row) => {
                        let mut v: Vec<Row> = Vec::new();
                        v.push(row);
                        assert(rows_view(v@) =~= seq![v@[0]@]);
                        Ok(v)
                    },
                    None => {
                        let v: Vec<Row> = Vec::new();
                        assert(rows_view(v@) =~= Seq::<Seq<SValue>>::empty());
                        Ok(v)
                    },
                }
            },
            PlanNode::IndexScan { table, index_name, key } => self.index_scan(table, index_name, key),
            PlanNode::Filter { input, predicate } => {
                let rows = self.evaluate_plan(input, schema)?;
                let ghost inp = rows_view(rows@);
                let out = filter_rows(rows, predicate, schema);
                assert(plan_result::<E>(plan@, tables, ix, cols, rows_view(out@)));
                Ok(out)
            },
            PlanNode::Having { input, predicate } => {
                let rows = self.evaluate_plan(input, schema)?;
                let ghost inp = rows_view(rows@);
                let out = filter_rows(rows, predicate, schema);
                assert(plan_result::<E>(plan@, tables, ix, cols, rows_view(out@)));
                Ok(out)
            },
            PlanNode::Projection { input, columns } => {
                let rows = self.evaluate_plan(input, schema)?;
                let ghost inp = rows_view(rows@);
                let out = project_rows(rows, columns, schema);
                assert(plan_result::<E>(plan@, tables, ix, cols, rows_view(out@)));
                Ok(out)
            },
            PlanNode::Sort { input, order_by } => {
                let rows = self.evaluate_plan(input, schema)?;
                let ghost inp = rows_view(rows@);
                let out = sort_rows(rows, order_by, schema);
                assert(plan_result::<E>(plan@, tables, ix, cols, rows_view(out@)));
                Ok(out)
            },
            PlanNode::Aggregate { input, aggregates, group_by } => {
                let rows = self.evaluate_plan(input, schema)?;
                let ghost inp = rows_view(rows@);
                let out = execute_aggregate(&rows, schema, aggregates, group_by, &self.floats);
                proof {
                    if inp.len() == 0 {
                        assert(rows_view(out@) =~= seq![crate::sql::aggregate::empty_aggregate_row(crate::sql::ast::aggs_view(aggregates@))]);
                    }
                    crate::sql::eval::lemma_aggregate_result::<E>(plan@, tables, ix, cols, inp, rows_view(out@));
                }
                Ok(out)
            },
            PlanNode::Limit { input, limit, offset } => {
                let rows = self.evaluate_plan(input, schema)?;
                let ghost inp = rows_view(rows@);
                let out = limit_rows(rows, *limit, *offset);
                proof {
                    crate::sql::eval::lemma_limit_result::<E>(plan@, tables, ix, cols, inp);
                }
                Ok(out)
            },
        }
    }

    /// The column names of a plan's result.
    fn extract_columns(plan: &PlanNode, schema: &TableSchema) -> (r: Vec<String>)
        ensures
            strings_view(r@) == plan_columns(plan@, schema@.columns),
        decreases plan,
    {
        match plan {
            PlanNode::Projection { columns, .. } => copy_strings(columns),
            PlanNode::SeqScan { .. } | PlanNode::PointLookup { .. } | PlanNode::IndexScan { .. } => {
                let mut r: Vec<String> = Vec::new();
                let mut i: usize = 0;
                while i < schema.columns.len()
                    invariant
                        i <= schema@.columns.len(),
                        r@.len() == i,
                        forall|j: int| 0 <= j < i ==> r@[j]@ == schema@.columns[j].name,
                    decreases schema.columns.len() - i,
                {
                    assert(schema@.columns[i as int] == schema.columns@[i as int]@);
                    r.push(schema.columns[i].name.clone());
                    i += 1;
                }
                assert(strings_view(r@) =~= schema@.columns.map_values(|c: SColumn| c.name));
                r
            },
            PlanNode::Filter { input, .. } => Self::extract_columns(input, schema),
            PlanNode::Sort { input, .. } => Self::extract_columns(input, schema),
            PlanNode::Aggregate { input, .. } => Self::extract_columns(input, schema),
            PlanNode::Having { input, .. } => Self::extract_columns(input, schema),
            PlanNode::Limit { input, .. } => Self::extract_columns(input, schema),
        }
    }

    /// SELECT: plans the query with the table's indexes and evaluates the plan.
    fn execute_select(&self, stmt: &SqlStatement, table: &String) -> (r: Result<ExecuteResult, RustMinidbError>)
        requires
            stmt is Select,
            select_safe::<E>(*stmt, table@, self.store().tables(), self.store().index_defs(), self.store().index_entries()),
        ensures
            select_outcome::<E>(self.store(), self.store(), stmt, table, r),

    {
        let schema = match self.engine.get_schema(table.as_str())? {
            Some(s) => s,
            None => {
                return Err(RustMinidbError::Exec(ExecError::TableNotFound(table.clone())));
            },
        };
        let indexes = match self.engine.list_indexes(table.as_str()) {
            Ok(v) => v,
            Err(_) => Vec::new(),
        };
        proof {
            if indexes@.len() == 0 {
                assert(indexes@.map_values(|d: IndexDef| d@) =~= Seq::<SIndex>::empty());
            }
        }
        let plan = Planner::plan_select(stmt, &schema, &indexes)?;
        let rows = self.evaluate_plan(&plan, &schema)?;
        let columns = Self::extract_columns(&plan, &schema);
        let n = rows.len();
        let mut out: Vec<Vec<Value>> = Vec::new();
        let mut i: usize = 0;
        while i < rows.len()
            invariant
                i <= rows@.len(),
                out@.len() == i,
                forall|j: int| 0 <= j < i ==> crate::types::values_view(out@[j]@) == rows@[j]@,
            decreases rows.len() - i,
        {
            out.push(crate::types::copy_values(&rows[i].values));
            i += 1;
        }
        assert(value_rows_view(out@) =~= rows_view(rows@));
        Ok(ExecuteResult::QueryResult { columns, rows: out, rows_affected: n })
    }

    /// The index key of a row: the key bytes of its values in the index's
    /// columns that exist, one after another.
    fn index_key(&self, schema: &TableSchema, index: &IndexDef, row: &Row) -> (r: Vec<u8>)
        requires
            forall|j: int| 0 <= j < index@.columns.len() ==> (col_pos(schema@.columns, #[trigger] index@.columns[j]) matches Some(k)
                ==> k < row@.len()),
        ensures
            index_key_ok(schema@.columns, index@.columns, row@, r@),
    {
        assert(row@.len() == row.values@.len());
        let ghost names = index@.columns;
        let ghost cols = schema@.columns;
        let mut bytes: Vec<u8> = Vec::new();
        let ghost mut pieces: Seq<Seq<u8>> = Seq::empty();
        let mut j: usize = 0;
        assert(names.take(0) =~= Seq::<Seq<char>>::empty());
        while j < index.columns.len()
            invariant
                j <= index.columns@.len(),
                names == index@.columns,
                cols == schema@.columns,
                row@.len() == row.values@.len(),
                forall|q: int| 0 <= q < index@.columns.len() ==> (col_pos(schema@.columns, #[trigger] index@.columns[q]) matches Some(k)
                    ==> k < row@.len()),
                pieces.len() == group_positions(cols, names.take(j as int)).len(),
                forall|q: int| 0 <= q < pieces.len() ==> crate::encoding::serialized_as(
                    row@[group_positions(cols, names.take(j as int))[q]], #[trigger] pieces[q]),
                bytes@ == crate::encoding::concat_bytes(pieces),
            decreases index.columns.len() - j,
        {
            assert(index@.columns[j as int] == index.columns@[j as int]@);
            assert(names.take(j + 1).drop_last() =~= names.take(j as int));
            assert(names.take(j + 1).last() == names[j as int]);
            let ghost gp = group_positions(cols, names.take(j as int));
            match schema.col_index(index.columns[j].as_str()) {
                Some(k) => {
                    let mut b = serialize_value(&row.values[k], &self.floats);
                    assert(row@[k as int] == row.values@[k as int]@);
                    let ghost np = pieces.push(b@);
                    bytes.append(&mut b);
                    proof {
                        assert(group_positions(cols, names.take(j + 1)) == gp.push(k as int));
                        assert(np.drop_last() =~= pieces);
                        assert forall|q: int| 0 <= q < np.len() implies crate::encoding::serialized_as(
                            row@[gp.push(k as int)[q]], #[trigger] np[q]) by {
                            if q < pieces.len() {
                                assert(np[q] == pieces[q]);
                            }
                        }
                        pieces = np;
                    }
                },
                None => {
                    assert(group_positions(cols, names.take(j + 1)) == gp);
                },
            }
            j += 1;
        }
        assert(names.take(index.columns@.len() as int) =~= names);
        assert(index_key_ok(cols, names, row@, bytes@));
        bytes
    }

    /// Records or removes the index entries of a row in every index of the
    /// table; the stored rows and index definitions stay as they are.
    fn maintain_indexes(&mut self, table: &str, schema: &TableSchema, row: &Row, insert: bool) -> (r: Result<(), RustMinidbError>)
        requires
            pk_fits(schema@.columns, row@.len()),
            index_columns_fit(crate::sql::executor::table_indexes(old(self).store().index_defs(), table@), schema@.columns, row@.len()),
        ensures
            final(self).store().tables() == old(self).store().tables(),
            final(self).store().index_defs() == old(self).store().index_defs(),
            r is Ok ==> exists|iv: Seq<SIndex>, keys: Seq<Seq<u8>>, pks: Seq<Seq<u8>>|
                #[trigger] index_entries_after(old(self).store().index_entries(), iv, keys, pks,
                    pk_pos(schema@.columns) is Some, insert) == final(self).store().index_entries()
                && (iv.len() == 0 || iv == table_indexes(old(self).store().index_defs(), table@))
                && keys.len() == iv.len() && pks.len() == iv.len()
                && (forall|i: int| 0 <= i < iv.len() ==> (pk_pos(schema@.columns) is Some
                    ==> index_key_ok(schema@.columns, iv[i].columns, row@, #[trigger] keys[i])))
                && (forall|i: int| 0 <= i < iv.len() ==> (pk_pos(schema@.columns) matches Some(k)
                    ==> crate::encoding::serialized_as(row@[k], #[trigger] pks[i]))),
    {
        assert(row@.len() == row.values@.len());
        let ghost e0 = self.store().index_entries();
        let ghost has_pk = pk_pos(schema@.columns) is Some;
        let ghost mut keys: Seq<Seq<u8>> = Seq::empty();
        let ghost mut pks: Seq<Seq<u8>> = Seq::empty();
        let indexes = match self.engine.list_indexes(table) {
            Ok(v) => v,
            Err(_) => Vec::new(),
        };
        let ghost iv = indexes@.map_values(|d: IndexDef| d@);
        let pk = pk_value(row, schema);
        let mut i: usize = 0;
        while i < indexes.len()
            invariant
                i <= indexes@.len(),
                iv == indexes@.map_values(|d: IndexDef| d@),
                iv.len() == 0 || iv == table_indexes(self.store().index_defs(), table@),
                index_columns_fit(table_indexes(self.store().index_defs(), table@), schema@.columns, row@.len()),
                self.store().tables() == old(self).store().tables(),
                self.store().index_defs() == old(self).store().index_defs(),
                e0 == old(self).store().index_entries(),
                has_pk == pk_pos(schema@.columns) is Some,
                match pk {
                    Some(v) => has_pk && v@ == row@[pk_pos(schema@.columns)->0],
                    None => !has_pk,
                },
                keys.len() == i && pks.len() == i,
                forall|q: int| 0 <= q < i ==> (has_pk ==> index_key_ok(schema@.columns, iv[q].columns, row@, #[trigger] keys[q])),
                forall|q: int| 0 <= q < i ==> (pk_pos(schema@.columns) matches Some(k)
                    ==> crate::encoding::serialized_as(row@[k], #[trigger] pks[q])),
                self.store().index_entries() == index_entries_after(e0, iv.take(i as int), keys, pks, has_pk, insert),
            decreases indexes.len() - i,
        {
            proof {
                assert(iv.take(i + 1).drop_last() =~= iv.take(i as int));
                assert(iv.take(i + 1)[i as int] == iv[i as int]);
            }
            match pk {
                Some(pkv) => {
                    let pk_bytes = serialize_value(pkv, &self.floats);
                    proof {
                        assert(iv[i as int] == indexes@[i as int]@);
                        assert forall|j: int| 0 <= j < iv[i as int].columns.len() implies (col_pos(schema@.columns, #[trigger] iv[i as int].columns[j]) matches Some(k)
                            ==> k < row@.len()) by {
                            assert(table_indexes(self.store().index_defs(), table@)[i as int].columns[j] == iv[i as int].columns[j]);
                        }
                    }
                    let key = self.index_key(schema, &indexes[i], row);
                    let ghost before = self.store().index_entries();
                    if key.len() > 0 {
                        if insert {
                            self.engine.insert_index_entry(&indexes[i], key.as_slice(), pk_bytes.as_slice())?;
                        } else {
                            self.engine.delete_index_entry(&indexes[i], key.as_slice(), pk_bytes.as_slice())?;
                        }
                    }
                    proof {
                        let nk = keys.push(key@);
                        let np = pks.push(pk_bytes@);
                        lemma_entries_after_prefix(e0, iv.take(i as int), keys, pks, nk, np, has_pk, insert);
                        keys = nk;
                        pks = np;
                    }
                },
                None => {
                    proof {
                        let nk = keys.push(Seq::empty());
                        let np = pks.push(Seq::empty());
                        lemma_entries_after_prefix(e0, iv.take(i as int), keys, pks, nk, np, has_pk, insert);
                        keys = nk;
                        pks = np;
                    }
                },
            }
            i += 1;
        }
        assert(iv.take(indexes@.len() as int) =~= iv);
        Ok(())
    }

    #[verifier::rlimit(60)]
    /// DELETE: removes, one by one, the rows the condition selects, each by its
    /// primary-key value.
    fn execute_delete(&mut self, table: &String, where_clause: &Option<WhereClause>) -> (r: Result<ExecuteResult, RustMinidbError>)
        requires
            old(self).store().tables().contains_key(table@) ==> delete_safe(opt_where_view(*where_clause),
                old(self).store().tables()[table@], table_indexes(old(self).store().index_defs(), table@)),
        ensures
            delete_outcome::<E>(old(self).store(), final(self).store(), table, where_clause, r),

    {
        let ghost t0 = self.store().tables();
        let schema = match self.engine.get_schema(table.as_str())? {
            Some(s) => s,
            None => {
                return Err(RustMinidbError::Exec(ExecError::TableNotFound(table.clone())));
            },
        };
        let rows = self.engine.scan_table(table.as_str())?;
        let ghost t = t0[table@];
        let ghost cols = t.schema.columns;
        let ghost w = opt_where_view(*where_clause);
        let ghost rv = rows_view(rows@);
        let ghost m = matching_rows(w, cols, rv);
        let ghost keys = column_of(m, pk_pos(cols)->0);
        let ghost idx = table_indexes(self.store().index_defs(), table@);
        let mut deleted: usize = 0;
        let mut i: usize = 0;
        while i < rows.len()
            invariant
                i <= rows@.len(),
                rv == rows_view(rows@),
                t0.contains_key(table@),
                t0 == old(self).store().tables(),
                t == t0[table@],
                cols == t.schema.columns,
                cols == schema@.columns,
                rv == model_rows(t),
                m == matching_rows(w, cols, rv),
                w == opt_where_view(*where_clause),
                keys == column_of(m, pk_pos(cols)->0),
                idx == table_indexes(self.store().index_defs(), table@),
                self.store().index_defs() == old(self).store().index_defs(),
                delete_safe(w, t, idx),
                deleted as int == matching_rows(w, cols, rv.take(i as int)).len(),
                deleted <= i,
                self.store().tables() == with_entries(t0, table@, without_keys::<E>(t.entries, keys.take(deleted as int))),
            decreases rows.len() - i,
        {
            let row = &rows[i];
            assert(rv[i as int] == row@);
            proof {
                reveal_with_fuel(Seq::<_>::filter, 1);
                assert(rv.take(i + 1).drop_last() =~= rv.take(i as int));
                crate::sql::executor::lemma_matching_prefix(w, cols, rv, i as int);
                crate::sql::executor::lemma_matching_is_prefix(w, cols, rv, i + 1);
            }
            let keep = match where_clause {
                Some(wc) => {
                    proof { assert(crate::sql::predicate::pred_ok(wc@, cols, rv[i as int].len())); }
                    evaluate_predicate(wc, row, &schema)
                },
                None => true,
            };
            if keep {
                proof {
                    assert(matching_rows(w, cols, rv.take(i + 1)) == matching_rows(w, cols, rv.take(i as int)).push(row@));
                    assert(m.take(deleted + 1)[deleted as int] == row@);
                    assert(m[deleted as int] == row@);
                    assert(pk_pos(cols) is Some && pk_fits(cols, row@.len()) && index_columns_fit(idx, cols, row@.len()));
                }
                let pkv = pk_value(row, &schema).unwrap();
                let _ = self.maintain_indexes(table.as_str(), &schema, row, false);
                let ghost before = self.store().tables();
                proof {
                    assert(keys[deleted as int] == pkv@);
                    assert(keys.take(deleted + 1).drop_last() =~= keys.take(deleted as int));
                    assert(keys.take(deleted + 1).last() == pkv@);
                }
                match self.engine.delete_row(table.as_str(), pkv) {
                    Ok(_) => {},
                    Err(e) => {
                        assert(self.store().tables() == with_entries(t0, table@, without_keys::<E>(t.entries, keys.take(deleted as int))));
                        return Err(e);
                    },
                }
                proof {
                    let f1 = |e: (SValue, Seq<SValue>)| !E::same_key(e.0, pkv@);
                    let f2 = |e: (SValue, Seq<SValue>)| !E::same_key(e.0, keys.take(deleted + 1).last());
                    assert(f1 =~= f2);
                    assert(self.store().tables() =~= with_entries(t0, table@, without_keys::<E>(t.entries, keys.take(deleted + 1))));
                }
                deleted += 1;
            }
            i += 1;
        }
        assert(rv.take(i as int) =~= rv);
        assert(keys.take(deleted as int) =~= keys);
        Ok(write_result(deleted))
    }

    /// A row's values with the assignments applied.
    #[verifier::rlimit(40)]
    fn apply_assignments(row: &Row, schema: &TableSchema, assignments: &Vec<(String, Value)>) -> (r: Result<Vec<Value>, ExecError>)
        requires
            assignments_fit(schema@.columns, entries_view(assignments@), row@.len()),
        ensures
            match r {
                Ok(v) => assigned_columns_exist(schema@.columns, entries_view(assignments@))
                    && crate::types::values_view(v@) == assigned(row@, schema@.columns, entries_view(assignments@)),
                Err(e) => exists|j: int| 0 <= j < assignments@.len()
                    && col_pos(schema@.columns, #[trigger] entries_view(assignments@)[j].0) is None
                    && (forall|q: int| 0 <= q < j ==> col_pos(schema@.columns, #[trigger] entries_view(assignments@)[q].0) is Some)
                    && e@ == SExecError::ColumnNotFound(entries_view(assignments@)[j].0),
            },
    {
        let ghost asg = entries_view(assignments@);
        let ghost cols = schema@.columns;
        let mut values = crate::types::copy_values(&row.values);
        let mut j: usize = 0;
        while j < assignments.len()
            invariant
                j <= assignments@.len(),
                asg == entries_view(assignments@),
                cols == schema@.columns,
                assignments_fit(cols, asg, row@.len()),
                values@.len() == row@.len(),
                forall|q: int| 0 <= q < j ==> col_pos(cols, (#[trigger] asg[q]).0) is Some,
                crate::types::values_view(values@) == assigned(row@, cols, asg.take(j as int)),
            decreases assignments.len() - j,
        {
            assert(asg[j as int] == (assignments@[j as int].0@, assignments@[j as int].1@));
            match schema.col_index(assignments[j].0.as_str()) {
                Some(k) => {
                    proof {
                        assert(asg.take(j + 1).drop_last() =~= asg.take(j as int));
                        assert(asg.take(j + 1).last() == asg[j as int]);
                    }
                    values.set(k, assignments[j].1.copy());
                    assert(crate::types::values_view(values@) =~= assigned(row@, cols, asg.take(j + 1)));
                },
                None => {
                    return Err(ExecError::ColumnNotFound(assignments[j].0.clone()));
                },
            }
            j += 1;
        }
        assert(asg.take(j as int) =~= asg);
        Ok(values)
    }

    /// Whether an assignment names the primary-key column.
    fn assigns_primary_key(schema: &TableSchema, assignments: &Vec<(String, Value)>) -> (r: bool)
        ensures
            r == assigns_pk(schema@.columns, entries_view(assignments@)),
    {
        let ghost asg = entries_view(assignments@);
        match schema.pk_index() {
            Some(k) => {
                assert(schema@.columns[k as int] == schema.columns@[k as int]@);
                let mut j: usize = 0;
                while j < assignments.len()
                    invariant
                        j <= assignments@.len(),
                        asg == entries_view(assignments@),
                        k < schema@.columns.len(),
                        pk_pos(schema@.columns) == Some(k as int),
                        forall|q: int| 0 <= q < j ==> (#[trigger] asg[q]).0 != schema@.columns[k as int].name,
                    decreases assignments.len() - j,
                {
                    assert(asg[j as int].0 == assignments@[j as int].0@);
                    if str_eq(schema.columns[k].name.as_str(), assignments[j].0.as_str()) {
                        assert(asg[j as int].0 == schema@.columns[k as int].name);
                        return true;
                    }
                    j += 1;
                }
                false
            },
            None => false,
        }
    }

    /// Updates one selected row: applies the assignments, checks the new row
    /// against the schema, refuses a change of the primary key, and stores the
    /// new row under the row's key.
    fn update_one(&mut self, table: &String, schema: &TableSchema, row: &Row, assignments: &Vec<(String, Value)>, pk_assigned: bool) -> (r: Result<(), RustMinidbError>)
        requires
            old(self).store().tables().contains_key(table@),
            old(self).store().tables()[table@].schema == schema@,
            pk_assigned == assigns_pk(schema@.columns, entries_view(assignments@)),
            pk_pos(schema@.columns) is Some,
            pk_fits(schema@.columns, row@.len()),
            index_columns_fit(table_indexes(old(self).store().index_defs(), table@), schema@.columns, row@.len()),
            assignments_fit(schema@.columns, entries_view(assignments@), row@.len()),
        ensures
            final(self).store().index_defs() == old(self).store().index_defs(),
            r is Err ==> final(self).store().tables() == old(self).store().tables(),
            r is Ok ==> ({
                let cols = schema@.columns;
                let asg = entries_view(assignments@);
                let new_row = assigned(row@, cols, asg);
                &&& assigned_columns_exist(cols, asg)
                &&& !pk_assigned
                &&& row_fits(cols, new_row)
                &&& final(self).store().tables().contains_key(table@)
                &&& update_step::<E>(old(self).store().tables()[table@].entries, row@[pk_pos(cols)->0], new_row,
                        final(self).store().tables()[table@].entries)
                &&& final(self).store().tables() == with_entries(old(self).store().tables(), table@,
                        final(self).store().tables()[table@].entries)
            }),
            !assigned_columns_exist(schema@.columns, entries_view(assignments@)) || pk_assigned
                || !row_fits(schema@.columns, assigned(row@, schema@.columns, entries_view(assignments@))) ==> r is Err,
            !assigned_columns_exist(schema@.columns, entries_view(assignments@))
                ==> r matches Err(RustMinidbError::Exec(ExecError::ColumnNotFound(_))),
            assigned_columns_exist(schema@.columns, entries_view(assignments@))
                && !row_fits(schema@.columns, assigned(row@, schema@.columns, entries_view(assignments@)))
                ==> r matches Err(RustMinidbError::Exec(ExecError::TypeMismatch(_))),
            assigned_columns_exist(schema@.columns, entries_view(assignments@))
                && row_fits(schema@.columns, assigned(row@, schema@.columns, entries_view(assignments@))) && pk_assigned
                ==> (r matches Err(RustMinidbError::Exec(ExecError::Validation(m))) && m@ == "不能更新主键列"@),
            r matches Err(e) ==> crate::storage::engine::backend_error(e)
                || (e matches RustMinidbError::Exec(ExecError::ColumnNotFound(_))
                    && !assigned_columns_exist(schema@.columns, entries_view(assignments@)))
                || (e matches RustMinidbError::Exec(ExecError::Validation(_)) && pk_assigned)
                || (e matches RustMinidbError::Exec(ExecError::TypeMismatch(_))
                    && !row_fits(schema@.columns, assigned(row@, schema@.columns, entries_view(assignments@)))),
    {
        let ghost cols = schema@.columns;
        let ghost asg = entries_view(assignments@);
        let ghost t0 = self.store().tables();
        let new_values = match Self::apply_assignments(row, schema, assignments) {
            Ok(v) => v,
            Err(e) => {
                return Err(RustMinidbError::Exec(e));
            },
        };
        match schema.validate_row(new_values.as_slice()) {
            Ok(()) => {},
            Err(e) => {
                let msg = e.message(&self.floats);
                return Err(RustMinidbError::Exec(ExecError::TypeMismatch(msg)));
            },
        }
        if pk_assigned {
            proof { reveal_strlit("不能更新主键列"); }
            return Err(RustMinidbError::Exec(ExecError::Validation(String::from_str("不能更新主键列"))));
        }
        let pkv = pk_value(row, schema).unwrap();
        let _ = self.maintain_indexes(table.as_str(), schema, row, false);
        let new_row = Row { values: new_values };
        let copy = new_row.copy();
        let ghost nr = new_row@;
        let ghost before = self.store().tables()[table@].entries;
        self.engine.update_row(table.as_str(), pkv, new_row)?;
        proof {
            let after = self.store().tables()[table@].entries;
            lemma_update_row_step::<E>(before, pkv@, nr, after);
            assert(self.store().tables() =~= with_entries(t0, table@, after));
        }
        proof {
            assert forall|q: int| 0 <= q < asg.len() implies (col_pos(cols, (#[trigger] asg[q]).0) matches Some(k) && 0 <= k < row@.len()) by {
                crate::schema::lemma_col_pos_range(cols, asg[q].0);
            }
            lemma_assigned_len(row@, cols, asg);
            assert(copy@.len() == row@.len());
        }
        let _ = self.maintain_indexes(table.as_str(), schema, &copy, true);
        Ok(())
    }

    /// UPDATE: for each row the condition selects, in scan order, applies the
    /// assignments, checks the new row against the schema, refuses a change of
    /// the primary key, and stores the new row under the old key.
    #[verifier::rlimit(80)]
    fn execute_update(&mut self, table: &String, assignments: &Vec<(String, Value)>, where_clause: &Option<WhereClause>) -> (r: Result<ExecuteResult, RustMinidbError>)
        requires
            old(self).store().tables().contains_key(table@) ==> update_safe(opt_where_view(*where_clause),
                old(self).store().tables()[table@], table_indexes(old(self).store().index_defs(), table@),
                entries_view(assignments@)),
        ensures
            update_outcome::<E>(old(self).store(), final(self).store(), table, assignments, where_clause, r),

    {
        let ghost t0 = self.store().tables();
        let ghost t = t0[table@];
        let ghost cols = t.schema.columns;
        let ghost asg = entries_view(assignments@);
        let ghost w = opt_where_view(*where_clause);
        let ghost m = matching_rows(w, cols, model_rows(t));
        let ghost ups = update_list(m, cols, asg);
        let ghost idx = table_indexes(self.store().index_defs(), table@);
        let ghost mut cur: Seq<(SValue, Seq<SValue>)> = t.entries;
        proof {
            lemma_no_updates::<E>(t.entries, ups);
            if t0.contains_key(table@) {
                assert(t0 =~= with_entries(t0, table@, t.entries));
            }
        }
        let schema = match self.engine.get_schema(table.as_str())? {
            Some(s) => s,
            None => {
                return Err(RustMinidbError::Exec(ExecError::TableNotFound(table.clone())));
            },
        };
        let rows = self.engine.scan_table(table.as_str())?;
        let ghost rv = rows_view(rows@);
        let pk_assigned = Self::assigns_primary_key(&schema, assignments);
        let mut updated: usize = 0;
        let mut i: usize = 0;
        while i < rows.len()
            invariant
                i <= rows@.len(),
                rv == rows_view(rows@),
                t0.contains_key(table@),
                t0 == old(self).store().tables(),
                t == t0[table@],
                cols == t.schema.columns,
                cols == schema@.columns,
                schema@ == t.schema,
                asg == entries_view(assignments@),
                rv == model_rows(t),
                m == matching_rows(w, cols, rv),
                w == opt_where_view(*where_clause),
                ups == update_list(m, cols, asg),
                pk_assigned == assigns_pk(cols, asg),
                idx == table_indexes(self.store().index_defs(), table@),
                self.store().index_defs() == old(self).store().index_defs(),
                update_safe(w, t, idx, asg),
                updated as int == matching_rows(w, cols, rv.take(i as int)).len(),
                updated <= i,
                updated > 0 ==> assigned_columns_exist(cols, asg) && !pk_assigned,
                forall|q: int| 0 <= q < updated ==> row_fits(cols, #[trigger] ups[q].1),
                updates_applied::<E>(t.entries, ups.take(updated as int), cur),
                self.store().tables() == with_entries(t0, table@, cur),
            decreases rows.len() - i,
        {
            let row = &rows[i];
            assert(rv[i as int] == row@);
            proof {
                lemma_matching_prefix(w, cols, rv, i as int);
                lemma_matching_is_prefix(w, cols, rv, i + 1);
            }
            let keep = match where_clause {
                Some(wc) => {
                    proof { assert(crate::sql::predicate::pred_ok(wc@, cols, rv[i as int].len())); }
                    evaluate_predicate(wc, row, &schema)
                },
                None => true,
            };
            if keep {
                proof {
                    assert(matching_rows(w, cols, rv.take(i + 1)) == matching_rows(w, cols, rv.take(i as int)).push(row@));
                    assert(m.take(updated + 1)[updated as int] == row@);
                    assert(m[updated as int] == row@);
                    assert(pk_pos(cols) is Some && pk_fits(cols, row@.len()) && index_columns_fit(idx, cols, row@.len())
                        && assignments_fit(cols, asg, row@.len()));
                    assert(ups[updated as int] == (row@[pk_pos(cols)->0], assigned(row@, cols, asg)));
                }
                let ghost before = cur;
                match self.update_one(table, &schema, row, assignments, pk_assigned) {
                    Ok(()) => {},
                    Err(e) => {
                        proof {
                            assert(updated < m.len());
                            assert(ups[updated as int].1 == assigned(row@, cols, asg));
                        }
                        return Err(e);
                    },
                }
                proof {
                    let after = self.store().tables()[table@].entries;
                    lemma_updates_push::<E>(t.entries, ups, updated as int, before, after);
                    cur = after;
                    assert(self.store().tables() =~= with_entries(t0, table@, cur));
                }
                updated += 1;
            }
            i += 1;
        }
        assert(rv.take(i as int) =~= rv);
        assert(ups.take(updated as int) =~= ups);
        Ok(write_result(updated))
    }

    /// The next AUTO_INCREMENT value of a column.
    #[verifier::rlimit(40)]
    fn next_auto_increment_id(&self, table: &str, schema: &TableSchema, col_name: &str) -> (r: Result<i64, RustMinidbError>)
        requires
            self.store().tables().contains_key(table@),
            self.store().tables()[table@].schema == schema@,
        ensures
            r matches Ok(id) ==> id == next_id(crate::sql::eval::table_rows(self.store().tables(), table@),
                col_pos(schema@.columns, col_name@)),
            r matches Err(e) ==> crate::storage::engine::backend_error(e),
    {
        let rows = self.engine.scan_table(table)?;
        let ghost rv = rows_view(rows@);
        let mut max_val: i64 = 0;
        let ghost mut p: Option<int> = None;
        {
            if let Some(col_idx) = schema.col_index(col_name) {
                proof { p = Some(col_idx as int); }
                let mut i: usize = 0;
                while i < rows.len()
                    invariant
                        i <= rows@.len(),
                        rv == rows_view(rows@),
                        max_val as int == max_int_at(rv.take(i as int), col_idx as int),
                    decreases rows.len() - i,
                {
                    let row = &rows[i];
                    proof {
                        assert(rv[i as int] == row@);
                        assert(row@.len() == row.values@.len());
                        assert(rv.take(i + 1).drop_last() =~= rv.take(i as int));
                        assert(rv.take(i + 1).last() == row@);
                        if col_idx < row@.len() {
                            assert(row@[col_idx as int] == row.values@[col_idx as int]@);
                        }
                    }
                    if col_idx < row.values.len() {
                        if let Value::Integer(v) = row.values[col_idx] {
                            if v > max_val {
                                max_val = v;
                            }
                        }
                    }
                    i += 1;
                }
                assert(rv.take(i as int) =~= rv);
            }
        }
        Ok(max_val.wrapping_add(1))
    }

    /// Gives each AUTO_INCREMENT column that holds NULL or 0 its next value.
    #[verifier::rlimit(40)]
    fn fill_auto_increment(&self, table: &str, schema: &TableSchema, values: &mut Vec<Value>) -> (r: Result<(), RustMinidbError>)
        requires
            self.store().tables().contains_key(table@),
            self.store().tables()[table@].schema == schema@,
        ensures
            r is Ok ==> auto_filled(schema@.columns, model_rows(self.store().tables()[table@]),
                crate::types::values_view(old(values)@), crate::types::values_view(final(values)@)),
            !needs_auto_value(schema@.columns, crate::types::values_view(old(values)@)) ==> r is Ok,
            r matches Err(e) ==> crate::storage::engine::backend_error(e),
    {
        let ghost cols = schema@.columns;
        let ghost rows = model_rows(self.store().tables()[table@]);
        let ghost before = crate::types::values_view(values@);
        let mut i: usize = 0;
        while i < schema.columns.len()
            invariant
                cols == schema@.columns,
                self.store().tables().contains_key(table@),
                self.store().tables()[table@].schema == schema@,
                rows == model_rows(self.store().tables()[table@]),
                before == crate::types::values_view(old(values)@),
                values@.len() == before.len(),
                forall|j: int| 0 <= j < before.len() ==> if j < i && j < cols.len() && cols[j].auto_increment
                        && (before[j] is Null || before[j] == SValue::Integer(0)) {
                        #[trigger] values@[j]@ == SValue::Integer(next_id(rows, col_pos(cols, cols[j].name)))
                    } else {
                        values@[j]@ == before[j]
                    },
            decreases schema.columns.len() - i,
        {
            let col = &schema.columns[i];
            assert(cols[i as int] == col@);
            if col.auto_increment && i < values.len() {
                let needs_fill = match &values[i] {
                    Value::Null => true,
                    Value::Integer(v) => *v == 0,
                    _ => false,
                };
                assert(values@[i as int]@ == before[i as int]);
                if needs_fill {
                    assert(needs_auto_value(cols, before));
                    let next = self.next_auto_increment_id(table, schema, col.name.as_str())?;
                    values.set(i, Value::Integer(next));
                }
            }
            i += 1;
        }
        assert forall|j: int| 0 <= j < before.len() implies (if j < cols.len() && cols[j].auto_increment
            && (before[j] is Null || before[j] == SValue::Integer(0)) {
            #[trigger] crate::types::values_view(values@)[j] == SValue::Integer(next_id(rows, col_pos(cols, cols[j].name)))
        } else {
            crate::types::values_view(values@)[j] == before[j]
        }) by {
            assert(crate::types::values_view(values@)[j] == values@[j]@);
        }
        Ok(())
    }

    /// The values of an INSERT row in schema order, before conversion.
    fn build_row(schema: &TableSchema, columns: &Vec<String>, row_values: &Vec<Value>) -> (r: Result<Vec<Value>, crate::schema::RowError>)
        ensures
            match built_row(schema@.columns, strings_view(columns@), crate::types::values_view(row_values@)) {
                Some(b) => r matches Ok(v) && crate::types::values_view(v@) == b,
                None => r matches Err(crate::schema::RowError::MissingValue { .. }),
            },
    {
        let ghost cols = schema@.columns;
        let ghost names = strings_view(columns@);
        let ghost vals = crate::types::values_view(row_values@);
        if columns.len() == 0 {
            return Ok(crate::types::copy_values(row_values));
        }
        let mut pairs: Vec<(String, Value)> = Vec::new();
        let mut i: usize = 0;
        while i < columns.len() && i < row_values.len()
            invariant
                i <= columns@.len(),
                i <= row_values@.len(),
                names == strings_view(columns@),
                vals == crate::types::values_view(row_values@),
                pairs@.len() == i,
                forall|j: int| 0 <= j < i ==> (#[trigger] entries_view(pairs@)[j]) == (names[j], vals[j]),
            decreases columns.len() - i,
        {
            let ghost old_pairs = pairs@;
            assert(names[i as int] == columns@[i as int]@);
            assert(vals[i as int] == row_values@[i as int]@);
            pairs.push((columns[i].clone(), row_values[i].copy()));
            proof {
                assert forall|j: int| 0 <= j < i + 1 implies (#[trigger] entries_view(pairs@)[j]) == (names[j], vals[j]) by {
                    assert(entries_view(pairs@)[j] == (pairs@[j].0@, pairs@[j].1@));
                    if j < i {
                        assert(pairs@[j] == old_pairs[j]);
                        assert(entries_view(old_pairs)[j] == (old_pairs[j].0@, old_pairs[j].1@));
                    }
                }
            }
            i += 1;
        }
        assert(entries_view(pairs@) =~= zip_entries(names, vals));
        match crate::schema::row_from_map(schema, &pairs) {
            Ok(row) => {
                proof {
                    assert(crate::types::values_view(row.values@) =~= Seq::new(cols.len(), |q: int|
                        crate::schema::column_fill(cols[q], zip_entries(names, vals))->0));
                }
                Ok(row.values)
            },
            Err(e) => Err(e),
        }
    }

    /// An INSERT row made ready to store: built, converted, given its
    /// AUTO_INCREMENT values, and checked against the schema.
    #[verifier::rlimit(60)]
    fn prepare_row(&self, table: &String, schema: &TableSchema, columns: &Vec<String>, row_values: &Vec<Value>) -> (r: Result<Row, RustMinidbError>)
        requires
            self.store().tables().contains_key(table@),
            self.store().tables()[table@].schema == schema@,
        ensures
            r matches Ok(row) ==> prepared_row(self.store().tables()[table@], strings_view(columns@),
                crate::types::values_view(row_values@), row@) && row_fits(schema@.columns, row@),
            built_row(schema@.columns, strings_view(columns@), crate::types::values_view(row_values@)) is None
                ==> r matches Err(RustMinidbError::Exec(ExecError::Validation(_))),
            built_row(schema@.columns, strings_view(columns@), crate::types::values_view(row_values@)) matches Some(b)
                ==> exists|c: Seq<SValue>| #[trigger] crate::sql::coerce::row_coerced(schema@.columns, b, c)
                    && (!needs_auto_value(schema@.columns, c) ==> (if row_fits(schema@.columns, c) {
                        r matches Ok(row) && row@ == c
                    } else {
                        r matches Err(RustMinidbError::Exec(ExecError::TypeMismatch(_)))
                    })),
            r matches Err(e) ==> crate::storage::engine::backend_error(e)
                || ((e matches RustMinidbError::Exec(ExecError::Validation(_)))
                    && built_row(schema@.columns, strings_view(columns@), crate::types::values_view(row_values@)) is None)
                || ((e matches RustMinidbError::Exec(ExecError::TypeMismatch(_)))
                    && exists|out: Seq<SValue>| #[trigger] prepared_row(self.store().tables()[table@], strings_view(columns@),
                        crate::types::values_view(row_values@), out) && !row_fits(schema@.columns, out)),
    {
        let ghost t = self.store().tables()[table@];
        let built = match Self::build_row(schema, columns, row_values) {
            Ok(v) => v,
            Err(e) => {
                return Err(RustMinidbError::Exec(ExecError::Validation(e.message(&self.floats))));
            },
        };
        let mut values = crate::sql::coerce::coerce_row_values(schema, &built, &self.floats);
        let ghost coerced = crate::types::values_view(values@);
        self.fill_auto_increment(table.as_str(), schema, &mut values)?;
        proof {
            if !needs_auto_value(schema@.columns, coerced) {
                assert(crate::types::values_view(values@) =~= coerced);
            }
        }
        match schema.validate_row(values.as_slice()) {
            Ok(()) => {},
            Err(e) => {
                proof {
                    assert(crate::sql::coerce::row_coerced(t.schema.columns, crate::types::values_view(built@), coerced));
                    assert(prepared_row(t, strings_view(columns@), crate::types::values_view(row_values@),
                        crate::types::values_view(values@)));
                }
                return Err(RustMinidbError::Exec(ExecError::TypeMismatch(e.message(&self.floats))));
            },
        }
        let row = Row { values };
        proof {
            assert(crate::sql::coerce::row_coerced(t.schema.columns, crate::types::values_view(built@), coerced));
        }
        Ok(row)
    }

    /// A stored row's values with the ON CONFLICT assignments applied to the
    /// columns that exist.
    fn upsert_values(old: &Row, schema: &TableSchema, assigns: &Vec<(String, Value)>) -> (r: Vec<Value>)
        requires
            assignments_fit(schema@.columns, entries_view(assigns@), old@.len()),
        ensures
            crate::types::values_view(r@) == upsert_row(old@, schema@.columns, entries_view(assigns@)),
    {
        let ghost asg = entries_view(assigns@);
        let ghost cols = schema@.columns;
        let mut values = crate::types::copy_values(&old.values);
        let mut j: usize = 0;
        while j < assigns.len()
            invariant
                j <= assigns@.len(),
                asg == entries_view(assigns@),
                cols == schema@.columns,
                assignments_fit(cols, asg, old@.len()),
                values@.len() == old@.len(),
                crate::types::values_view(values@) == upsert_row(old@, cols, asg.take(j as int)),
            decreases assigns.len() - j,
        {
            assert(asg[j as int] == (assigns@[j as int].0@, assigns@[j as int].1@));
            proof {
                assert(asg.take(j + 1).drop_last() =~= asg.take(j as int));
                assert(asg.take(j + 1).last() == asg[j as int]);
            }
            match schema.col_index(assigns[j].0.as_str()) {
                Some(k) => {
                    values.set(k, assigns[j].1.copy());
                    assert(crate::types::values_view(values@) =~= upsert_row(old@, cols, asg.take(j + 1)));
                },
                None => {},
            }
            j += 1;
        }
        assert(asg.take(j as int) =~= asg);
        values
    }

    /// The id an INSERT reports.
    #[verifier::rlimit(40)]
    fn insert_id(schema: &TableSchema, columns: &Vec<String>, values: &Vec<Vec<Value>>) -> (r: Option<i64>)
        ensures
            r == last_insert_id(schema@.columns, strings_view(columns@),
                values@.map_values(|v: Vec<Value>| crate::types::values_view(v@))),
    {
        let ghost rows = values@.map_values(|v: Vec<Value>| crate::types::values_view(v@));
        let ghost names = strings_view(columns@);
        let k = match schema.pk_index() {
            Some(k) => k,
            None => {
                return None;
            },
        };
        assert(schema@.columns[k as int] == schema.columns@[k as int]@);
        if schema.columns[k].col_type != crate::types::ColumnType::Integer || values.len() == 0 {
            return None;
        }
        let last = &values[values.len() - 1];
        assert(rows.last() == crate::types::values_view(last@));
        let p: usize = if columns.len() == 0 {
            k
        } else {
            let mut q: usize = 0;
            let mut found = false;
            while q < columns.len() && !found
                invariant
                    q <= columns@.len(),
                    k < schema@.columns.len(),
                    names == strings_view(columns@),
                    found ==> q < columns@.len() && names[q as int] == schema@.columns[k as int].name,
                    forall|j: int| 0 <= j < q ==> names[j] != schema@.columns[k as int].name,
                decreases columns.len() - q + (if found { 0int } else { 1int }),
            {
                assert(names[q as int] == columns@[q as int]@);
                if str_eq(columns[q].as_str(), schema.columns[k].name.as_str()) {
                    found = true;
                } else {
                    q += 1;
                }
            }
            if !found {
                return None;
            }
            proof {
                let n = schema@.columns[k as int].name;
                let c = choose|i: int| 0 <= i < names.len() && names[i] == n && forall|j: int| 0 <= j < i ==> names[j] != n;
                if c < q { assert(names[c] != n); }
                if c > q { assert(names[q as int] == n); }
            }
            q
        };
        if p < last.len() {
            assert(crate::types::values_view(last@)[p as int] == last@[p as int]@);
            match &last[p] {
                Value::Integer(id) => Some(*id),
                _ => None,
            }
        } else {
            None
        }
    }

    /// Inserts one INSERT row, handling a primary-key conflict as ON CONFLICT
    /// says; tells whether the row counts as affected.
    #[verifier::rlimit(60)]
    fn insert_one(&mut self, table: &String, schema: &TableSchema, columns: &Vec<String>, row_values: &Vec<Value>,
        on_conflict: &Option<OnConflictAction>) -> (r: Result<bool, RustMinidbError>)
        requires
            old(self).store().tables().contains_key(table@),
            old(self).store().tables()[table@].schema == schema@,
            upsert_safe(opt_conflict_view(*on_conflict), old(self).store().tables()[table@]),
        ensures
            final(self).store().index_defs() == old(self).store().index_defs(),
            r is Err ==> final(self).store().tables() == old(self).store().tables(),
            r matches Ok(c) ==> final(self).store().tables().contains_key(table@)
                && insert_step::<E>(old(self).store().tables()[table@], strings_view(columns@),
                    crate::types::values_view(row_values@), opt_conflict_view(*on_conflict),
                    final(self).store().tables()[table@].entries, c)
                && final(self).store().tables() == with_entries(old(self).store().tables(), table@,
                    final(self).store().tables()[table@].entries),
            built_row(schema@.columns, strings_view(columns@), crate::types::values_view(row_values@)) is None ==> r is Err,
            built_row(schema@.columns, strings_view(columns@), crate::types::values_view(row_values@)) is None
                ==> r matches Err(RustMinidbError::Exec(ExecError::Validation(_))),
            built_row(schema@.columns, strings_view(columns@), crate::types::values_view(row_values@)) matches Some(b)
                ==> exists|c: Seq<SValue>| #[trigger] crate::sql::coerce::row_coerced(schema@.columns, b, c)
                    && (!needs_auto_value(schema@.columns, c) && !row_fits(schema@.columns, c)
                        ==> r matches Err(RustMinidbError::Exec(ExecError::TypeMismatch(_))))
                    && (!needs_auto_value(schema@.columns, c) && row_fits(schema@.columns, c) && on_conflict is None
                        && pk_pos(schema@.columns) is Some
                        && key_taken::<E>(old(self).store().tables()[table@].entries, c[pk_pos(schema@.columns)->0])
                        ==> r matches Err(RustMinidbError::Engine(crate::error::EngineError::PrimaryKeyConflict(_)))),
            r matches Err(e) ==> insert_error_cause::<E>(old(self).store().tables()[table@], table@, strings_view(columns@),
                crate::types::values_view(row_values@), opt_conflict_view(*on_conflict), e),
    {
        reveal(insert_step);
        let ghost t0 = self.store().tables();
        let ghost t = t0[table@];
        let ghost cols = schema@.columns;
        let ghost names = strings_view(columns@);
        let ghost vals = crate::types::values_view(row_values@);
        let ghost oc = opt_conflict_view(*on_conflict);
        let row = self.prepare_row(table, schema, columns, row_values)?;
        let ghost rv = row@;
        let copy = row.copy();
        proof {
            crate::schema::lemma_pk_pos_range(cols);
        }
        match self.engine.insert_row(table.as_str(), row) {
            Ok(()) => {
                proof {
                    assert(self.store().tables() =~= with_entries(t0, table@, self.store().tables()[table@].entries));
                    let key = rv[pk_pos(cols)->0];
                    if key_taken::<E>(t.entries, key) {
                        let i = choose|i: int| 0 <= i < t.entries.len() && #[trigger] E::same_key(t.entries[i].0, key);
                        assert(E::same_key(t.entries[i].0, key));
                    }
                    assert(insert_step::<E>(t, names, vals, oc, self.store().tables()[table@].entries, true));
                }
                proof {
                    lemma_index_columns_fit_full(table_indexes(self.store().index_defs(), table@), cols);
                }
                let _ = self.maintain_indexes(table.as_str(), schema, &copy, true);
                Ok(true)
            },
            Err(e) => {
                let conflict = match &e {
                    RustMinidbError::Engine(crate::error::EngineError::PrimaryKeyConflict(_)) => true,
                    _ => false,
                };
                if !conflict {
                    return Err(e);
                }
                proof {
                    let key = rv[pk_pos(cols)->0];
                    let i = choose|i: int| 0 <= i < t.entries.len() && #[trigger] E::same_key(t.entries[i].0, key);
                    assert(key_taken::<E>(t.entries, key));
                }
                match on_conflict {
                    None => Err(e),
                    Some(OnConflictAction::DoNothing) => {
                        proof {
                            assert(self.store().tables() =~= with_entries(t0, table@, t.entries));
                            assert(insert_step::<E>(t, names, vals, oc, t.entries, false));
                        }
                        Ok(false)
                    },
                    Some(OnConflictAction::DoUpdate(assigns)) => {
                        let pk_idx = match schema.pk_index() {
                            Some(k) => k,
                            None => {
                                return Err(RustMinidbError::Exec(ExecError::ConstraintViolation(
                                    String::from_str("UPSERT 目标表没有主键"))));
                            },
                        };
                        if pk_idx >= row_values.len() {
                            return Err(RustMinidbError::Exec(ExecError::Validation(String::from_str("缺少主键值"))));
                        }
                        let pk = row_values[pk_idx].copy();
                        assert(vals[pk_idx as int] == pk@);
                        let old_row = match self.engine.get_row(table.as_str(), &pk)? {
                            Some(r) => r,
                            None => {
                                return Err(RustMinidbError::Exec(ExecError::TableNotFound(table.clone())));
                            },
                        };
                        let ghost j = choose|j: int| 0 <= j < t.entries.len() && E::same_key(t.entries[j].0, pk@)
                            && t.entries[j].1 == old_row@;
                        proof {
                            assert(assignments_fit(cols, entries_view(assigns@), t.entries[j].1.len()));
                        }
                        let nv = Self::upsert_values(&old_row, schema, assigns);
                        let new_row = Row::new(nv);
                        let ghost nr = new_row@;
                        self.engine.update_row(table.as_str(), &pk, new_row)?;
                        proof {
                            let after = self.store().tables()[table@].entries;
                            lemma_update_row_step::<E>(t.entries, pk@, nr, after);
                            assert(self.store().tables() =~= with_entries(t0, table@, after));
                            assert(E::same_key(t.entries[j].0, vals[pk_pos(cols)->0]));
                            assert(insert_step::<E>(t, names, vals, oc, after, true));
                        }
                        Ok(true)
                    },
                }
            },
        }
    }

    /// INSERT: stores the rows in order, each as `insert_one` does, and
    /// reports how many rows were affected and the last id.
    #[verifier::rlimit(60)]
    fn execute_insert(&mut self, table: &String, columns: &Vec<String>, values: &Vec<Vec<Value>>,
        on_conflict: &Option<OnConflictAction>) -> (r: Result<ExecuteResult, RustMinidbError>)
        requires
            old(self).store().tables().contains_key(table@) ==> upsert_safe(opt_conflict_view(*on_conflict),
                old(self).store().tables()[table@]),
        ensures
            insert_outcome::<E>(old(self).store(), final(self).store(), table, columns, values, on_conflict, r),

    {
        let ghost t0 = self.store().tables();
        let ghost t = t0[table@];
        let ghost names = strings_view(columns@);
        let ghost rows = values@.map_values(|v: Vec<Value>| crate::types::values_view(v@));
        let ghost oc = opt_conflict_view(*on_conflict);
        proof {
            lemma_no_inserts::<E>(t, names, rows, oc);
            if t0.contains_key(table@) {
                assert(t0 =~= with_entries(t0, table@, t.entries));
            }
        }
        let schema = match self.engine.get_schema(table.as_str())? {
            Some(s) => s,
            None => {
                return Err(RustMinidbError::Exec(ExecError::TableNotFound(table.clone())));
            },
        };
        let ghost mut cur = t.entries;
        let ghost mut n: nat = 0;
        let mut affected: usize = 0;
        let mut i: usize = 0;
        while i < values.len()
            invariant
                i <= values@.len(),
                affected as nat == n,
                n <= i,
                t0.contains_key(table@),
                t0 == old(self).store().tables(),
                t == t0[table@],
                schema@ == t.schema,
                names == strings_view(columns@),
                rows == values@.map_values(|v: Vec<Value>| crate::types::values_view(v@)),
                oc == opt_conflict_view(*on_conflict),
                self.store().index_defs() == old(self).store().index_defs(),
                self.store().tables() == with_entries(t0, table@, cur),
                upsert_safe(oc, TableModel { schema: t.schema, entries: cur }),
                inserts_applied::<E>(t, names, rows.take(i as int), oc, cur, n),
                forall|j: int| 0 <= j < i ==> built_row(t.schema.columns, names, #[trigger] rows[j]) is Some,
            decreases values.len() - i,
        {
            assert(rows[i as int] == crate::types::values_view(values@[i as int]@));
            proof {
                assert(self.store().tables()[table@] == TableModel { schema: t.schema, entries: cur });
            }
            let c = match self.insert_one(table, &schema, columns, &values[i], on_conflict) {
                Ok(c) => c,
                Err(e) => {
                    proof {
                        assert(insert_error_cause::<E>(TableModel { schema: t.schema, entries: cur }, table@, names,
                            rows[i as int], oc, e));
                    }
                    return Err(e);
                },
            };
            proof {
                let after = self.store().tables()[table@].entries;
                lemma_inserts_push::<E>(t, names, rows, oc, i as int, cur, n, after, c);
                lemma_insert_step_upsert_safe::<E>(TableModel { schema: t.schema, entries: cur }, names, rows[i as int], oc, after, c);
                cur = after;
                n = n + if c { 1nat } else { 0nat };
                assert(self.store().tables() =~= with_entries(t0, table@, cur));
            }
            if c {
                affected += 1;
            }
            i += 1;
        }
        assert(rows.take(i as int) =~= rows);
        let id = Self::insert_id(&schema, columns, values);
        Ok(ExecuteResult::WriteResult { rows_affected: affected, last_insert_id: id })
    }
}

} // verus!
