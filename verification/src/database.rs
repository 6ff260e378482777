//! The embedded entry point: SQL text in, results out.

use vstd::prelude::*;
use crate::config::Config;
use crate::error::RustMinidbError;
use crate::types::{Value, SValue, FloatOps, values_view};
use crate::storage::engine::StorageEngine;
use crate::sql::ast::{SqlStatement, strings_view};
use crate::sql::parser::{SqlParser, parse_outcome};
use crate::sql::guard::{statement_guard, reads_stored_rows};
use crate::sql::executor::{Executor, ExecuteResult, statement_safe, statement_outcome};
use crate::strutil::str_eq;

verus! {

/// A database: an executor over a storage engine, and the configuration it
/// was opened with.
pub struct Database<E: StorageEngine, F: FloatOps> {
    executor: Executor<E, F>,
    config: Config,
}

/// Whether `r` is what running SQL text gives on `before`, leaving `after`:
/// a parse error changes nothing; a parsed statement that would read a
/// column a stored row lacks gives `None` and changes nothing; otherwise the
/// statement runs, with its outcome — or, for a statement whose check reads
/// the stored rows, that reading fails and nothing changes.
pub open spec fn runs_sql<E: StorageEngine>(sql: Seq<char>, before: E, after: E,
    r: Option<Result<ExecuteResult, RustMinidbError>>) -> bool
{
    exists|p: Result<SqlStatement, RustMinidbError>| #[trigger] parse_outcome(sql, p) && match p {
        Err(e) => after == before && r == Some(Err::<ExecuteResult, RustMinidbError>(e)),
        Ok(stmt) => match r {
            None => after == before && !statement_guard::<E>(stmt, before.tables(), before.index_defs(), before.index_entries()),
            Some(x) => {
                ||| (after == before && x is Err && reads_stored_rows(stmt))
                ||| (statement_safe::<E>(stmt, before.tables(), before.index_defs(), before.index_entries())
                    && statement_outcome::<E>(before, after, &stmt, x))
            },
        },
    }
}

/// The first position of an entry called `name`, searching from `k`.
pub open spec fn entry_pos(es: Seq<(Seq<char>, SValue)>, name: Seq<char>, k: int) -> Option<int>
    decreases es.len() - k,
{
    if k < 0 || k >= es.len() {
        None
    } else if es[k].0 == name {
        Some(k)
    } else {
        entry_pos(es, name, k + 1)
    }
}

/// A row as the map a query gives, built from the first `n` columns and
/// values: each column name once, in the order it first appears, with the
/// value at its last position.
pub open spec fn row_entries(cols: Seq<Seq<char>>, vals: Seq<SValue>, n: int) -> Seq<(Seq<char>, SValue)>
    decreases n,
{
    if n <= 0 {
        Seq::empty()
    } else {
        let rest = row_entries(cols, vals, n - 1);
        match entry_pos(rest, cols[n - 1], 0) {
            Some(k) => rest.update(k, (cols[n - 1], vals[n - 1])),
            None => rest.push((cols[n - 1], vals[n - 1])),
        }
    }
}

/// The view of a row map.
pub open spec fn entries_of(m: Seq<(String, Value)>) -> Seq<(Seq<char>, SValue)> {
    m.map_values(|e: (String, Value)| (e.0@, e.1@))
}

/// Whether `x` is what a query gives for the result `r`: a map per result row
/// (pairing the columns with the row's values), nothing for a write, or the
/// same error.
pub open spec fn query_maps(r: Result<ExecuteResult, RustMinidbError>, x: Result<Vec<Vec<(String, Value)>>, RustMinidbError>) -> bool {
    match r {
        Ok(ExecuteResult::QueryResult { columns, rows, .. }) => x matches Ok(maps) && maps@.len() == rows@.len()
            && forall|i: int| 0 <= i < rows@.len() ==> entries_of(#[trigger] maps@[i]@) == row_entries(strings_view(columns@),
                values_view(rows@[i]@), if columns@.len() < rows@[i]@.len() { columns@.len() as int } else { rows@[i]@.len() as int }),
        Ok(ExecuteResult::WriteResult { .. }) => x matches Ok(maps) && maps@.len() == 0,
        Err(e) => x == Err::<Vec<Vec<(String, Value)>>, RustMinidbError>(e),
    }
}

/// The position of the entry called `name`.
fn find_entry(es: &Vec<(String, Value)>, name: &str) -> (r: Option<usize>)
    ensures
        match r {
            Some(k) => k < es@.len() && entry_pos(entries_of(es@), name@, 0) == Some(k as int),
            None => entry_pos(entries_of(es@), name@, 0) is None,
        },
{
    let ghost v = entries_of(es@);
    let mut i: usize = 0;
    while i < es.len()
        invariant
            i <= es@.len(),
            v == entries_of(es@),
            entry_pos(v, name@, 0) == entry_pos(v, name@, i as int),
        decreases es.len() - i,
    {
        assert(v[i as int].0 == es@[i as int].0@);
        if str_eq(es[i].0.as_str(), name) {
            return Some(i);
        }
        i += 1;
    }
    None
}

/// Pairs the columns with a row's values as a map.
fn row_map(columns: &Vec<String>, values: &Vec<Value>) -> (r: Vec<(String, Value)>)
    ensures
        entries_of(r@) == row_entries(strings_view(columns@), values_view(values@),
            if columns@.len() < values@.len() { columns@.len() as int } else { values@.len() as int }),
{
    let n = if columns.len() < values.len() { columns.len() } else { values.len() };
    let ghost cv = strings_view(columns@);
    let ghost vv = values_view(values@);
    let mut out: Vec<(String, Value)> = Vec::new();
    let mut i: usize = 0;
    while i < n
        invariant
            i <= n,
            n <= columns@.len(),
            n <= values@.len(),
            cv == strings_view(columns@),
            vv == values_view(values@),
            entries_of(out@) == row_entries(cv, vv, i as int),
        decreases n - i,
    {
        let ghost before = entries_of(out@);
        assert(cv[i as int] == columns@[i as int]@);
        assert(vv[i as int] == values@[i as int]@);
        match find_entry(&out, columns[i].as_str()) {
            Some(k) => {
                out.set(k, (columns[i].clone(), values[i].copy()));
                assert(entries_of(out@) =~= before.update(k as int, (cv[i as int], vv[i as int])));
            },
            None => {
                out.push((columns[i].clone(), values[i].copy()));
                assert(entries_of(out@) =~= before.push((cv[i as int], vv[i as int])));
            },
        }
        i += 1;
    }
    out
}

impl<E: StorageEngine, F: FloatOps> Database<E, F> {
    /// The storage engine's state.
    pub closed spec fn store(&self) -> E {
        self.executor.store()
    }

    /// The configuration.
    pub closed spec fn configuration(&self) -> Config {
        self.config
    }

    /// A database over a storage engine, with the default configuration.
    pub fn open(engine: E, floats: F) -> (r: Self)
        ensures
            r.store() == engine,
            r.configuration().server.port == 8080,
            r.configuration().server.host@ == "0.0.0.0"@,
            r.configuration().storage.db_path@ == "data.db"@,
    {
        Database { executor: Executor::new(engine, floats), config: Config::default() }
    }

    /// A database over a storage engine, with a configuration.
    pub fn open_with_config(engine: E, floats: F, config: Config) -> (r: Self)
        ensures
            r.store() == engine,
            r.configuration() == config,
    {
        Database { executor: Executor::new(engine, floats), config }
    }

    /// Runs one SQL statement.  `None` when the statement would read a
    /// column that a stored row lacks (rows written before the column was
    /// added); nothing is changed then.
    pub fn execute(&mut self, sql: &str) -> (r: Option<Result<ExecuteResult, RustMinidbError>>)
        ensures
            runs_sql::<E>(sql@, old(self).store(), final(self).store(), r),
            final(self).configuration() == old(self).configuration(),
    {
        let p = SqlParser::parse(sql, self.executor.floats());
        let ghost gp = p;
        assert(parse_outcome(sql@, gp));
        let stmt = match p {
            Ok(s) => s,
            Err(e) => {
                return Some(Err(e));
            },
        };
        let ghost before = self.store();
        match self.executor.can_execute(&stmt) {
            Ok(true) => {
                let r = self.executor.execute(&stmt);
                assert(runs_sql::<E>(sql@, before, self.store(), Some(r)));
                Some(r)
            },
            Ok(false) => None,
            Err(e) => Some(Err(e)),
        }
    }

    /// Runs one SQL statement and gives a query's rows as maps from column
    /// name to value; a write gives no rows.  `None` as for `execute`.
    pub fn query(&mut self, sql: &str) -> (r: Option<Result<Vec<Vec<(String, Value)>>, RustMinidbError>>)
        ensures
            exists|x: Option<Result<ExecuteResult, RustMinidbError>>| #[trigger] runs_sql::<E>(sql@, old(self).store(), final(self).store(), x)
                && match x {
                    None => r is None,
                    Some(res) => r matches Some(y) && query_maps(res, y),
                },
            final(self).configuration() == old(self).configuration(),
    {
        let ghost before = self.store();
        let ran = self.execute(sql);
        let ghost gr = ran;
        assert(runs_sql::<E>(sql@, before, self.store(), gr));
        let res = match ran {
            Some(r) => r,
            None => {
                return None;
            },
        };
        let ghost g = res;
        let x = match res {
            Ok(ExecuteResult::QueryResult { columns, rows, .. }) => {
                let mut maps: Vec<Vec<(String, Value)>> = Vec::new();
                let mut i: usize = 0;
                while i < rows.len()
                    invariant
                        i <= rows@.len(),
                        maps@.len() == i,
                        forall|j: int| 0 <= j < i ==> entries_of(#[trigger] maps@[j]@) == row_entries(strings_view(columns@),
                            values_view(rows@[j]@), if columns@.len() < rows@[j]@.len() { columns@.len() as int } else { rows@[j]@.len() as int }),
                    decreases rows.len() - i,
                {
                    maps.push(row_map(&columns, &rows[i]));
                    i += 1;
                }
                Ok(maps)
            },
            Ok(ExecuteResult::WriteResult { .. }) => Ok(Vec::new()),
            Err(e) => Err(e),
        };
        assert(query_maps(g, x));
        Some(x)
    }

    /// The executor.
    pub fn executor(&self) -> (r: &Executor<E, F>)
        ensures
            r.store() == self.store(),
    {
        &self.executor
    }

    /// The storage engine.
    pub fn engine(&self) -> (r: &E)
        ensures
            *r == self.store(),
    {
        self.executor.engine()
    }

    /// The configuration.
    pub fn config(&self) -> (r: &Config)
        ensures
            *r == self.configuration(),
    {
        &self.config
    }
}

} // verus!
