//! The storage-engine interface.  A backend stores, per table, its schema and
//! a list of (key, row) entries in the order a scan returns them, and answers
//! lookups by key under its own key equivalence.

use vstd::prelude::*;
use crate::types::{Value, SValue, Row, values_view};
use crate::schema::{TableSchema, STable, IndexDef, pk_pos};
use crate::error::{RustMinidbError, EngineError};

verus! {

/// The stored state of one table.
pub struct TableModel {
    /// The table's schema.
    pub schema: STable,
    /// The (key, row) entries in scan order.
    pub entries: Seq<(SValue, Seq<SValue>)>,
}

/// The rows of a table in scan order.
pub open spec fn model_rows(t: TableModel) -> Seq<Seq<SValue>> {
    t.entries.map_values(|e: (SValue, Seq<SValue>)| e.1)
}

/// The view of an index definition: (name, table, columns, unique).
pub struct SIndex {
    pub name: Seq<char>,
    pub table_name: Seq<char>,
    pub columns: Seq<Seq<char>>,
    pub unique: bool,
}

impl View for IndexDef {
    type V = SIndex;

    open spec fn view(&self) -> SIndex {
        SIndex {
            name: self.name@,
            table_name: self.table_name@,
            columns: self.columns@.map_values(|s: String| s@),
            unique: self.unique,
        }
    }
}

/// `entries` with `e` put in at some position.
pub open spec fn inserted_somewhere<T>(old: Seq<T>, new: Seq<T>, e: T) -> bool {
    exists|i: int| 0 <= i <= old.len() && new == old.insert(i, e)
}

/// The index entries with one entry of one index put in (`insert`) or
/// taken out.
pub open spec fn entry_update(m: Map<(Seq<char>, Seq<char>), Set<(Seq<u8>, Seq<u8>)>>, id: (Seq<char>, Seq<char>),
    e: (Seq<u8>, Seq<u8>), insert: bool) -> Map<(Seq<char>, Seq<char>), Set<(Seq<u8>, Seq<u8>)>>
{
    let cur = if m.contains_key(id) { m[id] } else { Set::empty() };
    m.insert(id, if insert { cur.insert(e) } else { cur.remove(e) })
}

/// Whether an error is one a backend fails with: an engine, I/O or
/// serialization error (never one of the executor's own).
pub open spec fn backend_error(e: RustMinidbError) -> bool {
    e is Engine || e is Io || e is Serialization
}

/// Whether `pks` are exactly the primary-key bytes an index records under
/// `key`.
pub open spec fn index_holds(m: Map<(Seq<char>, Seq<char>), Set<(Seq<u8>, Seq<u8>)>>, index: SIndex, key: Seq<u8>,
    pks: Seq<Seq<u8>>) -> bool
{
    forall|pk: Seq<u8>| pks.contains(pk) <==> (m.contains_key((index.table_name, index.name))
        && #[trigger] m[(index.table_name, index.name)].contains((key, pk)))
}

/// The entries of each index, by (table, index name): pairs of index key
/// bytes and primary-key bytes.
pub type IndexEntries = Map<(Seq<char>, Seq<char>), Set<(Seq<u8>, Seq<u8>)>>;

/// A storage backend.  Keys are compared with the backend's key equivalence
/// `same_key`; rows are stored under the value of their primary-key column.
/// A failing call leaves the stored state unchanged.
pub trait StorageEngine {
    /// The stored tables by name.  A backend's own model of its state; the
    /// library reasons about it only through the contracts below.
    closed spec fn tables(&self) -> Map<Seq<char>, TableModel> {
        Map::empty()
    }

    /// The index definitions of each table, in creation order.
    closed spec fn index_defs(&self) -> Map<Seq<char>, Seq<SIndex>> {
        Map::empty()
    }

    /// The entries of each index, by (table, index name): pairs of index key
    /// bytes and primary-key bytes.
    closed spec fn index_entries(&self) -> Map<(Seq<char>, Seq<char>), Set<(Seq<u8>, Seq<u8>)>> {
        Map::empty()
    }

    /// The backend's key equivalence.
    closed spec fn same_key(a: SValue, b: SValue) -> bool {
        false
    }

    /// Creates a table with no rows.
    fn create_table(&mut self, schema: &TableSchema) -> (r: Result<(), RustMinidbError>)
        ensures
            old(self).tables().contains_key(schema@.name) ==> r matches Err(RustMinidbError::Engine(EngineError::TableAlreadyExists(_))),
            r is Ok ==> final(self).tables() == old(self).tables().insert(schema@.name, TableModel { schema: schema@, entries: Seq::empty() }),
            r is Err ==> final(self).tables() == old(self).tables(),
            final(self).index_defs() == old(self).index_defs(),
            r matches Err(e) ==> backend_error(e);

    /// Drops a table and its rows.
    fn drop_table(&mut self, name: &str) -> (r: Result<(), RustMinidbError>)
        ensures
            r is Ok ==> final(self).tables() == old(self).tables().remove(name@),
            r is Err ==> final(self).tables() == old(self).tables(),
            final(self).index_defs() == old(self).index_defs(),
            r matches Err(e) ==> backend_error(e);

    /// The schema of a table, if it exists.
    fn get_schema(&self, name: &str) -> (r: Result<Option<TableSchema>, RustMinidbError>)
        ensures
            r matches Ok(Some(s)) ==> self.tables().contains_key(name@) && s@ == self.tables()[name@].schema,
            r matches Ok(None) ==> !self.tables().contains_key(name@),
            r matches Err(e) ==> backend_error(e);

    /// The names of all tables.
    fn list_tables(&self) -> (r: Result<Vec<String>, RustMinidbError>)
        ensures
            r matches Ok(v) ==> v@.map_values(|s: String| s@).no_duplicates()
                && v@.map_values(|s: String| s@).to_set() == self.tables().dom(),
            r matches Err(e) ==> backend_error(e);

    /// Inserts a row under the value of its primary-key column; fails with a
    /// primary-key conflict exactly when a row with an equivalent key exists.
    fn insert_row(&mut self, table: &str, row: Row) -> (r: Result<(), RustMinidbError>)
        requires
            old(self).tables().contains_key(table@) ==> (pk_pos(old(self).tables()[table@].schema.columns) matches Some(k) ==> k < row@.len()),
        ensures
            ({
                let t = old(self).tables()[table@];
                old(self).tables().contains_key(table@) && pk_pos(t.schema.columns) is Some
                    && (exists|i: int| 0 <= i < t.entries.len()
                        && #[trigger] Self::same_key(t.entries[i].0, row@[pk_pos(t.schema.columns)->0]))
                    <==> r matches Err(RustMinidbError::Engine(EngineError::PrimaryKeyConflict(_)))
            }),
            r is Ok ==> ({
                let t = old(self).tables()[table@];
                let k = pk_pos(t.schema.columns);
                &&& old(self).tables().contains_key(table@)
                &&& k is Some
                &&& final(self).tables().dom() == old(self).tables().dom()
                &&& final(self).tables()[table@].schema == t.schema
                &&& inserted_somewhere(t.entries, final(self).tables()[table@].entries, (row@[k->0], row@))
                &&& forall|n: Seq<char>| n != table@ && old(self).tables().contains_key(n) ==> final(self).tables()[n] == old(self).tables()[n]
            }),
            r is Err ==> final(self).tables() == old(self).tables(),
            final(self).index_defs() == old(self).index_defs(),
            r matches Err(e) ==> backend_error(e);

    /// The row stored under a key equivalent to `pk`, if any.
    fn get_row(&self, table: &str, pk: &Value) -> (r: Result<Option<Row>, RustMinidbError>)
        ensures
            r matches Ok(Some(row)) ==> self.tables().contains_key(table@) && exists|i: int|
                0 <= i < self.tables()[table@].entries.len() && Self::same_key(self.tables()[table@].entries[i].0, pk@)
                && self.tables()[table@].entries[i].1 == row@,
            r matches Ok(None) ==> !self.tables().contains_key(table@) || forall|i: int|
                0 <= i < self.tables()[table@].entries.len() ==> !Self::same_key(self.tables()[table@].entries[i].0, pk@),
            r matches Err(e) ==> backend_error(e);

    /// All rows of a table in scan order (none for a table that does not exist).
    fn scan_table(&self, table: &str) -> (r: Result<Vec<Row>, RustMinidbError>)
        ensures
            r matches Ok(rows) ==> rows@.map_values(|x: Row| x@) == if self.tables().contains_key(table@) {
                model_rows(self.tables()[table@])
            } else {
                Seq::empty()
            },
            r matches Err(e) ==> backend_error(e);

    /// Stores `row` under `pk`: the entries with an equivalent key get the new
    /// row, or a new entry is added when there is none.  Fails when the row's
    /// length differs from the table's column count.
    fn update_row(&mut self, table: &str, pk: &Value, row: Row) -> (r: Result<(), RustMinidbError>)
        ensures
            old(self).tables().contains_key(table@) && row@.len() != old(self).tables()[table@].schema.columns.len()
                ==> r is Err,
            r is Ok ==> ({
                let t = old(self).tables()[table@];
                &&& old(self).tables().contains_key(table@)
                &&& row@.len() == t.schema.columns.len()
                &&& final(self).tables().dom() == old(self).tables().dom()
                &&& final(self).tables()[table@].schema == t.schema
                &&& if exists|i: int| 0 <= i < t.entries.len() && #[trigger] Self::same_key(t.entries[i].0, pk@) {
                        final(self).tables()[table@].entries == t.entries.map_values(|e: (SValue, Seq<SValue>)|
                            if Self::same_key(e.0, pk@) { (e.0, row@) } else { e })
                    } else {
                        inserted_somewhere(t.entries, final(self).tables()[table@].entries, (pk@, row@))
                    }
                &&& forall|n: Seq<char>| n != table@ && old(self).tables().contains_key(n) ==> final(self).tables()[n] == old(self).tables()[n]
            }),
            r is Err ==> final(self).tables() == old(self).tables(),
            final(self).index_defs() == old(self).index_defs(),
            r matches Err(e) ==> backend_error(e);

    /// Removes the entries whose key is equivalent to `pk`; reports whether
    /// there were any.
    fn delete_row(&mut self, table: &str, pk: &Value) -> (r: Result<bool, RustMinidbError>)
        ensures
            r matches Ok(b) ==> ({
                let t = old(self).tables()[table@];
                &&& old(self).tables().contains_key(table@)
                &&& final(self).tables() == old(self).tables().insert(table@, TableModel {
                        schema: t.schema,
                        entries: t.entries.filter(|e: (SValue, Seq<SValue>)| !Self::same_key(e.0, pk@)),
                    })
                &&& b == exists|i: int| 0 <= i < t.entries.len() && Self::same_key(t.entries[i].0, pk@)
            }),
            r is Err ==> final(self).tables() == old(self).tables(),
            final(self).index_defs() == old(self).index_defs(),
            r matches Err(e) ==> backend_error(e);

    /// The number of rows of a table.
    fn row_count(&self, table: &str) -> (r: Result<u64, RustMinidbError>)
        ensures
            r matches Ok(n) ==> self.tables().contains_key(table@) && n == self.tables()[table@].entries.len(),
            r matches Err(e) ==> backend_error(e);

    /// Whether a table exists.
    fn table_exists(&self, name: &str) -> (r: Result<bool, RustMinidbError>)
        ensures
            r matches Ok(b) ==> b == self.tables().contains_key(name@),
            r matches Err(e) ==> backend_error(e);

    /// Replaces the schema of an existing table, keeping its rows.
    fn update_schema(&mut self, schema: &TableSchema) -> (r: Result<(), RustMinidbError>)
        ensures
            r is Ok ==> final(self).tables() == if old(self).tables().contains_key(schema@.name) {
                old(self).tables().insert(schema@.name, TableModel {
                    schema: schema@,
                    entries: old(self).tables()[schema@.name].entries,
                })
            } else {
                old(self).tables()
            },
            r is Err ==> final(self).tables() == old(self).tables(),
            final(self).index_defs() == old(self).index_defs(),
            r matches Err(e) ==> backend_error(e);

    /// The indexes of a table.
    fn list_indexes(&self, table: &str) -> (r: Result<Vec<IndexDef>, RustMinidbError>)
        ensures
            r matches Ok(v) ==> v@.map_values(|d: IndexDef| d@) == if self.index_defs().contains_key(table@) {
                self.index_defs()[table@]
            } else {
                Seq::empty()
            },
            r matches Err(e) ==> backend_error(e);

    /// Creates an index (its entries are not filled from existing rows).
    fn create_index(&mut self, index: &IndexDef) -> (r: Result<(), RustMinidbError>)
        ensures
            final(self).tables() == old(self).tables(),
            r is Ok ==> final(self).index_defs() == old(self).index_defs().insert(index@.table_name,
                (if old(self).index_defs().contains_key(index@.table_name) {
                    old(self).index_defs()[index@.table_name]
                } else {
                    Seq::empty()
                }).push(index@)),
            r is Err ==> final(self).index_defs() == old(self).index_defs(),
            r matches Err(e) ==> backend_error(e);

    /// Drops the index called `name` of a table.
    fn drop_index(&mut self, table: &str, name: &str) -> (r: Result<(), RustMinidbError>)
        ensures
            final(self).tables() == old(self).tables(),
            r is Ok ==> final(self).index_defs() == if old(self).index_defs().contains_key(table@) {
                old(self).index_defs().insert(table@, old(self).index_defs()[table@].filter(|d: SIndex| d.name != name@))
            } else {
                old(self).index_defs()
            },
            r is Err ==> final(self).index_defs() == old(self).index_defs(),
            r matches Err(e) ==> backend_error(e);

    /// Records that the row with primary-key bytes `pk` has the index key `key`.
    fn insert_index_entry(&mut self, index: &IndexDef, key: &[u8], pk: &[u8]) -> (r: Result<(), RustMinidbError>)
        ensures
            final(self).tables() == old(self).tables(),
            final(self).index_defs() == old(self).index_defs(),
            r is Ok ==> final(self).index_entries() == entry_update(old(self).index_entries(),
                (index@.table_name, index@.name), (key@, pk@), true),
            r is Err ==> final(self).index_entries() == old(self).index_entries(),
            r matches Err(e) ==> backend_error(e);

    /// Removes the record that the row with primary-key bytes `pk` has the index key `key`.
    fn delete_index_entry(&mut self, index: &IndexDef, key: &[u8], pk: &[u8]) -> (r: Result<(), RustMinidbError>)
        ensures
            final(self).tables() == old(self).tables(),
            final(self).index_defs() == old(self).index_defs(),
            r is Ok ==> final(self).index_entries() == entry_update(old(self).index_entries(),
                (index@.table_name, index@.name), (key@, pk@), false),
            r is Err ==> final(self).index_entries() == old(self).index_entries(),
            r matches Err(e) ==> backend_error(e);

    /// The primary-key bytes recorded in an index under `key`.
    fn scan_index_eq(&self, index: &IndexDef, key: &[u8]) -> (r: Result<Vec<Vec<u8>>, RustMinidbError>)
        ensures
            match r {
                Ok(v) => index_holds(self.index_entries(), index@, key@, v@.map_values(|b: Vec<u8>| b@)),
                Err(e) => backend_error(e),
            };
}


} // verus!
