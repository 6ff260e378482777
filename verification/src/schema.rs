//! Table schemas, row validation and index definitions.

use vstd::prelude::*;
use crate::types::{Value, SValue, Row, ColumnDef, ColumnType, spec_type_matches, type_matches, values_view};
use crate::strutil::{str_eq, push_str};

verus! {

/// The view of a column definition.
pub struct SColumn {
    pub name: Seq<char>,
    pub col_type: ColumnType,
    pub nullable: bool,
    pub is_primary_key: bool,
    pub default: Option<SValue>,
    pub auto_increment: bool,
    pub comment: Option<Seq<char>>,
}

/// The view of an optional string.
pub open spec fn opt_str_view(s: Option<String>) -> Option<Seq<char>> {
    match s {
        Some(t) => Some(t@),
        None => None,
    }
}

/// The view of an optional value.
pub open spec fn opt_value_view(v: Option<Value>) -> Option<SValue> {
    match v {
        Some(x) => Some(x@),
        None => None,
    }
}

impl View for ColumnDef {
    type V = SColumn;

    open spec fn view(&self) -> SColumn {
        SColumn {
            name: self.name@,
            col_type: self.col_type,
            nullable: self.nullable,
            is_primary_key: self.is_primary_key,
            default: opt_value_view(self.default),
            auto_increment: self.auto_increment,
            comment: opt_str_view(self.comment),
        }
    }
}

impl ColumnDef {
    /// A copy of the column definition.
    pub fn copy(&self) -> (r: ColumnDef)
        ensures
            r@ == self@,
    {
        ColumnDef {
            name: self.name.clone(),
            col_type: self.col_type,
            nullable: self.nullable,
            is_primary_key: self.is_primary_key,
            default: match &self.default {
                Some(v) => Some(v.copy()),
                None => None,
            },
            auto_increment: self.auto_increment,
            comment: match &self.comment {
                Some(c) => Some(c.clone()),
                None => None,
            },
        }
    }
}

/// The views of a list of column definitions.
pub open spec fn columns_view(v: Seq<ColumnDef>) -> Seq<SColumn> {
    v.map_values(|c: ColumnDef| c@)
}

/// A copy of a list of column definitions.
pub fn copy_columns(v: &Vec<ColumnDef>) -> (r: Vec<ColumnDef>)
    ensures
        columns_view(r@) == columns_view(v@),
{
    let mut r: Vec<ColumnDef> = Vec::new();
    let mut i: usize = 0;
    while i < v.len()
        invariant
            i <= v@.len(),
            r@.len() == i,
            forall|j: int| 0 <= j < i ==> r@[j]@ == v@[j]@,
        decreases v.len() - i,
    {
        r.push(v[i].copy());
        i += 1;
    }
    assert(columns_view(r@) =~= columns_view(v@));
    r
}

/// A table schema.
#[derive(Clone, Debug, PartialEq)]
pub struct TableSchema {
    pub name: String,
    pub columns: Vec<ColumnDef>,
    pub primary_key: Vec<String>,
    pub comment: Option<String>,
}

/// The view of a table schema.
pub struct STable {
    pub name: Seq<char>,
    pub columns: Seq<SColumn>,
    pub primary_key: Seq<Seq<char>>,
    pub comment: Option<Seq<char>>,
}

impl View for TableSchema {
    type V = STable;

    open spec fn view(&self) -> STable {
        STable {
            name: self.name@,
            columns: self.columns@.map_values(|c: ColumnDef| c@),
            primary_key: self.primary_key@.map_values(|s: String| s@),
            comment: opt_str_view(self.comment),
        }
    }
}

impl TableSchema {
    /// A copy of the schema.
    pub fn copy(&self) -> (r: TableSchema)
        ensures
            r@ == self@,
    {
        let mut pk: Vec<String> = Vec::new();
        let mut i: usize = 0;
        while i < self.primary_key.len()
            invariant
                i <= self.primary_key@.len(),
                pk@.len() == i,
                forall|j: int| 0 <= j < i ==> pk@[j]@ == self.primary_key@[j]@,
            decreases self.primary_key.len() - i,
        {
            pk.push(self.primary_key[i].clone());
            i += 1;
        }
        let r = TableSchema {
            name: self.name.clone(),
            columns: copy_columns(&self.columns),
            primary_key: pk,
            comment: match &self.comment {
                Some(c) => Some(c.clone()),
                None => None,
            },
        };
        assert(r@.primary_key =~= self@.primary_key);
        r
    }
}

/// Why a list of values does not fit a schema.
#[derive(Clone, Debug, PartialEq)]
pub enum RowError {
    /// The number of values differs from the number of columns.
    ColumnCount { expected: usize, actual: usize },
    /// A NOT NULL column holds NULL.
    NullValue { column: String },
    /// A value does not have the column's type.
    TypeMismatch { column: String, expected: ColumnType, actual: Value },
    /// A required column has neither a value nor a default.
    MissingValue { column: String },
}

/// The first column (in order) at which a value violates the schema, if any.
pub open spec fn first_bad_column(cols: Seq<SColumn>, vals: Seq<SValue>) -> Option<int> {
    if exists|i: int| 0 <= i < cols.len() && bad_value(cols[i], vals[i]) {
        Some(choose|i: int| 0 <= i < cols.len() && bad_value(cols[i], vals[i])
            && forall|j: int| 0 <= j < i ==> !bad_value(cols[j], vals[j]))
    } else {
        None
    }
}

/// Whether a value violates its column: NULL in a NOT NULL column, or a
/// non-NULL value of another type.
pub open spec fn bad_value(c: SColumn, v: SValue) -> bool {
    if v is Null { !c.nullable } else { !spec_type_matches(c.col_type, v) }
}

/// Whether `vals` fits the columns.
pub open spec fn row_fits(cols: Seq<SColumn>, vals: Seq<SValue>) -> bool {
    vals.len() == cols.len() && forall|i: int| 0 <= i < cols.len() ==> !bad_value(cols[i], vals[i])
}

/// The position of the first column satisfying `p`, if any.
pub open spec fn first_index(cols: Seq<SColumn>, p: spec_fn(SColumn) -> bool) -> Option<int> {
    if exists|i: int| 0 <= i < cols.len() && p(cols[i]) {
        Some(choose|i: int| 0 <= i < cols.len() && p(cols[i]) && forall|j: int| 0 <= j < i ==> !p(cols[j]))
    } else {
        None
    }
}

/// The position of the first primary-key column.
pub open spec fn pk_pos(cols: Seq<SColumn>) -> Option<int> {
    first_index(cols, |c: SColumn| c.is_primary_key)
}

/// The position of the first column called `name`.
pub open spec fn col_pos(cols: Seq<SColumn>, name: Seq<char>) -> Option<int> {
    first_index(cols, |c: SColumn| c.name == name)
}

pub proof fn lemma_first_index_unique(cols: Seq<SColumn>, p: spec_fn(SColumn) -> bool, k: int)
    requires
        0 <= k < cols.len(),
        p(cols[k]),
        forall|j: int| 0 <= j < k ==> !p(cols[j]),
    ensures
        first_index(cols, p) == Some(k),
{
    let c = choose|i: int| 0 <= i < cols.len() && p(cols[i]) && forall|j: int| 0 <= j < i ==> !p(cols[j]);
    assert(0 <= c < cols.len() && p(cols[c]) && forall|j: int| 0 <= j < c ==> !p(cols[j]));
    if c < k {
        assert(!p(cols[c]));
    } else if c > k {
        assert(!p(cols[k]));
    }
}

/// The first primary-key column is the one before which there is none.
pub proof fn lemma_first_pk(cols: Seq<SColumn>, k: int)
    requires
        0 <= k < cols.len(),
        cols[k].is_primary_key,
        forall|j: int| 0 <= j < k ==> !cols[j].is_primary_key,
    ensures
        pk_pos(cols) == Some(k),
{
    lemma_first_index_unique(cols, |c: SColumn| c.is_primary_key, k);
}

/// The primary-key position lies within the columns.
pub proof fn lemma_pk_pos_range(cols: Seq<SColumn>)
    ensures
        pk_pos(cols) matches Some(k) ==> 0 <= k < cols.len() && cols[k].is_primary_key,
{
    let p = |c: SColumn| c.is_primary_key;
    if exists|i: int| 0 <= i < cols.len() && p(cols[i]) {
        let w = choose|i: int| 0 <= i < cols.len() && p(cols[i]);
        lemma_first_exists(cols, p, w);
    }
}

/// A column position found by name lies within the columns.
pub proof fn lemma_col_pos_range(cols: Seq<SColumn>, name: Seq<char>)
    ensures
        col_pos(cols, name) matches Some(k) ==> 0 <= k < cols.len(),
{
    let p = |c: SColumn| c.name == name;
    if exists|i: int| 0 <= i < cols.len() && p(cols[i]) {
        let k = choose|i: int| 0 <= i < cols.len() && p(cols[i]) && forall|j: int| 0 <= j < i ==> !p(cols[j]);
        let w = choose|i: int| 0 <= i < cols.len() && p(cols[i]);
        lemma_first_exists(cols, p, w);
    }
}

proof fn lemma_first_exists(cols: Seq<SColumn>, p: spec_fn(SColumn) -> bool, w: int)
    requires
        0 <= w < cols.len(),
        p(cols[w]),
    ensures
        exists|i: int| 0 <= i < cols.len() && p(cols[i]) && forall|j: int| 0 <= j < i ==> !p(cols[j]),
    decreases w,
{
    if exists|j: int| 0 <= j < w && p(cols[j]) {
        let j = choose|j: int| 0 <= j < w && p(cols[j]);
        lemma_first_exists(cols, p, j);
    } else {
        assert(forall|j: int| 0 <= j < w ==> !p(cols[j]));
    }
}

impl TableSchema {
    /// Checks a list of values against the schema: the count must match, no
    /// NULL may stand in a NOT NULL column, and every non-NULL value must have
    /// its column's type.  The first offending column (in order) is reported.
    pub fn validate_row(&self, values: &[Value]) -> (r: Result<(), RowError>)
        ensures
            values@.len() != self.columns@.len() ==> r == Err::<(), RowError>(RowError::ColumnCount {
                expected: self.columns@.len() as usize,
                actual: values@.len() as usize,
            }),
            values@.len() == self.columns@.len() ==> (r is Ok <==> row_fits(self@.columns, values_view(values@))),
            r matches Err(RowError::NullValue { column }) ==> ({
                let k = first_bad_column(self@.columns, values_view(values@));
                &&& k is Some
                &&& values@[k->0]@ is Null
                &&& column@ == self@.columns[k->0].name
            }),
            r matches Err(RowError::TypeMismatch { column, expected, actual }) ==> ({
                let k = first_bad_column(self@.columns, values_view(values@));
                &&& k is Some
                &&& !(values@[k->0]@ is Null)
                &&& column@ == self@.columns[k->0].name
                &&& expected == self@.columns[k->0].col_type
                &&& actual@ == values@[k->0]@
            }),
            !(r matches Err(RowError::MissingValue { .. })),
    {
        if values.len() != self.columns.len() {
            return Err(RowError::ColumnCount { expected: self.columns.len(), actual: values.len() });
        }
        let ghost cols = self@.columns;
        let ghost vals = values_view(values@);
        let mut i: usize = 0;
        while i < self.columns.len()
            invariant
                values@.len() == self.columns@.len(),
                cols == self@.columns,
                vals == values_view(values@),
                i <= cols.len(),
                forall|j: int| 0 <= j < i ==> !bad_value(cols[j], vals[j]),
            decreases self.columns.len() - i,
        {
            let col = &self.columns[i];
            let val = &values[i];
            assert(cols[i as int] == col@);
            assert(vals[i as int] == val@);
            if val.is_null() && !col.nullable {
                proof { lemma_first_bad(cols, vals, i as int); }
                return Err(RowError::NullValue { column: col.name.clone() });
            }
            if !val.is_null() && !type_matches(&col.col_type, val) {
                proof { lemma_first_bad(cols, vals, i as int); }
                return Err(RowError::TypeMismatch { column: col.name.clone(), expected: col.col_type, actual: val.copy() });
            }
            i += 1;
        }
        Ok(())
    }

    /// The position of the primary-key column.
    pub fn pk_index(&self) -> (r: Option<usize>)
        ensures
            match r {
                Some(i) => i < self@.columns.len() && pk_pos(self@.columns) == Some(i as int),
                None => pk_pos(self@.columns) is None,
            },
    {
        let mut i: usize = 0;
        while i < self.columns.len()
            invariant
                i <= self.columns@.len(),
                forall|j: int| 0 <= j < i ==> !self@.columns[j].is_primary_key,
            decreases self.columns.len() - i,
        {
            if self.columns[i].is_primary_key {
                proof { lemma_first_index_unique(self@.columns, |c: SColumn| c.is_primary_key, i as int); }
                return Some(i);
            }
            i += 1;
        }
        None
    }

    /// The position of the column called `name`.
    pub fn col_index(&self, name: &str) -> (r: Option<usize>)
        ensures
            match r {
                Some(i) => i < self@.columns.len() && col_pos(self@.columns, name@) == Some(i as int),
                None => col_pos(self@.columns, name@) is None,
            },
    {
        let mut i: usize = 0;
        while i < self.columns.len()
            invariant
                i <= self.columns@.len(),
                forall|j: int| 0 <= j < i ==> self@.columns[j].name != name@,
            decreases self.columns.len() - i,
        {
            if str_eq(self.columns[i].name.as_str(), name) {
                proof { lemma_first_index_unique(self@.columns, |c: SColumn| c.name == name@, i as int); }
                return Some(i);
            }
            i += 1;
        }
        None
    }
}

proof fn lemma_first_bad(cols: Seq<SColumn>, vals: Seq<SValue>, k: int)
    requires
        0 <= k < cols.len(),
        bad_value(cols[k], vals[k]),
        forall|j: int| 0 <= j < k ==> !bad_value(cols[j], vals[j]),
    ensures
        first_bad_column(cols, vals) == Some(k),
{
    let c = choose|i: int| 0 <= i < cols.len() && bad_value(cols[i], vals[i])
        && forall|j: int| 0 <= j < i ==> !bad_value(cols[j], vals[j]);
    assert(0 <= c < cols.len() && bad_value(cols[c], vals[c]));
    if c < k {
        assert(!bad_value(cols[c], vals[c]));
    } else if c > k {
        assert(!bad_value(cols[k], vals[k]));
    }
}

/// The value given for `name` in a list of (column, value) pairs: the last
/// pair with that name wins, as when the pairs are inserted into a map in order.
pub open spec fn assoc_lookup(entries: Seq<(Seq<char>, SValue)>, name: Seq<char>) -> Option<SValue>
    decreases entries.len(),
{
    if entries.len() == 0 {
        None
    } else if entries.last().0 == name {
        Some(entries.last().1)
    } else {
        assoc_lookup(entries.drop_last(), name)
    }
}

/// The view of a list of (name, value) pairs.
pub open spec fn entries_view(e: Seq<(String, Value)>) -> Seq<(Seq<char>, SValue)> {
    e.map_values(|p: (String, Value)| (p.0@, p.1@))
}

/// The value a column receives when a row is built from named values: the
/// given value, else NULL when nullable, else the column default; `None` when
/// none of these applies.
pub open spec fn column_fill(c: SColumn, entries: Seq<(Seq<char>, SValue)>) -> Option<SValue> {
    match assoc_lookup(entries, c.name) {
        Some(v) => Some(v),
        None => if c.nullable { Some(SValue::Null) } else { c.default },
    }
}

/// Looks up the value given for `name` (the last pair with that name wins).
pub fn lookup_entry(entries: &Vec<(String, Value)>, name: &str) -> (r: Option<Value>)
    ensures
        opt_value_view(r) == assoc_lookup(entries_view(entries@), name@),
{
    let mut i = entries.len();
    let ghost ev = entries_view(entries@);
    assert(ev.take(i as int) =~= ev);
    while i > 0
        invariant
            i <= entries@.len(),
            ev == entries_view(entries@),
            assoc_lookup(ev, name@) == assoc_lookup(ev.take(i as int), name@),
        decreases i,
    {
        assert(ev.take(i as int).drop_last() =~= ev.take(i - 1));
        assert(ev[i - 1] == (entries@[i - 1].0@, entries@[i - 1].1@));
        if str_eq(entries[i - 1].0.as_str(), name) {
            return Some(entries[i - 1].1.copy());
        }
        i -= 1;
    }
    None
}

/// Builds a row in schema order from named values.  A column without a value
/// gets NULL when it is nullable, else its default; a column with neither is
/// reported as missing.
pub fn row_from_map(schema: &TableSchema, map: &Vec<(String, Value)>) -> (r: Result<Row, RowError>)
    ensures
        match r {
            Ok(row) => row@.len() == schema@.columns.len()
                && forall|i: int| 0 <= i < schema@.columns.len()
                    ==> column_fill(#[trigger] schema@.columns[i], entries_view(map@)) == Some(row@[i]),
            Err(e) => e matches RowError::MissingValue { column } && exists|i: int|
                0 <= i < schema@.columns.len() && column_fill(schema@.columns[i], entries_view(map@)) is None
                && column@ == schema@.columns[i].name
                && forall|j: int| 0 <= j < i ==> column_fill(schema@.columns[j], entries_view(map@)) is Some,
        },
{
    let mut values: Vec<Value> = Vec::new();
    let mut i: usize = 0;
    while i < schema.columns.len()
        invariant
            i <= schema@.columns.len(),
            values@.len() == i,
            forall|j: int| 0 <= j < i ==> column_fill(schema@.columns[j], entries_view(map@)) == Some(values@[j]@),
        decreases schema.columns.len() - i,
    {
        let col = &schema.columns[i];
        assert(schema@.columns[i as int] == col@);
        match lookup_entry(map, col.name.as_str()) {
            Some(v) => values.push(v),
            None => {
                if col.nullable {
                    values.push(Value::Null);
                } else {
                    match &col.default {
                        Some(d) => values.push(d.copy()),
                        None => {
                            return Err(RowError::MissingValue { column: col.name.clone() });
                        },
                    }
                }
            },
        }
        i += 1;
    }
    let row = Row { values };
    assert forall|i: int| 0 <= i < schema@.columns.len() implies column_fill(#[trigger] schema@.columns[i], entries_view(map@)) == Some(row@[i]) by {
        assert(row@[i] == row.values@[i]@);
    }
    Ok(row)
}

/// The primary-key value of a row, if the schema has a primary key.
pub fn pk_value<'a>(row: &'a Row, schema: &'a TableSchema) -> (r: Option<&'a Value>)
    requires
        pk_pos(schema@.columns) matches Some(k) ==> k < row.values@.len(),
    ensures
        match pk_pos(schema@.columns) {
            Some(k) => r matches Some(v) && v@ == row@[k],
            None => r is None,
        },
{
    match schema.pk_index() {
        Some(idx) => Some(&row.values[idx]),
        None => None,
    }
}

/// An index definition.
#[derive(Clone, Debug, PartialEq)]
pub struct IndexDef {
    /// The index name.
    pub name: String,
    /// The indexed table.
    pub table_name: String,
    /// The indexed columns.
    pub columns: Vec<String>,
    /// Whether the index is unique.
    pub unique: bool,
}

impl IndexDef {
    /// The name of the index's backing table: `__idx__{table}__{name}`.
    pub fn internal_table_name(&self) -> (s: String)
        ensures
            s@ == "__idx__"@ + self.table_name@ + "__"@ + self.name@,
    {
        let mut s = String::from_str("__idx__");
        push_str(&mut s, self.table_name.as_str());
        push_str(&mut s, "__");
        push_str(&mut s, self.name.as_str());
        s
    }
}

} // verus!
