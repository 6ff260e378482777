//! The SQL statements the database executes.

use vstd::prelude::*;
use crate::types::{Value, ColumnDef};

verus! {

/// The action of an `ON CONFLICT` clause.
#[derive(Clone, Debug)]
pub enum OnConflictAction {
    /// Skip the conflicting row.
    DoNothing,
    /// Update the conflicting row with these assignments.
    DoUpdate(Vec<(String, Value)>),
}

/// The view of an `ON CONFLICT` action.
pub enum SConflict {
    DoNothing,
    DoUpdate(Seq<(Seq<char>, crate::types::SValue)>),
}

impl View for OnConflictAction {
    type V = SConflict;

    open spec fn view(&self) -> SConflict {
        match self {
            OnConflictAction::DoNothing => SConflict::DoNothing,
            OnConflictAction::DoUpdate(a) => SConflict::DoUpdate(crate::schema::entries_view(a@)),
        }
    }
}

/// The statements the database supports.
#[derive(Debug)]
pub enum SqlStatement {
    CreateTable {
        name: String,
        columns: Vec<ColumnDef>,
        if_not_exists: bool,
    },
    Insert {
        table: String,
        columns: Vec<String>,
        values: Vec<Vec<Value>>,
        on_conflict: Option<OnConflictAction>,
    },
    Select {
        table: String,
        columns: Vec<String>,
        where_clause: Option<WhereClause>,
        aggregates: Vec<AggregateDef>,
        group_by: Vec<String>,
        having: Option<WhereClause>,
        order_by: Option<OrderBy>,
        limit: Option<usize>,
        offset: Option<usize>,
    },
    Update {
        table: String,
        assignments: Vec<(String, Value)>,
        where_clause: Option<WhereClause>,
    },
    Delete {
        table: String,
        where_clause: Option<WhereClause>,
    },
    DropTable {
        name: String,
    },
    CreateIndex {
        name: String,
        table: String,
        columns: Vec<String>,
        unique: bool,
    },
    DropIndex {
        name: String,
        table: String,
    },
    AlterTable {
        table: String,
        operation: AlterTableOperation,
    },
}

/// The operation of an `ALTER TABLE` statement.
#[derive(Clone, Debug)]
pub enum AlterTableOperation {
    AddColumn { column_def: ColumnDef },
    DropColumn { column_name: String },
}

/// The view of an `ALTER TABLE` operation.
pub enum SAlter {
    AddColumn { column_def: crate::schema::SColumn },
    DropColumn { column_name: Seq<char> },
}

impl View for AlterTableOperation {
    type V = SAlter;

    open spec fn view(&self) -> SAlter {
        match self {
            AlterTableOperation::AddColumn { column_def } => SAlter::AddColumn { column_def: column_def@ },
            AlterTableOperation::DropColumn { column_name } => SAlter::DropColumn { column_name: column_name@ },
        }
    }
}

/// A WHERE (or HAVING) condition.
#[derive(Debug)]
pub enum WhereClause {
    Simple { column: String, operator: ComparisonOp, value: Value },
    /// LIKE / NOT LIKE; a pattern beginning with `ILike:` matches without regard to case.
    Like { column: String, pattern: String, negated: bool },
    InList { column: String, values: Vec<Value>, negated: bool },
    IsNull { column: String, negated: bool },
    Between { column: String, low: Value, high: Value },
    And(Box<WhereClause>, Box<WhereClause>),
    Or(Box<WhereClause>, Box<WhereClause>),
}

/// A comparison operator.
#[derive(Clone, Copy, Debug, PartialEq, Eq, Structural)]
pub enum ComparisonOp {
    Eq,
    NotEq,
    Lt,
    LtEq,
    Gt,
    GtEq,
}

/// An aggregate function in a select list.
#[derive(Clone, Debug)]
pub struct AggregateDef {
    /// COUNT, SUM, AVG, MIN or MAX.
    pub function: String,
    /// The column, or `*`.
    pub column: String,
    /// The alias, if any.
    pub alias: Option<String>,
}

/// One ORDER BY key.
#[derive(Clone, Debug)]
pub struct OrderByItem {
    pub column: String,
    pub ascending: bool,
}

/// An ORDER BY clause.
#[derive(Clone, Debug)]
pub struct OrderBy {
    pub items: Vec<OrderByItem>,
}

} // verus!

verus! {

/// The view of a condition.
pub enum SWhere {
    Simple { column: Seq<char>, operator: ComparisonOp, value: crate::types::SValue },
    Like { column: Seq<char>, pattern: Seq<char>, negated: bool },
    InList { column: Seq<char>, values: Seq<crate::types::SValue>, negated: bool },
    IsNull { column: Seq<char>, negated: bool },
    Between { column: Seq<char>, low: crate::types::SValue, high: crate::types::SValue },
    And(Box<SWhere>, Box<SWhere>),
    Or(Box<SWhere>, Box<SWhere>),
}

/// The view of a condition.
pub open spec fn where_view(w: WhereClause) -> SWhere
    decreases w,
{
    match w {
        WhereClause::Simple { column, operator, value } => SWhere::Simple { column: column@, operator, value: value@ },
        WhereClause::Like { column, pattern, negated } => SWhere::Like { column: column@, pattern: pattern@, negated },
        WhereClause::InList { column, values, negated } =>
            SWhere::InList { column: column@, values: crate::types::values_view(values@), negated },
        WhereClause::IsNull { column, negated } => SWhere::IsNull { column: column@, negated },
        WhereClause::Between { column, low, high } => SWhere::Between { column: column@, low: low@, high: high@ },
        WhereClause::And(a, b) => SWhere::And(Box::new(where_view(*a)), Box::new(where_view(*b))),
        WhereClause::Or(a, b) => SWhere::Or(Box::new(where_view(*a)), Box::new(where_view(*b))),
    }
}

impl View for WhereClause {
    type V = SWhere;

    open spec fn view(&self) -> SWhere {
        where_view(*self)
    }
}

impl WhereClause {
    /// A copy of the condition.
    pub fn copy(&self) -> (r: WhereClause)
        ensures
            r@ == self@,
        decreases self,
    {
        match self {
            WhereClause::Simple { column, operator, value } =>
                WhereClause::Simple { column: column.clone(), operator: *operator, value: value.copy() },
            WhereClause::Like { column, pattern, negated } =>
                WhereClause::Like { column: column.clone(), pattern: pattern.clone(), negated: *negated },
            WhereClause::InList { column, values, negated } =>
                WhereClause::InList { column: column.clone(), values: crate::types::copy_values(values), negated: *negated },
            WhereClause::IsNull { column, negated } => WhereClause::IsNull { column: column.clone(), negated: *negated },
            WhereClause::Between { column, low, high } =>
                WhereClause::Between { column: column.clone(), low: low.copy(), high: high.copy() },
            WhereClause::And(a, b) => {
                let x = a.copy();
                let y = b.copy();
                WhereClause::And(Box::new(x), Box::new(y))
            },
            WhereClause::Or(a, b) => {
                let x = a.copy();
                let y = b.copy();
                WhereClause::Or(Box::new(x), Box::new(y))
            },
        }
    }
}

} // verus!

verus! {

/// The view of an aggregate: (function, column, alias).
pub struct SAgg {
    pub function: Seq<char>,
    pub column: Seq<char>,
    pub alias: Option<Seq<char>>,
}

impl View for AggregateDef {
    type V = SAgg;

    open spec fn view(&self) -> SAgg {
        SAgg { function: self.function@, column: self.column@, alias: crate::schema::opt_str_view(self.alias) }
    }
}

/// The views of a list of aggregates.
pub open spec fn aggs_view(a: Seq<AggregateDef>) -> Seq<SAgg> {
    a.map_values(|x: AggregateDef| x@)
}

/// The view of an ORDER BY clause: (column, ascending) pairs.
pub open spec fn order_view(o: OrderBy) -> Seq<(Seq<char>, bool)> {
    o.items@.map_values(|i: OrderByItem| (i.column@, i.ascending))
}

/// The views of a list of strings.
pub open spec fn strings_view(v: Seq<String>) -> Seq<Seq<char>> {
    v.map_values(|s: String| s@)
}

/// A copy of a list of strings.
pub fn copy_strings(v: &Vec<String>) -> (r: Vec<String>)
    ensures
        strings_view(r@) == strings_view(v@),
{
    let mut r: Vec<String> = Vec::new();
    let mut i: usize = 0;
    while i < v.len()
        invariant
            i <= v@.len(),
            r@.len() == i,
            forall|j: int| 0 <= j < i ==> r@[j]@ == v@[j]@,
        decreases v.len() - i,
    {
        r.push(v[i].clone());
        i += 1;
    }
    assert(strings_view(r@) =~= strings_view(v@));
    r
}

impl AggregateDef {
    /// A copy of the aggregate.
    pub fn copy(&self) -> (r: AggregateDef)
        ensures
            r@ == self@,
    {
        AggregateDef {
            function: self.function.clone(),
            column: self.column.clone(),
            alias: match &self.alias {
                Some(a) => Some(a.clone()),
                None => None,
            },
        }
    }
}

/// A copy of a list of aggregates.
pub fn copy_aggregates(v: &Vec<AggregateDef>) -> (r: Vec<AggregateDef>)
    ensures
        aggs_view(r@) == aggs_view(v@),
{
    let mut r: Vec<AggregateDef> = Vec::new();
    let mut i: usize = 0;
    while i < v.len()
        invariant
            i <= v@.len(),
            r@.len() == i,
            forall|j: int| 0 <= j < i ==> r@[j]@ == v@[j]@,
        decreases v.len() - i,
    {
        r.push(v[i].copy());
        i += 1;
    }
    assert(aggs_view(r@) =~= aggs_view(v@));
    r
}

impl OrderBy {
    /// A copy of the clause.
    pub fn copy(&self) -> (r: OrderBy)
        ensures
            order_view(r) == order_view(*self),
    {
        let mut items: Vec<OrderByItem> = Vec::new();
        let mut i: usize = 0;
        while i < self.items.len()
            invariant
                i <= self.items@.len(),
                items@.len() == i,
                forall|j: int| 0 <= j < i ==> items@[j].column@ == self.items@[j].column@
                    && items@[j].ascending == self.items@[j].ascending,
            decreases self.items.len() - i,
        {
            let it = &self.items[i];
            items.push(OrderByItem { column: it.column.clone(), ascending: it.ascending });
            i += 1;
        }
        let r = OrderBy { items };
        assert(order_view(r) =~= order_view(*self));
        r
    }
}

} // verus!
