//! The query planner: primary-key equality becomes a point lookup, equality on
//! a single-column index an index scan, everything else a scan and a filter.

use vstd::prelude::*;
use crate::types::{Value, SValue};
use crate::schema::{TableSchema, STable, SColumn, IndexDef};
use crate::storage::engine::SIndex;
use crate::error::{RustMinidbError, ExecError};
use crate::strutil::str_eq;
use crate::sql::ast::{aggs_view, SqlStatement, WhereClause, SWhere, ComparisonOp, AggregateDef, SAgg, OrderBy,
    order_view, strings_view, copy_strings, copy_aggregates};

verus! {

/// A plan node.
#[derive(Debug)]
pub enum PlanNode {
    SeqScan { table: String },
    PointLookup { table: String, pk: Value },
    IndexScan { table: String, index_name: String, key: Value },
    Filter { input: Box<PlanNode>, predicate: WhereClause },
    Aggregate { input: Box<PlanNode>, aggregates: Vec<AggregateDef>, group_by: Vec<String> },
    Having { input: Box<PlanNode>, predicate: WhereClause },
    Projection { input: Box<PlanNode>, columns: Vec<String> },
    Sort { input: Box<PlanNode>, order_by: OrderBy },
    Limit { input: Box<PlanNode>, limit: usize, offset: usize },
}

/// The view of a plan node.
pub enum SPlan {
    SeqScan { table: Seq<char> },
    PointLookup { table: Seq<char>, pk: SValue },
    IndexScan { table: Seq<char>, index_name: Seq<char>, key: SValue },
    Filter { input: Box<SPlan>, predicate: SWhere },
    Aggregate { input: Box<SPlan>, aggregates: Seq<SAgg>, group_by: Seq<Seq<char>> },
    Having { input: Box<SPlan>, predicate: SWhere },
    Projection { input: Box<SPlan>, columns: Seq<Seq<char>> },
    Sort { input: Box<SPlan>, order_by: Seq<(Seq<char>, bool)> },
    Limit { input: Box<SPlan>, limit: usize, offset: usize },
}

/// The view of a plan node.
pub open spec fn plan_view(p: PlanNode) -> SPlan
    decreases p,
{
    match p {
        PlanNode::SeqScan { table } => SPlan::SeqScan { table: table@ },
        PlanNode::PointLookup { table, pk } => SPlan::PointLookup { table: table@, pk: pk@ },
        PlanNode::IndexScan { table, index_name, key } => SPlan::IndexScan { table: table@, index_name: index_name@, key: key@ },
        PlanNode::Filter { input, predicate } => SPlan::Filter { input: Box::new(plan_view(*input)), predicate: predicate@ },
        PlanNode::Aggregate { input, aggregates, group_by } => SPlan::Aggregate {
            input: Box::new(plan_view(*input)),
            aggregates: aggs_view(aggregates@),
            group_by: strings_view(group_by@),
        },
        PlanNode::Having { input, predicate } => SPlan::Having { input: Box::new(plan_view(*input)), predicate: predicate@ },
        PlanNode::Projection { input, columns } => SPlan::Projection { input: Box::new(plan_view(*input)), columns: strings_view(columns@) },
        PlanNode::Sort { input, order_by } => SPlan::Sort { input: Box::new(plan_view(*input)), order_by: order_view(order_by) },
        PlanNode::Limit { input, limit, offset } => SPlan::Limit { input: Box::new(plan_view(*input)), limit, offset },
    }
}

impl View for PlanNode {
    type V = SPlan;

    open spec fn view(&self) -> SPlan {
        plan_view(*self)
    }
}

/// The query planner.
pub struct Planner;

/// The key of a primary-key equality condition: `pk = v` on a column that is
/// part of the primary key.
pub open spec fn pk_equals(w: SWhere, schema: STable) -> Option<SValue> {
    match w {
        SWhere::Simple { column, operator, value } =>
            if operator == ComparisonOp::Eq && exists|i: int| 0 <= i < schema.columns.len()
                && schema.columns[i].is_primary_key && schema.columns[i].name == column {
                Some(value)
            } else {
                None
            },
        _ => None,
    }
}

/// The first single-column index on the column of an equality condition.
pub open spec fn first_index_on(idx: Seq<SIndex>, column: Seq<char>) -> Option<int> {
    if exists|i: int| 0 <= i < idx.len() && idx[i].columns.len() == 1 && idx[i].columns[0] == column {
        Some(choose|i: int| 0 <= i < idx.len() && idx[i].columns.len() == 1 && idx[i].columns[0] == column
            && forall|j: int| 0 <= j < i ==> !(idx[j].columns.len() == 1 && idx[j].columns[0] == column))
    } else {
        None
    }
}

/// The (index name, key) of an equality condition that a single-column index serves.
pub open spec fn index_match(w: SWhere, idx: Seq<SIndex>) -> Option<(Seq<char>, SValue)> {
    match w {
        SWhere::Simple { column, operator, value } =>
            if operator == ComparisonOp::Eq {
                match first_index_on(idx, column) {
                    Some(i) => Some((idx[i].name, value)),
                    None => None,
                }
            } else {
                None
            },
        _ => None,
    }
}

/// The columns a select list names: all schema columns for an empty list or `*`.
pub open spec fn projected_columns(columns: Seq<Seq<char>>, schema: STable) -> Seq<Seq<char>> {
    if columns.len() == 0 || (columns.len() == 1 && columns[0] == "*"@) {
        schema.columns.map_values(|c: SColumn| c.name)
    } else {
        columns
    }
}

/// The plan of a SELECT.
pub open spec fn select_plan(
    table: Seq<char>,
    columns: Seq<Seq<char>>,
    where_clause: Option<SWhere>,
    aggregates: Seq<SAgg>,
    group_by: Seq<Seq<char>>,
    having: Option<SWhere>,
    order_by: Option<Seq<(Seq<char>, bool)>>,
    limit: Option<usize>,
    offset: Option<usize>,
    schema: STable,
    indexes: Seq<SIndex>,
) -> SPlan {
    let scan = SPlan::SeqScan { table };
    let p1 = match where_clause {
        Some(w) => match pk_equals(w, schema) {
            Some(v) => SPlan::PointLookup { table, pk: v },
            None => match index_match(w, indexes) {
                Some((n, k)) => SPlan::IndexScan { table, index_name: n, key: k },
                None => SPlan::Filter { input: Box::new(scan), predicate: w },
            },
        },
        None => scan,
    };
    let p2 = if aggregates.len() > 0 || group_by.len() > 0 {
        SPlan::Aggregate { input: Box::new(p1), aggregates, group_by }
    } else {
        p1
    };
    let p3 = match having {
        Some(h) => SPlan::Having { input: Box::new(p2), predicate: h },
        None => p2,
    };
    let p4 = match order_by {
        Some(o) => SPlan::Sort { input: Box::new(p3), order_by: o },
        None => p3,
    };
    let p5 = SPlan::Projection { input: Box::new(p4), columns: projected_columns(columns, schema) };
    if limit is Some || offset is Some {
        SPlan::Limit {
            input: Box::new(p5),
            limit: match limit { Some(l) => l, None => usize::MAX },
            offset: match offset { Some(o) => o, None => 0 },
        }
    } else {
        p5
    }
}

/// The view of an optional condition.
pub open spec fn opt_where_view(w: Option<WhereClause>) -> Option<SWhere> {
    match w {
        Some(x) => Some(x@),
        None => None,
    }
}

/// The view of an optional ORDER BY clause.
pub open spec fn opt_order_view(o: Option<OrderBy>) -> Option<Seq<(Seq<char>, bool)>> {
    match o {
        Some(x) => Some(order_view(x)),
        None => None,
    }
}

/// The plan of a statement, when it is a SELECT.
pub open spec fn plan_of(stmt: SqlStatement, schema: STable, indexes: Seq<SIndex>) -> Option<SPlan> {
    match stmt {
        SqlStatement::Select { table, columns, where_clause, aggregates, group_by, having, order_by, limit, offset } =>
            Some(select_plan(table@, strings_view(columns@), opt_where_view(where_clause),
                aggs_view(aggregates@), strings_view(group_by@), opt_where_view(having),
                opt_order_view(order_by), limit, offset, schema, indexes)),
        _ => None,
    }
}

impl Planner {
    /// Builds the plan of a SELECT statement.
    pub fn plan_select(stmt: &SqlStatement, schema: &TableSchema, indexes: &Vec<IndexDef>) -> (r: Result<PlanNode, RustMinidbError>)
        ensures
            match plan_of(*stmt, schema@, indexes@.map_values(|d: IndexDef| d@)) {
                Some(p) => r matches Ok(n) && n@ == p,
                None => r matches Err(RustMinidbError::Exec(ExecError::NotImplemented(_))),
            },
    {
        match stmt {
            SqlStatement::Select { table, columns, where_clause, aggregates, group_by, having, order_by, limit, offset } => {
                let ghost iv = indexes@.map_values(|d: IndexDef| d@);
                let ghost sp = select_plan(table@, strings_view(columns@), opt_where_view(*where_clause),
                    aggs_view(aggregates@), strings_view(group_by@), opt_where_view(*having),
                    opt_order_view(*order_by), *limit, *offset, schema@, iv);
                let mut plan = PlanNode::SeqScan { table: table.clone() };
                let has_aggregation = aggregates.len() > 0 || group_by.len() > 0;
                match where_clause {
                    Some(wc) => {
                        match Self::is_pk_equals(wc, schema) {
                            Some(pk) => {
                                plan = PlanNode::PointLookup { table: table.clone(), pk };
                            },
                            None => match Self::is_index_match(wc, indexes) {
                                Some((idx_name, idx_key)) => {
                                    plan = PlanNode::IndexScan { table: table.clone(), index_name: idx_name, key: idx_key };
                                },
                                None => {
                                    plan = PlanNode::Filter { input: Box::new(plan), predicate: wc.copy() };
                                },
                            },
                        }
                    },
                    None => {},
                }
                let ghost p1 = plan@;
                assert(plan@ == match opt_where_view(*where_clause) {
                    Some(w) => match pk_equals(w, schema@) {
                        Some(v) => SPlan::PointLookup { table: table@, pk: v },
                        None => match index_match(w, iv) {
                            Some((n, k)) => SPlan::IndexScan { table: table@, index_name: n, key: k },
                            None => SPlan::Filter { input: Box::new(SPlan::SeqScan { table: table@ }), predicate: w },
                        },
                    },
                    None => SPlan::SeqScan { table: table@ },
                });
                if has_aggregation {
                    plan = PlanNode::Aggregate {
                        input: Box::new(plan),
                        aggregates: copy_aggregates(aggregates),
                        group_by: copy_strings(group_by),
                    };
                }
                assert(plan@ == if aggregates@.len() > 0 || group_by@.len() > 0 {
                    SPlan::Aggregate { input: Box::new(p1), aggregates: aggs_view(aggregates@), group_by: strings_view(group_by@) }
                } else {
                    p1
                });
                let ghost p2 = plan@;
                match having {
                    Some(h) => {
                        plan = PlanNode::Having { input: Box::new(plan), predicate: h.copy() };
                    },
                    None => {},
                }
                assert(plan@ == match opt_where_view(*having) {
                    Some(h) => SPlan::Having { input: Box::new(p2), predicate: h },
                    None => p2,
                });
                let cols = Self::resolve_columns(columns, schema);
                match order_by {
                    Some(ob) => {
                        plan = PlanNode::Sort { input: Box::new(plan), order_by: ob.copy() };
                    },
                    None => {},
                }
                let ghost p4 = plan@;
                plan = PlanNode::Projection { input: Box::new(plan), columns: cols };
                assert(plan@ == SPlan::Projection { input: Box::new(p4), columns: projected_columns(strings_view(columns@), schema@) });
                if limit.is_some() || offset.is_some() {
                    let limit_val = match limit { Some(l) => *l, None => usize::MAX };
                    let offset_val = match offset { Some(o) => *o, None => 0 };
                    plan = PlanNode::Limit { input: Box::new(plan), limit: limit_val, offset: offset_val };
                }
                Ok(plan)
            },
            _ => Err(RustMinidbError::Exec(ExecError::NotImplemented(String::from_str("plan_select 只接收 SELECT 语句")))),
        }
    }

    /// The columns of a select list, with `*` or an empty list standing for all columns.
    fn resolve_columns(columns: &Vec<String>, schema: &TableSchema) -> (r: Vec<String>)
        ensures
            strings_view(r@) == projected_columns(strings_view(columns@), schema@),
    {
        proof { reveal_strlit("*"); }
        if columns.len() == 0 || (columns.len() == 1 && str_eq(columns[0].as_str(), "*")) {
            let mut r: Vec<String> = Vec::new();
            let mut i: usize = 0;
            while i < schema.columns.len()
                invariant
                    i <= schema.columns@.len(),
                    r@.len() == i,
                    forall|j: int| 0 <= j < i ==> r@[j]@ == schema.columns@[j].name@,
                decreases schema.columns.len() - i,
            {
                r.push(schema.columns[i].name.clone());
                i += 1;
            }
            assert(strings_view(r@) =~= schema@.columns.map_values(|c: SColumn| c.name));
            r
        } else {
            copy_strings(columns)
        }
    }

    /// The key of a primary-key equality condition.
    fn is_pk_equals(wc: &WhereClause, schema: &TableSchema) -> (r: Option<Value>)
        ensures
            opt_view(r) == pk_equals(wc@, schema@),
    {
        match wc {
            WhereClause::Simple { column, operator, value } => {
                assert(wc@ == SWhere::Simple { column: column@, operator: *operator, value: value@ });
                if *operator == ComparisonOp::Eq {
                    let mut i: usize = 0;
                    while i < schema.columns.len()
                        invariant
                            i <= schema.columns@.len(),
                            *operator == ComparisonOp::Eq,
                            wc@ == (SWhere::Simple { column: column@, operator: *operator, value: value@ }),
                            forall|j: int| 0 <= j < i ==> !(schema@.columns[j].is_primary_key && schema@.columns[j].name == column@),
                        decreases schema.columns.len() - i,
                    {
                        let c = &schema.columns[i];
                        if c.is_primary_key && str_eq(c.name.as_str(), column.as_str()) {
                            assert(schema@.columns[i as int] == c@);
                            assert(0 <= i < schema@.columns.len() && schema@.columns[i as int].is_primary_key
                                && schema@.columns[i as int].name == column@);

                            return Some(value.copy());
                        }
                        i += 1;
                    }
                }
                None
            },
            _ => None,
        }
    }

    /// The index name and key of an equality condition served by a single-column index.
    fn is_index_match(wc: &WhereClause, indexes: &Vec<IndexDef>) -> (r: Option<(String, Value)>)
        ensures
            match index_match(wc@, indexes@.map_values(|d: IndexDef| d@)) {
                Some((n, k)) => r matches Some((a, b)) && a@ == n && b@ == k,
                None => r is None,
            },
    {
        let ghost iv = indexes@.map_values(|d: IndexDef| d@);
        match wc {
            WhereClause::Simple { column, operator, value } => {
                assert(wc@ == SWhere::Simple { column: column@, operator: *operator, value: value@ });
                if *operator == ComparisonOp::Eq {
                    let mut i: usize = 0;
                    while i < indexes.len()
                        invariant
                            i <= indexes@.len(),
                            *operator == ComparisonOp::Eq,
                            wc@ == (SWhere::Simple { column: column@, operator: *operator, value: value@ }),
                            iv == indexes@.map_values(|d: IndexDef| d@),
                            forall|j: int| 0 <= j < i ==> !(iv[j].columns.len() == 1 && iv[j].columns[0] == column@),
                        decreases indexes.len() - i,
                    {
                        let idx = &indexes[i];
                        assert(iv[i as int] == idx@);
                        if idx.columns.len() == 1 && str_eq(idx.columns[0].as_str(), column.as_str()) {
                            proof {
                                assert(iv[i as int].columns[0] == idx.columns@[0]@);
                                lemma_first_index_on(iv, column@, i as int);
                            }
                            return Some((idx.name.clone(), value.copy()));
                        }
                        proof { if idx.columns@.len() == 1 { assert(iv[i as int].columns[0] == idx.columns@[0]@); } }
                        i += 1;
                    }
                }
                None
            },
            _ => None,
        }
    }
}

proof fn lemma_first_index_on(idx: Seq<SIndex>, column: Seq<char>, k: int)
    requires
        0 <= k < idx.len(),
        idx[k].columns.len() == 1 && idx[k].columns[0] == column,
        forall|j: int| 0 <= j < k ==> !(idx[j].columns.len() == 1 && idx[j].columns[0] == column),
    ensures
        first_index_on(idx, column) == Some(k),
{
    let c = choose|i: int| 0 <= i < idx.len() && idx[i].columns.len() == 1 && idx[i].columns[0] == column
        && forall|j: int| 0 <= j < i ==> !(idx[j].columns.len() == 1 && idx[j].columns[0] == column);
    assert(0 <= c < idx.len() && idx[c].columns.len() == 1 && idx[c].columns[0] == column);
    if c < k {
    } else if c > k {
        assert(!(idx[k].columns.len() == 1 && idx[k].columns[0] == column));
    }
}

/// The view of an optional value.
pub open spec fn opt_view(v: Option<Value>) -> Option<SValue> {
    match v {
        Some(x) => Some(x@),
        None => None,
    }
}

} // verus!
