//! Reading SQL text with sqlparser (its generic dialect) and turning its
//! syntax trees into the library's (`syntax`).  What the text reads as is
//! named (`sql_statements`); the conversion of what it reads into statements
//! is verified in `parser`.

use vstd::prelude::*;
use sqlparser::ast as sa;
use crate::sql::syntax::{
    AstAlterOp, AstAssignment, AstColumnDef, AstColumnOption, AstDataType, AstExpr, AstExprKind, AstFunctionArg,
    AstFunctionArgs, AstGroupBy, AstObjectType, AstOnInsert, AstOrderByExpr, AstQuery, AstSelect, AstSelectItem,
    AstSetExpr, AstStatement, AstTableFactor, AstTableWithJoins, AstValue,
};

verus! {

#[verifier::external_type_specification]
#[verifier::external_body]
pub struct ExSqlStatement(sa::Statement);

#[verifier::external_type_specification]
#[verifier::external_body]
pub struct ExSqlExpr(sa::Expr);

#[verifier::external_type_specification]
#[verifier::external_body]
pub struct ExSqlObjectName(sa::ObjectName);

#[verifier::external_type_specification]
#[verifier::external_body]
pub struct ExSqlFunctionArguments(sa::FunctionArguments);

#[verifier::external_type_specification]
#[verifier::external_body]
pub struct ExSqlFunctionArg(sa::FunctionArg);

#[verifier::external_type_specification]
#[verifier::external_body]
pub struct ExSqlDataType(sa::DataType);

#[verifier::external_type_specification]
#[verifier::external_body]
pub struct ExSqlColumnOption(sa::ColumnOption);

#[verifier::external_type_specification]
#[verifier::external_body]
pub struct ExSqlTableWithJoins(sa::TableWithJoins);

#[verifier::external_type_specification]
#[verifier::external_body]
pub struct ExSqlAssignment(sa::Assignment);

#[verifier::external_type_specification]
#[verifier::external_body]
pub struct ExSqlSelect(sa::Select);

#[verifier::external_type_specification]
#[verifier::external_body]
pub struct ExSqlSelectItem(sa::SelectItem);

#[verifier::external_type_specification]
#[verifier::external_body]
pub struct ExSqlQuery(sa::Query);

#[verifier::external_type_specification]
#[verifier::external_body]
pub struct ExSqlOnInsert(sa::OnInsert);

#[verifier::external_type_specification]
#[verifier::external_body]
pub struct ExSqlCreateTable(sa::CreateTable);

#[verifier::external_type_specification]
#[verifier::external_body]
pub struct ExSqlInsert(sa::Insert);

#[verifier::external_type_specification]
#[verifier::external_body]
pub struct ExSqlDelete(sa::Delete);

#[verifier::external_type_specification]
#[verifier::external_body]
pub struct ExSqlCreateIndex(sa::CreateIndex);

#[verifier::external_type_specification]
#[verifier::external_body]
pub struct ExSqlObjectType(sa::ObjectType);

/// The statements sqlparser reads in SQL text with its generic dialect, in
/// the library's syntax trees; `None` when it rejects the text.
pub uninterp spec fn sql_statements(sql: Seq<char>) -> Option<Seq<AstStatement>>;

/// The text with every quoted part (in `'`, `"` or backquotes) blanked
/// out, character for character.
pub open spec fn unquoted(s: Seq<char>) -> Seq<char>
    decreases s.len(),
{
    unquote_state(s).0
}

/// The blanked text so far and the open quote, if any.
pub open spec fn unquote_state(s: Seq<char>) -> (Seq<char>, Option<char>)
    decreases s.len(),
{
    if s.len() == 0 {
        (Seq::empty(), None)
    } else {
        let (out, q) = unquote_state(s.drop_last());
        let c = s.last();
        match q {
            Some(open) => (out.push(' '), if c == open { None } else { Some(open) }),
            None => if c == '\'' || c == '"' || c == '`' { (out.push(' '), Some(c)) } else { (out.push(c), None) },
        }
    }
}

/// Whether `p` occurs in `s`.
pub open spec fn occurs(p: Seq<char>, s: Seq<char>) -> bool {
    exists|i: int| 0 <= i && i + p.len() <= s.len() && #[trigger] s.subrange(i, i + p.len()) == p
}

/// Whether the text holds, outside quotes and in any case, the word
/// `GRANTED` (GRANT and REVOKE ... GRANTED BY), or both `FLUSH` and
/// `CHANNEL` (FLUSH RELAY LOGS FOR CHANNEL): the forms on which sqlparser's
/// parser can panic instead of failing.
pub open spec fn risky_sql(sql: Seq<char>) -> bool {
    let u = crate::monitor::uppercase(unquoted(sql));
    occurs("GRANTED"@, u) || (occurs("FLUSH"@, u) && occurs("CHANNEL"@, u))
}

/// Whether `p` stands in `s` at `i`.
fn matches_at(p: &Vec<char>, s: &Vec<char>, i: usize) -> (r: bool)
    requires
        i + p@.len() <= s@.len(),
    ensures
        r == (s@.subrange(i as int, i + p@.len()) == p@),
{
    let n = s.len();
    let mut j: usize = 0;
    while j < p.len()
        invariant
            j <= p@.len(),
            n == s@.len(),
            i + p@.len() <= s@.len(),
            forall|k: int| 0 <= k < j ==> s@[i + k] == p@[k],
        decreases p.len() - j,
    {
        assert(i + j < s@.len());
        if s[i + j] != p[j] {
            assert(s@.subrange(i as int, i + p@.len())[j as int] != p@[j as int]);
            return false;
        }
        j += 1;
    }
    assert(s@.subrange(i as int, i + p@.len()) =~= p@);
    true
}

/// Whether `p` occurs in `s`.
fn occurs_in(p: &str, s: &Vec<char>) -> (r: bool)
    ensures
        r == occurs(p@, s@),
{
    let pv = crate::strutil::chars_of(p);
    if pv.len() > s.len() {
        return false;
    }
    let last = s.len() - pv.len();
    let mut i: usize = 0;
    loop
        invariant
            pv@ == p@,
            last == s@.len() - pv@.len(),
            i <= last,
            forall|k: int| 0 <= k < i ==> #[trigger] s@.subrange(k, k + pv@.len()) != p@,
        decreases last - i,
    {
        if matches_at(&pv, s, i) {
            return true;
        }
        if i == last {
            return false;
        }
        i += 1;
    }
}

/// Whether the text is one of the forms on which sqlparser can panic
/// (`risky_sql`).
pub fn is_risky_sql(sql: &str) -> (r: bool)
    ensures
        r == risky_sql(sql@),
{
    let cs = crate::strutil::chars_of(sql);
    let mut out = String::new();
    let mut q: Option<char> = None;
    let mut i: usize = 0;
    while i < cs.len()
        invariant
            i <= cs@.len(),
            cs@ == sql@,
            (out@, q) == unquote_state(cs@.take(i as int)),
        decreases cs.len() - i,
    {
        let c = cs[i];
        assert(cs@.take(i + 1).drop_last() =~= cs@.take(i as int));
        assert(cs@.take(i + 1).last() == c);
        match q {
            Some(open) => {
                crate::strutil::push_char(&mut out, ' ');
                if c == open {
                    q = None;
                }
            },
            None => {
                if c == '\'' || c == '"' || c == '`' {
                    crate::strutil::push_char(&mut out, ' ');
                    q = Some(c);
                } else {
                    crate::strutil::push_char(&mut out, c);
                }
            },
        }
        i += 1;
    }
    assert(cs@.take(cs@.len() as int) =~= cs@);
    let upper = crate::monitor::to_upper(out.as_str());
    let uc = crate::strutil::chars_of(upper.as_str());
    proof {
        reveal_strlit("GRANTED");
        reveal_strlit("FLUSH");
        reveal_strlit("CHANNEL");
    }
    occurs_in("GRANTED", &uc) || (occurs_in("FLUSH", &uc) && occurs_in("CHANNEL", &uc))
}

/// `sqlparser::parser::Parser::parse_sql` with `GenericDialect`: the
/// statements of the text, converted; its error as text.  The contract
/// claims only that the outcome is the one `sql_statements` names; the
/// forms on which the parser can panic are excluded.
#[verifier::external_body]
pub(crate) fn parse_sql_text(sql: &str) -> (r: Result<Vec<AstStatement>, String>)
    requires
        !risky_sql(sql@),
    ensures
        r is Ok <==> sql_statements(sql@) is Some,
        r matches Ok(v) ==> sql_statements(sql@) == Some(v@),
{
    match sqlparser::parser::Parser::parse_sql(&sqlparser::dialect::GenericDialect {}, sql) {
        Ok(sts) => Ok(sts.iter().map(statement).collect()),
        Err(e) => Err(e.to_string()),
    }
}

/// Converts an object name (sqlparser's `Display` of each part).
#[verifier::external_body]
fn names(n: &sa::ObjectName) -> Vec<String> {
    n.0.iter().map(|i| i.to_string()).collect()
}

/// Converts the literal of a literal expression.
#[verifier::external_body]
fn value_of(e: &sa::Expr) -> AstValue {
    match e {
        sa::Expr::Value(sa::Value::Number(n, _)) => AstValue::Number(n.clone()),
        sa::Expr::Value(sa::Value::SingleQuotedString(s)) => AstValue::SingleQuoted(s.clone()),
        sa::Expr::Value(sa::Value::DoubleQuotedString(s)) => AstValue::DoubleQuoted(s.clone()),
        sa::Expr::Value(sa::Value::Boolean(b)) => AstValue::Boolean(*b),
        sa::Expr::Value(sa::Value::Null) => AstValue::Null,
        _ => AstValue::Other,
    }
}

/// Converts a boxed expression.
#[verifier::external_body]
fn boxed(e: &sa::Expr) -> Box<AstExpr> {
    Box::new(expr(e))
}

/// Converts an expression, with its `Debug` text.
#[verifier::external_body]
fn expr(e: &sa::Expr) -> AstExpr {
    AstExpr { kind: expr_kind(e), debug: format!("{:?}", e) }
}

/// The form of an expression: names, literals, operators.
#[verifier::external_body]
fn expr_kind(e: &sa::Expr) -> AstExprKind {
    match e {
        sa::Expr::Identifier(id) => AstExprKind::Identifier(id.to_string()),
        sa::Expr::CompoundIdentifier(p) => AstExprKind::CompoundIdentifier(p.iter().map(|x| x.to_string()).collect()),
        sa::Expr::Value(_) => AstExprKind::Value(value_of(e)),
        sa::Expr::UnaryOp { expr: inner, .. } => AstExprKind::UnaryOp(boxed(inner)),
        sa::Expr::TypedString { value: v, .. } => AstExprKind::TypedString(v.clone()),
        _ => operator_kind(e),
    }
}

/// The form of a function call or a binary operation.
#[verifier::external_body]
fn operator_kind(e: &sa::Expr) -> AstExprKind {
    match e {
        sa::Expr::Function(f) => AstExprKind::Function { name: f.name.to_string(), args: function_args(&f.args) },
        sa::Expr::BinaryOp { left, op, right } => AstExprKind::BinaryOp { left: boxed(left), op: op.to_string(), right: boxed(right) },
        _ => condition_kind(e),
    }
}

/// The form of a pattern match: LIKE, ILIKE.
#[verifier::external_body]
fn condition_kind(e: &sa::Expr) -> AstExprKind {
    match e {
        sa::Expr::Like { negated, expr: x, pattern, .. } => AstExprKind::Like { negated: *negated, expr: boxed(x), pattern: boxed(pattern) },
        sa::Expr::ILike { negated, expr: x, pattern, .. } => AstExprKind::ILike { negated: *negated, expr: boxed(x), pattern: boxed(pattern) },
        _ => test_kind(e),
    }
}

/// The form of a test: IN, IS NULL, BETWEEN.
#[verifier::external_body]
fn test_kind(e: &sa::Expr) -> AstExprKind {
    match e {
        sa::Expr::InList { expr: x, list, negated } => AstExprKind::InList { expr: boxed(x), list: list.iter().map(expr).collect(), negated: *negated },
        sa::Expr::IsNull(x) => AstExprKind::IsNull(boxed(x)),
        sa::Expr::IsNotNull(x) => AstExprKind::IsNotNull(boxed(x)),
        sa::Expr::Between { expr: x, negated, low, high } => AstExprKind::Between { expr: boxed(x), negated: *negated, low: boxed(low), high: boxed(high) },
        _ => AstExprKind::Other,
    }
}

/// Converts the arguments of a function call.
#[verifier::external_body]
fn function_args(args: &sa::FunctionArguments) -> AstFunctionArgs {
    match args {
        sa::FunctionArguments::List(list) => AstFunctionArgs::List(list.args.iter().map(function_arg).collect()),
        _ => AstFunctionArgs::Other,
    }
}

/// Converts one argument of a function call.
#[verifier::external_body]
fn function_arg(a: &sa::FunctionArg) -> AstFunctionArg {
    match a {
        sa::FunctionArg::Unnamed(sa::FunctionArgExpr::Wildcard) => AstFunctionArg::Wildcard,
        sa::FunctionArg::Unnamed(sa::FunctionArgExpr::Expr(e)) => AstFunctionArg::Expr(expr(e)),
        sa::FunctionArg::Named { name, .. } => AstFunctionArg::Named(name.to_string()),
        _ => AstFunctionArg::Other,
    }
}

/// Converts a column type: the integer types.
#[verifier::external_body]
fn data_type(t: &sa::DataType) -> AstDataType {
    match t {
        sa::DataType::Int(_) => AstDataType::Int,
        sa::DataType::Integer(_) => AstDataType::Integer,
        sa::DataType::BigInt(_) => AstDataType::BigInt,
        sa::DataType::Float(_) => AstDataType::Float,
        sa::DataType::Double(_) => AstDataType::Double,
        sa::DataType::Real => AstDataType::Real,
        sa::DataType::Text => AstDataType::Text,
        _ => data_type_rest(t),
    }
}

/// Converts a column type: text, boolean, time and byte types.
#[verifier::external_body]
fn data_type_rest(t: &sa::DataType) -> AstDataType {
    match t {
        sa::DataType::String(_) => AstDataType::String,
        sa::DataType::Char(_) => AstDataType::Char,
        sa::DataType::Varchar(_) => AstDataType::Varchar,
        sa::DataType::Boolean => AstDataType::Boolean,
        sa::DataType::Timestamp(_, _) => AstDataType::Timestamp,
        sa::DataType::Blob(_) => AstDataType::Blob,
        sa::DataType::Bytes(_) => AstDataType::Bytes,
        _ => AstDataType::Other,
    }
}

/// Converts the column definitions of a CREATE TABLE.
#[verifier::external_body]
fn column_defs(c: &sa::CreateTable) -> Vec<AstColumnDef> {
    c.columns.iter().map(|cd| AstColumnDef {
        name: cd.name.to_string(),
        data_type: data_type(&cd.data_type),
        options: cd.options.iter().map(|o| column_option(&o.option)).collect(),
    }).collect()
}

/// Converts a column option.
#[verifier::external_body]
fn column_option(o: &sa::ColumnOption) -> AstColumnOption {
    match o {
        sa::ColumnOption::NotNull => AstColumnOption::NotNull,
        sa::ColumnOption::Unique { is_primary, .. } => AstColumnOption::Unique { is_primary: *is_primary },
        sa::ColumnOption::Default(e) => AstColumnOption::Default(expr(e)),
        sa::ColumnOption::Comment(s) => AstColumnOption::Comment(s.clone()),
        sa::ColumnOption::DialectSpecific(ts) => AstColumnOption::DialectSpecific(ts.iter().map(|t| t.to_string()).collect()),
        _ => AstColumnOption::Other,
    }
}

/// Converts a table reference with its joins.
#[verifier::external_body]
fn table_with_joins(t: &sa::TableWithJoins) -> AstTableWithJoins {
    let relation = match &t.relation {
        sa::TableFactor::Table { name, .. } => AstTableFactor::Table(names(name)),
        _ => AstTableFactor::Other,
    };
    AstTableWithJoins { relation, has_joins: !t.joins.is_empty() }
}

/// Converts SET assignments.
#[verifier::external_body]
fn assignments(list: &Vec<sa::Assignment>) -> Vec<AstAssignment> {
    list.iter().map(|a| AstAssignment { target: a.target.to_string(), value: expr(&a.value) }).collect()
}

/// Converts an item of a SELECT list.
#[verifier::external_body]
fn select_item(item: &sa::SelectItem) -> AstSelectItem {
    match item {
        sa::SelectItem::UnnamedExpr(e) => AstSelectItem::UnnamedExpr(expr(e)),
        sa::SelectItem::ExprWithAlias { expr: e, alias } => AstSelectItem::ExprWithAlias { expr: expr(e), alias: alias.to_string() },
        sa::SelectItem::Wildcard(_) => AstSelectItem::Wildcard,
        sa::SelectItem::QualifiedWildcard(_, _) => AstSelectItem::QualifiedWildcard,
    }
}

/// Converts a SELECT.
#[verifier::external_body]
fn select(s: &sa::Select) -> AstSelect {
    let group_by = match &s.group_by {
        sa::GroupByExpr::Expressions(exprs, _) => AstGroupBy::Expressions(exprs.iter().map(expr).collect()),
        _ => AstGroupBy::Other,
    };
    AstSelect {
        projection: s.projection.iter().map(select_item).collect(),
        from: s.from.iter().map(table_with_joins).collect(),
        selection: s.selection.as_ref().map(expr),
        group_by,
        having: s.having.as_ref().map(expr),
    }
}

/// Converts a query: its body, ORDER BY, LIMIT and OFFSET.
#[verifier::external_body]
fn query(q: &sa::Query) -> AstQuery {
    let body = match &*q.body {
        sa::SetExpr::Select(s) => AstSetExpr::Select(select(s)),
        sa::SetExpr::Values(v) => AstSetExpr::Values(v.rows.iter().map(|r| r.iter().map(expr).collect()).collect()),
        _ => AstSetExpr::Other,
    };
    let order_by = q.order_by.as_ref().map(|ob| ob.exprs.iter().map(|e| AstOrderByExpr { expr: expr(&e.expr), asc: e.asc }).collect());
    AstQuery { body, order_by, limit: q.limit.as_ref().map(expr), offset: q.offset.as_ref().map(|o| expr(&o.value)) }
}

/// Converts an ON CONFLICT / ON DUPLICATE KEY clause.
#[verifier::external_body]
fn on_insert(o: &sa::OnInsert) -> AstOnInsert {
    match o {
        sa::OnInsert::OnConflict(oc) => match &oc.action {
            sa::OnConflictAction::DoNothing => AstOnInsert::DoNothing,
            sa::OnConflictAction::DoUpdate(du) => AstOnInsert::DoUpdate(assignments(&du.assignments)),
        },
        sa::OnInsert::DuplicateKeyUpdate(a) => AstOnInsert::DuplicateKeyUpdate(assignments(a)),
        _ => AstOnInsert::Other,
    }
}

/// Converts a statement.
#[verifier::external_body]
fn statement(s: &sa::Statement) -> AstStatement {
    match s {
        sa::Statement::CreateTable(c) => create_table(c),
        sa::Statement::Insert(i) => insert(i),
        sa::Statement::Query(q) => AstStatement::Query(query(q)),
        sa::Statement::Update { .. } => update(s),
        sa::Statement::Delete(d) => delete(d),
        sa::Statement::Drop { object_type, names: n, .. } => AstStatement::Drop { object_type: object_type_of(object_type), names: n.iter().map(names).collect() },
        sa::Statement::CreateIndex(ci) => create_index(ci),
        sa::Statement::AlterTable { .. } => alter_table(s),
        other => AstStatement::Other(format!("{:?}", other)),
    }
}

/// Converts an UPDATE.
#[verifier::external_body]
fn update(s: &sa::Statement) -> AstStatement {
    let sa::Statement::Update { table, assignments: a, selection, .. } = s else { return AstStatement::Other(format!("{:?}", s)) };
    AstStatement::Update { table: table_with_joins(table), assignments: assignments(a), selection: selection.as_ref().map(expr) }
}

/// Converts a CREATE TABLE.
#[verifier::external_body]
fn create_table(c: &sa::CreateTable) -> AstStatement {
    AstStatement::CreateTable { name: names(&c.name), columns: column_defs(c), if_not_exists: c.if_not_exists }
}

/// Converts an INSERT.
#[verifier::external_body]
fn insert(i: &sa::Insert) -> AstStatement {
    let table_name = match &i.table {
        sa::TableObject::TableName(n) => Some(names(n)),
        _ => None,
    };
    AstStatement::Insert {
        table_name,
        table_text: i.table.to_string(),
        columns: i.columns.iter().map(|c| c.to_string()).collect(),
        source: i.source.as_ref().map(|q| query(q)),
        on: i.on.as_ref().map(on_insert),
    }
}

/// Converts a DELETE.
#[verifier::external_body]
fn delete(d: &sa::Delete) -> AstStatement {
    let from = match &d.from {
        sa::FromTable::WithFromKeyword(t) | sa::FromTable::WithoutKeyword(t) => t.iter().map(table_with_joins).collect(),
    };
    AstStatement::Delete { tables: d.tables.iter().map(names).collect(), from, selection: d.selection.as_ref().map(expr) }
}

/// Converts the kind of object a DROP names.
#[verifier::external_body]
fn object_type_of(t: &sa::ObjectType) -> AstObjectType {
    match t {
        sa::ObjectType::Table => AstObjectType::Table,
        sa::ObjectType::Index => AstObjectType::Index,
        _ => AstObjectType::Other,
    }
}

/// Converts a CREATE INDEX.
#[verifier::external_body]
fn create_index(ci: &sa::CreateIndex) -> AstStatement {
    AstStatement::CreateIndex {
        name: ci.name.as_ref().map(names),
        table_name: names(&ci.table_name),
        columns: ci.columns.iter().map(|c| c.to_string()).collect(),
        unique: ci.unique,
    }
}

/// Converts an ALTER TABLE and its operations.
#[verifier::external_body]
fn alter_table(s: &sa::Statement) -> AstStatement {
    let sa::Statement::AlterTable { name, operations, .. } = s else { return AstStatement::Other(format!("{:?}", s)) };
    let ops = operations.iter().map(|op| match op {
        sa::AlterTableOperation::AddColumn { column_def: cd, .. } => AstAlterOp::AddColumn(AstColumnDef {
            name: cd.name.to_string(),
            data_type: data_type(&cd.data_type),
            options: cd.options.iter().map(|o| column_option(&o.option)).collect(),
        }),
        sa::AlterTableOperation::DropColumn { column_name, .. } => AstAlterOp::DropColumn(column_name.to_string()),
        other => AstAlterOp::Other(format!("{:?}", other)),
    }).collect();
    AstStatement::AlterTable { name: names(name), operations: ops }
}

} // verus!
