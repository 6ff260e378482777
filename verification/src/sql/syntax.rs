//! The syntax tree of SQL text as sqlparser reads it (`front`): the parts of a
//! statement that the conversion to the database's statements looks at, with
//! names and literals as text.

use vstd::prelude::*;

verus! {

/// A literal value.
#[derive(Debug)]
pub enum AstValue {
    /// A number, as written.
    Number(String),
    /// A string in single quotes.
    SingleQuoted(String),
    /// A string in double quotes.
    DoubleQuoted(String),
    /// TRUE or FALSE.
    Boolean(bool),
    /// NULL.
    Null,
    /// Any other literal.
    Other,
}

/// An argument of a function call.
#[derive(Debug)]
pub enum AstFunctionArg {
    /// `*`.
    Wildcard,
    /// An expression.
    Expr(AstExpr),
    /// A named argument, with its name.
    Named(String),
    /// Any other argument.
    Other,
}

/// The arguments of a function call.
#[derive(Debug)]
pub enum AstFunctionArgs {
    /// A parenthesised list.
    List(Vec<AstFunctionArg>),
    /// Any other form.
    Other,
}

/// An expression: its form and its `Debug` text.
#[derive(Debug)]
pub struct AstExpr {
    pub kind: AstExprKind,
    pub debug: String,
}

/// The form of an expression.
#[derive(Debug)]
pub enum AstExprKind {
    /// A name, as written (quotes kept).
    Identifier(String),
    /// A dotted name, part by part.
    CompoundIdentifier(Vec<String>),
    /// A literal.
    Value(AstValue),
    /// A unary operator applied to an expression.
    UnaryOp(Box<AstExpr>),
    /// A typed string such as `DATE '2024-01-01'`: its text.
    TypedString(String),
    /// A function call: its name and arguments.
    Function { name: String, args: AstFunctionArgs },
    /// A binary operator (as written) and its operands.
    BinaryOp { left: Box<AstExpr>, op: String, right: Box<AstExpr> },
    /// `expr [NOT] LIKE pattern`.
    Like { negated: bool, expr: Box<AstExpr>, pattern: Box<AstExpr> },
    /// `expr [NOT] ILIKE pattern`.
    ILike { negated: bool, expr: Box<AstExpr>, pattern: Box<AstExpr> },
    /// `expr [NOT] IN (list)`.
    InList { expr: Box<AstExpr>, list: Vec<AstExpr>, negated: bool },
    /// `expr IS NULL`.
    IsNull(Box<AstExpr>),
    /// `expr IS NOT NULL`.
    IsNotNull(Box<AstExpr>),
    /// `expr [NOT] BETWEEN low AND high`.
    Between { expr: Box<AstExpr>, negated: bool, low: Box<AstExpr>, high: Box<AstExpr> },
    /// Any other expression.
    Other,
}

/// The type named in a column definition.
#[derive(Debug, Clone, Copy, PartialEq, Eq, Structural)]
pub enum AstDataType {
    Int,
    Integer,
    BigInt,
    Float,
    Double,
    Real,
    Text,
    String,
    Char,
    Varchar,
    Boolean,
    Timestamp,
    Blob,
    Bytes,
    /// Any other type.
    Other,
}

/// A column option.
#[derive(Debug)]
pub enum AstColumnOption {
    /// NOT NULL.
    NotNull,
    /// UNIQUE, or PRIMARY KEY when `is_primary`.
    Unique { is_primary: bool },
    /// DEFAULT with an expression.
    Default(AstExpr),
    /// COMMENT with its text.
    Comment(String),
    /// Dialect-specific tokens, as text.
    DialectSpecific(Vec<String>),
    /// Any other option.
    Other,
}

/// A column definition.
#[derive(Debug)]
pub struct AstColumnDef {
    pub name: String,
    pub data_type: AstDataType,
    pub options: Vec<AstColumnOption>,
}

/// An assignment `target = value`.
#[derive(Debug)]
pub struct AstAssignment {
    pub target: String,
    pub value: AstExpr,
}

/// A table reference: a table's name parts, or something else.
#[derive(Debug)]
pub enum AstTableFactor {
    Table(Vec<String>),
    Other,
}

/// A table reference with joins.
#[derive(Debug)]
pub struct AstTableWithJoins {
    pub relation: AstTableFactor,
    /// Whether it joins other tables.
    pub has_joins: bool,
}

/// An item of a select list.
#[derive(Debug)]
pub enum AstSelectItem {
    /// An expression without alias.
    UnnamedExpr(AstExpr),
    /// An expression with an alias.
    ExprWithAlias { expr: AstExpr, alias: String },
    /// `*`.
    Wildcard,
    /// `t.*`.
    QualifiedWildcard,
    /// Any other item, with its `Debug` text.
    Other(String),
}

/// The GROUP BY clause.
#[derive(Debug)]
pub enum AstGroupBy {
    /// A list of expressions.
    Expressions(Vec<AstExpr>),
    /// Any other form.
    Other,
}

/// A SELECT.
#[derive(Debug)]
pub struct AstSelect {
    pub projection: Vec<AstSelectItem>,
    pub from: Vec<AstTableWithJoins>,
    pub selection: Option<AstExpr>,
    pub group_by: AstGroupBy,
    pub having: Option<AstExpr>,
}

/// An ORDER BY key.
#[derive(Debug)]
pub struct AstOrderByExpr {
    pub expr: AstExpr,
    pub asc: Option<bool>,
}

/// The body of a query.
#[derive(Debug)]
pub enum AstSetExpr {
    /// A SELECT.
    Select(AstSelect),
    /// VALUES rows.
    Values(Vec<Vec<AstExpr>>),
    /// Any other body.
    Other,
}

/// A query.
#[derive(Debug)]
pub struct AstQuery {
    pub body: AstSetExpr,
    /// The ORDER BY keys, when there is an ORDER BY.
    pub order_by: Option<Vec<AstOrderByExpr>>,
    pub limit: Option<AstExpr>,
    pub offset: Option<AstExpr>,
}

/// The conflict clause of an INSERT.
#[derive(Debug)]
pub enum AstOnInsert {
    /// ON CONFLICT DO NOTHING.
    DoNothing,
    /// ON CONFLICT DO UPDATE SET ...
    DoUpdate(Vec<AstAssignment>),
    /// ON DUPLICATE KEY UPDATE ...
    DuplicateKeyUpdate(Vec<AstAssignment>),
    /// Any other form.
    Other,
}

/// The object a DROP names.
#[derive(Debug, Clone, Copy, PartialEq, Eq, Structural)]
pub enum AstObjectType {
    Table,
    Index,
    Other,
}

/// An ALTER TABLE operation.
#[derive(Debug)]
pub enum AstAlterOp {
    AddColumn(AstColumnDef),
    DropColumn(String),
    /// Any other operation, with its `Debug` text.
    Other(String),
}

/// A statement.
#[derive(Debug)]
pub enum AstStatement {
    CreateTable { name: Vec<String>, columns: Vec<AstColumnDef>, if_not_exists: bool },
    /// INSERT: the table (its name parts, or its text when it is not a plain
    /// name), the named columns, the source query and the conflict clause.
    Insert { table_name: Option<Vec<String>>, table_text: String, columns: Vec<String>, source: Option<AstQuery>,
        on: Option<AstOnInsert> },
    Query(AstQuery),
    Update { table: AstTableWithJoins, assignments: Vec<AstAssignment>, selection: Option<AstExpr> },
    /// DELETE: the tables named before FROM, the FROM list, the condition.
    Delete { tables: Vec<Vec<String>>, from: Vec<AstTableWithJoins>, selection: Option<AstExpr> },
    Drop { object_type: AstObjectType, names: Vec<Vec<String>> },
    CreateIndex { name: Option<Vec<String>>, table_name: Vec<String>, columns: Vec<String>, unique: bool },
    AlterTable { name: Vec<String>, operations: Vec<AstAlterOp> },
    /// Any other statement, with its `Debug` text.
    Other(String),
}

} // verus!
