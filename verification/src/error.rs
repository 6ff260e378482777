//! The database's error types.

use vstd::prelude::*;
use crate::strutil::push_str;

verus! {

/// Storage-engine errors.
#[derive(Clone, Debug, PartialEq)]
pub enum EngineError {
    TableAlreadyExists(String),
    TableNotFound(String),
    NoPrimaryKey(String),
    PrimaryKeyConflict(String),
    RedbDatabase(String),
    RedbTransaction(String),
    RedbTable(String),
    RedbStorage(String),
    RedbCommit(String),
    Bincode(String),
    RowCountExceeded(String),
}

/// SQL parse errors.
#[derive(Clone, Debug, PartialEq)]
pub enum ParseError {
    Syntax(String),
    Unsupported(String),
    Empty,
    MultipleStatements(String),
}

/// SQL execution errors.
#[derive(Clone, Debug, PartialEq)]
pub enum ExecError {
    TableNotFound(String),
    ColumnNotFound(String),
    TypeMismatch(String),
    ConstraintViolation(String),
    Validation(String),
    NotImplemented(String),
}

/// The view of an execution error.
pub enum SExecError {
    TableNotFound(Seq<char>),
    ColumnNotFound(Seq<char>),
    TypeMismatch(Seq<char>),
    ConstraintViolation(Seq<char>),
    Validation(Seq<char>),
    NotImplemented(Seq<char>),
}

impl View for ExecError {
    type V = SExecError;

    open spec fn view(&self) -> SExecError {
        match self {
            ExecError::TableNotFound(s) => SExecError::TableNotFound(s@),
            ExecError::ColumnNotFound(s) => SExecError::ColumnNotFound(s@),
            ExecError::TypeMismatch(s) => SExecError::TypeMismatch(s@),
            ExecError::ConstraintViolation(s) => SExecError::ConstraintViolation(s@),
            ExecError::Validation(s) => SExecError::Validation(s@),
            ExecError::NotImplemented(s) => SExecError::NotImplemented(s@),
        }
    }
}

/// The top-level error.
#[derive(Clone, Debug, PartialEq)]
pub enum RustMinidbError {
    Engine(EngineError),
    Parse(ParseError),
    Exec(ExecError),
    Serialization(String),
    Io(String),
    Config(String),
}

/// `prefix`, then `arg`, then `suffix`.
fn framed(prefix: &str, arg: &str, suffix: &str) -> (r: String)
    ensures
        r@ == prefix@ + arg@ + suffix@,
{
    let mut s = String::new();
    push_str(&mut s, prefix);
    push_str(&mut s, arg);
    push_str(&mut s, suffix);
    s
}

/// `prefix`, then `arg`.
fn joined(prefix: &str, arg: &str) -> (r: String)
    ensures
        r@ == prefix@ + arg@,
{
    let mut s = String::new();
    push_str(&mut s, prefix);
    push_str(&mut s, arg);
    s
}

/// The message of a storage-engine error.
pub open spec fn engine_message(e: EngineError) -> Seq<char> {
    match e {
        EngineError::TableAlreadyExists(s) => "表 '"@ + s@ + "' 已存在"@,
        EngineError::TableNotFound(s) => "表 '"@ + s@ + "' 不存在"@,
        EngineError::NoPrimaryKey(s) => "表 '"@ + s@ + "' 没有主键"@,
        EngineError::PrimaryKeyConflict(s) => "主键冲突: "@ + s@,
        EngineError::RedbDatabase(s) => "redb 数据库错误: "@ + s@,
        EngineError::RedbTransaction(s) => "redb 事务错误: "@ + s@,
        EngineError::RedbTable(s) => "redb 表错误: "@ + s@,
        EngineError::RedbStorage(s) => "redb 存储错误: "@ + s@,
        EngineError::RedbCommit(s) => "redb 提交错误: "@ + s@,
        EngineError::Bincode(s) => "bincode 序列化错误: "@ + s@,
        EngineError::RowCountExceeded(s) => "表 '"@ + s@ + "' 行数超出限制"@,
    }
}

/// The message of a parse error.
pub open spec fn parse_message(e: ParseError) -> Seq<char> {
    match e {
        ParseError::Syntax(s) => "SQL 语法错误: "@ + s@,
        ParseError::Unsupported(s) => "不支持的 SQL 语句: "@ + s@,
        ParseError::Empty => "SQL 为空"@,
        ParseError::MultipleStatements(_) => "MVP 只支持单条语句"@,
    }
}

/// The message of an execution error.
pub open spec fn exec_message(e: ExecError) -> Seq<char> {
    match e {
        ExecError::TableNotFound(s) => "表 '"@ + s@ + "' 不存在"@,
        ExecError::ColumnNotFound(s) => "列 '"@ + s@ + "' 不存在"@,
        ExecError::TypeMismatch(s) => "类型不匹配: "@ + s@,
        ExecError::ConstraintViolation(s) => "约束违反: "@ + s@,
        ExecError::Validation(s) => "验证错误: "@ + s@,
        ExecError::NotImplemented(s) => "未实现的 SQL 特性: "@ + s@,
    }
}

/// The message of an error: its kind's heading and the inner message.
pub open spec fn error_message(e: RustMinidbError) -> Seq<char> {
    match e {
        RustMinidbError::Engine(x) => "存储引擎错误: "@ + engine_message(x),
        RustMinidbError::Parse(x) => "SQL 解析错误: "@ + parse_message(x),
        RustMinidbError::Exec(x) => "SQL 执行错误: "@ + exec_message(x),
        RustMinidbError::Serialization(s) => "序列化错误: "@ + s@,
        RustMinidbError::Io(s) => "I/O 错误: "@ + s@,
        RustMinidbError::Config(s) => "配置错误: "@ + s@,
    }
}

impl EngineError {
    /// The error's message.
    pub fn message(&self) -> (r: String)
        ensures
            r@ == engine_message(*self),
    {
        match self {
            EngineError::TableAlreadyExists(s) => framed("表 '", s.as_str(), "' 已存在"),
            EngineError::TableNotFound(s) => framed("表 '", s.as_str(), "' 不存在"),
            EngineError::NoPrimaryKey(s) => framed("表 '", s.as_str(), "' 没有主键"),
            EngineError::PrimaryKeyConflict(s) => joined("主键冲突: ", s.as_str()),
            EngineError::RedbDatabase(s) => joined("redb 数据库错误: ", s.as_str()),
            EngineError::RedbTransaction(s) => joined("redb 事务错误: ", s.as_str()),
            EngineError::RedbTable(s) => joined("redb 表错误: ", s.as_str()),
            EngineError::RedbStorage(s) => joined("redb 存储错误: ", s.as_str()),
            EngineError::RedbCommit(s) => joined("redb 提交错误: ", s.as_str()),
            EngineError::Bincode(s) => joined("bincode 序列化错误: ", s.as_str()),
            EngineError::RowCountExceeded(s) => framed("表 '", s.as_str(), "' 行数超出限制"),
        }
    }
}

impl ParseError {
    /// The error's message.
    pub fn message(&self) -> (r: String)
        ensures
            r@ == parse_message(*self),
    {
        match self {
            ParseError::Syntax(s) => joined("SQL 语法错误: ", s.as_str()),
            ParseError::Unsupported(s) => joined("不支持的 SQL 语句: ", s.as_str()),
            ParseError::Empty => String::from_str("SQL 为空"),
            ParseError::MultipleStatements(_) => String::from_str("MVP 只支持单条语句"),
        }
    }
}

impl ExecError {
    /// The error's message.
    pub fn message(&self) -> (r: String)
        ensures
            r@ == exec_message(*self),
    {
        match self {
            ExecError::TableNotFound(s) => framed("表 '", s.as_str(), "' 不存在"),
            ExecError::ColumnNotFound(s) => framed("列 '", s.as_str(), "' 不存在"),
            ExecError::TypeMismatch(s) => joined("类型不匹配: ", s.as_str()),
            ExecError::ConstraintViolation(s) => joined("约束违反: ", s.as_str()),
            ExecError::Validation(s) => joined("验证错误: ", s.as_str()),
            ExecError::NotImplemented(s) => joined("未实现的 SQL 特性: ", s.as_str()),
        }
    }
}

impl RustMinidbError {
    /// The error's message (what the error displays as).
    pub fn message(&self) -> (r: String)
        ensures
            r@ == error_message(*self),
    {
        match self {
            RustMinidbError::Engine(x) => joined("存储引擎错误: ", x.message().as_str()),
            RustMinidbError::Parse(x) => joined("SQL 解析错误: ", x.message().as_str()),
            RustMinidbError::Exec(x) => joined("SQL 执行错误: ", x.message().as_str()),
            RustMinidbError::Serialization(s) => joined("序列化错误: ", s.as_str()),
            RustMinidbError::Io(s) => joined("I/O 错误: ", s.as_str()),
            RustMinidbError::Config(s) => joined("配置错误: ", s.as_str()),
        }
    }
}

} // verus!
