use rustminidb::encoding::serialize_value;
use rustminidb::error::{EngineError, ExecError, ParseError, RustMinidbError};
use rustminidb::schema::{IndexDef, TableSchema};
use rustminidb::storage::engine::StorageEngine;
use rustminidb::types::{FloatOps, Row, Value};

/// Floats through the machine's `f64`.
pub struct F64Ops;

impl FloatOps for F64Ops {
    fn parse(&self, s: &str) -> Option<u64> {
        s.parse::<f64>().ok().map(f64::to_bits)
    }
    fn display(&self, bits: u64) -> String {
        format!("{}", f64::from_bits(bits))
    }
    fn debug(&self, bits: u64) -> String {
        format!("{:?}", f64::from_bits(bits))
    }
    fn add(&self, a: u64, b: u64) -> u64 {
        (f64::from_bits(a) + f64::from_bits(b)).to_bits()
    }
    fn div(&self, a: u64, b: u64) -> u64 {
        (f64::from_bits(a) / f64::from_bits(b)).to_bits()
    }
}

struct MemTable {
    schema: TableSchema,
    rows: Vec<(Vec<u8>, Row)>,
}

/// A storage engine in memory, keyed like the file engine: rows in the
/// order of their primary keys' bytes.
#[derive(Default)]
pub struct MemEngine {
    tables: Vec<MemTable>,
    indexes: Vec<(IndexDef, Vec<(Vec<u8>, Vec<u8>)>)>,
}

fn key_of(v: &Value) -> Vec<u8> {
    serialize_value(v, &F64Ops)
}

impl MemEngine {
    fn table(&self, name: &str) -> Option<&MemTable> {
        self.tables.iter().find(|t| t.schema.name == name)
    }
    fn table_mut(&mut self, name: &str) -> Option<&mut MemTable> {
        self.tables.iter_mut().find(|t| t.schema.name == name)
    }
}

impl StorageEngine for MemEngine {
    fn create_table(&mut self, schema: &TableSchema) -> Result<(), RustMinidbError> {
        if self.table(&schema.name).is_some() {
            return Err(RustMinidbError::Engine(EngineError::TableAlreadyExists(schema.name.clone())));
        }
        self.tables.push(MemTable { schema: schema.clone(), rows: Vec::new() });
        Ok(())
    }
    fn drop_table(&mut self, name: &str) -> Result<(), RustMinidbError> {
        self.tables.retain(|t| t.schema.name != name);
        Ok(())
    }
    fn get_schema(&self, name: &str) -> Result<Option<TableSchema>, RustMinidbError> {
        Ok(self.table(name).map(|t| t.schema.clone()))
    }
    fn list_tables(&self) -> Result<Vec<String>, RustMinidbError> {
        Ok(self.tables.iter().map(|t| t.schema.name.clone()).collect())
    }
    fn insert_row(&mut self, table: &str, row: Row) -> Result<(), RustMinidbError> {
        let t = self
            .table_mut(table)
            .ok_or_else(|| RustMinidbError::Engine(EngineError::TableNotFound(table.to_string())))?;
        let k = t
            .schema
            .pk_index()
            .ok_or_else(|| RustMinidbError::Engine(EngineError::NoPrimaryKey(table.to_string())))?;
        let key = key_of(&row.values[k]);
        match t.rows.binary_search_by(|(existing, _)| existing.cmp(&key)) {
            Ok(_) => Err(RustMinidbError::Engine(EngineError::PrimaryKeyConflict(table.to_string()))),
            Err(pos) => {
                t.rows.insert(pos, (key, row));
                Ok(())
            }
        }
    }
    fn get_row(&self, table: &str, pk: &Value) -> Result<Option<Row>, RustMinidbError> {
        let key = key_of(pk);
        Ok(self.table(table).and_then(|t| t.rows.iter().find(|(k, _)| *k == key).map(|(_, r)| r.clone())))
    }
    fn scan_table(&self, table: &str) -> Result<Vec<Row>, RustMinidbError> {
        Ok(self.table(table).map(|t| t.rows.iter().map(|(_, r)| r.clone()).collect()).unwrap_or_default())
    }
    fn update_row(&mut self, table: &str, pk: &Value, row: Row) -> Result<(), RustMinidbError> {
        let key = key_of(pk);
        let t = self
            .table_mut(table)
            .ok_or_else(|| RustMinidbError::Engine(EngineError::TableNotFound(table.to_string())))?;
        if row.values.len() != t.schema.columns.len() {
            return Err(RustMinidbError::Engine(EngineError::NoPrimaryKey("column count".to_string())));
        }
        match t.rows.binary_search_by(|(existing, _)| existing.cmp(&key)) {
            Ok(pos) => t.rows[pos].1 = row,
            Err(pos) => t.rows.insert(pos, (key, row)),
        }
        Ok(())
    }
    fn delete_row(&mut self, table: &str, pk: &Value) -> Result<bool, RustMinidbError> {
        let key = key_of(pk);
        let t = self
            .table_mut(table)
            .ok_or_else(|| RustMinidbError::Engine(EngineError::TableNotFound(table.to_string())))?;
        let before = t.rows.len();
        t.rows.retain(|(k, _)| *k != key);
        Ok(t.rows.len() != before)
    }
    fn row_count(&self, table: &str) -> Result<u64, RustMinidbError> {
        self.table(table)
            .map(|t| t.rows.len() as u64)
            .ok_or_else(|| RustMinidbError::Engine(EngineError::TableNotFound(table.to_string())))
    }
    fn table_exists(&self, name: &str) -> Result<bool, RustMinidbError> {
        Ok(self.table(name).is_some())
    }
    fn update_schema(&mut self, schema: &TableSchema) -> Result<(), RustMinidbError> {
        if let Some(t) = self.table_mut(&schema.name) {
            t.schema = schema.clone();
        }
        Ok(())
    }
    fn list_indexes(&self, table: &str) -> Result<Vec<IndexDef>, RustMinidbError> {
        Ok(self.indexes.iter().filter(|(d, _)| d.table_name == table).map(|(d, _)| d.clone()).collect())
    }
    fn create_index(&mut self, index: &IndexDef) -> Result<(), RustMinidbError> {
        self.indexes.push((index.clone(), Vec::new()));
        Ok(())
    }
    fn drop_index(&mut self, table: &str, name: &str) -> Result<(), RustMinidbError> {
        self.indexes.retain(|(d, _)| !(d.table_name == table && d.name == name));
        Ok(())
    }
    fn insert_index_entry(&mut self, index: &IndexDef, key: &[u8], pk: &[u8]) -> Result<(), RustMinidbError> {
        for (d, entries) in self.indexes.iter_mut() {
            if d.name == index.name && d.table_name == index.table_name {
                entries.push((key.to_vec(), pk.to_vec()));
            }
        }
        Ok(())
    }
    fn delete_index_entry(&mut self, index: &IndexDef, key: &[u8], pk: &[u8]) -> Result<(), RustMinidbError> {
        for (d, entries) in self.indexes.iter_mut() {
            if d.name == index.name && d.table_name == index.table_name {
                entries.retain(|(k, p)| !(k.as_slice() == key && p.as_slice() == pk));
            }
        }
        Ok(())
    }
    fn scan_index_eq(&self, index: &IndexDef, key: &[u8]) -> Result<Vec<Vec<u8>>, RustMinidbError> {
        Ok(self
            .indexes
            .iter()
            .filter(|(d, _)| d.name == index.name && d.table_name == index.table_name)
            .flat_map(|(_, entries)| entries.iter().filter(|(k, _)| k.as_slice() == key).map(|(_, p)| p.clone()))
            .collect())
    }
}

use rustminidb::migration::{export_database_to_string, ExportConfig, Exporter};
use rustminidb::sql::ast::{ComparisonOp, SqlStatement, WhereClause};
use rustminidb::sql::executor::{ExecuteResult, Executor};
use rustminidb::sql::parser::SqlParser;
use rustminidb::sql::planner::{PlanNode, Planner};
use rustminidb::types::{ColumnDef, ColumnType};
use rustminidb::Database;
use rustminidb::sql::order::compare_values;
use std::cmp::Ordering;

fn parse(sql: &str) -> Result<SqlStatement, RustMinidbError> {
    SqlParser::parse(sql, &F64Ops)
}

fn setup_executor() -> Executor<MemEngine, F64Ops> {
    Executor::new(MemEngine::default(), F64Ops)
}

fn run(ex: &mut Executor<MemEngine, F64Ops>, sql: &str) -> Result<ExecuteResult, RustMinidbError> {
    let stmt = parse(sql).unwrap();
    assert!(ex.can_execute(&stmt).unwrap(), "statement reads a column missing from stored rows: {}", sql);
    ex.execute(&stmt)
}

fn allowed(ex: &Executor<MemEngine, F64Ops>, sql: &str) -> bool {
    ex.can_execute(&parse(sql).unwrap()).unwrap()
}

fn rows_of(r: ExecuteResult) -> Vec<Vec<Value>> {
    match r {
        ExecuteResult::QueryResult { rows, .. } => rows,
        _ => panic!("expected a query result"),
    }
}

#[test]
fn test_create_and_insert_and_select() {
    let mut executor = setup_executor();
    run(&mut executor, "CREATE TABLE sensors (id INT PRIMARY KEY, name TEXT, value FLOAT)").unwrap();
    let result = run(&mut executor, "INSERT INTO sensors VALUES (1, 'temperature', 25.6)").unwrap();
    assert!(matches!(result, ExecuteResult::WriteResult { rows_affected: 1, .. }));
    run(&mut executor, "INSERT INTO sensors VALUES (2, 'humidity', 60.5)").unwrap();
    let result = run(&mut executor, "SELECT name, value FROM sensors WHERE value > 20").unwrap();
    match result {
        ExecuteResult::QueryResult { columns, rows, .. } => {
            assert_eq!(columns, vec!["name", "value"]);
            assert_eq!(rows.len(), 2);
        }
        _ => panic!("expected a query result"),
    }
}

#[test]
fn test_update() {
    let mut executor = setup_executor();
    run(&mut executor, "CREATE TABLE test (id INT PRIMARY KEY, val TEXT)").unwrap();
    run(&mut executor, "INSERT INTO test VALUES (1, 'hello')").unwrap();
    run(&mut executor, "UPDATE test SET val = 'world' WHERE id = 1").unwrap();
    let rows = rows_of(run(&mut executor, "SELECT val FROM test WHERE id = 1").unwrap());
    assert_eq!(rows[0][0], Value::Text("world".into()));
}

#[test]
fn test_delete() {
    let mut executor = setup_executor();
    run(&mut executor, "CREATE TABLE test (id INT PRIMARY KEY, val TEXT)").unwrap();
    run(&mut executor, "INSERT INTO test VALUES (1, 'a')").unwrap();
    run(&mut executor, "INSERT INTO test VALUES (2, 'b')").unwrap();
    run(&mut executor, "DELETE FROM test WHERE id = 1").unwrap();
    let rows = rows_of(run(&mut executor, "SELECT * FROM test").unwrap());
    assert_eq!(rows.len(), 1);
}

#[test]
fn test_drop_table() {
    let mut executor = setup_executor();
    run(&mut executor, "CREATE TABLE test (id INT PRIMARY KEY, val TEXT)").unwrap();
    run(&mut executor, "DROP TABLE test").unwrap();
    let result = run(&mut executor, "SELECT * FROM test");
    assert!(result.is_err());
}

#[test]
fn test_where_conditions() {
    let mut executor = setup_executor();
    run(&mut executor, "CREATE TABLE t (id INT PRIMARY KEY, val INT)").unwrap();
    run(&mut executor, "INSERT INTO t VALUES (1, 10)").unwrap();
    run(&mut executor, "INSERT INTO t VALUES (2, 20)").unwrap();
    run(&mut executor, "INSERT INTO t VALUES (3, 30)").unwrap();
    let rows = rows_of(run(&mut executor, "SELECT id FROM t WHERE id > 1 AND id < 3").unwrap());
    assert_eq!(rows.len(), 1);
    assert_eq!(rows[0][0], Value::Integer(2));
    let rows = rows_of(run(&mut executor, "SELECT id FROM t WHERE id = 1 OR id = 3").unwrap());
    assert_eq!(rows.len(), 2);
    let rows = rows_of(run(&mut executor, "SELECT id FROM t ORDER BY id DESC").unwrap());
    assert_eq!(rows[0][0], Value::Integer(3));
    assert_eq!(rows[2][0], Value::Integer(1));
    let rows = rows_of(run(&mut executor, "SELECT id FROM t LIMIT 2").unwrap());
    assert_eq!(rows.len(), 2);
}

#[test]
fn test_parse_create_table() {
    let stmt = parse("CREATE TABLE users (id INT PRIMARY KEY, name TEXT, age INT)").unwrap();
    match stmt {
        SqlStatement::CreateTable { name, columns, .. } => {
            assert_eq!(name, "users");
            assert_eq!(columns.len(), 3);
            assert!(columns[0].is_primary_key);
            assert_eq!(columns[0].col_type, ColumnType::Integer);
            assert_eq!(columns[1].col_type, ColumnType::Text);
        }
        _ => panic!("expected CREATE TABLE"),
    }
}

#[test]
fn test_parse_select() {
    let stmt = parse("SELECT name, age FROM users WHERE age > 18 ORDER BY age DESC LIMIT 10").unwrap();
    match stmt {
        SqlStatement::Select { table, columns, where_clause, order_by, limit, .. } => {
            assert_eq!(table, "users");
            assert_eq!(columns, vec!["name", "age"]);
            assert!(where_clause.is_some());
            assert!(order_by.is_some());
            assert_eq!(limit, Some(10));
        }
        _ => panic!("expected SELECT"),
    }
}

#[test]
fn test_parse_insert() {
    let stmt = parse("INSERT INTO users VALUES (1, 'Alice', 30)").unwrap();
    match stmt {
        SqlStatement::Insert { table, columns, values, on_conflict: _ } => {
            assert_eq!(table, "users");
            assert!(columns.is_empty());
            assert_eq!(values.len(), 1);
            assert_eq!(values[0][0], Value::Integer(1));
        }
        _ => panic!("expected INSERT"),
    }
}

#[test]
fn test_parse_syntax_error() {
    assert!(parse("SLECT * FROME users").is_err());
}

#[test]
fn test_parse_update() {
    let stmt = parse("UPDATE users SET name = 'Bob' WHERE id = 1").unwrap();
    match stmt {
        SqlStatement::Update { table, assignments, where_clause } => {
            assert_eq!(table, "users");
            assert_eq!(assignments.len(), 1);
            assert_eq!(assignments[0].0, "name");
            assert!(where_clause.is_some());
        }
        _ => panic!("expected UPDATE"),
    }
}

#[test]
fn test_parse_delete() {
    let stmt = parse("DELETE FROM users WHERE id = 1").unwrap();
    match stmt {
        SqlStatement::Delete { table, where_clause } => {
            assert_eq!(table, "users");
            assert!(where_clause.is_some());
        }
        _ => panic!("expected DELETE"),
    }
}

#[test]
fn test_parse_drop_table() {
    match parse("DROP TABLE users").unwrap() {
        SqlStatement::DropTable { name } => assert_eq!(name, "users"),
        _ => panic!("expected DROP TABLE"),
    }
}

fn column(name: &str, t: ColumnType, pk: bool) -> ColumnDef {
    ColumnDef { name: name.into(), col_type: t, nullable: false, is_primary_key: pk, default: None, auto_increment: false, comment: None }
}

fn select_all(where_clause: Option<WhereClause>) -> SqlStatement {
    SqlStatement::Select {
        table: "test".into(),
        columns: vec!["*".into()],
        where_clause,
        aggregates: vec![],
        group_by: vec![],
        having: None,
        order_by: None,
        limit: None,
        offset: None,
    }
}

#[test]
fn test_plan_pk_point_lookup() {
    let schema = TableSchema {
        name: "test".into(),
        columns: vec![column("id", ColumnType::Integer, true), column("name", ColumnType::Text, false)],
        primary_key: vec!["id".into()],
        comment: None,
    };
    let stmt = select_all(Some(WhereClause::Simple { column: "id".into(), operator: ComparisonOp::Eq, value: Value::Integer(1) }));
    let plan = Planner::plan_select(&stmt, &schema, &vec![]).unwrap();
    match plan {
        PlanNode::Projection { input, .. } => match *input {
            PlanNode::PointLookup { table, pk } => {
                assert_eq!(table, "test");
                assert_eq!(pk, Value::Integer(1));
            }
            _ => panic!("expected PointLookup"),
        },
        _ => panic!("expected Projection"),
    }
}

#[test]
fn test_plan_seq_scan() {
    let schema = TableSchema {
        name: "test".into(),
        columns: vec![column("id", ColumnType::Integer, true)],
        primary_key: vec!["id".into()],
        comment: None,
    };
    let plan = Planner::plan_select(&select_all(None), &schema, &vec![]).unwrap();
    match plan {
        PlanNode::Projection { input, .. } => match *input {
            PlanNode::SeqScan { table } => assert_eq!(table, "test"),
            _ => panic!("expected SeqScan"),
        },
        _ => panic!("expected Projection"),
    }
}

#[test]
fn test_parse_create_table_with_types() {
    let sql = "CREATE TABLE test (
        id INT PRIMARY KEY,
        name TEXT NOT NULL,
        price FLOAT,
        active BOOLEAN,
        data BLOB,
        ts TIMESTAMP
    )";
    match parse(sql).unwrap() {
        SqlStatement::CreateTable { name, columns, .. } => {
            assert_eq!(name, "test");
            assert_eq!(columns.len(), 6);
            assert_eq!(columns[0].col_type, ColumnType::Integer);
            assert!(columns[0].is_primary_key);
            assert_eq!(columns[1].col_type, ColumnType::Text);
            assert!(!columns[1].nullable);
            assert_eq!(columns[2].col_type, ColumnType::Float);
            assert_eq!(columns[3].col_type, ColumnType::Boolean);
            assert_eq!(columns[4].col_type, ColumnType::Blob);
            assert_eq!(columns[5].col_type, ColumnType::Timestamp);
        }
        _ => panic!("expected CREATE TABLE"),
    }
}

#[test]
fn test_parse_select_star() {
    match parse("SELECT * FROM users").unwrap() {
        SqlStatement::Select { table, columns, where_clause: None, .. } => {
            assert_eq!(table, "users");
            assert_eq!(columns, vec!["*"]);
        }
        _ => panic!("expected SELECT"),
    }
}

#[test]
fn test_parse_where_with_and_or() {
    match parse("SELECT * FROM t WHERE id > 1 AND name = 'test' OR age <= 30").unwrap() {
        SqlStatement::Select { where_clause: Some(_), .. } => {}
        _ => panic!("expected a WHERE clause"),
    }
}

#[test]
fn test_parse_multi_row_insert() {
    match parse("INSERT INTO t VALUES (1, 'a'), (2, 'b'), (3, 'c')").unwrap() {
        SqlStatement::Insert { table, values, .. } => {
            assert_eq!(table, "t");
            assert_eq!(values.len(), 3);
        }
        _ => panic!("expected INSERT"),
    }
}

#[test]
fn test_parse_comparison_ops() {
    let tests = vec![
        ("SELECT * FROM t WHERE id = 1", ComparisonOp::Eq),
        ("SELECT * FROM t WHERE id <> 1", ComparisonOp::NotEq),
        ("SELECT * FROM t WHERE id < 1", ComparisonOp::Lt),
        ("SELECT * FROM t WHERE id <= 1", ComparisonOp::LtEq),
        ("SELECT * FROM t WHERE id > 1", ComparisonOp::Gt),
        ("SELECT * FROM t WHERE id >= 1", ComparisonOp::GtEq),
    ];
    for (sql, expected_op) in tests {
        match parse(sql).unwrap() {
            SqlStatement::Select { where_clause: Some(WhereClause::Simple { operator, .. }), .. } => {
                assert!(std::mem::discriminant(&operator) == std::mem::discriminant(&expected_op), "SQL: {}", sql);
            }
            _ => panic!("expected a SELECT with WHERE"),
        }
    }
}

#[test]
fn test_full_create_and_query() {
    let mut executor = setup_executor();
    run(&mut executor, "CREATE TABLE users (id INT PRIMARY KEY, name TEXT, age INT)").unwrap();
    for i in 1..=5 {
        let sql = format!("INSERT INTO users VALUES ({}, 'user{}', {})", i, i, 20 + i);
        run(&mut executor, &sql).unwrap();
    }
    assert_eq!(rows_of(run(&mut executor, "SELECT * FROM users").unwrap()).len(), 5);
    assert_eq!(rows_of(run(&mut executor, "SELECT name FROM users WHERE age > 22").unwrap()).len(), 3);
    let rows = rows_of(run(&mut executor, "SELECT name FROM users ORDER BY age DESC").unwrap());
    assert_eq!(rows.len(), 5);
    assert_eq!(rows[0][0], Value::Text("user5".into()));
    let rows = rows_of(run(&mut executor, "SELECT id FROM users ORDER BY id LIMIT 2 OFFSET 1").unwrap());
    assert_eq!(rows.len(), 2);
    assert_eq!(rows[0][0], Value::Integer(2));
    assert_eq!(rows[1][0], Value::Integer(3));
}

#[test]
fn test_full_update_and_delete() {
    let mut executor = setup_executor();
    run(&mut executor, "CREATE TABLE t (id INT PRIMARY KEY, val TEXT, num INT)").unwrap();
    run(&mut executor, "INSERT INTO t VALUES (1, 'a', 10)").unwrap();
    run(&mut executor, "INSERT INTO t VALUES (2, 'b', 20)").unwrap();
    run(&mut executor, "INSERT INTO t VALUES (3, 'c', 30)").unwrap();
    run(&mut executor, "UPDATE t SET val = 'x' WHERE num > 15").unwrap();
    for row in rows_of(run(&mut executor, "SELECT val FROM t WHERE num > 15").unwrap()) {
        assert_eq!(row[0], Value::Text("x".into()));
    }
    run(&mut executor, "DELETE FROM t WHERE id = 2").unwrap();
    assert_eq!(rows_of(run(&mut executor, "SELECT * FROM t").unwrap()).len(), 2);
}

#[test]
fn test_primary_key_constraint() {
    let mut executor = setup_executor();
    run(&mut executor, "CREATE TABLE t (id INT PRIMARY KEY, val TEXT)").unwrap();
    run(&mut executor, "INSERT INTO t VALUES (1, 'first')").unwrap();
    assert!(run(&mut executor, "INSERT INTO t VALUES (1, 'second')").is_err());
}

#[test]
fn test_table_with_text_pk() {
    let mut executor = setup_executor();
    run(&mut executor, "CREATE TABLE devices (device_id TEXT PRIMARY KEY, name TEXT)").unwrap();
    run(&mut executor, "INSERT INTO devices VALUES ('sensor_01', 'Temperature')").unwrap();
    run(&mut executor, "INSERT INTO devices VALUES ('sensor_02', 'Humidity')").unwrap();
    let rows = rows_of(run(&mut executor, "SELECT * FROM devices WHERE device_id = 'sensor_01'").unwrap());
    assert_eq!(rows.len(), 1);
}

#[test]
fn test_multi_insert() {
    let mut executor = setup_executor();
    run(&mut executor, "CREATE TABLE t (id INT PRIMARY KEY, val TEXT)").unwrap();
    match run(&mut executor, "INSERT INTO t VALUES (1, 'a'), (2, 'b'), (3, 'c')").unwrap() {
        ExecuteResult::WriteResult { rows_affected, .. } => assert_eq!(rows_affected, 3),
        _ => panic!("expected a write result"),
    }
}

#[test]
fn test_if_not_exists() {
    let mut executor = setup_executor();
    run(&mut executor, "CREATE TABLE t (id INT PRIMARY KEY, val TEXT)").unwrap();
    run(&mut executor, "CREATE TABLE IF NOT EXISTS t (id INT PRIMARY KEY, val TEXT)").unwrap();
}

#[test]
fn test_empty_database() {
    let mut executor = setup_executor();
    assert!(run(&mut executor, "SELECT * FROM nonexistent").is_err());
}

#[test]
fn test_drop_nonexistent_table() {
    let mut executor = setup_executor();
    assert!(run(&mut executor, "DROP TABLE nonexistent").is_err());
}

#[test]
fn test_empty_sql() {
    assert!(parse("").is_err());
}

#[test]
fn test_row_count() {
    let mut executor = setup_executor();
    run(&mut executor, "CREATE TABLE t (id INT PRIMARY KEY)").unwrap();
    for i in 1..=10 {
        run(&mut executor, &format!("INSERT INTO t VALUES ({})", i)).unwrap();
    }
    assert_eq!(executor.engine().row_count("t").unwrap(), 10);
}

fn setup_db() -> MemEngine {
    let mut executor = setup_executor();
    run(&mut executor, "CREATE TABLE users (id INT PRIMARY KEY, name TEXT, age INT)").unwrap();
    run(&mut executor, "INSERT INTO users VALUES (1, 'Alice', 30)").unwrap();
    run(&mut executor, "INSERT INTO users VALUES (2, 'Bob', 25)").unwrap();
    executor.into_engine()
}

#[test]
fn test_export_contains_create_table() {
    let sql = Exporter::new(setup_db(), F64Ops).export_to_string("2024-01-01 00:00:00").unwrap();
    assert!(sql.contains("CREATE TABLE"));
    assert!(sql.contains("users"));
}

#[test]
fn test_export_contains_insert_data() {
    let sql = Exporter::new(setup_db(), F64Ops).export_to_string("2024-01-01 00:00:00").unwrap();
    assert!(sql.contains("INSERT INTO"));
    assert!(sql.contains("Alice"));
    assert!(sql.contains("Bob"));
}

#[test]
fn test_export_table_specific() {
    let sql = Exporter::new(setup_db(), F64Ops).export_table_to_string("users").unwrap();
    assert!(sql.contains("users"));
    assert!(sql.contains("Alice"));
}

#[test]
fn test_export_with_drop_table() {
    let mut config = ExportConfig::default();
    config.include_drop_table = true;
    let sql = Exporter::with_config(setup_db(), config, F64Ops).export_to_string("2024-01-01 00:00:00").unwrap();
    assert!(sql.contains("DROP TABLE IF EXISTS"));
}

#[test]
fn test_export_with_transaction() {
    let mut config = ExportConfig::default();
    config.wrap_in_transaction = true;
    let sql = Exporter::with_config(setup_db(), config, F64Ops).export_to_string("2024-01-01 00:00:00").unwrap();
    assert!(sql.contains("BEGIN") || sql.contains("BEGIN;"));
    assert!(sql.contains("COMMIT"));
}

#[test]
fn test_export_without_data() {
    let mut config = ExportConfig::default();
    config.include_data = false;
    let sql = Exporter::with_config(setup_db(), config, F64Ops).export_to_string("2024-01-01 00:00:00").unwrap();
    assert!(sql.contains("CREATE TABLE"));
    assert!(!sql.contains("INSERT INTO"));
}

#[test]
fn test_export_empty_db() {
    let sql = Exporter::new(MemEngine::default(), F64Ops).export_to_string("2024-01-01 00:00:00").unwrap();
    assert!(sql.contains("no tables") || sql.contains("Export complete"));
}

#[test]
fn test_export_database_public_fn() {
    let result = export_database_to_string(setup_db(), F64Ops, "2024-01-01 00:00:00");
    assert!(result.is_ok());
    assert!(result.unwrap().contains("users"));
}

#[test]
fn test_guard_rows_before_added_column() {
    let mut ex = setup_executor();
    run(&mut ex, "CREATE TABLE t (id INT PRIMARY KEY, a TEXT)").unwrap();
    run(&mut ex, "INSERT INTO t VALUES (1, 'x')").unwrap();
    run(&mut ex, "ALTER TABLE t ADD COLUMN b INT").unwrap();
    assert!(allowed(&ex, "SELECT id, a FROM t"));
    assert!(!allowed(&ex, "SELECT b FROM t"));
    assert!(!allowed(&ex, "SELECT * FROM t"));
    assert!(!allowed(&ex, "SELECT id FROM t WHERE b > 1"));
    assert!(!allowed(&ex, "SELECT id FROM t ORDER BY b"));
    assert!(!allowed(&ex, "UPDATE t SET b = 2"));
    assert!(allowed(&ex, "UPDATE t SET a = 'y'"));
    assert!(allowed(&ex, "UPDATE t SET b = 2 WHERE id = 5"));
    assert!(!allowed(&ex, "DELETE FROM t WHERE b IS NULL"));
    assert!(allowed(&ex, "DELETE FROM t WHERE id = 1"));
    assert!(!allowed(&ex, "INSERT INTO t VALUES (1, 'z', 3) ON CONFLICT (id) DO UPDATE SET b = 3"));
    assert!(allowed(&ex, "INSERT INTO t VALUES (2, 'z', 3)"));
}

#[test]
fn test_guard_empty_table_and_new_rows() {
    let mut ex = setup_executor();
    run(&mut ex, "CREATE TABLE t (id INT PRIMARY KEY, a TEXT)").unwrap();
    run(&mut ex, "ALTER TABLE t ADD COLUMN b INT").unwrap();
    assert!(allowed(&ex, "SELECT * FROM t WHERE b > 1"));
    run(&mut ex, "INSERT INTO t VALUES (1, 'x', 5)").unwrap();
    assert!(allowed(&ex, "SELECT b FROM t ORDER BY b"));
    assert!(allowed(&ex, "UPDATE t SET b = 2"));
}

#[test]
fn test_guard_grouped_projection() {
    let mut ex = setup_executor();
    run(&mut ex, "CREATE TABLE e (id INT PRIMARY KEY, name TEXT, dept TEXT)").unwrap();
    // An empty table aggregates to one row holding only the count.
    assert!(allowed(&ex, "SELECT COUNT(*) FROM e"));
    assert!(!allowed(&ex, "SELECT name, COUNT(*) FROM e GROUP BY name"));
    run(&mut ex, "INSERT INTO e VALUES (1, 'a', 'x')").unwrap();
    run(&mut ex, "INSERT INTO e VALUES (2, 'b', 'x')").unwrap();
    // Grouped rows hold the key and the count: position 1 exists, 2 does not.
    assert!(allowed(&ex, "SELECT name, COUNT(*) FROM e GROUP BY name"));
    assert!(!allowed(&ex, "SELECT dept, COUNT(*) FROM e GROUP BY dept"));
    assert!(allowed(&ex, "SELECT name, COUNT(*) FROM e WHERE id > 0 GROUP BY name"));
    assert!(!allowed(&ex, "SELECT name, COUNT(*) FROM e WHERE id > 9 GROUP BY name"));
}

fn open_database() -> Database<MemEngine, F64Ops> {
    Database::open(MemEngine::default(), F64Ops)
}

fn field<'a>(row: &'a [(String, Value)], name: &str) -> Option<&'a Value> {
    row.iter().find(|(k, _)| k == name).map(|(_, v)| v)
}

#[test]
fn test_database_open() {
    let db = open_database();
    assert_eq!(db.config().server.port, 8080);
}

#[test]
fn test_database_create_and_insert() {
    let mut db = open_database();
    db.execute("CREATE TABLE users (id INT PRIMARY KEY, name TEXT, age INT)").unwrap().unwrap();
    db.execute("INSERT INTO users VALUES (1, 'Alice', 30)").unwrap().unwrap();
    let rows = db.query("SELECT * FROM users").unwrap().unwrap();
    assert_eq!(rows.len(), 1);
    assert_eq!(field(&rows[0], "name").unwrap(), &Value::Text("Alice".into()));
}

#[test]
fn test_database_full_crud() {
    let mut db = open_database();
    db.execute("CREATE TABLE items (id INT PRIMARY KEY, label TEXT, price FLOAT)").unwrap().unwrap();
    db.execute("INSERT INTO items VALUES (1, 'item1', 10.5)").unwrap().unwrap();
    db.execute("INSERT INTO items VALUES (2, 'item2', 20.0)").unwrap().unwrap();
    let rows = db.query("SELECT * FROM items").unwrap().unwrap();
    assert_eq!(rows.len(), 2);
    db.execute("UPDATE items SET price = 15.0 WHERE id = 1").unwrap().unwrap();
    let rows = db.query("SELECT price FROM items WHERE id = 1").unwrap().unwrap();
    assert_eq!(field(&rows[0], "price").unwrap(), &Value::Float(15.0f64.to_bits()));
    db.execute("DELETE FROM items WHERE id = 2").unwrap().unwrap();
    let rows = db.query("SELECT * FROM items").unwrap().unwrap();
    assert_eq!(rows.len(), 1);
    db.execute("DROP TABLE items").unwrap().unwrap();
    assert!(db.execute("SELECT * FROM items").unwrap().is_err());
}

#[test]
fn test_error_on_missing_table() {
    let mut db = open_database();
    let result = db.execute("SELECT * FROM nonexistent").unwrap();
    assert!(result.is_err());
}

#[test]
fn test_error_on_duplicate_pk() {
    let mut db = open_database();
    db.execute("CREATE TABLE t (id INT PRIMARY KEY, val TEXT)").unwrap().unwrap();
    db.execute("INSERT INTO t VALUES (1, 'a')").unwrap().unwrap();
    let result = db.execute("INSERT INTO t VALUES (1, 'b')").unwrap();
    assert!(result.is_err());
}

#[test]
fn test_database_query_maps_and_refusal() {
    let mut db = open_database();
    db.execute("CREATE TABLE t (id INT PRIMARY KEY, val TEXT)").unwrap().unwrap();
    db.execute("INSERT INTO t VALUES (1, 'a')").unwrap().unwrap();
    // A write gives no rows.
    assert!(db.query("INSERT INTO t VALUES (2, 'b')").unwrap().unwrap().is_empty());
    // A repeated column appears once, with its last value.
    let rows = db.query("SELECT id, val, id FROM t WHERE id = 1").unwrap().unwrap();
    assert_eq!(rows[0], vec![("id".to_string(), Value::Integer(1)), ("val".to_string(), Value::Text("a".into()))]);
    db.execute("ALTER TABLE t ADD COLUMN extra INT").unwrap().unwrap();
    assert!(db.execute("SELECT extra FROM t").is_none());
    assert!(db.query("SELECT extra FROM t").is_none());
    assert!(db.execute("SELECT val FROM t").unwrap().is_ok());
    assert!(db.execute("NOT SQL AT ALL").unwrap().is_err());
}

#[test]
fn test_read_after_insert_by_key() {
    let mut ex = setup_executor();
    run(&mut ex, "CREATE TABLE kv (k INT PRIMARY KEY, v TEXT)").unwrap();
    run(&mut ex, "INSERT INTO kv VALUES (7, 'seven')").unwrap();
    run(&mut ex, "INSERT INTO kv VALUES (8, 'eight')").unwrap();
    let rows = rows_of(run(&mut ex, "SELECT * FROM kv WHERE k = 7").unwrap());
    assert_eq!(rows, vec![vec![Value::Integer(7), Value::Text("seven".into())]]);
    assert!(run(&mut ex, "INSERT INTO kv VALUES (7, 'again')").is_err());
    run(&mut ex, "DROP TABLE kv").unwrap();
    assert!(run(&mut ex, "SELECT * FROM kv WHERE k = 7").is_err());
}

#[test]
fn test_order_by_keeps_equal_rows_in_order() {
    let mut ex = setup_executor();
    run(&mut ex, "CREATE TABLE s (id INT PRIMARY KEY, grp TEXT)").unwrap();
    for (id, g) in [(1, "b"), (2, "a"), (3, "b"), (4, "a")] {
        run(&mut ex, &format!("INSERT INTO s VALUES ({}, '{}')", id, g)).unwrap();
    }
    let rows = rows_of(run(&mut ex, "SELECT id FROM s ORDER BY grp").unwrap());
    let ids: Vec<Value> = rows.into_iter().map(|r| r[0].clone()).collect();
    assert_eq!(ids, vec![Value::Integer(2), Value::Integer(4), Value::Integer(1), Value::Integer(3)]);
    let rows = rows_of(run(&mut ex, "SELECT id FROM s ORDER BY grp DESC").unwrap());
    let ids: Vec<Value> = rows.into_iter().map(|r| r[0].clone()).collect();
    assert_eq!(ids, vec![Value::Integer(1), Value::Integer(3), Value::Integer(2), Value::Integer(4)]);
}

struct Steps(std::cell::RefCell<Vec<(usize, usize)>>);

impl rustminidb::migration::ImportProgress for Steps {
    fn progress(&self, done: usize, total: usize) {
        self.0.borrow_mut().push((done, total));
    }
}

#[test]
fn test_import_sql_string_runs_statements() {
    let mut ex = setup_executor();
    let sql = "CREATE TABLE t (id INT PRIMARY KEY, v TEXT);\n-- a comment\nINSERT INTO t VALUES (1, 'a;b');\nBEGIN;\nthis is not sql;\nCOMMIT;\nINSERT INTO t VALUES (2, 'c')";
    let steps = Steps(std::cell::RefCell::new(Vec::new()));
    let r = rustminidb::migration::import_sql_string(&mut ex, sql, Some(&steps));
    assert!(matches!(r, Some(Ok(()))));
    // Six pieces; BEGIN and COMMIT are passed over without a report.
    assert_eq!(steps.0.into_inner(), vec![(1, 6), (2, 6), (4, 6), (6, 6)]);
    let rows = rows_of(run(&mut ex, "SELECT v FROM t").unwrap());
    assert_eq!(rows, vec![vec![Value::Text("a;b".into())], vec![Value::Text("c".into())]]);
}

#[test]
fn test_import_sql_string_stops_at_failure() {
    let mut ex = setup_executor();
    let sql = "CREATE TABLE t (id INT PRIMARY KEY); INSERT INTO t VALUES (1); INSERT INTO t VALUES (1); INSERT INTO t VALUES (2)";
    let r = rustminidb::migration::import_sql_string(&mut ex, sql, None::<&rustminidb::migration::NoProgress>);
    assert!(matches!(r, Some(Err(_))));
    let rows = rows_of(run(&mut ex, "SELECT id FROM t").unwrap());
    assert_eq!(rows, vec![vec![Value::Integer(1)]]);
}

#[test]
fn test_compare_values_orders_one_kind_transitively() {
    let (a, b, c) = (Value::Text("apple".into()), Value::Text("banana".into()), Value::Text("cherry".into()));
    assert_eq!(compare_values(&a, &b), Ordering::Less);
    assert_eq!(compare_values(&b, &c), Ordering::Less);
    assert_eq!(compare_values(&a, &c), Ordering::Less);
    assert_eq!(compare_values(&c, &a), Ordering::Greater);
    assert_eq!(compare_values(&Value::Integer(-3), &Value::Integer(2)), Ordering::Less);
    assert_eq!(compare_values(&Value::Float((-0.5f64).to_bits()), &Value::Float(0.25f64.to_bits())), Ordering::Less);
    assert_eq!(compare_values(&Value::Boolean(false), &Value::Boolean(true)), Ordering::Less);
    // Across kinds an integer is compared as a float, which can round: these
    // three are not ordered transitively.
    let big = Value::Integer(9_007_199_254_740_993);
    let f = Value::Float(9_007_199_254_740_992.0f64.to_bits());
    let small = Value::Integer(9_007_199_254_740_992);
    assert_eq!(compare_values(&big, &f), Ordering::Equal);
    assert_eq!(compare_values(&f, &small), Ordering::Equal);
    assert_eq!(compare_values(&big, &small), Ordering::Greater);
}

#[test]
fn test_integer_keys_sort_as_numbers() {
    let keys: Vec<Vec<u8>> = [i64::MIN, -2, -1, 0, 1, 255, 256, i64::MAX]
        .iter()
        .map(|i| serialize_value(&Value::Integer(*i), &F64Ops))
        .collect();
    for w in keys.windows(2) {
        assert!(w[0] < w[1]);
    }
    assert_eq!(serialize_value(&Value::Integer(0), &F64Ops), vec![1, 0x80, 0, 0, 0, 0, 0, 0, 0]);
    assert_eq!(rustminidb::encoding::deserialize_value(&keys[2]), Value::Integer(-1));
}

#[test]
fn test_error_kinds_of_missing_and_existing_tables() {
    let mut ex = setup_executor();
    match run(&mut ex, "SELECT * FROM nonexistent") {
        Err(RustMinidbError::Exec(ExecError::TableNotFound(n))) => assert_eq!(n, "nonexistent"),
        other => panic!("unexpected {:?}", other.is_ok()),
    }
    match run(&mut ex, "DROP TABLE nonexistent") {
        Err(RustMinidbError::Exec(ExecError::TableNotFound(n))) => assert_eq!(n, "nonexistent"),
        other => panic!("unexpected {:?}", other.is_ok()),
    }
    run(&mut ex, "CREATE TABLE t (id INT PRIMARY KEY, val TEXT)").unwrap();
    assert!(matches!(run(&mut ex, "CREATE TABLE t (id INT PRIMARY KEY, val TEXT)"),
        Err(RustMinidbError::Exec(ExecError::ConstraintViolation(_)))));
    assert!(run(&mut ex, "CREATE TABLE IF NOT EXISTS t (id INT PRIMARY KEY, val TEXT)").is_ok());
    run(&mut ex, "INSERT INTO t VALUES (1, 'first')").unwrap();
    assert!(matches!(run(&mut ex, "INSERT INTO t VALUES (1, 'second')"),
        Err(RustMinidbError::Engine(EngineError::PrimaryKeyConflict(_)))));
    let rows = rows_of(run(&mut ex, "SELECT * FROM t").unwrap());
    assert_eq!(rows, vec![vec![Value::Integer(1), Value::Text("first".into())]]);
}

#[test]
fn test_parse_errors_from_sql_text() {
    assert!(matches!(parse(""), Err(RustMinidbError::Parse(_))));
    assert!(matches!(parse("SLECT * FROME users"), Err(RustMinidbError::Parse(ParseError::Syntax(_)))));
    assert!(matches!(parse("SELECT * FROM a; SELECT * FROM b"),
        Err(RustMinidbError::Parse(ParseError::MultipleStatements(_)))));
}

#[test]
fn test_parse_refuses_forms_the_parser_panics_on() {
    assert!(matches!(parse("GRANT SELECT ON t TO u GRANTED BY 1"), Err(RustMinidbError::Parse(ParseError::Unsupported(_)))));
    assert!(matches!(parse("flush relay logs for channel 1"), Err(RustMinidbError::Parse(ParseError::Unsupported(_)))));
    assert!(rustminidb::sql::front::is_risky_sql("REVOKE SELECT ON t FROM u GRANTED BY x"));
    assert!(!rustminidb::sql::front::is_risky_sql("INSERT INTO t VALUES (1, 'access granted')"));
    assert!(parse("INSERT INTO t VALUES (1, 'access granted')").is_ok());
}

#[test]
fn test_index_lookup_gives_indexed_rows() {
    let mut ex = setup_executor();
    run(&mut ex, "CREATE TABLE p (id INT PRIMARY KEY, name TEXT)").unwrap();
    run(&mut ex, "CREATE INDEX idx_name ON p (name)").unwrap();
    run(&mut ex, "INSERT INTO p VALUES (1, 'ann')").unwrap();
    run(&mut ex, "INSERT INTO p VALUES (2, 'bob')").unwrap();
    run(&mut ex, "INSERT INTO p VALUES (3, 'ann')").unwrap();
    let rows = rows_of(run(&mut ex, "SELECT id FROM p WHERE name = 'ann'").unwrap());
    let mut ids: Vec<i64> = rows.iter().map(|r| match r[0] { Value::Integer(i) => i, _ => -1 }).collect();
    ids.sort();
    assert_eq!(ids, vec![1, 3]);
    assert!(rows_of(run(&mut ex, "SELECT id FROM p WHERE name = 'cy'").unwrap()).is_empty());
}
