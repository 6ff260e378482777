use rustminidb::migration::{split_sql_statements, ExportConfig, SqlDialect};
use rustminidb::types::{ColumnType, FloatOps, Value};

struct F64Ops;

impl FloatOps for F64Ops {
    fn parse(&self, s: &str) -> Option<u64> {
        s.parse::<f64>().ok().map(f64::to_bits)
    }
    fn display(&self, bits: u64) -> String {
        format!("{}", f64::from_bits(bits))
    }
    fn debug(&self, bits: u64) -> String {
        format!("{:?}", f64::from_bits(bits))
    }
    fn add(&self, a: u64, b: u64) -> u64 {
        (f64::from_bits(a) + f64::from_bits(b)).to_bits()
    }
    fn div(&self, a: u64, b: u64) -> u64 {
        (f64::from_bits(a) / f64::from_bits(b)).to_bits()
    }
}

#[test]
fn test_split_statements() {
    let sql = "CREATE TABLE t (id INT);\nINSERT INTO t VALUES (1);";
    let stmts = split_sql_statements(sql);
    assert_eq!(stmts.len(), 2);
    assert!(stmts[0].contains("CREATE"));
    assert!(stmts[1].contains("INSERT"));
}

#[test]
fn test_dialect_mysql_types() {
    let d = SqlDialect::MySQL;
    assert_eq!(d.column_type_name(&ColumnType::Integer), "INT");
    assert_eq!(d.column_type_name(&ColumnType::Text), "VARCHAR(65535)");
    assert_eq!(d.column_type_name(&ColumnType::Boolean), "TINYINT(1)");
}

#[test]
fn test_dialect_postgres_types() {
    let d = SqlDialect::PostgreSQL;
    assert_eq!(d.column_type_name(&ColumnType::Integer), "BIGINT");
    assert_eq!(d.column_type_name(&ColumnType::Boolean), "BOOLEAN");
    assert_eq!(d.column_type_name(&ColumnType::Blob), "BYTEA");
}

#[test]
fn test_dialect_sqlite_types() {
    let d = SqlDialect::SQLite;
    assert_eq!(d.column_type_name(&ColumnType::Float), "REAL");
    assert_eq!(d.column_type_name(&ColumnType::Boolean), "INTEGER");
}

#[test]
fn test_format_value_boolean() {
    let d = SqlDialect::Standard;
    assert_eq!(d.format_value(&Value::Boolean(true), &F64Ops), "1");
    assert_eq!(d.format_value(&Value::Boolean(false), &F64Ops), "0");
}

#[test]
fn test_format_value_postgres_boolean() {
    let d = SqlDialect::PostgreSQL;
    assert_eq!(d.format_value(&Value::Boolean(true), &F64Ops), "TRUE");
    assert_eq!(d.format_value(&Value::Boolean(false), &F64Ops), "FALSE");
}

#[test]
fn test_format_value_null() {
    let d = SqlDialect::Standard;
    assert_eq!(d.format_value(&Value::Null, &F64Ops), "NULL");
}

#[test]
fn test_format_value_integer() {
    let d = SqlDialect::Standard;
    assert_eq!(d.format_value(&Value::Integer(42), &F64Ops), "42");
}

#[test]
fn format_value_text_escapes_quotes() {
    let d = SqlDialect::Standard;
    assert_eq!(d.format_value(&Value::Text("it's".into()), &F64Ops), "'it''s'");
}

#[test]
fn format_value_blob_hex() {
    assert_eq!(SqlDialect::MySQL.format_value(&Value::Blob(vec![0xde, 0xad, 0x01]), &F64Ops), "X'dead01'");
    assert_eq!(SqlDialect::PostgreSQL.format_value(&Value::Blob(vec![0xff]), &F64Ops), "'\\xff'");
}

#[test]
fn format_value_float_and_timestamp() {
    let d = SqlDialect::Standard;
    assert_eq!(d.format_value(&Value::Float(2.0f64.to_bits()), &F64Ops), "2.0");
    assert_eq!(d.format_value(&Value::Float(2.5f64.to_bits()), &F64Ops), "2.5");
    assert_eq!(d.format_value(&Value::Timestamp(0), &F64Ops), "'1970-01-01 00:00:00'");
    assert_eq!(d.format_value(&Value::Timestamp(86_400_000_000 + 61_000_000), &F64Ops), "'1970-01-02 00:01:01'");
}

#[test]
fn quote_identifier_per_dialect() {
    assert_eq!(SqlDialect::MySQL.quote_identifier("t"), "`t`");
    assert_eq!(SqlDialect::SQLite.quote_identifier("t"), "`t`");
    assert_eq!(SqlDialect::PostgreSQL.quote_identifier("t"), "\"t\"");
    assert_eq!(SqlDialect::Standard.quote_identifier("t"), "t");
}

#[test]
fn dialect_keywords() {
    assert_eq!(SqlDialect::PostgreSQL.auto_increment(), "GENERATED BY DEFAULT AS IDENTITY");
    assert_eq!(SqlDialect::SQLite.auto_increment(), "AUTOINCREMENT");
    assert_eq!(SqlDialect::MySQL.table_options_suffix(), " ENGINE=InnoDB DEFAULT CHARSET=utf8mb4");
    assert_eq!(SqlDialect::Standard.table_options_suffix(), "");
    assert_eq!(SqlDialect::Standard.begin_transaction(), "BEGIN;\n");
    assert_eq!(SqlDialect::Standard.commit_transaction(), "COMMIT;\n");
}

#[test]
fn export_config_default() {
    let c = ExportConfig::default();
    assert!(c.include_create && c.include_data && c.include_comments);
    assert!(!c.include_drop_table && !c.wrap_in_transaction);
    assert_eq!(c.batch_size, 100);
    assert_eq!(c.dialect, SqlDialect::Standard);
}

#[test]
fn split_keeps_quoted_semicolons_and_drops_comments() {
    let sql = "-- header\nINSERT INTO t VALUES ('a;b');\nBEGIN";
    let stmts = split_sql_statements(sql);
    assert_eq!(stmts, vec!["INSERT INTO t VALUES ('a;b')".to_string()]);
}

#[test]
fn split_trailing_statement_without_semicolon() {
    let stmts = split_sql_statements("SELECT 1;  SELECT 2  ");
    assert_eq!(stmts, vec!["SELECT 1".to_string(), "SELECT 2".to_string()]);
    assert!(split_sql_statements("COMMIT").is_empty());
    assert!(split_sql_statements("   ;;  ").is_empty());
}
