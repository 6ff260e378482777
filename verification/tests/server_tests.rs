use rustminidb::error::{EngineError, ExecError, ParseError, RustMinidbError};
use rustminidb::schema::TableSchema;
use rustminidb::server::api::{apply_comment, auth_allows, db_file_name, db_path, error_code, import_row, CommentRequest};
use rustminidb::server::json::{json_to_value, JsonKind, JsonNumber, JsonOut, JsonValue};
use rustminidb::server::metrics::Metrics;
use rustminidb::types::{ColumnDef, ColumnType, FloatOps, Value};

struct F64Ops;

impl FloatOps for F64Ops {
    fn parse(&self, s: &str) -> Option<u64> {
        s.parse::<f64>().ok().map(f64::to_bits)
    }
    fn display(&self, bits: u64) -> String {
        format!("{}", f64::from_bits(bits))
    }
    fn debug(&self, bits: u64) -> String {
        format!("{:?}", f64::from_bits(bits))
    }
    fn add(&self, a: u64, b: u64) -> u64 {
        (f64::from_bits(a) + f64::from_bits(b)).to_bits()
    }
    fn div(&self, a: u64, b: u64) -> u64 {
        (f64::from_bits(a) / f64::from_bits(b)).to_bits()
    }
}

fn col(name: &str, t: ColumnType, nullable: bool, pk: bool) -> ColumnDef {
    ColumnDef { name: name.into(), col_type: t, nullable, is_primary_key: pk, default: None, auto_increment: false, comment: None }
}

fn users() -> TableSchema {
    TableSchema {
        name: "users".into(),
        columns: vec![
            col("id", ColumnType::Integer, false, true),
            col("name", ColumnType::Text, false, false),
            col("score", ColumnType::Float, true, false),
        ],
        primary_key: vec!["id".into()],
        comment: None,
    }
}

fn json_int(i: i64) -> JsonValue {
    JsonValue { kind: JsonKind::Number(JsonNumber { as_i64: Some(i), as_f64: Some((i as f64).to_bits()), text: i.to_string() }), text: i.to_string() }
}

fn json_text(s: &str) -> JsonValue {
    JsonValue { kind: JsonKind::String(s.into()), text: format!("{:?}", s) }
}

#[test]
fn test_auth_without_token_allows_everything() {
    assert!(auth_allows(None, "/v1/query", ""));
    assert!(auth_allows(Some(""), "/v1/query", ""));
}

#[test]
fn test_auth_with_token() {
    assert!(auth_allows(Some("s3"), "/", ""));
    assert!(auth_allows(Some("s3"), "/v1/health", ""));
    assert!(auth_allows(Some("s3"), "/v1/query", "Bearer s3"));
    assert!(!auth_allows(Some("s3"), "/v1/query", "Bearer s4"));
    assert!(!auth_allows(Some("s3"), "/v1/query", "s3"));
    assert!(!auth_allows(Some("s3"), "/v1/tables", ""));
}

#[test]
fn test_error_codes() {
    assert_eq!(error_code(&RustMinidbError::Parse(ParseError::Empty)), "PARSE_ERROR");
    assert_eq!(error_code(&RustMinidbError::Exec(ExecError::TableNotFound("t".into()))), "TABLE_NOT_FOUND");
    assert_eq!(error_code(&RustMinidbError::Exec(ExecError::ColumnNotFound("c".into()))), "COLUMN_NOT_FOUND");
    assert_eq!(error_code(&RustMinidbError::Exec(ExecError::Validation("v".into()))), "VALIDATION_ERROR");
    assert_eq!(error_code(&RustMinidbError::Engine(EngineError::PrimaryKeyConflict("k".into()))), "PRIMARY_KEY_CONFLICT");
    assert_eq!(error_code(&RustMinidbError::Engine(EngineError::TableAlreadyExists("t".into()))), "TABLE_ALREADY_EXISTS");
    assert_eq!(error_code(&RustMinidbError::Io("x".into())), "INTERNAL_ERROR");
}

#[test]
fn test_db_file_names() {
    assert_eq!(db_file_name("main"), "main.db");
    assert_eq!(db_file_name("main.db"), "main.db");
    assert_eq!(db_file_name("db"), "db.db");
    let p = db_path("data", "main");
    assert_eq!(p, std::path::Path::new("data").join("main.db").to_string_lossy());
}

#[test]
fn test_import_row_converts_and_fills() {
    let schema = users();
    let fields = vec![("name".to_string(), json_text("Ann")), ("id".to_string(), json_int(7))];
    let row = import_row(&schema, &fields, &F64Ops).unwrap();
    assert_eq!(row.values, vec![Value::Integer(7), Value::Text("Ann".into()), Value::Null]);
}

#[test]
fn test_import_row_missing_column() {
    let schema = users();
    let fields = vec![("id".to_string(), json_int(7))];
    assert_eq!(import_row(&schema, &fields, &F64Ops).unwrap_err(), "缺少列 'name' 的值");
}

#[test]
fn test_json_to_value() {
    assert_eq!(json_to_value(&json_int(5), ColumnType::Integer), Value::Integer(5));
    assert_eq!(json_to_value(&json_text("hi"), ColumnType::Text), Value::Text("hi".into()));
    let null = JsonValue { kind: JsonKind::Null, text: "null".into() };
    assert_eq!(json_to_value(&null, ColumnType::Text), Value::Null);
    let b = JsonValue { kind: JsonKind::Bool(true), text: "true".into() };
    assert_eq!(json_to_value(&b, ColumnType::Boolean), Value::Boolean(true));
    assert_eq!(json_to_value(&b, ColumnType::Integer), Value::Text("true".into()));
    match json_to_value(&json_text("2024-01-02T03:04:05Z"), ColumnType::Timestamp) {
        Value::Timestamp(t) => assert_eq!(t, 1_704_164_645_000_000),
        other => panic!("expected a timestamp, got {:?}", other),
    }
    assert_eq!(json_to_value(&json_text("soon"), ColumnType::Timestamp), Value::Text("soon".into()));
}

#[test]
fn test_value_to_json() {
    assert_eq!(Value::Integer(3).to_json_value(), JsonOut::Integer(3));
    assert_eq!(Value::Null.to_json_value(), JsonOut::Null);
    assert_eq!(Value::Blob(vec![0xab, 0x01]).to_json_value(), JsonOut::String("ab01".into()));
    assert_eq!(Value::Float(f64::NAN.to_bits()).to_json_value(), JsonOut::Float(0.0f64.to_bits()));
    assert_eq!(Value::Timestamp(0).to_json_value(), JsonOut::String("1970-01-01T00:00:00+00:00".into()));
}

#[test]
fn test_apply_comment() {
    let schema = users();
    let req = CommentRequest { table: "users".into(), column: Some("name".into()), comment: "display name".into() };
    let s = apply_comment(&schema, &req).unwrap();
    assert_eq!(s.columns[1].comment, Some("display name".into()));
    assert_eq!(s.comment, None);
    let req = CommentRequest { table: "users".into(), column: None, comment: "people".into() };
    let s = apply_comment(&s, &req).unwrap();
    assert_eq!(s.comment, Some("people".into()));
    assert_eq!(s.columns[1].comment, Some("display name".into()));
    let req = CommentRequest { table: "users".into(), column: Some("name".into()), comment: "".into() };
    assert_eq!(apply_comment(&s, &req).unwrap().columns[1].comment, None);
    let req = CommentRequest { table: "users".into(), column: Some("age".into()), comment: "x".into() };
    assert_eq!(apply_comment(&s, &req).unwrap_err(), "age");
}

#[test]
fn test_server_metrics_record() {
    let mut m = Metrics::new();
    m.record_query(true, 2_000_000, 3);
    m.record_query(false, 600_000_000, 0);
    assert_eq!(m.total_queries, 2);
    assert_eq!(m.successful_queries, 1);
    assert_eq!(m.failed_queries, 1);
    assert_eq!(m.total_query_time_ns, 602_000_000);
    assert_eq!(m.slow_queries, 1);
    assert_eq!(m.rows_returned, 3);
}
