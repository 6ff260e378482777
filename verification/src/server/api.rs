//! Authentication, error codes, database file names and request bodies.

use vstd::prelude::*;
use crate::error::{RustMinidbError, ExecError, EngineError};
use crate::strutil::{push_str, str_eq, chars_of};
use crate::types::{Value, SValue, Row, FloatOps};
use crate::schema::{TableSchema, STable, SColumn, col_pos};
use crate::server::json::{JsonValue, json_value_spec, json_to_value};

verus! {

broadcast use vstd::string::group_string_axioms;

/// An API error: a code and a message.
#[derive(Debug, Clone)]
pub struct ApiError {
    pub code: String,
    pub message: String,
}

/// A request to switch to (or create) a database.
#[derive(Debug, Clone)]
pub struct SwitchDbRequest {
    pub name: String,
    pub create: bool,
}

/// A request to set the comment of a table or of one of its columns.
#[derive(Debug, Clone)]
pub struct CommentRequest {
    pub table: String,
    pub column: Option<String>,
    pub comment: String,
}

/// Whether a request passes authentication: always without a configured
/// token or with an empty one; else on the public paths `/` and
/// `/v1/health`, or with the header `Bearer <token>`.
pub open spec fn auth_spec(token: Option<Seq<char>>, path: Seq<char>, header: Seq<char>) -> bool {
    match token {
        None => true,
        Some(t) => t.len() == 0 || path == "/"@ || path == "/v1/health"@ || header == "Bearer "@ + t,
    }
}

/// Whether a request passes authentication.
pub fn auth_allows(token: Option<&str>, path: &str, header: &str) -> (r: bool)
    ensures
        r == auth_spec(match token { Some(t) => Some(t@), None => None }, path@, header@),
{
    match token {
        None => true,
        Some(t) => {
            if t.is_empty() || str_eq(path, "/") || str_eq(path, "/v1/health") {
                return true;
            }
            let mut expected = String::from_str("Bearer ");
            push_str(&mut expected, t);
            str_eq(header, expected.as_str())
        },
    }
}

/// The API code of an error.
pub open spec fn error_code_spec(e: RustMinidbError) -> Seq<char> {
    match e {
        RustMinidbError::Parse(_) => "PARSE_ERROR"@,
        RustMinidbError::Exec(x) => match x {
            ExecError::TableNotFound(_) => "TABLE_NOT_FOUND"@,
            ExecError::ColumnNotFound(_) => "COLUMN_NOT_FOUND"@,
            ExecError::TypeMismatch(_) => "TYPE_MISMATCH"@,
            ExecError::ConstraintViolation(_) => "CONSTRAINT_VIOLATION"@,
            ExecError::Validation(_) => "VALIDATION_ERROR"@,
            _ => "EXEC_ERROR"@,
        },
        RustMinidbError::Engine(x) => match x {
            EngineError::TableAlreadyExists(_) => "TABLE_ALREADY_EXISTS"@,
            EngineError::PrimaryKeyConflict(_) => "PRIMARY_KEY_CONFLICT"@,
            EngineError::TableNotFound(_) => "TABLE_NOT_FOUND"@,
            _ => "ENGINE_ERROR"@,
        },
        _ => "INTERNAL_ERROR"@,
    }
}

/// The API code of an error.
pub fn error_code(err: &RustMinidbError) -> (r: &'static str)
    ensures
        r@ == error_code_spec(*err),
{
    match err {
        RustMinidbError::Parse(_) => "PARSE_ERROR",
        RustMinidbError::Exec(e) => match e {
            ExecError::TableNotFound(_) => "TABLE_NOT_FOUND",
            ExecError::ColumnNotFound(_) => "COLUMN_NOT_FOUND",
            ExecError::TypeMismatch(_) => "TYPE_MISMATCH",
            ExecError::ConstraintViolation(_) => "CONSTRAINT_VIOLATION",
            ExecError::Validation(_) => "VALIDATION_ERROR",
            _ => "EXEC_ERROR",
        },
        RustMinidbError::Engine(e) => match e {
            EngineError::TableAlreadyExists(_) => "TABLE_ALREADY_EXISTS",
            EngineError::PrimaryKeyConflict(_) => "PRIMARY_KEY_CONFLICT",
            EngineError::TableNotFound(_) => "TABLE_NOT_FOUND",
            _ => "ENGINE_ERROR",
        },
        _ => "INTERNAL_ERROR",
    }
}

/// A database's file name: the name, with `.db` added unless it ends so.
pub open spec fn db_file_name_spec(name: Seq<char>) -> Seq<char> {
    if name.len() >= 3 && name.subrange(name.len() - 3, name.len() as int) == ".db"@ { name } else { name + ".db"@ }
}

/// A database's file name is its own file name: naming twice adds `.db`
/// at most once.
pub proof fn law_db_file_name_idempotent(name: Seq<char>)
    ensures
        db_file_name_spec(db_file_name_spec(name)) == db_file_name_spec(name),
{
    reveal_strlit(".db");
    let n = db_file_name_spec(name);
    if !(name.len() >= 3 && name.subrange(name.len() - 3, name.len() as int) == ".db"@) {
        assert(n.subrange(n.len() - 3, n.len() as int) =~= ".db"@);
    }
}

/// A database's file name.
pub fn db_file_name(name: &str) -> (r: String)
    ensures
        r@ == db_file_name_spec(name@),
{
    let v = chars_of(name);
    let n = v.len();
    proof { reveal_strlit(".db"); }
    if n >= 3 && v[n - 3] == '.' && v[n - 2] == 'd' && v[n - 1] == 'b' {
        assert(v@.subrange(n - 3, n as int) =~= ".db"@);
        return name.to_owned();
    }
    if n >= 3 {
        assert(v@.subrange(n - 3, n as int)[0] == v@[n - 3]);
        assert(v@.subrange(n - 3, n as int)[1] == v@[n - 2]);
        assert(v@.subrange(n - 3, n as int)[2] == v@[n - 1]);
    }
    let mut s = name.to_owned();
    push_str(&mut s, ".db");
    s
}

/// The path of a database file in a directory (`Path::join`, as text).
pub uninterp spec fn joined_path(dir: Seq<char>, file: Seq<char>) -> Seq<char>;

/// `Path::new(dir).join(file)`, as lossy text.
#[verifier::external_body]
fn path_join(dir: &str, file: &str) -> (r: String)
    ensures
        r@ == joined_path(dir@, file@),
{
    std::path::Path::new(dir).join(file).to_string_lossy().to_string()
}

/// The path of a database in a directory.
pub fn db_path(db_dir: &str, db_name: &str) -> (r: String)
    ensures
        r@ == joined_path(db_dir@, db_file_name_spec(db_name@)),
{
    let name = db_file_name(db_name);
    path_join(db_dir, name.as_str())
}

/// The value of the first field with a name.
pub open spec fn field_of(fields: Seq<(String, JsonValue)>, name: Seq<char>) -> Option<JsonValue> {
    if exists|i: int| 0 <= i < fields.len() && fields[i].0@ == name {
        let k = choose|i: int| 0 <= i < fields.len() && fields[i].0@ == name
            && forall|j: int| 0 <= j < i ==> fields[j].0@ != name;
        Some(fields[k].1)
    } else {
        None
    }
}

fn find_field(fields: &Vec<(String, JsonValue)>, name: &str) -> (r: Option<usize>)
    ensures
        match r {
            Some(k) => k < fields@.len() && field_of(fields@, name@) == Some(fields@[k as int].1),
            None => field_of(fields@, name@) is None,
        },
{
    let mut i: usize = 0;
    while i < fields.len()
        invariant
            i <= fields@.len(),
            forall|j: int| 0 <= j < i ==> fields@[j].0@ != name@,
        decreases fields.len() - i,
    {
        if str_eq(fields[i].0.as_str(), name) {
            proof {
                let k = choose|q: int| 0 <= q < fields@.len() && fields@[q].0@ == name@
                    && forall|j: int| 0 <= j < q ==> fields@[j].0@ != name@;
                if k < i { assert(fields@[k].0@ != name@); }
                if k > i { assert(fields@[i as int].0@ == name@); }
            }
            return Some(i);
        }
        i += 1;
    }
    None
}

/// Whether an imported object lacks a value for a NOT NULL column.
pub open spec fn lacks(fields: Seq<(String, JsonValue)>, c: SColumn) -> bool {
    !c.nullable && field_of(fields, c.name) is None
}

/// The values an imported object gives: for each column its field's value
/// converted to the column's type, or NULL.
pub open spec fn imported_values(cols: Seq<SColumn>, fields: Seq<(String, JsonValue)>) -> Seq<SValue> {
    Seq::new(cols.len(), |i: int| match field_of(fields, cols[i].name) {
        Some(j) => json_value_spec(j, cols[i].col_type)->0,
        None => SValue::Null,
    })
}

/// Builds the row an imported JSON object gives: for each column its field's
/// value (converted to the column's type), NULL for a missing nullable
/// column.  The first NOT NULL column without a field is an error naming it;
/// else the row is accepted exactly when it fits the schema.
pub fn import_row<F: FloatOps>(schema: &TableSchema, fields: &Vec<(String, JsonValue)>, floats: &F) -> (r: Result<Row, String>)
    ensures
        r matches Ok(row) ==> crate::schema::row_fits(schema@.columns, row@)
            && row@ == imported_values(schema@.columns, fields@),
        match crate::schema::first_index(schema@.columns, |c: SColumn| lacks(fields@, c)) {
            Some(k) => r matches Err(m) && m@ == "缺少列 '"@ + schema@.columns[k].name + "' 的值"@,
            None => r is Ok <==> crate::schema::row_fits(schema@.columns, imported_values(schema@.columns, fields@)),
        },
{
    let ghost cols = schema@.columns;
    let ghost p = |c: SColumn| lacks(fields@, c);
    let mut values: Vec<Value> = Vec::new();
    let mut i: usize = 0;
    while i < schema.columns.len()
        invariant
            i <= cols.len(),
            cols == schema@.columns,
            cols.len() == schema.columns@.len(),
            p == (|c: SColumn| lacks(fields@, c)),
            values@.len() == i,
            forall|q: int| 0 <= q < i ==> #[trigger] values@[q]@ == imported_values(cols, fields@)[q],
            forall|q: int| 0 <= q < i ==> !p(#[trigger] cols[q]),
        decreases schema.columns.len() - i,
    {
        let col = &schema.columns[i];
        assert(cols[i as int] == col@);
        match find_field(fields, col.name.as_str()) {
            Some(k) => {
                values.push(json_to_value(&fields[k].1, col.col_type));
            },
            None => {
                if col.nullable {
                    values.push(Value::Null);
                } else {
                    proof {
                        crate::schema::lemma_first_index_unique(cols, p, i as int);
                    }
                    let mut m = String::from_str("缺少列 '");
                    push_str(&mut m, col.name.as_str());
                    push_str(&mut m, "' 的值");
                    proof { reveal_strlit("缺少列 '"); reveal_strlit("' 的值"); }
                    return Err(m);
                }
            },
        }
        i += 1;
    }
    proof {
        if exists|q: int| 0 <= q < cols.len() && p(cols[q]) {
            let q = choose|q: int| 0 <= q < cols.len() && p(cols[q]);
            assert(!p(cols[q]));
        }
        assert(crate::schema::first_index(cols, p) is None);
        assert(crate::types::values_view(values@) =~= imported_values(cols, fields@));
    }
    match schema.validate_row(values.as_slice()) {
        Ok(()) => {},
        Err(e) => {
            return Err(e.message(floats));
        },
    }
    let row = Row { values };
    assert(row@ =~= imported_values(cols, fields@));
    Ok(row)
}

/// A comment as stored: an empty one removes it.
pub open spec fn stored_comment(c: Seq<char>) -> Option<Seq<char>> {
    if c.len() == 0 { None } else { Some(c) }
}

/// The schema a comment request gives: the named column's comment, or the
/// table's when no column is named, set (or removed when empty); `None`
/// when the named column does not exist.
pub open spec fn comment_spec(s: STable, column: Option<Seq<char>>, comment: Seq<char>) -> Option<STable> {
    match column {
        None => Some(STable { comment: stored_comment(comment), ..s }),
        Some(c) => match col_pos(s.columns, c) {
            Some(k) => Some(STable {
                columns: s.columns.update(k, SColumn { comment: stored_comment(comment), ..s.columns[k] }),
                ..s
            }),
            None => None,
        },
    }
}

/// Applies a comment request to a schema; the error is the name of a column
/// that does not exist.
pub fn apply_comment(schema: &TableSchema, req: &CommentRequest) -> (r: Result<TableSchema, String>)
    ensures
        match comment_spec(schema@, match req.column { Some(c) => Some(c@), None => None }, req.comment@) {
            Some(t) => r matches Ok(x) && x@ == t,
            None => r matches Err(n) && req.column matches Some(c) && n@ == c@,
        },
{
    let stored: Option<String> = if req.comment.as_str().is_empty() { None } else { Some(req.comment.clone()) };
    assert(match stored { Some(x) => Some(x@), None => None::<Seq<char>> } == stored_comment(req.comment@));
    let mut out = schema.copy();
    match &req.column {
        None => {
            out.comment = stored;
            Ok(out)
        },
        Some(c) => match schema.col_index(c.as_str()) {
            Some(k) => {
                let mut col = out.columns[k].copy();
                col.comment = stored;
                out.columns.set(k, col);
                proof {
                    assert(out@.columns =~= schema@.columns.update(k as int,
                        SColumn { comment: stored_comment(req.comment@), ..schema@.columns[k as int] }));
                }
                Ok(out)
            },
            None => Err(c.clone()),
        },
    }
}

} // verus!
