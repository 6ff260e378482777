//! Export of a database as SQL text in one of several dialects, and the
//! splitting of SQL text into statements.

use vstd::prelude::*;
use crate::types::{Value, SValue, ColumnType, FloatOps, Row};
use crate::schema::{TableSchema, STable, SColumn};
use crate::float::is_integral;
use crate::strutil::{push_str, push_char, i64_to_string, int_decimal, is_prefix, chars_of, trim, trim_spec, string_from_chars, str_eq, starts_with_chars};
use crate::storage::engine::StorageEngine;
use crate::error::{RustMinidbError, ExecError};

verus! {

broadcast use vstd::string::group_string_axioms;

/// What an export holds and how it is written.
#[derive(Debug, Clone, Copy)]
pub struct ExportConfig {
    /// Whether to write CREATE TABLE statements.
    pub include_create: bool,
    /// Whether to write INSERT statements with the rows.
    pub include_data: bool,
    /// Whether to write DROP TABLE IF EXISTS before each table.
    pub include_drop_table: bool,
    /// Rows per INSERT statement (0: all rows in one statement).
    pub batch_size: usize,
    /// The target dialect.
    pub dialect: SqlDialect,
    /// Whether to wrap the export in a transaction.
    pub wrap_in_transaction: bool,
    /// Whether to write comments.
    pub include_comments: bool,
}

impl Default for ExportConfig {
    fn default() -> (r: Self)
        ensures
            r.include_create && r.include_data && !r.include_drop_table && r.batch_size == 100
                && r.dialect == SqlDialect::Standard && !r.wrap_in_transaction && r.include_comments,
    {
        ExportConfig {
            include_create: true,
            include_data: true,
            include_drop_table: false,
            batch_size: 100,
            dialect: SqlDialect::Standard,
            wrap_in_transaction: false,
            include_comments: true,
        }
    }
}

/// The SQL dialects an export can target.
#[derive(Debug, Clone, Copy, PartialEq, Eq, Structural)]
pub enum SqlDialect {
    /// The database's own SQL.
    Standard,
    /// MySQL.
    MySQL,
    /// PostgreSQL.
    PostgreSQL,
    /// SQLite.
    SQLite,
}

/// The name of a column type in a dialect.
pub open spec fn type_name_spec(d: SqlDialect, t: ColumnType) -> Seq<char> {
    match (d, t) {
        (SqlDialect::MySQL, ColumnType::Integer) => "INT"@,
        (SqlDialect::MySQL, ColumnType::Float) => "DOUBLE"@,
        (SqlDialect::MySQL, ColumnType::Text) => "VARCHAR(65535)"@,
        (SqlDialect::MySQL, ColumnType::Blob) => "LONGBLOB"@,
        (SqlDialect::MySQL, ColumnType::Boolean) => "TINYINT(1)"@,
        (SqlDialect::MySQL, ColumnType::Timestamp) => "DATETIME(6)"@,
        (SqlDialect::PostgreSQL, ColumnType::Integer) => "BIGINT"@,
        (SqlDialect::PostgreSQL, ColumnType::Float) => "DOUBLE PRECISION"@,
        (SqlDialect::PostgreSQL, ColumnType::Text) => "TEXT"@,
        (SqlDialect::PostgreSQL, ColumnType::Blob) => "BYTEA"@,
        (SqlDialect::PostgreSQL, ColumnType::Boolean) => "BOOLEAN"@,
        (SqlDialect::PostgreSQL, ColumnType::Timestamp) => "TIMESTAMP"@,
        (SqlDialect::SQLite, ColumnType::Integer) => "INTEGER"@,
        (SqlDialect::SQLite, ColumnType::Float) => "REAL"@,
        (SqlDialect::SQLite, ColumnType::Text) => "TEXT"@,
        (SqlDialect::SQLite, ColumnType::Blob) => "BLOB"@,
        (SqlDialect::SQLite, ColumnType::Boolean) => "INTEGER"@,
        (SqlDialect::SQLite, ColumnType::Timestamp) => "TEXT"@,
        (SqlDialect::Standard, ColumnType::Integer) => "INTEGER"@,
        (SqlDialect::Standard, ColumnType::Float) => "FLOAT"@,
        (SqlDialect::Standard, ColumnType::Text) => "TEXT"@,
        (SqlDialect::Standard, ColumnType::Blob) => "BLOB"@,
        (SqlDialect::Standard, ColumnType::Boolean) => "BOOLEAN"@,
        (SqlDialect::Standard, ColumnType::Timestamp) => "TIMESTAMP"@,
        _ => "TEXT"@,
    }
}

/// An identifier quoted for a dialect: backticks for MySQL and SQLite,
/// double quotes for PostgreSQL, none for the database's own SQL.
pub open spec fn quote_spec(d: SqlDialect, name: Seq<char>) -> Seq<char> {
    match d {
        SqlDialect::MySQL => seq!['`'] + name + seq!['`'],
        SqlDialect::PostgreSQL => seq!['"'] + name + seq!['"'],
        SqlDialect::SQLite => seq!['`'] + name + seq!['`'],
        SqlDialect::Standard => name,
    }
}

/// Text with every `'` doubled.
pub open spec fn escape_quotes(s: Seq<char>) -> Seq<char>
    decreases s.len(),
{
    if s.len() == 0 {
        Seq::empty()
    } else {
        escape_quotes(s.drop_last()) + if s.last() == '\'' { seq!['\'', '\''] } else { seq![s.last()] }
    }
}

/// The lower-case hexadecimal digit for `d`.
pub open spec fn hex_digit(d: nat) -> char {
    if d < 10 { (('0' as nat) + d) as char } else { (('a' as nat) + d - 10) as char }
}

/// The lower-case hexadecimal text of bytes, two digits per byte.
pub open spec fn hex_lower(b: Seq<u8>) -> Seq<char>
    decreases b.len(),
{
    if b.len() == 0 {
        Seq::empty()
    } else {
        hex_lower(b.drop_last()) + seq![hex_digit((b.last() / 16) as nat), hex_digit((b.last() % 16) as nat)]
    }
}

/// `hex::encode`: the lower-case hexadecimal text of the bytes.
#[verifier::external_body]
fn hex_encode(b: &[u8]) -> (r: String)
    ensures
        r@ == hex_lower(b@),
{
    hex::encode(b)
}

/// The lower-case hexadecimal text of bytes.
pub fn hex_text(b: &[u8]) -> (r: String)
    ensures
        r@ == hex_lower(b@),
{
    hex_encode(b)
}

/// The `%Y-%m-%d %H:%M:%S` text (UTC) of a time given in microseconds since
/// the Unix epoch, when it lies within the range of dates chrono represents.
pub uninterp spec fn utc_datetime_text(micros: i64) -> Option<Seq<char>>;

/// `chrono::DateTime::from_timestamp_micros`, formatted as `%Y-%m-%d %H:%M:%S`.
#[verifier::external_body]
pub(crate) fn format_timestamp(micros: i64) -> (r: Option<String>)
    ensures
        match r {
            Some(s) => utc_datetime_text(micros) == Some(s@),
            None => utc_datetime_text(micros) is None,
        },
{
    match chrono::DateTime::from_timestamp_micros(micros) {
        Some(dt) => Some(dt.format("%Y-%m-%d %H:%M:%S").to_string()),
        None => None,
    }
}

/// The SQL literal of a value other than a float in a dialect.
pub open spec fn literal_spec(d: SqlDialect, v: SValue) -> Seq<char> {
    match v {
        SValue::Integer(i) => int_decimal(i as int),
        SValue::Text(s) => seq!['\''] + escape_quotes(s) + seq!['\''],
        SValue::Blob(b) => if d == SqlDialect::PostgreSQL {
            "'\\x"@ + hex_lower(b) + seq!['\'']
        } else {
            "X'"@ + hex_lower(b) + seq!['\'']
        },
        SValue::Boolean(x) => if d == SqlDialect::PostgreSQL {
            if x { "TRUE"@ } else { "FALSE"@ }
        } else {
            if x { "1"@ } else { "0"@ }
        },
        SValue::Timestamp(t) => seq!['\''] + match utc_datetime_text(t) {
            Some(s) => s,
            None => "1970-01-01 00:00:00"@,
        } + seq!['\''],
        SValue::Null => "NULL"@,
        SValue::Float(_) => Seq::empty(),
    }
}

/// Whether the float with bits `b` is NaN.
pub open spec fn is_nan(b: u64) -> bool {
    crate::float::exp_field(b) == 2047 && crate::float::frac_field(b) != 0
}

/// Whether a float's text starts with a minus sign: its sign bit is set and
/// it is not NaN (`-0` and `-inf` carry the sign too).
pub open spec fn shows_minus(b: u64) -> bool {
    b >= 0x8000_0000_0000_0000 && !is_nan(b)
}

/// Whether `s` is the SQL literal of a float with bits `b`, given the host's
/// text `d` of the float's magnitude (its bits with the sign bit cleared): a
/// minus sign when the float shows one, then `d`, then `.0` when the float is
/// integral.
pub open spec fn float_literal(b: u64, d: Seq<char>, s: Seq<char>) -> bool {
    s == (if shows_minus(b) { "-"@ } else { Seq::empty() }) + d + (if is_integral(b) { ".0"@ } else { Seq::empty() })
}

/// The literal of a float carries the float's sign and the host's text of its
/// magnitude. For a negative float other than NaN it is a minus sign followed
/// by that text; for any other float it begins with that text. It ends in
/// `.0` when the float is integral, and holds nothing more.
pub proof fn law_float_literal_sign(b: u64, d: Seq<char>, s: Seq<char>)
    requires
        float_literal(b, d, s),
    ensures
        b >= 0x8000_0000_0000_0000 && !(crate::float::exp_field(b) == 2047 && crate::float::frac_field(b) != 0)
            ==> s.len() > d.len() && s[0] == '-' && s.subrange(1, d.len() + 1int) == d,
        b < 0x8000_0000_0000_0000 || (crate::float::exp_field(b) == 2047 && crate::float::frac_field(b) != 0)
            ==> s.len() >= d.len() && s.subrange(0, d.len() as int) == d,
        is_integral(b) ==> s.len() >= 2 && s.subrange(s.len() - 2, s.len() as int) == ".0"@,
        s.len() == d.len() + (if shows_minus(b) { 1int } else { 0 }) + (if is_integral(b) { 2int } else { 0 }),
{
    reveal_strlit("-");
    reveal_strlit(".0");
    let m: Seq<char> = if shows_minus(b) { "-"@ } else { Seq::empty() };
    let t: Seq<char> = if is_integral(b) { ".0"@ } else { Seq::empty() };
    assert(s == m + d + t);
    assert(s.len() == m.len() + d.len() + t.len());
    if shows_minus(b) {
        assert(s.subrange(1, d.len() + 1int) =~= d);
    } else {
        assert(s.subrange(0, d.len() as int) =~= d);
    }
    if is_integral(b) {
        assert(s.subrange(s.len() - 2, s.len() as int) =~= ".0"@);
    }
}

/// Whether the float with bits `b` shows a minus sign.
pub fn float_shows_minus(b: u64) -> (r: bool)
    ensures
        r == shows_minus(b),
{
    let e = (b / 4503599627370496u64) % 2048;
    let f = b % 4503599627370496u64;
    b >= 0x8000_0000_0000_0000u64 && !(e == 2047 && f != 0)
}

/// The SQL literal of a float with bits `b`, given the host's text `d` of its
/// magnitude.
pub fn float_literal_text(b: u64, d: &str) -> (r: String)
    ensures
        float_literal(b, d@, r@),
{
    let mut s = if float_shows_minus(b) { String::from_str("-") } else { String::new() };
    push_str(&mut s, d);
    if crate::float::float_is_integral(b) {
        push_str(&mut s, ".0");
    }
    s
}

impl SqlDialect {
    /// The name of a column type in this dialect.
    pub fn column_type_name(&self, col_type: &ColumnType) -> (s: &'static str)
        ensures
            s@ == type_name_spec(*self, *col_type),
    {
        match (self, col_type) {
            (SqlDialect::MySQL, ColumnType::Integer) => "INT",
            (SqlDialect::MySQL, ColumnType::Float) => "DOUBLE",
            (SqlDialect::MySQL, ColumnType::Text) => "VARCHAR(65535)",
            (SqlDialect::MySQL, ColumnType::Blob) => "LONGBLOB",
            (SqlDialect::MySQL, ColumnType::Boolean) => "TINYINT(1)",
            (SqlDialect::MySQL, ColumnType::Timestamp) => "DATETIME(6)",
            (SqlDialect::PostgreSQL, ColumnType::Integer) => "BIGINT",
            (SqlDialect::PostgreSQL, ColumnType::Float) => "DOUBLE PRECISION",
            (SqlDialect::PostgreSQL, ColumnType::Text) => "TEXT",
            (SqlDialect::PostgreSQL, ColumnType::Blob) => "BYTEA",
            (SqlDialect::PostgreSQL, ColumnType::Boolean) => "BOOLEAN",
            (SqlDialect::PostgreSQL, ColumnType::Timestamp) => "TIMESTAMP",
            (SqlDialect::SQLite, ColumnType::Integer) => "INTEGER",
            (SqlDialect::SQLite, ColumnType::Float) => "REAL",
            (SqlDialect::SQLite, ColumnType::Text) => "TEXT",
            (SqlDialect::SQLite, ColumnType::Blob) => "BLOB",
            (SqlDialect::SQLite, ColumnType::Boolean) => "INTEGER",
            (SqlDialect::SQLite, ColumnType::Timestamp) => "TEXT",
            (SqlDialect::Standard, ColumnType::Integer) => "INTEGER",
            (SqlDialect::Standard, ColumnType::Float) => "FLOAT",
            (SqlDialect::Standard, ColumnType::Text) => "TEXT",
            (SqlDialect::Standard, ColumnType::Blob) => "BLOB",
            (SqlDialect::Standard, ColumnType::Boolean) => "BOOLEAN",
            (SqlDialect::Standard, ColumnType::Timestamp) => "TIMESTAMP",
            _ => "TEXT",
        }
    }

    /// An identifier quoted for this dialect.
    pub fn quote_identifier(&self, name: &str) -> (s: String)
        ensures
            s@ == quote_spec(*self, name@),
    {
        match self {
            SqlDialect::MySQL | SqlDialect::SQLite => {
                let mut s = String::new();
                push_char(&mut s, '`');
                push_str(&mut s, name);
                push_char(&mut s, '`');
                s
            },
            SqlDialect::PostgreSQL => {
                let mut s = String::new();
                push_char(&mut s, '"');
                push_str(&mut s, name);
                push_char(&mut s, '"');
                s
            },
            SqlDialect::Standard => name.to_owned(),
        }
    }

    /// The SQL literal of a value in this dialect; a float is written with
    /// its sign and the host's text of its magnitude.
    pub fn format_value<F: FloatOps>(&self, val: &Value, floats: &F) -> (r: String)
        ensures
            !(val@ is Float) ==> r@ == literal_spec(*self, val@),
            val@ matches SValue::Float(b) ==> exists|d: Seq<char>| #[trigger] float_literal(b, d, r@),
    {
        match val {
            Value::Float(b) => {
                let d = floats.display(*b % 0x8000_0000_0000_0000u64);
                let s = float_literal_text(*b, d.as_str());
                assert(val@ == SValue::Float(*b));
                assert(val@ matches SValue::Float(bb) && bb == *b);
                s
            },
            _ => self.format_plain(val),
        }
    }

    /// The SQL literal of a value other than a float.
    fn format_plain(&self, val: &Value) -> (s: String)
        requires
            !(val@ is Float),
        ensures
            s@ == literal_spec(*self, val@),
    {
        match val {
            Value::Integer(v) => i64_to_string(*v),
            Value::Text(t) => {
                let mut s = String::new();
                push_char(&mut s, '\'');
                push_escaped(&mut s, t.as_str());
                push_char(&mut s, '\'');
                s
            },
            Value::Blob(b) => {
                let h = hex_encode(b.as_slice());
                let mut s = if *self == SqlDialect::PostgreSQL { String::from_str("'\\x") } else { String::from_str("X'") };
                push_str(&mut s, h.as_str());
                push_char(&mut s, '\'');
                s
            },
            Value::Boolean(x) => {
                if *self == SqlDialect::PostgreSQL {
                    if *x { String::from_str("TRUE") } else { String::from_str("FALSE") }
                } else {
                    if *x { String::from_str("1") } else { String::from_str("0") }
                }
            },
            Value::Timestamp(t) => {
                let text = match format_timestamp(*t) {
                    Some(x) => x,
                    None => String::from_str("1970-01-01 00:00:00"),
                };
                let mut s = String::new();
                push_char(&mut s, '\'');
                push_str(&mut s, text.as_str());
                push_char(&mut s, '\'');
                s
            },
            Value::Null => String::from_str("NULL"),
            Value::Float(_) => String::new(),
        }
    }

    /// The keyword of an auto-incrementing column in this dialect.
    pub fn auto_increment(&self) -> (s: &'static str)
        ensures
            s@ == match *self {
                SqlDialect::PostgreSQL => "GENERATED BY DEFAULT AS IDENTITY"@,
                SqlDialect::SQLite => "AUTOINCREMENT"@,
                _ => "AUTO_INCREMENT"@,
            },
    {
        match self {
            SqlDialect::MySQL => "AUTO_INCREMENT",
            SqlDialect::PostgreSQL => "GENERATED BY DEFAULT AS IDENTITY",
            SqlDialect::SQLite => "AUTOINCREMENT",
            SqlDialect::Standard => "AUTO_INCREMENT",
        }
    }

    /// The table options written after CREATE TABLE in this dialect.
    pub fn table_options_suffix(&self) -> (s: &'static str)
        ensures
            s@ == if *self == SqlDialect::MySQL { " ENGINE=InnoDB DEFAULT CHARSET=utf8mb4"@ } else { ""@ },
    {
        match self {
            SqlDialect::MySQL => " ENGINE=InnoDB DEFAULT CHARSET=utf8mb4",
            _ => "",
        }
    }

    /// The statement that opens a transaction.
    pub fn begin_transaction(&self) -> (s: &'static str)
        ensures
            s@ == "BEGIN;\n"@,
    {
        "BEGIN;\n"
    }

    /// The statement that commits a transaction.
    pub fn commit_transaction(&self) -> (s: &'static str)
        ensures
            s@ == "COMMIT;\n"@,
    {
        "COMMIT;\n"
    }
}

/// Appends text with every `'` doubled.
fn push_escaped(s: &mut String, t: &str)
    ensures
        final(s)@ == old(s)@ + escape_quotes(t@),
{
    let v = chars_of(t);
    let mut i: usize = 0;
    while i < v.len()
        invariant
            i <= v@.len(),
            v@ == t@,
            s@ == old(s)@ + escape_quotes(v@.take(i as int)),
        decreases v.len() - i,
    {
        proof {
            assert(v@.take(i + 1).drop_last() =~= v@.take(i as int));
        }
        if v[i] == '\'' {
            push_char(s, '\'');
            push_char(s, '\'');
        } else {
            push_char(s, v[i]);
        }
        i += 1;
        assert(s@ =~= old(s)@ + escape_quotes(v@.take(i as int)));
    }
    assert(v@.take(i as int) =~= v@);
}

/// The parts joined with a separator between each two.
pub open spec fn join(parts: Seq<Seq<char>>, sep: Seq<char>) -> Seq<char>
    decreases parts.len(),
{
    if parts.len() == 0 {
        Seq::empty()
    } else if parts.len() == 1 {
        parts[0]
    } else {
        join(parts.drop_last(), sep) + sep + parts.last()
    }
}

/// Whether a value is a float.
pub open spec fn is_float(v: SValue) -> bool {
    v is Float
}

/// Whether no column has a float default.
pub open spec fn no_float_defaults(cols: Seq<SColumn>) -> bool {
    forall|i: int| 0 <= i < cols.len() ==> !((#[trigger] cols[i]).default matches Some(v) && is_float(v))
}

/// The definition of a column in CREATE TABLE: name and type; the primary
/// key marked on the column (for an integer key, as an identity column in
/// PostgreSQL and auto-increment NOT NULL in MySQL); NULL or NOT NULL on the
/// other columns; then the default and the comment.
pub open spec fn column_def_spec(d: SqlDialect, c: SColumn) -> Seq<char> {
    let base = "    "@ + quote_spec(d, c.name) + " "@ + type_name_spec(d, c.col_type);
    let with_key = if c.is_primary_key {
        if d == SqlDialect::PostgreSQL && c.col_type == ColumnType::Integer {
            base + " "@ + "GENERATED BY DEFAULT AS IDENTITY"@
        } else if d == SqlDialect::MySQL && c.col_type == ColumnType::Integer {
            base + " AUTO_INCREMENT NOT NULL"@
        } else {
            base + " PRIMARY KEY"@
        }
    } else if !c.nullable {
        base + " NOT NULL"@
    } else {
        base + " NULL"@
    };
    let with_default = match c.default {
        Some(v) => with_key + " DEFAULT "@ + literal_spec(d, v),
        None => with_key,
    };
    match c.comment {
        Some(m) => if d == SqlDialect::MySQL {
            with_default + " COMMENT '"@ + escape_quotes(m) + "'"@
        } else {
            with_default + " /* "@ + m + " */"@
        },
        None => with_default,
    }
}

/// The quoted names of the primary-key columns, in order.
pub open spec fn pk_names(d: SqlDialect, cols: Seq<SColumn>) -> Seq<Seq<char>>
    decreases cols.len(),
{
    if cols.len() == 0 {
        Seq::empty()
    } else if cols.last().is_primary_key {
        pk_names(d, cols.drop_last()).push(quote_spec(d, cols.last().name))
    } else {
        pk_names(d, cols.drop_last())
    }
}

/// The CREATE TABLE statement of a schema in a dialect (a table-level
/// PRIMARY KEY clause unless the key is a single PostgreSQL column; the table
/// comment as ALTER TABLE in MySQL, as a leading comment elsewhere).
pub open spec fn create_table_spec(d: SqlDialect, s: STable) -> Seq<char> {
    let pks = pk_names(d, s.columns);
    let head = "CREATE TABLE IF NOT EXISTS "@ + quote_spec(d, s.name) + " (\n"@;
    let defs = join(s.columns.map_values(|c: SColumn| column_def_spec(d, c)), ",\n"@);
    let pk_part = if pks.len() > 1 || (d != SqlDialect::PostgreSQL && pks.len() > 0) {
        ",\n"@ + "    PRIMARY KEY ("@ + join(pks, ", "@) + ")"@
    } else {
        Seq::empty()
    };
    let options = if d == SqlDialect::MySQL { " ENGINE=InnoDB DEFAULT CHARSET=utf8mb4"@ } else { Seq::empty() };
    let body = head + defs + pk_part + "\n)"@ + options + ";"@;
    match s.comment {
        Some(m) => if d == SqlDialect::MySQL {
            body + "\nALTER TABLE "@ + quote_spec(d, s.name) + " COMMENT = '"@ + escape_quotes(m) + "';"@
        } else {
            "/* "@ + m + " */\n"@ + body
        },
        None => body,
    }
}

proof fn lemma_join_step(parts: Seq<Seq<char>>, sep: Seq<char>, i: int)
    requires
        0 <= i < parts.len(),
    ensures
        join(parts.take(i + 1), sep) == if i == 0 { parts[0] } else { join(parts.take(i), sep) + sep + parts[i] },
{
    assert(parts.take(i + 1).drop_last() =~= parts.take(i));
    assert(parts.take(i + 1).last() == parts[i]);
    if i == 0 {
        assert(parts.take(1)[0] == parts[0]);
    }
}

/// The definition of a column in CREATE TABLE; a float default is written
/// with the host's text of it.
fn column_def<F: FloatOps>(d: SqlDialect, col: &crate::types::ColumnDef, floats: &F) -> (r: String)
    ensures
        !(col@.default matches Some(v) && is_float(v)) ==> r@ == column_def_spec(d, col@),
{
    let mut def = String::from_str("    ");
    push_str(&mut def, d.quote_identifier(col.name.as_str()).as_str());
    push_str(&mut def, " ");
    push_str(&mut def, d.column_type_name(&col.col_type));
    if col.is_primary_key {
        if d == SqlDialect::PostgreSQL && col.col_type == ColumnType::Integer {
            push_str(&mut def, " ");
            push_str(&mut def, d.auto_increment());
        } else if d == SqlDialect::MySQL && col.col_type == ColumnType::Integer {
            push_str(&mut def, " ");
            push_str(&mut def, d.auto_increment());
            push_str(&mut def, " NOT NULL");
            proof { reveal_strlit(" "); reveal_strlit("AUTO_INCREMENT"); reveal_strlit(" NOT NULL"); reveal_strlit(" AUTO_INCREMENT NOT NULL"); }
        } else {
            push_str(&mut def, " PRIMARY KEY");
        }
    } else if !col.nullable {
        push_str(&mut def, " NOT NULL");
    } else {
        push_str(&mut def, " NULL");
    }
    match &col.default {
        Some(v) => {
            push_str(&mut def, " DEFAULT ");
            push_str(&mut def, d.format_value(v, floats).as_str());
        },
        None => {},
    }
    match &col.comment {
        Some(m) => {
            if d == SqlDialect::MySQL {
                push_str(&mut def, " COMMENT '");
                push_escaped(&mut def, m.as_str());
                push_str(&mut def, "'");
            } else {
                push_str(&mut def, " /* ");
                push_str(&mut def, m.as_str());
                push_str(&mut def, " */");
            }
        },
        None => {},
    }
    def
}

/// The CREATE TABLE statement of a schema; float defaults are written with
/// the host's text of them.
pub fn create_table_sql<F: FloatOps>(d: SqlDialect, schema: &TableSchema, floats: &F) -> (r: String)
    ensures
        no_float_defaults(schema@.columns) ==> r@ == create_table_spec(d, schema@),
{
    let ghost cols = schema@.columns;
    let ghost defs = cols.map_values(|c: SColumn| column_def_spec(d, c));
    let mut sql = String::from_str("CREATE TABLE IF NOT EXISTS ");
    push_str(&mut sql, d.quote_identifier(schema.name.as_str()).as_str());
    push_str(&mut sql, " (\n");
    let ghost head = sql@;
    let mut i: usize = 0;
    while i < schema.columns.len()
        invariant
            i <= cols.len(),
            cols == schema@.columns,
            defs == cols.map_values(|c: SColumn| column_def_spec(d, c)),
            no_float_defaults(cols) ==> sql@ == head + join(defs.take(i as int), ",\n"@),
        decreases schema.columns.len() - i,
    {
        assert(cols[i as int] == schema.columns@[i as int]@);
        proof { lemma_join_step(defs, ",\n"@, i as int); }
        if i > 0 {
            push_str(&mut sql, ",\n");
        }
        let def = column_def(d, &schema.columns[i], floats);
        push_str(&mut sql, def.as_str());
        i += 1;
    }
    assert(defs.take(i as int) =~= defs);
    let ghost after_defs = sql@;
    let mut pks: Vec<String> = Vec::new();
    let mut j: usize = 0;
    while j < schema.columns.len()
        invariant
            j <= cols.len(),
            cols == schema@.columns,
            pks@.map_values(|x: String| x@) == pk_names(d, cols.take(j as int)),
        decreases schema.columns.len() - j,
    {
        assert(cols[j as int] == schema.columns@[j as int]@);
        proof {
            assert(cols.take(j + 1).drop_last() =~= cols.take(j as int));
        }
        if schema.columns[j].is_primary_key {
            pks.push(d.quote_identifier(schema.columns[j].name.as_str()));
        }
        assert(pks@.map_values(|x: String| x@) =~= pk_names(d, cols.take(j + 1)));
        j += 1;
    }
    assert(cols.take(j as int) =~= cols);
    let ghost pkv = pk_names(d, cols);
    if pks.len() > 1 || (d != SqlDialect::PostgreSQL && pks.len() > 0) {
        push_str(&mut sql, ",\n");
        push_str(&mut sql, "    PRIMARY KEY (");
        let ghost before = sql@;
        let mut k: usize = 0;
        while k < pks.len()
            invariant
                k <= pks@.len(),
                pkv == pks@.map_values(|x: String| x@),
                sql@ == before + join(pkv.take(k as int), ", "@),
            decreases pks.len() - k,
        {
            proof { lemma_join_step(pkv, ", "@, k as int); }
            if k > 0 {
                push_str(&mut sql, ", ");
            }
            push_str(&mut sql, pks[k].as_str());
            k += 1;
        }
        assert(pkv.take(k as int) =~= pkv);
        push_str(&mut sql, ")");
    }
    push_str(&mut sql, "\n)");
    push_str(&mut sql, d.table_options_suffix());
    push_char(&mut sql, ';');
    proof { reveal_strlit(";"); reveal_strlit(""); }
    let ghost body = sql@;
    match &schema.comment {
        Some(m) => {
            if d == SqlDialect::MySQL {
                push_str(&mut sql, "\nALTER TABLE ");
                push_str(&mut sql, d.quote_identifier(schema.name.as_str()).as_str());
                push_str(&mut sql, " COMMENT = '");
                push_escaped(&mut sql, m.as_str());
                push_str(&mut sql, "';");
            } else {
                let mut out = String::from_str("/* ");
                push_str(&mut out, m.as_str());
                push_str(&mut out, " */\n");
                push_str(&mut out, sql.as_str());
                sql = out;
            }
        },
        None => {},
    }
    sql
}

/// The literal of a row: its values' literals in parentheses.
pub open spec fn row_literal(d: SqlDialect, r: Seq<SValue>) -> Seq<char> {
    "("@ + join(r.map_values(|v: SValue| literal_spec(d, v)), ", "@) + ")"@
}

/// One INSERT statement for rows.
pub open spec fn single_insert_spec(d: SqlDialect, table: Seq<char>, cols_part: Seq<char>, rows: Seq<Seq<SValue>>) -> Seq<char> {
    "INSERT INTO "@ + quote_spec(d, table) + " ("@ + cols_part + ") VALUES\n"@
        + join(rows.map_values(|r: Seq<SValue>| row_literal(d, r)), ",\n"@) + ";"@
}

/// INSERT statements for rows in chunks of `b`, each followed by a newline.
pub open spec fn chunked_inserts(d: SqlDialect, table: Seq<char>, cols_part: Seq<char>, rows: Seq<Seq<SValue>>, b: nat) -> Seq<char>
    decreases rows.len(),
{
    if rows.len() == 0 || b == 0 {
        Seq::empty()
    } else if rows.len() <= b {
        single_insert_spec(d, table, cols_part, rows) + "\n"@
    } else {
        single_insert_spec(d, table, cols_part, rows.take(b as int)) + "\n"@
            + chunked_inserts(d, table, cols_part, rows.skip(b as int), b)
    }
}

/// The INSERT statements of a table's rows: none for no rows, one statement
/// when the batch size is 0 or covers all rows, else one per batch.
pub open spec fn insert_data_spec(d: SqlDialect, b: usize, s: STable, rows: Seq<Seq<SValue>>) -> Seq<char> {
    let cols_part = join(s.columns.map_values(|c: SColumn| quote_spec(d, c.name)), ", "@);
    if rows.len() == 0 {
        Seq::empty()
    } else if b == 0 || b >= rows.len() {
        single_insert_spec(d, s.name, cols_part, rows)
    } else {
        chunked_inserts(d, s.name, cols_part, rows, b as nat)
    }
}

/// Whether no row holds a float.
pub open spec fn rows_float_free(rows: Seq<Seq<SValue>>) -> bool {
    forall|i: int, j: int| 0 <= i < rows.len() && 0 <= j < rows[i].len() ==> !is_float(#[trigger] rows[i][j])
}

/// The literal of a row; floats are written with the host's text of them.
fn row_text<F: FloatOps>(d: SqlDialect, row: &Row, floats: &F) -> (r: String)
    ensures
        (forall|j: int| 0 <= j < row@.len() ==> !is_float(#[trigger] row@[j])) ==> r@ == row_literal(d, row@),
{
    let ghost lits = row@.map_values(|v: SValue| literal_spec(d, v));
    let ghost ff = forall|j: int| 0 <= j < row@.len() ==> !is_float(#[trigger] row@[j]);
    let mut s = String::from_str("(");
    let ghost head = s@;
    let mut i: usize = 0;
    while i < row.values.len()
        invariant
            i <= row.values@.len(),
            row@.len() == row.values@.len(),
            lits == row@.map_values(|v: SValue| literal_spec(d, v)),
            ff == forall|j: int| 0 <= j < row@.len() ==> !is_float(#[trigger] row@[j]),
            ff ==> s@ == head + join(lits.take(i as int), ", "@),
        decreases row.values.len() - i,
    {
        proof { lemma_join_step(lits, ", "@, i as int); }
        assert(row@[i as int] == row.values@[i as int]@);
        if i > 0 {
            push_str(&mut s, ", ");
        }
        let t = d.format_value(&row.values[i], floats);
        push_str(&mut s, t.as_str());
        i += 1;
    }
    assert(lits.take(i as int) =~= lits);
    push_str(&mut s, ")");
    s
}

/// One INSERT statement for the rows `rows[from..to]`.
fn single_insert<F: FloatOps>(d: SqlDialect, table: &str, cols_part: &str, rows: &Vec<Row>, from: usize, to: usize, floats: &F) -> (r: String)
    requires
        from <= to <= rows@.len(),
    ensures
        rows_float_free(crate::sql::rows::rows_view(rows@)) ==> r@ == single_insert_spec(d, table@, cols_part@,
            crate::sql::rows::rows_view(rows@).subrange(from as int, to as int)),
{
    let ghost rv = crate::sql::rows::rows_view(rows@);
    let ghost sub = rv.subrange(from as int, to as int);
    let ghost parts = sub.map_values(|r: Seq<SValue>| row_literal(d, r));
    let mut s = String::from_str("INSERT INTO ");
    push_str(&mut s, d.quote_identifier(table).as_str());
    push_str(&mut s, " (");
    push_str(&mut s, cols_part);
    push_str(&mut s, ") VALUES\n");
    let ghost head = s@;
    let mut i: usize = from;
    while i < to
        invariant
            from <= i <= to <= rows@.len(),
            rv == crate::sql::rows::rows_view(rows@),
            sub == rv.subrange(from as int, to as int),
            parts == sub.map_values(|r: Seq<SValue>| row_literal(d, r)),
            rows_float_free(rv) ==> s@ == head + join(parts.take(i - from), ",\n"@),
        decreases to - i,
    {
        proof { lemma_join_step(parts, ",\n"@, i - from); }
        assert(rv[i as int] == rows@[i as int]@);
        assert(sub[i - from] == rv[i as int]);
        if i > from {
            push_str(&mut s, ",\n");
        }
        let t = row_text(d, &rows[i], floats);
        proof {
            if rows_float_free(rv) {
                assert forall|j: int| 0 <= j < rows@[i as int]@.len() implies !is_float(#[trigger] rows@[i as int]@[j]) by {
                    assert(rv[i as int][j] == rows@[i as int]@[j]);
                }
            }
        }
        push_str(&mut s, t.as_str());
        i += 1;
    }
    assert(parts.take(to - from) =~= parts);
    push_str(&mut s, ";");
    s
}

/// The INSERT statements of a table's rows; floats are written with the
/// host's text of them.
pub fn insert_data_sql<F: FloatOps>(d: SqlDialect, batch_size: usize, schema: &TableSchema, rows: &Vec<Row>, floats: &F) -> (r: String)
    ensures
        rows_float_free(crate::sql::rows::rows_view(rows@)) ==> r@ == insert_data_spec(d, batch_size, schema@,
            crate::sql::rows::rows_view(rows@)),
{
    let ghost rv = crate::sql::rows::rows_view(rows@);
    if rows.len() == 0 {
        return String::new();
    }
    let ghost names = schema@.columns.map_values(|c: SColumn| quote_spec(d, c.name));
    let mut cols_part = String::new();
    let mut i: usize = 0;
    while i < schema.columns.len()
        invariant
            i <= schema@.columns.len(),
            names == schema@.columns.map_values(|c: SColumn| quote_spec(d, c.name)),
            cols_part@ == join(names.take(i as int), ", "@),
        decreases schema.columns.len() - i,
    {
        proof { lemma_join_step(names, ", "@, i as int); }
        assert(schema@.columns[i as int] == schema.columns@[i as int]@);
        if i > 0 {
            push_str(&mut cols_part, ", ");
        }
        push_str(&mut cols_part, d.quote_identifier(schema.columns[i].name.as_str()).as_str());
        i += 1;
    }
    assert(names.take(i as int) =~= names);
    let n = rows.len();
    if batch_size == 0 || batch_size >= n {
        assert(rv.subrange(0, n as int) =~= rv);
        return single_insert(d, schema.name.as_str(), cols_part.as_str(), rows, 0, n, floats);
    }
    let mut sql = String::new();
    let mut k: usize = 0;
    assert(rv.skip(0) =~= rv);
    assert(sql@ + chunked_inserts(d, schema@.name, cols_part@, rv, batch_size as nat)
        =~= chunked_inserts(d, schema@.name, cols_part@, rv, batch_size as nat));
    while k < n
        invariant
            k <= n,
            n == rows@.len(),
            0 < batch_size < n,
            rv == crate::sql::rows::rows_view(rows@),
            rows_float_free(rv) ==> sql@ + chunked_inserts(d, schema@.name, cols_part@, rv.skip(k as int), batch_size as nat)
                == chunked_inserts(d, schema@.name, cols_part@, rv, batch_size as nat),
        decreases n - k,
    {
        let end = if n - k <= batch_size { n } else { k + batch_size };
        let t = single_insert(d, schema.name.as_str(), cols_part.as_str(), rows, k, end, floats);
        proof {
            let rest = rv.skip(k as int);
            if end == n {
                assert(rest =~= rv.subrange(k as int, n as int));
            } else {
                assert(rest.take(batch_size as int) =~= rv.subrange(k as int, end as int));
                assert(rest.skip(batch_size as int) =~= rv.skip(end as int));
            }
            if end == n {
                assert(rv.skip(end as int).len() == 0);
            }
        }
        let ghost before = sql@;
        push_str(&mut sql, t.as_str());
        push_str(&mut sql, "\n");
        proof {
            if rows_float_free(rv) {
                if end == n {
                    assert(chunked_inserts(d, schema@.name, cols_part@, rv.skip(end as int), batch_size as nat) == Seq::<char>::empty());
                    assert(sql@ + chunked_inserts(d, schema@.name, cols_part@, rv.skip(end as int), batch_size as nat) =~= sql@);
                    assert(before + chunked_inserts(d, schema@.name, cols_part@, rv.skip(k as int), batch_size as nat) =~= sql@);
                } else {
                    let c1 = chunked_inserts(d, schema@.name, cols_part@, rv.skip(end as int), batch_size as nat);
                    assert(before + chunked_inserts(d, schema@.name, cols_part@, rv.skip(k as int), batch_size as nat) =~= sql@ + c1);
                }
            }
        }
        k = end;
    }
    proof {
        if rows_float_free(rv) {
            assert(sql@ + Seq::<char>::empty() =~= sql@);
        }
    }
    sql
}

/// The state of the statement splitter after some characters.
pub struct SplitState {
    /// The statements found so far.
    pub statements: Seq<Seq<char>>,
    /// The text of the statement being read.
    pub current: Seq<char>,
    /// Whether the reader is inside a quoted string.
    pub in_string: bool,
    /// The quote that opened the string.
    pub quote: char,
    /// The previous character.
    pub prev: char,
}

/// The splitter's state after one more character: a quote opens a string
/// that the same quote closes unless a backslash precedes it; outside
/// strings, `;` ends a statement (kept when not blank after trimming), and a
/// line break drops the current text when it is a `--` comment.
pub open spec fn split_step(st: SplitState, ch: char) -> SplitState {
    if st.in_string {
        SplitState {
            current: st.current.push(ch),
            in_string: !(ch == st.quote && st.prev != '\\'),
            prev: ch,
            ..st
        }
    } else if ch == '\'' || ch == '"' {
        SplitState { current: st.current.push(ch), in_string: true, quote: ch, prev: ch, ..st }
    } else if ch == ';' {
        let t = trim_spec(st.current);
        SplitState {
            statements: if t.len() > 0 { st.statements.push(t) } else { st.statements },
            current: Seq::empty(),
            prev: ch,
            ..st
        }
    } else if ch == '\n' || ch == '\r' {
        SplitState {
            current: if is_prefix("--"@, trim_spec(st.current)) { Seq::empty() } else { st.current.push(ch) },
            prev: ch,
            ..st
        }
    } else {
        SplitState { current: st.current.push(ch), prev: ch, ..st }
    }
}

/// The splitter's state after the characters.
pub open spec fn split_fold(s: Seq<char>) -> SplitState
    decreases s.len(),
{
    if s.len() == 0 {
        SplitState { statements: Seq::empty(), current: Seq::empty(), in_string: false, quote: '\'', prev: '\0' }
    } else {
        split_step(split_fold(s.drop_last()), s.last())
    }
}

/// The statements of SQL text: those the splitter ends with `;`, then the
/// trimmed rest unless it is blank, a `--` comment, `BEGIN` or `COMMIT`.
pub open spec fn split_spec(s: Seq<char>) -> Seq<Seq<char>> {
    let st = split_fold(s);
    let t = trim_spec(st.current);
    if t.len() > 0 && !is_prefix("--"@, t) && t != "BEGIN"@ && t != "COMMIT"@ {
        st.statements.push(t)
    } else {
        st.statements
    }
}

/// Splits SQL text into statements.
pub fn split_sql_statements(sql: &str) -> (r: Vec<String>)
    ensures
        r@.map_values(|x: String| x@) == split_spec(sql@),
{
    let chars = chars_of(sql);
    let mut statements: Vec<String> = Vec::new();
    let mut current = String::new();
    let mut in_string = false;
    let mut quote: char = '\'';
    let mut prev: char = '\0';
    let mut i: usize = 0;
    while i < chars.len()
        invariant
            i <= chars@.len(),
            chars@ == sql@,
            ({
                let st = split_fold(chars@.take(i as int));
                &&& statements@.map_values(|x: String| x@) == st.statements
                &&& current@ == st.current
                &&& in_string == st.in_string
                &&& quote == st.quote
                &&& prev == st.prev
            }),
        decreases chars.len() - i,
    {
        let ch = chars[i];
        proof {
            assert(chars@.take(i + 1).drop_last() =~= chars@.take(i as int));
            assert(chars@.take(i + 1).last() == ch);
        }
        let ghost old_statements = statements@;
        if in_string {
            push_char(&mut current, ch);
            if ch == quote && prev != '\\' {
                in_string = false;
            }
        } else if ch == '\'' || ch == '"' {
            in_string = true;
            quote = ch;
            push_char(&mut current, ch);
        } else if ch == ';' {
            let t = trim(current.as_str());
            if !t.as_str().is_empty() {
                statements.push(t);
                assert(statements@.map_values(|x: String| x@) =~= old_statements.map_values(|x: String| x@).push(trim_spec(current@)));
            }
            current = String::new();
        } else if ch == '\n' || ch == '\r' {
            let t = trim(current.as_str());
            let tv = chars_of(t.as_str());
            if starts_with_chars(&tv, "--") {
                current = String::new();
            } else {
                push_char(&mut current, ch);
            }
        } else {
            push_char(&mut current, ch);
        }
        prev = ch;
        i += 1;
    }
    assert(chars@.take(i as int) =~= chars@);
    let t = trim(current.as_str());
    let tv = chars_of(t.as_str());
    proof { reveal_strlit("BEGIN"); reveal_strlit("COMMIT"); }
    if !t.as_str().is_empty() && !starts_with_chars(&tv, "--") && !str_eq(t.as_str(), "BEGIN") && !str_eq(t.as_str(), "COMMIT") {
        let ghost old_statements = statements@;
        statements.push(t);
        assert(statements@.map_values(|x: String| x@) =~= old_statements.map_values(|x: String| x@).push(tv@));
    }
    statements
}

/// The `Debug` name of a dialect.
pub open spec fn dialect_name(d: SqlDialect) -> Seq<char> {
    match d {
        SqlDialect::Standard => "Standard"@,
        SqlDialect::MySQL => "MySQL"@,
        SqlDialect::PostgreSQL => "PostgreSQL"@,
        SqlDialect::SQLite => "SQLite"@,
    }
}

fn dialect_name_str(d: SqlDialect) -> (s: &'static str)
    ensures
        s@ == dialect_name(d),
{
    match d {
        SqlDialect::Standard => "Standard",
        SqlDialect::MySQL => "MySQL",
        SqlDialect::PostgreSQL => "PostgreSQL",
        SqlDialect::SQLite => "SQLite",
    }
}

/// The banner comment at the top of an export written at time `stamp`.
pub open spec fn export_header(stamp: Seq<char>, d: SqlDialect) -> Seq<char> {
    "-- ============================================================\n"@
        + "-- RustMinidb Database Export\n"@
        + "-- Generated: "@ + stamp + "\n"@
        + "-- Engine: redb (ACID, MVCC)\n"@
        + "-- Dialect: "@ + dialect_name(d) + "\n"@
        + "-- ============================================================\n\n"@
}

/// The text `s` when `b` holds, else nothing.
pub open spec fn when(b: bool, s: Seq<char>) -> Seq<char> {
    if b { s } else { Seq::empty() }
}

/// The section of a full export for one table: comment, DROP, CREATE and
/// INSERT parts as the configuration asks.
pub open spec fn table_section(cfg: ExportConfig, name: Seq<char>, schema: STable, rows: Seq<Seq<SValue>>) -> Seq<char> {
    let d = cfg.dialect;
    let q = quote_spec(d, name);
    when(cfg.include_comments, "--\n-- Table structure for "@ + q + "\n--\n\n"@)
        + when(cfg.include_drop_table, "DROP TABLE IF EXISTS "@ + q + ";\n"@ + "\n"@)
        + when(cfg.include_create, create_table_spec(d, schema) + "\n"@)
        + when(cfg.include_data, when(cfg.include_comments, "--\n-- Data for "@ + q + "\n--\n\n"@)
            + insert_data_spec(d, cfg.batch_size, schema, rows) + "\n"@)
}

/// The concatenation of texts.
pub open spec fn concat(parts: Seq<Seq<char>>) -> Seq<char>
    decreases parts.len(),
{
    if parts.len() == 0 { Seq::empty() } else { concat(parts.drop_last()) + parts.last() }
}

/// The whole export of the named tables (in the given order) written at time
/// `stamp`.
pub open spec fn export_spec(cfg: ExportConfig, stamp: Seq<char>, sections: Seq<Seq<char>>) -> Seq<char> {
    let head = when(cfg.include_comments, export_header(stamp, cfg.dialect)) + when(cfg.wrap_in_transaction, "BEGIN;\n"@);
    if sections.len() == 0 {
        head + when(cfg.include_comments, "-- (empty database - no tables)\n"@) + when(cfg.wrap_in_transaction, "COMMIT;\n"@)
    } else {
        head + concat(sections) + when(cfg.wrap_in_transaction, "COMMIT;\n"@)
            + when(cfg.include_comments, "-- Export complete\n"@)
    }
}

/// The export of a single table.
pub open spec fn table_export_spec(cfg: ExportConfig, name: Seq<char>, schema: STable, rows: Seq<Seq<SValue>>) -> Seq<char> {
    let d = cfg.dialect;
    let q = quote_spec(d, name);
    when(cfg.include_comments, "-- Export table: "@ + q + "\n\n"@)
        + when(cfg.include_drop_table, "DROP TABLE IF EXISTS "@ + q + ";\n\n"@)
        + when(cfg.include_create, create_table_spec(d, schema) + "\n"@)
        + when(cfg.include_data, insert_data_spec(d, cfg.batch_size, schema, rows))
}

/// Whether no schema has a float default and no row holds a float.
pub open spec fn table_float_free(t: crate::storage::engine::TableModel, rows: Seq<Seq<SValue>>) -> bool {
    no_float_defaults(t.schema.columns) && rows_float_free(rows)
}

/// Whether `sections` are the sections of the tables named, in order, with
/// the rows stored under each schema's own name.
pub open spec fn sections_of(cfg: ExportConfig, tables: Map<Seq<char>, crate::storage::engine::TableModel>,
    names: Seq<Seq<char>>, sections: Seq<Seq<char>>) -> bool
{
    &&& sections.len() == names.len()
    &&& forall|i: int| 0 <= i < names.len() ==> ({
            let t = tables[names[i]];
            let rows = crate::sql::eval::table_rows(tables, t.schema.name);
            table_float_free(t, rows) ==> #[trigger] sections[i] == table_section(cfg, names[i], t.schema, rows)
        })
}

/// Exports a database as SQL text.
pub struct Exporter<E: StorageEngine, F: FloatOps> {
    engine: E,
    config: ExportConfig,
    floats: F,
}

impl<E: StorageEngine, F: FloatOps> Exporter<E, F> {
    /// The storage engine's state.
    pub closed spec fn store(&self) -> E {
        self.engine
    }

    /// The configuration.
    pub closed spec fn cfg(&self) -> ExportConfig {
        self.config
    }

    /// An exporter with the default configuration.
    pub fn new(engine: E, floats: F) -> (r: Self)
        ensures
            r.store() == engine,
            r.cfg().include_create && r.cfg().include_data && !r.cfg().include_drop_table && r.cfg().batch_size == 100
                && r.cfg().dialect == SqlDialect::Standard && !r.cfg().wrap_in_transaction && r.cfg().include_comments,
    {
        Exporter { engine, config: ExportConfig::default(), floats }
    }

    /// An exporter with a configuration.
    pub fn with_config(engine: E, config: ExportConfig, floats: F) -> (r: Self)
        ensures
            r.store() == engine,
            r.cfg() == config,
    {
        Exporter { engine, config, floats }
    }

    /// The configuration.
    pub fn config(&self) -> (r: &ExportConfig)
        ensures
            *r == self.cfg(),
    {
        &self.config
    }

    /// The configuration, for changing it.
    pub fn config_mut(&mut self) -> (r: &mut ExportConfig)
        ensures
            *r == old(self).cfg(),
            final(self).cfg() == *final(r),
            final(self).store() == old(self).store(),
    {
        &mut self.config
    }

    /// The CREATE TABLE statement of a schema.
    fn generate_create_table(&self, schema: &TableSchema) -> (r: String)
        ensures
            no_float_defaults(schema@.columns) ==> r@ == create_table_spec(self.cfg().dialect, schema@),
    {
        create_table_sql(self.config.dialect, schema, &self.floats)
    }

    /// The INSERT statements of a table's stored rows.
    fn generate_insert_data(&self, schema: &TableSchema) -> (r: Result<String, RustMinidbError>)
        ensures
            r matches Ok(s) ==> ({
                let rows = crate::sql::eval::table_rows(self.store().tables(), schema@.name);
                rows_float_free(rows) ==> s@ == insert_data_spec(self.cfg().dialect, self.cfg().batch_size, schema@, rows)
            }),
            r matches Err(e) ==> crate::storage::engine::backend_error(e),
    {
        let rows = self.engine.scan_table(schema.name.as_str())?;
        Ok(self.generate_insert_data_from_rows(schema, &rows))
    }

    /// The INSERT statements of rows.
    fn generate_insert_data_from_rows(&self, schema: &TableSchema, rows: &Vec<Row>) -> (r: String)
        ensures
            rows_float_free(crate::sql::rows::rows_view(rows@)) ==> r@ == insert_data_spec(self.cfg().dialect,
                self.cfg().batch_size, schema@, crate::sql::rows::rows_view(rows@)),
    {
        insert_data_sql(self.config.dialect, self.config.batch_size, schema, rows, &self.floats)
    }

    /// One table's section of a full export.
    #[verifier::rlimit(40)]
    fn table_section_text(&self, table_name: &String) -> (r: Result<String, RustMinidbError>)
        ensures
            r matches Ok(s) ==> self.store().tables().contains_key(table_name@) && ({
                let t = self.store().tables()[table_name@];
                let rows = crate::sql::eval::table_rows(self.store().tables(), t.schema.name);
                table_float_free(t, rows) ==> s@ == table_section(self.cfg(), table_name@, t.schema, rows)
            }),
            !self.store().tables().contains_key(table_name@) ==> r is Err,
            r matches Err(e) ==> crate::storage::engine::backend_error(e)
                || (!self.store().tables().contains_key(table_name@) && e is Exec),
    {
        let d = self.config.dialect;
        let cfg = self.config;
        let schema = match self.engine.get_schema(table_name.as_str())? {
            Some(s) => s,
            None => {
                return Err(RustMinidbError::Exec(ExecError::TableNotFound(table_name.clone())));
            },
        };
        let ghost t = self.store().tables()[table_name@];
        let ghost rows = crate::sql::eval::table_rows(self.store().tables(), t.schema.name);
        let q = d.quote_identifier(table_name.as_str());
        let mut p1 = String::new();
        if cfg.include_comments {
            push_str(&mut p1, "--\n-- Table structure for ");
            push_str(&mut p1, q.as_str());
            push_str(&mut p1, "\n--\n\n");
        }
        assert(p1@ =~= when(cfg.include_comments, "--\n-- Table structure for "@ + q@ + "\n--\n\n"@));
        let mut p2 = String::new();
        if cfg.include_drop_table {
            push_str(&mut p2, "DROP TABLE IF EXISTS ");
            push_str(&mut p2, q.as_str());
            push_str(&mut p2, ";\n");
            push_str(&mut p2, "\n");
        }
        assert(p2@ =~= when(cfg.include_drop_table, "DROP TABLE IF EXISTS "@ + q@ + ";\n"@ + "\n"@));
        let mut p3 = String::new();
        if cfg.include_create {
            push_str(&mut p3, self.generate_create_table(&schema).as_str());
            push_str(&mut p3, "\n");
        }
        assert(no_float_defaults(t.schema.columns) ==> p3@ =~= when(cfg.include_create, create_table_spec(d, t.schema) + "\n"@));
        let mut p4 = String::new();
        if cfg.include_data {
            let mut c = String::new();
            if cfg.include_comments {
                push_str(&mut c, "--\n-- Data for ");
                push_str(&mut c, q.as_str());
                push_str(&mut c, "\n--\n\n");
            }
            assert(c@ =~= when(cfg.include_comments, "--\n-- Data for "@ + q@ + "\n--\n\n"@));
            let data = self.generate_insert_data(&schema)?;
            push_str(&mut p4, c.as_str());
            push_str(&mut p4, data.as_str());
            push_str(&mut p4, "\n");
        }
        assert(rows_float_free(rows) ==> p4@ =~= when(cfg.include_data, when(cfg.include_comments, "--\n-- Data for "@ + q@ + "\n--\n\n"@)
            + insert_data_spec(d, cfg.batch_size, t.schema, rows) + "\n"@));
        let mut out = p1;
        push_str(&mut out, p2.as_str());
        push_str(&mut out, p3.as_str());
        push_str(&mut out, p4.as_str());
        proof {
            if table_float_free(t, rows) {
                assert(out@ =~= table_section(self.cfg(), table_name@, t.schema, rows));
            }
        }
        Ok(out)
    }

    /// The whole database as SQL text: a header (dated `generated`, the
    /// caller's reading of the local time), then each listed table's
    /// section, then a footer, as the configuration asks.
    pub fn export_to_string(&self, generated: &str) -> (r: Result<String, RustMinidbError>)
        ensures
            r matches Ok(s) ==> exists|names: Seq<Seq<char>>, sections: Seq<Seq<char>>|
                #![trigger sections_of(self.cfg(), self.store().tables(), names, sections)]
                names.to_set() == self.store().tables().dom() && names.no_duplicates()
                && sections_of(self.cfg(), self.store().tables(), names, sections)
                && s@ == export_spec(self.cfg(), generated@, sections),
            r matches Err(e) ==> crate::storage::engine::backend_error(e),
    {
        let d = self.config.dialect;
        let mut output = String::new();
        let stamp = generated;
        if self.config.include_comments {
            push_str(&mut output, "-- ============================================================\n");
            push_str(&mut output, "-- RustMinidb Database Export\n");
            push_str(&mut output, "-- Generated: ");
            push_str(&mut output, stamp);
            push_str(&mut output, "\n");
            push_str(&mut output, "-- Engine: redb (ACID, MVCC)\n");
            push_str(&mut output, "-- Dialect: ");
            push_str(&mut output, dialect_name_str(d));
            push_str(&mut output, "\n");
            push_str(&mut output, "-- ============================================================\n\n");
        }
        if self.config.wrap_in_transaction {
            push_str(&mut output, d.begin_transaction());
        }
        let ghost head = output@;
        assert(head == when(self.cfg().include_comments, export_header(stamp@, d)) + when(self.cfg().wrap_in_transaction, "BEGIN;\n"@));
        let tables = self.engine.list_tables()?;
        let ghost names = tables@.map_values(|x: String| x@);
        if tables.len() == 0 {
            if self.config.include_comments {
                push_str(&mut output, "-- (empty database - no tables)\n");
            }
            if self.config.wrap_in_transaction {
                push_str(&mut output, d.commit_transaction());
            }
            proof {
                let sections = Seq::<Seq<char>>::empty();
                assert(sections_of(self.cfg(), self.store().tables(), names, sections));
                assert(output@ == export_spec(self.cfg(), stamp@, sections));
            }
            return Ok(output);
        }
        let ghost mut sections: Seq<Seq<char>> = Seq::empty();
        let mut i: usize = 0;
        while i < tables.len()
            invariant
                i <= tables@.len(),
                names == tables@.map_values(|x: String| x@),
                sections.len() == i,
                names.to_set() == self.store().tables().dom(),
                names.no_duplicates(),
                head == when(self.cfg().include_comments, export_header(stamp@, d)) + when(self.cfg().wrap_in_transaction, "BEGIN;\n"@),
                d == self.cfg().dialect,
                forall|j: int| 0 <= j < i ==> ({
                    let t = self.store().tables()[names[j]];
                    let rows = crate::sql::eval::table_rows(self.store().tables(), t.schema.name);
                    table_float_free(t, rows) ==> #[trigger] sections[j] == table_section(self.cfg(), names[j], t.schema, rows)
                }),
                output@ == head + concat(sections),
            decreases tables.len() - i,
        {
            proof {
                assert(names[i as int] == tables@[i as int]@);
                assert(names.contains(names[i as int]));
                assert(names.to_set().contains(names[i as int]));
            }
            let sec = self.table_section_text(&tables[i])?;
            proof {
                assert(names[i as int] == tables@[i as int]@);
                let s2 = sections.push(sec@);
                assert(s2.drop_last() =~= sections);
                sections = s2;
            }
            push_str(&mut output, sec.as_str());
            i += 1;
        }
        if self.config.wrap_in_transaction {
            push_str(&mut output, d.commit_transaction());
        }
        if self.config.include_comments {
            push_str(&mut output, "-- Export complete\n");
        }
        proof {
            assert(sections_of(self.cfg(), self.store().tables(), names, sections));
            assert(output@ =~= export_spec(self.cfg(), stamp@, sections));
        }
        Ok(output)
    }

    /// One table as SQL text.
    #[verifier::rlimit(40)]
    pub fn export_table_to_string(&self, table_name: &str) -> (r: Result<String, RustMinidbError>)
        ensures
            r matches Ok(s) ==> self.store().tables().contains_key(table_name@) && ({
                let t = self.store().tables()[table_name@];
                let rows = crate::sql::eval::table_rows(self.store().tables(), t.schema.name);
                table_float_free(t, rows) ==> s@ == table_export_spec(self.cfg(), table_name@, t.schema, rows)
            }),
            !self.store().tables().contains_key(table_name@) ==> (r matches Err(e)
                && ((e matches RustMinidbError::Exec(ExecError::TableNotFound(n)) && n@ == table_name@)
                    || crate::storage::engine::backend_error(e))),
            self.store().tables().contains_key(table_name@) ==> (r is Ok
                || (r matches Err(e) && crate::storage::engine::backend_error(e))),
    {
        let d = self.config.dialect;
        let cfg = self.config;
        let schema = match self.engine.get_schema(table_name)? {
            Some(s) => s,
            None => {
                return Err(RustMinidbError::Exec(ExecError::TableNotFound(table_name.to_owned())));
            },
        };
        let ghost t = self.store().tables()[table_name@];
        let ghost rows = crate::sql::eval::table_rows(self.store().tables(), t.schema.name);
        let q = d.quote_identifier(table_name);
        let mut p1 = String::new();
        if cfg.include_comments {
            push_str(&mut p1, "-- Export table: ");
            push_str(&mut p1, q.as_str());
            push_str(&mut p1, "\n\n");
        }
        assert(p1@ =~= when(cfg.include_comments, "-- Export table: "@ + q@ + "\n\n"@));
        let mut p2 = String::new();
        if cfg.include_drop_table {
            push_str(&mut p2, "DROP TABLE IF EXISTS ");
            push_str(&mut p2, q.as_str());
            push_str(&mut p2, ";\n\n");
        }
        assert(p2@ =~= when(cfg.include_drop_table, "DROP TABLE IF EXISTS "@ + q@ + ";\n\n"@));
        let mut p3 = String::new();
        if cfg.include_create {
            push_str(&mut p3, self.generate_create_table(&schema).as_str());
            push_str(&mut p3, "\n");
        }
        assert(no_float_defaults(t.schema.columns) ==> p3@ =~= when(cfg.include_create, create_table_spec(d, t.schema) + "\n"@));
        let mut p4 = String::new();
        if cfg.include_data {
            let data = self.generate_insert_data(&schema)?;
            push_str(&mut p4, data.as_str());
        }
        assert(rows_float_free(rows) ==> p4@ =~= when(cfg.include_data, insert_data_spec(d, cfg.batch_size, t.schema, rows)));
        let mut out = p1;
        push_str(&mut out, p2.as_str());
        push_str(&mut out, p3.as_str());
        push_str(&mut out, p4.as_str());
        proof {
            if table_float_free(t, rows) {
                assert(out@ =~= table_export_spec(self.cfg(), table_name@, t.schema, rows));
            }
        }
        Ok(out)
    }
}

/// The whole database as SQL text, with the default configuration.
pub fn export_database_to_string<E: StorageEngine, F: FloatOps>(engine: E, floats: F, generated: &str) -> (r: Result<String, RustMinidbError>)
    ensures
        r matches Ok(s) ==> exists|names: Seq<Seq<char>>, sections: Seq<Seq<char>>|
            #![trigger sections_of(ExportConfig::default_spec(), engine.tables(), names, sections)]
            names.to_set() == engine.tables().dom() && names.no_duplicates()
            && sections_of(ExportConfig::default_spec(), engine.tables(), names, sections)
            && s@ == export_spec(ExportConfig::default_spec(), generated@, sections),
{
    let exporter = Exporter::new(engine, floats);
    proof { assert(exporter.cfg() == ExportConfig::default_spec()); }
    exporter.export_to_string(generated)
}

impl ExportConfig {
    /// The default configuration: CREATE and INSERT statements with
    /// comments, batches of 100 rows, the database's own SQL.
    pub open spec fn default_spec() -> ExportConfig {
        ExportConfig {
            include_create: true,
            include_data: true,
            include_drop_table: false,
            batch_size: 100,
            dialect: SqlDialect::Standard,
            wrap_in_transaction: false,
            include_comments: true,
        }
    }
}

/// Told how far an import has come.
pub trait ImportProgress {
    /// Called after each statement that was run or could not be read:
    /// `done` pieces of `total` handled.
    fn progress(&self, done: usize, total: usize);
}

/// Progress that goes nowhere.
pub struct NoProgress;

impl ImportProgress for NoProgress {
    fn progress(&self, done: usize, total: usize) {
    }
}

/// Whether an imported piece of SQL is passed over: blank, a `--` comment,
/// `BEGIN` or `COMMIT`.
pub open spec fn skipped_piece(t: Seq<char>) -> bool {
    t.len() == 0 || is_prefix("--"@, t) || t == "BEGIN"@ || t == "COMMIT"@
}

/// The pieces an import tries to run, in order: each trimmed, without the
/// skipped ones.
pub open spec fn runnable_pieces(pieces: Seq<Seq<char>>) -> Seq<Seq<char>>
    decreases pieces.len(),
{
    if pieces.len() == 0 {
        Seq::empty()
    } else {
        let rest = runnable_pieces(pieces.drop_last());
        let t = trim_spec(pieces.last());
        if skipped_piece(t) { rest } else { rest.push(t) }
    }
}

/// The runnable pieces of a prefix begin the runnable pieces of the whole.
proof fn lemma_runnable_prefix(pieces: Seq<Seq<char>>, k: int)
    requires
        0 <= k <= pieces.len(),
    ensures
        runnable_pieces(pieces.take(k)).len() <= runnable_pieces(pieces).len(),
        forall|j: int| 0 <= j < runnable_pieces(pieces.take(k)).len()
            ==> #[trigger] runnable_pieces(pieces.take(k))[j] == runnable_pieces(pieces)[j],
    decreases pieces.len() - k,
{
    if k < pieces.len() {
        lemma_runnable_prefix(pieces, k + 1);
        assert(pieces.take(k + 1).drop_last() =~= pieces.take(k));
        let a = runnable_pieces(pieces.take(k));
        let b = runnable_pieces(pieces.take(k + 1));
        assert forall|j: int| 0 <= j < a.len() implies #[trigger] a[j] == runnable_pieces(pieces)[j] by {
            assert(a[j] == b[j]);
        }
    } else {
        assert(pieces.take(k) =~= pieces);
    }
}

/// Whether parsing the text fails.
pub open spec fn parse_fails(text: Seq<char>) -> bool {
    exists|e: RustMinidbError| #[trigger] crate::sql::parser::parse_outcome(text, Err(e))
}

/// Whether statement `i` was parsed from runnable piece `ks[i]`, the pieces
/// taken in order.
pub open spec fn imported_from(rp: Seq<Seq<char>>, stmts: Seq<crate::sql::ast::SqlStatement>, ks: Seq<int>) -> bool {
    &&& ks.len() == stmts.len()
    &&& forall|i: int| 0 <= i < ks.len() ==> 0 <= #[trigger] ks[i] < rp.len()
        && crate::sql::parser::parse_outcome(rp[ks[i]], Ok(stmts[i]))
    &&& forall|i: int, j: int| 0 <= i < j < ks.len() ==> ks[i] < ks[j]
}

/// Statements parsed from the runnable pieces of a prefix are parsed from
/// the runnable pieces of the whole.
proof fn lemma_imported_prefix(pieces: Seq<Seq<char>>, k: int, stmts: Seq<crate::sql::ast::SqlStatement>, ks: Seq<int>)
    requires
        0 <= k <= pieces.len(),
        imported_from(runnable_pieces(pieces.take(k)), stmts, ks),
    ensures
        imported_from(runnable_pieces(pieces), stmts, ks),
{
    lemma_runnable_prefix(pieces, k);
    let a = runnable_pieces(pieces.take(k));
    assert forall|i: int| 0 <= i < ks.len() implies 0 <= #[trigger] ks[i] < runnable_pieces(pieces).len()
        && crate::sql::parser::parse_outcome(runnable_pieces(pieces)[ks[i]], Ok(stmts[i])) by {
        assert(a[ks[i]] == runnable_pieces(pieces)[ks[i]]);
    }
}

/// Whether every runnable piece before `n` that no statement came from
/// failed to parse.
pub open spec fn unread_pieces_fail(rp: Seq<Seq<char>>, ks: Seq<int>, n: int) -> bool {
    forall|j: int| 0 <= j < n && (forall|q: int| 0 <= q < ks.len() ==> ks[q] != j) ==> parse_fails(#[trigger] rp[j])
}

/// Whether the states run through the statements in order: each statement
/// was safe to run on the state before it and took it to the next with its
/// result.
pub open spec fn statement_chain<E: StorageEngine>(states: Seq<E>, stmts: Seq<crate::sql::ast::SqlStatement>,
    results: Seq<Result<crate::sql::executor::ExecuteResult, RustMinidbError>>) -> bool
{
    &&& states.len() == stmts.len() + 1
    &&& results.len() == stmts.len()
    &&& forall|i: int| 0 <= i < stmts.len() ==> {
        &&& crate::sql::executor::statement_safe::<E>(#[trigger] stmts[i], states[i].tables(), states[i].index_defs(), states[i].index_entries())
        &&& crate::sql::executor::statement_outcome::<E>(states[i], states[i + 1], &stmts[i], results[i])
    }
}

/// Runs SQL text statement by statement: the pieces `split_sql_statements`
/// gives, trimmed, except blank ones, `--` comments, `BEGIN` and `COMMIT`.
/// A piece that does not parse is passed over; the first statement that
/// fails ends the import with its error.  `None` when a statement would read
/// a column that a stored row lacks; the import stops there.  The stored
/// state goes through the statements parsed from the runnable pieces, in
/// order, every one but perhaps the last succeeding; when the import
/// succeeds every runnable piece was run or failed to parse.
pub fn import_sql_string<E: StorageEngine, F: FloatOps, G: ImportProgress>(
    executor: &mut crate::sql::executor::Executor<E, F>, sql: &str, on_progress: Option<&G>,
) -> (r: Option<Result<(), RustMinidbError>>)
    ensures
        exists|states: Seq<E>, stmts: Seq<crate::sql::ast::SqlStatement>, results: Seq<Result<crate::sql::executor::ExecuteResult, RustMinidbError>>,
            ks: Seq<int>|
            #![trigger statement_chain::<E>(states, stmts, results), imported_from(runnable_pieces(split_spec(sql@)), stmts, ks)]
            statement_chain::<E>(states, stmts, results)
            && states[0] == old(executor).store() && states.last() == final(executor).store()
            && imported_from(runnable_pieces(split_spec(sql@)), stmts, ks)
            && (forall|i: int| 0 <= i < stmts.len() - 1 ==> #[trigger] results[i] is Ok)
            && (r matches Some(Ok(())) ==> (forall|i: int| 0 <= i < stmts.len() ==> #[trigger] results[i] is Ok)
                && unread_pieces_fail(runnable_pieces(split_spec(sql@)), ks, runnable_pieces(split_spec(sql@)).len() as int)),
{
    let pieces = split_sql_statements(sql);
    let ghost pv = split_spec(sql@);
    let total = pieces.len();
    let ghost mut states: Seq<E> = seq![executor.store()];
    let ghost mut stmts: Seq<crate::sql::ast::SqlStatement> = Seq::empty();
    let ghost mut results: Seq<Result<crate::sql::executor::ExecuteResult, RustMinidbError>> = Seq::empty();
    let ghost mut ks: Seq<int> = Seq::empty();
    let ghost start = executor.store();
    let mut i: usize = 0;
    while i < pieces.len()
        invariant
            i <= pieces@.len(),
            pieces@.map_values(|x: String| x@) == pv,
            pv == split_spec(sql@),
            statement_chain::<E>(states, stmts, results),
            states[0] == start,
            start == old(executor).store(),
            states.last() == executor.store(),
            imported_from(runnable_pieces(pv.take(i as int)), stmts, ks),
            unread_pieces_fail(runnable_pieces(pv.take(i as int)), ks, runnable_pieces(pv.take(i as int)).len() as int),
            forall|q: int| 0 <= q < stmts.len() ==> #[trigger] results[q] is Ok,
        decreases pieces.len() - i,
    {
        proof {
            assert(pv.take(i + 1).drop_last() =~= pv.take(i as int));
            assert(pv.take(i + 1).last() == pieces@[i as int]@);
        }
        let t = trim(pieces[i].as_str());
        let tc = chars_of(t.as_str());
        proof {
            reveal_strlit("--");
            reveal_strlit("BEGIN");
            reveal_strlit("COMMIT");
        }
        let skip = tc.len() == 0 || starts_with_chars(&tc, "--") || str_eq(t.as_str(), "BEGIN") || str_eq(t.as_str(), "COMMIT");
        let ghost rpi = runnable_pieces(pv.take(i as int));
        let ghost rpn = runnable_pieces(pv.take(i + 1));
        proof {
            assert(skip == skipped_piece(trim_spec(pv.take(i + 1).last())));
            assert(rpn == if skip { rpi } else { rpi.push(t@) });
            lemma_runnable_prefix(pv, i as int);
            lemma_runnable_prefix(pv, i + 1);
        }
        if !skip {
            let parsed = crate::sql::parser::SqlParser::parse(t.as_str(), executor.floats());
            let ghost gp = parsed;
            proof {
                assert(rpn[rpi.len() as int] == t@);
                assert forall|j: int| 0 <= j < rpi.len() implies #[trigger] rpn[j] == rpi[j] by {}
            }
            match parsed {
                Ok(stmt) => {
                    match executor.can_execute(&stmt) {
                        Ok(true) => {},
                        Ok(false) => {
                            proof { lemma_imported_prefix(pv, i as int, stmts, ks); }
                            return None;
                        },
                        Err(e) => {
                            proof { lemma_imported_prefix(pv, i as int, stmts, ks); }
                            return Some(Err(e));
                        },
                    }
                    let ghost before = executor.store();
                    let res = executor.execute(&stmt);
                    proof {
                        let ghost s2 = states.push(executor.store());
                        let ghost st2 = stmts.push(stmt);
                        let ghost rs2 = results.push(res);
                        let ghost k2 = ks.push(rpi.len() as int);
                        assert forall|q: int| 0 <= q < st2.len() implies {
                            &&& crate::sql::executor::statement_safe::<E>(#[trigger] st2[q], s2[q].tables(), s2[q].index_defs(), s2[q].index_entries())
                            &&& crate::sql::executor::statement_outcome::<E>(s2[q], s2[q + 1], &st2[q], rs2[q])
                        } by {
                            if q < stmts.len() {
                                assert(st2[q] == stmts[q] && s2[q] == states[q] && s2[q + 1] == states[q + 1] && rs2[q] == results[q]);
                            } else {
                                assert(st2[q] == stmt && s2[q] == before && s2[q + 1] == executor.store() && rs2[q] == res);
                            }
                        }
                        assert(crate::sql::parser::parse_outcome(t@, Ok(stmt)));
                        assert forall|q: int| 0 <= q < k2.len() implies 0 <= #[trigger] k2[q] < rpn.len()
                            && crate::sql::parser::parse_outcome(rpn[k2[q]], Ok(st2[q])) by {
                            if q < ks.len() {
                                assert(k2[q] == ks[q] && st2[q] == stmts[q]);
                                assert(rpn[ks[q]] == rpi[ks[q]]);
                            } else {
                                assert(k2[q] == rpi.len() && st2[q] == stmt);
                            }
                        }
                        assert forall|j: int| 0 <= j < rpn.len() && (forall|q: int| 0 <= q < k2.len() ==> k2[q] != j)
                            implies parse_fails(#[trigger] rpn[j]) by {
                            assert(j != rpi.len()) by {
                                assert(k2[ks.len() as int] == rpi.len());
                            }
                            assert forall|q: int| 0 <= q < ks.len() implies ks[q] != j by {
                                assert(k2[q] == ks[q]);
                            }
                            assert(rpn[j] == rpi[j]);
                        }
                        states = s2;
                        stmts = st2;
                        results = rs2;
                        ks = k2;
                        assert(imported_from(rpn, stmts, ks));
                        assert(statement_chain::<E>(states, stmts, results));
                        assert(states[0] == start);
                        assert(states.last() == executor.store());
                        assert(forall|q: int| 0 <= q < stmts.len() - 1 ==> #[trigger] results[q] is Ok);
                        lemma_imported_prefix(pv, i + 1, stmts, ks);
                    }
                    match res {
                        Ok(_) => {},
                        Err(e) => {
                            return Some(Err(e));
                        },
                    }
                },
                Err(e) => {
                    proof {
                        assert(crate::sql::parser::parse_outcome(t@, Err(e)));
                        assert(parse_fails(rpn[rpi.len() as int]));
                        assert forall|j: int| 0 <= j < rpn.len() && (forall|q: int| 0 <= q < ks.len() ==> ks[q] != j)
                            implies parse_fails(#[trigger] rpn[j]) by {
                            if j < rpi.len() {
                                assert(rpn[j] == rpi[j]);
                            }
                        }
                        assert forall|q: int| 0 <= q < ks.len() implies 0 <= #[trigger] ks[q] < rpn.len()
                            && crate::sql::parser::parse_outcome(rpn[ks[q]], Ok(stmts[q])) by {
                            assert(rpn[ks[q]] == rpi[ks[q]]);
                        }
                    }
                },
            }
            match on_progress {
                Some(cb) => cb.progress(i + 1, total),
                None => {},
            }
        }
        i += 1;
    }
    proof {
        assert(pv.take(pieces@.len() as int) =~= pv);
    }
    Some(Ok(()))
}

} // verus!
