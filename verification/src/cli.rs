//! The interactive shell's commands and the text it shows.

use vstd::prelude::*;
use vstd::string::StringSliceAdditionalSpecFns;

use crate::types::{Value, SValue, FloatOps, spec_type_keyword};
use crate::schema::TableSchema;
use crate::strutil::{trim, trim_spec, push_str, push_char, chars_of, starts_with_chars, str_eq, is_prefix,
    i64_to_string, u64_to_string, string_from_range};

verus! {

broadcast use vstd::string::group_string_axioms;

/// What a line typed into the shell asks for.
/// The command line: one subcommand.
#[derive(Debug, Clone)]
pub struct Cli {
    pub command: Commands,
}

/// The subcommands and their options.
#[derive(Debug, Clone)]
pub enum Commands {
    /// Start the HTTP server over one or more databases.
    Serve {
        host: String,
        port: u16,
        db: Vec<String>,
        db_dir: String,
        max_connections: u32,
        watch: bool,
        api_token: Option<String>,
    },
    /// The interactive SQL shell.
    Shell { db: Vec<String>, watch: bool },
    /// Run one SQL statement (output `table` or `json`).
    Exec { db: String, sql: String, format: String },
    /// Create an empty database file.
    Init { db: String },
    /// Export a database as SQL.
    Export { db: String, output: Option<String>, table: Option<String>, data: bool, create: bool },
    /// Show version information.
    Version,
}

#[derive(Debug, Clone, PartialEq, Eq)]
pub enum ShellCommand {
    /// `.exit` or `.quit`.
    Exit,
    /// `.tables`.
    Tables,
    /// `.help`.
    Help,
    /// `.monitor`.
    Monitor,
    /// `.databases`.
    Databases,
    /// `.use <name>`, with the name (empty when none is given).
    Use(String),
    /// `.export`.
    Export,
    /// `.schema`.
    Schema,
    /// Any other line starting with `.`.
    Unknown(String),
    /// A blank line.
    Empty,
    /// An SQL statement.
    Sql(String),
}

/// The view of a shell command: its kind (0 to 10, in declaration order)
/// and its text.
pub open spec fn command_view(c: ShellCommand) -> (int, Seq<char>) {
    match c {
        ShellCommand::Exit => (0, Seq::empty()),
        ShellCommand::Tables => (1, Seq::empty()),
        ShellCommand::Help => (2, Seq::empty()),
        ShellCommand::Monitor => (3, Seq::empty()),
        ShellCommand::Databases => (4, Seq::empty()),
        ShellCommand::Use(s) => (5, s@),
        ShellCommand::Export => (6, Seq::empty()),
        ShellCommand::Schema => (7, Seq::empty()),
        ShellCommand::Unknown(s) => (8, s@),
        ShellCommand::Empty => (9, Seq::empty()),
        ShellCommand::Sql(s) => (10, s@),
    }
}

/// What a typed line asks for: after trimming, a line starting with `.` is
/// a shell command (`.use ` followed by the trimmed name), a blank line
/// nothing, anything else SQL.
pub open spec fn shell_command_spec(line: Seq<char>) -> (int, Seq<char>) {
    let t = trim_spec(line);
    if t.len() > 0 && t[0] == '.' {
        if t == ".exit"@ || t == ".quit"@ { (0, Seq::empty()) }
        else if t == ".tables"@ { (1, Seq::empty()) }
        else if t == ".help"@ { (2, Seq::empty()) }
        else if t == ".monitor"@ { (3, Seq::empty()) }
        else if t == ".databases"@ { (4, Seq::empty()) }
        else if is_prefix(".use "@, t) { (5, trim_spec(t.subrange(5, t.len() as int))) }
        else if t == ".export"@ { (6, Seq::empty()) }
        else if t == ".schema"@ { (7, Seq::empty()) }
        else { (8, t) }
    } else if t.len() == 0 {
        (9, Seq::empty())
    } else {
        (10, t)
    }
}

/// Reads a line typed into the shell.
pub fn parse_shell_line(raw: &str) -> (r: ShellCommand)
    ensures
        command_view(r) == shell_command_spec(raw@),
{
    let line = trim(raw);
    let v = chars_of(line.as_str());
    let l = line.as_str();
    proof {
        reveal_strlit(".exit"); reveal_strlit(".quit"); reveal_strlit(".tables"); reveal_strlit(".help");
        reveal_strlit(".monitor"); reveal_strlit(".databases"); reveal_strlit(".use "); reveal_strlit(".export");
        reveal_strlit(".schema");
    }
    if v.len() > 0 && v[0] == '.' {
        if str_eq(l, ".exit") || str_eq(l, ".quit") {
            ShellCommand::Exit
        } else if str_eq(l, ".tables") {
            ShellCommand::Tables
        } else if str_eq(l, ".help") {
            ShellCommand::Help
        } else if str_eq(l, ".monitor") {
            ShellCommand::Monitor
        } else if str_eq(l, ".databases") {
            ShellCommand::Databases
        } else if starts_with_chars(&v, ".use ") {
            let rest = string_from_range(&v, 5, v.len());
            ShellCommand::Use(trim(rest.as_str()))
        } else if str_eq(l, ".export") {
            ShellCommand::Export
        } else if str_eq(l, ".schema") {
            ShellCommand::Schema
        } else {
            ShellCommand::Unknown(line)
        }
    } else if v.len() == 0 {
        ShellCommand::Empty
    } else {
        ShellCommand::Sql(line)
    }
}

/// The shell's help text.
pub open spec fn help_spec() -> Seq<char> {
    "RustMinidb Shell Commands:\n"@
        + "  .tables      List all tables in current database\n"@
        + "  .schema      Show table schemas\n"@
        + "  .databases   List all loaded databases\n"@
        + "  .use <name>  Switch to another database\n"@
        + "  .exit        Exit shell\n"@
        + "  .quit        Exit shell\n"@
        + "  .help        Show this help\n"@
        + "  .monitor     Show runtime metrics\n"@
        + "  .export      Export database to SQL (stdout)\n"@
        + "\n"@
        + "SQL statements end without semicolon requirement.\n"@
}

/// The shell's help text.
pub fn help_text() -> (r: String)
    ensures
        r@ == help_spec(),
{
    let mut s = String::from_str("RustMinidb Shell Commands:\n");
    push_str(&mut s, "  .tables      List all tables in current database\n");
    push_str(&mut s, "  .schema      Show table schemas\n");
    push_str(&mut s, "  .databases   List all loaded databases\n");
    push_str(&mut s, "  .use <name>  Switch to another database\n");
    push_str(&mut s, "  .exit        Exit shell\n");
    push_str(&mut s, "  .quit        Exit shell\n");
    push_str(&mut s, "  .help        Show this help\n");
    push_str(&mut s, "  .monitor     Show runtime metrics\n");
    push_str(&mut s, "  .export      Export database to SQL (stdout)\n");
    push_str(&mut s, "\n");
    push_str(&mut s, "SQL statements end without semicolon requirement.\n");
    s
}

/// The `<blob N bytes>` text.
pub open spec fn blob_text(n: nat) -> Seq<char> {
    "<blob "@ + crate::strutil::nat_decimal(n) + " bytes>"@
}

/// How the shell shows a value other than a float.
pub open spec fn display_spec(v: SValue) -> Seq<char> {
    match v {
        SValue::Integer(i) => crate::strutil::int_decimal(i as int),
        SValue::Text(s) => s,
        SValue::Blob(b) => blob_text(b.len()),
        SValue::Boolean(x) => if x { "true"@ } else { "false"@ },
        SValue::Timestamp(t) => match crate::migration::utc_datetime_text(t) {
            Some(s) => s,
            None => "invalid"@,
        },
        SValue::Null => "NULL"@,
        SValue::Float(_) => Seq::empty(),
    }
}

/// How the shell shows a value; a float is its sign and the host's text of
/// its magnitude, with `.0` added when it is integral.
pub fn val_display<F: FloatOps>(val: &Value, floats: &F) -> (r: String)
    ensures
        !(val@ is Float) ==> r@ == display_spec(val@),
        val@ matches SValue::Float(b) ==> exists|d: Seq<char>| #[trigger] crate::migration::float_literal(b, d, r@),
{
    match val {
        Value::Integer(v) => i64_to_string(*v),
        Value::Float(b) => {
            let d = floats.display(*b % 0x8000_0000_0000_0000u64);
            let s = crate::migration::float_literal_text(*b, d.as_str());
            assert(val@ == SValue::Float(*b));
            assert(val@ matches SValue::Float(bb) && bb == *b);
            s
        },
        Value::Text(t) => t.clone(),
        Value::Blob(b) => {
            let mut s = String::from_str("<blob ");
            push_str(&mut s, u64_to_string(b.len() as u64).as_str());
            push_str(&mut s, " bytes>");
            s
        },
        Value::Boolean(x) => if *x { String::from_str("true") } else { String::from_str("false") },
        Value::Timestamp(t) => match crate::migration::format_timestamp(*t) {
            Some(s) => s,
            None => String::from_str("invalid"),
        },
        Value::Null => String::from_str("NULL"),
    }
}

/// The text padded with spaces on the right to `w` characters.
pub open spec fn pad_to(s: Seq<char>, w: nat) -> Seq<char> {
    if s.len() >= w { s } else { s + Seq::new((w - s.len()) as nat, |i: int| ' ') }
}

fn push_pad(out: &mut String, s: &str, w: usize)
    ensures
        final(out)@ == old(out)@ + pad_to(s@, w as nat),
{
    push_str(out, s);
    let n = chars_of(s).len();
    let mut k = n;
    while k < w
        invariant
            n == s@.len(),
            n <= k,
            k <= w || k == n,
            out@ == old(out)@ + s@ + Seq::new((k - n) as nat, |i: int| ' '),
        decreases w - k,
    {
        push_char(out, ' ');
        k += 1;
        assert(out@ =~= old(out)@ + s@ + Seq::new((k - n) as nat, |i: int| ' '));
    }
    assert(out@ =~= old(out)@ + pad_to(s@, w as nat));
}

/// A separator line of a result table: `+`, then for each column `w + 2`
/// dashes and `+`.
pub open spec fn separator_spec(widths: Seq<usize>) -> Seq<char>
    decreases widths.len(),
{
    if widths.len() == 0 {
        "+"@
    } else {
        separator_spec(widths.drop_last()) + Seq::new((widths.last() + 2) as nat, |i: int| '-') + "+"@
    }
}

/// A row line of a result table: `|`, then for each cell that has a column
/// the cell padded to the column's width between spaces, and `|`.
pub open spec fn row_spec(cells: Seq<Seq<char>>, widths: Seq<usize>) -> Seq<char>
    decreases cells.len(),
{
    if cells.len() == 0 {
        "|"@
    } else if cells.len() - 1 < widths.len() {
        row_spec(cells.drop_last(), widths) + " "@ + pad_to(cells.last(), widths[cells.len() - 1] as nat) + " |"@
    } else {
        row_spec(cells.drop_last(), widths)
    }
}

fn separator_line(widths: &Vec<usize>) -> (r: String)
    ensures
        r@ == separator_spec(widths@),
{
    let mut s = String::from_str("+");
    let mut i: usize = 0;
    while i < widths.len()
        invariant
            i <= widths@.len(),
            s@ == separator_spec(widths@.take(i as int)),
        decreases widths.len() - i,
    {
        proof {
            assert(widths@.take(i + 1).drop_last() =~= widths@.take(i as int));
            assert(widths@.take(i + 1).last() == widths@[i as int]);
        }
        let w = widths[i];
        let ghost before = s@;
        let mut k: usize = 0;
        while k < w
            invariant
                k <= w,
                s@ == before + Seq::new(k as nat, |j: int| '-'),
            decreases w - k,
        {
            push_char(&mut s, '-');
            k += 1;
            assert(s@ =~= before + Seq::new(k as nat, |j: int| '-'));
        }
        push_char(&mut s, '-');
        push_char(&mut s, '-');
        assert(s@ =~= before + Seq::new((w + 2) as nat, |j: int| '-'));
        push_str(&mut s, "+");
        i += 1;
    }
    assert(widths@.take(i as int) =~= widths@);
    s
}

fn row_line(cells: &Vec<String>, widths: &Vec<usize>) -> (r: String)
    ensures
        r@ == row_spec(crate::sql::ast::strings_view(cells@), widths@),
{
    let ghost cv = crate::sql::ast::strings_view(cells@);
    let mut s = String::from_str("|");
    let mut i: usize = 0;
    while i < cells.len()
        invariant
            i <= cells@.len(),
            cv == crate::sql::ast::strings_view(cells@),
            s@ == row_spec(cv.take(i as int), widths@),
        decreases cells.len() - i,
    {
        proof {
            assert(cv.take(i + 1).drop_last() =~= cv.take(i as int));
            assert(cv.take(i + 1).last() == cells@[i as int]@);
        }
        if i < widths.len() {
            push_str(&mut s, " ");
            push_pad(&mut s, cells[i].as_str(), widths[i]);
            push_str(&mut s, " |");
        }
        i += 1;
    }
    assert(cv.take(i as int) =~= cv);
    s
}

/// The byte length of a string.
pub open spec fn byte_len(s: String) -> nat {
    s@.len() as nat
}

/// The widths of a result table: each column's name length (in bytes),
/// widened to that of the longest entry below it.
pub open spec fn widths_spec(columns: Seq<nat>, rows: Seq<Seq<nat>>) -> Seq<nat>
    decreases rows.len(),
{
    if rows.len() == 0 {
        columns
    } else {
        let w = widths_spec(columns, rows.drop_last());
        let last = rows.last();
        Seq::new(w.len(), |i: int| if i < last.len() && last[i] > w[i] { last[i] } else { w[i] })
    }
}

/// The byte lengths of strings.
pub open spec fn byte_lens(v: Seq<String>) -> Seq<nat> {
    v.map_values(|s: String| (vstd::utf8::encode_utf8(s@).len() as usize) as nat)
}

/// A result table: separator, header row, separator, one row per result
/// row, separator, each on its own line.
pub open spec fn table_spec(columns: Seq<String>, rows: Seq<Vec<String>>, widths: Seq<usize>) -> Seq<char> {
    let sep = separator_spec(widths) + "\n"@;
    sep + row_spec(crate::sql::ast::strings_view(columns), widths) + "\n"@ + sep
        + table_rows(rows, widths) + sep
}

/// The row lines of a result table.
pub open spec fn table_rows(rows: Seq<Vec<String>>, widths: Seq<usize>) -> Seq<char>
    decreases rows.len(),
{
    if rows.len() == 0 {
        Seq::empty()
    } else {
        table_rows(rows.drop_last(), widths) + row_spec(crate::sql::ast::strings_view(rows.last()@), widths) + "\n"@
    }
}

/// Draws a result table: a header row of the column names and a row per
/// result row, framed by separators, each column as wide as its widest entry
/// (in bytes).
pub fn render_table(columns: &Vec<String>, rows: &Vec<Vec<String>>) -> (r: String)
    ensures
        exists|w: Seq<usize>| w.map_values(|x: usize| x as nat)
            == widths_spec(byte_lens(columns@), rows@.map_values(|v: Vec<String>| byte_lens(v@)))
            && r@ == #[trigger] table_spec(columns@, rows@, w),
{
    let ghost cl = byte_lens(columns@);
    let ghost rl = rows@.map_values(|v: Vec<String>| byte_lens(v@));
    let mut widths: Vec<usize> = Vec::new();
    let mut i: usize = 0;
    while i < columns.len()
        invariant
            i <= columns@.len(),
            cl == byte_lens(columns@),
            widths@.len() == i,
            widths@.map_values(|x: usize| x as nat) == cl.take(i as int),
        decreases columns.len() - i,
    {
        let cs = columns[i].as_str();
        let l = cs.len();
        assert(cs@ == columns@[i as int]@);
        assert(cs.spec_bytes() == vstd::utf8::encode_utf8(cs@));
        assert(l as nat == cl[i as int]);
        let ghost before = widths@;
        widths.push(l);
        proof {
            assert(cl.len() == columns@.len());
            let wv = widths@.map_values(|x: usize| x as nat);
            let bv = before.map_values(|x: usize| x as nat);
            assert forall|j: int| 0 <= j < i + 1 implies #[trigger] wv[j] == cl.take(i + 1)[j] by {
                if j < i {
                    assert(widths@[j] == before[j]);
                    assert(bv[j] == cl.take(i as int)[j]);
                }
            }
        }
        i += 1;
        assert(widths@.map_values(|x: usize| x as nat) =~= cl.take(i as int));
    }
    assert(cl.take(i as int) =~= cl);
    let mut r: usize = 0;
    while r < rows.len()
        invariant
            r <= rows@.len(),
            rl == rows@.map_values(|v: Vec<String>| byte_lens(v@)),
            widths@.map_values(|x: usize| x as nat) == widths_spec(cl, rl.take(r as int)),
        decreases rows.len() - r,
    {
        let row = &rows[r];
        let ghost w0 = widths@.map_values(|x: usize| x as nat);
        let ghost last = rl[r as int];
        assert(last == byte_lens(row@));
        let mut c: usize = 0;
        while c < widths.len()
            invariant
                c <= widths@.len(),
                w0.len() == widths@.len(),
                last == byte_lens(row@),
                forall|q: int| 0 <= q < widths@.len() ==> #[trigger] widths@[q] as nat == if q < c {
                    if q < last.len() && last[q] > w0[q] { last[q] } else { w0[q] }
                } else {
                    w0[q]
                },
            decreases widths.len() - c,
        {
            assert(last.len() == row@.len());
            if c < row.len() {
                let rs = row[c].as_str();
                let l = rs.len();
                assert(rs@ == row@[c as int]@);
                assert(rs.spec_bytes() == vstd::utf8::encode_utf8(rs@));
                assert(l as nat == last[c as int]);
                if l > widths[c] {
                    widths.set(c, l);
                }
            }
            c += 1;
        }
        proof {
            assert(rl.take(r + 1).drop_last() =~= rl.take(r as int));
            assert(rl.take(r + 1).last() == last);
        }
        r += 1;
        assert(widths@.map_values(|x: usize| x as nat) =~= widths_spec(cl, rl.take(r as int)));
    }
    assert(rl.take(r as int) =~= rl);
    let sep = separator_line(&widths);
    let mut out = String::new();
    push_str(&mut out, sep.as_str());
    push_str(&mut out, "\n");
    push_str(&mut out, row_line(columns, &widths).as_str());
    push_str(&mut out, "\n");
    push_str(&mut out, sep.as_str());
    push_str(&mut out, "\n");
    let ghost head = out@;
    let mut k: usize = 0;
    while k < rows.len()
        invariant
            k <= rows@.len(),
            out@ == head + table_rows(rows@.take(k as int), widths@),
        decreases rows.len() - k,
    {
        proof {
            assert(rows@.take(k + 1).drop_last() =~= rows@.take(k as int));
            assert(rows@.take(k + 1).last() == rows@[k as int]);
        }
        push_str(&mut out, row_line(&rows[k], &widths).as_str());
        push_str(&mut out, "\n");
        k += 1;
        assert(out@ =~= head + table_rows(rows@.take(k as int), widths@));
    }
    assert(rows@.take(k as int) =~= rows@);
    push_str(&mut out, sep.as_str());
    push_str(&mut out, "\n");
    assert(out@ =~= table_spec(columns@, rows@, widths@));
    out
}

/// The `.schema` text of a table.
pub open spec fn schema_spec(s: crate::schema::STable) -> Seq<char> {
    "CREATE TABLE "@ + s.name + " (\n"@ + schema_columns(s.columns) + ");\n"@ + "\n"@
}

/// The column lines of the `.schema` text.
pub open spec fn schema_columns(cols: Seq<crate::schema::SColumn>) -> Seq<char>
    decreases cols.len(),
{
    if cols.len() == 0 {
        Seq::empty()
    } else {
        schema_columns(cols.drop_last()) + schema_line(cols.last())
    }
}

/// The line of a column in the `.schema` text.
pub open spec fn schema_line(c: crate::schema::SColumn) -> Seq<char> {
    "  "@ + c.name + " "@ + spec_type_keyword(c.col_type)
        + (if c.is_primary_key { " PRIMARY KEY"@ } else { Seq::empty() })
        + (if c.nullable { " NULL"@ } else if !c.is_primary_key { " NOT NULL"@ } else { Seq::empty() })
        + ",\n"@
}

fn schema_line_text(col: &crate::types::ColumnDef) -> (r: String)
    ensures
        r@ == schema_line(col@),
{
    let mut out = String::from_str("  ");
    push_str(&mut out, col.name.as_str());
    push_str(&mut out, " ");
    push_str(&mut out, col.col_type.type_keyword());
    if col.is_primary_key {
        push_str(&mut out, " PRIMARY KEY");
    }
    if col.nullable {
        push_str(&mut out, " NULL");
    } else if !col.is_primary_key {
        push_str(&mut out, " NOT NULL");
    }
    push_str(&mut out, ",\n");
    proof { reveal_strlit(""); }
    assert(out@ =~= schema_line(col@));
    out
}

/// The `.schema` text of a table.
pub fn schema_text(schema: &TableSchema) -> (r: String)
    ensures
        r@ == schema_spec(schema@),
{
    let ghost cols = schema@.columns;
    let mut out = String::from_str("CREATE TABLE ");
    push_str(&mut out, schema.name.as_str());
    push_str(&mut out, " (\n");
    let ghost head = out@;
    let mut i: usize = 0;
    while i < schema.columns.len()
        invariant
            i <= cols.len(),
            cols == schema@.columns,
            out@ == head + schema_columns(cols.take(i as int)),
        decreases schema.columns.len() - i,
    {
        proof {
            assert(cols.take(i + 1).drop_last() =~= cols.take(i as int));
            assert(cols.take(i + 1).last() == schema.columns@[i as int]@);
        }
        let line = schema_line_text(&schema.columns[i]);
        push_str(&mut out, line.as_str());
        i += 1;
        assert(out@ =~= head + schema_columns(cols.take(i as int)));
    }
    assert(cols.take(i as int) =~= cols);
    push_str(&mut out, ");\n");
    push_str(&mut out, "\n");
    out
}

} // verus!
