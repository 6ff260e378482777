//! Conversion of SQL syntax trees into the database's statements.

use vstd::prelude::*;
use crate::types::{Value, SValue, ColumnType, ColumnDef, FloatOps};
use crate::error::{RustMinidbError, ParseError};
use crate::strutil::{push_str, str_eq};
use crate::migration::join;
use crate::sql::coerce::{parse_i64, parse_i64_spec, parse_usize, parse_usize_spec};
use crate::sql::ast::{WhereClause, SWhere, ComparisonOp, strings_view, copy_strings};
use crate::sql::syntax::{AstExpr, AstExprKind, AstValue, AstDataType, AstColumnOption, AstColumnDef, AstAlterOp,
    AstFunctionArgs, AstFunctionArg, AstSelectItem, AstGroupBy, AstOrderByExpr, AstTableFactor, AstTableWithJoins,
    AstAssignment, AstOnInsert, AstQuery, AstSetExpr, AstSelect, AstStatement};
use crate::sql::ast::{OnConflictAction, SAgg, aggs_view, order_view};
use crate::schema::entries_view;
use crate::sql::ast::{AlterTableOperation, AggregateDef, OrderBy, OrderByItem};
use crate::schema::{SColumn, columns_view, first_index};
use crate::sql::ast::SqlStatement;
use crate::monitor::{uppercase, to_upper};
use crate::sql::predicate::{lowercase, to_lower};

verus! {

broadcast use vstd::string::group_string_axioms;

/// The column type a declared type becomes: integers, floats, text,
/// booleans, timestamps and binary; any other type is text.
pub open spec fn data_type_spec(t: AstDataType) -> ColumnType {
    match t {
        AstDataType::Int | AstDataType::Integer | AstDataType::BigInt => ColumnType::Integer,
        AstDataType::Float | AstDataType::Double | AstDataType::Real => ColumnType::Float,
        AstDataType::Text | AstDataType::String | AstDataType::Char | AstDataType::Varchar => ColumnType::Text,
        AstDataType::Boolean => ColumnType::Boolean,
        AstDataType::Timestamp => ColumnType::Timestamp,
        AstDataType::Blob | AstDataType::Bytes => ColumnType::Blob,
        AstDataType::Other => ColumnType::Text,
    }
}

/// The column type a declared type becomes.
pub fn convert_data_type(t: AstDataType) -> (r: ColumnType)
    ensures
        r == data_type_spec(t),
{
    match t {
        AstDataType::Int | AstDataType::Integer | AstDataType::BigInt => ColumnType::Integer,
        AstDataType::Float | AstDataType::Double | AstDataType::Real => ColumnType::Float,
        AstDataType::Text | AstDataType::String | AstDataType::Char | AstDataType::Varchar => ColumnType::Text,
        AstDataType::Boolean => ColumnType::Boolean,
        AstDataType::Timestamp => ColumnType::Timestamp,
        AstDataType::Blob | AstDataType::Bytes => ColumnType::Blob,
        AstDataType::Other => ColumnType::Text,
    }
}

/// The parts of a name joined with dots.
pub fn object_name_to_string(parts: &Vec<String>) -> (r: String)
    ensures
        r@ == join(strings_view(parts@), "."@),
{
    let ghost pv = strings_view(parts@);
    let mut out = String::new();
    let mut i: usize = 0;
    while i < parts.len()
        invariant
            i <= parts@.len(),
            pv == strings_view(parts@),
            out@ == join(pv.take(i as int), "."@),
        decreases parts.len() - i,
    {
        proof {
            assert(pv.take(i + 1).drop_last() =~= pv.take(i as int));
            assert(pv.take(i + 1).last() == parts@[i as int]@);
            if i == 0 {
                assert(pv.take(1)[0] == pv[0]);
            }
        }
        if i > 0 {
            push_str(&mut out, ".");
        }
        push_str(&mut out, parts[i].as_str());
        i += 1;
    }
    assert(pv.take(i as int) =~= pv);
    out
}

/// The negation of a float given by its bits (the sign bit flipped).
pub open spec fn neg_float(b: u64) -> u64 {
    if b >= 0x8000_0000_0000_0000 { (b - 0x8000_0000_0000_0000) as u64 } else { (b + 0x8000_0000_0000_0000) as u64 }
}

/// `-v`, wrapping at the bounds of `i64`.
pub open spec fn neg_i64(v: i64) -> i64 {
    if v == i64::MIN { v } else { (-v) as i64 }
}

/// Whether `r` is a value a number's text may give: the integer when the
/// text is one, else a float (parsed by the host) or the text itself.
pub open spec fn number_value(n: Seq<char>, r: SValue) -> bool {
    match parse_i64_spec(n) {
        Some(v) => r == SValue::Integer(v),
        None => exists|p: Option<u64>| r == #[trigger] float_text(n, p),
    }
}

/// What a number's text that is no `i64` gives, from the host's parse of it
/// as a float (`parsed`): that float, or the text itself when it does not parse.
pub open spec fn float_text(n: Seq<char>, parsed: Option<u64>) -> SValue {
    match parsed {
        Some(b) => SValue::Float(b),
        None => SValue::Text(n),
    }
}

/// What a negated number's text that is no `i64` gives, from the host's parse
/// of it as a float (`parsed`): the negated float, or the text itself when it
/// does not parse.
pub open spec fn negated_float_text(n: Seq<char>, parsed: Option<u64>) -> SValue {
    match parsed {
        Some(b) => SValue::Float(neg_float(b)),
        None => SValue::Text(n),
    }
}

/// Negating a number literal negates its value. Of a text that is an `i64`
/// other than the least, the negated literal is the integer of opposite sign.
/// Of one that is not, and for the same parse by the host, the negated literal
/// gives the float that differs from the plain literal's float in the sign bit
/// alone, and the same text when the host cannot parse it.
pub proof fn law_negated_literal(n: Seq<char>, parsed: Option<u64>)
    ensures
        match parse_i64_spec(n) {
            Some(v) => v != i64::MIN ==> neg_i64(v) == -v,
            None => true,
        },
        match (float_text(n, parsed), negated_float_text(n, parsed)) {
            (SValue::Float(b), SValue::Float(x)) =>
                x as int == b as int + 0x8000_0000_0000_0000 || x as int == b as int - 0x8000_0000_0000_0000,
            (SValue::Text(a), SValue::Text(c)) => a == n && c == n,
            _ => false,
        },
{
}

/// The value of a number's text that is no `i64`, from the host's parse of it.
pub fn float_or_text(n: &String, parsed: Option<u64>) -> (r: Value)
    ensures
        r@ == float_text(n@, parsed),
{
    match parsed {
        Some(b) => Value::Float(b),
        None => Value::Text(n.clone()),
    }
}

/// The value of a negated number's text that is no `i64`, from the host's
/// parse of it.
pub fn negated_float_or_text(n: &String, parsed: Option<u64>) -> (r: Value)
    ensures
        r@ == negated_float_text(n@, parsed),
{
    match parsed {
        Some(b) => {
            let nb: u64 = if b >= 0x8000_0000_0000_0000u64 { b - 0x8000_0000_0000_0000u64 } else { b + 0x8000_0000_0000_0000u64 };
            Value::Float(nb)
        },
        None => Value::Text(n.clone()),
    }
}

/// Whether `r` is what a literal expression may give: numbers as above,
/// strings, booleans and NULL as themselves, a negated number negated (any
/// other unary operator is dropped), a typed string or a name as text; any
/// other expression is an error naming it.
pub open spec fn value_result(e: AstExpr, r: Result<SValue, Seq<char>>) -> bool
    decreases e,
{
    match e.kind {
        AstExprKind::Value(AstValue::Number(n)) => r matches Ok(v) && number_value(n@, v),
        AstExprKind::Value(AstValue::SingleQuoted(s)) => r == Ok::<SValue, Seq<char>>(SValue::Text(s@)),
        AstExprKind::Value(AstValue::Boolean(b)) => r == Ok::<SValue, Seq<char>>(SValue::Boolean(b)),
        AstExprKind::Value(AstValue::Null) => r == Ok::<SValue, Seq<char>>(SValue::Null),
        AstExprKind::UnaryOp(inner) => match inner.kind {
            AstExprKind::Value(AstValue::Number(n)) => match parse_i64_spec(n@) {
                Some(v) => r == Ok::<SValue, Seq<char>>(SValue::Integer(neg_i64(v))),
                None => exists|p: Option<u64>| r == Ok::<SValue, Seq<char>>(#[trigger] negated_float_text(n@, p)),
            },
            _ => value_result(*inner, r),
        },
        AstExprKind::TypedString(v) => r == Ok::<SValue, Seq<char>>(SValue::Text(v@)),
        AstExprKind::CompoundIdentifier(parts) => r == Ok::<SValue, Seq<char>>(SValue::Text(join(strings_view(parts@), "."@))),
        AstExprKind::Identifier(id) => r == Ok::<SValue, Seq<char>>(SValue::Text(id@)),
        _ => r == Err::<SValue, Seq<char>>("不支持的表达式: "@ + e.debug@),
    }
}

/// The view of a conversion result with a syntax error.
pub open spec fn syntax_result<T, V>(r: Result<T, RustMinidbError>, f: spec_fn(T) -> V) -> Result<V, Seq<char>> {
    match r {
        Ok(x) => Ok(f(x)),
        Err(RustMinidbError::Parse(ParseError::Syntax(m))) => Err(m@),
        Err(_) => Err(Seq::empty()),
    }
}

/// A syntax error.
fn syntax_error(msg: String) -> (r: RustMinidbError)
    ensures
        r == RustMinidbError::Parse(ParseError::Syntax(msg)),
{
    RustMinidbError::Parse(ParseError::Syntax(msg))
}

/// `prefix` followed by `s`.
fn prefixed(prefix: &str, s: &str) -> (r: String)
    ensures
        r@ == prefix@ + s@,
{
    let mut out = String::new();
    push_str(&mut out, prefix);
    push_str(&mut out, s);
    out
}

/// The value a number's text gives: an integer when it is one, else a float
/// when the host parses it, else the text.
fn number_to_value<F: FloatOps>(n: &String, floats: &F) -> (r: Value)
    ensures
        number_value(n@, r@),
{
    match parse_i64(n.as_str()) {
        Some(v) => Value::Integer(v),
        None => float_or_text(n, floats.parse(n.as_str())),
    }
}

/// The value of a literal expression.
pub fn expr_to_value<F: FloatOps>(expr: &AstExpr, floats: &F) -> (r: Result<Value, RustMinidbError>)
    ensures
        r is Ok || r matches Err(RustMinidbError::Parse(ParseError::Syntax(_))),
        value_result(*expr, syntax_result(r, |v: Value| v@)),
    decreases expr,
{
    match &expr.kind {
        AstExprKind::Value(AstValue::Number(n)) => Ok(number_to_value(n, floats)),
        AstExprKind::Value(AstValue::SingleQuoted(s)) => Ok(Value::Text(s.clone())),
        AstExprKind::Value(AstValue::Boolean(b)) => Ok(Value::Boolean(*b)),
        AstExprKind::Value(AstValue::Null) => Ok(Value::Null),
        AstExprKind::UnaryOp(inner) => {
            if let AstExprKind::Value(AstValue::Number(n)) = &inner.kind {
                if let Some(v) = parse_i64(n.as_str()) {
                    let nv: i64 = if v == i64::MIN { v } else { -v };
                    return Ok(Value::Integer(nv));
                } else {
                    return Ok(negated_float_or_text(n, floats.parse(n.as_str())));
                }
            }
            expr_to_value(inner, floats)
        },
        AstExprKind::TypedString(v) => Ok(Value::Text(v.clone())),
        AstExprKind::CompoundIdentifier(parts) => Ok(Value::Text(object_name_to_string(parts))),
        AstExprKind::Identifier(id) => Ok(Value::Text(id.clone())),
        _ => Err(syntax_error(prefixed("不支持的表达式: ", expr.debug.as_str()))),
    }
}

/// The name of a column expression, when it is a plain name.
pub open spec fn column_of(e: AstExpr) -> Option<Seq<char>> {
    match e.kind {
        AstExprKind::Identifier(id) => Some(id@),
        _ => None,
    }
}

/// The comparison an operator's text names.
pub open spec fn comparison_of(op: Seq<char>) -> Option<ComparisonOp> {
    if op == "="@ { Some(ComparisonOp::Eq) }
    else if op == "<>"@ || op == "!="@ { Some(ComparisonOp::NotEq) }
    else if op == "<"@ { Some(ComparisonOp::Lt) }
    else if op == "<="@ { Some(ComparisonOp::LtEq) }
    else if op == ">"@ { Some(ComparisonOp::Gt) }
    else if op == ">="@ { Some(ComparisonOp::GtEq) }
    else { None }
}

/// The text of a string or number literal.
pub open spec fn literal_text(e: AstExpr) -> Option<Seq<char>> {
    match e.kind {
        AstExprKind::Value(AstValue::SingleQuoted(s)) => Some(s@),
        AstExprKind::Value(AstValue::DoubleQuoted(s)) => Some(s@),
        AstExprKind::Value(AstValue::Number(n)) => Some(n@),
        _ => None,
    }
}

/// Whether `r` is what the literals of a list may give: their values in
/// order, or the error of the first one that has none.
pub open spec fn values_result(list: Seq<AstExpr>, r: Result<Seq<SValue>, Seq<char>>) -> bool {
    match r {
        Ok(vs) => vs.len() == list.len() && forall|i: int| 0 <= i < list.len() ==> value_result(list[i], Ok(#[trigger] vs[i])),
        Err(m) => exists|k: int| 0 <= k < list.len() && value_result(#[trigger] list[k], Err(m))
            && forall|j: int| 0 <= j < k ==> has_value(#[trigger] list[j]),
    }
}

/// Whether a literal expression gives a value.
pub open spec fn has_value(e: AstExpr) -> bool
    decreases e,
{
    match e.kind {
        AstExprKind::Value(AstValue::Number(_)) => true,
        AstExprKind::Value(AstValue::SingleQuoted(_)) => true,
        AstExprKind::Value(AstValue::Boolean(_)) => true,
        AstExprKind::Value(AstValue::Null) => true,
        AstExprKind::UnaryOp(inner) => match inner.kind {
            AstExprKind::Value(AstValue::Number(_)) => true,
            _ => has_value(*inner),
        },
        AstExprKind::TypedString(_) => true,
        AstExprKind::CompoundIdentifier(_) => true,
        AstExprKind::Identifier(_) => true,
        _ => false,
    }
}

/// A literal expression that gives a value has one.
proof fn lemma_has_value(e: AstExpr, v: SValue)
    requires
        value_result(e, Ok(v)),
    ensures
        has_value(e),
    decreases e,
{
    if let AstExprKind::UnaryOp(inner) = e.kind {
        if !(inner.kind is Value && inner.kind->Value_0 is Number) {
            lemma_has_value(*inner, v);
        }
    }
}

/// Whether every literal of a list gives a value.
pub open spec fn all_have_values(list: Seq<AstExpr>) -> bool {
    forall|i: int| 0 <= i < list.len() ==> has_value(#[trigger] list[i])
}

/// Whether a condition converts without error.
pub open spec fn where_converts(e: AstExpr) -> bool
    decreases e,
{
    match e.kind {
        AstExprKind::BinaryOp { left, op, right } =>
            if op@ == "AND"@ || op@ == "And"@ || op@ == "OR"@ || op@ == "Or"@ {
                where_converts(*left) && where_converts(*right)
            } else {
                comparison_of(op@) is Some && column_of(*left) is Some && has_value(*right)
            },
        AstExprKind::Like { expr, pattern, .. } => column_of(*expr) is Some && literal_text(*pattern) is Some,
        AstExprKind::ILike { expr, pattern, .. } => column_of(*expr) is Some && literal_text(*pattern) is Some,
        AstExprKind::InList { expr, list, .. } => column_of(*expr) is Some && all_have_values(list@),
        AstExprKind::IsNull(inner) => column_of(*inner) is Some,
        AstExprKind::IsNotNull(inner) => column_of(*inner) is Some,
        AstExprKind::Between { expr, low, high, .. } => column_of(*expr) is Some && has_value(*low) && has_value(*high),
        _ => false,
    }
}

/// A condition that gives a result converts.
proof fn lemma_where_converts(e: AstExpr, w: SWhere)
    requires
        where_result(e, Ok(w)),
    ensures
        where_converts(e),
    decreases e,
{
    match e.kind {
        AstExprKind::BinaryOp { left, op, right } => {
            if op@ == "AND"@ || op@ == "And"@ || op@ == "OR"@ || op@ == "Or"@ {
                let a = if op@ == "AND"@ || op@ == "And"@ { *w->And_0 } else { *w->Or_0 };
                let b = if op@ == "AND"@ || op@ == "And"@ { *w->And_1 } else { *w->Or_1 };
                lemma_where_converts(*left, a);
                lemma_where_converts(*right, b);
            } else if comparison_of(op@) is Some && column_of(*left) is Some {
                let v = choose|v: SValue| #[trigger] value_result(*right, Ok(v))
                    && w == (SWhere::Simple { column: column_of(*left)->0, operator: comparison_of(op@)->0, value: v });
                lemma_has_value(*right, v);
            }
        },
        AstExprKind::InList { expr, list, negated } => {
            if column_of(*expr) is Some {
                let vs = choose|vs: Seq<SValue>| #[trigger] values_result(list@, Ok(vs))
                    && w == (SWhere::InList { column: column_of(*expr)->0, values: vs, negated });
                assert forall|i: int| 0 <= i < list@.len() implies has_value(#[trigger] list@[i]) by {
                    lemma_has_value(list@[i], vs[i]);
                }
            }
        },
        AstExprKind::Between { expr, negated, low, high } => {
            if column_of(*expr) is Some {
                let (lo, hi) = choose|lo: SValue, hi: SValue| #![trigger value_result(*low, Ok(lo)), value_result(*high, Ok(hi))]
                    value_result(*low, Ok(lo)) && value_result(*high, Ok(hi));
                lemma_has_value(*low, lo);
                lemma_has_value(*high, hi);
            }
        },
        _ => {},
    }
}

/// Whether `r` is what a WHERE expression may give.  A comparison needs a
/// column name on the left and a literal on the right; AND and OR combine
/// conditions (the left one is converted first); LIKE and ILIKE need a
/// column and a string pattern (ILIKE marks the pattern with `ILike:`); IN
/// takes a list of literals; IS [NOT] NULL a column; BETWEEN a column and two
/// literals, NOT BETWEEN becoming `col < low OR col > high`.  Anything else
/// is an error naming what is wrong.
pub open spec fn where_result(e: AstExpr, r: Result<SWhere, Seq<char>>) -> bool
    decreases e,
{
    match e.kind {
        AstExprKind::BinaryOp { left, op, right } =>
            if op@ == "AND"@ || op@ == "And"@ || op@ == "OR"@ || op@ == "Or"@ {
                let is_and = op@ == "AND"@ || op@ == "And"@;
                match r {
                    Ok(w) => if is_and {
                        w matches SWhere::And(a, b) && where_result(*left, Ok(*a)) && where_result(*right, Ok(*b))
                    } else {
                        w matches SWhere::Or(a, b) && where_result(*left, Ok(*a)) && where_result(*right, Ok(*b))
                    },
                    Err(m) => where_result(*left, Err(m)) || (where_converts(*left) && where_result(*right, Err(m))),
                }
            } else {
                match comparison_of(op@) {
                    None => r == Err::<SWhere, Seq<char>>("不支持的运算符: "@ + op@),
                    Some(c) => match column_of(*left) {
                        None => r == Err::<SWhere, Seq<char>>("WHERE 条件左侧必须是列名"@),
                        Some(col) => match r {
                            Ok(w) => exists|v: SValue| #[trigger] value_result(*right, Ok(v))
                                && w == (SWhere::Simple { column: col, operator: c, value: v }),
                            Err(m) => value_result(*right, Err(m)),
                        },
                    },
                }
            },
        AstExprKind::Like { negated, expr, pattern } => match column_of(*expr) {
            None => r == Err::<SWhere, Seq<char>>("LIKE 左侧必须是列名"@),
            Some(col) => match literal_text(*pattern) {
                None => r == Err::<SWhere, Seq<char>>("LIKE 模式必须是字符串"@),
                Some(p) => r == Ok::<SWhere, Seq<char>>(SWhere::Like { column: col, pattern: p, negated }),
            },
        },
        AstExprKind::ILike { negated, expr, pattern } => match column_of(*expr) {
            None => r == Err::<SWhere, Seq<char>>("ILIKE 左侧必须是列名"@),
            Some(col) => match literal_text(*pattern) {
                None => r == Err::<SWhere, Seq<char>>("ILIKE 模式必须是字符串"@),
                Some(p) => r == Ok::<SWhere, Seq<char>>(SWhere::Like { column: col, pattern: "ILike:"@ + p, negated }),
            },
        },
        AstExprKind::InList { expr, list, negated } => match column_of(*expr) {
            None => r == Err::<SWhere, Seq<char>>("IN 左侧必须是列名"@),
            Some(col) => match r {
                Ok(w) => exists|vs: Seq<SValue>| #[trigger] values_result(list@, Ok(vs))
                    && w == (SWhere::InList { column: col, values: vs, negated }),
                Err(m) => values_result(list@, Err(m)),
            },
        },
        AstExprKind::IsNull(inner) => match column_of(*inner) {
            None => r == Err::<SWhere, Seq<char>>("IS NULL 左侧必须是列名"@),
            Some(col) => r == Ok::<SWhere, Seq<char>>(SWhere::IsNull { column: col, negated: false }),
        },
        AstExprKind::IsNotNull(inner) => match column_of(*inner) {
            None => r == Err::<SWhere, Seq<char>>("IS NOT NULL 左侧必须是列名"@),
            Some(col) => r == Ok::<SWhere, Seq<char>>(SWhere::IsNull { column: col, negated: true }),
        },
        AstExprKind::Between { expr, negated, low, high } => match column_of(*expr) {
            None => r == Err::<SWhere, Seq<char>>("BETWEEN 左侧必须是列名"@),
            Some(col) => match r {
                Ok(w) => exists|lo: SValue, hi: SValue| #![trigger value_result(*low, Ok(lo)), value_result(*high, Ok(hi))]
                    value_result(*low, Ok(lo)) && value_result(*high, Ok(hi))
                    && if negated {
                        w matches SWhere::Or(a, b)
                            && *a == (SWhere::Simple { column: col, operator: ComparisonOp::Lt, value: lo })
                            && *b == (SWhere::Simple { column: col, operator: ComparisonOp::Gt, value: hi })
                    } else {
                        w == (SWhere::Between { column: col, low: lo, high: hi })
                    },
                Err(m) => value_result(*low, Err(m)) || (has_value(*low) && value_result(*high, Err(m))),
            },
        },
        _ => r == Err::<SWhere, Seq<char>>("不支持的 WHERE 表达式: "@ + e.debug@),
    }
}

/// The name of a column expression.
fn column_name(e: &AstExpr) -> (r: Option<String>)
    ensures
        match r {
            Some(s) => column_of(*e) == Some(s@),
            None => column_of(*e) is None,
        },
{
    match &e.kind {
        AstExprKind::Identifier(id) => Some(id.clone()),
        _ => None,
    }
}

/// The text of a string or number literal.
fn expr_to_string(e: &AstExpr) -> (r: Option<String>)
    ensures
        match r {
            Some(s) => literal_text(*e) == Some(s@),
            None => literal_text(*e) is None,
        },
{
    match &e.kind {
        AstExprKind::Value(AstValue::SingleQuoted(s)) => Some(s.clone()),
        AstExprKind::Value(AstValue::DoubleQuoted(s)) => Some(s.clone()),
        AstExprKind::Value(AstValue::Number(n)) => Some(n.clone()),
        _ => None,
    }
}

/// The values of a list of literals.
fn list_values<F: FloatOps>(list: &Vec<AstExpr>, floats: &F) -> (r: Result<Vec<Value>, RustMinidbError>)
    ensures
        r is Ok || r matches Err(RustMinidbError::Parse(ParseError::Syntax(_))),
        values_result(list@, syntax_result(r, |v: Vec<Value>| crate::types::values_view(v@))),
{
    let mut out: Vec<Value> = Vec::new();
    let mut i: usize = 0;
    while i < list.len()
        invariant
            i <= list@.len(),
            out@.len() == i,
            forall|j: int| 0 <= j < i ==> value_result(list@[j], Ok(#[trigger] out@[j]@)),
        decreases list.len() - i,
    {
        match expr_to_value(&list[i], floats) {
            Ok(v) => {
                out.push(v);
            },
            Err(e) => {
                proof {
                    let m = syntax_result(Err::<Value, RustMinidbError>(e), |v: Value| v@)->Err_0;
                    assert(value_result(list@[i as int], Err(m)));
                    assert forall|j: int| 0 <= j < i implies has_value(#[trigger] list@[j]) by {
                        lemma_has_value(list@[j], out@[j]@);
                    }
                    assert(values_result(list@, Err(m)));
                    assert(syntax_result(Err::<Vec<Value>, RustMinidbError>(e), |v: Vec<Value>| crate::types::values_view(v@))
                        == Err::<Seq<SValue>, Seq<char>>(m));
                }
                return Err(e);
            },
        }
        i += 1;
    }
    assert forall|j: int| 0 <= j < list@.len() implies value_result(list@[j], Ok(#[trigger] crate::types::values_view(out@)[j])) by {
        assert(crate::types::values_view(out@)[j] == out@[j]@);
    }
    Ok(out)
}

/// The comparison an operator's text names.
fn comparison_op(op: &String) -> (r: Option<ComparisonOp>)
    ensures
        r == comparison_of(op@),
{
    let o = op.as_str();
    proof {
        reveal_strlit("="); reveal_strlit("<>"); reveal_strlit("!="); reveal_strlit("<");
        reveal_strlit("<="); reveal_strlit(">"); reveal_strlit(">=");
    }
    if str_eq(o, "=") { Some(ComparisonOp::Eq) }
    else if str_eq(o, "<>") || str_eq(o, "!=") { Some(ComparisonOp::NotEq) }
    else if str_eq(o, "<") { Some(ComparisonOp::Lt) }
    else if str_eq(o, "<=") { Some(ComparisonOp::LtEq) }
    else if str_eq(o, ">") { Some(ComparisonOp::Gt) }
    else if str_eq(o, ">=") { Some(ComparisonOp::GtEq) }
    else { None }
}

/// Converts a WHERE (or HAVING) expression into a condition.
pub fn convert_expr_to_where<F: FloatOps>(expr: &AstExpr, floats: &F) -> (r: Result<WhereClause, RustMinidbError>)
    ensures
        r is Ok || r matches Err(RustMinidbError::Parse(ParseError::Syntax(_))),
        where_result(*expr, syntax_result(r, |w: WhereClause| w@)),
    decreases expr,
{
    match &expr.kind {
        AstExprKind::BinaryOp { left, op, right } => {
            let o = op.as_str();
            let is_and = str_eq(o, "AND") || str_eq(o, "And");
            let is_or = str_eq(o, "OR") || str_eq(o, "Or");
            if is_and || is_or {
                let a = match convert_expr_to_where(left, floats) {
                    Ok(w) => w,
                    Err(e) => {
                        return Err(e);
                    },
                };
                let b = match convert_expr_to_where(right, floats) {
                    Ok(w) => w,
                    Err(e) => {
                        proof {
                            lemma_where_converts(**left, a@);
                        }
                        return Err(e);
                    },
                };
                let ghost av = a@;
                let ghost bv = b@;
                let w = if is_and { WhereClause::And(Box::new(a), Box::new(b)) } else { WhereClause::Or(Box::new(a), Box::new(b)) };
                assert(w@ == if is_and { SWhere::And(Box::new(av), Box::new(bv)) } else { SWhere::Or(Box::new(av), Box::new(bv)) });
                return Ok(w);
            }
            let operator = match comparison_op(op) {
                Some(c) => c,
                None => {
                    return Err(syntax_error(prefixed("不支持的运算符: ", o)));
                },
            };
            let column = match column_name(left) {
                Some(c) => c,
                None => {
                    return Err(syntax_error(String::from_str("WHERE 条件左侧必须是列名")));
                },
            };
            let value = expr_to_value(right, floats)?;
            Ok(WhereClause::Simple { column, operator, value })
        },
        AstExprKind::Like { negated, expr: inner, pattern } => {
            let column = match column_name(inner) {
                Some(c) => c,
                None => {
                    return Err(syntax_error(String::from_str("LIKE 左侧必须是列名")));
                },
            };
            let p = match expr_to_string(pattern) {
                Some(p) => p,
                None => {
                    return Err(syntax_error(String::from_str("LIKE 模式必须是字符串")));
                },
            };
            Ok(WhereClause::Like { column, pattern: p, negated: *negated })
        },
        AstExprKind::ILike { negated, expr: inner, pattern } => {
            let column = match column_name(inner) {
                Some(c) => c,
                None => {
                    return Err(syntax_error(String::from_str("ILIKE 左侧必须是列名")));
                },
            };
            let p = match expr_to_string(pattern) {
                Some(p) => p,
                None => {
                    return Err(syntax_error(String::from_str("ILIKE 模式必须是字符串")));
                },
            };
            Ok(WhereClause::Like { column, pattern: prefixed("ILike:", p.as_str()), negated: *negated })
        },
        AstExprKind::InList { expr: inner, list, negated } => {
            let column = match column_name(inner) {
                Some(c) => c,
                None => {
                    return Err(syntax_error(String::from_str("IN 左侧必须是列名")));
                },
            };
            let values = list_values(list, floats)?;
            Ok(WhereClause::InList { column, values, negated: *negated })
        },
        AstExprKind::IsNull(inner) => {
            let column = match column_name(inner) {
                Some(c) => c,
                None => {
                    return Err(syntax_error(String::from_str("IS NULL 左侧必须是列名")));
                },
            };
            Ok(WhereClause::IsNull { column, negated: false })
        },
        AstExprKind::IsNotNull(inner) => {
            let column = match column_name(inner) {
                Some(c) => c,
                None => {
                    return Err(syntax_error(String::from_str("IS NOT NULL 左侧必须是列名")));
                },
            };
            Ok(WhereClause::IsNull { column, negated: true })
        },
        AstExprKind::Between { expr: inner, negated, low, high } => {
            let column = match column_name(inner) {
                Some(c) => c,
                None => {
                    return Err(syntax_error(String::from_str("BETWEEN 左侧必须是列名")));
                },
            };
            let low_val = expr_to_value(low, floats)?;
            let high_val = match expr_to_value(high, floats) {
                Ok(v) => v,
                Err(e) => {
                    proof { lemma_has_value(**low, low_val@); }
                    return Err(e);
                },
            };
            if *negated {
                let ghost lo = low_val@;
                let ghost hi = high_val@;
                let ghost col = column@;
                let s1 = WhereClause::Simple { column: column.clone(), operator: ComparisonOp::Lt, value: low_val };
                let s2 = WhereClause::Simple { column, operator: ComparisonOp::Gt, value: high_val };
                let ghost v1 = s1@;
                let ghost v2 = s2@;
                assert(v1 == (SWhere::Simple { column: col, operator: ComparisonOp::Lt, value: lo }));
                assert(v2 == (SWhere::Simple { column: col, operator: ComparisonOp::Gt, value: hi }));
                let w = WhereClause::Or(Box::new(s1), Box::new(s2));
                assert(w@ == SWhere::Or(Box::new(v1), Box::new(v2)));
                assert(w@ matches SWhere::Or(a, b)
                    && *a == (SWhere::Simple { column: col, operator: ComparisonOp::Lt, value: lo })
                    && *b == (SWhere::Simple { column: col, operator: ComparisonOp::Gt, value: hi }));
                return Ok(w);
            }
            Ok(WhereClause::Between { column, low: low_val, high: high_val })
        },
        _ => Err(syntax_error(prefixed("不支持的 WHERE 表达式: ", expr.debug.as_str()))),
    }
}

/// Whether a dialect-specific token marks an auto-incrementing column.
pub open spec fn is_auto_token(t: Seq<char>) -> bool {
    uppercase(t) == "AUTO_INCREMENT"@ || uppercase(t) == "AUTOINCREMENT"@
}

/// Whether an option is NOT NULL.
pub open spec fn opt_not_null(o: AstColumnOption) -> bool {
    o is NotNull
}

/// Whether an option is PRIMARY KEY.
pub open spec fn opt_primary(o: AstColumnOption) -> bool {
    o matches AstColumnOption::Unique { is_primary } && is_primary
}

/// Whether an option marks the column auto-incrementing.
pub open spec fn opt_auto(o: AstColumnOption) -> bool {
    o matches AstColumnOption::DialectSpecific(toks) && exists|j: int| 0 <= j < toks@.len() && is_auto_token(#[trigger] toks@[j]@)
}

/// The position of the last option satisfying a predicate among the first `k`.
pub open spec fn last_option(opts: Seq<AstColumnOption>, k: int, p: spec_fn(AstColumnOption) -> bool) -> Option<int>
    decreases k,
{
    if k <= 0 { None } else if p(opts[k - 1]) { Some(k - 1) } else { last_option(opts, k - 1, p) }
}

/// Whether the default given by the options may be `d`: the value of the
/// last DEFAULT's expression, or none without a DEFAULT.
pub open spec fn default_ok(opts: Seq<AstColumnOption>, d: Option<SValue>) -> bool {
    match last_option(opts, opts.len() as int, |o: AstColumnOption| o is Default) {
        Some(k) => d matches Some(v) && value_result(opts[k]->Default_0, Ok(v)),
        None => d is None,
    }
}

/// The comment given by the options: that of the last COMMENT.
pub open spec fn comment_of(opts: Seq<AstColumnOption>) -> Option<Seq<char>> {
    match last_option(opts, opts.len() as int, |o: AstColumnOption| o is Comment) {
        Some(k) => Some(opts[k]->Comment_0@),
        None => None,
    }
}

/// Whether `r` is what a column definition of CREATE TABLE may give: the
/// column's name and type; NOT NULL, PRIMARY KEY and AUTO_INCREMENT (which
/// makes the column the primary key) as flags; the last DEFAULT and COMMENT;
/// or the error of the first DEFAULT whose expression has no value.
pub open spec fn column_result(c: AstColumnDef, r: Result<SColumn, Seq<char>>) -> bool {
    let opts = c.options@;
    let np = exists|i: int| 0 <= i < opts.len() && opt_not_null(#[trigger] opts[i]);
    let pk = exists|i: int| 0 <= i < opts.len() && opt_primary(#[trigger] opts[i]);
    let auto = exists|i: int| 0 <= i < opts.len() && opt_auto(#[trigger] opts[i]);
    match r {
        Ok(col) => (forall|i: int| 0 <= i < opts.len() ==> (#[trigger] opts[i] is Default ==> has_value(opts[i]->Default_0)))
            && col.name == c.name@
            && col.col_type == data_type_spec(c.data_type)
            && col.nullable == !(np || pk || auto)
            && col.is_primary_key == (pk || auto)
            && col.auto_increment == auto
            && default_ok(opts, col.default)
            && col.comment == comment_of(opts),
        Err(m) => exists|k: int| 0 <= k < opts.len() && #[trigger] opts[k] is Default
            && value_result(opts[k]->Default_0, Err(m))
            && forall|j: int| 0 <= j < k ==> (#[trigger] opts[j] is Default ==> has_value(opts[j]->Default_0)),
    }
}

/// Whether a token list holds an auto-increment token.
fn has_auto_token(toks: &Vec<String>) -> (r: bool)
    ensures
        r == exists|j: int| 0 <= j < toks@.len() && is_auto_token(#[trigger] toks@[j]@),
{
    proof { reveal_strlit("AUTO_INCREMENT"); reveal_strlit("AUTOINCREMENT"); }
    let mut j: usize = 0;
    while j < toks.len()
        invariant
            j <= toks@.len(),
            forall|q: int| 0 <= q < j ==> !is_auto_token(#[trigger] toks@[q]@),
        decreases toks.len() - j,
    {
        let u = to_upper(toks[j].as_str());
        if str_eq(u.as_str(), "AUTO_INCREMENT") || str_eq(u.as_str(), "AUTOINCREMENT") {
            assert(is_auto_token(toks@[j as int]@));
            return true;
        }
        j += 1;
    }
    false
}

/// Converts a column definition of CREATE TABLE.
#[verifier::rlimit(60)]
fn convert_column<F: FloatOps>(c: &AstColumnDef, floats: &F) -> (r: Result<ColumnDef, RustMinidbError>)
    ensures
        r is Ok || r matches Err(RustMinidbError::Parse(ParseError::Syntax(_))),
        column_result(*c, syntax_result(r, |d: ColumnDef| d@)),
{
    let ghost opts = c.options@;
    let col_type = convert_data_type(c.data_type);
    let mut nullable = true;
    let mut is_primary_key = false;
    let mut auto_increment = false;
    let mut default: Option<Value> = None;
    let mut comment: Option<String> = None;
    let mut i: usize = 0;
    while i < c.options.len()
        invariant
            i <= opts.len(),
            opts == c.options@,
            nullable == !((exists|q: int| 0 <= q < i && opt_not_null(#[trigger] opts[q]))
                || (exists|q: int| 0 <= q < i && opt_auto(#[trigger] opts[q]))),
            is_primary_key == (exists|q: int| 0 <= q < i && opt_auto(#[trigger] opts[q])),
            auto_increment == (exists|q: int| 0 <= q < i && opt_auto(#[trigger] opts[q])),
            forall|q: int| 0 <= q < i ==> (#[trigger] opts[q] is Default ==> has_value(opts[q]->Default_0)),
            match last_option(opts, i as int, |o: AstColumnOption| o is Default) {
                Some(k) => default matches Some(v) && value_result(opts[k]->Default_0, Ok(v@)),
                None => default is None,
            },
            crate::schema::opt_str_view(comment) == match last_option(opts, i as int, |o: AstColumnOption| o is Comment) {
                Some(k) => Some(opts[k]->Comment_0@),
                None => None::<Seq<char>>,
            },
        decreases opts.len() - i,
    {
        match &c.options[i] {
            AstColumnOption::NotNull => {
                nullable = false;
            },
            AstColumnOption::Unique { .. } => {},
            AstColumnOption::Default(e) => {
                match expr_to_value(e, floats) {
                    Ok(v) => {
                        proof { lemma_has_value(*e, v@); }
                        default = Some(v);
                    },
                    Err(err) => {
                        proof {
                            let m = syntax_result(Err::<Value, RustMinidbError>(err), |v: Value| v@)->Err_0;
                            assert(opts[i as int] is Default && value_result(opts[i as int]->Default_0, Err(m)));
                            assert(syntax_result(Err::<ColumnDef, RustMinidbError>(err), |d: ColumnDef| d@)
                                == Err::<SColumn, Seq<char>>(m));
                        }
                        return Err(err);
                    },
                }
            },
            AstColumnOption::Comment(text) => {
                comment = Some(text.clone());
            },
            AstColumnOption::DialectSpecific(toks) => {
                if has_auto_token(toks) {
                    is_primary_key = true;
                    nullable = false;
                    auto_increment = true;
                }
            },
            AstColumnOption::Other => {},
        }
        proof {
            assert(opts[i as int] == c.options@[i as int]);
        }
        i += 1;
    }
    let mut j: usize = 0;
    while j < c.options.len()
        invariant
            j <= opts.len(),
            opts == c.options@,
            is_primary_key == ((exists|q: int| 0 <= q < opts.len() && opt_auto(#[trigger] opts[q]))
                || (exists|q: int| 0 <= q < j && opt_primary(#[trigger] opts[q]))),
            nullable == !((exists|q: int| 0 <= q < opts.len() && opt_not_null(#[trigger] opts[q]))
                || (exists|q: int| 0 <= q < opts.len() && opt_auto(#[trigger] opts[q]))
                || (exists|q: int| 0 <= q < j && opt_primary(#[trigger] opts[q]))),
        decreases opts.len() - j,
    {
        if let AstColumnOption::Unique { is_primary: true } = &c.options[j] {
            is_primary_key = true;
            nullable = false;
        }
        j += 1;
    }
    let d = ColumnDef {
        name: c.name.clone(),
        col_type,
        nullable,
        is_primary_key,
        default,
        auto_increment,
        comment,
    };
    Ok(d)
}

/// Whether a column definition converts without error.
pub open spec fn column_converts(c: AstColumnDef) -> bool {
    forall|i: int| 0 <= i < c.options@.len() ==> (#[trigger] c.options@[i] is Default ==> has_value(c.options@[i]->Default_0))
}

/// Whether `r` is what the column definitions may give: each converted, or
/// the error of the first that fails.
pub open spec fn columns_result(cs: Seq<AstColumnDef>, r: Result<Seq<SColumn>, Seq<char>>) -> bool {
    match r {
        Ok(cols) => cols.len() == cs.len() && forall|i: int| 0 <= i < cs.len() ==> column_result(cs[i], Ok(#[trigger] cols[i])),
        Err(m) => exists|k: int| 0 <= k < cs.len() && column_result(#[trigger] cs[k], Err(m))
            && forall|j: int| 0 <= j < k ==> column_converts(#[trigger] cs[j]),
    }
}

/// The columns with a primary key: when none is marked, the first column
/// called `id` (in any case) becomes the NOT NULL primary key.
pub open spec fn with_id_key(cols: Seq<SColumn>) -> Seq<SColumn> {
    if exists|i: int| 0 <= i < cols.len() && (#[trigger] cols[i]).is_primary_key {
        cols
    } else {
        match first_index(cols, |c: SColumn| lowercase(c.name) == "id"@) {
            Some(k) => cols.update(k, SColumn { is_primary_key: true, nullable: false, ..cols[k] }),
            None => cols,
        }
    }
}

proof fn lemma_column_converts(c: AstColumnDef, col: SColumn)
    requires
        column_result(c, Ok(col)),
    ensures
        column_converts(c),
{
}

/// Converts CREATE TABLE.
fn convert_create_table<F: FloatOps>(name: &Vec<String>, columns: &Vec<AstColumnDef>, if_not_exists: bool, floats: &F)
    -> (r: Result<SqlStatement, RustMinidbError>)
    ensures
        create_table_result(name, columns, if_not_exists, r),

{
    let table_name = object_name_to_string(name);
    let mut cols: Vec<ColumnDef> = Vec::new();
    let mut i: usize = 0;
    while i < columns.len()
        invariant
            i <= columns@.len(),
            cols@.len() == i,
            forall|q: int| 0 <= q < i ==> column_result(columns@[q], Ok(#[trigger] cols@[q]@)),
        decreases columns.len() - i,
    {
        match convert_column(&columns[i], floats) {
            Ok(c) => {
                cols.push(c);
            },
            Err(e) => {
                proof {
                    let m = syntax_result(Err::<ColumnDef, RustMinidbError>(e), |d: ColumnDef| d@)->Err_0;
                    assert(column_result(columns@[i as int], Err(m)));
                    assert forall|j: int| 0 <= j < i implies column_converts(#[trigger] columns@[j]) by {
                        lemma_column_converts(columns@[j], cols@[j]@);
                    }
                    assert(columns_result(columns@, Err(m)));
                }
                return Err(e);
            },
        }
        i += 1;
    }
    let ghost raw = columns_view(cols@);
    assert(columns_result(columns@, Ok(raw))) by {
        assert forall|q: int| 0 <= q < columns@.len() implies column_result(columns@[q], Ok(#[trigger] raw[q])) by {
            assert(raw[q] == cols@[q]@);
        }
    }
    let mut has_pk = false;
    let mut k: usize = 0;
    while k < cols.len()
        invariant
            k <= cols@.len(),
            raw == columns_view(cols@),
            has_pk == exists|q: int| 0 <= q < k && (#[trigger] raw[q]).is_primary_key,
        decreases cols.len() - k,
    {
        assert(raw[k as int] == cols@[k as int]@);
        if cols[k].is_primary_key {
            has_pk = true;
        }
        k += 1;
    }
    if !has_pk {
        let mut j: usize = 0;
        let ghost p = |c: SColumn| lowercase(c.name) == "id"@;
        proof { reveal_strlit("id"); }
        while j < cols.len()
            invariant
                j <= cols@.len(),
                raw == columns_view(cols@),
                p == (|c: SColumn| lowercase(c.name) == "id"@),
                forall|q: int| 0 <= q < j ==> !p(#[trigger] raw[q]),
                !(exists|q: int| 0 <= q < raw.len() && (#[trigger] raw[q]).is_primary_key),
                table_name@ == join(strings_view(name@), "."@),
                columns_result(columns@, Ok(raw)),
            decreases cols.len() - j,
        {
            assert(raw[j as int] == cols@[j as int]@);
            let low = to_lower(cols[j].name.as_str());
            if str_eq(low.as_str(), "id") {
                proof { crate::schema::lemma_first_index_unique(raw, p, j as int); }
                let mut c = cols.remove(j);
                c.is_primary_key = true;
                c.nullable = false;
                assert(c@ == (SColumn { is_primary_key: true, nullable: false, ..raw[j as int] }));
                cols.insert(j, c);
                assert(columns_view(cols@) =~= raw.update(j as int, SColumn { is_primary_key: true, nullable: false, ..raw[j as int] }));
                assert(columns_view(cols@) =~= with_id_key(raw));
                return Ok(SqlStatement::CreateTable { name: table_name, columns: cols, if_not_exists });
            }
            j += 1;
        }
        assert(first_index(raw, p) is None);
    }
    assert(columns_view(cols@) =~= with_id_key(raw));
    Ok(SqlStatement::CreateTable { name: table_name, columns: cols, if_not_exists })
}

/// An unsupported-feature error.
fn unsupported(msg: String) -> (r: RustMinidbError)
    ensures
        r == RustMinidbError::Parse(ParseError::Unsupported(msg)),
{
    RustMinidbError::Parse(ParseError::Unsupported(msg))
}

/// Whether `r` is what a column definition of ALTER TABLE ADD COLUMN may
/// give: as in CREATE TABLE, except that dialect-specific options are
/// ignored and the column is never auto-incrementing.
pub open spec fn added_column_result(c: AstColumnDef, r: Result<SColumn, Seq<char>>) -> bool {
    let opts = c.options@;
    let np = exists|i: int| 0 <= i < opts.len() && opt_not_null(#[trigger] opts[i]);
    let pk = exists|i: int| 0 <= i < opts.len() && opt_primary(#[trigger] opts[i]);
    match r {
        Ok(col) => column_converts(c)
            && col.name == c.name@
            && col.col_type == data_type_spec(c.data_type)
            && col.nullable == !(np || pk)
            && col.is_primary_key == pk
            && !col.auto_increment
            && default_ok(opts, col.default)
            && col.comment == comment_of(opts),
        Err(m) => exists|k: int| 0 <= k < opts.len() && #[trigger] opts[k] is Default
            && value_result(opts[k]->Default_0, Err(m))
            && forall|j: int| 0 <= j < k ==> (#[trigger] opts[j] is Default ==> has_value(opts[j]->Default_0)),
    }
}

/// Converts the column definition of ALTER TABLE ADD COLUMN.
#[verifier::rlimit(60)]
fn convert_added_column<F: FloatOps>(c: &AstColumnDef, floats: &F) -> (r: Result<ColumnDef, RustMinidbError>)
    ensures
        r is Ok || r matches Err(RustMinidbError::Parse(ParseError::Syntax(_))),
        added_column_result(*c, syntax_result(r, |d: ColumnDef| d@)),
{
    let ghost opts = c.options@;
    let col_type = convert_data_type(c.data_type);
    let mut nullable = true;
    let mut is_primary_key = false;
    let mut default: Option<Value> = None;
    let mut comment: Option<String> = None;
    let mut i: usize = 0;
    while i < c.options.len()
        invariant
            i <= opts.len(),
            opts == c.options@,
            nullable == !((exists|q: int| 0 <= q < i && opt_not_null(#[trigger] opts[q]))
                || (exists|q: int| 0 <= q < i && opt_primary(#[trigger] opts[q]))),
            is_primary_key == (exists|q: int| 0 <= q < i && opt_primary(#[trigger] opts[q])),
            forall|q: int| 0 <= q < i ==> (#[trigger] opts[q] is Default ==> has_value(opts[q]->Default_0)),
            match last_option(opts, i as int, |o: AstColumnOption| o is Default) {
                Some(k) => default matches Some(v) && value_result(opts[k]->Default_0, Ok(v@)),
                None => default is None,
            },
            crate::schema::opt_str_view(comment) == match last_option(opts, i as int, |o: AstColumnOption| o is Comment) {
                Some(k) => Some(opts[k]->Comment_0@),
                None => None::<Seq<char>>,
            },
        decreases opts.len() - i,
    {
        match &c.options[i] {
            AstColumnOption::NotNull => {
                nullable = false;
            },
            AstColumnOption::Unique { is_primary } => {
                if *is_primary {
                    is_primary_key = true;
                    nullable = false;
                }
            },
            AstColumnOption::Default(e) => {
                match expr_to_value(e, floats) {
                    Ok(v) => {
                        proof { lemma_has_value(*e, v@); }
                        default = Some(v);
                    },
                    Err(err) => {
                        proof {
                            let m = syntax_result(Err::<Value, RustMinidbError>(err), |v: Value| v@)->Err_0;
                            assert(opts[i as int] is Default && value_result(opts[i as int]->Default_0, Err(m)));
                            assert(syntax_result(Err::<ColumnDef, RustMinidbError>(err), |d: ColumnDef| d@)
                                == Err::<SColumn, Seq<char>>(m));
                        }
                        return Err(err);
                    },
                }
            },
            AstColumnOption::Comment(text) => {
                comment = Some(text.clone());
            },
            _ => {},
        }
        proof {
            assert(opts[i as int] == c.options@[i as int]);
        }
        i += 1;
    }
    Ok(ColumnDef { name: c.name.clone(), col_type, nullable, is_primary_key, default, auto_increment: false, comment })
}

/// Converts ALTER TABLE (its first operation).
fn convert_alter_table<F: FloatOps>(name: &Vec<String>, operations: &Vec<AstAlterOp>, floats: &F)
    -> (r: Result<SqlStatement, RustMinidbError>)
    ensures
        alter_table_result(name, operations, r),

{
    let table = object_name_to_string(name);
    if operations.len() == 0 {
        return Err(syntax_error(String::from_str("ALTER TABLE 需要至少一个操作")));
    }
    match &operations[0] {
        AstAlterOp::AddColumn(c) => {
            let col = convert_added_column(c, floats)?;
            Ok(SqlStatement::AlterTable { table, operation: AlterTableOperation::AddColumn { column_def: col } })
        },
        AstAlterOp::DropColumn(col) => {
            Ok(SqlStatement::AlterTable { table, operation: AlterTableOperation::DropColumn { column_name: col.clone() } })
        },
        AstAlterOp::Other(d) => Err(unsupported(prefixed("不支持的 ALTER TABLE 操作: ", d.as_str()))),
    }
}

/// Converts CREATE INDEX: it needs a name and at least one column.
fn convert_create_index(name: &Option<Vec<String>>, table_name: &Vec<String>, columns: &Vec<String>, unique: bool)
    -> (r: Result<SqlStatement, RustMinidbError>)
    ensures
        create_index_result(name, table_name, columns, unique, r),

{
    let n = match name {
        Some(parts) => object_name_to_string(parts),
        None => String::new(),
    };
    let table = object_name_to_string(table_name);
    if n.as_str().is_empty() {
        return Err(syntax_error(String::from_str("CREATE INDEX 需要索引名")));
    }
    if columns.len() == 0 {
        return Err(syntax_error(String::from_str("CREATE INDEX 需要至少一个列")));
    }
    Ok(SqlStatement::CreateIndex { name: n, table, columns: copy_strings(columns), unique })
}

/// The name of a table reference: its name parts joined, or `unknown`.
pub open spec fn table_factor_name(t: AstTableFactor) -> Seq<char> {
    match t {
        AstTableFactor::Table(parts) => join(strings_view(parts@), "."@),
        AstTableFactor::Other => "unknown"@,
    }
}

fn table_factor_to_string(t: &AstTableFactor) -> (r: String)
    ensures
        r@ == table_factor_name(*t),
{
    match t {
        AstTableFactor::Table(parts) => object_name_to_string(parts),
        AstTableFactor::Other => String::from_str("unknown"),
    }
}

/// Converts DROP: a table, or an index (whose table is left empty).
fn convert_drop(object_type: crate::sql::syntax::AstObjectType, names: &Vec<Vec<String>>) -> (r: Result<SqlStatement, RustMinidbError>)
    ensures
        drop_result(object_type, names, r),

{
    match object_type {
        crate::sql::syntax::AstObjectType::Index => {
            if names.len() == 0 {
                return Err(syntax_error(String::from_str("缺少索引名")));
            }
            Ok(SqlStatement::DropIndex { name: object_name_to_string(&names[0]), table: String::new() })
        },
        crate::sql::syntax::AstObjectType::Table => {
            if names.len() == 0 {
                return Err(syntax_error(String::from_str("缺少表名")));
            }
            Ok(SqlStatement::DropTable { name: object_name_to_string(&names[0]) })
        },
        crate::sql::syntax::AstObjectType::Other => Err(unsupported(String::from_str("只支持 DROP TABLE"))),
    }
}

/// Whether `r` is what a list of assignments may give: each target with its
/// value, or the error of the first value that has none.
pub open spec fn assignments_result(asg: Seq<AstAssignment>, r: Result<Seq<(Seq<char>, SValue)>, Seq<char>>) -> bool {
    match r {
        Ok(v) => v.len() == asg.len() && forall|i: int| 0 <= i < asg.len()
            ==> (#[trigger] v[i]).0 == asg[i].target@ && value_result(asg[i].value, Ok(v[i].1)),
        Err(m) => exists|k: int| 0 <= k < asg.len() && value_result((#[trigger] asg[k]).value, Err(m))
            && forall|j: int| 0 <= j < k ==> has_value((#[trigger] asg[j]).value),
    }
}

/// Converts assignments.
fn convert_assignments<F: FloatOps>(asg: &Vec<AstAssignment>, floats: &F) -> (r: Result<Vec<(String, Value)>, RustMinidbError>)
    ensures
        r is Ok || r matches Err(RustMinidbError::Parse(ParseError::Syntax(_))),
        assignments_result(asg@, syntax_result(r, |v: Vec<(String, Value)>| entries_view(v@))),
{
    let mut out: Vec<(String, Value)> = Vec::new();
    let mut i: usize = 0;
    while i < asg.len()
        invariant
            i <= asg@.len(),
            out@.len() == i,
            forall|q: int| 0 <= q < i ==> (#[trigger] out@[q]).0@ == asg@[q].target@ && value_result(asg@[q].value, Ok(out@[q].1@)),
        decreases asg.len() - i,
    {
        match expr_to_value(&asg[i].value, floats) {
            Ok(v) => {
                out.push((asg[i].target.clone(), v));
            },
            Err(e) => {
                proof {
                    let m = syntax_result(Err::<Value, RustMinidbError>(e), |v: Value| v@)->Err_0;
                    assert(value_result(asg@[i as int].value, Err(m)));
                    assert forall|j: int| 0 <= j < i implies has_value((#[trigger] asg@[j]).value) by {
                        lemma_has_value(asg@[j].value, out@[j].1@);
                    }
                    assert(assignments_result(asg@, Err(m)));
                    assert(syntax_result(Err::<Vec<(String, Value)>, RustMinidbError>(e), |v: Vec<(String, Value)>| entries_view(v@))
                        == Err::<Seq<(Seq<char>, SValue)>, Seq<char>>(m));
                }
                return Err(e);
            },
        }
        i += 1;
    }
    assert forall|q: int| 0 <= q < asg@.len() implies (#[trigger] entries_view(out@)[q]).0 == asg@[q].target@
        && value_result(asg@[q].value, Ok(entries_view(out@)[q].1)) by {
        assert(entries_view(out@)[q] == (out@[q].0@, out@[q].1@));
    }
    Ok(out)
}

/// Whether `r` is what VALUES rows may give.
pub open spec fn rows_result(rows: Seq<Vec<AstExpr>>, r: Result<Seq<Seq<SValue>>, Seq<char>>) -> bool {
    match r {
        Ok(vs) => vs.len() == rows.len() && forall|i: int| 0 <= i < rows.len() ==> values_result(rows[i]@, Ok(#[trigger] vs[i])),
        Err(m) => exists|k: int| 0 <= k < rows.len() && values_result((#[trigger] rows[k])@, Err(m))
            && forall|j: int| 0 <= j < k ==> all_have_values((#[trigger] rows[j])@),
    }
}

proof fn lemma_all_have_values(list: Seq<AstExpr>, vs: Seq<SValue>)
    requires
        values_result(list, Ok(vs)),
    ensures
        all_have_values(list),
{
    assert forall|i: int| 0 <= i < list.len() implies has_value(#[trigger] list[i]) by {
        lemma_has_value(list[i], vs[i]);
    }
}

/// Converts VALUES rows.
fn convert_rows<F: FloatOps>(rows: &Vec<Vec<AstExpr>>, floats: &F) -> (r: Result<Vec<Vec<Value>>, RustMinidbError>)
    ensures
        r is Ok || r matches Err(RustMinidbError::Parse(ParseError::Syntax(_))),
        rows_result(rows@, syntax_result(r, |v: Vec<Vec<Value>>| v@.map_values(|x: Vec<Value>| crate::types::values_view(x@)))),
{
    let mut out: Vec<Vec<Value>> = Vec::new();
    let mut i: usize = 0;
    while i < rows.len()
        invariant
            i <= rows@.len(),
            out@.len() == i,
            forall|q: int| 0 <= q < i ==> values_result(rows@[q]@, Ok(crate::types::values_view((#[trigger] out@[q])@))),
        decreases rows.len() - i,
    {
        match list_values(&rows[i], floats) {
            Ok(v) => {
                out.push(v);
            },
            Err(e) => {
                proof {
                    let m = syntax_result(Err::<Vec<Value>, RustMinidbError>(e), |v: Vec<Value>| crate::types::values_view(v@))->Err_0;
                    assert(values_result(rows@[i as int]@, Err(m)));
                    assert forall|j: int| 0 <= j < i implies all_have_values((#[trigger] rows@[j])@) by {
                        lemma_all_have_values(rows@[j]@, crate::types::values_view(out@[j]@));
                    }
                    assert(rows_result(rows@, Err(m)));
                    assert(syntax_result(Err::<Vec<Vec<Value>>, RustMinidbError>(e), |v: Vec<Vec<Value>>| v@.map_values(|x: Vec<Value>| crate::types::values_view(x@)))
                        == Err::<Seq<Seq<SValue>>, Seq<char>>(m));
                }
                return Err(e);
            },
        }
        i += 1;
    }
    let ghost vv = out@.map_values(|x: Vec<Value>| crate::types::values_view(x@));
    assert forall|q: int| 0 <= q < rows@.len() implies values_result(rows@[q]@, Ok(#[trigger] vv[q])) by {
        assert(vv[q] == crate::types::values_view(out@[q]@));
    }
    Ok(out)
}

/// The conflict action of an INSERT, when the clause converts.
pub open spec fn conflict_result(on: Option<AstOnInsert>, r: Result<Option<crate::sql::ast::SConflict>, RustMinidbError>) -> bool {
    match on {
        None => r == Ok::<Option<crate::sql::ast::SConflict>, RustMinidbError>(None),
        Some(AstOnInsert::DoNothing) => r == Ok::<Option<crate::sql::ast::SConflict>, RustMinidbError>(Some(crate::sql::ast::SConflict::DoNothing)),
        Some(AstOnInsert::DoUpdate(a)) => match r {
            Ok(Some(crate::sql::ast::SConflict::DoUpdate(v))) => assignments_result(a@, Ok(v)),
            Err(RustMinidbError::Parse(ParseError::Syntax(m))) => assignments_result(a@, Err(m@)),
            _ => false,
        },
        Some(AstOnInsert::DuplicateKeyUpdate(a)) => match r {
            Ok(Some(crate::sql::ast::SConflict::DoUpdate(v))) => assignments_result(a@, Ok(v)),
            Err(RustMinidbError::Parse(ParseError::Syntax(m))) => assignments_result(a@, Err(m@)),
            _ => false,
        },
        Some(AstOnInsert::Other) => r matches Err(RustMinidbError::Parse(ParseError::Unsupported(m)))
            && m@ == "不支持的 ON CONFLICT 变体"@,
    }
}

/// Converts the conflict clause of an INSERT.
fn convert_on_conflict<F: FloatOps>(on: &Option<AstOnInsert>, floats: &F) -> (r: Result<Option<OnConflictAction>, RustMinidbError>)
    ensures
        conflict_result(*on, match r { Ok(o) => Ok(crate::sql::executor::opt_conflict_view(o)), Err(e) => Err(e) }),
{
    match on {
        None => Ok(None),
        Some(AstOnInsert::DoNothing) => Ok(Some(OnConflictAction::DoNothing)),
        Some(AstOnInsert::DoUpdate(a)) => {
            let v = convert_assignments(a, floats)?;
            Ok(Some(OnConflictAction::DoUpdate(v)))
        },
        Some(AstOnInsert::DuplicateKeyUpdate(a)) => {
            let v = convert_assignments(a, floats)?;
            Ok(Some(OnConflictAction::DoUpdate(v)))
        },
        Some(AstOnInsert::Other) => Err(unsupported(String::from_str("不支持的 ON CONFLICT 变体"))),
    }
}

/// Converts INSERT: only `VALUES` rows are accepted.
fn convert_insert<F: FloatOps>(table_name: &Option<Vec<String>>, table_text: &String, columns: &Vec<String>,
    source: &Option<AstQuery>, on: &Option<AstOnInsert>, floats: &F) -> (r: Result<SqlStatement, RustMinidbError>)
    ensures
        insert_result(table_name, table_text, columns, source, on, r),

{
    let table = match table_name {
        Some(parts) => object_name_to_string(parts),
        None => table_text.clone(),
    };
    let cols = copy_strings(columns);
    let values = match source {
        Some(q) => match &q.body {
            AstSetExpr::Values(rows) => convert_rows(rows, floats)?,
            _ => {
                return Err(unsupported(String::from_str("MVP 只支持 VALUES 插入")));
            },
        },
        None => {
            return Err(unsupported(String::from_str("MVP 需要 VALUES 子句")));
        },
    };
    let on_conflict = match convert_on_conflict(on, floats) {
        Ok(o) => o,
        Err(e) => {
            return Err(e);
        },
    };
    Ok(SqlStatement::Insert { table, columns: cols, values, on_conflict })
}

/// The column a function call reads and whether it is `*`.
pub open spec fn func_arg(args: AstFunctionArgs) -> (Seq<char>, bool) {
    match args {
        AstFunctionArgs::List(list) => if list@.len() == 0 {
            ("*"@, true)
        } else {
            match list@[0] {
                AstFunctionArg::Wildcard => ("*"@, true),
                AstFunctionArg::Expr(e) => match e.kind {
                    AstExprKind::Identifier(id) => (id@, false),
                    _ => ("*"@, false),
                },
                AstFunctionArg::Named(n) => (n@, false),
                AstFunctionArg::Other => ("*"@, false),
            }
        },
        AstFunctionArgs::Other => ("*"@, true),
    }
}

/// The column a function call reads and whether it is `*`.
fn extract_function_arg(args: &AstFunctionArgs) -> (r: (String, bool))
    ensures
        (r.0@, r.1) == func_arg(*args),
{
    match args {
        AstFunctionArgs::List(list) => {
            if list.len() == 0 {
                return (String::from_str("*"), true);
            }
            match &list[0] {
                AstFunctionArg::Wildcard => (String::from_str("*"), true),
                AstFunctionArg::Expr(e) => match &e.kind {
                    AstExprKind::Identifier(id) => (id.clone(), false),
                    _ => (String::from_str("*"), false),
                },
                AstFunctionArg::Named(n) => (n.clone(), false),
                AstFunctionArg::Other => (String::from_str("*"), false),
            }
        },
        AstFunctionArgs::Other => (String::from_str("*"), true),
    }
}

/// The aggregate of a function call, with an optional alias.
pub open spec fn aggregate_of(name: Seq<char>, args: AstFunctionArgs, alias: Option<Seq<char>>) -> SAgg {
    let (c, star) = func_arg(args);
    SAgg { function: uppercase(name), column: if star { "*"@ } else { c }, alias }
}

/// What a select-list item adds to the result columns and the aggregates:
/// a column name; a function call as an aggregate shown as `name(col)` (or
/// its alias); `*` for wildcards.  Other items are an error.
pub open spec fn item_effect(item: AstSelectItem) -> Result<(Seq<Seq<char>>, Seq<SAgg>), Seq<char>> {
    match item {
        AstSelectItem::UnnamedExpr(e) => match e.kind {
            AstExprKind::Identifier(id) => Ok((seq![id@], Seq::empty())),
            AstExprKind::Function { name, args } => {
                let (c, star) = func_arg(args);
                let shown = if star { name@ + "(*)"@ } else { name@ + "("@ + c + ")"@ };
                Ok((seq![shown], seq![aggregate_of(name@, args, None)]))
            },
            _ => Err("不支持的 SELECT 项: "@ + "UnnamedExpr("@ + e.debug@ + ")"@),
        },
        AstSelectItem::ExprWithAlias { expr, alias } => match expr.kind {
            AstExprKind::Function { name, args } => Ok((seq![alias@], seq![aggregate_of(name@, args, Some(alias@))])),
            _ => Ok((seq![alias@], Seq::empty())),
        },
        AstSelectItem::Wildcard => Ok((seq!["*"@], Seq::empty())),
        AstSelectItem::QualifiedWildcard => Ok((seq!["*"@], Seq::empty())),
        AstSelectItem::Other(d) => Err("不支持的 SELECT 项: "@ + d@),
    }
}

/// The result columns and aggregates of a select list, or the error of its
/// first unsupported item.
pub open spec fn projection(items: Seq<AstSelectItem>) -> Result<(Seq<Seq<char>>, Seq<SAgg>), Seq<char>>
    decreases items.len(),
{
    if items.len() == 0 {
        Ok((Seq::empty(), Seq::empty()))
    } else {
        match projection(items.drop_last()) {
            Err(m) => Err(m),
            Ok((cs, ags)) => match item_effect(items.last()) {
                Err(m) => Err(m),
                Ok((c2, a2)) => Ok((cs + c2, ags + a2)),
            },
        }
    }
}

/// The names among expressions that are plain names.
pub open spec fn ident_names(es: Seq<AstExpr>) -> Seq<Seq<char>>
    decreases es.len(),
{
    if es.len() == 0 {
        Seq::empty()
    } else {
        match column_of(es.last()) {
            Some(n) => ident_names(es.drop_last()).push(n),
            None => ident_names(es.drop_last()),
        }
    }
}

/// The ORDER BY keys that name a column, ascending unless marked otherwise.
pub open spec fn order_keys(es: Seq<AstOrderByExpr>) -> Seq<(Seq<char>, bool)>
    decreases es.len(),
{
    if es.len() == 0 {
        Seq::empty()
    } else {
        let e = es.last();
        match column_of(e.expr) {
            Some(n) => order_keys(es.drop_last()).push((n, match e.asc { Some(a) => a, None => true })),
            None => order_keys(es.drop_last()),
        }
    }
}

/// A LIMIT or OFFSET count: a number literal that is a `usize`.
pub open spec fn count_of(e: Option<AstExpr>) -> Option<usize> {
    match e {
        Some(x) => match x.kind {
            AstExprKind::Value(AstValue::Number(n)) => parse_usize_spec(n@),
            _ => None,
        },
        None => None,
    }
}

/// The names among expressions that are plain names.
fn names_of(es: &Vec<AstExpr>) -> (r: Vec<String>)
    ensures
        strings_view(r@) == ident_names(es@),
{
    let mut out: Vec<String> = Vec::new();
    let mut i: usize = 0;
    while i < es.len()
        invariant
            i <= es@.len(),
            strings_view(out@) == ident_names(es@.take(i as int)),
        decreases es.len() - i,
    {
        proof {
            assert(es@.take(i + 1).drop_last() =~= es@.take(i as int));
            assert(es@.take(i + 1).last() == es@[i as int]);
        }
        match column_name(&es[i]) {
            Some(n) => {
                out.push(n);
                assert(strings_view(out@) =~= ident_names(es@.take(i + 1)));
            },
            None => {},
        }
        i += 1;
    }
    assert(es@.take(i as int) =~= es@);
    out
}

/// The ORDER BY keys that name a column.
fn order_items(es: &Vec<AstOrderByExpr>) -> (r: Vec<OrderByItem>)
    ensures
        order_view(OrderBy { items: r }) == order_keys(es@),
{
    let mut out: Vec<OrderByItem> = Vec::new();
    let mut i: usize = 0;
    while i < es.len()
        invariant
            i <= es@.len(),
            order_view(OrderBy { items: out }) == order_keys(es@.take(i as int)),
        decreases es.len() - i,
    {
        proof {
            assert(es@.take(i + 1).drop_last() =~= es@.take(i as int));
            assert(es@.take(i + 1).last() == es@[i as int]);
        }
        match column_name(&es[i].expr) {
            Some(n) => {
                let asc = match es[i].asc {
                    Some(a) => a,
                    None => true,
                };
                let ghost before = out@;
                out.push(OrderByItem { column: n, ascending: asc });
                assert(order_view(OrderBy { items: out }) =~= order_keys(es@.take(i + 1)));
            },
            None => {},
        }
        i += 1;
    }
    assert(es@.take(i as int) =~= es@);
    out
}

/// A LIMIT or OFFSET count.
fn count_value(e: &Option<AstExpr>) -> (r: Option<usize>)
    ensures
        r == count_of(*e),
{
    match e {
        Some(x) => match &x.kind {
            AstExprKind::Value(AstValue::Number(n)) => parse_usize(n.as_str()),
            _ => None,
        },
        None => None,
    }
}

proof fn lemma_projection_err_extends(items: Seq<AstSelectItem>, k: int, m: Seq<char>)
    requires
        0 <= k <= items.len(),
        projection(items.take(k)) == Err::<(Seq<Seq<char>>, Seq<SAgg>), Seq<char>>(m),
    ensures
        projection(items) == Err::<(Seq<Seq<char>>, Seq<SAgg>), Seq<char>>(m),
    decreases items.len() - k,
{
    if k == items.len() {
        assert(items.take(k) =~= items);
    } else {
        assert(items.take(k + 1).drop_last() =~= items.take(k));
        lemma_projection_err_extends(items, k + 1, m);
    }
}

/// The result columns and aggregates of a select list.
fn convert_projection(items: &Vec<AstSelectItem>) -> (r: Result<(Vec<String>, Vec<AggregateDef>), RustMinidbError>)
    ensures
        match projection(items@) {
            Ok((cs, ags)) => r matches Ok((c, a)) && strings_view(c@) == cs && aggs_view(a@) == ags,
            Err(m) => r matches Err(RustMinidbError::Parse(ParseError::Unsupported(e))) && e@ == m,
        },
{
    let mut columns: Vec<String> = Vec::new();
    let mut aggregates: Vec<AggregateDef> = Vec::new();
    let mut i: usize = 0;
    assert(items@.take(0) =~= Seq::<AstSelectItem>::empty());
    assert(strings_view(columns@) =~= Seq::<Seq<char>>::empty());
    assert(aggs_view(aggregates@) =~= Seq::<SAgg>::empty());
    while i < items.len()
        invariant
            i <= items@.len(),
            projection(items@.take(i as int)) == Ok::<(Seq<Seq<char>>, Seq<SAgg>), Seq<char>>((strings_view(columns@), aggs_view(aggregates@))),
        decreases items.len() - i,
    {
        proof {
            assert(items@.take(i + 1).drop_last() =~= items@.take(i as int));
            assert(items@.take(i + 1).last() == items@[i as int]);
        }
        let ghost cs0 = strings_view(columns@);
        let ghost as0 = aggs_view(aggregates@);
        match &items[i] {
            AstSelectItem::UnnamedExpr(e) => match &e.kind {
                AstExprKind::Identifier(id) => {
                    columns.push(id.clone());
                    assert(strings_view(columns@) =~= cs0 + seq![id@]);
                    assert(aggs_view(aggregates@) =~= as0 + Seq::<SAgg>::empty());
                },
                AstExprKind::Function { name, args } => {
                    let (c, star) = extract_function_arg(args);
                    let shown = if star { prefixed(name.as_str(), "(*)") } else {
                        let mut t = prefixed(name.as_str(), "(");
                        push_str(&mut t, c.as_str());
                        push_str(&mut t, ")");
                        t
                    };
                    let column = if star { String::from_str("*") } else { c };
                    aggregates.push(AggregateDef { function: to_upper(name.as_str()), column, alias: None });
                    columns.push(shown);
                    assert(strings_view(columns@) =~= cs0 + seq![strings_view(columns@).last()]);
                    assert(aggs_view(aggregates@) =~= as0 + seq![aggregate_of(name@, *args, None)]);
                },
                _ => {
                    let mut m = String::from_str("不支持的 SELECT 项: ");
                    push_str(&mut m, "UnnamedExpr(");
                    push_str(&mut m, e.debug.as_str());
                    push_str(&mut m, ")");
                    proof { lemma_projection_err_extends(items@, i + 1, m@); }
                    return Err(unsupported(m));
                },
            },
            AstSelectItem::ExprWithAlias { expr, alias } => {
                if let AstExprKind::Function { name, args } = &expr.kind {
                    let (c, star) = extract_function_arg(args);
                    let column = if star { String::from_str("*") } else { c };
                    aggregates.push(AggregateDef { function: to_upper(name.as_str()), column, alias: Some(alias.clone()) });
                    assert(aggs_view(aggregates@) =~= as0 + seq![aggregate_of(name@, *args, Some(alias@))]);
                } else {
                    assert(aggs_view(aggregates@) =~= as0 + Seq::<SAgg>::empty());
                }
                columns.push(alias.clone());
                assert(strings_view(columns@) =~= cs0 + seq![alias@]);
            },
            AstSelectItem::Wildcard | AstSelectItem::QualifiedWildcard => {
                columns.push(String::from_str("*"));
                assert(strings_view(columns@) =~= cs0 + seq!["*"@]);
                assert(aggs_view(aggregates@) =~= as0 + Seq::<SAgg>::empty());
            },
            AstSelectItem::Other(d) => {
                let m = prefixed("不支持的 SELECT 项: ", d.as_str());
                proof { lemma_projection_err_extends(items@, i + 1, m@); }
                return Err(unsupported(m));
            },
        }
        i += 1;
    }
    assert(items@.take(i as int) =~= items@);
    Ok((columns, aggregates))
}

/// The GROUP BY names of a select.
pub open spec fn group_names(g: AstGroupBy) -> Seq<Seq<char>> {
    match g {
        AstGroupBy::Expressions(es) => ident_names(es@),
        AstGroupBy::Other => Seq::empty(),
    }
}

/// The ORDER BY keys of a query, when there are any.
pub open spec fn query_order(q: AstQuery) -> Option<Seq<(Seq<char>, bool)>> {
    let keys = match q.order_by {
        Some(es) => order_keys(es@),
        None => Seq::empty(),
    };
    if keys.len() == 0 { None } else { Some(keys) }
}

/// Whether a condition of a SELECT converts to `w` (when there is one).
pub open spec fn opt_where_ok(e: Option<AstExpr>, w: Option<SWhere>) -> bool {
    match e {
        Some(x) => w matches Some(v) && where_result(x, Ok(v)),
        None => w is None,
    }
}

/// Converts a query into a SELECT.
#[verifier::rlimit(60)]
fn convert_select<F: FloatOps>(query: &AstQuery, floats: &F) -> (r: Result<SqlStatement, RustMinidbError>)
    ensures
        select_result(query, r),

{
    let select = match &query.body {
        AstSetExpr::Select(s) => s,
        _ => {
            return Err(unsupported(String::from_str("不支持的查询类型")));
        },
    };
    if select.from.len() == 0 {
        return Err(syntax_error(String::from_str("缺少 FROM 子句")));
    }
    if select.from[0].has_joins {
        return Err(unsupported(String::from_str("MVP 不支持 JOIN")));
    }
    let table = table_factor_to_string(&select.from[0].relation);
    let (columns, aggregates) = convert_projection(&select.projection)?;
    let where_clause = match &select.selection {
        Some(e) => match convert_expr_to_where(e, floats) {
            Ok(w) => Some(w),
            Err(err) => {
                proof {
                    if let RustMinidbError::Parse(ParseError::Syntax(m)) = &err {
                        assert(where_result(*e, Err(m@)));
                    }
                }
                return Err(err);
            },
        },
        None => None,
    };
    let group_by = match &select.group_by {
        AstGroupBy::Expressions(es) => names_of(es),
        AstGroupBy::Other => Vec::new(),
    };
    assert(strings_view(group_by@) =~= group_names(select.group_by));
    let having = match &select.having {
        Some(e) => match convert_expr_to_where(e, floats) {
            Ok(w) => Some(w),
            Err(err) => {
                proof {
                    if let RustMinidbError::Parse(ParseError::Syntax(m)) = &err {
                        assert(where_result(*e, Err(m@)));
                    }
                }
                return Err(err);
            },
        },
        None => None,
    };
    let items = match &query.order_by {
        Some(es) => order_items(es),
        None => Vec::new(),
    };
    proof {
        if query.order_by is None {
            assert(order_view(OrderBy { items }) =~= Seq::<(Seq<char>, bool)>::empty());
        }
    }
    let order_by = if items.len() == 0 { None } else { Some(OrderBy { items }) };
    let limit = count_value(&query.limit);
    let offset = count_value(&query.offset);
    Ok(SqlStatement::Select { table, columns, where_clause, aggregates, group_by, having, order_by, limit, offset })
}

/// Converts UPDATE.
fn convert_update<F: FloatOps>(table: &AstTableWithJoins, assignments: &Vec<AstAssignment>, selection: &Option<AstExpr>, floats: &F)
    -> (r: Result<SqlStatement, RustMinidbError>)
    ensures
        update_result(table, assignments, selection, r),

{
    let t = table_factor_to_string(&table.relation);
    let a = convert_assignments(assignments, floats)?;
    let where_clause = match selection {
        Some(e) => Some(convert_expr_to_where(e, floats)?),
        None => None,
    };
    Ok(SqlStatement::Update { table: t, assignments: a, where_clause })
}

/// The table a DELETE names: the first table before FROM, else the first
/// table after it, else `unknown`.
pub open spec fn delete_table(tables: Seq<Vec<String>>, from: Seq<AstTableWithJoins>) -> Seq<char> {
    if tables.len() > 0 {
        join(strings_view(tables[0]@), "."@)
    } else if from.len() > 0 {
        table_factor_name(from[0].relation)
    } else {
        "unknown"@
    }
}

/// Converts DELETE.
fn convert_delete<F: FloatOps>(tables: &Vec<Vec<String>>, from: &Vec<AstTableWithJoins>, selection: &Option<AstExpr>, floats: &F)
    -> (r: Result<SqlStatement, RustMinidbError>)
    ensures
        delete_result(tables, from, selection, r),

{
    let table = if tables.len() > 0 {
        object_name_to_string(&tables[0])
    } else if from.len() > 0 {
        table_factor_to_string(&from[0].relation)
    } else {
        String::from_str("unknown")
    };
    let where_clause = match selection {
        Some(e) => Some(convert_expr_to_where(e, floats)?),
        None => None,
    };
    Ok(SqlStatement::Delete { table, where_clause })
}

/// The result `convert_create_table` gives.
pub open spec fn create_table_result(name: &Vec<String>, columns: &Vec<AstColumnDef>, if_not_exists: bool, r: Result<SqlStatement, RustMinidbError>) -> bool {
    &&& (match r {
        Ok(SqlStatement::CreateTable { name: n, columns: cols, if_not_exists: ine }) =>
            n@ == join(strings_view(name@), "."@) && ine == if_not_exists
            && exists|raw: Seq<SColumn>| #[trigger] columns_result(columns@, Ok(raw)) && columns_view(cols@) == with_id_key(raw),
        Ok(_) => false,
        Err(RustMinidbError::Parse(ParseError::Syntax(m))) => columns_result(columns@, Err(m@)),
        Err(_) => false,
    })
}

/// The result `convert_alter_table` gives.
pub open spec fn alter_table_result(name: &Vec<String>, operations: &Vec<AstAlterOp>, r: Result<SqlStatement, RustMinidbError>) -> bool {
    &&& (operations@.len() == 0 ==> (r matches Err(RustMinidbError::Parse(ParseError::Syntax(m)))
        && m@ == "ALTER TABLE 需要至少一个操作"@))
    &&& (operations@.len() > 0 ==> match operations@[0] {
        AstAlterOp::AddColumn(c) => match r {
            Ok(SqlStatement::AlterTable { table, operation: AlterTableOperation::AddColumn { column_def } }) =>
                table@ == join(strings_view(name@), "."@) && added_column_result(c, Ok(column_def@)),
            Err(RustMinidbError::Parse(ParseError::Syntax(m))) => added_column_result(c, Err(m@)),
            _ => false,
        },
        AstAlterOp::DropColumn(col) => r matches Ok(SqlStatement::AlterTable { table, operation: AlterTableOperation::DropColumn { column_name } })
            && table@ == join(strings_view(name@), "."@) && column_name@ == col@,
        AstAlterOp::Other(d) => r matches Err(RustMinidbError::Parse(ParseError::Unsupported(m)))
            && m@ == "不支持的 ALTER TABLE 操作: "@ + d@,
    })
}

/// The result `convert_create_index` gives.
pub open spec fn create_index_result(name: &Option<Vec<String>>, table_name: &Vec<String>, columns: &Vec<String>, unique: bool, r: Result<SqlStatement, RustMinidbError>) -> bool {
    &&& (({
        let n = match *name { Some(parts) => join(strings_view(parts@), "."@), None => Seq::<char>::empty() };
        if n.len() == 0 {
            r matches Err(RustMinidbError::Parse(ParseError::Syntax(m))) && m@ == "CREATE INDEX 需要索引名"@
        } else if columns@.len() == 0 {
            r matches Err(RustMinidbError::Parse(ParseError::Syntax(m))) && m@ == "CREATE INDEX 需要至少一个列"@
        } else {
            r matches Ok(SqlStatement::CreateIndex { name: n2, table, columns: cols, unique: u })
                && n2@ == n && table@ == join(strings_view(table_name@), "."@)
                && strings_view(cols@) == strings_view(columns@) && u == unique
        }
    }))
}

/// The result `convert_drop` gives.
pub open spec fn drop_result(object_type: crate::sql::syntax::AstObjectType, names: &Vec<Vec<String>>, r: Result<SqlStatement, RustMinidbError>) -> bool {
    &&& (match object_type {
        crate::sql::syntax::AstObjectType::Index => if names@.len() == 0 {
            r matches Err(RustMinidbError::Parse(ParseError::Syntax(m))) && m@ == "缺少索引名"@
        } else {
            r matches Ok(SqlStatement::DropIndex { name, table }) && name@ == join(strings_view(names@[0]@), "."@)
                && table@ == Seq::<char>::empty()
        },
        crate::sql::syntax::AstObjectType::Table => if names@.len() == 0 {
            r matches Err(RustMinidbError::Parse(ParseError::Syntax(m))) && m@ == "缺少表名"@
        } else {
            r matches Ok(SqlStatement::DropTable { name }) && name@ == join(strings_view(names@[0]@), "."@)
        },
        crate::sql::syntax::AstObjectType::Other =>
            r matches Err(RustMinidbError::Parse(ParseError::Unsupported(m))) && m@ == "只支持 DROP TABLE"@,
    })
}

/// The result `convert_insert` gives.
pub open spec fn insert_result(table_name: &Option<Vec<String>>, table_text: &String, columns: &Vec<String>, source: &Option<AstQuery>, on: &Option<AstOnInsert>, r: Result<SqlStatement, RustMinidbError>) -> bool {
    &&& (match *source {
        None => r matches Err(RustMinidbError::Parse(ParseError::Unsupported(m))) && m@ == "MVP 需要 VALUES 子句"@,
        Some(q) => match q.body {
            AstSetExpr::Values(rows) => match r {
                Ok(SqlStatement::Insert { table, columns: cols, values, on_conflict }) =>
                    table@ == (match *table_name { Some(p) => join(strings_view(p@), "."@), None => table_text@ })
                    && strings_view(cols@) == strings_view(columns@)
                    && rows_result(rows@, Ok(values@.map_values(|x: Vec<Value>| crate::types::values_view(x@))))
                    && conflict_result(*on, Ok(crate::sql::executor::opt_conflict_view(on_conflict))),
                Ok(_) => false,
                Err(e) => (e matches RustMinidbError::Parse(ParseError::Syntax(m)) && rows_result(rows@, Err(m@)))
                    || ((exists|vs: Seq<Seq<SValue>>| #[trigger] rows_result(rows@, Ok(vs))) && conflict_result(*on, Err(e))),
            },
            _ => r matches Err(RustMinidbError::Parse(ParseError::Unsupported(m))) && m@ == "MVP 只支持 VALUES 插入"@,
        },
    })
}

/// The result `convert_select` gives.
pub open spec fn select_result(query: &AstQuery, r: Result<SqlStatement, RustMinidbError>) -> bool {
    &&& (!(query.body is Select) ==> (r matches Err(RustMinidbError::Parse(ParseError::Unsupported(m))) && m@ == "不支持的查询类型"@))
    &&& (query.body matches AstSetExpr::Select(sel) ==> ({
        &&& sel.from@.len() == 0 ==> (r matches Err(RustMinidbError::Parse(ParseError::Syntax(m))) && m@ == "缺少 FROM 子句"@)
        &&& sel.from@.len() > 0 && sel.from@[0].has_joins ==>
                (r matches Err(RustMinidbError::Parse(ParseError::Unsupported(m))) && m@ == "MVP 不支持 JOIN"@)
        &&& sel.from@.len() > 0 && !sel.from@[0].has_joins && projection(sel.projection@) is Err ==>
                (r matches Err(RustMinidbError::Parse(ParseError::Unsupported(m))) && m@ == projection(sel.projection@)->Err_0)
        &&& (r matches Ok(SqlStatement::Select { table, columns, where_clause, aggregates, group_by, having, order_by, limit, offset })
            ==> sel.from@.len() > 0
                && table@ == table_factor_name(sel.from@[0].relation)
                && projection(sel.projection@) == Ok::<(Seq<Seq<char>>, Seq<SAgg>), Seq<char>>((strings_view(columns@), aggs_view(aggregates@)))
                && opt_where_ok(sel.selection, crate::sql::planner::opt_where_view(where_clause))
                && strings_view(group_by@) == group_names(sel.group_by)
                && opt_where_ok(sel.having, crate::sql::planner::opt_where_view(having))
                && crate::sql::planner::opt_order_view(order_by) == query_order(*query)
                && limit == count_of(query.limit)
                && offset == count_of(query.offset))
        &&& (sel.from@.len() > 0 ==> (r matches Err(RustMinidbError::Parse(ParseError::Syntax(m))) ==>
                (sel.selection matches Some(x) && where_result(x, Err(m@)))
                || (sel.having matches Some(x) && where_result(x, Err(m@)))))
        &&& (sel.from@.len() > 0 && !sel.from@[0].has_joins && projection(sel.projection@) is Ok
            && !(sel.selection matches Some(x) && where_fails(x))
            && !(sel.having matches Some(x) && where_fails(x)) ==> r is Ok)
    }))
}

/// Whether a condition cannot be converted.
pub open spec fn where_fails(x: AstExpr) -> bool {
    exists|m: Seq<char>| #[trigger] where_result(x, Err(m))
}

/// The result `convert_update` gives.
pub open spec fn update_result(table: &AstTableWithJoins, assignments: &Vec<AstAssignment>, selection: &Option<AstExpr>, r: Result<SqlStatement, RustMinidbError>) -> bool {
    &&& (match r {
        Ok(SqlStatement::Update { table: t, assignments: a, where_clause }) =>
            t@ == table_factor_name(table.relation)
            && assignments_result(assignments@, Ok(entries_view(a@)))
            && opt_where_ok(*selection, crate::sql::planner::opt_where_view(where_clause)),
        Ok(_) => false,
        Err(RustMinidbError::Parse(ParseError::Syntax(m))) => assignments_result(assignments@, Err(m@))
            || (*selection matches Some(x) && where_result(x, Err(m@))),
        Err(_) => false,
    })
}

/// The result `convert_delete` gives.
pub open spec fn delete_result(tables: &Vec<Vec<String>>, from: &Vec<AstTableWithJoins>, selection: &Option<AstExpr>, r: Result<SqlStatement, RustMinidbError>) -> bool {
    &&& (match r {
        Ok(SqlStatement::Delete { table, where_clause }) =>
            table@ == delete_table(tables@, from@)
            && opt_where_ok(*selection, crate::sql::planner::opt_where_view(where_clause)),
        Ok(_) => false,
        Err(RustMinidbError::Parse(ParseError::Syntax(m))) => *selection matches Some(x) && where_result(x, Err(m@)),
        Err(_) => false,
    })
}


/// The result of converting a statement: that of the conversion its kind
/// calls for; any other statement is unsupported.
pub open spec fn statement_result(stmt: &AstStatement, r: Result<SqlStatement, RustMinidbError>) -> bool {
    match stmt {
        AstStatement::CreateTable { name, columns, if_not_exists } => create_table_result(name, columns, *if_not_exists, r),
        AstStatement::Insert { table_name, table_text, columns, source, on } =>
            insert_result(table_name, table_text, columns, source, on, r),
        AstStatement::Query(q) => select_result(q, r),
        AstStatement::Update { table, assignments, selection } => update_result(table, assignments, selection, r),
        AstStatement::Delete { tables, from, selection } => delete_result(tables, from, selection, r),
        AstStatement::Drop { object_type, names } => drop_result(*object_type, names, r),
        AstStatement::CreateIndex { name, table_name, columns, unique } => create_index_result(name, table_name, columns, *unique, r),
        AstStatement::AlterTable { name, operations } => alter_table_result(name, operations, r),
        AstStatement::Other(d) => r matches Err(RustMinidbError::Parse(ParseError::Unsupported(m)))
            && m@ == "不支持的 SQL 语句: "@ + d@,
    }
}

/// Converts a statement's syntax tree.
pub fn convert_statement<F: FloatOps>(stmt: &AstStatement, floats: &F) -> (r: Result<SqlStatement, RustMinidbError>)
    ensures
        statement_result(stmt, r),
{
    match stmt {
        AstStatement::CreateTable { name, columns, if_not_exists } => convert_create_table(name, columns, *if_not_exists, floats),
        AstStatement::Insert { table_name, table_text, columns, source, on } =>
            convert_insert(table_name, table_text, columns, source, on, floats),
        AstStatement::Query(q) => convert_select(q, floats),
        AstStatement::Update { table, assignments, selection } => convert_update(table, assignments, selection, floats),
        AstStatement::Delete { tables, from, selection } => convert_delete(tables, from, selection, floats),
        AstStatement::Drop { object_type, names } => convert_drop(*object_type, names),
        AstStatement::CreateIndex { name, table_name, columns, unique } => convert_create_index(name, table_name, columns, *unique),
        AstStatement::AlterTable { name, operations } => convert_alter_table(name, operations, floats),
        AstStatement::Other(d) => Err(unsupported(prefixed("不支持的 SQL 语句: ", d.as_str()))),
    }
}

/// The SQL parser: sqlparser reads the text (`front`), this converts.
pub struct SqlParser;

/// What converting the statements sqlparser read gives: an error for none
/// or for more than one, else the conversion of the one statement.
pub open spec fn statements_result(statements: Seq<AstStatement>, r: Result<SqlStatement, RustMinidbError>) -> bool {
    &&& statements.len() == 0 ==> r == Err::<SqlStatement, RustMinidbError>(RustMinidbError::Parse(ParseError::Empty))
    &&& statements.len() > 1 ==> (r matches Err(RustMinidbError::Parse(ParseError::MultipleStatements(m)))
        && m@ == "MVP 只支持单条语句"@)
    &&& statements.len() == 1 ==> statement_result(&statements[0], r)
}

/// Whether `r` is what parsing the SQL text gives: an unsupported-statement
/// error for the forms on which sqlparser can panic (`risky_sql`), a syntax
/// error when sqlparser rejects the text, else the conversion of the
/// statements it reads.
pub open spec fn parse_outcome(sql: Seq<char>, r: Result<SqlStatement, RustMinidbError>) -> bool {
    if crate::sql::front::risky_sql(sql) {
        r matches Err(RustMinidbError::Parse(ParseError::Unsupported(m))) && m@ == "不支持的语句: GRANTED BY / FLUSH ... CHANNEL"@
    } else {
        match crate::sql::front::sql_statements(sql) {
            None => r matches Err(RustMinidbError::Parse(ParseError::Syntax(_))),
            Some(sts) => statements_result(sts, r),
        }
    }
}

impl SqlParser {
    /// Converts what sqlparser read: exactly one statement is accepted.
    pub fn parse_statements<F: FloatOps>(statements: &Vec<AstStatement>, floats: &F) -> (r: Result<SqlStatement, RustMinidbError>)
        ensures
            statements_result(statements@, r),
    {
        if statements.len() == 0 {
            return Err(RustMinidbError::Parse(ParseError::Empty));
        }
        if statements.len() > 1 {
            return Err(RustMinidbError::Parse(ParseError::MultipleStatements(String::from_str("MVP 只支持单条语句"))));
        }
        convert_statement(&statements[0], floats)
    }

    /// Parses one SQL statement: text sqlparser rejects is a syntax error
    /// (with its message), and what it reads is converted by
    /// `parse_statements`.
    pub fn parse<F: FloatOps>(sql: &str, floats: &F) -> (r: Result<SqlStatement, RustMinidbError>)
        ensures
            parse_outcome(sql@, r),
    {
        if crate::sql::front::is_risky_sql(sql) {
            proof { reveal_strlit("不支持的语句: GRANTED BY / FLUSH ... CHANNEL"); }
            return Err(unsupported(String::from_str("不支持的语句: GRANTED BY / FLUSH ... CHANNEL")));
        }
        let statements = match crate::sql::front::parse_sql_text(sql) {
            Ok(v) => v,
            Err(e) => {
                return Err(RustMinidbError::Parse(ParseError::Syntax(e)));
            },
        };
        Self::parse_statements(&statements, floats)
    }
}

} // verus!
