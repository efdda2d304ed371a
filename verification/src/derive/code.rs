//! Source text of the expressions that turn a field into a wire value.

use vstd::prelude::*;
use vstd::string::*;
use crate::text;
use crate::derive::types;
use crate::derive::types::{Classification, DbType, Int32W, Int64W, TypeExpr};

verus! {

// ---------------------------------------------------------------------------
// Model
// ---------------------------------------------------------------------------

/// A call of the runtime's constructor `f` on an argument.
pub open spec fn call(c: Seq<char>, f: Seq<char>, arg: Seq<char>) -> Seq<char> {
    c + "::encode::"@ + f + "("@ + arg + ")"@
}

/// `before` + `expr` + `after`.
pub open spec fn around(before: Seq<char>, expr: Seq<char>, after: Seq<char>) -> Seq<char> {
    before + expr + after
}

/// A timestamp with the seconds and nanoseconds of a date-time expression.
pub open spec fn timestamp_code(c: Seq<char>, expr: Seq<char>) -> Seq<char> {
    c + "::GrpcValue { kind: ::core::option::Option::Some("@ + c + "::Kind::TimestampValue("@ + c
        + "::Timestamp { seconds: ("@ + expr + ").timestamp(), nanos: ("@ + expr
        + ").timestamp_subsec_nanos() as i32 })), logical_type: ::std::string::String::new() }"@
}

/// A foreign value encodes itself.
pub open spec fn foreign_code(c: Seq<char>, expr: Seq<char>) -> Seq<char> {
    "<_ as "@ + c + "::record::ToGrpcRecord>::to_grpc_value("@ + expr + ")"@
}

/// A JSON value goes through the bridge.
pub open spec fn json_code(c: Seq<char>, expr: Seq<char>) -> Seq<char> {
    c + "::json_to_grpc_value("@ + expr + ")"@
}

/// The wire value of a reference `expr` to a value of a classified type.
pub open spec fn value_code(db: DbType, expr: Seq<char>, c: Seq<char>) -> Seq<char>
    decreases db,
{
    match db {
        DbType::Str => call(c, "str_v"@, around("("@, expr, ").to_string()"@)),
        DbType::Char => call(c, "str_v"@, around("("@, expr, ").to_string()"@)),
        DbType::Bool => call(c, "bool_v"@, around("*"@, expr, ""@)),
        DbType::Int32(Int32W::Direct) => call(c, "i32_v"@, around("*"@, expr, ""@)),
        DbType::Int32(Int32W::Widened) => call(c, "i32_v"@, around("i32::from(*"@, expr, ")"@)),
        DbType::Int64(Int64W::Direct) => call(c, "i64_v"@, around("*"@, expr, ""@)),
        DbType::Int64(Int64W::FromU32) => call(c, "i64_v"@, around("i64::from(*"@, expr, ")"@)),
        DbType::Int64(Int64W::NarrowedU64) => call(c, "i64_v"@, around("*"@, expr, " as i64"@)),
        DbType::F32 => call(c, "f32_v"@, around("(*"@, expr, ").to_bits()"@)),
        DbType::F64 => call(c, "f64_v"@, around("(*"@, expr, ").to_bits()"@)),
        DbType::Bytes => call(c, "bytes_v"@, around("("@, expr, ").clone()"@)),
        DbType::Json => json_code(c, expr),
        DbType::Link => call(c, "link_v"@, around("("@, expr, ").to_string()"@)),
        DbType::DateTime => timestamp_code(c, expr),
        DbType::NaiveDate => call(c, "date_v"@, around("*"@, expr, ""@)),
        DbType::Decimal => call(c, "decimal_v"@, around("*"@, expr, ""@)),
        DbType::ListOf(inner) => {
            let elem = match *inner {
                Some(elem) => value_code(elem, "__arcade_e"@, c),
                None => foreign_code(c, "__arcade_e"@),
            };
            call(
                c,
                "list_v"@,
                around("("@, expr, ").iter().map(|__arcade_e| "@) + elem + ").collect()"@,
            )
        },
        DbType::MapOf(inner) => {
            let value = match *inner {
                Some(value) => value_code(value, "__arcade_v"@, c),
                None => foreign_code(c, "__arcade_v"@),
            };
            call(
                c,
                "map_v"@,
                around(
                    "("@,
                    expr,
                    ").iter().map(|(__arcade_k, __arcade_v)| (__arcade_k.clone(), "@,
                ) + value + ")).collect()"@,
            )
        },
    }
}

/// The wire value of a reference `expr` to a value of type `ty`.
pub open spec fn field_code(ty: TypeExpr, expr: Seq<char>, c: Seq<char>) -> Result<
    Seq<char>,
    Seq<char>,
> {
    match types::classified(ty) {
        Ok(Classification::Known(db)) => Ok(value_code(db, expr, c)),
        Ok(Classification::Foreign) => Ok(foreign_code(c, expr)),
        Err(m) => Err(m),
    }
}

/// The wire value of an owned `expr` of a named scalar type, where it need not be borrowed.
pub open spec fn moved_scalar(name: Seq<char>, expr: Seq<char>, c: Seq<char>) -> Option<Seq<char>> {
    if name == "String"@ {
        Some(call(c, "str_v"@, expr))
    } else if name == "char"@ {
        Some(call(c, "str_v"@, around("("@, expr, ").to_string()"@)))
    } else if name == "bool"@ {
        Some(call(c, "bool_v"@, expr))
    } else if name == "i32"@ {
        Some(call(c, "i32_v"@, expr))
    } else if name == "i8"@ || name == "i16"@ || name == "u8"@ || name == "u16"@ {
        Some(call(c, "i32_v"@, around("i32::from("@, expr, ")"@)))
    } else if name == "i64"@ || name == "u32"@ {
        Some(call(c, "i64_v"@, around("i64::from("@, expr, ")"@)))
    } else if name == "u64"@ {
        Some(call(c, "i64_v"@, around(""@, expr, " as i64"@)))
    } else if name == "f32"@ {
        Some(call(c, "f32_v"@, around("("@, expr, ").to_bits()"@)))
    } else if name == "f64"@ {
        Some(call(c, "f64_v"@, around("("@, expr, ").to_bits()"@)))
    } else if name == "DateTime"@ {
        Some(timestamp_code(c, expr))
    } else if name == "Value"@ {
        Some(json_code(c, around("&"@, expr, ""@)))
    } else if name == "Link"@ {
        Some(call(c, "link_v"@, around("("@, expr, ").to_string()"@)))
    } else {
        None
    }
}

/// `Vec<String>`.
pub open spec fn is_vec_string(p: types::TypePath) -> bool {
    match types::last_type(p.last) {
        Some(t) => types::is_ident(t, "String"@),
        None => false,
    }
}

/// The wire value of an owned `expr` of type `ty`: owned payloads move, everything else is
/// encoded through a borrow.
pub open spec fn moved_code(ty: TypeExpr, expr: Seq<char>, c: Seq<char>) -> Result<
    Seq<char>,
    Seq<char>,
> {
    match ty {
        TypeExpr::Reference(r) => field_code(*r.elem, expr, c),
        TypeExpr::Path(p) => {
            let name = p.last.ident@;
            let inner = types::last_type(p.last);
            if moved_scalar(name, expr, c) is Some {
                Ok(moved_scalar(name, expr, c)->Some_0)
            } else if name == "Cow"@ && inner is Some && types::is_ident(inner->Some_0, "str"@) {
                Ok(call(c, "str_v"@, around("("@, expr, ").into_owned()"@)))
            } else if name == "Cow"@ && inner is Some && types::is_u8_slice(inner->Some_0) {
                Ok(call(c, "bytes_v"@, around("("@, expr, ").into_owned()"@)))
            } else if types::is_vec_u8(ty) {
                Ok(call(c, "bytes_v"@, expr))
            } else if name == "Vec"@ && is_vec_string(p) {
                Ok(
                    call(
                        c,
                        "list_v"@,
                        around("("@, expr, ").into_iter().map(|__arcade_e| "@) + call(
                            c,
                            "str_v"@,
                            "__arcade_e"@,
                        ) + ").collect()"@,
                    ),
                )
            } else {
                field_code(ty, around("&"@, expr, ""@), c)
            }
        },
        _ => field_code(ty, expr, c),
    }
}

// ---------------------------------------------------------------------------
// Executable side
// ---------------------------------------------------------------------------

fn wrap(before: &str, expr: &str, after: &str) -> (r: String)
    ensures
        r@ == around(before@, expr@, after@),
{
    let mut s = before.to_owned();
    s.append(expr);
    s.append(after);
    s
}

fn call_text(c: &str, f: &str, arg: &str) -> (r: String)
    ensures
        r@ == call(c@, f@, arg@),
{
    let mut s = c.to_owned();
    s.append("::encode::");
    s.append(f);
    s.append("(");
    s.append(arg);
    s.append(")");
    s
}

fn timestamp_text(c: &str, expr: &str) -> (r: String)
    ensures
        r@ == timestamp_code(c@, expr@),
{
    let mut s = c.to_owned();
    s.append("::GrpcValue { kind: ::core::option::Option::Some(");
    s.append(c);
    s.append("::Kind::TimestampValue(");
    s.append(c);
    s.append("::Timestamp { seconds: (");
    s.append(expr);
    s.append(").timestamp(), nanos: (");
    s.append(expr);
    s.append(
        ").timestamp_subsec_nanos() as i32 })), logical_type: ::std::string::String::new() }",
    );
    s
}

fn foreign_text(c: &str, expr: &str) -> (r: String)
    ensures
        r@ == foreign_code(c@, expr@),
{
    let mut s = "<_ as ".to_owned();
    s.append(c);
    s.append("::record::ToGrpcRecord>::to_grpc_value(");
    s.append(expr);
    s.append(")");
    s
}

fn json_text(c: &str, expr: &str) -> (r: String)
    ensures
        r@ == json_code(c@, expr@),
{
    let mut s = c.to_owned();
    s.append("::json_to_grpc_value(");
    s.append(expr);
    s.append(")");
    s
}

/// Element or value text inside a container: known kinds encode by their type, foreign ones
/// encode themselves.
fn elem_text(inner: &Option<DbType>, var: &str, c: &str) -> (r: String)
    ensures
        r@ == match *inner {
            Some(db) => value_code(db, var@, c@),
            None => foreign_code(c@, var@),
        },
    decreases inner,
{
    match inner {
        Some(db) => value_from_db(db, var, c),
        None => foreign_text(c, var),
    }
}

/// The wire value of a reference `expr` to a value of a classified type. `c` is the path of
/// the runtime crate.
pub fn value_from_db(db: &DbType, expr: &str, c: &str) -> (r: String)
    ensures
        r@ == value_code(*db, expr@, c@),
    decreases db,
{
    match db {
        DbType::Str => call_text(c, "str_v", wrap("(", expr, ").to_string()").as_str()),
        DbType::Char => call_text(c, "str_v", wrap("(", expr, ").to_string()").as_str()),
        DbType::Bool => call_text(c, "bool_v", wrap("*", expr, "").as_str()),
        DbType::Int32(Int32W::Direct) => call_text(c, "i32_v", wrap("*", expr, "").as_str()),
        DbType::Int32(Int32W::Widened) => call_text(
            c,
            "i32_v",
            wrap("i32::from(*", expr, ")").as_str(),
        ),
        DbType::Int64(Int64W::Direct) => call_text(c, "i64_v", wrap("*", expr, "").as_str()),
        DbType::Int64(Int64W::FromU32) => call_text(
            c,
            "i64_v",
            wrap("i64::from(*", expr, ")").as_str(),
        ),
        DbType::Int64(Int64W::NarrowedU64) => call_text(
            c,
            "i64_v",
            wrap("*", expr, " as i64").as_str(),
        ),
        DbType::F32 => call_text(c, "f32_v", wrap("(*", expr, ").to_bits()").as_str()),
        DbType::F64 => call_text(c, "f64_v", wrap("(*", expr, ").to_bits()").as_str()),
        DbType::Bytes => call_text(c, "bytes_v", wrap("(", expr, ").clone()").as_str()),
        DbType::Json => json_text(c, expr),
        DbType::Link => call_text(c, "link_v", wrap("(", expr, ").to_string()").as_str()),
        DbType::DateTime => timestamp_text(c, expr),
        DbType::NaiveDate => call_text(c, "date_v", wrap("*", expr, "").as_str()),
        DbType::Decimal => call_text(c, "decimal_v", wrap("*", expr, "").as_str()),
        DbType::ListOf(inner) => {
            let elem = elem_text(inner, "__arcade_e", c);
            let mut arg = wrap("(", expr, ").iter().map(|__arcade_e| ");
            arg.append(elem.as_str());
            arg.append(").collect()");
            call_text(c, "list_v", arg.as_str())
        },
        DbType::MapOf(inner) => {
            let value = elem_text(inner, "__arcade_v", c);
            let mut arg = wrap(
                "(",
                expr,
                ").iter().map(|(__arcade_k, __arcade_v)| (__arcade_k.clone(), ",
            );
            arg.append(value.as_str());
            arg.append(")).collect()");
            call_text(c, "map_v", arg.as_str())
        },
    }
}

/// The wire value of a reference `expr` to a value of type `ty`; types without a wire kind
/// encode themselves.
pub fn encode_field_value(ty: &TypeExpr, expr: &str, c: &str) -> (r: Result<String, String>)
    ensures
        match (r, field_code(*ty, expr@, c@)) {
            (Ok(a), Ok(b)) => a@ == b,
            (Err(e), Err(m)) => e@ == m,
            _ => false,
        },
{
    match types::classify(ty)? {
        Classification::Known(db) => Ok(value_from_db(&db, expr, c)),
        Classification::Foreign => Ok(foreign_text(c, expr)),
    }
}

fn move_scalar(name: &str, expr: &str, c: &str) -> (r: Option<String>)
    ensures
        text::optional(r) == moved_scalar(name@, expr@, c@),
{
    if text::same(name, "String") {
        Some(call_text(c, "str_v", expr))
    } else if text::same(name, "char") {
        Some(call_text(c, "str_v", wrap("(", expr, ").to_string()").as_str()))
    } else if text::same(name, "bool") {
        Some(call_text(c, "bool_v", expr))
    } else if text::same(name, "i32") {
        Some(call_text(c, "i32_v", expr))
    } else if text::same(name, "i8") || text::same(name, "i16") || text::same(name, "u8")
        || text::same(name, "u16") {
        Some(call_text(c, "i32_v", wrap("i32::from(", expr, ")").as_str()))
    } else if text::same(name, "i64") || text::same(name, "u32") {
        Some(call_text(c, "i64_v", wrap("i64::from(", expr, ")").as_str()))
    } else if text::same(name, "u64") {
        Some(call_text(c, "i64_v", wrap("", expr, " as i64").as_str()))
    } else if text::same(name, "f32") {
        Some(call_text(c, "f32_v", wrap("(", expr, ").to_bits()").as_str()))
    } else if text::same(name, "f64") {
        Some(call_text(c, "f64_v", wrap("(", expr, ").to_bits()").as_str()))
    } else if text::same(name, "DateTime") {
        Some(timestamp_text(c, expr))
    } else if text::same(name, "Value") {
        Some(json_text(c, wrap("&", expr, "").as_str()))
    } else if text::same(name, "Link") {
        Some(call_text(c, "link_v", wrap("(", expr, ").to_string()").as_str()))
    } else {
        None
    }
}

/// The wire value of an owned `expr` of type `ty`: `String`, `Cow`, `Vec<u8>`, `Vec<String>`
/// and scalars move; every other type is encoded through a borrow, with the same result.
pub fn encode_field_value_move(ty: &TypeExpr, expr: &str, c: &str) -> (r: Result<String, String>)
    ensures
        match (r, moved_code(*ty, expr@, c@)) {
            (Ok(a), Ok(b)) => a@ == b,
            (Err(e), Err(m)) => e@ == m,
            _ => false,
        },
{
    match ty {
        TypeExpr::Reference(re) => encode_field_value(&re.elem, expr, c),
        TypeExpr::Path(p) => {
            let name = p.last.ident.as_str();
            if let Some(s) = move_scalar(name, expr, c) {
                return Ok(s);
            }
            if let Ok(inner) = types::container_inner(&p.last, "Cow") {
                if text::same(name, "Cow") && types::ident_is(inner, "str") {
                    return Ok(call_text(c, "str_v", wrap("(", expr, ").into_owned()").as_str()));
                }
                if text::same(name, "Cow") && types::u8_slice(inner) {
                    return Ok(call_text(c, "bytes_v", wrap("(", expr, ").into_owned()").as_str()));
                }
            }
            if types::vec_u8(ty) {
                return Ok(call_text(c, "bytes_v", expr));
            }
            if let Ok(inner) = types::container_inner(&p.last, "Vec") {
                if text::same(name, "Vec") && types::ident_is(inner, "String") {
                    let mut arg = wrap("(", expr, ").into_iter().map(|__arcade_e| ");
                    arg.append(call_text(c, "str_v", "__arcade_e").as_str());
                    arg.append(").collect()");
                    return Ok(call_text(c, "list_v", arg.as_str()));
                }
            }
            encode_field_value(ty, wrap("&", expr, "").as_str(), c)
        },
        _ => encode_field_value(ty, expr, c),
    }
}

} // verus!
