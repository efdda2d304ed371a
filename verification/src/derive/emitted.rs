//! Laws of the code that the derives emit: what it says for each type and each attribute, word
//! for word.

use vstd::prelude::*;
use crate::derive::attrs;
use crate::derive::attrs::{FallbackView, Meta, MetaValue};
use crate::derive::code;
use crate::derive::decode;
use crate::derive::decode::{FieldPlanView, PresenceView, ReadView, Synth};
use crate::derive::encode;
use crate::derive::encode::{
    DiffView, EncodeFieldView, SourceView, VariantFieldView, WhenView, WriteView,
};
use crate::derive::expand;
use crate::derive::expand_encode;
use crate::derive::input;
use crate::derive::literal;
use crate::derive::naming;
use crate::derive::naming::RenameRule;
use crate::derive::types;
use crate::derive::types::{TypeExpr, TypePath};
use crate::text;

verus! {

// ---------------------------------------------------------------------------
// Types
// ---------------------------------------------------------------------------

/// The names of the types that the derives know are all different.
proof fn lemma_type_names()
    ensures
        "str"@ != "String"@,
        "str"@ != "char"@,
        "str"@ != "bool"@,
        "str"@ != "i8"@,
        "str"@ != "i16"@,
        "str"@ != "u8"@,
        "str"@ != "u16"@,
        "str"@ != "i32"@,
        "str"@ != "i64"@,
        "str"@ != "u32"@,
        "str"@ != "u64"@,
        "str"@ != "f32"@,
        "str"@ != "f64"@,
        "str"@ != "Value"@,
        "str"@ != "Link"@,
        "str"@ != "DateTime"@,
        "str"@ != "NaiveDate"@,
        "str"@ != "Decimal"@,
        "str"@ != "Option"@,
        "str"@ != "Cow"@,
        "str"@ != "Vec"@,
        "str"@ != "HashSet"@,
        "str"@ != "BTreeSet"@,
        "str"@ != "HashMap"@,
        "str"@ != "BTreeMap"@,
        "String"@ != "char"@,
        "String"@ != "bool"@,
        "String"@ != "i8"@,
        "String"@ != "i16"@,
        "String"@ != "u8"@,
        "String"@ != "u16"@,
        "String"@ != "i32"@,
        "String"@ != "i64"@,
        "String"@ != "u32"@,
        "String"@ != "u64"@,
        "String"@ != "f32"@,
        "String"@ != "f64"@,
        "String"@ != "Value"@,
        "String"@ != "Link"@,
        "String"@ != "DateTime"@,
        "String"@ != "NaiveDate"@,
        "String"@ != "Decimal"@,
        "String"@ != "Option"@,
        "String"@ != "Cow"@,
        "String"@ != "Vec"@,
        "String"@ != "HashSet"@,
        "String"@ != "BTreeSet"@,
        "String"@ != "HashMap"@,
        "String"@ != "BTreeMap"@,
        "char"@ != "bool"@,
        "char"@ != "i8"@,
        "char"@ != "i16"@,
        "char"@ != "u8"@,
        "char"@ != "u16"@,
        "char"@ != "i32"@,
        "char"@ != "i64"@,
        "char"@ != "u32"@,
        "char"@ != "u64"@,
        "char"@ != "f32"@,
        "char"@ != "f64"@,
        "char"@ != "Value"@,
        "char"@ != "Link"@,
        "char"@ != "DateTime"@,
        "char"@ != "NaiveDate"@,
        "char"@ != "Decimal"@,
        "char"@ != "Option"@,
        "char"@ != "Cow"@,
        "char"@ != "Vec"@,
        "char"@ != "HashSet"@,
        "char"@ != "BTreeSet"@,
        "char"@ != "HashMap"@,
        "char"@ != "BTreeMap"@,
        "bool"@ != "i8"@,
        "bool"@ != "i16"@,
        "bool"@ != "u8"@,
        "bool"@ != "u16"@,
        "bool"@ != "i32"@,
        "bool"@ != "i64"@,
        "bool"@ != "u32"@,
        "bool"@ != "u64"@,
        "bool"@ != "f32"@,
        "bool"@ != "f64"@,
        "bool"@ != "Value"@,
        "bool"@ != "Link"@,
        "bool"@ != "DateTime"@,
        "bool"@ != "NaiveDate"@,
        "bool"@ != "Decimal"@,
        "bool"@ != "Option"@,
        "bool"@ != "Cow"@,
        "bool"@ != "Vec"@,
        "bool"@ != "HashSet"@,
        "bool"@ != "BTreeSet"@,
        "bool"@ != "HashMap"@,
        "bool"@ != "BTreeMap"@,
        "i8"@ != "i16"@,
        "i8"@ != "u8"@,
        "i8"@ != "u16"@,
        "i8"@ != "i32"@,
        "i8"@ != "i64"@,
        "i8"@ != "u32"@,
        "i8"@ != "u64"@,
        "i8"@ != "f32"@,
        "i8"@ != "f64"@,
        "i8"@ != "Value"@,
        "i8"@ != "Link"@,
        "i8"@ != "DateTime"@,
        "i8"@ != "NaiveDate"@,
        "i8"@ != "Decimal"@,
        "i8"@ != "Option"@,
        "i8"@ != "Cow"@,
        "i8"@ != "Vec"@,
        "i8"@ != "HashSet"@,
        "i8"@ != "BTreeSet"@,
        "i8"@ != "HashMap"@,
        "i8"@ != "BTreeMap"@,
        "i16"@ != "u8"@,
        "i16"@ != "u16"@,
        "i16"@ != "i32"@,
        "i16"@ != "i64"@,
        "i16"@ != "u32"@,
        "i16"@ != "u64"@,
        "i16"@ != "f32"@,
        "i16"@ != "f64"@,
        "i16"@ != "Value"@,
        "i16"@ != "Link"@,
        "i16"@ != "DateTime"@,
        "i16"@ != "NaiveDate"@,
        "i16"@ != "Decimal"@,
        "i16"@ != "Option"@,
        "i16"@ != "Cow"@,
        "i16"@ != "Vec"@,
        "i16"@ != "HashSet"@,
        "i16"@ != "BTreeSet"@,
        "i16"@ != "HashMap"@,
        "i16"@ != "BTreeMap"@,
        "u8"@ != "u16"@,
        "u8"@ != "i32"@,
        "u8"@ != "i64"@,
        "u8"@ != "u32"@,
        "u8"@ != "u64"@,
        "u8"@ != "f32"@,
        "u8"@ != "f64"@,
        "u8"@ != "Value"@,
        "u8"@ != "Link"@,
        "u8"@ != "DateTime"@,
        "u8"@ != "NaiveDate"@,
        "u8"@ != "Decimal"@,
        "u8"@ != "Option"@,
        "u8"@ != "Cow"@,
        "u8"@ != "Vec"@,
        "u8"@ != "HashSet"@,
        "u8"@ != "BTreeSet"@,
        "u8"@ != "HashMap"@,
        "u8"@ != "BTreeMap"@,
        "u16"@ != "i32"@,
        "u16"@ != "i64"@,
        "u16"@ != "u32"@,
        "u16"@ != "u64"@,
        "u16"@ != "f32"@,
        "u16"@ != "f64"@,
        "u16"@ != "Value"@,
        "u16"@ != "Link"@,
        "u16"@ != "DateTime"@,
        "u16"@ != "NaiveDate"@,
        "u16"@ != "Decimal"@,
        "u16"@ != "Option"@,
        "u16"@ != "Cow"@,
        "u16"@ != "Vec"@,
        "u16"@ != "HashSet"@,
        "u16"@ != "BTreeSet"@,
        "u16"@ != "HashMap"@,
        "u16"@ != "BTreeMap"@,
        "i32"@ != "i64"@,
        "i32"@ != "u32"@,
        "i32"@ != "u64"@,
        "i32"@ != "f32"@,
        "i32"@ != "f64"@,
        "i32"@ != "Value"@,
        "i32"@ != "Link"@,
        "i32"@ != "DateTime"@,
        "i32"@ != "NaiveDate"@,
        "i32"@ != "Decimal"@,
        "i32"@ != "Option"@,
        "i32"@ != "Cow"@,
        "i32"@ != "Vec"@,
        "i32"@ != "HashSet"@,
        "i32"@ != "BTreeSet"@,
        "i32"@ != "HashMap"@,
        "i32"@ != "BTreeMap"@,
        "i64"@ != "u32"@,
        "i64"@ != "u64"@,
        "i64"@ != "f32"@,
        "i64"@ != "f64"@,
        "i64"@ != "Value"@,
        "i64"@ != "Link"@,
        "i64"@ != "DateTime"@,
        "i64"@ != "NaiveDate"@,
        "i64"@ != "Decimal"@,
        "i64"@ != "Option"@,
        "i64"@ != "Cow"@,
        "i64"@ != "Vec"@,
        "i64"@ != "HashSet"@,
        "i64"@ != "BTreeSet"@,
        "i64"@ != "HashMap"@,
        "i64"@ != "BTreeMap"@,
        "u32"@ != "u64"@,
        "u32"@ != "f32"@,
        "u32"@ != "f64"@,
        "u32"@ != "Value"@,
        "u32"@ != "Link"@,
        "u32"@ != "DateTime"@,
        "u32"@ != "NaiveDate"@,
        "u32"@ != "Decimal"@,
        "u32"@ != "Option"@,
        "u32"@ != "Cow"@,
        "u32"@ != "Vec"@,
        "u32"@ != "HashSet"@,
        "u32"@ != "BTreeSet"@,
        "u32"@ != "HashMap"@,
        "u32"@ != "BTreeMap"@,
        "u64"@ != "f32"@,
        "u64"@ != "f64"@,
        "u64"@ != "Value"@,
        "u64"@ != "Link"@,
        "u64"@ != "DateTime"@,
        "u64"@ != "NaiveDate"@,
        "u64"@ != "Decimal"@,
        "u64"@ != "Option"@,
        "u64"@ != "Cow"@,
        "u64"@ != "Vec"@,
        "u64"@ != "HashSet"@,
        "u64"@ != "BTreeSet"@,
        "u64"@ != "HashMap"@,
        "u64"@ != "BTreeMap"@,
        "f32"@ != "f64"@,
        "f32"@ != "Value"@,
        "f32"@ != "Link"@,
        "f32"@ != "DateTime"@,
        "f32"@ != "NaiveDate"@,
        "f32"@ != "Decimal"@,
        "f32"@ != "Option"@,
        "f32"@ != "Cow"@,
        "f32"@ != "Vec"@,
        "f32"@ != "HashSet"@,
        "f32"@ != "BTreeSet"@,
        "f32"@ != "HashMap"@,
        "f32"@ != "BTreeMap"@,
        "f64"@ != "Value"@,
        "f64"@ != "Link"@,
        "f64"@ != "DateTime"@,
        "f64"@ != "NaiveDate"@,
        "f64"@ != "Decimal"@,
        "f64"@ != "Option"@,
        "f64"@ != "Cow"@,
        "f64"@ != "Vec"@,
        "f64"@ != "HashSet"@,
        "f64"@ != "BTreeSet"@,
        "f64"@ != "HashMap"@,
        "f64"@ != "BTreeMap"@,
        "Value"@ != "Link"@,
        "Value"@ != "DateTime"@,
        "Value"@ != "NaiveDate"@,
        "Value"@ != "Decimal"@,
        "Value"@ != "Option"@,
        "Value"@ != "Cow"@,
        "Value"@ != "Vec"@,
        "Value"@ != "HashSet"@,
        "Value"@ != "BTreeSet"@,
        "Value"@ != "HashMap"@,
        "Value"@ != "BTreeMap"@,
        "Link"@ != "DateTime"@,
        "Link"@ != "NaiveDate"@,
        "Link"@ != "Decimal"@,
        "Link"@ != "Option"@,
        "Link"@ != "Cow"@,
        "Link"@ != "Vec"@,
        "Link"@ != "HashSet"@,
        "Link"@ != "BTreeSet"@,
        "Link"@ != "HashMap"@,
        "Link"@ != "BTreeMap"@,
        "DateTime"@ != "NaiveDate"@,
        "DateTime"@ != "Decimal"@,
        "DateTime"@ != "Option"@,
        "DateTime"@ != "Cow"@,
        "DateTime"@ != "Vec"@,
        "DateTime"@ != "HashSet"@,
        "DateTime"@ != "BTreeSet"@,
        "DateTime"@ != "HashMap"@,
        "DateTime"@ != "BTreeMap"@,
        "NaiveDate"@ != "Decimal"@,
        "NaiveDate"@ != "Option"@,
        "NaiveDate"@ != "Cow"@,
        "NaiveDate"@ != "Vec"@,
        "NaiveDate"@ != "HashSet"@,
        "NaiveDate"@ != "BTreeSet"@,
        "NaiveDate"@ != "HashMap"@,
        "NaiveDate"@ != "BTreeMap"@,
        "Decimal"@ != "Option"@,
        "Decimal"@ != "Cow"@,
        "Decimal"@ != "Vec"@,
        "Decimal"@ != "HashSet"@,
        "Decimal"@ != "BTreeSet"@,
        "Decimal"@ != "HashMap"@,
        "Decimal"@ != "BTreeMap"@,
        "Option"@ != "Cow"@,
        "Option"@ != "Vec"@,
        "Option"@ != "HashSet"@,
        "Option"@ != "BTreeSet"@,
        "Option"@ != "HashMap"@,
        "Option"@ != "BTreeMap"@,
        "Cow"@ != "Vec"@,
        "Cow"@ != "HashSet"@,
        "Cow"@ != "BTreeSet"@,
        "Cow"@ != "HashMap"@,
        "Cow"@ != "BTreeMap"@,
        "Vec"@ != "HashSet"@,
        "Vec"@ != "BTreeSet"@,
        "Vec"@ != "HashMap"@,
        "Vec"@ != "BTreeMap"@,
        "HashSet"@ != "BTreeSet"@,
        "HashSet"@ != "HashMap"@,
        "HashSet"@ != "BTreeMap"@,
        "BTreeSet"@ != "HashMap"@,
        "BTreeSet"@ != "BTreeMap"@,
        "HashMap"@ != "BTreeMap"@,
{
    reveal_strlit("str");
    reveal_strlit("String");
    reveal_strlit("char");
    reveal_strlit("bool");
    reveal_strlit("i8");
    reveal_strlit("i16");
    reveal_strlit("u8");
    reveal_strlit("u16");
    reveal_strlit("i32");
    reveal_strlit("i64");
    reveal_strlit("u32");
    reveal_strlit("u64");
    reveal_strlit("f32");
    reveal_strlit("f64");
    reveal_strlit("Value");
    reveal_strlit("Link");
    reveal_strlit("DateTime");
    reveal_strlit("NaiveDate");
    reveal_strlit("Decimal");
    reveal_strlit("Option");
    reveal_strlit("Cow");
    reveal_strlit("Vec");
    reveal_strlit("HashSet");
    reveal_strlit("BTreeSet");
    reveal_strlit("HashMap");
    reveal_strlit("BTreeMap");
    assert("str"@.len() == 3);
    assert("String"@.len() == 6);
    assert("char"@.len() == 4);
    assert("bool"@.len() == 4);
    assert("i8"@.len() == 2);
    assert("i16"@.len() == 3);
    assert("u8"@.len() == 2);
    assert("u16"@.len() == 3);
    assert("i32"@.len() == 3);
    assert("i64"@.len() == 3);
    assert("u32"@.len() == 3);
    assert("u64"@.len() == 3);
    assert("f32"@.len() == 3);
    assert("f64"@.len() == 3);
    assert("Value"@.len() == 5);
    assert("Link"@.len() == 4);
    assert("DateTime"@.len() == 8);
    assert("NaiveDate"@.len() == 9);
    assert("Decimal"@.len() == 7);
    assert("Option"@.len() == 6);
    assert("Cow"@.len() == 3);
    assert("Vec"@.len() == 3);
    assert("HashSet"@.len() == 7);
    assert("BTreeSet"@.len() == 8);
    assert("HashMap"@.len() == 7);
    assert("BTreeMap"@.len() == 8);
    assert("str"@[0] != "i16"@[0]);
    assert("str"@[0] != "u16"@[0]);
    assert("str"@[0] != "i32"@[0]);
    assert("str"@[0] != "i64"@[0]);
    assert("str"@[0] != "u32"@[0]);
    assert("str"@[0] != "u64"@[0]);
    assert("str"@[0] != "f32"@[0]);
    assert("str"@[0] != "f64"@[0]);
    assert("str"@[0] != "Cow"@[0]);
    assert("str"@[0] != "Vec"@[0]);
    assert("String"@[0] != "Option"@[0]);
    assert("char"@[0] != "bool"@[0]);
    assert("char"@[0] != "Link"@[0]);
    assert("bool"@[0] != "Link"@[0]);
    assert("i8"@[0] != "u8"@[0]);
    assert("i16"@[0] != "u16"@[0]);
    assert("i16"@[1] != "i32"@[1]);
    assert("i16"@[1] != "i64"@[1]);
    assert("i16"@[0] != "u32"@[0]);
    assert("i16"@[0] != "u64"@[0]);
    assert("i16"@[0] != "f32"@[0]);
    assert("i16"@[0] != "f64"@[0]);
    assert("i16"@[0] != "Cow"@[0]);
    assert("i16"@[0] != "Vec"@[0]);
    assert("u16"@[0] != "i32"@[0]);
    assert("u16"@[0] != "i64"@[0]);
    assert("u16"@[1] != "u32"@[1]);
    assert("u16"@[1] != "u64"@[1]);
    assert("u16"@[0] != "f32"@[0]);
    assert("u16"@[0] != "f64"@[0]);
    assert("u16"@[0] != "Cow"@[0]);
    assert("u16"@[0] != "Vec"@[0]);
    assert("i32"@[1] != "i64"@[1]);
    assert("i32"@[0] != "u32"@[0]);
    assert("i32"@[0] != "u64"@[0]);
    assert("i32"@[0] != "f32"@[0]);
    assert("i32"@[0] != "f64"@[0]);
    assert("i32"@[0] != "Cow"@[0]);
    assert("i32"@[0] != "Vec"@[0]);
    assert("i64"@[0] != "u32"@[0]);
    assert("i64"@[0] != "u64"@[0]);
    assert("i64"@[0] != "f32"@[0]);
    assert("i64"@[0] != "f64"@[0]);
    assert("i64"@[0] != "Cow"@[0]);
    assert("i64"@[0] != "Vec"@[0]);
    assert("u32"@[1] != "u64"@[1]);
    assert("u32"@[0] != "f32"@[0]);
    assert("u32"@[0] != "f64"@[0]);
    assert("u32"@[0] != "Cow"@[0]);
    assert("u32"@[0] != "Vec"@[0]);
    assert("u64"@[0] != "f32"@[0]);
    assert("u64"@[0] != "f64"@[0]);
    assert("u64"@[0] != "Cow"@[0]);
    assert("u64"@[0] != "Vec"@[0]);
    assert("f32"@[1] != "f64"@[1]);
    assert("f32"@[0] != "Cow"@[0]);
    assert("f32"@[0] != "Vec"@[0]);
    assert("f64"@[0] != "Cow"@[0]);
    assert("f64"@[0] != "Vec"@[0]);
    assert("DateTime"@[0] != "BTreeSet"@[0]);
    assert("DateTime"@[0] != "BTreeMap"@[0]);
    assert("Decimal"@[0] != "HashSet"@[0]);
    assert("Decimal"@[0] != "HashMap"@[0]);
    assert("Cow"@[0] != "Vec"@[0]);
    assert("HashSet"@[4] != "HashMap"@[4]);
    assert("BTreeSet"@[5] != "BTreeMap"@[5]);
}

/// The call of the library's writer `f`.
pub open spec fn writes(c: Seq<char>, f: Seq<char>, argument: Seq<char>) -> Result<
    Seq<char>,
    Seq<char>,
> {
    Ok(c + "::encode::"@ + f + "("@ + argument + ")"@)
}

/// A date-time field is written as its instant: the seconds since the epoch, and the
/// nanoseconds within the second. Both the borrowing and the consuming writer do so.
pub proof fn law_date_times_are_written_as_their_instant(
    p: TypePath,
    expr: Seq<char>,
    c: Seq<char>,
)
    requires
        p.last.ident@ == "DateTime"@,
    ensures
        ({
            let text = c + "::GrpcValue { kind: ::core::option::Option::Some("@ + c
                + "::Kind::TimestampValue("@ + c + "::Timestamp { seconds: ("@ + expr
                + ").timestamp(), nanos: ("@ + expr
                + ").timestamp_subsec_nanos() as i32 })), logical_type: ::std::string::String::new() }"@;
            &&& code::field_code(TypeExpr::Path(p), expr, c) == Ok::<Seq<char>, Seq<char>>(text)
            &&& code::moved_code(TypeExpr::Path(p), expr, c) == Ok::<Seq<char>, Seq<char>>(text)
        }),
{
    lemma_type_names();
}

/// Every type without arguments is written by the writer of its own wire kind, from the value
/// behind the reference.
pub proof fn law_borrowed_scalars_have_their_writer(p: TypePath, expr: Seq<char>, c: Seq<char>)
    ensures
        ({
            let name = p.last.ident@;
            let written = code::field_code(TypeExpr::Path(p), expr, c);
            &&& name == "str"@ || name == "String"@ || name == "char"@ ==> written == writes(
                c,
                "str_v"@,
                "("@ + expr + ").to_string()"@,
            )
            &&& name == "bool"@ ==> written == writes(c, "bool_v"@, "*"@ + expr + ""@)
            &&& name == "i32"@ ==> written == writes(c, "i32_v"@, "*"@ + expr + ""@)
            &&& name == "i8"@ || name == "i16"@ || name == "u8"@ || name == "u16"@ ==> written
                == writes(c, "i32_v"@, "i32::from(*"@ + expr + ")"@)
            &&& name == "i64"@ ==> written == writes(c, "i64_v"@, "*"@ + expr + ""@)
            &&& name == "u32"@ ==> written == writes(c, "i64_v"@, "i64::from(*"@ + expr + ")"@)
            &&& name == "u64"@ ==> written == writes(c, "i64_v"@, "*"@ + expr + " as i64"@)
            &&& name == "f32"@ ==> written == writes(c, "f32_v"@, "(*"@ + expr + ").to_bits()"@)
            &&& name == "f64"@ ==> written == writes(c, "f64_v"@, "(*"@ + expr + ").to_bits()"@)
            &&& name == "Link"@ ==> written == writes(c, "link_v"@, "("@ + expr + ").to_string()"@)
            &&& name == "NaiveDate"@ ==> written == writes(c, "date_v"@, "*"@ + expr + ""@)
            &&& name == "Decimal"@ ==> written == writes(c, "decimal_v"@, "*"@ + expr + ""@)
            &&& name == "Value"@ ==> written == Ok::<Seq<char>, Seq<char>>(
                c + "::json_to_grpc_value("@ + expr + ")"@,
            )
        }),
{
    lemma_type_names();
}

/// The consuming writer writes the same kinds, from the value itself; what it has no shorter
/// way for, it borrows.
pub proof fn law_moved_scalars_have_their_writer(p: TypePath, expr: Seq<char>, c: Seq<char>)
    ensures
        ({
            let name = p.last.ident@;
            let written = code::moved_code(TypeExpr::Path(p), expr, c);
            &&& name == "String"@ ==> written == writes(c, "str_v"@, expr)
            &&& name == "char"@ ==> written == writes(c, "str_v"@, "("@ + expr + ").to_string()"@)
            &&& name == "bool"@ ==> written == writes(c, "bool_v"@, expr)
            &&& name == "i32"@ ==> written == writes(c, "i32_v"@, expr)
            &&& name == "i8"@ || name == "i16"@ || name == "u8"@ || name == "u16"@ ==> written
                == writes(c, "i32_v"@, "i32::from("@ + expr + ")"@)
            &&& name == "i64"@ || name == "u32"@ ==> written == writes(
                c,
                "i64_v"@,
                "i64::from("@ + expr + ")"@,
            )
            &&& name == "u64"@ ==> written == writes(c, "i64_v"@, ""@ + expr + " as i64"@)
            &&& name == "f32"@ ==> written == writes(c, "f32_v"@, "("@ + expr + ").to_bits()"@)
            &&& name == "f64"@ ==> written == writes(c, "f64_v"@, "("@ + expr + ").to_bits()"@)
            &&& name == "Link"@ ==> written == writes(c, "link_v"@, "("@ + expr + ").to_string()"@)
            &&& name == "Value"@ ==> written == Ok::<Seq<char>, Seq<char>>(
                c + "::json_to_grpc_value("@ + ("&"@ + expr + ""@) + ")"@,
            )
            &&& name == "NaiveDate"@ || name == "Decimal"@ || name == "HashMap"@ || name
                == "BTreeMap"@ || name == "HashSet"@ || name == "BTreeSet"@ || name == "Option"@
                ==> written == code::field_code(TypeExpr::Path(p), "&"@ + expr + ""@, c)
        }),
{
    lemma_type_names();
}

/// A list is written element by element, each as a field of its type is; so is a map, value by
/// value, under its own keys. A byte vector is a blob.
pub proof fn law_containers_write_their_elements(
    p: TypePath,
    elem: TypeExpr,
    expr: Seq<char>,
    c: Seq<char>,
)
    ensures
        ({
            let name = p.last.ident@;
            let ty = TypeExpr::Path(p);
            let written = code::field_code(ty, expr, c);
            &&& types::is_vec_u8(ty) ==> written == writes(c, "bytes_v"@, "("@ + expr
                + ").clone()"@)
            &&& (name == "Vec"@ || name == "HashSet"@ || name == "BTreeSet"@) && types::last_type(
                p.last,
            ) == Some(elem) && !types::is_vec_u8(ty) ==> match code::field_code(
                elem,
                "__arcade_e"@,
                c,
            ) {
                Ok(inner) => written == writes(
                    c,
                    "list_v"@,
                    "("@ + expr + ").iter().map(|__arcade_e| "@ + inner + ").collect()"@,
                ),
                Err(m) => written == Err::<Seq<char>, Seq<char>>(m),
            }
            &&& (name == "HashMap"@ || name == "BTreeMap"@) && types::value_of_map(p.last)
                == Ok::<TypeExpr, Seq<char>>(elem) ==> match code::field_code(
                elem,
                "__arcade_v"@,
                c,
            ) {
                Ok(inner) => written == writes(
                    c,
                    "map_v"@,
                    "("@ + expr
                        + ").iter().map(|(__arcade_k, __arcade_v)| (__arcade_k.clone(), "@ + inner
                        + ")).collect()"@,
                ),
                Err(m) => written == Err::<Seq<char>, Seq<char>>(m),
            }
        }),
{
    lemma_type_names();
    reveal_with_fuel(code::value_code, 2);
    reveal_with_fuel(types::classified, 2);
}

/// A reference is written as what it refers to, an optional value as the value, and a type
/// that the derives do not know writes itself.
pub proof fn law_wrappers_write_what_they_hold(
    ty: TypeExpr,
    inner: TypeExpr,
    expr: Seq<char>,
    c: Seq<char>,
)
    ensures
        ty matches TypeExpr::Reference(r) ==> code::field_code(ty, expr, c) == code::field_code(
            *r.elem,
            expr,
            c,
        ),
        types::inner_of_option(ty) == Some(inner) ==> code::field_code(ty, expr, c)
            == code::field_code(inner, expr, c),
        (ty is Tuple || ty is Paren || ty is Group || ty is Other) ==> code::field_code(ty, expr, c)
            == Ok::<Seq<char>, Seq<char>>(
            "<_ as "@ + c + "::record::ToGrpcRecord>::to_grpc_value("@ + expr + ")"@,
        ),
{
    reveal_with_fuel(types::classified, 2);
}

/// The schema type of a column is the database's name for its wire kind.
pub proof fn law_columns_have_database_types(p: TypePath)
    ensures
        ({
            let name = p.last.ident@;
            let column = types::column_type(TypeExpr::Path(p));
            &&& name == "str"@ || name == "String"@ || name == "char"@ ==> column == Some(
                "STRING"@,
            )
            &&& name == "bool"@ ==> column == Some("BOOLEAN"@)
            &&& name == "i8"@ || name == "i16"@ || name == "u8"@ || name == "u16"@ || name
                == "i32"@ ==> column == Some("INTEGER"@)
            &&& name == "i64"@ || name == "u32"@ || name == "u64"@ ==> column == Some("LONG"@)
            &&& name == "f32"@ ==> column == Some("FLOAT"@)
            &&& name == "f64"@ ==> column == Some("DOUBLE"@)
            &&& name == "Link"@ ==> column == Some("LINK"@)
            &&& name == "DateTime"@ ==> column == Some("DATETIME"@)
            &&& name == "NaiveDate"@ ==> column == Some("DATE"@)
            &&& name == "Decimal"@ ==> column == Some("DECIMAL"@)
            &&& name == "Value"@ ==> column is None
            &&& types::is_vec_u8(TypeExpr::Path(p)) ==> column is None
        }),
{
    lemma_type_names();
}

/// A column of lists is a list of the element's type, where that has one; a column of maps is
/// a map.
pub proof fn law_container_columns(p: TypePath, elem: TypeExpr)
    ensures
        ({
            let name = p.last.ident@;
            let ty = TypeExpr::Path(p);
            let column = types::column_type(ty);
            &&& (name == "Vec"@ || name == "HashSet"@ || name == "BTreeSet"@) && types::last_type(
                p.last,
            ) == Some(elem) && !types::is_vec_u8(ty) ==> column == match types::column_type(elem) {
                Some(t) => Some("LIST OF "@ + t),
                None => None,
            }
            &&& (name == "HashMap"@ || name == "BTreeMap"@) && types::value_of_map(p.last)
                == Ok::<TypeExpr, Seq<char>>(elem) && types::classified(elem) is Ok ==> column
                == Some("MAP"@)
        }),
{
    lemma_type_names();
    reveal_with_fuel(types::rendered, 2);
    reveal_with_fuel(types::classified, 2);
}

// ---------------------------------------------------------------------------
// Attributes
// ---------------------------------------------------------------------------

/// The names of the attributes that the derives know are all different.
proof fn lemma_attribute_names()
    ensures
        "rename"@ != "default"@,
        "rename"@ != "flatten"@,
        "rename"@ != "skip"@,
        "rename"@ != "skip_serializing"@,
        "rename"@ != "skip_deserializing"@,
        "rename"@ != "skip_serializing_if"@,
        "rename"@ != "with"@,
        "rename"@ != "deserialize_with"@,
        "rename"@ != "key"@,
        "rename"@ != "crate_path"@,
        "rename"@ != "rename_all"@,
        "rename"@ != "rename_all_fields"@,
        "rename"@ != "tag"@,
        "rename"@ != "serialize"@,
        "rename"@ != "deserialize"@,
        "default"@ != "flatten"@,
        "default"@ != "skip"@,
        "default"@ != "skip_serializing"@,
        "default"@ != "skip_deserializing"@,
        "default"@ != "skip_serializing_if"@,
        "default"@ != "with"@,
        "default"@ != "deserialize_with"@,
        "default"@ != "key"@,
        "default"@ != "crate_path"@,
        "default"@ != "rename_all"@,
        "default"@ != "rename_all_fields"@,
        "default"@ != "tag"@,
        "default"@ != "serialize"@,
        "default"@ != "deserialize"@,
        "flatten"@ != "skip"@,
        "flatten"@ != "skip_serializing"@,
        "flatten"@ != "skip_deserializing"@,
        "flatten"@ != "skip_serializing_if"@,
        "flatten"@ != "with"@,
        "flatten"@ != "deserialize_with"@,
        "flatten"@ != "key"@,
        "flatten"@ != "crate_path"@,
        "flatten"@ != "rename_all"@,
        "flatten"@ != "rename_all_fields"@,
        "flatten"@ != "tag"@,
        "flatten"@ != "serialize"@,
        "flatten"@ != "deserialize"@,
        "skip"@ != "skip_serializing"@,
        "skip"@ != "skip_deserializing"@,
        "skip"@ != "skip_serializing_if"@,
        "skip"@ != "with"@,
        "skip"@ != "deserialize_with"@,
        "skip"@ != "key"@,
        "skip"@ != "crate_path"@,
        "skip"@ != "rename_all"@,
        "skip"@ != "rename_all_fields"@,
        "skip"@ != "tag"@,
        "skip"@ != "serialize"@,
        "skip"@ != "deserialize"@,
        "skip_serializing"@ != "skip_deserializing"@,
        "skip_serializing"@ != "skip_serializing_if"@,
        "skip_serializing"@ != "with"@,
        "skip_serializing"@ != "deserialize_with"@,
        "skip_serializing"@ != "key"@,
        "skip_serializing"@ != "crate_path"@,
        "skip_serializing"@ != "rename_all"@,
        "skip_serializing"@ != "rename_all_fields"@,
        "skip_serializing"@ != "tag"@,
        "skip_serializing"@ != "serialize"@,
        "skip_serializing"@ != "deserialize"@,
        "skip_deserializing"@ != "skip_serializing_if"@,
        "skip_deserializing"@ != "with"@,
        "skip_deserializing"@ != "deserialize_with"@,
        "skip_deserializing"@ != "key"@,
        "skip_deserializing"@ != "crate_path"@,
        "skip_deserializing"@ != "rename_all"@,
        "skip_deserializing"@ != "rename_all_fields"@,
        "skip_deserializing"@ != "tag"@,
        "skip_deserializing"@ != "serialize"@,
        "skip_deserializing"@ != "deserialize"@,
        "skip_serializing_if"@ != "with"@,
        "skip_serializing_if"@ != "deserialize_with"@,
        "skip_serializing_if"@ != "key"@,
        "skip_serializing_if"@ != "crate_path"@,
        "skip_serializing_if"@ != "rename_all"@,
        "skip_serializing_if"@ != "rename_all_fields"@,
        "skip_serializing_if"@ != "tag"@,
        "skip_serializing_if"@ != "serialize"@,
        "skip_serializing_if"@ != "deserialize"@,
        "with"@ != "deserialize_with"@,
        "with"@ != "key"@,
        "with"@ != "crate_path"@,
        "with"@ != "rename_all"@,
        "with"@ != "rename_all_fields"@,
        "with"@ != "tag"@,
        "with"@ != "serialize"@,
        "with"@ != "deserialize"@,
        "deserialize_with"@ != "key"@,
        "deserialize_with"@ != "crate_path"@,
        "deserialize_with"@ != "rename_all"@,
        "deserialize_with"@ != "rename_all_fields"@,
        "deserialize_with"@ != "tag"@,
        "deserialize_with"@ != "serialize"@,
        "deserialize_with"@ != "deserialize"@,
        "key"@ != "crate_path"@,
        "key"@ != "rename_all"@,
        "key"@ != "rename_all_fields"@,
        "key"@ != "tag"@,
        "key"@ != "serialize"@,
        "key"@ != "deserialize"@,
        "crate_path"@ != "rename_all"@,
        "crate_path"@ != "rename_all_fields"@,
        "crate_path"@ != "tag"@,
        "crate_path"@ != "serialize"@,
        "crate_path"@ != "deserialize"@,
        "rename_all"@ != "rename_all_fields"@,
        "rename_all"@ != "tag"@,
        "rename_all"@ != "serialize"@,
        "rename_all"@ != "deserialize"@,
        "rename_all_fields"@ != "tag"@,
        "rename_all_fields"@ != "serialize"@,
        "rename_all_fields"@ != "deserialize"@,
        "tag"@ != "serialize"@,
        "tag"@ != "deserialize"@,
        "serialize"@ != "deserialize"@,
{
    reveal_strlit("rename");
    reveal_strlit("default");
    reveal_strlit("flatten");
    reveal_strlit("skip");
    reveal_strlit("skip_serializing");
    reveal_strlit("skip_deserializing");
    reveal_strlit("skip_serializing_if");
    reveal_strlit("with");
    reveal_strlit("deserialize_with");
    reveal_strlit("key");
    reveal_strlit("crate_path");
    reveal_strlit("rename_all");
    reveal_strlit("rename_all_fields");
    reveal_strlit("tag");
    reveal_strlit("serialize");
    reveal_strlit("deserialize");
    assert("rename"@.len() == 6);
    assert("default"@.len() == 7);
    assert("flatten"@.len() == 7);
    assert("skip"@.len() == 4);
    assert("skip_serializing"@.len() == 16);
    assert("skip_deserializing"@.len() == 18);
    assert("skip_serializing_if"@.len() == 19);
    assert("with"@.len() == 4);
    assert("deserialize_with"@.len() == 16);
    assert("key"@.len() == 3);
    assert("crate_path"@.len() == 10);
    assert("rename_all"@.len() == 10);
    assert("rename_all_fields"@.len() == 17);
    assert("tag"@.len() == 3);
    assert("serialize"@.len() == 9);
    assert("deserialize"@.len() == 11);
    assert("default"@[0] != "flatten"@[0]);
    assert("skip"@[0] != "with"@[0]);
    assert("skip_serializing"@[0] != "deserialize_with"@[0]);
    assert("key"@[0] != "tag"@[0]);
    assert("crate_path"@[0] != "rename_all"@[0]);
}

/// A flag of a field switches on what it names and nothing else: `skip` both directions,
/// `skip_serializing` the writing, `skip_deserializing` the reading, `flatten` and `key`
/// themselves.
pub proof fn law_flags_switch_on_what_they_name(
    cfg: attrs::FieldView,
    meta: Meta,
    last: bool,
    record: bool,
)
    requires
        meta.value is Bare,
    ensures
        ({
            let name = meta.name@;
            let r = attrs::with_field_meta(cfg, meta, last, record);
            &&& name == "flatten"@ ==> r == Ok::<attrs::FieldView, Seq<char>>(
                attrs::FieldView { flatten: true, ..cfg },
            )
            &&& name == "skip"@ ==> r == Ok::<attrs::FieldView, Seq<char>>(
                attrs::FieldView { skip_decode: true, skip_encode: true, ..cfg },
            )
            &&& name == "skip_serializing"@ ==> r == Ok::<attrs::FieldView, Seq<char>>(
                attrs::FieldView { skip_encode: true, ..cfg },
            )
            &&& name == "skip_deserializing"@ ==> r == Ok::<attrs::FieldView, Seq<char>>(
                attrs::FieldView { skip_decode: true, ..cfg },
            )
            &&& record && name == "key"@ ==> r == Ok::<attrs::FieldView, Seq<char>>(
                attrs::FieldView { key: true, ..cfg },
            )
            &&& name == "default"@ ==> r == Ok::<attrs::FieldView, Seq<char>>(
                attrs::FieldView { default: FallbackView::Default, ..cfg },
            )
        }),
{
    lemma_attribute_names();
}

/// A field attribute with a text sets what it names to that text and nothing else; one that
/// takes a path does so where the text is one.
pub proof fn law_field_texts_set_what_they_name(
    cfg: attrs::FieldView,
    meta: Meta,
    last: bool,
    record: bool,
)
    requires
        meta.value is Text,
    ensures
        ({
            let name = meta.name@;
            let text = meta.value->Text_0.text@;
            let path = meta.value->Text_0.problem is None;
            let r = attrs::with_field_meta(cfg, meta, last, record);
            &&& name == "rename"@ ==> r == Ok::<attrs::FieldView, Seq<char>>(
                attrs::FieldView {
                    names: attrs::Names { read: Some(text), written: Some(text) },
                    ..cfg
                },
            )
            &&& name == "default"@ && path ==> r == Ok::<attrs::FieldView, Seq<char>>(
                attrs::FieldView { default: FallbackView::Path(text), ..cfg },
            )
            &&& name == "skip_serializing_if"@ && path ==> r == Ok::<attrs::FieldView, Seq<char>>(
                attrs::FieldView { skip_if: Some(text), ..cfg },
            )
            &&& record && (name == "with"@ || name == "deserialize_with"@) && path ==> r == Ok::<
                attrs::FieldView,
                Seq<char>,
            >(attrs::FieldView { with: Some(text), ..cfg })
            &&& (name == "default"@ || name == "skip_serializing_if"@ || (record && (name
                == "with"@ || name == "deserialize_with"@))) && !path ==> r == Err::<
                attrs::FieldView,
                Seq<char>,
            >(meta.value->Text_0.problem->0@)
            &&& name == "flatten"@ || name == "skip"@ || name == "skip_serializing"@ || name
                == "skip_deserializing"@ || (record && name == "key"@) ==> r is Err
        }),
{
    lemma_attribute_names();
}

/// Of a rename in two parts, `deserialize` names what is read and `serialize` what is written.
pub proof fn law_rename_parts_name_their_side(names: attrs::Names, meta: Meta, last: bool)
    requires
        meta.value is Text,
    ensures
        ({
            let text = meta.value->Text_0.text@;
            let r = attrs::with_side(names, meta, last);
            &&& meta.name@ == "deserialize"@ ==> r == Ok::<attrs::Names, Seq<char>>(
                attrs::Names { read: Some(text), written: names.written },
            )
            &&& meta.name@ == "serialize"@ ==> r == Ok::<attrs::Names, Seq<char>>(
                attrs::Names { read: names.read, written: Some(text) },
            )
            &&& meta.name@ != "deserialize"@ && meta.name@ != "serialize"@ ==> r == Ok::<
                attrs::Names,
                Seq<char>,
            >(names)
        }),
{
    lemma_attribute_names();
}

/// What is written is named by the writing side where that is given, else as it is read.
pub proof fn law_writing_falls_back_to_the_reading_name(names: attrs::Names)
    ensures
        attrs::side(names, false) == names.read,
        names.written is Some ==> attrs::side(names, true) == names.written,
        names.written is None ==> attrs::side(names, true) == names.read,
{
}

/// A container attribute sets what it names and nothing else; `crate_path` belongs to the
/// record attributes, the naming rules and the tag to the others.
pub proof fn law_container_texts_set_what_they_name(
    cfg: attrs::ContainerView,
    meta: Meta,
    last: bool,
)
    requires
        meta.value is Text,
    ensures
        ({
            let name = meta.name@;
            let text = meta.value->Text_0.text@;
            let rule = naming::rule_named(text);
            let r = attrs::with_container_meta(cfg, meta, last, false);
            &&& name == "tag"@ ==> r == Ok::<attrs::ContainerView, Seq<char>>(
                attrs::ContainerView { tag: Some(text), ..cfg },
            )
            &&& name == "rename_all"@ && rule is Some ==> r == Ok::<
                attrs::ContainerView,
                Seq<char>,
            >(attrs::ContainerView { rename_all: rule, ..cfg })
            &&& name == "rename_all_fields"@ && rule is Some ==> r == Ok::<
                attrs::ContainerView,
                Seq<char>,
            >(attrs::ContainerView { rename_all_fields: rule, ..cfg })
            &&& (name == "rename_all"@ || name == "rename_all_fields"@) && rule is None ==> r is Err
            &&& name == "crate_path"@ ==> r == Ok::<attrs::ContainerView, Seq<char>>(cfg)
            &&& name == "crate_path"@ && meta.value->Text_0.problem is None
                ==> attrs::with_container_meta(cfg, meta, last, true) == Ok::<
                attrs::ContainerView,
                Seq<char>,
            >(attrs::ContainerView { crate_path: text, ..cfg })
            &&& name != "crate_path"@ ==> attrs::with_container_meta(cfg, meta, last, true) is Err
        }),
{
    lemma_attribute_names();
}

/// Without attributes nothing is renamed, skipped, converted, flattened or a key, every field
/// is required, and the library stands under its own name.
pub proof fn law_nothing_is_set_without_attributes()
    ensures
        attrs::plain_field().names.read is None && attrs::plain_field().names.written is None,
        attrs::plain_field().default is Required,
        attrs::plain_field().with is None && attrs::plain_field().skip_if is None,
        !attrs::plain_field().skip_decode && !attrs::plain_field().skip_encode,
        !attrs::plain_field().key && !attrs::plain_field().flatten,
        attrs::plain_container().crate_path == "::arcadedb_protocol"@,
        attrs::plain_container().rename_all is None,
        attrs::plain_container().rename_all_fields is None,
        attrs::plain_container().tag is None,
{
}

// ---------------------------------------------------------------------------
// Names
// ---------------------------------------------------------------------------

/// A column is named by its rename, else by the naming rule, else like the field.
pub proof fn law_a_rename_beats_the_rule(
    ident: Seq<char>,
    rename: Option<Seq<char>>,
    rule: Option<RenameRule>,
)
    ensures
        rename matches Some(name) ==> input::field_wire(ident, rename, rule) == name,
        rename is None && rule is None ==> input::field_wire(ident, rename, rule) == ident,
        rename is None ==> (rule matches Some(r) ==> input::field_wire(ident, rename, rule)
            == naming::field_name(r, ident)),
{
}

/// Every spelling of a rule stands for that rule, and no other text for any.
pub proof fn law_rules_go_by_their_own_spelling(s: Seq<char>)
    ensures
        naming::rule_named("lowercase"@) == Some(RenameRule::Lower),
        naming::rule_named("UPPERCASE"@) == Some(RenameRule::Upper),
        naming::rule_named("PascalCase"@) == Some(RenameRule::Pascal),
        naming::rule_named("camelCase"@) == Some(RenameRule::Camel),
        naming::rule_named("snake_case"@) == Some(RenameRule::Snake),
        naming::rule_named("SCREAMING_SNAKE_CASE"@) == Some(RenameRule::ScreamingSnake),
        naming::rule_named("kebab-case"@) == Some(RenameRule::Kebab),
        naming::rule_named("SCREAMING-KEBAB-CASE"@) == Some(RenameRule::ScreamingKebab),
        naming::rule_named(s) is Some ==> s == "lowercase"@ || s == "UPPERCASE"@ || s
            == "PascalCase"@ || s == "camelCase"@ || s == "snake_case"@ || s
            == "SCREAMING_SNAKE_CASE"@ || s == "kebab-case"@ || s == "SCREAMING-KEBAB-CASE"@,
{
    reveal_strlit("lowercase");
    reveal_strlit("UPPERCASE");
    reveal_strlit("PascalCase");
    reveal_strlit("camelCase");
    reveal_strlit("snake_case");
    reveal_strlit("SCREAMING_SNAKE_CASE");
    reveal_strlit("kebab-case");
    reveal_strlit("SCREAMING-KEBAB-CASE");
    assert("lowercase"@[0] == 'l' && "UPPERCASE"@[0] == 'U' && "camelCase"@[0] == 'c');
    assert("snake_case"@[0] == 's' && "PascalCase"@[0] == 'P' && "kebab-case"@[0] == 'k');
    assert("SCREAMING_SNAKE_CASE"@[9] == '_' && "SCREAMING-KEBAB-CASE"@[9] == '-');
    assert("SCREAMING_SNAKE_CASE"@[0] == 'S' && "SCREAMING-KEBAB-CASE"@[0] == 'S');
}

/// The naming rules, on a field in snake case: the capitals, the dashes and the joined words
/// that each is named after.
pub proof fn law_field_rules(field: Seq<char>, i: int)
    requires
        0 <= i < field.len(),
    ensures
        naming::field_name(RenameRule::Lower, field) == field,
        naming::field_name(RenameRule::Snake, field) == field,
        naming::field_name(RenameRule::Upper, field) == text::uppered(field),
        naming::field_name(RenameRule::ScreamingSnake, field) == text::uppered(field),
        naming::field_name(RenameRule::Kebab, field).len() == field.len(),
        naming::field_name(RenameRule::Kebab, field)[i] == if field[i] == '_' {
            '-'
        } else {
            field[i]
        },
        naming::field_name(RenameRule::ScreamingKebab, field).len() == field.len(),
        naming::field_name(RenameRule::ScreamingKebab, field)[i] == if field[i] == '_' {
            '-'
        } else {
            text::upper(field[i])
        },
{
}

/// Joined words lose their underscores and keep their letters, of which the first of each word
/// is a capital; with `camelCase` the very first is not.
pub proof fn law_joined_words_begin_with_capitals(field: Seq<char>, c: char)
    ensures
        naming::field_name(RenameRule::Pascal, Seq::empty()).len() == 0,
        naming::field_name(RenameRule::Pascal, field.push('_')) == naming::field_name(
            RenameRule::Pascal,
            field,
        ),
        c != '_' && (field.len() == 0 || field.last() == '_') ==> naming::field_name(
            RenameRule::Pascal,
            field.push(c),
        ) == naming::field_name(RenameRule::Pascal, field).push(text::upper(c)),
        c != '_' && field.len() > 0 && field.last() != '_' ==> naming::field_name(
            RenameRule::Pascal,
            field.push(c),
        ) == naming::field_name(RenameRule::Pascal, field).push(c),
        ({
            let pascal = naming::field_name(RenameRule::Pascal, field);
            let camel = naming::field_name(RenameRule::Camel, field);
            &&& pascal.len() == 0 ==> camel.len() == 0
            &&& pascal.len() > 0 && (pascal[0] as u32) < 128 ==> camel == seq![text::lower(
                pascal[0],
            )] + pascal.skip(1)
        }),
{
    assert(field.push(c).drop_last() =~= field);
    assert(field.push('_').drop_last() =~= field);
    if field.len() > 0 {
        assert(field.push(c)[field.len() - 1] == field.last());
    }
}

/// The naming rules, on a variant in Pascal case.
pub proof fn law_variant_rules(variant: Seq<char>, c: char)
    ensures
        naming::variant_name(RenameRule::Pascal, variant) == variant,
        naming::variant_name(RenameRule::Lower, variant) == text::lowered(variant),
        naming::variant_name(RenameRule::Upper, variant) == text::uppered(variant),
        variant.len() > 0 && (variant[0] as u32) < 128 ==> naming::variant_name(
            RenameRule::Camel,
            variant,
        ) == seq![text::lower(variant[0])] + variant.skip(1),
        naming::variant_name(RenameRule::ScreamingSnake, variant) == text::uppered(
            naming::variant_name(RenameRule::Snake, variant),
        ),
        naming::variant_name(RenameRule::ScreamingKebab, variant) == text::uppered(
            naming::variant_name(RenameRule::Kebab, variant),
        ),
        text::is_upper(c) && variant.len() > 0 ==> naming::variant_name(
            RenameRule::Snake,
            variant.push(c),
        ) == naming::variant_name(RenameRule::Snake, variant).push('_').push(text::lower(c)),
        (c as u32) < 128 && (!text::is_upper(c) || variant.len() == 0) ==> naming::variant_name(
            RenameRule::Snake,
            variant.push(c),
        ) == naming::variant_name(RenameRule::Snake, variant).push(text::lower(c)),
{
    assert(variant.push(c).drop_last() =~= variant);
    let snake = naming::snaked(variant);
    let a = text::swapped(text::uppered(snake), '_', '-');
    let b = text::uppered(text::swapped(snake, '_', '-'));
    assert(a.len() == b.len());
    assert forall|i: int| 0 <= i < a.len() implies a[i] == b[i] by {
        lemma_upper_keeps_signs(snake[i]);
    }
    assert(a =~= b);
}

proof fn lemma_upper_keeps_signs(c: char)
    ensures
        (text::upper(c) == '_') == (c == '_'),
        text::upper('-') == '-',
{
}

// ---------------------------------------------------------------------------
// Reading
// ---------------------------------------------------------------------------

/// Whether a field may be absent is told by its type, and what stands in for it by its
/// default: an optional field without a default path is absent as itself.
pub proof fn law_optional_fields_may_be_absent(ty: TypeExpr, cfg: attrs::FieldView)
    ensures
        types::inner_of_option(ty) is None ==> decode::presence_of(ty, cfg) == PresenceView::Needed(
            cfg.default,
        ),
        types::inner_of_option(ty) is Some ==> decode::presence_of(ty, cfg)
            == match cfg.default {
            FallbackView::Path(p) => PresenceView::OptionalOr(p),
            FallbackView::Default => PresenceView::Optional,
            FallbackView::Required => PresenceView::Optional,
        },
{
}

/// How a field of a struct is read: not at all where it is skipped; as the rest where it is
/// flattened, which one field may be; as the record's own rid or type where it is named so;
/// through its converter where it has one; and as its column otherwise.
pub proof fn law_fields_are_read_as_their_attributes_say(
    ty: TypeExpr,
    cfg: attrs::FieldView,
    wire: Seq<char>,
    flattened: bool,
)
    ensures
        ({
            let r = decode::struct_read(ty, cfg, wire, flattened);
            let presence = decode::presence_of(ty, cfg);
            let optional = types::inner_of_option(ty) is Some;
            let stored = !cfg.skip_decode && !cfg.flatten && wire != "@rid"@ && wire != "@type"@;
            &&& cfg.skip_decode ==> r == Ok::<ReadView, Seq<char>>(ReadView::Skipped)
            &&& !cfg.skip_decode && cfg.flatten && !flattened && cfg.with is None ==> r == Ok::<
                ReadView,
                Seq<char>,
            >(ReadView::Rest(optional))
            &&& !cfg.skip_decode && cfg.flatten && (flattened || cfg.with is Some) ==> r is Err
            &&& !cfg.skip_decode && !cfg.flatten && cfg.with is None && !types::has_lifetime(
                decode::target(ty),
            ) ==> (wire == "@rid"@ ==> r == Ok::<ReadView, Seq<char>>(
                ReadView::Synthetic(Synth::Rid, presence),
            )) && (wire == "@type"@ ==> r == Ok::<ReadView, Seq<char>>(
                ReadView::Synthetic(Synth::Class, presence),
            ))
            &&& !cfg.skip_decode && !cfg.flatten && (wire == "@rid"@ || wire == "@type"@) && (
            cfg.with is Some || types::has_lifetime(decode::target(ty))) ==> r is Err
            &&& stored ==> (cfg.with matches Some(path) ==> r == Ok::<ReadView, Seq<char>>(
                ReadView::Converted(path, presence),
            ))
            &&& stored && cfg.with is None ==> r == Ok::<ReadView, Seq<char>>(
                if types::is_vec_u8(
                    match types::inner_of_option(ty) {
                        Some(inner) => inner,
                        None => ty,
                    },
                ) {
                    ReadView::Bytes(presence)
                } else {
                    ReadView::Value(presence)
                },
            )
        }),
{
    reveal_strlit("@rid");
    reveal_strlit("@type");
    assert("@rid"@[1] == 'r' && "@type"@[1] == 't');
}

/// A field of a variant is read as one of a struct is, but never as the rest.
pub proof fn law_variant_fields_are_read_by_name(ty: TypeExpr, cfg: attrs::FieldView)
    ensures
        cfg.flatten ==> decode::variant_read(ty, cfg) is Err,
        !cfg.flatten && cfg.skip_decode ==> decode::variant_read(ty, cfg) == Ok::<
            ReadView,
            Seq<char>,
        >(ReadView::Skipped),
        !cfg.flatten && !cfg.skip_decode ==> decode::variant_read(ty, cfg) == Ok::<
            ReadView,
            Seq<char>,
        >(decode::named_read(ty, cfg)),
{
}

/// The call of the library's reader `f`, whose failure ends the decoding.
pub open spec fn reads(c: Seq<char>, f: Seq<char>, arguments: Seq<char>) -> Seq<char> {
    c + "::record::"@ + f + "("@ + arguments + ")?"@
}

/// A required field is read by the getter that fails where the column is missing; one with a
/// default by the getter that falls back to it; an optional one by the getter that gives none.
pub proof fn law_columns_are_read_by_their_getter(
    c: Seq<char>,
    ident: Seq<char>,
    wire: Seq<char>,
    own: Seq<char>,
    d: Seq<char>,
    p: PresenceView,
)
    ensures
        ({
            let args = "__arcade_props, __arcade_taken, "@ + literal::quoted(wire);
            let value = expand::read_code(
                c,
                FieldPlanView { ident, wire, read: ReadView::Value(p) },
                own,
            );
            let bytes = expand::read_code(
                c,
                FieldPlanView { ident, wire, read: ReadView::Bytes(p) },
                own,
            );
            &&& p == PresenceView::Needed(FallbackView::Required) ==> value == reads(
                c,
                "get"@,
                args,
            ) && bytes == reads(c, "get_bytes"@, args)
            &&& p == PresenceView::Needed(FallbackView::Default) ==> value == reads(
                c,
                "get_or"@,
                args + ", "@ + "::core::default::Default::default"@,
            ) && bytes == reads(
                c,
                "get_bytes_or"@,
                args + ", "@ + "::core::default::Default::default"@,
            )
            &&& p == PresenceView::Needed(FallbackView::Path(d)) ==> value == reads(
                c,
                "get_or"@,
                args + ", "@ + d,
            ) && bytes == reads(c, "get_bytes_or"@, args + ", "@ + d)
            &&& p == PresenceView::Optional ==> value == reads(c, "get_opt"@, args) && bytes
                == reads(c, "get_opt_bytes"@, args)
            &&& p == PresenceView::OptionalOr(d) ==> value == reads(
                c,
                "derived::get_opt_or"@,
                args + ", "@ + d,
            ) && bytes == reads(c, "derived::get_opt_bytes_or"@, args + ", "@ + d)
        }),
{
}

/// A converted field hands its converter to the getter; a field named after the record's own
/// rid or type is read from it where there is no such column.
pub proof fn law_converted_and_synthetic_fields_are_read_by_their_getter(
    c: Seq<char>,
    ident: Seq<char>,
    wire: Seq<char>,
    own: Seq<char>,
    d: Seq<char>,
    path: Seq<char>,
    s: Synth,
    p: PresenceView,
)
    ensures
        ({
            let key = literal::quoted(wire);
            let args = "__arcade_props, __arcade_taken, "@ + key + ", "@ + path;
            let converted = expand::read_code(
                c,
                FieldPlanView { ident, wire, read: ReadView::Converted(path, p) },
                own,
            );
            let source = if s == Synth::Rid {
                "__arcade_syn_rid"@
            } else {
                "__arcade_syn_type"@
            };
            let synth = "__arcade_props, "@ + key + ", "@ + source;
            let own_value = expand::read_code(
                c,
                FieldPlanView { ident, wire, read: ReadView::Synthetic(s, p) },
                own,
            );
            &&& p == PresenceView::Needed(FallbackView::Required) ==> converted == reads(
                c,
                "get_with"@,
                args,
            ) && own_value == reads(c, "derived::get_synth"@, synth)
            &&& p == PresenceView::Needed(FallbackView::Path(d)) ==> converted == reads(
                c,
                "get_with_or"@,
                args + ", "@ + d,
            ) && own_value == reads(c, "derived::get_synth_or"@, synth + ", "@ + d)
            &&& p == PresenceView::Needed(FallbackView::Default) ==> converted == reads(
                c,
                "get_with_or"@,
                args + ", "@ + "::core::default::Default::default"@,
            ) && own_value == reads(
                c,
                "derived::get_synth_or"@,
                synth + ", "@ + "::core::default::Default::default"@,
            )
            &&& p == PresenceView::Optional ==> converted == reads(c, "get_opt_with"@, args)
                && own_value == reads(c, "derived::get_synth_opt"@, synth)
            &&& p == PresenceView::OptionalOr(d) ==> converted == reads(
                c,
                "derived::get_opt_with_or"@,
                args + ", "@ + d,
            ) && own_value == reads(c, "derived::get_synth_opt_or"@, synth + ", "@ + d)
        }),
{
}

/// A skipped field is its default; a flattened one decodes what the struct's own columns
/// leave, and an optional one only where they leave anything.
pub proof fn law_the_rest_is_what_the_columns_leave(
    c: Seq<char>,
    ident: Seq<char>,
    wire: Seq<char>,
    own: Seq<char>,
)
    ensures
        expand::read_code(c, FieldPlanView { ident, wire, read: ReadView::Skipped }, own)
            == "::core::default::Default::default()"@,
        expand::read_code(c, FieldPlanView { ident, wire, read: ReadView::Rest(false) }, own)
            == "{ let __arcade_t = "@ + c
            + "::record::derived::child_taken(__arcade_taken, &["@ + own + "]); "@ + c
            + "::record::derived::decode_rest(__arcade_props, &__arcade_t, "@ + literal::quoted(
            ident,
        ) + ")? }"@,
        expand::read_code(c, FieldPlanView { ident, wire, read: ReadView::Rest(true) }, own)
            == "{ let __arcade_t = "@ + c
            + "::record::derived::child_taken(__arcade_taken, &["@ + own + "]); if "@ + c
            + "::record::derived::any_visible(__arcade_props, &__arcade_t) { ::core::option::Option::Some("@
            + c + "::record::derived::decode_rest(__arcade_props, &__arcade_t, "@
            + literal::quoted(ident) + ")?) } else { ::core::option::Option::None } }"@,
{
}

/// The statements that read the fields stand in the order of the fields; those that take the
/// rest are told from the others and lose none.
pub proof fn law_fields_are_read_in_order(
    c: Seq<char>,
    fields: Seq<FieldPlanView>,
    f: FieldPlanView,
    own: Seq<char>,
    rest: bool,
)
    ensures
        expand::lets_code(c, Seq::empty(), own, rest).len() == 0,
        expand::idents_code(Seq::empty()).len() == 0,
        (f.read is Rest) == rest ==> expand::lets_code(c, fields.push(f), own, rest)
            == expand::lets_code(c, fields, own, rest) + ("let "@ + f.ident + " = "@
            + expand::read_code(c, f, own) + ";\n"@),
        (f.read is Rest) != rest ==> expand::lets_code(c, fields.push(f), own, rest)
            == expand::lets_code(c, fields, own, rest),
        expand::idents_code(fields.push(f)) == expand::idents_code(fields) + f.ident + ", "@ + ""@,
{
    assert(fields.push(f).drop_last() =~= fields);
}

/// What a struct's derive emits: the names of its columns, their types and a select list; its
/// reading from a map, with what stands in for the rid and the type in that order; its reading
/// from an embedded value, where nothing stands in; and its reading from a record, where the
/// record's rid and type do.
pub proof fn law_the_decoder_of_a_struct(
    name: Seq<char>,
    c: Seq<char>,
    s: decode::StructView,
    lifetime: Option<Seq<char>>,
)
    ensures
        ({
            let d = decode::DecodeDeriveView {
                crate_path: c,
                lifetime,
                plan: decode::DecodeView::Struct(s),
            };
            let clause = match lifetime {
                Some(l) => "<'"@ + l + ">"@,
                None => "<'de>"@,
            };
            let inherent = match lifetime {
                Some(l) => "<'"@ + l + ">"@,
                None => ""@,
            };
            let self_ty = match lifetime {
                Some(l) => name + ("<'"@ + l + ">"@),
                None => name,
            };
            let lt = match lifetime {
                Some(l) => "'"@ + l,
                None => "'de"@,
            };
            let own = literal::list(s.wires);
            let columns = "impl"@ + inherent + " "@ + self_ty
                + " {\npub const WIRES: &'static [&'static str] = &["@ + own
                + "];\npub const WIRE_KINDS: &'static [(&'static str, &'static str)] = &["@
                + literal::pairs(s.wire_kinds)
                + "];\npub fn select_list() -> &'static str { "@ + literal::quoted(
                text::joined(s.wires, ", "@),
            ) + " }\n}\n"@;
            let body = expand::lets_code(c, s.fields, own, false) + expand::lets_code(
                c,
                s.fields,
                own,
                true,
            ) + "::core::result::Result::Ok("@ + "Self"@ + " { "@ + expand::idents_code(s.fields)
                + "})\n"@;
            let from_map = "impl"@ + clause + " "@ + c + "::record::DecodeFromMap<"@ + lt
                + "> for "@ + self_ty + " {\nfn from_map(__arcade_props: &"@ + lt + " "@ + c
                + "::PropMap<"@ + c
                + "::GrpcValue>, __arcade_taken: &[&str], __arcade_syn_rid: ::core::option::Option<&"@
                + lt + " ::std::string::String>, __arcade_syn_type: ::core::option::Option<&"@ + lt
                + " ::std::string::String>) -> ::core::result::Result<Self, "@ + c
                + "::record::RecordDecodeError> {\n"@ + body + "}\n}\n"@;
            let via = "<Self as "@ + c + "::record::DecodeFromMap<"@ + lt + ">>::from_map("@ + c
                + "::record::derived::record_fields(__arcade_v, "@ + "\"embedded record\""@
                + ")?, &[], ::core::option::Option::None, ::core::option::Option::None)\n"@;
            let from_value = "impl"@ + clause + " "@ + c + "::record::FromGrpcValue<"@ + lt
                + "> for "@ + self_ty + " {\nfn from_grpc_value(__arcade_v: &"@ + lt + " "@ + c
                + "::GrpcValue) -> ::core::result::Result<Self, "@ + c
                + "::record::RecordDecodeError> {\n"@ + via + "}\n}\n"@;
            let from_record = "impl"@ + clause + " ::core::convert::TryFrom<&"@ + lt + " "@ + c
                + "::GrpcRecord> for "@ + self_ty + " {\ntype Error = "@ + c
                + "::record::RecordDecodeError;\nfn try_from(rec: &"@ + lt + " "@ + c
                + "::GrpcRecord) -> ::core::result::Result<Self, Self::Error> {\n<Self as "@ + c
                + "::record::DecodeFromMap<"@ + lt + ">>::from_map(&rec.properties, &[], "@ + c
                + "::record::derived::rid_of(rec), "@ + c
                + "::record::derived::class_of(rec))\n}\n}\n"@;
            let from_owned = "impl ::core::convert::TryFrom<"@ + c + "::GrpcRecord> for "@ + self_ty
                + " {\ntype Error = "@ + c + "::record::RecordDecodeError;\nfn try_from(rec: "@ + c
                + "::GrpcRecord) -> ::core::result::Result<Self, Self::Error> { Self::try_from(&rec) }\n}\n"@;
            expand::decode_code(name, d) == columns + from_map + from_value + from_record + if lifetime is None {
                from_owned
            } else {
                ""@
            }
        }),
{
}

/// What the derive of an enum emits: a choice by the text of the value, or by the tag among
/// the fields; a unit variant for its wire name, a variant with fields for its; and an error
/// for any other name.
pub proof fn law_the_decoder_of_an_enum(
    c: Seq<char>,
    tag: Seq<char>,
    variants: Seq<decode::VariantPlanView>,
    v: decode::VariantPlanView,
)
    ensures
        expand::arms_code(c, Seq::empty()).len() == 0,
        expand::arms_code(c, variants.push(v)) == expand::arms_code(c, variants) + match v.fields {
            None => literal::quoted(v.wire) + " => ::core::result::Result::Ok(Self::"@ + v.ident
                + "),\n"@,
            Some(fields) => literal::quoted(v.wire) + " => {\n"@ + (expand::lets_code(
                c,
                fields,
                Seq::empty(),
                false,
            ) + expand::lets_code(c, fields, Seq::empty(), true)
                + "::core::result::Result::Ok("@ + ("Self::"@ + v.ident) + " { "@
                + expand::idents_code(fields) + "})\n"@) + "}\n"@,
        },
        expand::choose_variant_code(c, expand::value_tag_code(c), expand::arms_code(c, variants))
            == "match "@ + (c + "::record::derived::variant_text(__arcade_v)?"@) + " {\n"@
            + expand::arms_code(c, variants) + "__other => ::core::result::Result::Err("@ + c
            + "::record::RecordDecodeError::unknown_variant(__other)),\n}\n"@,
        expand::map_tag_code(c, literal::quoted(tag)) == c
            + "::record::derived::variant_tag(__arcade_props, "@ + literal::quoted(tag)
            + ", __arcade_taken)?"@,
{
    assert(variants.push(v).drop_last() =~= variants);
}

// ---------------------------------------------------------------------------
// Writing
// ---------------------------------------------------------------------------

/// When a field is written: always, but an optional one only where it is there, and one with a
/// predicate only where that does not hold.
pub proof fn law_fields_are_written_when_they_are_there(optional: bool, cfg: attrs::FieldView)
    ensures
        cfg.skip_if is None ==> encode::field_when(optional, cfg) == if optional {
            WhenView::IfSome
        } else {
            WhenView::Always
        },
        cfg.skip_if matches Some(pred) ==> encode::field_when(optional, cfg) == if optional {
            WhenView::IfSomeUnless(pred)
        } else {
            WhenView::Unless(pred)
        },
{
}

/// How a field of a struct is written, borrowed and moved: not at all where it is skipped, its
/// own columns in place of it where it is flattened, through its converter where it has one,
/// and by the writer of its type otherwise, from the field or from what its option holds.
pub proof fn law_fields_are_written_as_their_attributes_say(
    ident: Seq<char>,
    ty: TypeExpr,
    cfg: attrs::FieldView,
    c: Seq<char>,
)
    ensures
        ({
            let w = encode::struct_write(ident, ty, cfg, c);
            let m = encode::struct_move(ident, ty, cfg, c);
            let inner = types::inner_of_option(ty);
            let when = encode::field_when(inner is Some, cfg);
            let plain = !cfg.skip_encode && !cfg.flatten;
            &&& cfg.skip_encode ==> w == Ok::<WriteView, Seq<char>>(WriteView::Skipped) && m == w
            &&& !cfg.skip_encode && cfg.flatten && cfg.with is None ==> w == Ok::<
                WriteView,
                Seq<char>,
            >(WriteView::Spliced(inner is Some, cfg.skip_if)) && m == w
            &&& !cfg.skip_encode && cfg.flatten && cfg.with is Some ==> w is Err && m == w
            &&& plain ==> (cfg.with matches Some(path) ==> w == Ok::<WriteView, Seq<char>>(
                WriteView::Written(SourceView::Converted(path), when),
            ) && m == w)
            &&& plain && cfg.with is None ==> {
                let borrowed = match inner {
                    Some(t) => code::field_code(t, "__arcade_f"@, c),
                    None => code::field_code(ty, "&self."@ + ident, c),
                };
                let moved = match inner {
                    Some(t) => code::moved_code(t, "__arcade_f"@, c),
                    None => code::moved_code(ty, "self."@ + ident, c),
                };
                &&& match borrowed {
                    Ok(s) => w == Ok::<WriteView, Seq<char>>(
                        WriteView::Written(SourceView::Code(s), when),
                    ),
                    Err(e) => w == Err::<WriteView, Seq<char>>(e),
                }
                &&& match moved {
                    Ok(s) => m == Ok::<WriteView, Seq<char>>(
                        WriteView::Written(SourceView::Code(s), when),
                    ),
                    Err(e) => m == Err::<WriteView, Seq<char>>(e),
                }
            }
        }),
{
}

/// A field of a variant is written as one of a struct is, from its binding, but can be
/// neither flattened nor a key.
pub proof fn law_variant_fields_are_written_from_their_binding(
    ident: Seq<char>,
    ty: TypeExpr,
    cfg: attrs::FieldView,
    c: Seq<char>,
)
    ensures
        ({
            let w = encode::variant_write(ident, ty, cfg, c);
            let inner = types::inner_of_option(ty);
            let when = encode::field_when(inner is Some, cfg);
            let plain = !cfg.flatten && !cfg.key && !cfg.skip_encode;
            &&& cfg.flatten || cfg.key ==> w is Err
            &&& !cfg.flatten && !cfg.key && cfg.skip_encode ==> w == Ok::<WriteView, Seq<char>>(
                WriteView::Skipped,
            )
            &&& plain ==> (cfg.with matches Some(path) ==> w == Ok::<WriteView, Seq<char>>(
                WriteView::Written(SourceView::Converted(path), when),
            ))
            &&& plain && cfg.with is None ==> match (match inner {
                Some(t) => code::field_code(t, "__arcade_f"@, c),
                None => code::field_code(ty, ident, c),
            }) {
                Ok(s) => w == Ok::<WriteView, Seq<char>>(
                    WriteView::Written(SourceView::Code(s), when),
                ),
                Err(e) => w == Err::<WriteView, Seq<char>>(e),
            }
        }),
{
}

/// The text that writes one column: the pair of its quoted name and its value, inside a test
/// for an optional field and inside the negated predicate where there is one.
pub proof fn law_columns_are_pushed_under_their_name(
    c: Seq<char>,
    f: EncodeFieldView,
    s: Seq<char>,
    path: Seq<char>,
    pred: Seq<char>,
)
    ensures
        ({
            let key = literal::quoted(f.wire);
            let push = "__out"@ + ".push(("@ + key + ", "@ + s + "));\n"@;
            let mine = "&self."@ + f.ident;
            let code = SourceView::Code(s);
            let converter = SourceView::Converted(path);
            let call = "__out"@ + ".push(("@ + key + ", "@ + (path + "("@ + mine + ")"@)
                + "));\n"@;
            let call_some = "__out"@ + ".push(("@ + key + ", "@ + (path + "("@ + "__arcade_f"@
                + ")"@) + "));\n"@;
            let some = |inner: Seq<char>, subject: Seq<char>|
                "if let ::core::option::Option::Some(__arcade_f) = "@ + subject + " {\n"@ + inner
                    + "}\n"@;
            let unless = |inner: Seq<char>|
                "if !"@ + pred + "("@ + mine + ") {\n"@ + inner + "}\n"@;
            &&& f.write == WriteView::Skipped ==> expand_encode::push_code(c, f) == ""@
            &&& f.write == WriteView::Written(code, WhenView::Always) ==> expand_encode::push_code(
                c,
                f,
            ) == push
            &&& f.write == WriteView::Written(code, WhenView::IfSome) ==> expand_encode::push_code(
                c,
                f,
            ) == some(push, mine)
            &&& f.write == WriteView::Written(code, WhenView::Unless(pred))
                ==> expand_encode::push_code(c, f) == unless(push)
            &&& f.write == WriteView::Written(code, WhenView::IfSomeUnless(pred))
                ==> expand_encode::push_code(c, f) == unless(some(push, mine))
            &&& f.write == WriteView::Written(converter, WhenView::Always)
                ==> expand_encode::push_code(c, f) == call
            &&& f.write == WriteView::Written(converter, WhenView::IfSome)
                ==> expand_encode::push_code(c, f) == some(call_some, mine)
            &&& f.write == WriteView::Spliced(false, None) ==> expand_encode::push_code(c, f)
                == "__out"@ + ".extend("@ + c + "::record::ToGrpcRecord::props("@ + mine
                + "));\n"@
            &&& f.write == WriteView::Spliced(true, None) ==> expand_encode::push_code(c, f)
                == some(
                "__out"@ + ".extend("@ + c + "::record::ToGrpcRecord::props("@ + "__arcade_f"@
                    + "));\n"@,
                mine,
            )
            &&& f.moved == WriteView::Written(code, WhenView::Always) ==> expand_encode::move_code(
                c,
                f,
            ) == push
            &&& f.moved == WriteView::Written(code, WhenView::IfSome) ==> expand_encode::move_code(
                c,
                f,
            ) == some(push, "self."@ + f.ident)
            &&& f.moved == WriteView::Written(code, WhenView::Unless(pred))
                ==> expand_encode::move_code(c, f) == unless(push)
            &&& f.moved == WriteView::Written(code, WhenView::IfSomeUnless(pred))
                ==> expand_encode::move_code(c, f) == unless(some(push, "self."@ + f.ident))
        }),
{
}

/// What a diff compares: not a skipped field; a flattened one column by column; a converted
/// one by what the converter gives; and any other by its value.
pub proof fn law_diffs_compare_what_is_written(ty: TypeExpr, cfg: attrs::FieldView)
    ensures
        ({
            let d = encode::struct_diff(ty, cfg);
            let optional = types::inner_of_option(ty) is Some;
            &&& cfg.skip_encode ==> d == DiffView::Skipped
            &&& !cfg.skip_encode && cfg.flatten ==> d == DiffView::Nested(optional, cfg.skip_if)
            &&& !cfg.skip_encode && !cfg.flatten ==> d == DiffView::Compared(
                cfg.with,
                optional,
                cfg.skip_if,
            )
        }),
{
}

/// The text that compares one column: the old row's field with the new row's, or what the
/// converter gives of them; an optional one only where the new row has it; and with a
/// predicate only where that does not hold of the new row. A difference is noted under the
/// column's name.
pub proof fn law_differences_are_noted_under_their_name(
    c: Seq<char>,
    f: EncodeFieldView,
    path: Seq<char>,
    pred: Seq<char>,
)
    ensures
        ({
            let note = |cond: Seq<char>|
                "if "@ + cond + " {\n__arcade_changed.push("@ + literal::quoted(f.wire)
                    + ".to_string());\n}\n"@;
            let mine = "self."@ + f.ident;
            let theirs = "other."@ + f.ident;
            let differ = mine + " != "@ + theirs;
            let mapped = (mine + ".as_ref().map(|__arcade_f| "@ + path + "(__arcade_f))"@)
                + " != "@ + (theirs + ".as_ref().map(|__arcade_f| "@ + path + "(__arcade_f))"@);
            &&& f.diff == DiffView::Skipped ==> expand_encode::diff_code(c, f) == ""@
            &&& f.diff == DiffView::Compared(None, false, None) ==> expand_encode::diff_code(c, f)
                == note(differ)
            &&& f.diff == DiffView::Compared(None, true, None) ==> expand_encode::diff_code(c, f)
                == note(theirs + ".is_some() && "@ + differ)
            &&& f.diff == DiffView::Compared(Some(path), false, None) ==> expand_encode::diff_code(
                c,
                f,
            ) == note(
                (path + "("@ + ("&self."@ + f.ident) + ")"@) + " != "@ + (path + "("@ + ("&other."@
                    + f.ident) + ")"@),
            )
            &&& f.diff == DiffView::Compared(Some(path), true, None) ==> expand_encode::diff_code(
                c,
                f,
            ) == note(theirs + ".is_some() && "@ + mapped)
            &&& f.diff == DiffView::Compared(None, false, Some(pred)) ==> expand_encode::diff_code(
                c,
                f,
            ) == note("!"@ + pred + "("@ + ("&other."@ + f.ident) + ") && ("@ + differ + ")"@)
            &&& f.diff == DiffView::Nested(false, None) ==> expand_encode::diff_code(c, f)
                == "__arcade_changed.extend("@ + c
                + "::record::ToGrpcRecord::changed_wires(&self."@ + f.ident + ", &other."@
                + f.ident + "));\n"@
            &&& f.diff == DiffView::Nested(true, None) ==> expand_encode::diff_code(c, f)
                == "if let ::core::option::Option::Some(__arcade_n) = &other."@ + f.ident
                + " {\nmatch &self."@ + f.ident
                + " {\n::core::option::Option::Some(__arcade_o) => __arcade_changed.extend("@ + c
                + "::record::ToGrpcRecord::changed_wires(__arcade_o, __arcade_n)),\n::core::option::Option::None => __arcade_changed.extend("@
                + c
                + "::record::ToGrpcRecord::props(__arcade_n).into_iter().map(|(__arcade_k, _)| __arcade_k.to_string())),\n}\n}\n"@
        }),
{
}

/// The columns are written, moved and compared in the order of the fields, none left out.
pub proof fn law_fields_are_written_in_order(
    c: Seq<char>,
    fields: Seq<EncodeFieldView>,
    f: EncodeFieldView,
    bound: Seq<VariantFieldView>,
    v: VariantFieldView,
)
    ensures
        expand_encode::pushes_code(c, Seq::empty()).len() == 0,
        expand_encode::pushes_code(c, fields.push(f)) == expand_encode::pushes_code(c, fields)
            + expand_encode::push_code(c, f),
        expand_encode::moves_code(c, Seq::empty()).len() == 0,
        expand_encode::moves_code(c, fields.push(f)) == expand_encode::moves_code(c, fields)
            + expand_encode::move_code(c, f),
        expand_encode::diffs_code(c, Seq::empty()).len() == 0,
        expand_encode::diffs_code(c, fields.push(f)) == expand_encode::diffs_code(c, fields)
            + expand_encode::diff_code(c, f),
        expand_encode::pairs_code(c, Seq::empty()).len() == 0,
        expand_encode::pairs_code(c, bound.push(v)) == expand_encode::pairs_code(c, bound)
            + expand_encode::variant_pair_code(c, v),
        expand_encode::bound_code(Seq::empty()).len() == 0,
        expand_encode::bound_code(bound.push(v)) == expand_encode::bound_code(bound) + v.ident
            + ", "@,
{
    assert(fields.push(f).drop_last() =~= fields);
    assert(bound.push(v).drop_last() =~= bound);
}

/// What a struct's derive emits: its key columns; the columns written from the borrowed row;
/// the names of those that changed; and the record made of the consumed row, under the type
/// that it is given.
pub proof fn law_the_encoder_of_a_struct(
    name: Seq<char>,
    c: Seq<char>,
    s: encode::EncodeStructView,
    lifetime: Option<Seq<char>>,
)
    ensures
        ({
            let e = encode::EncodeDeriveView {
                crate_path: c,
                lifetime,
                plan: encode::EncodeView::Struct(s),
            };
            let clause = match lifetime {
                Some(l) => "<'"@ + l + ">"@,
                None => ""@,
            };
            expand_encode::encode_code(name, e) == "impl"@ + clause + " "@ + c
                + "::record::ToGrpcRecord for "@ + (name + clause)
                + " {\nconst KEY_COLUMNS: &'static [&'static str] = &["@ + literal::list(
                s.key_columns,
            ) + "];\nfn props(&self) -> ::std::vec::Vec<(&str, "@ + c
                + "::GrpcValue)> {\nlet mut __out: ::std::vec::Vec<(&str, "@ + c
                + "::GrpcValue)> = ::std::vec::Vec::new();\n"@ + expand_encode::pushes_code(
                c,
                s.fields,
            )
                + "__out\n}\nfn changed_wires(&self, other: &Self) -> ::std::vec::Vec<::std::string::String> {\nlet mut __arcade_changed: ::std::vec::Vec<::std::string::String> = ::std::vec::Vec::new();\n"@
                + expand_encode::diffs_code(c, s.fields)
                + "__arcade_changed\n}\nfn into_grpc_record(self, class: &str) -> "@ + c
                + "::GrpcRecord {\nlet mut __out: ::std::vec::Vec<(&str, "@ + c
                + "::GrpcValue)> = ::std::vec::Vec::new();\n"@ + expand_encode::moves_code(
                c,
                s.fields,
            ) + c + "::rec(class, __out)\n}\n}\n"@
        }),
{
}

/// What the arms of an enum's encoder say: a unit variant has no columns and is its wire name
/// as a text; a variant with fields has the tag with its wire name first, and then its
/// columns, and is a map of them.
pub proof fn law_the_encoder_of_an_enum(
    c: Seq<char>,
    tag: Seq<char>,
    v: encode::EncodeVariantView,
)
    ensures
        v.fields is None ==> expand_encode::named_code(c, Some(tag), v) == "Self::"@ + v.ident
            + " => ::std::vec::Vec::new(),\n"@,
        v.fields is None ==> expand_encode::valued_code(c, v) == "Self::"@ + v.ident + " => "@ + c
            + "::encode::str_v("@ + literal::quoted(v.wire) + "),\n"@,
        v.fields matches Some(fields) ==> expand_encode::named_code(c, Some(tag), v) == "Self::"@
            + v.ident + " { "@ + expand_encode::bound_code(fields)
            + "} => {\nlet mut __arcade_pairs: ::std::vec::Vec<(&str, "@ + c
            + "::GrpcValue)> = ::std::vec::Vec::new();\n__arcade_pairs.push(("@ + literal::quoted(
            tag,
        ) + ", "@ + c + "::encode::str_v("@ + literal::quoted(v.wire) + ")));\n"@
            + expand_encode::pairs_code(c, fields) + "__arcade_pairs\n}\n"@,
        v.fields is Some ==> expand_encode::valued_code(c, v) == "Self::"@ + v.ident
            + " { .. } => "@ + c + "::encode::map_v("@ + c
            + "::record::ToGrpcRecord::props(self).into_iter().map(|(__arcade_k, __arcade_v)| (__arcade_k.to_string(), __arcade_v)).collect()),\n"@,
{
}

// ---------------------------------------------------------------------------
// Borrowed and owned texts and bytes
// ---------------------------------------------------------------------------

/// A borrowed-or-owned text is written as a text and such bytes as a blob, cloned from a
/// reference and handed over when the row is consumed; any other such type is refused. A byte
/// vector is handed over as a blob, and a vector of texts text by text.
pub proof fn law_texts_and_bytes_are_handed_over(
    p: TypePath,
    inner: TypeExpr,
    expr: Seq<char>,
    c: Seq<char>,
)
    ensures
        ({
            let ty = TypeExpr::Path(p);
            let name = p.last.ident@;
            let last = types::last_type(p.last);
            let written = code::field_code(ty, expr, c);
            let moved = code::moved_code(ty, expr, c);
            &&& name == "Cow"@ && last == Some(inner) && types::is_ident(inner, "str"@) ==> written
                == writes(c, "str_v"@, "("@ + expr + ").to_string()"@) && moved == writes(
                c,
                "str_v"@,
                "("@ + expr + ").into_owned()"@,
            )
            &&& name == "Cow"@ && last == Some(inner) && types::is_u8_slice(inner) ==> written
                == writes(c, "bytes_v"@, "("@ + expr + ").clone()"@) && moved == writes(
                c,
                "bytes_v"@,
                "("@ + expr + ").into_owned()"@,
            )
            &&& name == "Cow"@ && last == Some(inner) && !types::is_ident(inner, "str"@)
                && !types::is_u8_slice(inner) ==> written is Err && moved is Err
            &&& name == "Cow"@ && last is None ==> written is Err
            &&& types::is_vec_u8(ty) ==> moved == writes(c, "bytes_v"@, expr)
            &&& name == "Vec"@ && last == Some(inner) && types::is_ident(inner, "String"@) ==> moved
                == writes(
                c,
                "list_v"@,
                "("@ + expr + ").into_iter().map(|__arcade_e| "@ + (c + "::encode::"@ + "str_v"@
                    + "("@ + "__arcade_e"@ + ")"@) + ").collect()"@,
            )
        }),
{
    lemma_type_names();
}

/// Which types are names, byte slices and byte vectors.
pub proof fn law_types_are_recognised(ty: TypeExpr, name: Seq<char>)
    ensures
        types::is_ident(ty, name) <==> (ty matches TypeExpr::Path(p) && !p.leading_colon
            && p.init@.len() == 0 && p.last.args is Plain && p.last.ident@ == name),
        types::is_u8_slice(ty) <==> (ty matches TypeExpr::Slice(elem) && types::is_ident(
            *elem,
            "u8"@,
        )),
        types::is_vec_u8(ty) <==> (ty matches TypeExpr::Path(p) && p.last.ident@ == "Vec"@ && (
        types::last_type(p.last) matches Some(elem) && types::is_ident(elem, "u8"@))),
        types::inner_of_option(ty) is Some <==> (ty matches TypeExpr::Path(p) && p.last.ident@
            == "Option"@ && types::last_type(p.last) is Some),
        ty matches TypeExpr::Path(p) ==> (types::inner_of_option(ty) matches Some(inner)
            ==> types::last_type(p.last) == Some(inner)),
{
}

/// The last argument of a type is what it holds, where that is a type.
pub proof fn law_types_hold_their_last_argument(seg: types::PathSegment, t: TypeExpr)
    ensures
        types::last_type(seg) == Some(t) <==> (seg.args matches types::PathArgs::Angle(args)
            && args@.len() > 0 && args@.last() == types::GenericArg::Type(t)),
{
}

/// Of a variant's attributes only the rename counts.
pub proof fn law_variants_have_only_a_rename(names: attrs::Names, meta: Meta, last: bool)
    ensures
        meta.name@ != "rename"@ ==> attrs::with_variant_meta(names, meta, last) == Ok::<
            attrs::Names,
            Seq<char>,
        >(names),
        meta.name@ == "rename"@ ==> (meta.value matches MetaValue::Text(p)
            ==> attrs::with_variant_meta(names, meta, last) == Ok::<attrs::Names, Seq<char>>(
            attrs::Names { read: Some(p.text@), written: Some(p.text@) },
        )),
{
}

} // verus!
