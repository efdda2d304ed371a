//! What the record derives decide: type classification, wire names, attributes and plans.

use arcadedb_protocol::derive::attrs::{
    read_path, read_text, AttrSpace, Attribute, ContainerCfg, Fallback, FieldCfg, Meta, MetaValue,
    PathText,
};
use arcadedb_protocol::derive::code::{encode_field_value, encode_field_value_move};
use arcadedb_protocol::derive::decode::{
    plan_decode, DecodePlan, Presence, ReadPlan, StructPlan, Synth,
};
use arcadedb_protocol::derive::encode::{
    plan_encode, DiffPlan, EncodePlan, EncodeStruct, ValueSource, When, WritePlan,
};
use arcadedb_protocol::derive::expand::expand_derive;
use arcadedb_protocol::derive::expand_encode::expand_encode_derive;
use arcadedb_protocol::derive::input::{
    DeriveError, Field, Fields, Param, Place, RowType, Shape, Variant,
};
use arcadedb_protocol::derive::literal::quote;
use arcadedb_protocol::derive::naming::{lower_first, RenameRule};
use arcadedb_protocol::derive::types::{
    classify, db_type_of, elem_classification, option_inner, render, type_has_lifetime, vec_u8,
    Classification, DbType, GenericArg, PathArgs, PathSegment, TypeExpr, TypePath, TypeRef,
};

// -- building inputs ---------------------------------------------------------

fn segment(s: &syn::PathSegment) -> PathSegment {
    let args = match &s.arguments {
        syn::PathArguments::None => PathArgs::Plain,
        syn::PathArguments::AngleBracketed(a) => PathArgs::Angle(
            a.args
                .iter()
                .map(|arg| match arg {
                    syn::GenericArgument::Lifetime(_) => GenericArg::Lifetime,
                    syn::GenericArgument::Type(t) => GenericArg::Type(expr(t)),
                    _ => GenericArg::Other,
                })
                .collect(),
        ),
        syn::PathArguments::Parenthesized(_) => PathArgs::Paren,
    };
    PathSegment { ident: s.ident.to_string(), args }
}

fn expr(t: &syn::Type) -> TypeExpr {
    match t {
        syn::Type::Path(p) => {
            let mut segments: Vec<PathSegment> = p.path.segments.iter().map(segment).collect();
            let last = segments.pop().unwrap();
            TypeExpr::Path(TypePath {
                leading_colon: p.path.leading_colon.is_some(),
                init: segments,
                last,
            })
        }
        syn::Type::Reference(r) => TypeExpr::Reference(TypeRef {
            lifetime: r.lifetime.is_some(),
            elem: Box::new(expr(&r.elem)),
        }),
        syn::Type::Slice(s) => TypeExpr::Slice(Box::new(expr(&s.elem))),
        syn::Type::Tuple(t) => TypeExpr::Tuple(t.elems.iter().map(expr).collect()),
        syn::Type::Paren(p) => TypeExpr::Paren(Box::new(expr(&p.elem))),
        syn::Type::Group(g) => TypeExpr::Group(Box::new(expr(&g.elem))),
        _ => TypeExpr::Other,
    }
}

fn ty(s: &str) -> TypeExpr {
    expr(&syn::parse_str::<syn::Type>(s).unwrap())
}

fn meta(name: &str, value: MetaValue) -> Meta {
    Meta { name: name.to_string(), value }
}

fn bare(name: &str) -> Meta {
    meta(name, MetaValue::Bare)
}

fn said(name: &str, value: &str) -> Meta {
    meta(name, MetaValue::Text(read_path(value.to_string())))
}

fn serde(metas: Vec<Meta>) -> Attribute {
    Attribute { space: AttrSpace::Serde, metas }
}

fn record(metas: Vec<Meta>) -> Attribute {
    Attribute { space: AttrSpace::Record, metas }
}

fn field(ident: &str, t: &str, attrs: Vec<Attribute>) -> Field {
    Field { ident: ident.to_string(), ty: ty(t), attrs }
}

fn variant(ident: &str, attrs: Vec<Attribute>, fields: Fields) -> Variant {
    Variant { ident: ident.to_string(), attrs, fields }
}

fn row(attrs: Vec<Attribute>, shape: Shape) -> RowType {
    RowType { ident: "Row".to_string(), params: Vec::new(), attrs, shape }
}

fn rows(fields: Vec<Field>) -> RowType {
    row(Vec::new(), Shape::Struct(Fields::Named(fields)))
}

fn metas(list: impl IntoIterator<Item = syn::Meta>) -> Vec<Meta> {
    list.into_iter()
        .map(|m| {
            let name = m.path().get_ident().map(|i| i.to_string()).unwrap_or_default();
            let value = match m {
                syn::Meta::Path(_) => MetaValue::Bare,
                syn::Meta::NameValue(nv) => match nv.value {
                    syn::Expr::Lit(syn::ExprLit { lit: syn::Lit::Str(s), .. }) => {
                        MetaValue::Text(read_path(s.value()))
                    }
                    _ => MetaValue::Expr,
                },
                syn::Meta::List(l) => MetaValue::Nested(metas(
                    l.parse_args_with(
                        syn::punctuated::Punctuated::<syn::Meta, syn::token::Comma>::parse_terminated,
                    )
                    .unwrap(),
                )),
            };
            Meta { name, value }
        })
        .collect()
}

fn attributes(attrs: &[syn::Attribute]) -> Vec<Attribute> {
    attrs
        .iter()
        .map(|a| {
            let space = if a.path().is_ident("serde") {
                AttrSpace::Serde
            } else if a.path().is_ident("record") {
                AttrSpace::Record
            } else {
                AttrSpace::Other
            };
            match metas([a.meta.clone()]).remove(0).value {
                MetaValue::Nested(metas) => Attribute { space, metas },
                _ => Attribute { space: AttrSpace::Other, metas: Vec::new() },
            }
        })
        .collect()
}

fn fields(f: &syn::Fields) -> Fields {
    let all = f
        .iter()
        .map(|f| Field {
            ident: f.ident.as_ref().map(|i| i.to_string()).unwrap_or_default(),
            ty: expr(&f.ty),
            attrs: attributes(&f.attrs),
        })
        .collect();
    match f {
        syn::Fields::Named(_) => Fields::Named(all),
        syn::Fields::Unnamed(_) => Fields::Unnamed(all),
        syn::Fields::Unit => Fields::Unit,
    }
}

/// A row type as it is declared.
fn declared(source: &str) -> RowType {
    let d: syn::DeriveInput = syn::parse_str(source).unwrap();
    RowType {
        ident: d.ident.to_string(),
        params: d
            .generics
            .params
            .iter()
            .map(|p| match p {
                syn::GenericParam::Lifetime(l) => Param::Lifetime(l.lifetime.ident.to_string()),
                _ => Param::Other,
            })
            .collect(),
        attrs: attributes(&d.attrs),
        shape: match &d.data {
            syn::Data::Struct(s) => Shape::Struct(fields(&s.fields)),
            syn::Data::Enum(e) => Shape::Enum(
                e.variants
                    .iter()
                    .map(|v| Variant {
                        ident: v.ident.to_string(),
                        attrs: attributes(&v.attrs),
                        fields: fields(&v.fields),
                    })
                    .collect(),
            ),
            syn::Data::Union(_) => Shape::Union,
        },
    }
}

fn decoded(r: &RowType) -> StructPlan {
    match plan_decode(r).unwrap().plan {
        DecodePlan::Struct(s) => s,
        other => panic!("{other:?}"),
    }
}

fn encoded(r: &RowType) -> EncodeStruct {
    match plan_encode(r).unwrap().plan {
        EncodePlan::Struct(s) => s,
        other => panic!("{other:?}"),
    }
}

// -- classification ----------------------------------------------------------

fn rendered(t: TypeExpr) -> Option<String> {
    match classify(&t).expect("type must classify") {
        Classification::Known(db) => render(&db),
        Classification::Foreign => None,
    }
}

/// Every supported type classifies, renders, and agrees with the schema-drift vocabulary.
#[test]
fn classification_matrix_is_complete() {
    let cases: Vec<(TypeExpr, Option<&str>)> = vec![
        (ty("String"), Some("STRING")),
        (ty("char"), Some("STRING")),
        (ty("bool"), Some("BOOLEAN")),
        (ty("i8"), Some("INTEGER")),
        (ty("u16"), Some("INTEGER")),
        (ty("i32"), Some("INTEGER")),
        (ty("i64"), Some("LONG")),
        (ty("u32"), Some("LONG")),
        (ty("f32"), Some("FLOAT")),
        (ty("f64"), Some("DOUBLE")),
        (ty("chrono::DateTime<chrono::Utc>"), Some("DATETIME")),
        (ty("chrono::NaiveDate"), Some("DATE")),
        (ty("rust_decimal::Decimal"), Some("DECIMAL")),
        (ty("arcadedb_protocol::Link"), Some("LINK")),
        (ty("Vec<i32>"), Some("LIST OF INTEGER")),
        (ty("std::collections::HashSet<String>"), Some("LIST OF STRING")),
        (ty("std::collections::BTreeSet<u8>"), Some("LIST OF INTEGER")),
        (ty("Vec<Vec<f64>>"), Some("LIST OF LIST OF DOUBLE")),
        (ty("std::collections::HashMap<String, i64>"), Some("MAP")),
        (ty("std::collections::BTreeMap<String, f64>"), Some("MAP")),
        // Excluded from drift, but still encodable.
        (ty("Vec<u8>"), None),
        // Foreign types render nothing (ToGrpcRecord fallback).
        (ty("SomeExternalStruct"), None),
        (ty("Option<i64>"), Some("LONG")),
        (ty("&[i32]"), Some("LIST OF INTEGER")),
    ];
    for (t, expected) in cases {
        assert_eq!(rendered(t), expected.map(str::to_string));
    }
}

/// Malformed known-family usages are hard errors, never silent fallbacks.
#[test]
fn malformed_cow_is_an_error() {
    let t: TypeExpr = ty("Cow<f64>");
    assert!(classify(&t).is_err());
}

#[test]
fn malformed_containers_say_what_is_missing() {
    let why = |s: &str| classify(&ty(s)).unwrap_err();
    assert_eq!(why("Cow"), "`Cow` needs a type argument");
    assert_eq!(
        why("Cow<'a, [i32]>"),
        "RecordEncode: `Cow` fields must be `Cow<str>` or `Cow<[u8]>`"
    );
    assert_eq!(why("Vec"), "`list container` needs a type argument");
    assert_eq!(why("HashMap"), "`map` needs type arguments");
    assert_eq!(why("HashMap<>"), "`map` needs a key type");
    assert_eq!(
        why("HashMap<i32, String>"),
        "RecordEncode: map keys must be `String` (the wire map is string-keyed)"
    );
    assert_eq!(why("HashMap<String>"), "`map` needs a value type");
    assert_eq!(
        why("HashMap<String, i32, RandomState>"),
        "`map` expects exactly two type arguments"
    );
    // A malformed element is malformed itself.
    assert_eq!(why("Vec<Cow>"), "`Cow` needs a type argument");
    assert_eq!(elem_classification(&ty("Other")).unwrap(), None);
}

#[test]
fn types_are_read_through_their_wrappers() {
    assert_eq!(classify(&ty("&'a str")).unwrap(), Classification::Known(DbType::Str));
    assert_eq!(classify(&ty("Cow<'a, [u8]>")).unwrap(), Classification::Known(DbType::Bytes));
    assert_eq!(classify(&ty("(i32, i32)")).unwrap(), Classification::Foreign);
    assert_eq!(
        classify(&ty("HashMap<String, Vec<Part>>")).unwrap(),
        Classification::Known(DbType::MapOf(Box::new(Some(DbType::ListOf(Box::new(None))))))
    );
    assert!(option_inner(&ty("std::option::Option<u8>")).is_some());
    assert!(option_inner(&ty("Vec<u8>")).is_none());
    assert!(vec_u8(&ty("std::vec::Vec<u8>")));
    assert!(!vec_u8(&ty("Vec<std::primitive::u8>")));
    assert_eq!(db_type_of(&ty("Cow<f64>")), None);
    assert_eq!(db_type_of(&ty("serde_json::Value")), None);
}

#[test]
fn lifetimes_are_found_anywhere() {
    for t in ["&'a str", "Cow<'a, str>", "Vec<&'a str>", "(i32, Cow<'a, str>)", "(&'a str)", "a::B<'x>::C"] {
        assert!(type_has_lifetime(&ty(t)), "{t}");
    }
    for t in ["&str", "String", "Vec<Option<i32>>", "(i32, i32)", "[&'a str; 2]"] {
        assert!(!type_has_lifetime(&ty(t)), "{t}");
    }
}

// -- names -------------------------------------------------------------------

#[test]
fn rename_rules_follow_serde() {
    let rule = |s: &str| RenameRule::parse(s).unwrap();
    let v = |s: &str| rule(s).apply_to_variant("HTTPServer");
    assert_eq!(v("lowercase"), "httpserver");
    assert_eq!(v("UPPERCASE"), "HTTPSERVER");
    assert_eq!(v("PascalCase"), "HTTPServer");
    assert_eq!(v("camelCase"), "hTTPServer");
    assert_eq!(v("snake_case"), "h_t_t_p_server");
    assert_eq!(v("SCREAMING_SNAKE_CASE"), "H_T_T_P_SERVER");
    assert_eq!(v("kebab-case"), "h-t-t-p-server");
    assert_eq!(v("SCREAMING-KEBAB-CASE"), "H-T-T-P-SERVER");
    let f = |s: &str| rule(s).apply_to_field("user_id_2");
    assert_eq!(f("lowercase"), "user_id_2");
    assert_eq!(f("UPPERCASE"), "USER_ID_2");
    assert_eq!(f("PascalCase"), "UserId2");
    assert_eq!(f("camelCase"), "userId2");
    assert_eq!(f("snake_case"), "user_id_2");
    assert_eq!(f("SCREAMING_SNAKE_CASE"), "USER_ID_2");
    assert_eq!(f("kebab-case"), "user-id-2");
    assert_eq!(f("SCREAMING-KEBAB-CASE"), "USER-ID-2");
    assert!(RenameRule::parse("Snake").is_none());
    // Beyond ASCII: upper case splits, and a first letter may grow when it is lowered.
    assert_eq!(rule("snake_case").apply_to_variant("GoÉté"), "go_Été");
    assert_eq!(lower_first("İx"), "i\u{307}x");
    assert_eq!(lower_first(""), "");
}

#[test]
fn snake_case_reads_back_as_pascal_case() {
    for name in ["A", "FooBar", "HTTPServer", "V2Beta3"] {
        let snake = RenameRule::Snake.apply_to_variant(name);
        assert_eq!(RenameRule::Pascal.apply_to_field(&snake), name);
        assert_eq!(RenameRule::Kebab.apply_to_variant(name), snake.replace('_', "-"));
    }
}

// -- attributes --------------------------------------------------------------

#[test]
fn field_attributes_are_read_in_order() {
    let cfg = FieldCfg::parse(&vec![
        serde(vec![said("rename", "a"), bare("default"), bare("borrow")]),
        record(vec![said("with", "crate::convert"), bare("key")]),
        Attribute { space: AttrSpace::Other, metas: vec![bare("nonsense")] },
        serde(vec![said("rename", "b"), said("default", "make"), said("skip_serializing_if", "x::y")]),
    ])
    .unwrap();
    assert_eq!(cfg.rename.as_deref(), Some("b"));
    assert_eq!(cfg.serialize_rename.as_deref(), Some("b"));
    assert_eq!(cfg.default, Fallback::Path("make".to_string()));
    assert_eq!(cfg.with.as_deref(), Some("crate::convert"));
    assert_eq!(cfg.skip_serializing_if.as_deref(), Some("x::y"));
    assert!(cfg.key && !cfg.flatten && !cfg.skip_decode && !cfg.skip_encode);
}

#[test]
fn two_sided_renames_keep_their_sides() {
    let sides = MetaValue::Nested(vec![said("serialize", "out"), said("deserialize", "in"), bare("x")]);
    let cfg = FieldCfg::parse(&vec![serde(vec![meta("rename", sides)])]).unwrap();
    assert_eq!(cfg.rename.as_deref(), Some("in"));
    assert_eq!(cfg.serialize_rename.as_deref(), Some("out"));
}

#[test]
fn skip_spellings_are_directional() {
    let skip = |name: &str| {
        let c = FieldCfg::parse(&vec![serde(vec![bare(name)])]).unwrap();
        (c.skip_decode, c.skip_encode)
    };
    assert_eq!(skip("skip"), (true, true));
    assert_eq!(skip("skip_serializing"), (false, true));
    assert_eq!(skip("skip_deserializing"), (true, false));
}

#[test]
fn malformed_attributes_are_refused() {
    let why = |a: Attribute| FieldCfg::parse(&vec![a]).unwrap_err();
    assert_eq!(why(record(vec![bare("rename_al")])), "unknown `record` attribute");
    assert_eq!(
        why(record(vec![said("crate_path", "x")])),
        "`crate_path` is a container-level attribute"
    );
    assert_eq!(why(serde(vec![meta("rename", MetaValue::Expr)])), "expected string literal");
    assert_eq!(
        why(serde(vec![bare("rename")])),
        "unexpected end of input, expected parentheses"
    );
    assert_eq!(why(serde(vec![bare("rename"), bare("skip")])), "expected parentheses");
    assert_eq!(why(serde(vec![said("skip", "x")])), "expected `,`");
    assert_eq!(why(serde(vec![meta("default", MetaValue::Nested(Vec::new()))])), "expected `,`");
    assert_eq!(
        why(serde(vec![bare("skip_serializing_if")])),
        "unexpected end of input, expected `=`"
    );
    // Only a Rust path is a path; the parser says why.
    assert_eq!(why(serde(vec![said("default", "not a path")])), "unexpected token");
    assert_eq!(
        why(serde(vec![said("default", "")])),
        "unexpected end of input, expected identifier"
    );
    assert_eq!(
        why(record(vec![said("with", "\"open")])),
        "cannot parse string into token stream"
    );
    assert_eq!(
        ContainerCfg::parse(&vec![record(vec![said("crate_path", "a b")])]).unwrap_err(),
        "unexpected token"
    );
    assert!(FieldCfg::parse(&vec![serde(vec![said("default", "a::b")])]).is_ok());
    // The serde namespace tolerates what it does not know.
    assert!(FieldCfg::parse(&vec![serde(vec![bare("rename_al")])]).is_ok());
}

#[test]
fn container_attributes() {
    let plain = ContainerCfg::parse(&Vec::new()).unwrap();
    assert_eq!(plain.crate_path, "::arcadedb_protocol");
    let cfg = ContainerCfg::parse(&vec![
        serde(vec![
            said("rename_all", "snake_case"),
            said("rename_all_fields", "camelCase"),
            said("tag", "kind"),
            bare("untagged"),
        ]),
        record(vec![said("crate_path", "crate::db")]),
    ])
    .unwrap();
    assert_eq!(cfg.crate_path, "crate::db");
    assert_eq!(cfg.rename_all, Some(RenameRule::Snake));
    assert_eq!(cfg.rename_all_fields, Some(RenameRule::Camel));
    assert_eq!(cfg.tag.as_deref(), Some("kind"));
    assert_eq!(
        ContainerCfg::parse(&vec![serde(vec![said("rename_all", "Snake")])]).unwrap_err(),
        "unknown rename_all rule `Snake`; expected one of `lowercase`, `UPPERCASE`, `PascalCase`, \
         `camelCase`, `snake_case`, `SCREAMING_SNAKE_CASE`, `kebab-case`, `SCREAMING-KEBAB-CASE`"
    );
    assert_eq!(
        ContainerCfg::parse(&vec![record(vec![bare("tag")])]).unwrap_err(),
        "unknown `record` container attribute"
    );
}

// -- decode plans ------------------------------------------------------------

#[test]
fn every_field_gets_its_getter() {
    let plan = decoded(&rows(vec![
        field("id", "i64", vec![]),
        field("note", "Option<String>", vec![]),
        field("blob", "Vec<u8>", vec![serde(vec![bare("default")])]),
        field("thumb", "Option<Vec<u8>>", vec![]),
        field("score", "f64", vec![serde(vec![said("default", "zero")])]),
        field("kind", "Kind", vec![record(vec![said("with", "kind_of")])]),
        field("rid", "Link", vec![serde(vec![said("rename", "@rid")])]),
        field("cache", "i32", vec![serde(vec![bare("skip")])]),
        field("base", "Base", vec![serde(vec![bare("flatten")])]),
    ]));
    let reads: Vec<&ReadPlan> = plan.fields.iter().map(|f| &f.read).collect();
    assert_eq!(reads[0], &ReadPlan::Value(Presence::Needed(Fallback::Required)));
    assert_eq!(reads[1], &ReadPlan::Value(Presence::Optional));
    assert_eq!(reads[2], &ReadPlan::Bytes(Presence::Needed(Fallback::Default)));
    assert_eq!(reads[3], &ReadPlan::Bytes(Presence::Optional));
    assert_eq!(
        reads[4],
        &ReadPlan::Value(Presence::Needed(Fallback::Path("zero".to_string())))
    );
    assert_eq!(
        reads[5],
        &ReadPlan::Converted {
            path: "kind_of".to_string(),
            presence: Presence::Needed(Fallback::Required)
        }
    );
    assert_eq!(
        reads[6],
        &ReadPlan::Synthetic {
            source: Synth::Rid,
            presence: Presence::Needed(Fallback::Required)
        }
    );
    assert_eq!(reads[7], &ReadPlan::Skipped);
    assert_eq!(reads[8], &ReadPlan::Rest { optional: false });
    assert_eq!(plan.wires, ["id", "note", "blob", "thumb", "score", "kind", "@rid"]);
    assert!(plan.flattened);
    let kinds: Vec<(&str, &str)> =
        plan.wire_kinds.iter().map(|(w, k)| (w.as_str(), k.as_str())).collect();
    assert_eq!(
        kinds,
        [("id", "LONG"), ("note", "STRING"), ("score", "DOUBLE"), ("@rid", "LINK")]
    );
}

#[test]
fn flattened_fields_have_no_column_type() {
    let plan = decoded(&rows(vec![field(
        "rest",
        "HashMap<String, Value>",
        vec![serde(vec![bare("flatten")])],
    )]));
    assert!(plan.wires.is_empty());
    assert!(plan.wire_kinds.is_empty());
}

fn decode_error(r: &RowType) -> DeriveError {
    plan_decode(r).unwrap_err()
}

#[test]
fn struct_rules_are_enforced() {
    let flat = || vec![serde(vec![bare("flatten")])];
    let e = decode_error(&rows(vec![field("a", "A", flat()), field("b", "B", flat())]));
    assert_eq!(e.message, "RecordDecode supports at most one flattened field per struct");
    assert_eq!(e.at, Place::Field(1));
    let both = vec![serde(vec![bare("flatten")]), record(vec![said("with", "f")])];
    let e = decode_error(&rows(vec![field("a", "A", both)]));
    assert_eq!(e.message, "RecordDecode: `with` cannot be combined with a flattened field");
    let synth = vec![serde(vec![said("rename", "@type")]), record(vec![said("with", "f")])];
    let e = decode_error(&rows(vec![field("a", "A", synth)]));
    assert_eq!(e.message, "RecordDecode: `with` cannot be combined with `@rid`/`@type` synthesis");
    let e = decode_error(&rows(vec![field(
        "a",
        "Option<Cow<'a, str>>",
        vec![serde(vec![said("rename", "@rid")])],
    )]));
    assert_eq!(
        e.message,
        "RecordDecode: `@rid`/`@type` synthesis supports owned targets only (a borrowed target can't outlive the fallback value)"
    );
}

#[test]
fn shapes_and_parameters_are_checked() {
    let mut r = rows(vec![]);
    r.params = vec![Param::Lifetime("a".to_string())];
    assert_eq!(plan_decode(&r).unwrap().lifetime.as_deref(), Some("a"));
    r.params = vec![Param::Lifetime("a".to_string()), Param::Lifetime("b".to_string())];
    assert_eq!(decode_error(&r).message, "RecordDecode supports at most one lifetime parameter");
    assert_eq!(
        plan_encode(&r).unwrap_err().message,
        "RecordEncode supports at most one lifetime parameter"
    );
    r.params = vec![Param::Other];
    assert_eq!(
        decode_error(&r).message,
        "RecordDecode does not support type/const generic parameters"
    );
    assert_eq!(
        decode_error(&row(vec![], Shape::Union)).message,
        "RecordDecode does not support unions"
    );
    assert_eq!(
        plan_encode(&row(vec![], Shape::Union)).unwrap_err().message,
        "RecordEncode does not support unions"
    );
    let tuple = |n: usize| {
        let fields = (0..n).map(|_| field("", "i64", vec![])).collect();
        row(vec![], Shape::Struct(Fields::Unnamed(fields)))
    };
    assert_eq!(plan_decode(&tuple(1)).unwrap().plan, DecodePlan::Newtype);
    assert_eq!(plan_decode(&tuple(2)).unwrap().plan, DecodePlan::Nothing);
    assert_eq!(
        plan_decode(&row(vec![], Shape::Struct(Fields::Unit))).unwrap().plan,
        DecodePlan::Nothing
    );
    assert!(plan_encode(&tuple(1)).unwrap_err().message.contains("named-field structs only"));
}

#[test]
fn enums_decode_by_name_or_by_tag() {
    let units = || {
        vec![
            variant("InProgress", vec![], Fields::Unit),
            variant("Done", vec![serde(vec![said("rename", "finished")])], Fields::Unit),
        ]
    };
    let snake = || serde(vec![said("rename_all", "snake_case")]);
    match plan_decode(&row(vec![snake()], Shape::Enum(units()))).unwrap().plan {
        DecodePlan::Units(v) => {
            assert_eq!(v[0].wire, "in_progress");
            assert_eq!(v[1].wire, "finished");
        }
        other => panic!("{other:?}"),
    }
    let data = || {
        let mut v = units();
        v.push(variant(
            "Move",
            vec![],
            Fields::Named(vec![
                field("step_count", "i64", vec![]),
                field("raw", "Vec<u8>", vec![]),
            ]),
        ));
        v
    };
    let e = decode_error(&row(vec![snake()], Shape::Enum(data())));
    assert_eq!(e.at, Place::Variant(2));
    assert!(e.message.starts_with("RecordDecode on enums supports unit variants only"));
    let tagged = serde(vec![said("tag", "type"), said("rename_all_fields", "camelCase")]);
    match plan_decode(&row(vec![tagged], Shape::Enum(data()))).unwrap().plan {
        DecodePlan::Tagged { tag, variants } => {
            assert_eq!(tag, "type");
            assert_eq!(variants[0].wire, "InProgress");
            assert!(variants[0].fields.is_none());
            let fields = variants[2].fields.as_ref().unwrap();
            assert_eq!(fields[0].wire, "stepCount");
            assert_eq!(fields[1].read, ReadPlan::Bytes(Presence::Needed(Fallback::Required)));
        }
        other => panic!("{other:?}"),
    }
    let flat = vec![variant(
        "A",
        vec![],
        Fields::Named(vec![field("x", "X", vec![serde(vec![bare("flatten")])])]),
    )];
    let e = decode_error(&row(vec![serde(vec![said("tag", "t")])], Shape::Enum(flat)));
    assert_eq!(e.message, "RecordDecode: `flatten` is not supported inside enum variants");
    assert_eq!(e.at, Place::VariantField(0, 0));
    let tuple = vec![variant("A", vec![], Fields::Unnamed(vec![]))];
    let e = decode_error(&row(vec![serde(vec![said("tag", "t")])], Shape::Enum(tuple)));
    assert_eq!(e.message, "RecordDecode on internally-tagged enums supports struct variants only");
}

// -- encode plans ------------------------------------------------------------

#[test]
fn field_expressions_follow_the_type() {
    let code = |t: &str| encode_field_value(&ty(t), "x", "c").unwrap();
    assert_eq!(code("String"), "c::encode::str_v((x).to_string())");
    assert_eq!(code("i32"), "c::encode::i32_v(*x)");
    assert_eq!(code("u8"), "c::encode::i32_v(i32::from(*x))");
    assert_eq!(code("u64"), "c::encode::i64_v(*x as i64)");
    assert_eq!(code("f32"), "c::encode::f32_v((*x).to_bits())");
    assert_eq!(code("Value"), "c::json_to_grpc_value(x)");
    assert_eq!(
        code("Vec<Part>"),
        "c::encode::list_v((x).iter().map(|__arcade_e| <_ as c::record::ToGrpcRecord>::to_grpc_value(__arcade_e)).collect())"
    );
    assert_eq!(
        code("HashMap<String, bool>"),
        "c::encode::map_v((x).iter().map(|(__arcade_k, __arcade_v)| (__arcade_k.clone(), c::encode::bool_v(*__arcade_v))).collect())"
    );
    assert_eq!(code("Part"), "<_ as c::record::ToGrpcRecord>::to_grpc_value(x)");
    assert!(encode_field_value(&ty("Cow<f64>"), "x", "c").is_err());
    // The text is an expression.
    for t in ["String", "Vec<Vec<i64>>", "DateTime<Utc>", "Link", "Decimal", "NaiveDate", "Option<u8>"] {
        assert!(syn::parse_str::<syn::Expr>(&code(t)).is_ok(), "{t}");
    }
}

#[test]
fn owned_payloads_move() {
    let code = |t: &str| encode_field_value_move(&ty(t), "x", "c").unwrap();
    assert_eq!(code("String"), "c::encode::str_v(x)");
    assert_eq!(code("Cow<'a, str>"), "c::encode::str_v((x).into_owned())");
    assert_eq!(code("Cow<'a, [u8]>"), "c::encode::bytes_v((x).into_owned())");
    assert_eq!(code("Vec<u8>"), "c::encode::bytes_v(x)");
    assert_eq!(
        code("Vec<String>"),
        "c::encode::list_v((x).into_iter().map(|__arcade_e| c::encode::str_v(__arcade_e)).collect())"
    );
    assert_eq!(code("i16"), "c::encode::i32_v(i32::from(x))");
    assert_eq!(code("u32"), "c::encode::i64_v(i64::from(x))");
    // Everything else is borrowed.
    assert_eq!(code("Vec<i64>"), encode_field_value(&ty("Vec<i64>"), "&x", "c").unwrap());
    assert_eq!(code("&'a str"), "c::encode::str_v((x).to_string())");
    assert!(encode_field_value_move(&ty("Cow<f64>"), "x", "c").is_err());
}

#[test]
fn struct_fields_are_written_by_policy() {
    let plan = encoded(&rows(vec![
        field("id", "i64", vec![record(vec![bare("key")])]),
        field("note", "Option<String>", vec![]),
        field("size", "u64", vec![serde(vec![said("skip_serializing_if", "is_zero")])]),
        field("kind", "Option<Kind>", vec![record(vec![said("with", "kind_v")])]),
        field("tmp", "i64", vec![serde(vec![bare("skip_serializing")])]),
        field("base", "Option<Base>", vec![serde(vec![bare("flatten")])]),
        field(
            "name",
            "String",
            vec![serde(vec![meta("rename", MetaValue::Nested(vec![said("serialize", "n")]))])],
        ),
    ]));
    assert_eq!(plan.key_columns, ["id"]);
    let w = |i: usize| &plan.fields[i].write;
    let coded = |s: &str, when: When| WritePlan::Written {
        value: ValueSource::Code(s.to_string()),
        when,
    };
    assert_eq!(w(0), &coded("::arcadedb_protocol::encode::i64_v(*&self.id)", When::Always));
    assert_eq!(
        w(1),
        &coded("::arcadedb_protocol::encode::str_v((__arcade_f).to_string())", When::IfSome)
    );
    assert_eq!(
        plan.fields[1].moved,
        coded("::arcadedb_protocol::encode::str_v(__arcade_f)", When::IfSome)
    );
    assert_eq!(
        w(2),
        &coded(
            "::arcadedb_protocol::encode::i64_v(*&self.size as i64)",
            When::Unless("is_zero".to_string())
        )
    );
    assert_eq!(
        w(3),
        &WritePlan::Written {
            value: ValueSource::Converted("kind_v".to_string()),
            when: When::IfSome
        }
    );
    assert_eq!(w(4), &WritePlan::Skipped);
    assert_eq!(w(5), &WritePlan::Spliced { optional: true, unless: None });
    assert_eq!(plan.fields[6].wire, "n");
    assert_eq!(plan.fields[4].diff, DiffPlan::Skipped);
    assert_eq!(plan.fields[5].diff, DiffPlan::Nested { optional: true, unless: None });
    assert_eq!(
        plan.fields[3].diff,
        DiffPlan::Compared {
            converted: Some("kind_v".to_string()),
            optional: true,
            unless: None
        }
    );
}

#[test]
fn predicates_leave_fields_out_of_writes_and_diffs() {
    let gone = || vec![serde(vec![said("skip_serializing_if", "gone")])];
    let with = || {
        vec![serde(vec![said("skip_serializing_if", "gone")]), record(vec![said("with", "f")])]
    };
    let mut flat = gone();
    flat.push(serde(vec![bare("flatten")]));
    let plan = encoded(&rows(vec![
        field("note", "Option<String>", gone()),
        field("kind", "Option<Kind>", with()),
        field("base", "Base", flat),
    ]));
    let when = || When::IfSomeUnless("gone".to_string());
    assert!(matches!(&plan.fields[0].write, WritePlan::Written { when: w, .. } if w == &when()));
    assert!(matches!(&plan.fields[0].moved, WritePlan::Written { when: w, .. } if w == &when()));
    assert_eq!(
        plan.fields[1].write,
        WritePlan::Written { value: ValueSource::Converted("f".to_string()), when: when() }
    );
    assert_eq!(
        plan.fields[2].write,
        WritePlan::Spliced { optional: false, unless: Some("gone".to_string()) }
    );
    for f in &plan.fields {
        let unless = match &f.diff {
            DiffPlan::Nested { unless, .. } => unless,
            DiffPlan::Compared { unless, .. } => unless,
            DiffPlan::Skipped => panic!("expected a diff"),
        };
        assert_eq!(unless.as_deref(), Some("gone"));
    }
    let v = vec![variant(
        "A",
        vec![],
        Fields::Named(vec![field("kind", "Kind", with()), field("n", "Option<i64>", gone())]),
    )];
    let EncodePlan::Enum { variants, .. } =
        plan_encode(&row(vec![serde(vec![said("tag", "t")])], Shape::Enum(v))).unwrap().plan
    else {
        panic!("expected an enum plan");
    };
    let fields = variants[0].fields.as_ref().unwrap();
    assert_eq!(
        fields[0].write,
        WritePlan::Written {
            value: ValueSource::Converted("f".to_string()),
            when: When::Unless("gone".to_string())
        }
    );
    assert!(matches!(&fields[1].write, WritePlan::Written { when: w, .. } if w == &when()));
}

#[test]
fn two_sided_renames_of_variants_keep_their_sides() {
    let row = declared(
        "enum Kind {
            #[serde(rename(serialize = \"w\", deserialize = \"r\"))] Both,
            #[serde(rename(serialize = \"only\"))] Written,
            #[serde(rename(deserialize = \"only\"))] Read,
        }",
    );
    let DecodePlan::Units(read) = plan_decode(&row).unwrap().plan else {
        panic!("expected a plan of units");
    };
    let EncodePlan::Enum { variants: written, .. } = plan_encode(&row).unwrap().plan else {
        panic!("expected an enum plan");
    };
    let read: Vec<&str> = read.iter().map(|v| v.wire.as_str()).collect();
    let written: Vec<&str> = written.iter().map(|v| v.wire.as_str()).collect();
    assert_eq!(read, ["r", "Written", "only"]);
    assert_eq!(written, ["w", "only", "only"]);
}

#[test]
fn optional_fields_can_have_a_default_of_their_own() {
    let path = || vec![serde(vec![said("default", "some_default")])];
    let mut with = path();
    with.push(record(vec![said("with", "f")]));
    let mut rid = path();
    rid.push(serde(vec![said("rename", "@rid")]));
    let r = rows(vec![
        field("note", "Option<String>", path()),
        field("raw", "Option<Vec<u8>>", path()),
        field("kind", "Option<Kind>", with),
        field("rid", "Option<String>", rid),
        field("bare", "Option<String>", vec![serde(vec![bare("default")])]),
    ]);
    let plan = decoded(&r);
    let or = || Presence::OptionalOr("some_default".to_string());
    assert_eq!(plan.fields[0].read, ReadPlan::Value(or()));
    assert_eq!(plan.fields[1].read, ReadPlan::Bytes(or()));
    assert_eq!(plan.fields[2].read, ReadPlan::Converted { path: "f".to_string(), presence: or() });
    assert_eq!(plan.fields[3].read, ReadPlan::Synthetic { source: Synth::Rid, presence: or() });
    assert_eq!(plan.fields[4].read, ReadPlan::Value(Presence::Optional));
    let out = tokens(&expand_derive(&r).unwrap());
    let c = "::arcadedb_protocol::record";
    for part in [
        format!("letnote={c}::derived::get_opt_or(__arcade_props,__arcade_taken,\"note\",some_default)?;"),
        format!("letraw={c}::derived::get_opt_bytes_or(__arcade_props,__arcade_taken,\"raw\",some_default)?;"),
        format!("letkind={c}::derived::get_opt_with_or(__arcade_props,__arcade_taken,\"kind\",f,some_default)?;"),
        format!("letrid={c}::derived::get_synth_opt_or(__arcade_props,\"@rid\",__arcade_syn_rid,some_default)?;"),
    ] {
        assert!(out.contains(&part), "{part}\nin\n{out}");
    }
}

#[test]
fn texts_are_read_as_paths_where_paths_are_meant() {
    let problem = |space: AttrSpace, name: &str| read_text(space, name, "it's".to_string()).problem;
    for name in ["default", "skip_serializing_if"] {
        assert!(problem(AttrSpace::Serde, name).is_some());
        assert!(problem(AttrSpace::Record, name).is_some());
    }
    for name in ["with", "deserialize_with", "crate_path"] {
        assert!(problem(AttrSpace::Record, name).is_some());
        assert!(problem(AttrSpace::Serde, name).is_none());
    }
    assert!(problem(AttrSpace::Serde, "rename").is_none());
    let p = read_path("a::b".to_string());
    assert_eq!(p.text, "a::b");
    assert!(p.problem.is_none());
    // What the parser said is what is reported.
    let said = PathText { text: "a".to_string(), problem: Some("no".to_string()) };
    let refused = FieldCfg::parse(&vec![serde(vec![meta("default", MetaValue::Text(said))])]);
    assert_eq!(refused.unwrap_err(), "no");
}

#[test]
fn encode_rules_are_enforced() {
    let e = |r: &RowType| plan_encode(r).unwrap_err();
    let key_skip = vec![record(vec![bare("key"), bare("skip")])];
    assert_eq!(
        e(&rows(vec![field("a", "i64", key_skip)])).message,
        "RecordEncode: `key` cannot be combined with `skip`"
    );
    let both = vec![serde(vec![bare("flatten")]), record(vec![said("with", "f")])];
    assert_eq!(
        e(&rows(vec![field("a", "A", both)])).message,
        "RecordEncode: `with` cannot be combined with a flattened field"
    );
    assert_eq!(e(&rows(vec![field("a", "Cow<f64>", vec![])])).at, Place::Field(0));
    let tagged = |v: Vec<Variant>| row(vec![serde(vec![said("tag", "t")])], Shape::Enum(v));
    let named = |f: Field| vec![variant("A", vec![], Fields::Named(vec![f]))];
    assert_eq!(
        e(&tagged(named(field("a", "i64", vec![record(vec![bare("key")])])))).message,
        "RecordEncode: `key` is not supported inside enum variants"
    );
    assert_eq!(
        e(&tagged(named(field("a", "A", vec![serde(vec![bare("flatten")])])))).message,
        "RecordEncode: `flatten` is not supported inside enum variants"
    );
    assert!(e(&row(vec![], Shape::Enum(named(field("a", "i64", vec![])))))
        .message
        .starts_with("RecordEncode: data-carrying variants require"));
    assert_eq!(
        e(&tagged(vec![variant("A", vec![], Fields::Unnamed(vec![]))])).message,
        "RecordEncode on enums supports struct variants only"
    );
}

#[test]
fn enum_variants_are_written_by_name() {
    let v = vec![
        variant("Idle", vec![], Fields::Unit),
        variant(
            "Move",
            vec![],
            Fields::Named(vec![
                field("steps", "u32", vec![]),
                field("why", "Option<String>", vec![serde(vec![said("rename", "reason")])]),
            ]),
        ),
    ];
    match plan_encode(&row(vec![serde(vec![said("tag", "t")])], Shape::Enum(v))).unwrap().plan {
        EncodePlan::Enum { tag, variants } => {
            assert_eq!(tag.as_deref(), Some("t"));
            assert_eq!(variants[0].wire, "Idle");
            let fields = variants[1].fields.as_ref().unwrap();
            assert_eq!(fields[1].wire, "reason");
            assert_eq!(
                fields[0].write,
                WritePlan::Written {
                    value: ValueSource::Code(
                        "::arcadedb_protocol::encode::i64_v(i64::from(*steps))".to_string()
                    ),
                    when: When::Always
                }
            );
        }
        other => panic!("{other:?}"),
    }
}

// -- whole declarations ------------------------------------------------------

#[test]
fn wires_list_every_readable_column_in_declaration_order() {
    let article = decoded(&declared(
        "struct Article {
            #[serde(rename = \"logical_key\")]
            #[record(with = \"self::TestId::from_value\")]
            id: TestId,
            title: String,
            sequence: u32,
            priority: Priority,
            format: Format,
            #[serde(default)]
            has_review: bool,
            #[serde(default = \"default_synced\")]
            synced_at: String,
            #[serde(rename = \"tags\")]
            tags: Vec<String>,
            #[serde(default)]
            optional_note: Option<String>,
            #[serde(rename = \"sections\")]
            sections: Vec<Block>,
            #[serde(rename = \"caption\")]
            caption: Option<Caption>,
            #[serde(rename = \"@rid\")]
            rid: Option<String>,
        }",
    ));
    // Skipped fields are not read; flatten fields consume \"the rest\" (their
    // own columns describe them); everything else is a readable column.
    assert_eq!(article.wires[0], "logical_key", "renames are honored");
    assert!(article.wires.contains(&"@rid".to_string()));
    assert!(article.wires.contains(&"has_review".to_string()));
    assert_eq!(article.select_list().split(", ").count(), article.wires.len());

    // Wire names straight from the fields.
    let block = decoded(&declared(
        "struct Block {
            content_rid: String,
            content_type: String,
            #[serde(default)]
            hint: Option<String>,
        }",
    ));
    assert_eq!(block.wires, ["content_rid", "content_type", "hint"]);
    assert_eq!(block.select_list(), "content_rid, content_type, hint");
}

#[test]
fn wires_exclude_decode_skipped_fields() {
    let row = decoded(&declared(
        "struct RowWithSkip { real: String, #[serde(skip)] ghost: String }",
    ));
    assert_eq!(row.wires, ["real"]);
}

#[test]
fn wire_kinds_map_rust_types_onto_column_types() {
    let plan = decoded(&declared(
        "struct KindRow<'a> {
            name: Cow<'a, str>,
            count: i32,
            big: i64,
            ratio: f64,
            active: bool,
            tags: Vec<i32>,
            unique_tags: std::collections::BTreeSet<i32>,
            alt_names: std::collections::HashSet<String>,
            when: chrono::DateTime<chrono::Utc>,
            day: chrono::NaiveDate,
            meta: std::collections::HashMap<String, String>,
            ordered_meta: std::collections::BTreeMap<String, String>,
            #[serde(default)]
            blob: Vec<u8>,
            #[record(rename = \"renamed_with\", with = \"crate::w\", default)]
            custom: i64,
        }",
    ));
    let of = |name: &str| {
        plan.wire_kinds.iter().find(|(w, _)| w == name).map(|(_, kind)| kind.as_str())
    };
    assert_eq!(of("name"), Some("STRING"));
    assert_eq!(of("count"), Some("INTEGER"));
    assert_eq!(of("big"), Some("LONG"));
    assert_eq!(of("ratio"), Some("DOUBLE"));
    assert_eq!(of("active"), Some("BOOLEAN"));
    assert_eq!(of("tags"), Some("LIST OF INTEGER"));
    assert_eq!(of("unique_tags"), Some("LIST OF INTEGER"));
    assert_eq!(of("alt_names"), Some("LIST OF STRING"));
    assert_eq!(of("when"), Some("DATETIME"));
    assert_eq!(of("day"), Some("DATE"));
    assert_eq!(of("meta"), Some("MAP"));
    assert_eq!(of("ordered_meta"), Some("MAP"));
    // Ambiguous/unknown shapes are excluded, not guessed.
    assert_eq!(of("blob"), None);
    assert_eq!(of("renamed_with"), None);
}

#[test]
fn link_wire_kind_is_link() {
    let plan = decoded(&declared(
        "struct EdgeEndsRow {
            #[serde(rename = \"@rid\")]
            rid: Option<arcadedb_protocol::Link>,
            #[serde(rename = \"@in\")]
            from: arcadedb_protocol::Link,
            #[serde(rename = \"@out\")]
            to: arcadedb_protocol::Link,
        }",
    ));
    assert!(
        plan.wire_kinds.contains(&("@in".to_string(), "LINK".to_string())),
        "Link fields should carry the LINK column kind"
    );
}

#[test]
fn key_columns_come_from_the_record_key_attribute() {
    let keyed = encoded(&declared(
        "struct KeyedRow { #[record(key)] item_id: String, title: String }",
    ));
    assert_eq!(keyed.key_columns, ["item_id"]);
    let unkeyed = encoded(&declared("struct UnkeyedRow { title: String }"));
    assert!(unkeyed.key_columns.is_empty());
}

/// The names below are those that serde's own derive writes for these declarations.
#[test]
fn record_decode_reads_the_exact_keys_serde_writes() {
    let plan = decoded(&declared(
        "#[serde(rename_all = \"camelCase\")]
        struct SerdeParityCamelRow { title: String, url_name: String, URLName: String }",
    ));
    assert_eq!(plan.wires, ["title", "urlName", "uRLName"]);
}

/// The names below are those that serde's own derive writes for this declaration.
#[test]
fn record_decode_accepts_the_variant_names_serde_writes() {
    let row = declared(
        "#[serde(rename_all = \"snake_case\")]
        enum SerdeParityAcronymKind { PlainKind, HTTPServer, JSONPayload }",
    );
    match plan_decode(&row).unwrap().plan {
        DecodePlan::Units(v) => {
            let wires: Vec<&str> = v.iter().map(|v| v.wire.as_str()).collect();
            assert_eq!(wires, ["plain_kind", "h_t_t_p_server", "j_s_o_n_payload"]);
        }
        other => panic!("{other:?}"),
    }
}

#[test]
fn both_derives_read_one_declaration() {
    let row = declared(
        "#[serde(rename_all = \"camelCase\")]
        struct MetricRow {
            sensor_id: i64,
            #[record(rename(deserialize = \"published_at\"))]
            updated_at: String,
        }",
    );
    assert_eq!(decoded(&row).wires, ["sensorId", "published_at"]);
    let wires: Vec<String> = encoded(&row).fields.into_iter().map(|f| f.wire).collect();
    assert_eq!(wires, ["sensorId", "published_at"]);
}

#[test]
fn both_derives_name_every_variant_alike() {
    let row = declared(
        "#[serde(tag = \"kind\", rename_all = \"snake_case\", rename_all_fields = \"camelCase\")]
        enum Shape { UnitSquare, RoundedBox { corner_radius: i64, #[serde(rename = \"w\")] width: i64 } }",
    );
    let DecodePlan::Tagged { tag, variants } = plan_decode(&row).unwrap().plan else {
        panic!("expected a tagged plan");
    };
    let EncodePlan::Enum { tag: written_tag, variants: written } = plan_encode(&row).unwrap().plan
    else {
        panic!("expected an enum plan");
    };
    assert_eq!(written_tag, Some(tag));
    let read_names: Vec<&str> = variants.iter().map(|v| v.wire.as_str()).collect();
    let written_names: Vec<&str> = written.iter().map(|v| v.wire.as_str()).collect();
    assert_eq!(read_names, ["unit_square", "rounded_box"]);
    assert_eq!(read_names, written_names);
    let read_fields: Vec<&str> =
        variants[1].fields.iter().flatten().map(|f| f.wire.as_str()).collect();
    let written_fields: Vec<&str> =
        written[1].fields.iter().flatten().map(|f| f.wire.as_str()).collect();
    assert_eq!(read_fields, ["cornerRadius", "w"]);
    assert_eq!(read_fields, written_fields);
}

// -- emitted source ----------------------------------------------------------

/// The emitted source without white space, as the tokens of a file.
fn tokens(source: &str) -> String {
    let file: syn::File = syn::parse_str(source).unwrap();
    assert!(file.items.iter().all(|i| matches!(i, syn::Item::Impl(_))), "{source}");
    source.split_whitespace().collect()
}

#[test]
fn literals_denote_their_text() {
    for s in ["", "plain", "a\"b", "back\\slash", "cr\rlf\n", "Arc\u{e1}dia", "\\\"\\"] {
        let lit: syn::LitStr = syn::parse_str(&quote(s)).unwrap();
        assert_eq!(lit.value(), s);
    }
    assert_eq!(quote("a\"b"), "\"a\\\"b\"");
}

#[test]
fn struct_decoders_call_the_getters() {
    let row = declared(
        "struct Row {
            id: i64,
            note: Option<String>,
            #[serde(default)] blob: Vec<u8>,
            #[serde(default = \"zero\")] score: f64,
            #[record(with = \"kind_of\")] kind: Kind,
            #[serde(rename = \"@rid\")] rid: Option<Link>,
            #[serde(skip)] cache: i32,
            #[serde(flatten)] base: Base,
            last: bool,
        }",
    );
    let out = tokens(&expand_derive(&row).unwrap());
    let reads = "letid=::arcadedb_protocol::record::get(__arcade_props,__arcade_taken,\"id\")?;\
        letnote=::arcadedb_protocol::record::get_opt(__arcade_props,__arcade_taken,\"note\")?;\
        letblob=::arcadedb_protocol::record::get_bytes_or(__arcade_props,__arcade_taken,\"blob\",::core::default::Default::default)?;\
        letscore=::arcadedb_protocol::record::get_or(__arcade_props,__arcade_taken,\"score\",zero)?;\
        letkind=::arcadedb_protocol::record::get_with(__arcade_props,__arcade_taken,\"kind\",kind_of)?;\
        letrid=::arcadedb_protocol::record::derived::get_synth_opt(__arcade_props,\"@rid\",__arcade_syn_rid)?;\
        letcache=::core::default::Default::default();\
        letlast=::arcadedb_protocol::record::get(__arcade_props,__arcade_taken,\"last\")?;\
        letbase={let__arcade_t=::arcadedb_protocol::record::derived::child_taken(__arcade_taken,&[\"id\",\"note\",\"blob\",\"score\",\"kind\",\"@rid\",\"last\",]);\
        ::arcadedb_protocol::record::derived::decode_rest(__arcade_props,&__arcade_t,\"base\")?};\
        ::core::result::Result::Ok(Self{id,note,blob,score,kind,rid,cache,base,last,})";
    assert!(out.contains(reads), "{out}");
    assert!(out.contains("WIRES:&'static[&'staticstr]=&[\"id\",\"note\",\"blob\",\"score\",\"kind\",\"@rid\",\"last\",];"));
    assert!(out.contains("(\"@rid\",\"LINK\"),"));
    assert!(out.contains("{\"id,note,blob,score,kind,@rid,last\"}"));
    assert!(out.contains("impl::core::convert::TryFrom<::arcadedb_protocol::GrpcRecord>forRow"));
}

#[test]
fn borrowing_decoders_keep_their_lifetime() {
    let row = declared("struct Row<'a> { title: &'a str, #[serde(flatten)] rest: Option<Rest<'a>> }");
    let out = tokens(&expand_derive(&row).unwrap());
    assert!(out.contains("impl<'a>::arcadedb_protocol::record::DecodeFromMap<'a>forRow<'a>"));
    assert!(out.contains("any_visible(__arcade_props,&__arcade_t)"));
    assert!(!out.contains("TryFrom<::arcadedb_protocol::GrpcRecord>"));
    let pk = declared("#[serde(transparent)] struct Pk(String);");
    let out = tokens(&expand_derive(&pk).unwrap());
    assert!(out.contains("Ok(Pk(::arcadedb_protocol::record::FromGrpcValue::from_grpc_value(__arcade_v)?))"));
    assert_eq!(expand_derive(&declared("struct Unit;")).unwrap(), "");
}

#[test]
fn enum_decoders_choose_by_wire_name() {
    let row = declared("#[serde(rename_all = \"snake_case\")] enum Size { VerySmall, Large }");
    let out = tokens(&expand_derive(&row).unwrap());
    assert!(out.contains(
        "match::arcadedb_protocol::record::derived::variant_text(__arcade_v)?{\
         \"very_small\"=>::core::result::Result::Ok(Self::VerySmall),\
         \"large\"=>::core::result::Result::Ok(Self::Large),\
         __other=>"
    ), "{out}");
    let row = declared(
        "#[serde(tag = \"kind\")] #[record(crate_path = \"crate::db\")]
        enum Shape { Dot, Rect { w: i64, #[serde(default)] h: i64 } }",
    );
    let out = tokens(&expand_derive(&row).unwrap());
    assert!(out.contains(
        "matchcrate::db::record::derived::variant_tag(__arcade_props,\"kind\",__arcade_taken)?{\
         \"Dot\"=>::core::result::Result::Ok(Self::Dot),\
         \"Rect\"=>{letw=crate::db::record::get(__arcade_props,__arcade_taken,\"w\")?;\
         leth=crate::db::record::get_or(__arcade_props,__arcade_taken,\"h\",::core::default::Default::default)?;\
         ::core::result::Result::Ok(Self::Rect{w,h,})}__other=>"
    ), "{out}");
    assert!(out.contains("record_fields(__arcade_v,\"record/map\")"));
}

#[test]
fn struct_encoders_write_and_compare() {
    let row = declared(
        "struct Row {
            #[record(key)] id: String,
            note: Option<String>,
            #[record(with = \"kind_v\")] kind: Option<Kind>,
            #[serde(skip_serializing_if = \"is_zero\")] size: i64,
            #[serde(skip_serializing)] tmp: i64,
            #[serde(flatten)] base: Base,
            #[serde(skip_serializing_if = \"short\")] extra: Option<String>,
        }",
    );
    let out = tokens(&expand_encode_derive(&row).unwrap());
    let c = "::arcadedb_protocol";
    for part in [
        format!("if!short(&self.extra){{iflet::core::option::Option::Some(__arcade_f)=&self.extra{{__out.push((\"extra\",{c}::encode::str_v((__arcade_f).to_string())));}}}}"),
        format!("if!short(&self.extra){{iflet::core::option::Option::Some(__arcade_f)=self.extra{{__out.push((\"extra\",{c}::encode::str_v(__arcade_f)));}}}}"),
        "constKEY_COLUMNS:&'static[&'staticstr]=&[\"id\",];".to_string(),
        format!("__out.push((\"id\",{c}::encode::str_v((&self.id).to_string())));"),
        format!("iflet::core::option::Option::Some(__arcade_f)=&self.note{{__out.push((\"note\",{c}::encode::str_v((__arcade_f).to_string())));}}"),
        "iflet::core::option::Option::Some(__arcade_f)=&self.kind{__out.push((\"kind\",kind_v(__arcade_f)));}".to_string(),
        format!("if!is_zero(&self.size){{__out.push((\"size\",{c}::encode::i64_v(*&self.size)));}}"),
        format!("__out.extend({c}::record::ToGrpcRecord::props(&self.base));"),
        // The consuming form moves owned payloads.
        format!("__out.push((\"id\",{c}::encode::str_v(self.id)));"),
        format!("iflet::core::option::Option::Some(__arcade_f)=self.note{{__out.push((\"note\",{c}::encode::str_v(__arcade_f)));}}"),
        // Differences.
        "ifself.id!=other.id{__arcade_changed.push(\"id\".to_string());}".to_string(),
        "ifother.note.is_some()&&self.note!=other.note{".to_string(),
        "ifother.kind.is_some()&&self.kind.as_ref().map(|__arcade_f|kind_v(__arcade_f))!=other.kind.as_ref().map(|__arcade_f|kind_v(__arcade_f)){".to_string(),
        "if!is_zero(&other.size)&&(self.size!=other.size){".to_string(),
        format!("__arcade_changed.extend({c}::record::ToGrpcRecord::changed_wires(&self.base,&other.base));"),
    ] {
        assert!(out.contains(&part), "{part}\nin\n{out}");
    }
    assert!(!out.contains("tmp"));
}

#[test]
fn enum_encoders_write_their_discriminator() {
    let row = declared("#[serde(tag = \"kind\")] enum Shape<'a> { Dot, Rect { w: i64, n: Option<&'a str> } }");
    let out = tokens(&expand_encode_derive(&row).unwrap());
    let c = "::arcadedb_protocol";
    for part in [
        format!("impl<'a>{c}::record::ToGrpcRecordforShape<'a>"),
        "Self::Dot=>::std::vec::Vec::new(),".to_string(),
        format!("Self::Dot=>{c}::encode::str_v(\"Dot\"),"),
        format!("__arcade_pairs.push((\"kind\",{c}::encode::str_v(\"Rect\")));__arcade_pairs.push((\"w\",{c}::encode::i64_v(*w)));"),
        "iflet::core::option::Option::Some(__arcade_f)=n{".to_string(),
        format!("Self::Rect{{..}}=>{c}::encode::map_v("),
    ] {
        assert!(out.contains(&part), "{part}\nin\n{out}");
    }
    assert!(expand_encode_derive(&declared("struct Unit;")).is_err());
}
