//! The source text that the decode derive emits: which getter reads each field, and the impls
//! around the reads.

use vstd::prelude::*;
use vstd::string::*;
use crate::text;
use crate::derive::attrs::{Fallback, FallbackView};
use crate::derive::decode;
use crate::derive::decode::{
    DecodeDerive, DecodeDeriveView, DecodePlan, DecodeView, FieldPlan, FieldPlanView, Presence,
    PresenceView, ReadPlan, ReadView, StructPlan, StructView, Synth, VariantPlan, VariantPlanView,
};
use crate::derive::input::{DeriveError, RowType};
use crate::derive::literal;

verus! {

// ---------------------------------------------------------------------------
// Lifetimes
// ---------------------------------------------------------------------------

/// The lifetime scaffolding that every emitted impl shares.
pub struct BorrowCfg {
    /// `<'de>` for a type that owns its data, `<'a>` for one that borrows.
    pub clause: String,
    /// What follows `impl` of the inherent block: nothing, or `<'a>`.
    pub inherent_clause: String,
    /// `Name` or `Name<'a>`.
    pub self_ty: String,
    /// `'de` or `'a`.
    pub lt: String,
    /// Whether the type decodes from an owned record too: one that borrows cannot outlive it.
    pub owned_try_from: bool,
}

#[verifier::ext_equal]
pub ghost struct BorrowView {
    pub clause: Seq<char>,
    pub inherent_clause: Seq<char>,
    pub self_ty: Seq<char>,
    pub lt: Seq<char>,
    pub owned_try_from: bool,
}

impl View for BorrowCfg {
    type V = BorrowView;

    open spec fn view(&self) -> BorrowView {
        BorrowView {
            clause: self.clause@,
            inherent_clause: self.inherent_clause@,
            self_ty: self.self_ty@,
            lt: self.lt@,
            owned_try_from: self.owned_try_from,
        }
    }
}

/// The scaffolding of the type `name` that borrows for `lifetime`, if for any.
pub open spec fn borrowing(name: Seq<char>, lifetime: Option<Seq<char>>) -> BorrowView {
    match lifetime {
        Some(l) => BorrowView {
            clause: clause_code(l),
            inherent_clause: clause_code(l),
            self_ty: name + clause_code(l),
            lt: "'"@ + l,
            owned_try_from: false,
        },
        None => BorrowView {
            clause: "<'de>"@,
            inherent_clause: ""@,
            self_ty: name,
            lt: "'de"@,
            owned_try_from: true,
        },
    }
}

/// A generic clause of one lifetime.
pub open spec fn clause_code(l: Seq<char>) -> Seq<char> {
    "<'"@ + l + ">"@
}

fn clause_text(l: &str) -> (r: String)
    ensures
        r@ == clause_code(l@),
{
    let mut s = "<'".to_owned();
    s.append(l);
    s.append(">");
    s
}

/// The scaffolding of the type `name` that borrows for `lifetime`, if for any.
pub fn borrow_cfg(name: &str, lifetime: &Option<String>) -> (r: BorrowCfg)
    ensures
        r@ == borrowing(name@, text::optional(*lifetime)),
{
    match lifetime {
        Some(l) => {
            let clause = clause_text(l.as_str());
            let inherent_clause = clause_text(l.as_str());
            let mut self_ty = name.to_owned();
            self_ty.append(clause.as_str());
            let mut lt = "'".to_owned();
            lt.append(l.as_str());
            BorrowCfg { clause, inherent_clause, self_ty, lt, owned_try_from: false }
        },
        None => BorrowCfg {
            clause: "<'de>".to_owned(),
            inherent_clause: "".to_owned(),
            self_ty: name.to_owned(),
            lt: "'de".to_owned(),
            owned_try_from: true,
        },
    }
}

// ---------------------------------------------------------------------------
// Reads
// ---------------------------------------------------------------------------

/// A fallible call of the runtime's `record::f`.
pub open spec fn call_code(c: Seq<char>, f: Seq<char>, args: Seq<char>) -> Seq<char> {
    c + "::record::"@ + f + "("@ + args + ")?"@
}

fn call_text(c: &str, f: &str, args: &str) -> (r: String)
    ensures
        r@ == call_code(c@, f@, args@),
{
    let mut s = c.to_owned();
    s.append("::record::");
    s.append(f);
    s.append("(");
    s.append(args);
    s.append(")?");
    s
}

/// The arguments of a getter of the property `key`, a literal.
pub open spec fn plain_args_code(key: Seq<char>) -> Seq<char> {
    "__arcade_props, __arcade_taken, "@ + key
}

fn plain_args_text(key: &str) -> (r: String)
    ensures
        r@ == plain_args_code(key@),
{
    let mut s = "__arcade_props, __arcade_taken, ".to_owned();
    s.append(key);
    s
}

/// The arguments of a getter of the property `key` with the metadata `source` behind it.
pub open spec fn synth_args_code(key: Seq<char>, source: Seq<char>) -> Seq<char> {
    "__arcade_props, "@ + key + ", "@ + source
}

fn synth_args_text(key: &str, source: &str) -> (r: String)
    ensures
        r@ == synth_args_code(key@, source@),
{
    let mut s = "__arcade_props, ".to_owned();
    s.append(key);
    s.append(", ");
    s.append(source);
    s
}

/// One more argument.
pub open spec fn also_code(args: Seq<char>, more: Seq<char>) -> Seq<char> {
    args + ", "@ + more
}

fn also_text(args: &str, more: &str) -> (r: String)
    ensures
        r@ == also_code(args@, more@),
{
    let mut s = args.to_owned();
    s.append(", ");
    s.append(more);
    s
}

/// The binding of one field.
pub open spec fn let_code(ident: Seq<char>, expr: Seq<char>) -> Seq<char> {
    "let "@ + ident + " = "@ + expr + ";\n"@
}

fn let_text(ident: &str, expr: &str) -> (r: String)
    ensures
        r@ == let_code(ident@, expr@),
{
    let mut s = "let ".to_owned();
    s.append(ident);
    s.append(" = ");
    s.append(expr);
    s.append(";\n");
    s
}

/// The default of a field that has one.
pub open spec fn fallback_code(f: FallbackView) -> Option<Seq<char>> {
    match f {
        FallbackView::Required => None,
        FallbackView::Default => Some("::core::default::Default::default"@),
        FallbackView::Path(p) => Some(p),
    }
}

/// The call of one of four getters, by what happens when the property is absent.
pub open spec fn getter_code(
    c: Seq<char>,
    p: PresenceView,
    args: Seq<char>,
    required: Seq<char>,
    defaulted: Seq<char>,
    optional: Seq<char>,
    optional_or: Seq<char>,
) -> Seq<char> {
    match p {
        PresenceView::Optional => call_code(c, optional, args),
        PresenceView::OptionalOr(d) => call_code(c, optional_or, also_code(args, d)),
        PresenceView::Needed(f) => match fallback_code(f) {
            None => call_code(c, required, args),
            Some(d) => call_code(c, defaulted, also_code(args, d)),
        },
    }
}

/// The metadata argument behind a synthetic property.
pub open spec fn source_code(s: Synth) -> Seq<char> {
    match s {
        Synth::Rid => "__arcade_syn_rid"@,
        Synth::Class => "__arcade_syn_type"@,
    }
}

/// A flattened field: decoded from what neither its parent nor its parent's parents read.
pub open spec fn rest_code(c: Seq<char>, own: Seq<char>, field: Seq<char>) -> Seq<char> {
    "{ let __arcade_t = "@ + c + "::record::derived::child_taken(__arcade_taken, &["@ + own
        + "]); "@ + c + "::record::derived::decode_rest(__arcade_props, &__arcade_t, "@ + field
        + ")? }"@
}

fn rest_text(c: &str, own: &str, field: &str) -> (r: String)
    ensures
        r@ == rest_code(c@, own@, field@),
{
    let mut s = "{ let __arcade_t = ".to_owned();
    s.append(c);
    s.append("::record::derived::child_taken(__arcade_taken, &[");
    s.append(own);
    s.append("]); ");
    s.append(c);
    s.append("::record::derived::decode_rest(__arcade_props, &__arcade_t, ");
    s.append(field);
    s.append(")? }");
    s
}

/// An optional flattened field: `None` when nothing is left for it.
pub open spec fn optional_rest_code(c: Seq<char>, own: Seq<char>, field: Seq<char>) -> Seq<char> {
    "{ let __arcade_t = "@ + c + "::record::derived::child_taken(__arcade_taken, &["@ + own
        + "]); if "@ + c
        + "::record::derived::any_visible(__arcade_props, &__arcade_t) { ::core::option::Option::Some("@
        + c + "::record::derived::decode_rest(__arcade_props, &__arcade_t, "@ + field
        + ")?) } else { ::core::option::Option::None } }"@
}

fn optional_rest_text(c: &str, own: &str, field: &str) -> (r: String)
    ensures
        r@ == optional_rest_code(c@, own@, field@),
{
    let mut s = "{ let __arcade_t = ".to_owned();
    s.append(c);
    s.append("::record::derived::child_taken(__arcade_taken, &[");
    s.append(own);
    s.append("]); if ");
    s.append(c);
    s.append("::record::derived::any_visible(__arcade_props, &__arcade_t) { ::core::option::Option::Some(");
    s.append(c);
    s.append("::record::derived::decode_rest(__arcade_props, &__arcade_t, ");
    s.append(field);
    s.append(")?) } else { ::core::option::Option::None } }");
    s
}

/// The expression that reads a field; `own` lists the columns of the struct it stands in.
pub open spec fn read_code(c: Seq<char>, f: FieldPlanView, own: Seq<char>) -> Seq<char> {
    let key = literal::quoted(f.wire);
    match f.read {
        ReadView::Skipped => "::core::default::Default::default()"@,
        ReadView::Rest(false) => rest_code(c, own, literal::quoted(f.ident)),
        ReadView::Rest(true) => optional_rest_code(c, own, literal::quoted(f.ident)),
        ReadView::Synthetic(s, p) => getter_code(
            c,
            p,
            synth_args_code(key, source_code(s)),
            "derived::get_synth"@,
            "derived::get_synth_or"@,
            "derived::get_synth_opt"@,
            "derived::get_synth_opt_or"@,
        ),
        ReadView::Converted(path, p) => getter_code(
            c,
            p,
            also_code(plain_args_code(key), path),
            "get_with"@,
            "get_with_or"@,
            "get_opt_with"@,
            "derived::get_opt_with_or"@,
        ),
        ReadView::Bytes(p) => getter_code(
            c,
            p,
            plain_args_code(key),
            "get_bytes"@,
            "get_bytes_or"@,
            "get_opt_bytes"@,
            "derived::get_opt_bytes_or"@,
        ),
        ReadView::Value(p) => getter_code(
            c,
            p,
            plain_args_code(key),
            "get"@,
            "get_or"@,
            "get_opt"@,
            "derived::get_opt_or"@,
        ),
    }
}

fn getter_text(
    c: &str,
    p: &Presence,
    args: &str,
    required: &str,
    defaulted: &str,
    optional: &str,
    optional_or: &str,
) -> (r: String)
    ensures
        r@ == getter_code(c@, p@, args@, required@, defaulted@, optional@, optional_or@),
{
    match p {
        Presence::Optional => call_text(c, optional, args),
        Presence::OptionalOr(d) => call_text(
            c,
            optional_or,
            also_text(args, d.as_str()).as_str(),
        ),
        Presence::Needed(Fallback::Required) => call_text(c, required, args),
        Presence::Needed(Fallback::Default) => call_text(
            c,
            defaulted,
            also_text(args, "::core::default::Default::default").as_str(),
        ),
        Presence::Needed(Fallback::Path(d)) => call_text(
            c,
            defaulted,
            also_text(args, d.as_str()).as_str(),
        ),
    }
}

/// The read of a synthetic `@rid` or `@type` property.
pub fn synth_field_let(c: &str, wire: &str, source: &Synth, presence: &Presence) -> (r: String)
    ensures
        r@ == read_code(
            c@,
            FieldPlanView {
                ident: Seq::empty(),
                wire: wire@,
                read: ReadView::Synthetic(*source, presence@),
            },
            Seq::empty(),
        ),
{
    let key = literal::quote(wire);
    let source = match source {
        Synth::Rid => "__arcade_syn_rid",
        Synth::Class => "__arcade_syn_type",
    };
    getter_text(
        c,
        presence,
        synth_args_text(key.as_str(), source).as_str(),
        "derived::get_synth",
        "derived::get_synth_or",
        "derived::get_synth_opt",
        "derived::get_synth_opt_or",
    )
}

/// The expression that reads a field; `own` lists the columns of the struct it stands in.
pub fn field_read(c: &str, f: &FieldPlan, own: &str) -> (r: String)
    ensures
        r@ == read_code(c@, f@, own@),
{
    let key = literal::quote(f.wire.as_str());
    match &f.read {
        ReadPlan::Skipped => "::core::default::Default::default()".to_owned(),
        ReadPlan::Rest { optional } => {
            let field = literal::quote(f.ident.as_str());
            if *optional {
                optional_rest_text(c, own, field.as_str())
            } else {
                rest_text(c, own, field.as_str())
            }
        },
        ReadPlan::Synthetic { source, presence } => synth_field_let(
            c,
            f.wire.as_str(),
            source,
            presence,
        ),
        ReadPlan::Converted { path, presence } => getter_text(
            c,
            presence,
            also_text(plain_args_text(key.as_str()).as_str(), path.as_str()).as_str(),
            "get_with",
            "get_with_or",
            "get_opt_with",
            "derived::get_opt_with_or",
        ),
        ReadPlan::Bytes(presence) => getter_text(
            c,
            presence,
            plain_args_text(key.as_str()).as_str(),
            "get_bytes",
            "get_bytes_or",
            "get_opt_bytes",
            "derived::get_opt_bytes_or",
        ),
        ReadPlan::Value(presence) => getter_text(
            c,
            presence,
            plain_args_text(key.as_str()).as_str(),
            "get",
            "get_or",
            "get_opt",
            "derived::get_opt_or",
        ),
    }
}

/// The bindings of those fields that take the rest, or of those that do not, in order.
pub open spec fn lets_code(
    c: Seq<char>,
    fields: Seq<FieldPlanView>,
    own: Seq<char>,
    rest: bool,
) -> Seq<char>
    decreases fields.len(),
{
    if fields.len() == 0 {
        Seq::empty()
    } else {
        let before = lets_code(c, fields.drop_last(), own, rest);
        let f = fields.last();
        if (f.read is Rest) == rest {
            before + let_code(f.ident, read_code(c, f, own))
        } else {
            before
        }
    }
}

/// The names of the fields, each followed by a comma.
pub open spec fn idents_code(fields: Seq<FieldPlanView>) -> Seq<char>
    decreases fields.len(),
{
    if fields.len() == 0 {
        Seq::empty()
    } else {
        also_code(idents_code(fields.drop_last()) + fields.last().ident, ""@)
    }
}

/// The bindings of those fields that take the rest, or of those that do not, in order.
pub fn field_lets(c: &str, fields: &Vec<FieldPlan>, own: &str, rest: bool) -> (r: String)
    ensures
        r@ == lets_code(c@, decode::field_views(fields@), own@, rest),
{
    let mut out = String::new();
    let ghost all = decode::field_views(fields@);
    assert(all.take(0) =~= Seq::empty());
    for i in 0..fields.len()
        invariant
            all == decode::field_views(fields@),
            out@ == lets_code(c@, all.take(i as int), own@, rest),
    {
        let f = &fields[i];
        assert(all.take(i + 1).drop_last() =~= all.take(i as int));
        assert(all.take(i + 1).last() == f@);
        if matches!(f.read, ReadPlan::Rest { .. }) == rest {
            let expr = field_read(c, f, own);
            out.append(let_text(f.ident.as_str(), expr.as_str()).as_str());
        }
    }
    assert(all.take(all.len() as int) =~= all);
    out
}

fn field_idents(fields: &Vec<FieldPlan>) -> (r: String)
    ensures
        r@ == idents_code(decode::field_views(fields@)),
{
    let mut out = String::new();
    let ghost all = decode::field_views(fields@);
    assert(all.take(0) =~= Seq::empty());
    for i in 0..fields.len()
        invariant
            all == decode::field_views(fields@),
            out@ == idents_code(all.take(i as int)),
    {
        assert(all.take(i + 1).drop_last() =~= all.take(i as int));
        assert(all.take(i + 1).last() == fields@[i as int]@);
        out.append(fields[i].ident.as_str());
        out = also_text(out.as_str(), "");
    }
    assert(all.take(all.len() as int) =~= all);
    out
}

// ---------------------------------------------------------------------------
// Impls
// ---------------------------------------------------------------------------

/// What a struct says of its columns.
pub open spec fn columns_code(
    inherent: Seq<char>,
    self_ty: Seq<char>,
    wires: Seq<char>,
    kinds: Seq<char>,
    select: Seq<char>,
) -> Seq<char> {
    "impl"@ + inherent + " "@ + self_ty + " {\npub const WIRES: &'static [&'static str] = &["@
        + wires + "];\npub const WIRE_KINDS: &'static [(&'static str, &'static str)] = &["@
        + kinds + "];\npub fn select_list() -> &'static str { "@ + select + " }\n}\n"@
}

fn columns_text(
    inherent: &str,
    self_ty: &str,
    wires: &str,
    kinds: &str,
    select: &str,
) -> (r: String)
    ensures
        r@ == columns_code(inherent@, self_ty@, wires@, kinds@, select@),
{
    let mut s = "impl".to_owned();
    s.append(inherent);
    s.append(" ");
    s.append(self_ty);
    s.append(" {\npub const WIRES: &'static [&'static str] = &[");
    s.append(wires);
    s.append("];\npub const WIRE_KINDS: &'static [(&'static str, &'static str)] = &[");
    s.append(kinds);
    s.append("];\npub fn select_list() -> &'static str { ");
    s.append(select);
    s.append(" }\n}\n");
    s
}

/// Decoding from a property map.
pub open spec fn from_map_code(
    c: Seq<char>,
    clause: Seq<char>,
    lt: Seq<char>,
    self_ty: Seq<char>,
    body: Seq<char>,
) -> Seq<char> {
    "impl"@ + clause + " "@ + c + "::record::DecodeFromMap<"@ + lt + "> for "@ + self_ty
        + " {\nfn from_map(__arcade_props: &"@ + lt + " "@ + c + "::PropMap<"@ + c
        + "::GrpcValue>, __arcade_taken: &[&str], __arcade_syn_rid: ::core::option::Option<&"@
        + lt + " ::std::string::String>, __arcade_syn_type: ::core::option::Option<&"@ + lt
        + " ::std::string::String>) -> ::core::result::Result<Self, "@ + c
        + "::record::RecordDecodeError> {\n"@ + body + "}\n}\n"@
}

fn from_map_text(c: &str, clause: &str, lt: &str, self_ty: &str, body: &str) -> (r: String)
    ensures
        r@ == from_map_code(c@, clause@, lt@, self_ty@, body@),
{
    let mut s = "impl".to_owned();
    s.append(clause);
    s.append(" ");
    s.append(c);
    s.append("::record::DecodeFromMap<");
    s.append(lt);
    s.append("> for ");
    s.append(self_ty);
    s.append(" {\nfn from_map(__arcade_props: &");
    s.append(lt);
    s.append(" ");
    s.append(c);
    s.append("::PropMap<");
    s.append(c);
    s.append("::GrpcValue>, __arcade_taken: &[&str], __arcade_syn_rid: ::core::option::Option<&");
    s.append(lt);
    s.append(" ::std::string::String>, __arcade_syn_type: ::core::option::Option<&");
    s.append(lt);
    s.append(" ::std::string::String>) -> ::core::result::Result<Self, ");
    s.append(c);
    s.append("::record::RecordDecodeError> {\n");
    s.append(body);
    s.append("}\n}\n");
    s
}

/// Decoding from a value.
pub open spec fn from_value_code(
    c: Seq<char>,
    clause: Seq<char>,
    lt: Seq<char>,
    self_ty: Seq<char>,
    body: Seq<char>,
) -> Seq<char> {
    "impl"@ + clause + " "@ + c + "::record::FromGrpcValue<"@ + lt + "> for "@ + self_ty
        + " {\nfn from_grpc_value(__arcade_v: &"@ + lt + " "@ + c
        + "::GrpcValue) -> ::core::result::Result<Self, "@ + c
        + "::record::RecordDecodeError> {\n"@ + body + "}\n}\n"@
}

fn from_value_text(c: &str, clause: &str, lt: &str, self_ty: &str, body: &str) -> (r: String)
    ensures
        r@ == from_value_code(c@, clause@, lt@, self_ty@, body@),
{
    let mut s = "impl".to_owned();
    s.append(clause);
    s.append(" ");
    s.append(c);
    s.append("::record::FromGrpcValue<");
    s.append(lt);
    s.append("> for ");
    s.append(self_ty);
    s.append(" {\nfn from_grpc_value(__arcade_v: &");
    s.append(lt);
    s.append(" ");
    s.append(c);
    s.append("::GrpcValue) -> ::core::result::Result<Self, ");
    s.append(c);
    s.append("::record::RecordDecodeError> {\n");
    s.append(body);
    s.append("}\n}\n");
    s
}

/// A value decodes from its properties; `expected` is a literal for the error.
pub open spec fn via_map_code(c: Seq<char>, lt: Seq<char>, expected: Seq<char>) -> Seq<char> {
    "<Self as "@ + c + "::record::DecodeFromMap<"@ + lt + ">>::from_map("@ + c
        + "::record::derived::record_fields(__arcade_v, "@ + expected
        + ")?, &[], ::core::option::Option::None, ::core::option::Option::None)\n"@
}

fn via_map_text(c: &str, lt: &str, expected: &str) -> (r: String)
    ensures
        r@ == via_map_code(c@, lt@, expected@),
{
    let mut s = "<Self as ".to_owned();
    s.append(c);
    s.append("::record::DecodeFromMap<");
    s.append(lt);
    s.append(">>::from_map(");
    s.append(c);
    s.append("::record::derived::record_fields(__arcade_v, ");
    s.append(expected);
    s.append(")?, &[], ::core::option::Option::None, ::core::option::Option::None)\n");
    s
}

/// Decoding from a borrowed record, with its metadata behind `@rid` and `@type`.
pub open spec fn from_record_code(
    c: Seq<char>,
    clause: Seq<char>,
    lt: Seq<char>,
    self_ty: Seq<char>,
) -> Seq<char> {
    "impl"@ + clause + " ::core::convert::TryFrom<&"@ + lt + " "@ + c + "::GrpcRecord> for "@
        + self_ty + " {\ntype Error = "@ + c + "::record::RecordDecodeError;\nfn try_from(rec: &"@
        + lt + " "@ + c
        + "::GrpcRecord) -> ::core::result::Result<Self, Self::Error> {\n<Self as "@ + c
        + "::record::DecodeFromMap<"@ + lt + ">>::from_map(&rec.properties, &[], "@ + c
        + "::record::derived::rid_of(rec), "@ + c + "::record::derived::class_of(rec))\n}\n}\n"@
}

fn from_record_text(c: &str, clause: &str, lt: &str, self_ty: &str) -> (r: String)
    ensures
        r@ == from_record_code(c@, clause@, lt@, self_ty@),
{
    let mut s = "impl".to_owned();
    s.append(clause);
    s.append(" ::core::convert::TryFrom<&");
    s.append(lt);
    s.append(" ");
    s.append(c);
    s.append("::GrpcRecord> for ");
    s.append(self_ty);
    s.append(" {\ntype Error = ");
    s.append(c);
    s.append("::record::RecordDecodeError;\nfn try_from(rec: &");
    s.append(lt);
    s.append(" ");
    s.append(c);
    s.append("::GrpcRecord) -> ::core::result::Result<Self, Self::Error> {\n<Self as ");
    s.append(c);
    s.append("::record::DecodeFromMap<");
    s.append(lt);
    s.append(">>::from_map(&rec.properties, &[], ");
    s.append(c);
    s.append("::record::derived::rid_of(rec), ");
    s.append(c);
    s.append("::record::derived::class_of(rec))\n}\n}\n");
    s
}

/// Decoding from an owned record.
pub open spec fn from_owned_code(c: Seq<char>, self_ty: Seq<char>) -> Seq<char> {
    "impl ::core::convert::TryFrom<"@ + c + "::GrpcRecord> for "@ + self_ty + " {\ntype Error = "@
        + c + "::record::RecordDecodeError;\nfn try_from(rec: "@ + c
        + "::GrpcRecord) -> ::core::result::Result<Self, Self::Error> { Self::try_from(&rec) }\n}\n"@
}

fn from_owned_text(c: &str, self_ty: &str) -> (r: String)
    ensures
        r@ == from_owned_code(c@, self_ty@),
{
    let mut s = "impl ::core::convert::TryFrom<".to_owned();
    s.append(c);
    s.append("::GrpcRecord> for ");
    s.append(self_ty);
    s.append(" {\ntype Error = ");
    s.append(c);
    s.append("::record::RecordDecodeError;\nfn try_from(rec: ");
    s.append(c);
    s.append("::GrpcRecord) -> ::core::result::Result<Self, Self::Error> { Self::try_from(&rec) }\n}\n");
    s
}

/// The bindings, and the value that they make up.
pub open spec fn build_code(
    lets: Seq<char>,
    rest: Seq<char>,
    target: Seq<char>,
    idents: Seq<char>,
) -> Seq<char> {
    lets + rest + "::core::result::Result::Ok("@ + target + " { "@ + idents + "})\n"@
}

fn build_text(lets: &str, rest: &str, target: &str, idents: &str) -> (r: String)
    ensures
        r@ == build_code(lets@, rest@, target@, idents@),
{
    let mut s = lets.to_owned();
    s.append(rest);
    s.append("::core::result::Result::Ok(");
    s.append(target);
    s.append(" { ");
    s.append(idents);
    s.append("})\n");
    s
}

/// A newtype decodes as its field.
pub open spec fn wrap_code(c: Seq<char>, name: Seq<char>) -> Seq<char> {
    "::core::result::Result::Ok("@ + name + "("@ + c
        + "::record::FromGrpcValue::from_grpc_value(__arcade_v)?))\n"@
}

fn wrap_text(c: &str, name: &str) -> (r: String)
    ensures
        r@ == wrap_code(c@, name@),
{
    let mut s = "::core::result::Result::Ok(".to_owned();
    s.append(name);
    s.append("(");
    s.append(c);
    s.append("::record::FromGrpcValue::from_grpc_value(__arcade_v)?))\n");
    s
}

/// The choice of a variant by its wire name.
pub open spec fn choose_variant_code(c: Seq<char>, tag: Seq<char>, arms: Seq<char>) -> Seq<char> {
    "match "@ + tag + " {\n"@ + arms + "__other => ::core::result::Result::Err("@ + c
        + "::record::RecordDecodeError::unknown_variant(__other)),\n}\n"@
}

fn choose_variant_text(c: &str, tag: &str, arms: &str) -> (r: String)
    ensures
        r@ == choose_variant_code(c@, tag@, arms@),
{
    let mut s = "match ".to_owned();
    s.append(tag);
    s.append(" {\n");
    s.append(arms);
    s.append("__other => ::core::result::Result::Err(");
    s.append(c);
    s.append("::record::RecordDecodeError::unknown_variant(__other)),\n}\n");
    s
}

/// The wire name that a string value holds.
pub open spec fn value_tag_code(c: Seq<char>) -> Seq<char> {
    c + "::record::derived::variant_text(__arcade_v)?"@
}

fn value_tag_text(c: &str) -> (r: String)
    ensures
        r@ == value_tag_code(c@),
{
    let mut s = c.to_owned();
    s.append("::record::derived::variant_text(__arcade_v)?");
    s
}

/// The wire name under the discriminator `tag`, a literal.
pub open spec fn map_tag_code(c: Seq<char>, tag: Seq<char>) -> Seq<char> {
    c + "::record::derived::variant_tag(__arcade_props, "@ + tag + ", __arcade_taken)?"@
}

fn map_tag_text(c: &str, tag: &str) -> (r: String)
    ensures
        r@ == map_tag_code(c@, tag@),
{
    let mut s = c.to_owned();
    s.append("::record::derived::variant_tag(__arcade_props, ");
    s.append(tag);
    s.append(", __arcade_taken)?");
    s
}

/// The arm of a unit variant.
pub open spec fn unit_arm_code(wire: Seq<char>, ident: Seq<char>) -> Seq<char> {
    wire + " => ::core::result::Result::Ok(Self::"@ + ident + "),\n"@
}

fn unit_arm_text(wire: &str, ident: &str) -> (r: String)
    ensures
        r@ == unit_arm_code(wire@, ident@),
{
    let mut s = wire.to_owned();
    s.append(" => ::core::result::Result::Ok(Self::");
    s.append(ident);
    s.append("),\n");
    s
}

/// The arm of a struct variant.
pub open spec fn data_arm_code(wire: Seq<char>, body: Seq<char>) -> Seq<char> {
    wire + " => {\n"@ + body + "}\n"@
}

fn data_arm_text(wire: &str, body: &str) -> (r: String)
    ensures
        r@ == data_arm_code(wire@, body@),
{
    let mut s = wire.to_owned();
    s.append(" => {\n");
    s.append(body);
    s.append("}\n");
    s
}

/// The path of a variant.
pub open spec fn variant_path_code(ident: Seq<char>) -> Seq<char> {
    "Self::"@ + ident
}

fn variant_path_text(ident: &str) -> (r: String)
    ensures
        r@ == variant_path_code(ident@),
{
    let mut s = "Self::".to_owned();
    s.append(ident);
    s
}

/// The arms of an enum's variants, in order.
pub open spec fn arms_code(c: Seq<char>, variants: Seq<VariantPlanView>) -> Seq<char>
    decreases variants.len(),
{
    if variants.len() == 0 {
        Seq::empty()
    } else {
        arms_code(c, variants.drop_last()) + arm_code(c, variants.last())
    }
}

pub open spec fn arm_code(c: Seq<char>, v: VariantPlanView) -> Seq<char> {
    match v.fields {
        None => unit_arm_code(literal::quoted(v.wire), v.ident),
        Some(fields) => data_arm_code(
            literal::quoted(v.wire),
            build_code(
                lets_code(c, fields, Seq::empty(), false),
                lets_code(c, fields, Seq::empty(), true),
                variant_path_code(v.ident),
                idents_code(fields),
            ),
        ),
    }
}

/// The impls of a struct with named fields.
pub open spec fn struct_code(c: Seq<char>, s: StructView, b: BorrowView) -> Seq<char> {
    let own = literal::list(s.wires);
    let body = build_code(
        lets_code(c, s.fields, own, false),
        lets_code(c, s.fields, own, true),
        "Self"@,
        idents_code(s.fields),
    );
    columns_code(
        b.inherent_clause,
        b.self_ty,
        own,
        literal::pairs(s.wire_kinds),
        literal::quoted(text::joined(s.wires, ", "@)),
    ) + from_map_code(c, b.clause, b.lt, b.self_ty, body) + from_value_code(
        c,
        b.clause,
        b.lt,
        b.self_ty,
        via_map_code(c, b.lt, "\"embedded record\""@),
    ) + from_record_code(c, b.clause, b.lt, b.self_ty) + if b.owned_try_from {
        from_owned_code(c, b.self_ty)
    } else {
        ""@
    }
}

/// The impls of an enum of unit variants.
pub open spec fn units_code(c: Seq<char>, variants: Seq<VariantPlanView>, b: BorrowView) -> Seq<
    char,
> {
    from_value_code(
        c,
        b.clause,
        b.lt,
        b.self_ty,
        choose_variant_code(c, value_tag_code(c), arms_code(c, variants)),
    )
}

/// The impls of an internally tagged enum.
pub open spec fn tagged_code(
    c: Seq<char>,
    tag: Seq<char>,
    variants: Seq<VariantPlanView>,
    b: BorrowView,
) -> Seq<char> {
    from_value_code(c, b.clause, b.lt, b.self_ty, via_map_code(c, b.lt, "\"record/map\""@))
        + from_map_code(
        c,
        b.clause,
        b.lt,
        b.self_ty,
        choose_variant_code(c, map_tag_code(c, literal::quoted(tag)), arms_code(c, variants)),
    )
}

/// What the decode derive emits for the type `name`.
pub open spec fn decode_code(name: Seq<char>, d: DecodeDeriveView) -> Seq<char> {
    let c = d.crate_path;
    let b = borrowing(name, d.lifetime);
    match d.plan {
        DecodeView::Struct(s) => struct_code(c, s, b),
        DecodeView::Newtype => from_value_code(c, b.clause, b.lt, b.self_ty, wrap_code(c, name)),
        DecodeView::Nothing => Seq::empty(),
        DecodeView::Units(variants) => units_code(c, variants, b),
        DecodeView::Tagged(tag, variants) => tagged_code(c, tag, variants, b),
    }
}

/// The bindings of a struct variant's fields, and the variant that they make up.
pub fn variant_field_lets(c: &str, ident: &str, fields: &Vec<FieldPlan>) -> (r: String)
    ensures
        r@ == build_code(
            lets_code(c@, decode::field_views(fields@), Seq::empty(), false),
            lets_code(c@, decode::field_views(fields@), Seq::empty(), true),
            variant_path_code(ident@),
            idents_code(decode::field_views(fields@)),
        ),
{
    let none = String::new();
    build_text(
        field_lets(c, fields, none.as_str(), false).as_str(),
        field_lets(c, fields, none.as_str(), true).as_str(),
        variant_path_text(ident).as_str(),
        field_idents(fields).as_str(),
    )
}

fn variant_arm(c: &str, v: &VariantPlan) -> (r: String)
    ensures
        r@ == arm_code(c@, v@),
{
    let wire = literal::quote(v.wire.as_str());
    match &v.fields {
        None => unit_arm_text(wire.as_str(), v.ident.as_str()),
        Some(fields) => {
            let body = variant_field_lets(c, v.ident.as_str(), fields);
            data_arm_text(wire.as_str(), body.as_str())
        },
    }
}

fn variant_arms(c: &str, variants: &Vec<VariantPlan>) -> (r: String)
    ensures
        r@ == arms_code(c@, decode::variant_views(variants@)),
{
    let mut out = String::new();
    let ghost all = decode::variant_views(variants@);
    assert(all.take(0) =~= Seq::empty());
    for i in 0..variants.len()
        invariant
            all == decode::variant_views(variants@),
            out@ == arms_code(c@, all.take(i as int)),
    {
        assert(all.take(i + 1).drop_last() =~= all.take(i as int));
        assert(all.take(i + 1).last() == variants@[i as int]@);
        out.append(variant_arm(c, &variants[i]).as_str());
    }
    assert(all.take(all.len() as int) =~= all);
    out
}

/// The impls of a struct with named fields.
pub fn expand_struct(c: &str, s: &StructPlan, b: &BorrowCfg) -> (r: String)
    ensures
        r@ == struct_code(c@, s@, b@),
{
    let clause = b.clause.as_str();
    let self_ty = b.self_ty.as_str();
    let lt = b.lt.as_str();
    let own = literal::quote_list(&s.wires);
    let kinds = literal::quote_pairs(&s.wire_kinds);
    let select = literal::quote(s.select_list().as_str());
    let body = build_text(
        field_lets(c, &s.fields, own.as_str(), false).as_str(),
        field_lets(c, &s.fields, own.as_str(), true).as_str(),
        "Self",
        field_idents(&s.fields).as_str(),
    );
    let mut out = columns_text(
        b.inherent_clause.as_str(),
        self_ty,
        own.as_str(),
        kinds.as_str(),
        select.as_str(),
    );
    out.append(from_map_text(c, clause, lt, self_ty, body.as_str()).as_str());
    let via = via_map_text(c, lt, "\"embedded record\"");
    out.append(from_value_text(c, clause, lt, self_ty, via.as_str()).as_str());
    out.append(from_record_text(c, clause, lt, self_ty).as_str());
    if b.owned_try_from {
        out.append(from_owned_text(c, self_ty).as_str());
    } else {
        out.append("");
    }
    out
}

/// The impl of a newtype.
pub fn expand_tuple_struct(c: &str, name: &str, b: &BorrowCfg) -> (r: String)
    ensures
        r@ == from_value_code(c@, b@.clause, b@.lt, b@.self_ty, wrap_code(c@, name@)),
{
    from_value_text(
        c,
        b.clause.as_str(),
        b.lt.as_str(),
        b.self_ty.as_str(),
        wrap_text(c, name).as_str(),
    )
}

/// The impl of an enum of unit variants.
pub fn expand_enum(c: &str, variants: &Vec<VariantPlan>, b: &BorrowCfg) -> (r: String)
    ensures
        r@ == units_code(c@, decode::variant_views(variants@), b@),
{
    let arms = variant_arms(c, variants);
    from_value_text(
        c,
        b.clause.as_str(),
        b.lt.as_str(),
        b.self_ty.as_str(),
        choose_variant_text(c, value_tag_text(c).as_str(), arms.as_str()).as_str(),
    )
}

/// The impls of an internally tagged enum: from a value, and from the map of a parent that it
/// is flattened into.
pub fn expand_internally_tagged_enum(
    c: &str,
    tag: &str,
    variants: &Vec<VariantPlan>,
    b: &BorrowCfg,
) -> (r: String)
    ensures
        r@ == tagged_code(c@, tag@, decode::variant_views(variants@), b@),
{
    let clause = b.clause.as_str();
    let self_ty = b.self_ty.as_str();
    let lt = b.lt.as_str();
    let arms = variant_arms(c, variants);
    let chosen = map_tag_text(c, literal::quote(tag).as_str());
    let body = choose_variant_text(c, chosen.as_str(), arms.as_str());
    let via = via_map_text(c, lt, "\"record/map\"");
    let mut out = from_value_text(c, clause, lt, self_ty, via.as_str());
    out.append(from_map_text(c, clause, lt, self_ty, body.as_str()).as_str());
    out
}

fn emit(name: &str, d: &DecodeDerive) -> (r: String)
    ensures
        r@ == decode_code(name@, d@),
{
    let c = d.crate_path.as_str();
    let b = borrow_cfg(name, &d.lifetime);
    match &d.plan {
        DecodePlan::Struct(s) => expand_struct(c, s, &b),
        DecodePlan::Newtype => expand_tuple_struct(c, name, &b),
        DecodePlan::Nothing => String::new(),
        DecodePlan::Units(variants) => expand_enum(c, variants, &b),
        DecodePlan::Tagged { tag, variants } => expand_internally_tagged_enum(
            c,
            tag.as_str(),
            variants,
            &b,
        ),
    }
}

/// The whole decode derive: from a declaration to the impls it gets, or to what is wrong with
/// it.
pub fn expand_derive(row: &RowType) -> (r: Result<String, DeriveError>)
    ensures
        match (r, decode::decode_plan(*row)) {
            (Ok(out), Ok(d)) => out@ == decode_code(row.ident@, d),
            (Err(e), Err(p)) => e.reports(p),
            _ => false,
        },
{
    let d = decode::plan_decode(row)?;
    Ok(emit(row.ident.as_str(), &d))
}

} // verus!
