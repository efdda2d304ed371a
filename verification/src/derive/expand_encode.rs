//! The source text that the encode derive emits: the write of each field, the comparison of
//! two snapshots, and the impl around them.

use vstd::prelude::*;
use vstd::string::*;
use crate::text;
use crate::derive::encode;
use crate::derive::encode::{
    DiffPlan, DiffView, EncodeDerive, EncodeDeriveView, EncodeField, EncodeFieldView, EncodePlan,
    EncodeStruct, EncodeVariant, EncodeVariantField, EncodeVariantView,
    EncodeView, SourceView, ValueSource, VariantFieldView, When, WhenView, WritePlan, WriteView,
};
use crate::derive::input::{DeriveError, RowType};
use crate::derive::literal;

verus! {

// ---------------------------------------------------------------------------
// Writes
// ---------------------------------------------------------------------------

/// One named value more in the list `out`.
pub open spec fn pair_code(out: Seq<char>, key: Seq<char>, value: Seq<char>) -> Seq<char> {
    out + ".push(("@ + key + ", "@ + value + "));\n"@
}

fn pair_text(out: &str, key: &str, value: &str) -> (r: String)
    ensures
        r@ == pair_code(out@, key@, value@),
{
    let mut s = out.to_owned();
    s.append(".push((");
    s.append(key);
    s.append(", ");
    s.append(value);
    s.append("));\n");
    s
}

/// A statement for the value of an optional, if there is one.
pub open spec fn if_some_code(subject: Seq<char>, inner: Seq<char>) -> Seq<char> {
    "if let ::core::option::Option::Some(__arcade_f) = "@ + subject + " {\n"@ + inner + "}\n"@
}

fn if_some_text(subject: &str, inner: &str) -> (r: String)
    ensures
        r@ == if_some_code(subject@, inner@),
{
    let mut s = "if let ::core::option::Option::Some(__arcade_f) = ".to_owned();
    s.append(subject);
    s.append(" {\n");
    s.append(inner);
    s.append("}\n");
    s
}

/// A statement unless the predicate at `pred` holds.
pub open spec fn unless_code(pred: Seq<char>, arg: Seq<char>, inner: Seq<char>) -> Seq<char> {
    "if !"@ + pred + "("@ + arg + ") {\n"@ + inner + "}\n"@
}

fn unless_text(pred: &str, arg: &str, inner: &str) -> (r: String)
    ensures
        r@ == unless_code(pred@, arg@, inner@),
{
    let mut s = "if !".to_owned();
    s.append(pred);
    s.append("(");
    s.append(arg);
    s.append(") {\n");
    s.append(inner);
    s.append("}\n");
    s
}

/// A statement unless the predicate, if there is one, holds.
pub open spec fn guarded_code(
    unless: Option<Seq<char>>,
    arg: Seq<char>,
    inner: Seq<char>,
) -> Seq<char> {
    match unless {
        None => inner,
        Some(pred) => unless_code(pred, arg, inner),
    }
}

fn guarded_text(unless: &Option<String>, arg: &str, inner: String) -> (r: String)
    ensures
        r@ == guarded_code(text::optional(*unless), arg@, inner@),
{
    match unless {
        None => inner,
        Some(pred) => unless_text(pred.as_str(), arg, inner.as_str()),
    }
}

/// A call of the conversion at `path`.
pub open spec fn convert_code(path: Seq<char>, arg: Seq<char>) -> Seq<char> {
    path + "("@ + arg + ")"@
}

fn convert_text(path: &str, arg: &str) -> (r: String)
    ensures
        r@ == convert_code(path@, arg@),
{
    let mut s = path.to_owned();
    s.append("(");
    s.append(arg);
    s.append(")");
    s
}

/// The named values of a nested record.
pub open spec fn splice_code(c: Seq<char>, out: Seq<char>, arg: Seq<char>) -> Seq<char> {
    out + ".extend("@ + c + "::record::ToGrpcRecord::props("@ + arg + "));\n"@
}

fn splice_text(c: &str, out: &str, arg: &str) -> (r: String)
    ensures
        r@ == splice_code(c@, out@, arg@),
{
    let mut s = out.to_owned();
    s.append(".extend(");
    s.append(c);
    s.append("::record::ToGrpcRecord::props(");
    s.append(arg);
    s.append("));\n");
    s
}

/// The write of one field into the list `out`. `borrowed` is a reference to the field, and
/// `subject` what an optional is taken apart from.
pub open spec fn write_code(
    c: Seq<char>,
    out: Seq<char>,
    key: Seq<char>,
    w: WriteView,
    borrowed: Seq<char>,
    subject: Seq<char>,
) -> Seq<char> {
    match w {
        WriteView::Skipped => ""@,
        WriteView::Spliced(optional, unless) => guarded_code(
            unless,
            borrowed,
            if optional {
                if_some_code(borrowed, splice_code(c, out, "__arcade_f"@))
            } else {
                splice_code(c, out, borrowed)
            },
        ),
        WriteView::Written(source, when) => {
            let optional = when is IfSome || when is IfSomeUnless;
            let value = match source {
                SourceView::Converted(path) => convert_code(
                    path,
                    if optional {
                        "__arcade_f"@
                    } else {
                        borrowed
                    },
                ),
                SourceView::Code(s) => s,
            };
            let push = pair_code(out, key, value);
            let inner = if optional {
                if_some_code(
                    if source is Converted {
                        borrowed
                    } else {
                        subject
                    },
                    push,
                )
            } else {
                push
            };
            match when {
                WhenView::Always | WhenView::IfSome => inner,
                WhenView::Unless(pred) | WhenView::IfSomeUnless(pred) => unless_code(
                    pred,
                    borrowed,
                    inner,
                ),
            }
        },
    }
}

fn write_text(
    c: &str,
    out: &str,
    key: &str,
    w: &WritePlan,
    borrowed: &str,
    subject: &str,
) -> (r: String)
    ensures
        r@ == write_code(c@, out@, key@, w@, borrowed@, subject@),
{
    match w {
        WritePlan::Skipped => "".to_owned(),
        WritePlan::Spliced { optional, unless } => {
            let inner = if *optional {
                if_some_text(borrowed, splice_text(c, out, "__arcade_f").as_str())
            } else {
                splice_text(c, out, borrowed)
            };
            guarded_text(unless, borrowed, inner)
        },
        WritePlan::Written { value, when } => {
            let optional = matches!(when, When::IfSome | When::IfSomeUnless(_));
            let (converted, code) = match value {
                ValueSource::Converted(path) => (
                    true,
                    convert_text(
                        path.as_str(),
                        if optional {
                            "__arcade_f"
                        } else {
                            borrowed
                        },
                    ),
                ),
                ValueSource::Code(s) => (false, s.clone()),
            };
            let push = pair_text(out, key, code.as_str());
            let inner = if optional {
                if_some_text(
                    if converted {
                        borrowed
                    } else {
                        subject
                    },
                    push.as_str(),
                )
            } else {
                push
            };
            match when {
                When::Always => inner,
                When::IfSome => inner,
                When::Unless(pred) => unless_text(pred.as_str(), borrowed, inner.as_str()),
                When::IfSomeUnless(pred) => unless_text(pred.as_str(), borrowed, inner.as_str()),
            }
        },
    }
}

/// The field of the row itself.
pub open spec fn own_code(ident: Seq<char>) -> Seq<char> {
    "self."@ + ident
}

fn own_text(ident: &str) -> (r: String)
    ensures
        r@ == own_code(ident@),
{
    let mut s = "self.".to_owned();
    s.append(ident);
    s
}

/// A reference to the field of the row.
pub open spec fn own_ref_code(ident: Seq<char>) -> Seq<char> {
    "&self."@ + ident
}

fn own_ref_text(ident: &str) -> (r: String)
    ensures
        r@ == own_ref_code(ident@),
{
    let mut s = "&self.".to_owned();
    s.append(ident);
    s
}

/// The field of the other row.
pub open spec fn theirs_code(ident: Seq<char>) -> Seq<char> {
    "other."@ + ident
}

fn theirs_text(ident: &str) -> (r: String)
    ensures
        r@ == theirs_code(ident@),
{
    let mut s = "other.".to_owned();
    s.append(ident);
    s
}

/// A reference to the field of the other row.
pub open spec fn theirs_ref_code(ident: Seq<char>) -> Seq<char> {
    "&other."@ + ident
}

fn theirs_ref_text(ident: &str) -> (r: String)
    ensures
        r@ == theirs_ref_code(ident@),
{
    let mut s = "&other.".to_owned();
    s.append(ident);
    s
}

/// The write of a struct's field by the borrowing encoder.
pub open spec fn push_code(c: Seq<char>, f: EncodeFieldView) -> Seq<char> {
    write_code(
        c,
        "__out"@,
        literal::quoted(f.wire),
        f.write,
        own_ref_code(f.ident),
        own_ref_code(f.ident),
    )
}

/// The write of a struct's field by the encoder that consumes the row.
pub open spec fn move_code(c: Seq<char>, f: EncodeFieldView) -> Seq<char> {
    write_code(
        c,
        "__out"@,
        literal::quoted(f.wire),
        f.moved,
        own_ref_code(f.ident),
        own_code(f.ident),
    )
}

/// The write of a variant's field, which its pattern binds to a reference.
pub open spec fn variant_pair_code(c: Seq<char>, f: VariantFieldView) -> Seq<char> {
    write_code(c, "__arcade_pairs"@, literal::quoted(f.wire), f.write, f.ident, f.ident)
}

/// The write of a struct's field by the borrowing encoder.
pub fn encode_field_push(c: &str, f: &EncodeField) -> (r: String)
    ensures
        r@ == push_code(c@, f@),
{
    let key = literal::quote(f.wire.as_str());
    let borrowed = own_ref_text(f.ident.as_str());
    write_text(c, "__out", key.as_str(), &f.write, borrowed.as_str(), borrowed.as_str())
}

/// The write of a struct's field by the encoder that consumes the row.
pub fn encode_field_push_move(c: &str, f: &EncodeField) -> (r: String)
    ensures
        r@ == move_code(c@, f@),
{
    let key = literal::quote(f.wire.as_str());
    let borrowed = own_ref_text(f.ident.as_str());
    let subject = own_text(f.ident.as_str());
    write_text(c, "__out", key.as_str(), &f.moved, borrowed.as_str(), subject.as_str())
}

// ---------------------------------------------------------------------------
// Differences
// ---------------------------------------------------------------------------

/// Two expressions differ.
pub open spec fn differ_code(a: Seq<char>, b: Seq<char>) -> Seq<char> {
    a + " != "@ + b
}

fn differ_text(a: &str, b: &str) -> (r: String)
    ensures
        r@ == differ_code(a@, b@),
{
    let mut s = a.to_owned();
    s.append(" != ");
    s.append(b);
    s
}

/// The new value is there, and `cond` holds.
pub open spec fn present_code(theirs: Seq<char>, cond: Seq<char>) -> Seq<char> {
    theirs + ".is_some() && "@ + cond
}

fn present_text(theirs: &str, cond: &str) -> (r: String)
    ensures
        r@ == present_code(theirs@, cond@),
{
    let mut s = theirs.to_owned();
    s.append(".is_some() && ");
    s.append(cond);
    s
}

/// The converted value of an optional.
pub open spec fn mapped_code(subject: Seq<char>, path: Seq<char>) -> Seq<char> {
    subject + ".as_ref().map(|__arcade_f| "@ + path + "(__arcade_f))"@
}

fn mapped_text(subject: &str, path: &str) -> (r: String)
    ensures
        r@ == mapped_code(subject@, path@),
{
    let mut s = subject.to_owned();
    s.append(".as_ref().map(|__arcade_f| ");
    s.append(path);
    s.append("(__arcade_f))");
    s
}

/// The column is written by the new snapshot, and `cond` holds.
pub open spec fn written_code(pred: Seq<char>, arg: Seq<char>, cond: Seq<char>) -> Seq<char> {
    "!"@ + pred + "("@ + arg + ") && ("@ + cond + ")"@
}

fn written_text(pred: &str, arg: &str, cond: &str) -> (r: String)
    ensures
        r@ == written_code(pred@, arg@, cond@),
{
    let mut s = "!".to_owned();
    s.append(pred);
    s.append("(");
    s.append(arg);
    s.append(") && (");
    s.append(cond);
    s.append(")");
    s
}

/// The column is noted as changed where `cond` holds.
pub open spec fn note_code(cond: Seq<char>, key: Seq<char>) -> Seq<char> {
    "if "@ + cond + " {\n__arcade_changed.push("@ + key + ".to_string());\n}\n"@
}

fn note_text(cond: &str, key: &str) -> (r: String)
    ensures
        r@ == note_code(cond@, key@),
{
    let mut s = "if ".to_owned();
    s.append(cond);
    s.append(" {\n__arcade_changed.push(");
    s.append(key);
    s.append(".to_string());\n}\n");
    s
}

/// The changed columns of a nested record.
pub open spec fn nested_code(c: Seq<char>, ident: Seq<char>) -> Seq<char> {
    "__arcade_changed.extend("@ + c + "::record::ToGrpcRecord::changed_wires(&self."@ + ident
        + ", &other."@ + ident + "));\n"@
}

fn nested_text(c: &str, ident: &str) -> (r: String)
    ensures
        r@ == nested_code(c@, ident@),
{
    let mut s = "__arcade_changed.extend(".to_owned();
    s.append(c);
    s.append("::record::ToGrpcRecord::changed_wires(&self.");
    s.append(ident);
    s.append(", &other.");
    s.append(ident);
    s.append("));\n");
    s
}

/// The changed columns of an optional nested record.
pub open spec fn optional_nested_code(c: Seq<char>, ident: Seq<char>) -> Seq<char> {
    "if let ::core::option::Option::Some(__arcade_n) = &other."@ + ident + " {\nmatch &self."@
        + ident + " {\n::core::option::Option::Some(__arcade_o) => __arcade_changed.extend("@ + c
        + "::record::ToGrpcRecord::changed_wires(__arcade_o, __arcade_n)),\n::core::option::Option::None => __arcade_changed.extend("@
        + c
        + "::record::ToGrpcRecord::props(__arcade_n).into_iter().map(|(__arcade_k, _)| __arcade_k.to_string())),\n}\n}\n"@
}

fn optional_nested_text(c: &str, ident: &str) -> (r: String)
    ensures
        r@ == optional_nested_code(c@, ident@),
{
    let mut s = "if let ::core::option::Option::Some(__arcade_n) = &other.".to_owned();
    s.append(ident);
    s.append(" {\nmatch &self.");
    s.append(ident);
    s.append(" {\n::core::option::Option::Some(__arcade_o) => __arcade_changed.extend(");
    s.append(c);
    s.append("::record::ToGrpcRecord::changed_wires(__arcade_o, __arcade_n)),\n::core::option::Option::None => __arcade_changed.extend(");
    s.append(c);
    s.append("::record::ToGrpcRecord::props(__arcade_n).into_iter().map(|(__arcade_k, _)| __arcade_k.to_string())),\n}\n}\n");
    s
}

/// The condition under which a compared field counts as changed, apart from its predicate.
pub open spec fn change_code(
    ident: Seq<char>,
    converted: Option<Seq<char>>,
    optional: bool,
) -> Seq<char> {
    let mine = own_code(ident);
    let theirs = theirs_code(ident);
    match converted {
        None => if optional {
            present_code(theirs, differ_code(mine, theirs))
        } else {
            differ_code(mine, theirs)
        },
        Some(path) => if optional {
            present_code(
                theirs,
                differ_code(mapped_code(mine, path), mapped_code(theirs, path)),
            )
        } else {
            differ_code(
                convert_code(path, own_ref_code(ident)),
                convert_code(path, theirs_ref_code(ident)),
            )
        },
    }
}

/// The statement that notes a changed field of a struct.
pub open spec fn diff_code(c: Seq<char>, f: EncodeFieldView) -> Seq<char> {
    match f.diff {
        DiffView::Skipped => ""@,
        DiffView::Nested(optional, unless) => {
            let inner = if optional {
                optional_nested_code(c, f.ident)
            } else {
                nested_code(c, f.ident)
            };
            guarded_code(unless, theirs_ref_code(f.ident), inner)
        },
        DiffView::Compared(converted, optional, unless) => {
            let changed = change_code(f.ident, converted, optional);
            note_code(
                match unless {
                    None => changed,
                    Some(pred) => written_code(pred, theirs_ref_code(f.ident), changed),
                },
                literal::quoted(f.wire),
            )
        },
    }
}

fn change_text(ident: &str, converted: &Option<String>, optional: bool) -> (r: String)
    ensures
        r@ == change_code(ident@, text::optional(*converted), optional),
{
    let mine = own_text(ident);
    let theirs = theirs_text(ident);
    match converted {
        None => {
            let cond = differ_text(mine.as_str(), theirs.as_str());
            if optional {
                present_text(theirs.as_str(), cond.as_str())
            } else {
                cond
            }
        },
        Some(path) => if optional {
            let a = mapped_text(mine.as_str(), path.as_str());
            let b = mapped_text(theirs.as_str(), path.as_str());
            present_text(theirs.as_str(), differ_text(a.as_str(), b.as_str()).as_str())
        } else {
            let a = convert_text(path.as_str(), own_ref_text(ident).as_str());
            let b = convert_text(path.as_str(), theirs_ref_text(ident).as_str());
            differ_text(a.as_str(), b.as_str())
        },
    }
}

/// The statement that notes a changed field of a struct.
pub fn diff_cond(c: &str, f: &EncodeField) -> (r: String)
    ensures
        r@ == diff_code(c@, f@),
{
    let ident = f.ident.as_str();
    match &f.diff {
        DiffPlan::Skipped => "".to_owned(),
        DiffPlan::Nested { optional, unless } => {
            let inner = if *optional {
                optional_nested_text(c, ident)
            } else {
                nested_text(c, ident)
            };
            guarded_text(unless, theirs_ref_text(ident).as_str(), inner)
        },
        DiffPlan::Compared { converted, optional, unless } => {
            let changed = change_text(ident, converted, *optional);
            let cond = match unless {
                None => changed,
                Some(pred) => written_text(
                    pred.as_str(),
                    theirs_ref_text(ident).as_str(),
                    changed.as_str(),
                ),
            };
            note_text(cond.as_str(), literal::quote(f.wire.as_str()).as_str())
        },
    }
}

// ---------------------------------------------------------------------------
// Impls
// ---------------------------------------------------------------------------

/// The writes of the borrowing encoder, in order.
pub open spec fn pushes_code(c: Seq<char>, fields: Seq<EncodeFieldView>) -> Seq<char>
    decreases fields.len(),
{
    if fields.len() == 0 {
        Seq::empty()
    } else {
        pushes_code(c, fields.drop_last()) + push_code(c, fields.last())
    }
}

fn pushes(c: &str, fields: &Vec<EncodeField>) -> (r: String)
    ensures
        r@ == pushes_code(c@, encode::encode_field_views(fields@)),
{
    let mut out = String::new();
    let ghost all = encode::encode_field_views(fields@);
    assert(all.take(0) =~= Seq::empty());
    for i in 0..fields.len()
        invariant
            all == encode::encode_field_views(fields@),
            out@ == pushes_code(c@, all.take(i as int)),
    {
        assert(all.take(i + 1).drop_last() =~= all.take(i as int));
        assert(all.take(i + 1).last() == fields@[i as int]@);
        out.append(encode_field_push(c, &fields[i]).as_str());
    }
    assert(all.take(all.len() as int) =~= all);
    out
}

/// The writes of the consuming encoder, in order.
pub open spec fn moves_code(c: Seq<char>, fields: Seq<EncodeFieldView>) -> Seq<char>
    decreases fields.len(),
{
    if fields.len() == 0 {
        Seq::empty()
    } else {
        moves_code(c, fields.drop_last()) + move_code(c, fields.last())
    }
}

fn moves(c: &str, fields: &Vec<EncodeField>) -> (r: String)
    ensures
        r@ == moves_code(c@, encode::encode_field_views(fields@)),
{
    let mut out = String::new();
    let ghost all = encode::encode_field_views(fields@);
    assert(all.take(0) =~= Seq::empty());
    for i in 0..fields.len()
        invariant
            all == encode::encode_field_views(fields@),
            out@ == moves_code(c@, all.take(i as int)),
    {
        assert(all.take(i + 1).drop_last() =~= all.take(i as int));
        assert(all.take(i + 1).last() == fields@[i as int]@);
        out.append(encode_field_push_move(c, &fields[i]).as_str());
    }
    assert(all.take(all.len() as int) =~= all);
    out
}

/// The comparisons, in order.
pub open spec fn diffs_code(c: Seq<char>, fields: Seq<EncodeFieldView>) -> Seq<char>
    decreases fields.len(),
{
    if fields.len() == 0 {
        Seq::empty()
    } else {
        diffs_code(c, fields.drop_last()) + diff_code(c, fields.last())
    }
}

fn diffs(c: &str, fields: &Vec<EncodeField>) -> (r: String)
    ensures
        r@ == diffs_code(c@, encode::encode_field_views(fields@)),
{
    let mut out = String::new();
    let ghost all = encode::encode_field_views(fields@);
    assert(all.take(0) =~= Seq::empty());
    for i in 0..fields.len()
        invariant
            all == encode::encode_field_views(fields@),
            out@ == diffs_code(c@, all.take(i as int)),
    {
        assert(all.take(i + 1).drop_last() =~= all.take(i as int));
        assert(all.take(i + 1).last() == fields@[i as int]@);
        out.append(diff_cond(c, &fields[i]).as_str());
    }
    assert(all.take(all.len() as int) =~= all);
    out
}

fn variant_pair(c: &str, f: &EncodeVariantField) -> (r: String)
    ensures
        r@ == variant_pair_code(c@, f@),
{
    let key = literal::quote(f.wire.as_str());
    write_text(
        c,
        "__arcade_pairs",
        key.as_str(),
        &f.write,
        f.ident.as_str(),
        f.ident.as_str(),
    )
}

/// The writes of a variant's fields, in order.
pub open spec fn pairs_code(c: Seq<char>, fields: Seq<VariantFieldView>) -> Seq<char>
    decreases fields.len(),
{
    if fields.len() == 0 {
        Seq::empty()
    } else {
        pairs_code(c, fields.drop_last()) + variant_pair_code(c, fields.last())
    }
}

fn variant_field_pairs(c: &str, fields: &Vec<EncodeVariantField>) -> (r: String)
    ensures
        r@ == pairs_code(c@, encode::variant_field_views(fields@)),
{
    let mut out = String::new();
    let ghost all = encode::variant_field_views(fields@);
    assert(all.take(0) =~= Seq::empty());
    for i in 0..fields.len()
        invariant
            all == encode::variant_field_views(fields@),
            out@ == pairs_code(c@, all.take(i as int)),
    {
        assert(all.take(i + 1).drop_last() =~= all.take(i as int));
        assert(all.take(i + 1).last() == fields@[i as int]@);
        out.append(variant_pair(c, &fields[i]).as_str());
    }
    assert(all.take(all.len() as int) =~= all);
    out
}

/// The encode impl of a struct.
pub open spec fn struct_impl_code(
    c: Seq<char>,
    clause: Seq<char>,
    self_ty: Seq<char>,
    keys: Seq<char>,
    pushes: Seq<char>,
    diffs: Seq<char>,
    moves: Seq<char>,
) -> Seq<char> {
    "impl"@ + clause + " "@ + c + "::record::ToGrpcRecord for "@ + self_ty
        + " {\nconst KEY_COLUMNS: &'static [&'static str] = &["@
        + keys + "];\nfn props(&self) -> ::std::vec::Vec<(&str, "@ + c
        + "::GrpcValue)> {\nlet mut __out: ::std::vec::Vec<(&str, "@ + c
        + "::GrpcValue)> = ::std::vec::Vec::new();\n"@ + pushes
        + "__out\n}\nfn changed_wires(&self, other: &Self) -> ::std::vec::Vec<::std::string::String> {\nlet mut __arcade_changed: ::std::vec::Vec<::std::string::String> = ::std::vec::Vec::new();\n"@
        + diffs + "__arcade_changed\n}\nfn into_grpc_record(self, class: &str) -> "@ + c
        + "::GrpcRecord {\nlet mut __out: ::std::vec::Vec<(&str, "@ + c
        + "::GrpcValue)> = ::std::vec::Vec::new();\n"@ + moves + c
        + "::rec(class, __out)\n}\n}\n"@
}

fn struct_impl_text(
    c: &str,
    clause: &str,
    self_ty: &str,
    keys: &str,
    pushes: &str,
    diffs: &str,
    moves: &str,
) -> (r: String)
    ensures
        r@ == struct_impl_code(c@, clause@, self_ty@, keys@, pushes@, diffs@, moves@),
{
    let mut s = "impl".to_owned();
    s.append(clause);
    s.append(" ");
    s.append(c);
    s.append("::record::ToGrpcRecord for ");
    s.append(self_ty);
    s.append(" {\nconst KEY_COLUMNS: &'static [&'static str] = &[");
    s.append(keys);
    s.append("];\nfn props(&self) -> ::std::vec::Vec<(&str, ");
    s.append(c);
    s.append("::GrpcValue)> {\nlet mut __out: ::std::vec::Vec<(&str, ");
    s.append(c);
    s.append("::GrpcValue)> = ::std::vec::Vec::new();\n");
    s.append(pushes);
    s.append("__out\n}\nfn changed_wires(&self, other: &Self) -> ::std::vec::Vec<::std::string::String> {\nlet mut __arcade_changed: ::std::vec::Vec<::std::string::String> = ::std::vec::Vec::new();\n");
    s.append(diffs);
    s.append("__arcade_changed\n}\nfn into_grpc_record(self, class: &str) -> ");
    s.append(c);
    s.append("::GrpcRecord {\nlet mut __out: ::std::vec::Vec<(&str, ");
    s.append(c);
    s.append("::GrpcValue)> = ::std::vec::Vec::new();\n");
    s.append(moves);
    s.append(c);
    s.append("::rec(class, __out)\n}\n}\n");
    s
}

/// The encode impl of an enum.
pub open spec fn enum_impl_code(
    c: Seq<char>,
    clause: Seq<char>,
    self_ty: Seq<char>,
    named: Seq<char>,
    valued: Seq<char>,
) -> Seq<char> {
    "impl"@ + clause + " "@ + c + "::record::ToGrpcRecord for "@ + self_ty
        + " {\nconst KEY_COLUMNS: &'static [&'static str] = &[];\nfn props(&self) -> ::std::vec::Vec<(&str, "@ + c
        + "::GrpcValue)> {\nmatch self {\n"@ + named + "}\n}\nfn to_grpc_value(&self) -> "@ + c
        + "::GrpcValue {\nmatch self {\n"@ + valued + "}\n}\n}\n"@
}

fn enum_impl_text(c: &str, clause: &str, self_ty: &str, named: &str, valued: &str) -> (r: String)
    ensures
        r@ == enum_impl_code(c@, clause@, self_ty@, named@, valued@),
{
    let mut s = "impl".to_owned();
    s.append(clause);
    s.append(" ");
    s.append(c);
    s.append("::record::ToGrpcRecord for ");
    s.append(self_ty);
    s.append(" {\nconst KEY_COLUMNS: &'static [&'static str] = &[];\nfn props(&self) -> ::std::vec::Vec<(&str, ");
    s.append(c);
    s.append("::GrpcValue)> {\nmatch self {\n");
    s.append(named);
    s.append("}\n}\nfn to_grpc_value(&self) -> ");
    s.append(c);
    s.append("::GrpcValue {\nmatch self {\n");
    s.append(valued);
    s.append("}\n}\n}\n");
    s
}

/// A unit variant has no named values.
pub open spec fn unit_named_code(ident: Seq<char>) -> Seq<char> {
    "Self::"@ + ident + " => ::std::vec::Vec::new(),\n"@
}

fn unit_named_text(ident: &str) -> (r: String)
    ensures
        r@ == unit_named_code(ident@),
{
    let mut s = "Self::".to_owned();
    s.append(ident);
    s.append(" => ::std::vec::Vec::new(),\n");
    s
}

/// A unit variant is written as its wire name.
pub open spec fn unit_valued_code(c: Seq<char>, ident: Seq<char>, wire: Seq<char>) -> Seq<char> {
    "Self::"@ + ident + " => "@ + c + "::encode::str_v("@ + wire + "),\n"@
}

fn unit_valued_text(c: &str, ident: &str, wire: &str) -> (r: String)
    ensures
        r@ == unit_valued_code(c@, ident@, wire@),
{
    let mut s = "Self::".to_owned();
    s.append(ident);
    s.append(" => ");
    s.append(c);
    s.append("::encode::str_v(");
    s.append(wire);
    s.append("),\n");
    s
}

/// The named values of a struct variant: the discriminator, then the fields.
pub open spec fn data_named_code(
    c: Seq<char>,
    ident: Seq<char>,
    bound: Seq<char>,
    tag: Seq<char>,
    wire: Seq<char>,
    pairs: Seq<char>,
) -> Seq<char> {
    "Self::"@ + ident + " { "@ + bound
        + "} => {\nlet mut __arcade_pairs: ::std::vec::Vec<(&str, "@ + c
        + "::GrpcValue)> = ::std::vec::Vec::new();\n__arcade_pairs.push(("@ + tag + ", "@ + c
        + "::encode::str_v("@ + wire + ")));\n"@ + pairs + "__arcade_pairs\n}\n"@
}

fn data_named_text(
    c: &str,
    ident: &str,
    bound: &str,
    tag: &str,
    wire: &str,
    pairs: &str,
) -> (r: String)
    ensures
        r@ == data_named_code(c@, ident@, bound@, tag@, wire@, pairs@),
{
    let mut s = "Self::".to_owned();
    s.append(ident);
    s.append(" { ");
    s.append(bound);
    s.append("} => {\nlet mut __arcade_pairs: ::std::vec::Vec<(&str, ");
    s.append(c);
    s.append("::GrpcValue)> = ::std::vec::Vec::new();\n__arcade_pairs.push((");
    s.append(tag);
    s.append(", ");
    s.append(c);
    s.append("::encode::str_v(");
    s.append(wire);
    s.append(")));\n");
    s.append(pairs);
    s.append("__arcade_pairs\n}\n");
    s
}

/// A struct variant is written as the map of its named values.
pub open spec fn data_valued_code(c: Seq<char>, ident: Seq<char>) -> Seq<char> {
    "Self::"@ + ident + " { .. } => "@ + c + "::encode::map_v("@ + c
        + "::record::ToGrpcRecord::props(self).into_iter().map(|(__arcade_k, __arcade_v)| (__arcade_k.to_string(), __arcade_v)).collect()),\n"@
}

fn data_valued_text(c: &str, ident: &str) -> (r: String)
    ensures
        r@ == data_valued_code(c@, ident@),
{
    let mut s = "Self::".to_owned();
    s.append(ident);
    s.append(" { .. } => ");
    s.append(c);
    s.append("::encode::map_v(");
    s.append(c);
    s.append("::record::ToGrpcRecord::props(self).into_iter().map(|(__arcade_k, __arcade_v)| (__arcade_k.to_string(), __arcade_v)).collect()),\n");
    s
}

/// The names that a variant's pattern binds, each followed by a comma.
pub open spec fn bound_code(fields: Seq<VariantFieldView>) -> Seq<char>
    decreases fields.len(),
{
    if fields.len() == 0 {
        Seq::empty()
    } else {
        bound_code(fields.drop_last()) + fields.last().ident + ", "@
    }
}

/// The arm of a variant's named values. A data-carrying variant has a discriminator.
pub open spec fn named_code(
    c: Seq<char>,
    tag: Option<Seq<char>>,
    v: EncodeVariantView,
) -> Seq<char> {
    match v.fields {
        None => unit_named_code(v.ident),
        Some(fields) => data_named_code(
            c,
            v.ident,
            bound_code(fields),
            literal::quoted(
                match tag {
                    Some(t) => t,
                    None => Seq::empty(),
                },
            ),
            literal::quoted(v.wire),
            pairs_code(c, fields),
        ),
    }
}

/// The arm of a variant's value.
pub open spec fn valued_code(c: Seq<char>, v: EncodeVariantView) -> Seq<char> {
    match v.fields {
        None => unit_valued_code(c, v.ident, literal::quoted(v.wire)),
        Some(_) => data_valued_code(c, v.ident),
    }
}

fn variant_bound(fields: &Vec<EncodeVariantField>) -> (r: String)
    ensures
        r@ == bound_code(encode::variant_field_views(fields@)),
{
    let mut out = String::new();
    let ghost all = encode::variant_field_views(fields@);
    assert(all.take(0) =~= Seq::empty());
    for i in 0..fields.len()
        invariant
            all == encode::variant_field_views(fields@),
            out@ == bound_code(all.take(i as int)),
    {
        assert(all.take(i + 1).drop_last() =~= all.take(i as int));
        assert(all.take(i + 1).last() == fields@[i as int]@);
        out.append(fields[i].ident.as_str());
        out.append(", ");
    }
    assert(all.take(all.len() as int) =~= all);
    out
}

fn variant_named(c: &str, tag: &Option<String>, v: &EncodeVariant) -> (r: String)
    ensures
        r@ == named_code(c@, text::optional(*tag), v@),
{
    match &v.fields {
        None => unit_named_text(v.ident.as_str()),
        Some(fields) => {
            let key = match tag {
                Some(t) => literal::quote(t.as_str()),
                None => {
                    let none = String::new();
                    literal::quote(none.as_str())
                },
            };
            data_named_text(
                c,
                v.ident.as_str(),
                variant_bound(fields).as_str(),
                key.as_str(),
                literal::quote(v.wire.as_str()).as_str(),
                variant_field_pairs(c, fields).as_str(),
            )
        },
    }
}

fn variant_valued(c: &str, v: &EncodeVariant) -> (r: String)
    ensures
        r@ == valued_code(c@, v@),
{
    match &v.fields {
        None => unit_valued_text(c, v.ident.as_str(), literal::quote(v.wire.as_str()).as_str()),
        Some(_) => data_valued_text(c, v.ident.as_str()),
    }
}

/// The arms of the named values, in order.
pub open spec fn all_named_code(
    c: Seq<char>,
    tag: Option<Seq<char>>,
    variants: Seq<EncodeVariantView>,
) -> Seq<char>
    decreases variants.len(),
{
    if variants.len() == 0 {
        Seq::empty()
    } else {
        all_named_code(c, tag, variants.drop_last()) + named_code(c, tag, variants.last())
    }
}

fn all_named(c: &str, tag: &Option<String>, variants: &Vec<EncodeVariant>) -> (r: String)
    ensures
        r@ == all_named_code(c@, text::optional(*tag), encode::encode_variant_views(variants@)),
{
    let mut out = String::new();
    let ghost all = encode::encode_variant_views(variants@);
    assert(all.take(0) =~= Seq::empty());
    for i in 0..variants.len()
        invariant
            all == encode::encode_variant_views(variants@),
            out@ == all_named_code(c@, text::optional(*tag), all.take(i as int)),
    {
        assert(all.take(i + 1).drop_last() =~= all.take(i as int));
        assert(all.take(i + 1).last() == variants@[i as int]@);
        out.append(variant_named(c, tag, &variants[i]).as_str());
    }
    assert(all.take(all.len() as int) =~= all);
    out
}

/// The arms of the values, in order.
pub open spec fn all_valued_code(c: Seq<char>, variants: Seq<EncodeVariantView>) -> Seq<char>
    decreases variants.len(),
{
    if variants.len() == 0 {
        Seq::empty()
    } else {
        all_valued_code(c, variants.drop_last()) + valued_code(c, variants.last())
    }
}

fn all_valued(c: &str, variants: &Vec<EncodeVariant>) -> (r: String)
    ensures
        r@ == all_valued_code(c@, encode::encode_variant_views(variants@)),
{
    let mut out = String::new();
    let ghost all = encode::encode_variant_views(variants@);
    assert(all.take(0) =~= Seq::empty());
    for i in 0..variants.len()
        invariant
            all == encode::encode_variant_views(variants@),
            out@ == all_valued_code(c@, all.take(i as int)),
    {
        assert(all.take(i + 1).drop_last() =~= all.take(i as int));
        assert(all.take(i + 1).last() == variants@[i as int]@);
        out.append(variant_valued(c, &variants[i]).as_str());
    }
    assert(all.take(all.len() as int) =~= all);
    out
}

/// What the encode derive emits for the type `name`.
pub open spec fn encode_code(name: Seq<char>, e: EncodeDeriveView) -> Seq<char> {
    let c = e.crate_path;
    let clause = match e.lifetime {
        Some(l) => "<'"@ + l + ">"@,
        None => ""@,
    };
    let self_ty = name + clause;
    match e.plan {
        EncodeView::Struct(s) => struct_impl_code(
            c,
            clause,
            self_ty,
            literal::list(s.key_columns),
            pushes_code(c, s.fields),
            diffs_code(c, s.fields),
            moves_code(c, s.fields),
        ),
        EncodeView::Enum(tag, variants) => enum_impl_code(
            c,
            clause,
            self_ty,
            all_named_code(c, tag, variants),
            all_valued_code(c, variants),
        ),
    }
}

/// The encode impl of a struct.
pub fn expand_encode_struct(c: &str, s: &EncodeStruct, clause: &str, self_ty: &str) -> (r: String)
    ensures
        r@ == struct_impl_code(
            c@,
            clause@,
            self_ty@,
            literal::list(s@.key_columns),
            pushes_code(c@, s@.fields),
            diffs_code(c@, s@.fields),
            moves_code(c@, s@.fields),
        ),
{
    struct_impl_text(
        c,
        clause,
        self_ty,
        literal::quote_list(&s.key_columns).as_str(),
        pushes(c, &s.fields).as_str(),
        diffs(c, &s.fields).as_str(),
        moves(c, &s.fields).as_str(),
    )
}

/// The encode impl of an enum.
pub fn expand_encode_enum(
    c: &str,
    tag: &Option<String>,
    variants: &Vec<EncodeVariant>,
    clause: &str,
    self_ty: &str,
) -> (r: String)
    ensures
        r@ == enum_impl_code(
            c@,
            clause@,
            self_ty@,
            all_named_code(c@, text::optional(*tag), encode::encode_variant_views(variants@)),
            all_valued_code(c@, encode::encode_variant_views(variants@)),
        ),
{
    enum_impl_text(
        c,
        clause,
        self_ty,
        all_named(c, tag, variants).as_str(),
        all_valued(c, variants).as_str(),
    )
}

fn emit(name: &str, e: &EncodeDerive) -> (r: String)
    ensures
        r@ == encode_code(name@, e@),
{
    let c = e.crate_path.as_str();
    let clause = match &e.lifetime {
        Some(l) => {
            let mut s = "<'".to_owned();
            s.append(l.as_str());
            s.append(">");
            s
        },
        None => "".to_owned(),
    };
    let mut self_ty = name.to_owned();
    self_ty.append(clause.as_str());
    match &e.plan {
        EncodePlan::Struct(s) => expand_encode_struct(c, s, clause.as_str(), self_ty.as_str()),
        EncodePlan::Enum { tag, variants } => expand_encode_enum(
            c,
            tag,
            variants,
            clause.as_str(),
            self_ty.as_str(),
        ),
    }
}

/// The whole encode derive: from a declaration to the impl it gets, or to what is wrong with
/// it.
pub fn expand_encode_derive(row: &RowType) -> (r: Result<String, DeriveError>)
    ensures
        match (r, encode::encode_plan(*row)) {
            (Ok(out), Ok(e)) => out@ == encode_code(row.ident@, e),
            (Err(e), Err(p)) => e.reports(p),
            _ => false,
        },
{
    let e = encode::plan_encode(row)?;
    Ok(emit(row.ident.as_str(), &e))
}

} // verus!
