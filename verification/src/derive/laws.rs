//! Laws of the derives that relate several of their parts.

use vstd::prelude::*;
use crate::derive::attrs;
use crate::derive::attrs::{Attribute, Meta};
use crate::derive::code;
use crate::derive::decode;
use crate::derive::encode;
use crate::derive::input;
use crate::derive::input::{Field, Fields, RowType, Shape, Variant};
use crate::derive::naming;
use crate::derive::types;
use crate::derive::types::{DbType, TypeExpr};
use crate::text;

verus! {

/// The wire names of the fields that read a column, in order.
pub open spec fn columns(fields: Seq<decode::FieldPlanView>) -> Seq<Seq<char>>
    decreases fields.len(),
{
    if fields.len() == 0 {
        Seq::empty()
    } else if decode::reads_column(fields.last().read) {
        columns(fields.drop_last()).push(fields.last().wire)
    } else {
        columns(fields.drop_last())
    }
}

/// How many fields take the rest.
pub open spec fn rests(fields: Seq<decode::FieldPlanView>) -> nat
    decreases fields.len(),
{
    if fields.len() == 0 {
        0
    } else {
        rests(fields.drop_last()) + if fields.last().read is Rest {
            1nat
        } else {
            0nat
        }
    }
}

/// A struct's columns are the wire names of the fields that read one, in declaration order;
/// every field of the struct has a plan; and at most one field takes the rest.
pub proof fn law_wires_are_the_columns_read(
    fields: Seq<Field>,
    n: nat,
    container: attrs::ContainerView,
)
    requires
        n <= fields.len(),
    ensures
        match decode::struct_fields(fields, n, container) {
            Ok(plan) => {
                &&& plan.wires == columns(plan.fields)
                &&& plan.fields.len() == n
                &&& forall|i: int|
                    0 <= i < n ==> (#[trigger] plan.fields[i]).ident == fields[i].ident@
                &&& rests(plan.fields) <= 1
                &&& plan.flattened == (rests(plan.fields) == 1)
            },
            Err(_) => true,
        },
    decreases n,
{
    if n > 0 {
        law_wires_are_the_columns_read(fields, (n - 1) as nat, container);
        if let Ok(plan) = decode::struct_fields(fields, n, container) {
            assert(plan.fields.drop_last() =~= decode::struct_fields(
                fields,
                (n - 1) as nat,
                container,
            )->Ok_0.fields);
        }
    } else {
        assert(columns(Seq::empty()) =~= Seq::empty());
    }
}

/// Columns with a schema type are columns that are read.
pub proof fn law_typed_columns_are_read(
    fields: Seq<Field>,
    n: nat,
    container: attrs::ContainerView,
)
    ensures
        match decode::struct_fields(fields, n, container) {
            Ok(plan) => forall|j: int|
                0 <= j < plan.wire_kinds.len() ==> plan.wires.contains(
                    (#[trigger] plan.wire_kinds[j]).0,
                ),
            Err(_) => true,
        },
    decreases n,
{
    if n > 0 {
        law_typed_columns_are_read(fields, (n - 1) as nat, container);
        if let Ok(plan) = decode::struct_fields(fields, n, container) {
            let before = decode::struct_fields(fields, (n - 1) as nat, container)->Ok_0;
            assert forall|j: int| 0 <= j < plan.wire_kinds.len() implies plan.wires.contains(
                (#[trigger] plan.wire_kinds[j]).0,
            ) by {
                let name = plan.wire_kinds[j].0;
                if j < before.wire_kinds.len() {
                    assert(plan.wire_kinds[j] == before.wire_kinds[j]);
                    let i = choose|i: int| 0 <= i < before.wires.len() && before.wires[i] == name;
                    assert(plan.wires[i] == name);
                } else {
                    assert(plan.wires[plan.wires.len() - 1] == name);
                }
            }
        }
    }
}

/// A column of the conflict identity is written: some field is written under its name.
pub proof fn law_key_columns_are_written(
    fields: Seq<Field>,
    n: nat,
    container: attrs::ContainerView,
)
    ensures
        match encode::struct_fields(fields, n, container) {
            Ok(plan) => forall|j: int|
                0 <= j < plan.key_columns.len() ==> written_under(
                    plan.fields,
                    #[trigger] plan.key_columns[j],
                ),
            Err(_) => true,
        },
    decreases n,
{
    if n > 0 {
        law_key_columns_are_written(fields, (n - 1) as nat, container);
        if let Ok(plan) = encode::struct_fields(fields, n, container) {
            let before = encode::struct_fields(fields, (n - 1) as nat, container)->Ok_0;
            assert forall|j: int| 0 <= j < plan.key_columns.len() implies written_under(
                plan.fields,
                #[trigger] plan.key_columns[j],
            ) by {
                let name = plan.key_columns[j];
                if j < before.key_columns.len() {
                    assert(name == before.key_columns[j]);
                    let i = choose|i: int|
                        0 <= i < before.fields.len() && writes(before.fields[i], name);
                    assert(plan.fields[i] == before.fields[i]);
                    assert(writes(plan.fields[i], name));
                } else {
                    lemma_encode_lengths(fields, n, container);
                    assert(writes(plan.fields[n - 1], name));
                }
            }
        }
    }
}

/// A field that is not skipped has this wire name.
pub open spec fn writes(f: encode::EncodeFieldView, name: Seq<char>) -> bool {
    f.wire == name && !(f.write is Skipped)
}

pub open spec fn written_under(fields: Seq<encode::EncodeFieldView>, name: Seq<char>) -> bool {
    exists|i: int| 0 <= i < fields.len() && writes(#[trigger] fields[i], name)
}

proof fn lemma_encode_lengths(fields: Seq<Field>, n: nat, container: attrs::ContainerView)
    ensures
        encode::struct_fields(fields, n, container) matches Ok(plan) ==> plan.fields.len() == n,
    decreases n,
{
    if n > 0 {
        lemma_encode_lengths(fields, (n - 1) as nat, container);
    }
}

/// The two sides of a field's rename do not differ.
pub open spec fn one_name(f: Field) -> bool {
    attrs::field_config(f.attrs@) matches Ok(cfg) ==> cfg.names.written is None
        || cfg.names.written == cfg.names.read
}

/// Unless the two sides of a rename differ, every field of a struct is read and written under
/// one name.
pub proof fn law_structs_use_one_name(
    fields: Seq<Field>,
    n: nat,
    container: attrs::ContainerView,
)
    requires
        n <= fields.len(),
        forall|i: int| 0 <= i < n ==> one_name(#[trigger] fields[i]),
    ensures
        match (
            decode::struct_fields(fields, n, container),
            encode::struct_fields(fields, n, container),
        ) {
            (Ok(read), Ok(written)) => {
                &&& read.fields.len() == n
                &&& written.fields.len() == n
                &&& forall|i: int|
                    0 <= i < n ==> (#[trigger] read.fields[i]).wire == written.fields[i].wire
            },
            _ => true,
        },
    decreases n,
{
    if n > 0 {
        law_structs_use_one_name(fields, (n - 1) as nat, container);
        assert(one_name(fields[n - 1]));
    }
}

/// Unless the two sides of a rename differ, every field of an enum's variant is read and
/// written under one name.
pub proof fn law_variant_fields_use_one_name(
    v: nat,
    fields: Seq<Field>,
    n: nat,
    container: attrs::ContainerView,
)
    requires
        n <= fields.len(),
        forall|i: int| 0 <= i < n ==> one_name(#[trigger] fields[i]),
    ensures
        match (
            decode::variant_fields(v, fields, n, container),
            encode::variant_fields(v, fields, n, container),
        ) {
            (Ok(read), Ok(written)) => {
                &&& read.len() == n
                &&& written.len() == n
                &&& forall|i: int| 0 <= i < n ==> (#[trigger] read[i]).wire == written[i].wire
            },
            _ => true,
        },
    decreases n,
{
    if n > 0 {
        law_variant_fields_use_one_name(v, fields, (n - 1) as nat, container);
        assert(one_name(fields[n - 1]));
    }
}

/// A variant is read and written under one name, and so are its fields.
pub open spec fn same_variant(
    read: decode::VariantPlanView,
    written: encode::EncodeVariantView,
) -> bool {
    read.wire == written.wire && match (read.fields, written.fields) {
        (None, None) => true,
        (Some(a), Some(b)) => a.len() == b.len() && forall|i: int|
            0 <= i < a.len() ==> (#[trigger] a[i]).wire == b[i].wire,
        _ => false,
    }
}

/// The two sides of the attribute's rename do not differ.
pub open spec fn attribute_one_name(attr: Attribute) -> bool {
    attrs::variant_metas(attr.metas@, attr.metas@.len()) matches Ok(names) ==> names.written
        is None || names.written == names.read
}

/// Neither the variant nor a field of it has a rename whose sides differ.
pub open spec fn variant_one_name(variant: Variant) -> bool {
    &&& forall|i: int|
        0 <= i < variant.attrs@.len() ==> attribute_one_name(#[trigger] variant.attrs@[i])
    &&& variant.fields matches Fields::Named(fields) ==> forall|i: int|
        0 <= i < fields@.len() ==> one_name(#[trigger] fields@[i])
}

/// Unless the two sides of a rename differ, a variant is read and written under one name.
pub proof fn law_variants_use_one_name(attrs: Seq<Attribute>, i: nat)
    requires
        forall|j: int| 0 <= j < attrs.len() ==> attribute_one_name(#[trigger] attrs[j]),
    ensures
        attrs::variant_rename(attrs, i, false) == attrs::variant_rename(attrs, i, true),
    decreases attrs.len() - i,
{
    if i < attrs.len() {
        assert(attribute_one_name(attrs[i as int]));
        law_variants_use_one_name(attrs, i + 1);
    }
}

/// Unless the two sides of a rename differ, every variant of an enum, and every field of it, is
/// read and written under one name.
pub proof fn law_enums_use_one_name(
    variants: Seq<Variant>,
    n: nat,
    container: attrs::ContainerView,
)
    requires
        n <= variants.len(),
        forall|i: int| 0 <= i < n ==> variant_one_name(#[trigger] variants[i]),
    ensures
        match (
            decode::enum_variants(variants, n, container),
            encode::enum_variants(variants, n, container),
        ) {
            (Ok(read), Ok(written)) => {
                &&& read.len() == n
                &&& written.len() == n
                &&& forall|i: int| 0 <= i < n ==> same_variant(#[trigger] read[i], written[i])
            },
            _ => true,
        },
    decreases n,
{
    if n > 0 {
        law_enums_use_one_name(variants, (n - 1) as nat, container);
        let last = variants[n - 1];
        assert(variant_one_name(last));
        law_variants_use_one_name(last.attrs@, 0);
        if let Fields::Named(fields) = last.fields {
            law_variant_fields_use_one_name(
                (n - 1) as nat,
                fields@,
                fields@.len(),
                container,
            );
        }
    }
}

/// The two derives on one type agree on every wire name, unless the two sides of a rename
/// differ somewhere in it.
pub proof fn law_both_derives_use_one_name(row: RowType)
    requires
        match row.shape {
            Shape::Struct(Fields::Named(fields)) => forall|i: int|
                0 <= i < fields@.len() ==> one_name(#[trigger] fields@[i]),
            Shape::Enum(variants) => forall|i: int|
                0 <= i < variants@.len() ==> variant_one_name(#[trigger] variants@[i]),
            _ => true,
        },
    ensures
        match (decode::decode_plan(row), encode::encode_plan(row)) {
            (Ok(read), Ok(written)) => match (read.plan, written.plan) {
                (decode::DecodeView::Struct(a), encode::EncodeView::Struct(b)) => {
                    &&& a.fields.len() == b.fields.len()
                    &&& forall|i: int|
                        0 <= i < a.fields.len() ==> (#[trigger] a.fields[i]).wire
                            == b.fields[i].wire
                },
                (decode::DecodeView::Tagged(tag, a), encode::EncodeView::Enum(written_tag, b)) => {
                    &&& written_tag == Some(tag)
                    &&& a.len() == b.len()
                    &&& forall|i: int| 0 <= i < a.len() ==> same_variant(#[trigger] a[i], b[i])
                },
                (decode::DecodeView::Units(a), encode::EncodeView::Enum(written_tag, b)) => {
                    &&& written_tag is None
                    &&& a.len() == b.len()
                    &&& forall|i: int| 0 <= i < a.len() ==> same_variant(#[trigger] a[i], b[i])
                },
                _ => false,
            },
            _ => true,
        },
{
    if let Ok(container) = attrs::container_config(row.attrs@) {
        match row.shape {
            Shape::Struct(Fields::Named(fields)) => {
                law_structs_use_one_name(fields@, fields@.len(), container);
            },
            Shape::Enum(variants) => {
                law_enums_use_one_name(variants@, variants@.len(), container);
            },
            _ => {},
        }
    }
}

/// The predicate under which a write leaves a field out.
pub open spec fn left_out_by(write: encode::WriteView) -> Option<Seq<char>> {
    match write {
        encode::WriteView::Skipped => None,
        encode::WriteView::Spliced(_, unless) => unless,
        encode::WriteView::Written(_, encode::WhenView::Unless(pred)) => Some(pred),
        encode::WriteView::Written(_, encode::WhenView::IfSomeUnless(pred)) => Some(pred),
        encode::WriteView::Written(_, _) => None,
    }
}

/// The predicate under which a diff leaves a field out.
pub open spec fn unreported_by(diff: encode::DiffView) -> Option<Seq<char>> {
    match diff {
        encode::DiffView::Skipped => None,
        encode::DiffView::Nested(_, unless) => unless,
        encode::DiffView::Compared(_, _, unless) => unless,
    }
}

/// The write happens only where the field is `Some`.
pub open spec fn written_if_some(write: encode::WriteView) -> bool {
    match write {
        encode::WriteView::Skipped => false,
        encode::WriteView::Spliced(optional, _) => optional,
        encode::WriteView::Written(_, when) => when is IfSome || when is IfSomeUnless,
    }
}

/// A change is reported only where the new field is `Some`.
pub open spec fn reported_if_some(diff: encode::DiffView) -> bool {
    match diff {
        encode::DiffView::Skipped => false,
        encode::DiffView::Nested(optional, _) => optional,
        encode::DiffView::Compared(_, optional, _) => optional,
    }
}

/// What `skip_serializing_if` leaves out is left out by every write of the field, borrowing or
/// consuming, and by its diff; and a field that is an `Option`, and no other, is written and
/// reported only where it is `Some`.
pub proof fn law_writes_and_diffs_leave_out_alike(
    ident: Seq<char>,
    ty: TypeExpr,
    cfg: attrs::FieldView,
    c: Seq<char>,
)
    requires
        !cfg.skip_encode,
    ensures
        encode::struct_write(ident, ty, cfg, c) matches Ok(w) ==> left_out_by(w) == cfg.skip_if
            && written_if_some(w) == (types::inner_of_option(ty) is Some),
        encode::struct_move(ident, ty, cfg, c) matches Ok(w) ==> left_out_by(w) == cfg.skip_if
            && written_if_some(w) == (types::inner_of_option(ty) is Some),
        encode::variant_write(ident, ty, cfg, c) matches Ok(w) ==> left_out_by(w) == cfg.skip_if
            && written_if_some(w) == (types::inner_of_option(ty) is Some),
        unreported_by(encode::struct_diff(ty, cfg)) == cfg.skip_if,
        reported_if_some(encode::struct_diff(ty, cfg)) == (types::inner_of_option(ty) is Some),
{
}

/// A variant's field is read and written as a field of a struct is: byte blobs, conversions,
/// defaults and predicates alike. Only flattening, keys and metadata are a struct's alone.
pub proof fn law_variants_follow_the_struct_policy(
    ty: TypeExpr,
    cfg: attrs::FieldView,
    wire: Seq<char>,
    ident: Seq<char>,
    c: Seq<char>,
)
    requires
        !cfg.flatten,
        !cfg.key,
        decode::synthetic(wire) is None,
    ensures
        decode::variant_read(ty, cfg) == decode::struct_read(ty, cfg, wire, false),
        match (encode::variant_write(ident, ty, cfg, c), encode::struct_write(ident, ty, cfg, c)) {
            (
                Ok(encode::WriteView::Written(a, when_a)),
                Ok(encode::WriteView::Written(b, when_b)),
            ) => when_a == when_b && (a is Converted == b is Converted) && (a is Converted ==> a
                == b),
            (Ok(a), Ok(b)) => a == b,
            _ => true,
        },
{
}

/// Byte vectors are blobs both ways: what a field of a struct or of a variant writes of one, it
/// reads with the getter for blobs.
pub proof fn law_byte_vectors_are_blobs_both_ways(
    ty: TypeExpr,
    cfg: attrs::FieldView,
    expr: Seq<char>,
    c: Seq<char>,
)
    requires
        types::is_vec_u8(decode::target(ty)),
        cfg.with is None,
    ensures
        decode::named_read(ty, cfg) is Bytes,
        code::field_code(decode::target(ty), expr, c) == Ok::<Seq<char>, Seq<char>>(
            code::value_code(DbType::Bytes, expr, c),
        ),
{
    let vec = "Vec"@;
    reveal_strlit("Vec");
    reveal_strlit("Option");
    reveal_strlit("Cow");
    reveal_strlit("str");
    reveal_strlit("String");
    reveal_strlit("char");
    reveal_strlit("bool");
    reveal_strlit("i8");
    reveal_strlit("i16");
    reveal_strlit("u8");
    reveal_strlit("u16");
    reveal_strlit("i32");
    reveal_strlit("i64");
    reveal_strlit("u32");
    reveal_strlit("u64");
    reveal_strlit("f32");
    reveal_strlit("f64");
    reveal_strlit("Value");
    reveal_strlit("Link");
    reveal_strlit("DateTime");
    reveal_strlit("NaiveDate");
    reveal_strlit("Decimal");
    assert(vec[0] == 'V' && vec[1] == 'e' && "Value"@[1] == 'a');
    assert("Option"@[0] != 'V' && "Cow"@[0] != 'V' && "str"@[0] != 'V' && "String"@[0] != 'V');
    assert("char"@[0] != 'V' && "bool"@[0] != 'V' && "i8"@[0] != 'V' && "i16"@[0] != 'V');
    assert("u8"@[0] != 'V' && "u16"@[0] != 'V' && "i32"@[0] != 'V' && "i64"@[0] != 'V');
    assert("u32"@[0] != 'V' && "u64"@[0] != 'V' && "f32"@[0] != 'V' && "f64"@[0] != 'V');
    assert("Link"@[0] != 'V' && "DateTime"@[0] != 'V' && "NaiveDate"@[0] != 'V' && "Decimal"@[0] != 'V');
}

/// `skip` leaves a field out in both directions; `skip_serializing` and `skip_deserializing`
/// in theirs alone.
pub proof fn law_skip_spellings_are_directional(
    cfg: attrs::FieldView,
    meta: Meta,
    last: bool,
    record: bool,
)
    requires
        !cfg.skip_decode,
        !cfg.skip_encode,
        meta.value is Bare,
    ensures
        meta.name@ == "skip"@ ==> (attrs::with_field_meta(cfg, meta, last, record) matches Ok(c)
            && c.skip_decode && c.skip_encode),
        meta.name@ == "skip_serializing"@ ==> (attrs::with_field_meta(
            cfg,
            meta,
            last,
            record,
        ) matches Ok(c) && !c.skip_decode && c.skip_encode),
        meta.name@ == "skip_deserializing"@ ==> (attrs::with_field_meta(
            cfg,
            meta,
            last,
            record,
        ) matches Ok(c) && c.skip_decode && !c.skip_encode),
{
    reveal_strlit("skip");
    reveal_strlit("skip_serializing");
    reveal_strlit("skip_deserializing");
    reveal_strlit("rename");
    reveal_strlit("default");
    reveal_strlit("flatten");
    assert("skip"@.len() == 4 && "skip_serializing"@.len() == 16 && "skip_deserializing"@.len()
        == 18);
    assert("rename"@.len() == 6 && "default"@.len() == 7 && "flatten"@.len() == 7);
}

/// The names that a field attribute knows in its namespace.
pub open spec fn known_meta(name: Seq<char>, record: bool) -> bool {
    ||| name == "rename"@ || name == "default"@ || name == "flatten"@
    ||| name == "skip"@ || name == "skip_serializing"@ || name == "skip_deserializing"@
    ||| name == "skip_serializing_if"@
    ||| record && (name == "with"@ || name == "deserialize_with"@ || name == "key"@)
}

/// Metas that are not known change nothing in the `serde` namespace and are refused in the
/// `record` namespace.
pub proof fn law_unknown_metas_are_tolerated_or_refused(
    cfg: attrs::FieldView,
    meta: Meta,
    last: bool,
    record: bool,
)
    requires
        !known_meta(meta.name@, record),
    ensures
        !record ==> attrs::with_field_meta(cfg, meta, last, record) == Ok::<
            attrs::FieldView,
            Seq<char>,
        >(cfg),
        record ==> attrs::with_field_meta(cfg, meta, last, record) is Err,
{
}

/// Every field of a struct is read as its own type and attributes say, under the name that
/// they and the struct's rule give it; whether the rest is still free depends on the fields
/// before it.
pub proof fn law_each_field_is_read_by_its_own_attributes(
    fields: Seq<Field>,
    n: nat,
    container: attrs::ContainerView,
    i: int,
)
    requires
        0 <= i < n <= fields.len(),
        decode::struct_fields(fields, n, container) is Ok,
    ensures
        ({
            let plan = decode::struct_fields(fields, n, container)->Ok_0;
            let f = fields[i];
            let cfg = attrs::field_config(f.attrs@)->Ok_0;
            let taken = exists|j: int| 0 <= j < i && (#[trigger] plan.fields[j]).read is Rest;
            &&& plan.fields.len() == n
            &&& attrs::field_config(f.attrs@) is Ok
            &&& plan.fields[i].ident == f.ident@
            &&& plan.fields[i].wire == input::field_wire(
                f.ident@,
                cfg.names.read,
                container.rename_all,
            )
            &&& decode::struct_read(f.ty, cfg, plan.fields[i].wire, taken) == Ok::<
                decode::ReadView,
                Seq<char>,
            >(plan.fields[i].read)
        }),
    decreases n,
{
    lemma_flattened(fields, n, container);
    let plan = decode::struct_fields(fields, n, container)->Ok_0;
    let before = decode::struct_fields(fields, (n - 1) as nat, container)->Ok_0;
    lemma_flattened(fields, (n - 1) as nat, container);
    assert(forall|j: int| 0 <= j < n - 1 ==> plan.fields[j] == before.fields[j]);
    if i < n - 1 {
        law_each_field_is_read_by_its_own_attributes(fields, (n - 1) as nat, container, i);
        assert((exists|j: int| 0 <= j < i && (#[trigger] plan.fields[j]).read is Rest) == (exists|
            j: int,
        |
            0 <= j < i && (#[trigger] before.fields[j]).read is Rest)) by {
            if exists|j: int| 0 <= j < i && (#[trigger] before.fields[j]).read is Rest {
                let j = choose|j: int| 0 <= j < i && (#[trigger] before.fields[j]).read is Rest;
                assert(plan.fields[j].read is Rest);
            }
            if exists|j: int| 0 <= j < i && (#[trigger] plan.fields[j]).read is Rest {
                let j = choose|j: int| 0 <= j < i && (#[trigger] plan.fields[j]).read is Rest;
                assert(before.fields[j].read is Rest);
            }
        }
    } else {
        assert((exists|j: int| 0 <= j < i && (#[trigger] plan.fields[j]).read is Rest)
            == before.flattened) by {
            if before.flattened {
                let j = choose|j: int| 0 <= j < n - 1 && (#[trigger] before.fields[j]).read is Rest;
                assert(plan.fields[j].read is Rest);
            }
            if exists|j: int| 0 <= j < i && (#[trigger] plan.fields[j]).read is Rest {
                let j = choose|j: int| 0 <= j < i && (#[trigger] plan.fields[j]).read is Rest;
                assert(before.fields[j].read is Rest);
            }
        }
    }
}

proof fn lemma_flattened(fields: Seq<Field>, n: nat, container: attrs::ContainerView)
    requires
        n <= fields.len(),
        decode::struct_fields(fields, n, container) is Ok,
    ensures
        ({
            let plan = decode::struct_fields(fields, n, container)->Ok_0;
            &&& plan.fields.len() == n
            &&& plan.flattened == exists|j: int|
                0 <= j < n && (#[trigger] plan.fields[j]).read is Rest
        }),
    decreases n,
{
    if n > 0 {
        lemma_flattened(fields, (n - 1) as nat, container);
        let plan = decode::struct_fields(fields, n, container)->Ok_0;
        let before = decode::struct_fields(fields, (n - 1) as nat, container)->Ok_0;
        if before.flattened {
            let j = choose|j: int| 0 <= j < n - 1 && (#[trigger] before.fields[j]).read is Rest;
            assert(plan.fields[j].read is Rest);
        }
        if plan.fields[n - 1].read is Rest {
            assert(plan.flattened);
        }
        if exists|j: int| 0 <= j < n && (#[trigger] plan.fields[j]).read is Rest {
            let j = choose|j: int| 0 <= j < n && (#[trigger] plan.fields[j]).read is Rest;
            if j < n - 1 {
                assert(before.fields[j].read is Rest);
            }
        }
    }
}

/// Every field of a struct is written, moved and compared as its own type and attributes say,
/// under the name that they and the struct's rule give it.
pub proof fn law_each_field_is_written_by_its_own_attributes(
    fields: Seq<Field>,
    n: nat,
    container: attrs::ContainerView,
    i: int,
)
    requires
        0 <= i < n <= fields.len(),
        encode::struct_fields(fields, n, container) is Ok,
    ensures
        ({
            let plan = encode::struct_fields(fields, n, container)->Ok_0;
            let f = fields[i];
            let cfg = attrs::field_config(f.attrs@)->Ok_0;
            let c = container.crate_path;
            &&& plan.fields.len() == n
            &&& attrs::field_config(f.attrs@) is Ok
            &&& !(cfg.key && cfg.skip_encode)
            &&& plan.fields[i].ident == f.ident@
            &&& plan.fields[i].wire == input::field_wire(
                f.ident@,
                attrs::side(cfg.names, true),
                container.rename_all,
            )
            &&& encode::struct_write(f.ident@, f.ty, cfg, c) == Ok::<encode::WriteView, Seq<char>>(
                plan.fields[i].write,
            )
            &&& encode::struct_move(f.ident@, f.ty, cfg, c) == Ok::<encode::WriteView, Seq<char>>(
                plan.fields[i].moved,
            )
            &&& encode::struct_diff(f.ty, cfg) == plan.fields[i].diff
            &&& cfg.key ==> plan.key_columns.contains(plan.fields[i].wire)
        }),
    decreases n,
{
    lemma_encode_lengths(fields, n, container);
    lemma_encode_lengths(fields, (n - 1) as nat, container);
    let plan = encode::struct_fields(fields, n, container)->Ok_0;
    let before = encode::struct_fields(fields, (n - 1) as nat, container)->Ok_0;
    if i < n - 1 {
        law_each_field_is_written_by_its_own_attributes(fields, (n - 1) as nat, container, i);
        assert(plan.fields[i] == before.fields[i]);
        if before.key_columns.contains(plan.fields[i].wire) {
            let k = choose|k: int|
                0 <= k < before.key_columns.len() && before.key_columns[k] == plan.fields[i].wire;
            assert(plan.key_columns[k] == plan.fields[i].wire);
        }
    } else {
        let cfg = attrs::field_config(fields[i].attrs@)->Ok_0;
        if cfg.key {
            assert(plan.key_columns[plan.key_columns.len() - 1] == plan.fields[i].wire);
        }
    }
}

/// Every field of a variant is read and written as its own type and attributes say, under the
/// name that they and the enum's rule for fields give it.
pub proof fn law_each_variant_field_goes_by_its_own_attributes(
    v: nat,
    fields: Seq<Field>,
    n: nat,
    container: attrs::ContainerView,
    i: int,
)
    requires
        0 <= i < n <= fields.len(),
    ensures
        ({
            let f = fields[i];
            let cfg = attrs::field_config(f.attrs@)->Ok_0;
            &&& decode::variant_fields(v, fields, n, container) matches Ok(plans) ==> plans.len()
                == n && attrs::field_config(f.attrs@) is Ok && plans[i].ident == f.ident@
                && plans[i].wire == input::field_wire(
                f.ident@,
                cfg.names.read,
                container.rename_all_fields,
            ) && decode::variant_read(f.ty, cfg) == Ok::<decode::ReadView, Seq<char>>(plans[i].read)
            &&& encode::variant_fields(v, fields, n, container) matches Ok(plans) ==> plans.len()
                == n && attrs::field_config(f.attrs@) is Ok && plans[i].ident == f.ident@
                && plans[i].wire == input::field_wire(
                f.ident@,
                attrs::side(cfg.names, true),
                container.rename_all_fields,
            ) && encode::variant_write(f.ident@, f.ty, cfg, container.crate_path) == Ok::<
                encode::WriteView,
                Seq<char>,
            >(plans[i].write)
        }),
    decreases n,
{
    if n > 1 && i < n - 1 {
        law_each_variant_field_goes_by_its_own_attributes(
            v,
            fields,
            (n - 1) as nat,
            container,
            i,
        );
    } else if n > 1 {
        law_each_variant_field_goes_by_its_own_attributes(
            v,
            fields,
            (n - 1) as nat,
            container,
            n - 2,
        );
    } else {
        assert(decode::variant_fields(v, fields, 0, container) is Ok);
        assert(encode::variant_fields(v, fields, 0, container) is Ok);
    }
}

/// A variant is named by its rename, else by the enum's rule, else by itself. Of several
/// renames the first counts; only serde's do.
pub proof fn law_variants_are_named_by_their_first_rename(
    ident: Seq<char>,
    attributes: Seq<Attribute>,
    container: attrs::ContainerView,
    written: bool,
)
    ensures
        attrs::variant_rename(attributes, 0, written) matches Ok(Some(name)) ==> attrs::variant_wire(
            ident,
            attributes,
            container,
            written,
        ) == Ok::<Seq<char>, Seq<char>>(name),
        attrs::variant_rename(attributes, 0, written) matches Ok(None) ==> attrs::variant_wire(
            ident,
            attributes,
            container,
            written,
        ) == Ok::<Seq<char>, Seq<char>>(
            match container.rename_all {
                Some(rule) => naming::variant_name(rule, ident),
                None => ident,
            },
        ),
        attributes.len() == 0 ==> attrs::variant_rename(attributes, 0, written) == Ok::<
            Option<Seq<char>>,
            Seq<char>,
        >(None),
        attributes.len() > 0 && attributes[0].space != attrs::AttrSpace::Serde
            ==> attrs::variant_rename(attributes, 0, written) == attrs::variant_rename(
            attributes,
            1,
            written,
        ),
        attributes.len() > 0 && attributes[0].space == attrs::AttrSpace::Serde ==> (
        attrs::variant_metas(
            attributes[0].metas@,
            attributes[0].metas@.len(),
        ) matches Ok(names) ==> (attrs::side(names, written) matches Some(name)
            ==> attrs::variant_rename(attributes, 0, written) == Ok::<Option<Seq<char>>, Seq<char>>(
            Some(name),
        ))),
{
}

/// The shape of a row decides what is derived of it: rows with named fields are structs, an
/// enum is told apart by its tag where it has one, a struct around one value is that value,
/// and unions are refused. Only structs with named fields and enums can be written.
pub proof fn law_shapes_decide_what_is_derived(shape: Shape, container: attrs::ContainerView)
    ensures
        shape is Union ==> decode::shape_plan(shape, container) is Err && encode::shape_plan(
            shape,
            container,
        ) is Err,
        shape matches Shape::Struct(Fields::Named(_)) ==> (decode::shape_plan(
            shape,
            container,
        ) matches Ok(p) ==> p is Struct) && (encode::shape_plan(shape, container) matches Ok(p)
            ==> p is Struct),
        shape matches Shape::Struct(Fields::Unnamed(fields)) ==> decode::shape_plan(
            shape,
            container,
        ) == Ok::<decode::DecodeView, input::Refusal>(
            if fields@.len() == 1 {
                decode::DecodeView::Newtype
            } else {
                decode::DecodeView::Nothing
            },
        ) && encode::shape_plan(shape, container) is Err,
        shape matches Shape::Struct(Fields::Unit) ==> decode::shape_plan(shape, container) == Ok::<
            decode::DecodeView,
            input::Refusal,
        >(decode::DecodeView::Nothing) && encode::shape_plan(shape, container) is Err,
        shape is Enum ==> (decode::shape_plan(shape, container) matches Ok(p) ==> match container.tag {
            Some(tag) => p matches decode::DecodeView::Tagged(t, _) && t == tag,
            None => p is Units,
        }) && (encode::shape_plan(shape, container) matches Ok(p) ==> (p matches encode::EncodeView::Enum(
            t,
            _,
        ) && t == container.tag)),
{
}

/// A variant with fields needs a tag, and tuples are never variants of a row.
pub proof fn law_variants_with_fields_need_a_tag(
    v: nat,
    variant: Variant,
    container: attrs::ContainerView,
)
    ensures
        variant.fields is Unnamed ==> decode::variant_plan(v, variant, container) is Err
            && encode::variant_plan(v, variant, container) is Err,
        variant.fields is Named && container.tag is None ==> decode::variant_plan(
            v,
            variant,
            container,
        ) is Err && encode::variant_plan(v, variant, container) is Err,
        decode::variant_plan(v, variant, container) matches Ok(p) ==> p.ident == variant.ident@ && (
        p.fields is Some <==> variant.fields is Named),
        encode::variant_plan(v, variant, container) matches Ok(p) ==> p.ident == variant.ident@ && (
        p.fields is Some <==> variant.fields is Named),
{
}

/// The plans are seen as what they are.
pub proof fn law_plans_are_seen_as_they_are(
    f: attrs::Fallback,
    p: decode::Presence,
    r: decode::ReadPlan,
    w: encode::WritePlan,
    d: encode::DiffPlan,
    cond: encode::When,
    s: encode::ValueSource,
)
    ensures
        f is Required <==> f@ is Required,
        f is Default <==> f@ is Default,
        f matches attrs::Fallback::Path(x) ==> f@ == attrs::FallbackView::Path(x@),
        p is Optional <==> p@ is Optional,
        p matches decode::Presence::OptionalOr(x) ==> p@ == decode::PresenceView::OptionalOr(x@),
        p matches decode::Presence::Needed(x) ==> p@ == decode::PresenceView::Needed(x@),
        r is Skipped <==> r@ is Skipped,
        r matches decode::ReadPlan::Rest { optional } ==> r@ == decode::ReadView::Rest(optional),
        r matches decode::ReadPlan::Synthetic { source, presence } ==> r@
            == decode::ReadView::Synthetic(source, presence@),
        r matches decode::ReadPlan::Converted { path, presence } ==> r@
            == decode::ReadView::Converted(path@, presence@),
        r matches decode::ReadPlan::Bytes(x) ==> r@ == decode::ReadView::Bytes(x@),
        r matches decode::ReadPlan::Value(x) ==> r@ == decode::ReadView::Value(x@),
        w is Skipped <==> w@ is Skipped,
        w matches encode::WritePlan::Written { value, when: c } ==> w@ == encode::WriteView::Written(
            value@,
            c@,
        ),
        w is Spliced <==> w@ is Spliced,
        d is Skipped <==> d@ is Skipped,
        d is Nested <==> d@ is Nested,
        d is Compared <==> d@ is Compared,
        cond is Always <==> cond@ is Always,
        cond is IfSome <==> cond@ is IfSome,
        cond matches encode::When::Unless(x) ==> cond@ == encode::WhenView::Unless(x@),
        cond matches encode::When::IfSomeUnless(x) ==> cond@ == encode::WhenView::IfSomeUnless(x@),
        s matches encode::ValueSource::Converted(x) ==> s@ == encode::SourceView::Converted(x@),
        s matches encode::ValueSource::Code(x) ==> s@ == encode::SourceView::Code(x@),
{
}

/// The plans of fields and variants are seen with their names and in their order.
pub proof fn law_field_plans_are_seen_in_order(
    f: decode::FieldPlan,
    e: encode::EncodeField,
    v: encode::EncodeVariantField,
    fs: Seq<decode::FieldPlan>,
    es: Seq<encode::EncodeField>,
    i: int,
)
    ensures
        f@.ident == f.ident@ && f@.wire == f.wire@ && f@.read == f.read@,
        e@.ident == e.ident@ && e@.wire == e.wire@ && e@.write == e.write@ && e@.moved == e.moved@
            && e@.diff == e.diff@,
        v@.ident == v.ident@ && v@.wire == v.wire@ && v@.write == v.write@,
        decode::field_views(fs).len() == fs.len(),
        0 <= i < fs.len() ==> decode::field_views(fs)[i] == fs[i]@,
        encode::encode_field_views(es).len() == es.len(),
        0 <= i < es.len() ==> encode::encode_field_views(es)[i] == es[i]@,
{
}

/// The settings that attributes give are seen as what they are.
pub proof fn law_settings_are_seen_as_they_are(f: attrs::FieldCfg, c: attrs::ContainerCfg)
    ensures
        f@.names.read == text::optional(f.rename),
        f@.names.written == text::optional(f.serialize_rename),
        f@.default == f.default@,
        f@.with == text::optional(f.with),
        f@.skip_decode == f.skip_decode && f@.skip_encode == f.skip_encode,
        f@.skip_if == text::optional(f.skip_serializing_if),
        f@.key == f.key && f@.flatten == f.flatten,
        c@.crate_path == c.crate_path@,
        c@.rename_all == c.rename_all && c@.rename_all_fields == c.rename_all_fields,
        c@.tag == text::optional(c.tag),
{
}

/// The plan of a decoder is seen as what it is, with its columns and variants in order.
pub proof fn law_decode_plans_are_seen_as_they_are(
    s: decode::StructPlan,
    v: decode::VariantPlan,
    p: decode::DecodePlan,
    d: decode::DecodeDerive,
    i: int,
)
    ensures
        s@.fields == decode::field_views(s.fields@),
        s@.wires == text::texts(s.wires@),
        s@.flattened == s.flattened,
        s@.wire_kinds.len() == s.wire_kinds@.len(),
        0 <= i < s.wire_kinds@.len() ==> s@.wire_kinds[i] == (
            s.wire_kinds@[i].0@,
            s.wire_kinds@[i].1@,
        ),
        v@.ident == v.ident@ && v@.wire == v.wire@ && (v@.fields is None <==> v.fields is None),
        v.fields matches Some(fields) ==> v@.fields == Some(decode::field_views(fields@)),
        p matches decode::DecodePlan::Struct(x) ==> p@ == decode::DecodeView::Struct(x@),
        p is Newtype <==> p@ is Newtype,
        p is Nothing <==> p@ is Nothing,
        p matches decode::DecodePlan::Units(x) ==> p@ == decode::DecodeView::Units(
            Seq::new(x@.len(), |k: int| x@[k]@),
        ),
        p matches decode::DecodePlan::Tagged { tag, variants } ==> p@ == decode::DecodeView::Tagged(
            tag@,
            Seq::new(variants@.len(), |k: int| variants@[k]@),
        ),
        d@.crate_path == d.crate_path@ && d@.lifetime == text::optional(d.lifetime) && d@.plan
            == d.plan@,
{
}

/// The plan of an encoder is seen as what it is, with its columns and variants in order.
pub proof fn law_encode_plans_are_seen_as_they_are(
    s: encode::EncodeStruct,
    v: encode::EncodeVariant,
    p: encode::EncodePlan,
    e: encode::EncodeDerive,
)
    ensures
        s@.fields == encode::encode_field_views(s.fields@),
        s@.key_columns == text::texts(s.key_columns@),
        v@.ident == v.ident@ && v@.wire == v.wire@ && (v@.fields is None <==> v.fields is None),
        v.fields matches Some(fields) ==> v@.fields == Some(
            Seq::new(fields@.len(), |k: int| fields@[k]@),
        ),
        p matches encode::EncodePlan::Struct(x) ==> p@ == encode::EncodeView::Struct(x@),
        p matches encode::EncodePlan::Enum { tag, variants } ==> p@ == encode::EncodeView::Enum(
            text::optional(tag),
            Seq::new(variants@.len(), |k: int| variants@[k]@),
        ),
        e@.crate_path == e.crate_path@ && e@.lifetime == text::optional(e.lifetime) && e@.plan
            == e.plan@,
{
    if let Some(fields) = v.fields {
        assert(encode::variant_field_views(fields@) =~= Seq::new(
            fields@.len(),
            |k: int| fields@[k]@,
        ));
    }
    if let encode::EncodePlan::Enum { tag, variants } = p {
        assert(encode::encode_variant_views(variants@) =~= Seq::new(
            variants@.len(),
            |k: int| variants@[k]@,
        ));
    }
}

/// An outcome is the stated one exactly when both succeed alike or both fail with the same
/// words, and a refusal says its message at its place.
pub proof fn law_outcomes_are_the_stated_ones(
    f: Result<attrs::FieldCfg, String>,
    g: Result<attrs::FieldView, Seq<char>>,
    r: Result<decode::ReadPlan, String>,
    s: Result<decode::ReadView, Seq<char>>,
    w: Result<encode::WritePlan, String>,
    x: Result<encode::WriteView, Seq<char>>,
    e: input::DeriveError,
    p: input::Refusal,
)
    ensures
        attrs::same_field(f, g) <==> (f matches Ok(a) && g matches Ok(b) && a@ == b) || (
        f matches Err(a) && g matches Err(b) && a@ == b),
        decode::same_read(r, s) <==> (r matches Ok(a) && s matches Ok(b) && a@ == b) || (
        r matches Err(a) && s matches Err(b) && a@ == b),
        encode::same_write(w, x) <==> (w matches Ok(a) && x matches Ok(b) && a@ == b) || (
        w matches Err(a) && x matches Err(b) && a@ == b),
        e.reports(p) <==> e.message@ == p.message && e.at == p.at,
{
}

} // verus!
