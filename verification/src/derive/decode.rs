//! What a derived decoder does with each field: which getter reads it, under which wire name
//! and with which policy for a missing property.

use vstd::prelude::*;
use vstd::string::*;
use crate::text;
use crate::derive::attrs;
use crate::derive::attrs::{ContainerCfg, Fallback, FieldCfg};
use crate::derive::input;
use crate::derive::input::{DeriveError, Field, Fields, Place, RowType, Shape, Variant};
use crate::derive::types;
use crate::derive::types::TypeExpr;

verus! {

// ---------------------------------------------------------------------------
// Plans
// ---------------------------------------------------------------------------

/// What a missing property becomes.
#[derive(Debug, PartialEq, Eq)]
pub enum Presence {
    /// `Option<T>`: `None`.
    Optional,
    /// `Option<T>` with a default of its own: what the function at this path gives.
    OptionalOr(String),
    Needed(Fallback),
}

/// The record metadata that a synthetic field falls back to.
#[derive(Debug, Clone, Copy, PartialEq, Eq, Structural)]
pub enum Synth {
    /// `@rid`.
    Rid,
    /// `@type`.
    Class,
}

/// How one field is read.
#[derive(Debug, PartialEq, Eq)]
pub enum ReadPlan {
    /// `Default::default()`; the property is never read.
    Skipped,
    /// Decode the properties that no other field reads.
    Rest { optional: bool },
    /// The property, else the record's own metadata.
    Synthetic { source: Synth, presence: Presence },
    /// Through the conversion at `path`.
    Converted { path: String, presence: Presence },
    /// A byte blob.
    Bytes(Presence),
    /// Through the field type's own decoding.
    Value(Presence),
}

#[derive(Debug, PartialEq, Eq)]
pub struct FieldPlan {
    pub ident: String,
    pub wire: String,
    pub read: ReadPlan,
}

/// The plan of a struct with named fields.
#[derive(Debug, PartialEq, Eq)]
pub struct StructPlan {
    pub fields: Vec<FieldPlan>,
    /// The columns that are read, in declaration order.
    pub wires: Vec<String>,
    /// `(column, schema type)` of the fields whose column type is known. Custom conversions,
    /// flattened fields and dynamic values are absent.
    pub wire_kinds: Vec<(String, String)>,
    /// Whether one of the fields takes the rest.
    pub flattened: bool,
}

impl StructPlan {
    /// The columns as an inline SELECT list: `a, b, c`.
    pub fn select_list(&self) -> (r: String)
        ensures
            r@ == text::joined(text::texts(self.wires@), ", "@),
    {
        text::join(&self.wires, ", ")
    }
}

/// The plan of one variant. A unit variant has no fields.
#[derive(Debug, PartialEq, Eq)]
pub struct VariantPlan {
    pub ident: String,
    pub wire: String,
    pub fields: Option<Vec<FieldPlan>>,
}

#[derive(Debug, PartialEq, Eq)]
pub enum DecodePlan {
    Struct(StructPlan),
    /// A tuple struct of one field decodes as that field.
    Newtype,
    /// Unit structs and longer tuple structs decode from nothing.
    Nothing,
    /// An enum of unit variants, decoded from strings.
    Units(Vec<VariantPlan>),
    /// An internally tagged enum, decoded from records and maps by their discriminator.
    Tagged { tag: String, variants: Vec<VariantPlan> },
}

/// The plan of a derived decoder. Types that borrow have the lifetime they borrow for, and no
/// decoding from an owned record.
#[derive(Debug, PartialEq, Eq)]
pub struct DecodeDerive {
    pub crate_path: String,
    pub lifetime: Option<String>,
    pub plan: DecodePlan,
}

// ---------------------------------------------------------------------------
// Model
// ---------------------------------------------------------------------------

pub ghost enum PresenceView {
    Optional,
    OptionalOr(Seq<char>),
    Needed(attrs::FallbackView),
}

impl View for Presence {
    type V = PresenceView;

    open spec fn view(&self) -> PresenceView {
        match self {
            Presence::Optional => PresenceView::Optional,
            Presence::OptionalOr(p) => PresenceView::OptionalOr(p@),
            Presence::Needed(f) => PresenceView::Needed(f@),
        }
    }
}

pub ghost enum ReadView {
    Skipped,
    Rest(bool),
    Synthetic(Synth, PresenceView),
    Converted(Seq<char>, PresenceView),
    Bytes(PresenceView),
    Value(PresenceView),
}

impl View for ReadPlan {
    type V = ReadView;

    open spec fn view(&self) -> ReadView {
        match self {
            ReadPlan::Skipped => ReadView::Skipped,
            ReadPlan::Rest { optional } => ReadView::Rest(*optional),
            ReadPlan::Synthetic { source, presence } => ReadView::Synthetic(*source, presence@),
            ReadPlan::Converted { path, presence } => ReadView::Converted(path@, presence@),
            ReadPlan::Bytes(p) => ReadView::Bytes(p@),
            ReadPlan::Value(p) => ReadView::Value(p@),
        }
    }
}

pub ghost struct FieldPlanView {
    pub ident: Seq<char>,
    pub wire: Seq<char>,
    pub read: ReadView,
}

impl View for FieldPlan {
    type V = FieldPlanView;

    open spec fn view(&self) -> FieldPlanView {
        FieldPlanView { ident: self.ident@, wire: self.wire@, read: self.read@ }
    }
}

pub open spec fn field_views(s: Seq<FieldPlan>) -> Seq<FieldPlanView> {
    Seq::new(s.len(), |i: int| s[i]@)
}

pub open spec fn kind_views(s: Seq<(String, String)>) -> Seq<(Seq<char>, Seq<char>)> {
    Seq::new(s.len(), |i: int| (s[i].0@, s[i].1@))
}

#[verifier::ext_equal]
pub ghost struct StructView {
    pub fields: Seq<FieldPlanView>,
    pub wires: Seq<Seq<char>>,
    pub wire_kinds: Seq<(Seq<char>, Seq<char>)>,
    pub flattened: bool,
}

impl View for StructPlan {
    type V = StructView;

    open spec fn view(&self) -> StructView {
        StructView {
            fields: field_views(self.fields@),
            wires: text::texts(self.wires@),
            wire_kinds: kind_views(self.wire_kinds@),
            flattened: self.flattened,
        }
    }
}

pub ghost struct VariantPlanView {
    pub ident: Seq<char>,
    pub wire: Seq<char>,
    pub fields: Option<Seq<FieldPlanView>>,
}

impl View for VariantPlan {
    type V = VariantPlanView;

    open spec fn view(&self) -> VariantPlanView {
        VariantPlanView {
            ident: self.ident@,
            wire: self.wire@,
            fields: match self.fields {
                Some(fields) => Some(field_views(fields@)),
                None => None,
            },
        }
    }
}

pub open spec fn variant_views(s: Seq<VariantPlan>) -> Seq<VariantPlanView> {
    Seq::new(s.len(), |i: int| s[i]@)
}

pub ghost enum DecodeView {
    Struct(StructView),
    Newtype,
    Nothing,
    Units(Seq<VariantPlanView>),
    Tagged(Seq<char>, Seq<VariantPlanView>),
}

impl View for DecodePlan {
    type V = DecodeView;

    open spec fn view(&self) -> DecodeView {
        match self {
            DecodePlan::Struct(s) => DecodeView::Struct(s@),
            DecodePlan::Newtype => DecodeView::Newtype,
            DecodePlan::Nothing => DecodeView::Nothing,
            DecodePlan::Units(v) => DecodeView::Units(variant_views(v@)),
            DecodePlan::Tagged { tag, variants } => DecodeView::Tagged(
                tag@,
                variant_views(variants@),
            ),
        }
    }
}

pub ghost struct DecodeDeriveView {
    pub crate_path: Seq<char>,
    pub lifetime: Option<Seq<char>>,
    pub plan: DecodeView,
}

impl View for DecodeDerive {
    type V = DecodeDeriveView;

    open spec fn view(&self) -> DecodeDeriveView {
        DecodeDeriveView {
            crate_path: self.crate_path@,
            lifetime: text::optional(self.lifetime),
            plan: self.plan@,
        }
    }
}

// ---------------------------------------------------------------------------
// Fields
// ---------------------------------------------------------------------------

/// What a missing property becomes. An `Option` is `None` by default, unless a function is
/// named for its default.
pub open spec fn presence_of(ty: TypeExpr, cfg: attrs::FieldView) -> PresenceView {
    if types::inner_of_option(ty) is Some {
        match cfg.default {
            attrs::FallbackView::Path(p) => PresenceView::OptionalOr(p),
            _ => PresenceView::Optional,
        }
    } else {
        PresenceView::Needed(cfg.default)
    }
}

/// The type that a field's value has when there is one.
pub open spec fn target(ty: TypeExpr) -> TypeExpr {
    match types::inner_of_option(ty) {
        Some(inner) => inner,
        None => ty,
    }
}

/// The metadata behind a wire name.
pub open spec fn synthetic(wire: Seq<char>) -> Option<Synth> {
    if wire == "@rid"@ {
        Some(Synth::Rid)
    } else if wire == "@type"@ {
        Some(Synth::Class)
    } else {
        None
    }
}

/// How a synthetic field is read: without a conversion, and into an owned target.
pub open spec fn synthetic_read(ty: TypeExpr, cfg: attrs::FieldView, source: Synth) -> Result<
    ReadView,
    Seq<char>,
> {
    if cfg.with is Some {
        Err("RecordDecode: `with` cannot be combined with `@rid`/`@type` synthesis"@)
    } else if types::has_lifetime(target(ty)) {
        Err(
            "RecordDecode: `@rid`/`@type` synthesis supports owned targets only (a borrowed target can't outlive the fallback value)"@,
        )
    } else {
        Ok(ReadView::Synthetic(source, presence_of(ty, cfg)))
    }
}

/// How a field with a name of its own is read.
pub open spec fn named_read(ty: TypeExpr, cfg: attrs::FieldView) -> ReadView {
    match cfg.with {
        Some(path) => ReadView::Converted(path, presence_of(ty, cfg)),
        None => if types::is_vec_u8(target(ty)) {
            ReadView::Bytes(presence_of(ty, cfg))
        } else {
            ReadView::Value(presence_of(ty, cfg))
        },
    }
}

/// How a field of a struct is read, `flattened` saying whether an earlier field takes the rest.
pub open spec fn struct_read(
    ty: TypeExpr,
    cfg: attrs::FieldView,
    wire: Seq<char>,
    flattened: bool,
) -> Result<ReadView, Seq<char>> {
    if cfg.skip_decode {
        Ok(ReadView::Skipped)
    } else if cfg.flatten {
        if flattened {
            Err("RecordDecode supports at most one flattened field per struct"@)
        } else if cfg.with is Some {
            Err("RecordDecode: `with` cannot be combined with a flattened field"@)
        } else {
            Ok(ReadView::Rest(types::inner_of_option(ty) is Some))
        }
    } else {
        match synthetic(wire) {
            Some(source) => synthetic_read(ty, cfg, source),
            None => Ok(named_read(ty, cfg)),
        }
    }
}

/// How a field of a variant is read. Nothing is flattened there, and nothing is synthetic.
pub open spec fn variant_read(ty: TypeExpr, cfg: attrs::FieldView) -> Result<ReadView, Seq<char>> {
    if cfg.flatten {
        Err("RecordDecode: `flatten` is not supported inside enum variants"@)
    } else if cfg.skip_decode {
        Ok(ReadView::Skipped)
    } else {
        Ok(named_read(ty, cfg))
    }
}

fn presence(ty: &TypeExpr, default: Fallback) -> (r: Presence)
    ensures
        r@ == if types::inner_of_option(*ty) is Some {
            match default@ {
                attrs::FallbackView::Path(p) => PresenceView::OptionalOr(p),
                _ => PresenceView::Optional,
            }
        } else {
            PresenceView::Needed(default@)
        },
{
    match types::option_inner(ty) {
        Some(_) => match default {
            Fallback::Path(p) => Presence::OptionalOr(p),
            _ => Presence::Optional,
        },
        None => Presence::Needed(default),
    }
}

fn target_of(ty: &TypeExpr) -> (r: &TypeExpr)
    ensures
        *r == target(*ty),
{
    match types::option_inner(ty) {
        Some(inner) => inner,
        None => ty,
    }
}

/// Whether an outcome is the stated one, for the read of a field.
pub open spec fn same_read(r: Result<ReadPlan, String>, stated: Result<ReadView, Seq<char>>) -> bool {
    match (r, stated) {
        (Ok(a), Ok(b)) => a@ == b,
        (Err(e), Err(m)) => e@ == m,
        _ => false,
    }
}

/// The read of a synthetic `@rid` or `@type` field.
fn plan_synthetic(ty: &TypeExpr, cfg: FieldCfg, source: Synth) -> (r: Result<ReadPlan, String>)
    ensures
        same_read(r, synthetic_read(*ty, cfg@, source)),
{
    if cfg.with.is_some() {
        return Err(
            "RecordDecode: `with` cannot be combined with `@rid`/`@type` synthesis".to_owned(),
        );
    }
    if types::type_has_lifetime(target_of(ty)) {
        return Err(
            "RecordDecode: `@rid`/`@type` synthesis supports owned targets only (a borrowed target can't outlive the fallback value)".to_owned(),
        );
    }
    Ok(ReadPlan::Synthetic { source, presence: presence(ty, cfg.default) })
}

fn plan_named(ty: &TypeExpr, cfg: FieldCfg) -> (r: ReadPlan)
    ensures
        r@ == named_read(*ty, cfg@),
{
    let there = presence(ty, cfg.default);
    match cfg.with {
        Some(path) => ReadPlan::Converted { path, presence: there },
        None => if types::vec_u8(target_of(ty)) {
            ReadPlan::Bytes(there)
        } else {
            ReadPlan::Value(there)
        },
    }
}

/// The read of one field of a struct.
pub fn plan_struct_field(ty: &TypeExpr, cfg: FieldCfg, wire: &str, flattened: bool) -> (r: Result<
    ReadPlan,
    String,
>)
    ensures
        same_read(r, struct_read(*ty, cfg@, wire@, flattened)),
{
    if cfg.skip_decode {
        return Ok(ReadPlan::Skipped);
    }
    if cfg.flatten {
        if flattened {
            return Err(
                "RecordDecode supports at most one flattened field per struct".to_owned(),
            );
        }
        if cfg.with.is_some() {
            return Err(
                "RecordDecode: `with` cannot be combined with a flattened field".to_owned(),
            );
        }
        return Ok(ReadPlan::Rest { optional: types::option_inner(ty).is_some() });
    }
    if text::same(wire, "@rid") {
        plan_synthetic(ty, cfg, Synth::Rid)
    } else if text::same(wire, "@type") {
        plan_synthetic(ty, cfg, Synth::Class)
    } else {
        Ok(plan_named(ty, cfg))
    }
}

/// The read of one field of a struct variant.
pub fn plan_variant_field(ty: &TypeExpr, cfg: FieldCfg) -> (r: Result<ReadPlan, String>)
    ensures
        same_read(r, variant_read(*ty, cfg@)),
{
    if cfg.flatten {
        return Err("RecordDecode: `flatten` is not supported inside enum variants".to_owned());
    }
    if cfg.skip_decode {
        return Ok(ReadPlan::Skipped);
    }
    Ok(plan_named(ty, cfg))
}

// ---------------------------------------------------------------------------
// Structs
// ---------------------------------------------------------------------------

/// Whether a field reads a column of its own.
pub open spec fn reads_column(read: ReadView) -> bool {
    !(read is Skipped) && !(read is Rest)
}

/// A struct's plan with one more field.
pub open spec fn with_struct_field(
    plan: StructView,
    ident: Seq<char>,
    wire: Seq<char>,
    read: ReadView,
    column: Option<Seq<char>>,
) -> StructView {
    StructView {
        fields: plan.fields.push(FieldPlanView { ident, wire, read }),
        wires: if reads_column(read) {
            plan.wires.push(wire)
        } else {
            plan.wires
        },
        wire_kinds: if reads_column(read) && !(read is Converted) && column is Some {
            plan.wire_kinds.push((wire, column->Some_0))
        } else {
            plan.wire_kinds
        },
        flattened: plan.flattened || read is Rest,
    }
}

/// The plan of a struct by its first `n` fields, in order; the first refusal ends it.
pub open spec fn struct_fields(
    fields: Seq<Field>,
    n: nat,
    container: attrs::ContainerView,
) -> Result<StructView, input::Refusal>
    decreases n,
{
    if n == 0 {
        Ok(
            StructView {
                fields: Seq::empty(),
                wires: Seq::empty(),
                wire_kinds: Seq::empty(),
                flattened: false,
            },
        )
    } else {
        match struct_fields(fields, (n - 1) as nat, container) {
            Err(r) => Err(r),
            Ok(before) => {
                let f = fields[n - 1];
                let at = Place::Field((n - 1) as usize);
                match attrs::field_config(f.attrs@) {
                    Err(message) => Err(input::Refusal { message, at }),
                    Ok(cfg) => {
                        let wire = input::field_wire(f.ident@, cfg.names.read, container.rename_all);
                        match struct_read(f.ty, cfg, wire, before.flattened) {
                            Err(m) => Err(input::refusal(m, at)),
                            Ok(read) => Ok(
                                with_struct_field(
                                    before,
                                    f.ident@,
                                    wire,
                                    read,
                                    types::column_type(f.ty),
                                ),
                            ),
                        }
                    },
                }
            },
        }
    }
}

proof fn lemma_struct_fields_fail(
    fields: Seq<Field>,
    n: nat,
    m: nat,
    container: attrs::ContainerView,
)
    requires
        n <= m,
        struct_fields(fields, n, container) is Err,
    ensures
        struct_fields(fields, m, container) == struct_fields(fields, n, container),
    decreases m,
{
    if n < m {
        lemma_struct_fields_fail(fields, n, (m - 1) as nat, container);
    }
}

/// Whether an outcome is the stated one, for the plan of a struct.
pub open spec fn same_struct(
    r: Result<StructPlan, DeriveError>,
    stated: Result<StructView, input::Refusal>,
) -> bool {
    match (r, stated) {
        (Ok(a), Ok(b)) => a@ == b,
        (Err(e), Err(p)) => e.reports(p),
        _ => false,
    }
}

impl StructPlan {
    /// Add a field to the plan.
    fn record(&mut self, ident: &String, wire: String, read: ReadPlan, column: Option<String>)
        ensures
            final(self)@ == with_struct_field(
                old(self)@,
                ident@,
                wire@,
                read@,
                text::optional(column),
            ),
    {
        let (rest, column_read, typed) = match &read {
            ReadPlan::Skipped => (false, false, false),
            ReadPlan::Rest { optional: _ } => (true, false, false),
            ReadPlan::Converted { path: _, presence: _ } => (false, true, false),
            _ => (false, true, true),
        };
        let ghost before = self@;
        if column_read {
            let w = wire.clone();
            proof {
                text::lemma_texts_push(self.wires@, w);
            }
            self.wires.push(w);
        }
        if typed {
            if let Some(kind) = column {
                self.wire_kinds.push((wire.clone(), kind));
                assert(kind_views(self.wire_kinds@) =~= before.wire_kinds.push((wire@, kind@)));
            }
        }
        if rest {
            self.flattened = true;
        }
        let plan = FieldPlan { ident: ident.clone(), wire, read };
        self.fields.push(plan);
        assert(field_views(self.fields@) =~= before.fields.push(plan@));
    }
}

/// The plan of a struct with named fields.
pub fn plan_struct(fields: &Vec<Field>, container: &ContainerCfg) -> (r: Result<
    StructPlan,
    DeriveError,
>)
    ensures
        same_struct(r, struct_fields(fields@, fields@.len(), container@)),
{
    let mut plan = StructPlan {
        fields: Vec::new(),
        wires: Vec::new(),
        wire_kinds: Vec::new(),
        flattened: false,
    };
    assert(plan@ =~= struct_fields(fields@, 0, container@)->Ok_0);
    for i in 0..fields.len()
        invariant
            struct_fields(fields@, i as nat, container@) == Ok::<StructView, input::Refusal>(
                plan@,
            ),
    {
        let f = &fields[i];
        let cfg = match FieldCfg::parse(&f.attrs) {
            Ok(cfg) => cfg,
            Err(message) => {
                proof {
                    lemma_struct_fields_fail(fields@, (i + 1) as nat, fields@.len(), container@);
                }
                return Err(DeriveError { message, at: Place::Field(i) });
            },
        };
        let wire = input::wire_name(&f.ident, &cfg.rename, container.rename_all);
        match plan_struct_field(&f.ty, cfg, wire.as_str(), plan.flattened) {
            Ok(read) => {
                plan.record(&f.ident, wire, read, types::db_type_of(&f.ty));
            },
            Err(message) => {
                proof {
                    lemma_struct_fields_fail(fields@, (i + 1) as nat, fields@.len(), container@);
                }
                return Err(DeriveError { message, at: Place::Field(i) });
            },
        }
    }
    Ok(plan)
}

// ---------------------------------------------------------------------------
// Variants
// ---------------------------------------------------------------------------

/// The plans of the first `n` fields of variant `v`, in order; the first refusal ends it.
pub open spec fn variant_fields(
    v: nat,
    fields: Seq<Field>,
    n: nat,
    container: attrs::ContainerView,
) -> Result<Seq<FieldPlanView>, input::Refusal>
    decreases n,
{
    if n == 0 {
        Ok(Seq::empty())
    } else {
        match variant_fields(v, fields, (n - 1) as nat, container) {
            Err(r) => Err(r),
            Ok(before) => {
                let f = fields[n - 1];
                let at = Place::VariantField(v as usize, (n - 1) as usize);
                match attrs::field_config(f.attrs@) {
                    Err(message) => Err(input::Refusal { message, at }),
                    Ok(cfg) => match variant_read(f.ty, cfg) {
                        Err(m) => Err(input::refusal(m, at)),
                        Ok(read) => Ok(
                            before.push(
                                FieldPlanView {
                                    ident: f.ident@,
                                    wire: input::field_wire(
                                        f.ident@,
                                        cfg.names.read,
                                        container.rename_all_fields,
                                    ),
                                    read,
                                },
                            ),
                        ),
                    },
                }
            },
        }
    }
}

proof fn lemma_variant_fields_fail(
    v: nat,
    fields: Seq<Field>,
    n: nat,
    m: nat,
    container: attrs::ContainerView,
)
    requires
        n <= m,
        variant_fields(v, fields, n, container) is Err,
    ensures
        variant_fields(v, fields, m, container) == variant_fields(v, fields, n, container),
    decreases m,
{
    if n < m {
        lemma_variant_fields_fail(v, fields, n, (m - 1) as nat, container);
    }
}

/// The plans of a struct variant's fields: the policy of struct fields without flattening and
/// synthesis.
pub fn plan_variant_fields(v: usize, fields: &Vec<Field>, container: &ContainerCfg) -> (r: Result<
    Vec<FieldPlan>,
    DeriveError,
>)
    ensures
        match (r, variant_fields(v as nat, fields@, fields@.len(), container@)) {
            (Ok(a), Ok(b)) => field_views(a@) == b,
            (Err(e), Err(p)) => e.reports(p),
            _ => false,
        },
{
    let mut plans: Vec<FieldPlan> = Vec::new();
    assert(field_views(plans@) =~= Seq::empty());
    for i in 0..fields.len()
        invariant
            variant_fields(v as nat, fields@, i as nat, container@) == Ok::<
                Seq<FieldPlanView>,
                input::Refusal,
            >(field_views(plans@)),
    {
        let f = &fields[i];
        let cfg = match FieldCfg::parse(&f.attrs) {
            Ok(cfg) => cfg,
            Err(message) => {
                proof {
                    lemma_variant_fields_fail(
                        v as nat,
                        fields@,
                        (i + 1) as nat,
                        fields@.len(),
                        container@,
                    );
                }
                return Err(DeriveError { message, at: Place::VariantField(v, i) });
            },
        };
        let wire = input::wire_name(&f.ident, &cfg.rename, container.rename_all_fields);
        match plan_variant_field(&f.ty, cfg) {
            Ok(read) => {
                let plan = FieldPlan { ident: f.ident.clone(), wire, read };
                let ghost before = field_views(plans@);
                plans.push(plan);
                assert(field_views(plans@) =~= before.push(plan@));
            },
            Err(message) => {
                proof {
                    lemma_variant_fields_fail(
                        v as nat,
                        fields@,
                        (i + 1) as nat,
                        fields@.len(),
                        container@,
                    );
                }
                return Err(DeriveError { message, at: Place::VariantField(v, i) });
            },
        }
    }
    Ok(plans)
}

/// The plan of variant `v`. Without a tag only unit variants decode.
pub open spec fn variant_plan(v: nat, variant: Variant, container: attrs::ContainerView) -> Result<
    VariantPlanView,
    input::Refusal,
> {
    let at = Place::Variant(v as usize);
    if container.tag is None && !(variant.fields is Unit) {
        Err(
            input::refusal(
                "RecordDecode on enums supports unit variants only; for data-carrying variants implement `FromGrpcValue` manually (or decode with `#[record(with = \"...\")]`)"@,
                at,
            ),
        )
    } else {
        match attrs::variant_wire(variant.ident@, variant.attrs@, container, false) {
            Err(message) => Err(input::Refusal { message, at }),
            Ok(wire) => match variant.fields {
                Fields::Unit => Ok(VariantPlanView { ident: variant.ident@, wire, fields: None }),
                Fields::Unnamed(_) => Err(
                    input::refusal(
                        "RecordDecode on internally-tagged enums supports struct variants only"@,
                        at,
                    ),
                ),
                Fields::Named(fields) => match variant_fields(
                    v,
                    fields@,
                    fields@.len(),
                    container,
                ) {
                    Err(r) => Err(r),
                    Ok(plans) => Ok(
                        VariantPlanView { ident: variant.ident@, wire, fields: Some(plans) },
                    ),
                },
            },
        }
    }
}

/// The plans of the first `n` variants, in order; the first refusal ends it.
pub open spec fn enum_variants(
    variants: Seq<Variant>,
    n: nat,
    container: attrs::ContainerView,
) -> Result<Seq<VariantPlanView>, input::Refusal>
    decreases n,
{
    if n == 0 {
        Ok(Seq::empty())
    } else {
        match enum_variants(variants, (n - 1) as nat, container) {
            Err(r) => Err(r),
            Ok(before) => match variant_plan((n - 1) as nat, variants[n - 1], container) {
                Err(r) => Err(r),
                Ok(plan) => Ok(before.push(plan)),
            },
        }
    }
}

proof fn lemma_enum_variants_fail(
    variants: Seq<Variant>,
    n: nat,
    m: nat,
    container: attrs::ContainerView,
)
    requires
        n <= m,
        enum_variants(variants, n, container) is Err,
    ensures
        enum_variants(variants, m, container) == enum_variants(variants, n, container),
    decreases m,
{
    if n < m {
        lemma_enum_variants_fail(variants, n, (m - 1) as nat, container);
    }
}

fn plan_variant(v: usize, variant: &Variant, container: &ContainerCfg) -> (r: Result<
    VariantPlan,
    DeriveError,
>)
    ensures
        match (r, variant_plan(v as nat, *variant, container@)) {
            (Ok(a), Ok(b)) => a@ == b,
            (Err(e), Err(p)) => e.reports(p),
            _ => false,
        },
{
    let unit = match variant.fields {
        Fields::Unit => true,
        _ => false,
    };
    if container.tag.is_none() && !unit {
        return Err(
            DeriveError {
                message: "RecordDecode on enums supports unit variants only; for data-carrying variants implement `FromGrpcValue` manually (or decode with `#[record(with = \"...\")]`)".to_owned(),
                at: Place::Variant(v),
            },
        );
    }
    let wire = match attrs::variant_wire_name(&variant.ident, &variant.attrs, container, false) {
        Ok(wire) => wire,
        Err(message) => {
            return Err(DeriveError { message, at: Place::Variant(v) });
        },
    };
    match &variant.fields {
        Fields::Unit => Ok(VariantPlan { ident: variant.ident.clone(), wire, fields: None }),
        Fields::Unnamed(_) => Err(
            DeriveError {
                message: "RecordDecode on internally-tagged enums supports struct variants only".to_owned(),
                at: Place::Variant(v),
            },
        ),
        Fields::Named(fields) => {
            let plans = plan_variant_fields(v, fields, container)?;
            Ok(VariantPlan { ident: variant.ident.clone(), wire, fields: Some(plans) })
        },
    }
}

/// The plans of an enum's variants: from strings without a tag, from records and maps with one.
pub fn plan_enum(variants: &Vec<Variant>, container: &ContainerCfg) -> (r: Result<
    Vec<VariantPlan>,
    DeriveError,
>)
    ensures
        match (r, enum_variants(variants@, variants@.len(), container@)) {
            (Ok(a), Ok(b)) => variant_views(a@) == b,
            (Err(e), Err(p)) => e.reports(p),
            _ => false,
        },
{
    let mut plans: Vec<VariantPlan> = Vec::new();
    assert(variant_views(plans@) =~= Seq::empty());
    for i in 0..variants.len()
        invariant
            enum_variants(variants@, i as nat, container@) == Ok::<
                Seq<VariantPlanView>,
                input::Refusal,
            >(variant_views(plans@)),
    {
        match plan_variant(i, &variants[i], container) {
            Ok(plan) => {
                let ghost before = variant_views(plans@);
                plans.push(plan);
                assert(variant_views(plans@) =~= before.push(plan@));
            },
            Err(e) => {
                proof {
                    lemma_enum_variants_fail(
                        variants@,
                        (i + 1) as nat,
                        variants@.len(),
                        container@,
                    );
                }
                return Err(e);
            },
        }
    }
    Ok(plans)
}

// ---------------------------------------------------------------------------
// Derive
// ---------------------------------------------------------------------------

/// The plan of a row type's shape.
pub open spec fn shape_plan(shape: Shape, container: attrs::ContainerView) -> Result<
    DecodeView,
    input::Refusal,
> {
    match shape {
        Shape::Struct(Fields::Named(fields)) => match struct_fields(
            fields@,
            fields@.len(),
            container,
        ) {
            Ok(plan) => Ok(DecodeView::Struct(plan)),
            Err(r) => Err(r),
        },
        Shape::Struct(Fields::Unnamed(fields)) => Ok(
            if fields@.len() == 1 {
                DecodeView::Newtype
            } else {
                DecodeView::Nothing
            },
        ),
        Shape::Struct(Fields::Unit) => Ok(DecodeView::Nothing),
        Shape::Enum(variants) => match enum_variants(variants@, variants@.len(), container) {
            Ok(plans) => Ok(
                match container.tag {
                    Some(tag) => DecodeView::Tagged(tag, plans),
                    None => DecodeView::Units(plans),
                },
            ),
            Err(r) => Err(r),
        },
        Shape::Union => Err(input::refusal("RecordDecode does not support unions"@, Place::Container)),
    }
}

/// The plan of a derived decoder: generic parameters are looked at first, then the container's
/// attributes, then the shape.
pub open spec fn decode_plan(row: RowType) -> Result<DecodeDeriveView, input::Refusal> {
    match input::checked_params(row.params@, "RecordDecode"@) {
        Err(r) => Err(r),
        Ok(lifetime) => match attrs::container_config(row.attrs@) {
            Err(message) => Err(input::Refusal { message, at: Place::Container }),
            Ok(container) => match shape_plan(row.shape, container) {
                Err(r) => Err(r),
                Ok(plan) => Ok(
                    DecodeDeriveView { crate_path: container.crate_path, lifetime, plan },
                ),
            },
        },
    }
}

fn plan_shape(shape: &Shape, container: &ContainerCfg) -> (r: Result<DecodePlan, DeriveError>)
    ensures
        match (r, shape_plan(*shape, container@)) {
            (Ok(a), Ok(b)) => a@ == b,
            (Err(e), Err(p)) => e.reports(p),
            _ => false,
        },
{
    match shape {
        Shape::Struct(Fields::Named(fields)) => {
            let plan = plan_struct(fields, container)?;
            Ok(DecodePlan::Struct(plan))
        },
        Shape::Struct(Fields::Unnamed(fields)) => Ok(
            if fields.len() == 1 {
                DecodePlan::Newtype
            } else {
                DecodePlan::Nothing
            },
        ),
        Shape::Struct(Fields::Unit) => Ok(DecodePlan::Nothing),
        Shape::Enum(variants) => {
            let plans = plan_enum(variants, container)?;
            Ok(
                match &container.tag {
                    Some(tag) => DecodePlan::Tagged { tag: tag.clone(), variants: plans },
                    None => DecodePlan::Units(plans),
                },
            )
        },
        Shape::Union => Err(
            DeriveError {
                message: "RecordDecode does not support unions".to_owned(),
                at: Place::Container,
            },
        ),
    }
}

/// The plan of `#[derive(RecordDecode)]` on a row type.
pub fn plan_decode(row: &RowType) -> (r: Result<DecodeDerive, DeriveError>)
    ensures
        match (r, decode_plan(*row)) {
            (Ok(a), Ok(b)) => a@ == b,
            (Err(e), Err(p)) => e.reports(p),
            _ => false,
        },
{
    let lifetime = input::check_params(&row.params, "RecordDecode")?;
    let container = match ContainerCfg::parse(&row.attrs) {
        Ok(container) => container,
        Err(message) => {
            return Err(DeriveError { message, at: Place::Container });
        },
    };
    let plan = plan_shape(&row.shape, &container)?;
    Ok(DecodeDerive { crate_path: container.crate_path, lifetime, plan })
}

} // verus!
