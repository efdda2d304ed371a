//! What a derived encoder does with each field: under which wire name and with which
//! expression it is written, when it is left out, and how a change of it is noticed.

use vstd::prelude::*;
use vstd::string::*;
use crate::text;
use crate::derive::attrs;
use crate::derive::attrs::{ContainerCfg, FieldCfg};
use crate::derive::code;
use crate::derive::input;
use crate::derive::input::{DeriveError, Field, Fields, Place, RowType, Shape, Variant};
use crate::derive::types;
use crate::derive::types::TypeExpr;

verus! {

// ---------------------------------------------------------------------------
// Plans
// ---------------------------------------------------------------------------

/// Where the wire value of a field comes from.
#[derive(Debug, PartialEq, Eq)]
pub enum ValueSource {
    /// The custom conversion at this path, called on a reference to the value.
    Converted(String),
    /// This expression.
    Code(String),
}

/// When a property is written.
#[derive(Debug, PartialEq, Eq)]
pub enum When {
    Always,
    /// `Option<T>`: when it is `Some`, the value bound to `__arcade_f`.
    IfSome,
    /// Unless the predicate at this path holds of the field.
    Unless(String),
    /// `Option<T>`: when it is `Some`, unless the predicate at this path holds of the field.
    IfSomeUnless(String),
}

/// How one field is written.
#[derive(Debug, PartialEq, Eq)]
pub enum WritePlan {
    Skipped,
    /// The properties of the nested record take the field's place, unless the predicate at
    /// this path holds of the field.
    Spliced { optional: bool, unless: Option<String> },
    Written { value: ValueSource, when: When },
}

/// When a field counts as changed between two snapshots. A property that the new snapshot
/// leaves out never does.
#[derive(Debug, PartialEq, Eq)]
pub enum DiffPlan {
    Skipped,
    /// The changed columns of the nested record. An optional one reports all its columns where
    /// there was none before, and nothing where there is none any more.
    Nested { optional: bool, unless: Option<String> },
    /// The field, or what its conversion makes of it, differs. An optional field counts only
    /// where the new value is there.
    Compared { converted: Option<String>, optional: bool, unless: Option<String> },
}

#[derive(Debug, PartialEq, Eq)]
pub struct EncodeField {
    pub ident: String,
    pub wire: String,
    /// The write from a borrowed row.
    pub write: WritePlan,
    /// The write that consumes the row.
    pub moved: WritePlan,
    pub diff: DiffPlan,
}

#[derive(Debug, PartialEq, Eq)]
pub struct EncodeStruct {
    pub fields: Vec<EncodeField>,
    /// The bulk-conflict identity: the wire names of the `key` fields, in declaration order.
    pub key_columns: Vec<String>,
}

#[derive(Debug, PartialEq, Eq)]
pub struct EncodeVariantField {
    pub ident: String,
    pub wire: String,
    pub write: WritePlan,
}

/// A unit variant has no fields and is written as its wire name.
#[derive(Debug, PartialEq, Eq)]
pub struct EncodeVariant {
    pub ident: String,
    pub wire: String,
    pub fields: Option<Vec<EncodeVariantField>>,
}

#[derive(Debug, PartialEq, Eq)]
pub enum EncodePlan {
    Struct(EncodeStruct),
    Enum { tag: Option<String>, variants: Vec<EncodeVariant> },
}

#[derive(Debug, PartialEq, Eq)]
pub struct EncodeDerive {
    pub crate_path: String,
    pub lifetime: Option<String>,
    pub plan: EncodePlan,
}

// ---------------------------------------------------------------------------
// Model
// ---------------------------------------------------------------------------

pub ghost enum SourceView {
    Converted(Seq<char>),
    Code(Seq<char>),
}

impl View for ValueSource {
    type V = SourceView;

    open spec fn view(&self) -> SourceView {
        match self {
            ValueSource::Converted(p) => SourceView::Converted(p@),
            ValueSource::Code(s) => SourceView::Code(s@),
        }
    }
}

pub ghost enum WhenView {
    Always,
    IfSome,
    Unless(Seq<char>),
    IfSomeUnless(Seq<char>),
}

impl View for When {
    type V = WhenView;

    open spec fn view(&self) -> WhenView {
        match self {
            When::Always => WhenView::Always,
            When::IfSome => WhenView::IfSome,
            When::Unless(p) => WhenView::Unless(p@),
            When::IfSomeUnless(p) => WhenView::IfSomeUnless(p@),
        }
    }
}

pub ghost enum WriteView {
    Skipped,
    Spliced(bool, Option<Seq<char>>),
    Written(SourceView, WhenView),
}

impl View for WritePlan {
    type V = WriteView;

    open spec fn view(&self) -> WriteView {
        match self {
            WritePlan::Skipped => WriteView::Skipped,
            WritePlan::Spliced { optional, unless } => WriteView::Spliced(
                *optional,
                text::optional(*unless),
            ),
            WritePlan::Written { value, when } => WriteView::Written(value@, when@),
        }
    }
}

pub ghost enum DiffView {
    Skipped,
    Nested(bool, Option<Seq<char>>),
    Compared(Option<Seq<char>>, bool, Option<Seq<char>>),
}

impl View for DiffPlan {
    type V = DiffView;

    open spec fn view(&self) -> DiffView {
        match self {
            DiffPlan::Skipped => DiffView::Skipped,
            DiffPlan::Nested { optional, unless } => DiffView::Nested(
                *optional,
                text::optional(*unless),
            ),
            DiffPlan::Compared { converted, optional, unless } => DiffView::Compared(
                text::optional(*converted),
                *optional,
                text::optional(*unless),
            ),
        }
    }
}

pub ghost struct EncodeFieldView {
    pub ident: Seq<char>,
    pub wire: Seq<char>,
    pub write: WriteView,
    pub moved: WriteView,
    pub diff: DiffView,
}

impl View for EncodeField {
    type V = EncodeFieldView;

    open spec fn view(&self) -> EncodeFieldView {
        EncodeFieldView {
            ident: self.ident@,
            wire: self.wire@,
            write: self.write@,
            moved: self.moved@,
            diff: self.diff@,
        }
    }
}

pub open spec fn encode_field_views(s: Seq<EncodeField>) -> Seq<EncodeFieldView> {
    Seq::new(s.len(), |i: int| s[i]@)
}

#[verifier::ext_equal]
pub ghost struct EncodeStructView {
    pub fields: Seq<EncodeFieldView>,
    pub key_columns: Seq<Seq<char>>,
}

impl View for EncodeStruct {
    type V = EncodeStructView;

    open spec fn view(&self) -> EncodeStructView {
        EncodeStructView {
            fields: encode_field_views(self.fields@),
            key_columns: text::texts(self.key_columns@),
        }
    }
}

pub ghost struct VariantFieldView {
    pub ident: Seq<char>,
    pub wire: Seq<char>,
    pub write: WriteView,
}

impl View for EncodeVariantField {
    type V = VariantFieldView;

    open spec fn view(&self) -> VariantFieldView {
        VariantFieldView { ident: self.ident@, wire: self.wire@, write: self.write@ }
    }
}

pub open spec fn variant_field_views(s: Seq<EncodeVariantField>) -> Seq<VariantFieldView> {
    Seq::new(s.len(), |i: int| s[i]@)
}

pub ghost struct EncodeVariantView {
    pub ident: Seq<char>,
    pub wire: Seq<char>,
    pub fields: Option<Seq<VariantFieldView>>,
}

impl View for EncodeVariant {
    type V = EncodeVariantView;

    open spec fn view(&self) -> EncodeVariantView {
        EncodeVariantView {
            ident: self.ident@,
            wire: self.wire@,
            fields: match self.fields {
                Some(fields) => Some(variant_field_views(fields@)),
                None => None,
            },
        }
    }
}

pub open spec fn encode_variant_views(s: Seq<EncodeVariant>) -> Seq<EncodeVariantView> {
    Seq::new(s.len(), |i: int| s[i]@)
}

pub ghost enum EncodeView {
    Struct(EncodeStructView),
    Enum(Option<Seq<char>>, Seq<EncodeVariantView>),
}

impl View for EncodePlan {
    type V = EncodeView;

    open spec fn view(&self) -> EncodeView {
        match self {
            EncodePlan::Struct(s) => EncodeView::Struct(s@),
            EncodePlan::Enum { tag, variants } => EncodeView::Enum(
                text::optional(*tag),
                encode_variant_views(variants@),
            ),
        }
    }
}

pub ghost struct EncodeDeriveView {
    pub crate_path: Seq<char>,
    pub lifetime: Option<Seq<char>>,
    pub plan: EncodeView,
}

impl View for EncodeDerive {
    type V = EncodeDeriveView;

    open spec fn view(&self) -> EncodeDeriveView {
        EncodeDeriveView {
            crate_path: self.crate_path@,
            lifetime: text::optional(self.lifetime),
            plan: self.plan@,
        }
    }
}

// ---------------------------------------------------------------------------
// Fields
// ---------------------------------------------------------------------------

/// The name that encoding writes: the serializing side of a rename, else the other side.
pub open spec fn written_name(cfg: attrs::FieldView) -> Option<Seq<char>> {
    attrs::side(cfg.names, true)
}

/// When a field is written: an `Option` when it is `Some`, and neither where the field's own
/// predicate leaves it out.
pub open spec fn field_when(optional: bool, cfg: attrs::FieldView) -> WhenView {
    match cfg.skip_if {
        Some(pred) => if optional {
            WhenView::IfSomeUnless(pred)
        } else {
            WhenView::Unless(pred)
        },
        None => if optional {
            WhenView::IfSome
        } else {
            WhenView::Always
        },
    }
}

/// A write by expression, where the type has one.
pub open spec fn coded(code: Result<Seq<char>, Seq<char>>, when: WhenView) -> Result<
    WriteView,
    Seq<char>,
> {
    match code {
        Ok(s) => Ok(WriteView::Written(SourceView::Code(s), when)),
        Err(m) => Err(m),
    }
}

/// How a field of a struct is written from a borrowed row.
pub open spec fn struct_write(
    ident: Seq<char>,
    ty: TypeExpr,
    cfg: attrs::FieldView,
    c: Seq<char>,
) -> Result<WriteView, Seq<char>> {
    let inner = types::inner_of_option(ty);
    if cfg.skip_encode {
        Ok(WriteView::Skipped)
    } else if cfg.flatten {
        if cfg.with is Some {
            Err("RecordEncode: `with` cannot be combined with a flattened field"@)
        } else {
            Ok(WriteView::Spliced(inner is Some, cfg.skip_if))
        }
    } else {
        let when = field_when(inner is Some, cfg);
        match cfg.with {
            Some(path) => Ok(WriteView::Written(SourceView::Converted(path), when)),
            None => match inner {
                Some(t) => coded(code::field_code(t, "__arcade_f"@, c), when),
                None => coded(code::field_code(ty, "&self."@ + ident, c), when),
            },
        }
    }
}

/// How a field of a struct is written by an encoder that consumes the row. Flattened fields
/// and custom conversions borrow.
pub open spec fn struct_move(
    ident: Seq<char>,
    ty: TypeExpr,
    cfg: attrs::FieldView,
    c: Seq<char>,
) -> Result<WriteView, Seq<char>> {
    if cfg.skip_encode || cfg.flatten || cfg.with is Some {
        struct_write(ident, ty, cfg, c)
    } else {
        match types::inner_of_option(ty) {
            Some(t) => coded(code::moved_code(t, "__arcade_f"@, c), field_when(true, cfg)),
            None => coded(code::moved_code(ty, "self."@ + ident, c), field_when(false, cfg)),
        }
    }
}

/// When a field of a struct counts as changed.
pub open spec fn struct_diff(ty: TypeExpr, cfg: attrs::FieldView) -> DiffView {
    if cfg.skip_encode {
        DiffView::Skipped
    } else if cfg.flatten {
        DiffView::Nested(types::inner_of_option(ty) is Some, cfg.skip_if)
    } else {
        DiffView::Compared(cfg.with, types::inner_of_option(ty) is Some, cfg.skip_if)
    }
}

/// How a field of a variant is written. Nothing is flattened there and nothing is a key.
pub open spec fn variant_write(
    ident: Seq<char>,
    ty: TypeExpr,
    cfg: attrs::FieldView,
    c: Seq<char>,
) -> Result<WriteView, Seq<char>> {
    let inner = types::inner_of_option(ty);
    if cfg.flatten {
        Err("RecordEncode: `flatten` is not supported inside enum variants"@)
    } else if cfg.key {
        Err("RecordEncode: `key` is not supported inside enum variants"@)
    } else if cfg.skip_encode {
        Ok(WriteView::Skipped)
    } else {
        let when = field_when(inner is Some, cfg);
        match cfg.with {
            Some(path) => Ok(WriteView::Written(SourceView::Converted(path), when)),
            None => match inner {
                Some(t) => coded(code::field_code(t, "__arcade_f"@, c), when),
                None => coded(code::field_code(ty, ident, c), when),
            },
        }
    }
}

/// Whether an outcome is the stated one, for the write of a field.
pub open spec fn same_write(r: Result<WritePlan, String>, stated: Result<WriteView, Seq<char>>) -> bool {
    match (r, stated) {
        (Ok(a), Ok(b)) => a@ == b,
        (Err(e), Err(m)) => e@ == m,
        _ => false,
    }
}

fn copy(s: &Option<String>) -> (r: Option<String>)
    ensures
        text::optional(r) == text::optional(*s),
{
    match s {
        Some(s) => Some(s.clone()),
        None => None,
    }
}

fn when_written(optional: bool, cfg: &FieldCfg) -> (r: When)
    ensures
        r@ == field_when(optional, cfg@),
{
    match &cfg.skip_serializing_if {
        Some(pred) => if optional {
            When::IfSomeUnless(pred.clone())
        } else {
            When::Unless(pred.clone())
        },
        None => if optional {
            When::IfSome
        } else {
            When::Always
        },
    }
}

fn write_code(code: Result<String, String>, when: When) -> (r: Result<WritePlan, String>)
    ensures
        match code {
            Ok(s) => r matches Ok(w) && w@ == WriteView::Written(SourceView::Code(s@), when@),
            Err(e) => r matches Err(f) && f@ == e@,
        },
{
    match code {
        Ok(s) => Ok(WritePlan::Written { value: ValueSource::Code(s), when }),
        Err(e) => Err(e),
    }
}

/// The write of a struct's field from a borrowed row: skip policy, `Option` left out when it
/// is `None`, a custom conversion, or the mapping of the type.
pub fn plan_write(ident: &String, ty: &TypeExpr, cfg: &FieldCfg, c: &str) -> (r: Result<
    WritePlan,
    String,
>)
    ensures
        same_write(r, struct_write(ident@, *ty, cfg@, c@)),
{
    if cfg.skip_encode {
        return Ok(WritePlan::Skipped);
    }
    let inner = types::option_inner(ty);
    if cfg.flatten {
        if cfg.with.is_some() {
            return Err(
                "RecordEncode: `with` cannot be combined with a flattened field".to_owned(),
            );
        }
        return Ok(
            WritePlan::Spliced {
                optional: inner.is_some(),
                unless: copy(&cfg.skip_serializing_if),
            },
        );
    }
    let when = when_written(inner.is_some(), cfg);
    match &cfg.with {
        Some(path) => Ok(
            WritePlan::Written { value: ValueSource::Converted(path.clone()), when },
        ),
        None => match inner {
            Some(t) => write_code(code::encode_field_value(t, "__arcade_f", c), when),
            None => {
                let mut expr = "&self.".to_owned();
                expr.append(ident.as_str());
                write_code(code::encode_field_value(ty, expr.as_str(), c), when)
            },
        },
    }
}

/// The write of a struct's field by an encoder that consumes the row: owned payloads move.
pub fn plan_move(ident: &String, ty: &TypeExpr, cfg: &FieldCfg, c: &str) -> (r: Result<
    WritePlan,
    String,
>)
    ensures
        same_write(r, struct_move(ident@, *ty, cfg@, c@)),
{
    if cfg.skip_encode || cfg.flatten || cfg.with.is_some() {
        return plan_write(ident, ty, cfg, c);
    }
    match types::option_inner(ty) {
        Some(t) => write_code(
            code::encode_field_value_move(t, "__arcade_f", c),
            when_written(true, cfg),
        ),
        None => {
            let mut expr = "self.".to_owned();
            expr.append(ident.as_str());
            write_code(
                code::encode_field_value_move(ty, expr.as_str(), c),
                when_written(false, cfg),
            )
        },
    }
}

/// When a struct's field counts as changed. A column that the new snapshot leaves out is never
/// reported.
pub fn plan_diff(ty: &TypeExpr, cfg: &FieldCfg) -> (r: DiffPlan)
    ensures
        r@ == struct_diff(*ty, cfg@),
{
    if cfg.skip_encode {
        return DiffPlan::Skipped;
    }
    if cfg.flatten {
        return DiffPlan::Nested {
            optional: types::option_inner(ty).is_some(),
            unless: copy(&cfg.skip_serializing_if),
        };
    }
    DiffPlan::Compared {
        converted: copy(&cfg.with),
        optional: types::option_inner(ty).is_some(),
        unless: copy(&cfg.skip_serializing_if),
    }
}

/// The write of one field of a struct variant.
pub fn plan_variant_pair(ident: &String, ty: &TypeExpr, cfg: &FieldCfg, c: &str) -> (r: Result<
    WritePlan,
    String,
>)
    ensures
        same_write(r, variant_write(ident@, *ty, cfg@, c@)),
{
    if cfg.flatten {
        return Err("RecordEncode: `flatten` is not supported inside enum variants".to_owned());
    }
    if cfg.key {
        return Err("RecordEncode: `key` is not supported inside enum variants".to_owned());
    }
    if cfg.skip_encode {
        return Ok(WritePlan::Skipped);
    }
    let inner = types::option_inner(ty);
    let when = when_written(inner.is_some(), cfg);
    match &cfg.with {
        Some(path) => Ok(
            WritePlan::Written { value: ValueSource::Converted(path.clone()), when },
        ),
        None => match inner {
            Some(t) => write_code(code::encode_field_value(t, "__arcade_f", c), when),
            None => write_code(code::encode_field_value(ty, ident.as_str(), c), when),
        },
    }
}

fn written_wire(ident: &String, cfg: &FieldCfg, rule: Option<crate::derive::naming::RenameRule>) -> (r:
    String)
    ensures
        r@ == input::field_wire(ident@, written_name(cfg@), rule),
{
    match &cfg.serialize_rename {
        Some(name) => name.clone(),
        None => input::wire_name(ident, &cfg.rename, rule),
    }
}

// ---------------------------------------------------------------------------
// Structs
// ---------------------------------------------------------------------------

/// The plan of one field of a struct.
pub open spec fn struct_field_plan(i: nat, f: Field, container: attrs::ContainerView) -> Result<
    (EncodeFieldView, bool),
    input::Refusal,
> {
    let at = Place::Field(i as usize);
    let c = container.crate_path;
    match attrs::field_config(f.attrs@) {
        Err(message) => Err(input::Refusal { message, at }),
        Ok(cfg) => if cfg.key && cfg.skip_encode {
            Err(input::refusal("RecordEncode: `key` cannot be combined with `skip`"@, at))
        } else {
            match struct_write(f.ident@, f.ty, cfg, c) {
                Err(m) => Err(input::refusal(m, at)),
                Ok(write) => match struct_move(f.ident@, f.ty, cfg, c) {
                    Err(m) => Err(input::refusal(m, at)),
                    Ok(moved) => Ok(
                        (
                            EncodeFieldView {
                                ident: f.ident@,
                                wire: input::field_wire(
                                    f.ident@,
                                    written_name(cfg),
                                    container.rename_all,
                                ),
                                write,
                                moved,
                                diff: struct_diff(f.ty, cfg),
                            },
                            cfg.key,
                        ),
                    ),
                },
            }
        },
    }
}

/// The plan of a struct by its first `n` fields, in order; the first refusal ends it.
pub open spec fn struct_fields(
    fields: Seq<Field>,
    n: nat,
    container: attrs::ContainerView,
) -> Result<EncodeStructView, input::Refusal>
    decreases n,
{
    if n == 0 {
        Ok(EncodeStructView { fields: Seq::empty(), key_columns: Seq::empty() })
    } else {
        match struct_fields(fields, (n - 1) as nat, container) {
            Err(r) => Err(r),
            Ok(before) => match struct_field_plan((n - 1) as nat, fields[n - 1], container) {
                Err(r) => Err(r),
                Ok((plan, key)) => Ok(
                    EncodeStructView {
                        fields: before.fields.push(plan),
                        key_columns: if key {
                            before.key_columns.push(plan.wire)
                        } else {
                            before.key_columns
                        },
                    },
                ),
            },
        }
    }
}

proof fn lemma_struct_fields_fail(
    fields: Seq<Field>,
    n: nat,
    m: nat,
    container: attrs::ContainerView,
)
    requires
        n <= m,
        struct_fields(fields, n, container) is Err,
    ensures
        struct_fields(fields, m, container) == struct_fields(fields, n, container),
    decreases m,
{
    if n < m {
        lemma_struct_fields_fail(fields, n, (m - 1) as nat, container);
    }
}

fn at_field(r: Result<WritePlan, String>, at: Place) -> (o: Result<WritePlan, DeriveError>)
    ensures
        match r {
            Ok(w) => o == Ok::<WritePlan, DeriveError>(w),
            Err(m) => o matches Err(e) && e.message@ == m@ && e.at == at,
        },
{
    match r {
        Ok(w) => Ok(w),
        Err(message) => Err(DeriveError { message, at }),
    }
}

fn plan_struct_field(i: usize, f: &Field, container: &ContainerCfg) -> (r: Result<
    (EncodeField, bool),
    DeriveError,
>)
    ensures
        match (r, struct_field_plan(i as nat, *f, container@)) {
            (Ok(a), Ok(b)) => a.0@ == b.0 && a.1 == b.1,
            (Err(e), Err(p)) => e.reports(p),
            _ => false,
        },
{
    let cfg = match FieldCfg::parse(&f.attrs) {
        Ok(cfg) => cfg,
        Err(message) => {
            return Err(DeriveError { message, at: Place::Field(i) });
        },
    };
    let wire = written_wire(&f.ident, &cfg, container.rename_all);
    if cfg.key && cfg.skip_encode {
        return Err(
            DeriveError {
                message: "RecordEncode: `key` cannot be combined with `skip`".to_owned(),
                at: Place::Field(i),
            },
        );
    }
    let c = container.crate_path.as_str();
    let write = at_field(plan_write(&f.ident, &f.ty, &cfg, c), Place::Field(i))?;
    let moved = at_field(plan_move(&f.ident, &f.ty, &cfg, c), Place::Field(i))?;
    let diff = plan_diff(&f.ty, &cfg);
    Ok((EncodeField { ident: f.ident.clone(), wire, write, moved, diff }, cfg.key))
}

/// The plan of a struct with named fields.
pub fn plan_struct(fields: &Vec<Field>, container: &ContainerCfg) -> (r: Result<
    EncodeStruct,
    DeriveError,
>)
    ensures
        match (r, struct_fields(fields@, fields@.len(), container@)) {
            (Ok(a), Ok(b)) => a@ == b,
            (Err(e), Err(p)) => e.reports(p),
            _ => false,
        },
{
    let mut plans: Vec<EncodeField> = Vec::new();
    let mut keys: Vec<String> = Vec::new();
    assert(encode_field_views(plans@) =~= Seq::empty());
    assert(text::texts(keys@) =~= Seq::empty());
    for i in 0..fields.len()
        invariant
            struct_fields(fields@, i as nat, container@) == Ok::<EncodeStructView, input::Refusal>(
                EncodeStructView {
                    fields: encode_field_views(plans@),
                    key_columns: text::texts(keys@),
                },
            ),
    {
        match plan_struct_field(i, &fields[i], container) {
            Ok((plan, key)) => {
                if key {
                    let w = plan.wire.clone();
                    proof {
                        text::lemma_texts_push(keys@, w);
                    }
                    keys.push(w);
                }
                let ghost before = encode_field_views(plans@);
                plans.push(plan);
                assert(encode_field_views(plans@) =~= before.push(plan@));
            },
            Err(e) => {
                proof {
                    lemma_struct_fields_fail(fields@, (i + 1) as nat, fields@.len(), container@);
                }
                return Err(e);
            },
        }
    }
    Ok(EncodeStruct { fields: plans, key_columns: keys })
}

// ---------------------------------------------------------------------------
// Enums
// ---------------------------------------------------------------------------

/// The writes of the first `n` fields of variant `v`, in order; the first refusal ends it.
pub open spec fn variant_fields(
    v: nat,
    fields: Seq<Field>,
    n: nat,
    container: attrs::ContainerView,
) -> Result<Seq<VariantFieldView>, input::Refusal>
    decreases n,
{
    if n == 0 {
        Ok(Seq::empty())
    } else {
        match variant_fields(v, fields, (n - 1) as nat, container) {
            Err(r) => Err(r),
            Ok(before) => {
                let f = fields[n - 1];
                let at = Place::VariantField(v as usize, (n - 1) as usize);
                match attrs::field_config(f.attrs@) {
                    Err(message) => Err(input::Refusal { message, at }),
                    Ok(cfg) => match variant_write(f.ident@, f.ty, cfg, container.crate_path) {
                        Err(m) => Err(input::refusal(m, at)),
                        Ok(write) => Ok(
                            before.push(
                                VariantFieldView {
                                    ident: f.ident@,
                                    wire: input::field_wire(
                                        f.ident@,
                                        written_name(cfg),
                                        container.rename_all_fields,
                                    ),
                                    write,
                                },
                            ),
                        ),
                    },
                }
            },
        }
    }
}

proof fn lemma_variant_fields_fail(
    v: nat,
    fields: Seq<Field>,
    n: nat,
    m: nat,
    container: attrs::ContainerView,
)
    requires
        n <= m,
        variant_fields(v, fields, n, container) is Err,
    ensures
        variant_fields(v, fields, m, container) == variant_fields(v, fields, n, container),
    decreases m,
{
    if n < m {
        lemma_variant_fields_fail(v, fields, n, (m - 1) as nat, container);
    }
}

/// The writes of a struct variant's fields.
pub fn plan_variant_pairs(v: usize, fields: &Vec<Field>, container: &ContainerCfg) -> (r: Result<
    Vec<EncodeVariantField>,
    DeriveError,
>)
    ensures
        match (r, variant_fields(v as nat, fields@, fields@.len(), container@)) {
            (Ok(a), Ok(b)) => variant_field_views(a@) == b,
            (Err(e), Err(p)) => e.reports(p),
            _ => false,
        },
{
    let mut plans: Vec<EncodeVariantField> = Vec::new();
    assert(variant_field_views(plans@) =~= Seq::empty());
    for i in 0..fields.len()
        invariant
            variant_fields(v as nat, fields@, i as nat, container@) == Ok::<
                Seq<VariantFieldView>,
                input::Refusal,
            >(variant_field_views(plans@)),
    {
        let f = &fields[i];
        let at = Place::VariantField(v, i);
        let cfg = match FieldCfg::parse(&f.attrs) {
            Ok(cfg) => cfg,
            Err(message) => {
                proof {
                    lemma_variant_fields_fail(
                        v as nat,
                        fields@,
                        (i + 1) as nat,
                        fields@.len(),
                        container@,
                    );
                }
                return Err(DeriveError { message, at });
            },
        };
        let wire = written_wire(&f.ident, &cfg, container.rename_all_fields);
        match plan_variant_pair(&f.ident, &f.ty, &cfg, container.crate_path.as_str()) {
            Ok(write) => {
                let plan = EncodeVariantField { ident: f.ident.clone(), wire, write };
                let ghost before = variant_field_views(plans@);
                plans.push(plan);
                assert(variant_field_views(plans@) =~= before.push(plan@));
            },
            Err(message) => {
                proof {
                    lemma_variant_fields_fail(
                        v as nat,
                        fields@,
                        (i + 1) as nat,
                        fields@.len(),
                        container@,
                    );
                }
                return Err(DeriveError { message, at });
            },
        }
    }
    Ok(plans)
}

/// The plan of variant `v`. Only a tagged enum may have variants with fields.
pub open spec fn variant_plan(v: nat, variant: Variant, container: attrs::ContainerView) -> Result<
    EncodeVariantView,
    input::Refusal,
> {
    let at = Place::Variant(v as usize);
    match attrs::variant_wire(variant.ident@, variant.attrs@, container, true) {
        Err(message) => Err(input::Refusal { message, at }),
        Ok(wire) => match variant.fields {
            Fields::Unit => Ok(EncodeVariantView { ident: variant.ident@, wire, fields: None }),
            Fields::Unnamed(_) => Err(
                input::refusal("RecordEncode on enums supports struct variants only"@, at),
            ),
            Fields::Named(fields) => if container.tag is None {
                Err(
                    input::refusal(
                        "RecordEncode: data-carrying variants require `#[serde(tag = \"...\")]` (internally-tagged); plain unit-variant enums need no tag"@,
                        at,
                    ),
                )
            } else {
                match variant_fields(v, fields@, fields@.len(), container) {
                    Err(r) => Err(r),
                    Ok(plans) => Ok(
                        EncodeVariantView { ident: variant.ident@, wire, fields: Some(plans) },
                    ),
                }
            },
        },
    }
}

/// The plans of the first `n` variants, in order; the first refusal ends it.
pub open spec fn enum_variants(
    variants: Seq<Variant>,
    n: nat,
    container: attrs::ContainerView,
) -> Result<Seq<EncodeVariantView>, input::Refusal>
    decreases n,
{
    if n == 0 {
        Ok(Seq::empty())
    } else {
        match enum_variants(variants, (n - 1) as nat, container) {
            Err(r) => Err(r),
            Ok(before) => match variant_plan((n - 1) as nat, variants[n - 1], container) {
                Err(r) => Err(r),
                Ok(plan) => Ok(before.push(plan)),
            },
        }
    }
}

proof fn lemma_enum_variants_fail(
    variants: Seq<Variant>,
    n: nat,
    m: nat,
    container: attrs::ContainerView,
)
    requires
        n <= m,
        enum_variants(variants, n, container) is Err,
    ensures
        enum_variants(variants, m, container) == enum_variants(variants, n, container),
    decreases m,
{
    if n < m {
        lemma_enum_variants_fail(variants, n, (m - 1) as nat, container);
    }
}

fn plan_variant(v: usize, variant: &Variant, container: &ContainerCfg) -> (r: Result<
    EncodeVariant,
    DeriveError,
>)
    ensures
        match (r, variant_plan(v as nat, *variant, container@)) {
            (Ok(a), Ok(b)) => a@ == b,
            (Err(e), Err(p)) => e.reports(p),
            _ => false,
        },
{
    let wire = match attrs::variant_wire_name(&variant.ident, &variant.attrs, container, true) {
        Ok(wire) => wire,
        Err(message) => {
            return Err(DeriveError { message, at: Place::Variant(v) });
        },
    };
    match &variant.fields {
        Fields::Unit => Ok(EncodeVariant { ident: variant.ident.clone(), wire, fields: None }),
        Fields::Unnamed(_) => Err(
            DeriveError {
                message: "RecordEncode on enums supports struct variants only".to_owned(),
                at: Place::Variant(v),
            },
        ),
        Fields::Named(fields) => {
            if container.tag.is_none() {
                return Err(
                    DeriveError {
                        message: "RecordEncode: data-carrying variants require `#[serde(tag = \"...\")]` (internally-tagged); plain unit-variant enums need no tag".to_owned(),
                        at: Place::Variant(v),
                    },
                );
            }
            let plans = plan_variant_pairs(v, fields, container)?;
            Ok(EncodeVariant { ident: variant.ident.clone(), wire, fields: Some(plans) })
        },
    }
}

/// The plans of an enum's variants. Unit variants become their wire string; variants with
/// fields become a map of the discriminator and the fields.
pub fn plan_enum(variants: &Vec<Variant>, container: &ContainerCfg) -> (r: Result<
    Vec<EncodeVariant>,
    DeriveError,
>)
    ensures
        match (r, enum_variants(variants@, variants@.len(), container@)) {
            (Ok(a), Ok(b)) => encode_variant_views(a@) == b,
            (Err(e), Err(p)) => e.reports(p),
            _ => false,
        },
{
    let mut plans: Vec<EncodeVariant> = Vec::new();
    assert(encode_variant_views(plans@) =~= Seq::empty());
    for i in 0..variants.len()
        invariant
            enum_variants(variants@, i as nat, container@) == Ok::<
                Seq<EncodeVariantView>,
                input::Refusal,
            >(encode_variant_views(plans@)),
    {
        match plan_variant(i, &variants[i], container) {
            Ok(plan) => {
                let ghost before = encode_variant_views(plans@);
                plans.push(plan);
                assert(encode_variant_views(plans@) =~= before.push(plan@));
            },
            Err(e) => {
                proof {
                    lemma_enum_variants_fail(
                        variants@,
                        (i + 1) as nat,
                        variants@.len(),
                        container@,
                    );
                }
                return Err(e);
            },
        }
    }
    Ok(plans)
}

// ---------------------------------------------------------------------------
// Derive
// ---------------------------------------------------------------------------

/// The plan of a row type's shape.
pub open spec fn shape_plan(shape: Shape, container: attrs::ContainerView) -> Result<
    EncodeView,
    input::Refusal,
> {
    match shape {
        Shape::Struct(Fields::Named(fields)) => match struct_fields(
            fields@,
            fields@.len(),
            container,
        ) {
            Ok(plan) => Ok(EncodeView::Struct(plan)),
            Err(r) => Err(r),
        },
        Shape::Struct(_) => Err(
            input::refusal(
                "RecordEncode supports named-field structs only; newtype wrappers plug in through `#[record(with = \"...\")]` on the field instead"@,
                Place::Container,
            ),
        ),
        Shape::Enum(variants) => match enum_variants(variants@, variants@.len(), container) {
            Ok(plans) => Ok(EncodeView::Enum(container.tag, plans)),
            Err(r) => Err(r),
        },
        Shape::Union => Err(input::refusal("RecordEncode does not support unions"@, Place::Container)),
    }
}

/// The plan of a derived encoder: generic parameters are looked at first, then the container's
/// attributes, then the shape.
pub open spec fn encode_plan(row: RowType) -> Result<EncodeDeriveView, input::Refusal> {
    match input::checked_params(row.params@, "RecordEncode"@) {
        Err(r) => Err(r),
        Ok(lifetime) => match attrs::container_config(row.attrs@) {
            Err(message) => Err(input::Refusal { message, at: Place::Container }),
            Ok(container) => match shape_plan(row.shape, container) {
                Err(r) => Err(r),
                Ok(plan) => Ok(
                    EncodeDeriveView { crate_path: container.crate_path, lifetime, plan },
                ),
            },
        },
    }
}

fn plan_shape(shape: &Shape, container: &ContainerCfg) -> (r: Result<EncodePlan, DeriveError>)
    ensures
        match (r, shape_plan(*shape, container@)) {
            (Ok(a), Ok(b)) => a@ == b,
            (Err(e), Err(p)) => e.reports(p),
            _ => false,
        },
{
    match shape {
        Shape::Struct(Fields::Named(fields)) => {
            let plan = plan_struct(fields, container)?;
            Ok(EncodePlan::Struct(plan))
        },
        Shape::Struct(_) => Err(
            DeriveError {
                message: "RecordEncode supports named-field structs only; newtype wrappers plug in through `#[record(with = \"...\")]` on the field instead".to_owned(),
                at: Place::Container,
            },
        ),
        Shape::Enum(variants) => {
            let plans = plan_enum(variants, container)?;
            Ok(EncodePlan::Enum { tag: copy(&container.tag), variants: plans })
        },
        Shape::Union => Err(
            DeriveError {
                message: "RecordEncode does not support unions".to_owned(),
                at: Place::Container,
            },
        ),
    }
}

/// The plan of `#[derive(RecordEncode)]` on a row type.
pub fn plan_encode(row: &RowType) -> (r: Result<EncodeDerive, DeriveError>)
    ensures
        match (r, encode_plan(*row)) {
            (Ok(a), Ok(b)) => a@ == b,
            (Err(e), Err(p)) => e.reports(p),
            _ => false,
        },
{
    let lifetime = input::check_params(&row.params, "RecordEncode")?;
    let container = match ContainerCfg::parse(&row.attrs) {
        Ok(container) => container,
        Err(message) => {
            return Err(DeriveError { message, at: Place::Container });
        },
    };
    let plan = plan_shape(&row.shape, &container)?;
    Ok(EncodeDerive { crate_path: container.crate_path, lifetime, plan })
}

} // verus!
