//! Wire values: the record, value and container messages of the protocol.
//!
//! Floating-point payloads are carried as their IEEE-754 bit patterns; [`same_single`] and
//! [`same_double`] compare them as numbers.

use vstd::prelude::*;
use crate::props;
use crate::props::PropMap;
use crate::text;

verus! {

broadcast use vstd::seq_lib::group_seq_properties;

// ---------------------------------------------------------------------------
// Messages
// ---------------------------------------------------------------------------

/// A point in time: seconds since the epoch and nanoseconds within the second.
#[derive(Debug, Clone, Copy, PartialEq, Eq, Structural)]
pub struct Timestamp {
    pub seconds: i64,
    pub nanos: i32,
}

/// A list of values.
#[derive(Debug)]
pub struct GrpcList {
    pub values: Vec<GrpcValue>,
}

/// A string-keyed map of values.
#[derive(Debug)]
pub struct GrpcMap {
    pub entries: PropMap<GrpcValue>,
}

/// A record embedded in a value.
#[derive(Debug)]
pub struct GrpcEmbedded {
    pub class: String,
    pub fields: PropMap<GrpcValue>,
}

/// A reference to a record by its rid (`#bucket:pos`).
#[derive(Debug)]
pub struct GrpcLink {
    pub rid: String,
    pub class: String,
}

/// An exact decimal: `unscaled * 10^-scale`, with the unscaled value in big-endian two's
/// complement in `unscaled_bytes` when that is not empty.
#[derive(Debug)]
pub struct GrpcDecimal {
    pub unscaled: i64,
    pub scale: i32,
    pub unscaled_bytes: Vec<u8>,
}

/// The payload of a value.
#[derive(Debug)]
pub enum Kind {
    BoolValue(bool),
    Int32Value(i32),
    Int64Value(i64),
    /// The bit pattern of a single-precision number.
    FloatValue(u32),
    /// The bit pattern of a double-precision number.
    DoubleValue(u64),
    StringValue(String),
    BytesValue(Vec<u8>),
    TimestampValue(Timestamp),
    ListValue(GrpcList),
    MapValue(GrpcMap),
    EmbeddedValue(GrpcEmbedded),
    LinkValue(GrpcLink),
    DecimalValue(GrpcDecimal),
}

/// A value; an unset payload is the wire's null.
#[derive(Debug)]
pub struct GrpcValue {
    pub kind: Option<Kind>,
    pub logical_type: String,
}

/// A record: its identity, its type and its properties.
#[derive(Debug)]
pub struct GrpcRecord {
    pub rid: String,
    pub class: String,
    pub properties: PropMap<GrpcValue>,
}

// ---------------------------------------------------------------------------
// Models
// ---------------------------------------------------------------------------

/// What a value says.
#[verifier::ext_equal]
pub struct ValueView {
    pub kind: Option<KindView>,
    pub logical_type: Seq<char>,
}

/// What a payload says.
#[verifier::ext_equal]
pub enum KindView {
    Bool(bool),
    Int32(i32),
    Int64(i64),
    Float(u32),
    Double(u64),
    Text(Seq<char>),
    Bytes(Seq<u8>),
    Time(Timestamp),
    List(Seq<ValueView>),
    Entries(Map<Seq<char>, ValueView>),
    Embedded(Seq<char>, Map<Seq<char>, ValueView>),
    Link(Seq<char>, Seq<char>),
    Decimal(i64, i32, Seq<u8>),
}

/// What a record says.
#[verifier::ext_equal]
pub struct RecordView {
    pub rid: Seq<char>,
    pub class: Seq<char>,
    pub properties: Map<Seq<char>, ValueView>,
}

pub open spec fn value_view(v: GrpcValue) -> ValueView
    decreases v,
{
    ValueView {
        kind: match v.kind {
            None => None,
            Some(k) => Some(kind_view(k)),
        },
        logical_type: v.logical_type@,
    }
}

pub open spec fn kind_view(k: Kind) -> KindView
    decreases k,
{
    match k {
        Kind::BoolValue(b) => KindView::Bool(b),
        Kind::Int32Value(n) => KindView::Int32(n),
        Kind::Int64Value(n) => KindView::Int64(n),
        Kind::FloatValue(f) => KindView::Float(f),
        Kind::DoubleValue(d) => KindView::Double(d),
        Kind::StringValue(s) => KindView::Text(s@),
        Kind::BytesValue(b) => KindView::Bytes(b@),
        Kind::TimestampValue(t) => KindView::Time(t),
        Kind::ListValue(l) => KindView::List(values_view(l.values@)),
        Kind::MapValue(m) => {
            proof {
                m.entries.lemma_pairs();
            }
            KindView::Entries(pairs_view(m.entries.pairs()))
        },
        Kind::EmbeddedValue(e) => {
            proof {
                e.fields.lemma_pairs();
            }
            KindView::Embedded(e.class@, pairs_view(e.fields.pairs()))
        },
        Kind::LinkValue(l) => KindView::Link(l.rid@, l.class@),
        Kind::DecimalValue(d) => KindView::Decimal(d.unscaled, d.scale, d.unscaled_bytes@),
    }
}

pub open spec fn values_view(s: Seq<GrpcValue>) -> Seq<ValueView>
    decreases s,
{
    Seq::new(
        s.len(),
        |i: int|
            if 0 <= i < s.len() {
                value_view(s[i])
            } else {
                arbitrary()
            },
    )
}

pub open spec fn pairs_view(s: Seq<(String, GrpcValue)>) -> Map<Seq<char>, ValueView>
    decreases s,
{
    if s.len() == 0 {
        Map::empty()
    } else {
        pairs_view(s.drop_last()).insert(s.last().0@, value_view(s.last().1))
    }
}

/// What the properties in `m` say.
pub open spec fn entries_view(m: PropMap<GrpcValue>) -> Map<Seq<char>, ValueView> {
    pairs_view(m.pairs())
}

impl View for GrpcValue {
    type V = ValueView;

    open spec fn view(&self) -> ValueView {
        value_view(*self)
    }
}

impl View for Kind {
    type V = KindView;

    open spec fn view(&self) -> KindView {
        kind_view(*self)
    }
}

impl View for GrpcRecord {
    type V = RecordView;

    open spec fn view(&self) -> RecordView {
        RecordView {
            rid: self.rid@,
            class: self.class@,
            properties: entries_view(self.properties),
        }
    }
}

proof fn lemma_pairs_views(s: Seq<(String, GrpcValue)>)
    ensures
        pairs_view(s).dom() == props::pairs_map(s).dom(),
        forall|k: Seq<char>| #[trigger]
            props::pairs_map(s).contains_key(k) ==> pairs_view(s)[k] == props::pairs_map(s)[k]@,
    decreases s.len(),
{
    if s.len() > 0 {
        lemma_pairs_views(s.drop_last());
        assert(pairs_view(s).dom() =~= props::pairs_map(s).dom());
    } else {
        assert(pairs_view(s).dom() =~= props::pairs_map(s).dom());
    }
}

/// What a map says of a name is what the value under that name says.
pub proof fn lemma_entries(m: PropMap<GrpcValue>)
    ensures
        entries_view(m).dom() == m@.dom(),
        forall|k: Seq<char>| #[trigger]
            m@.contains_key(k) ==> entries_view(m)[k] == m@[k]@,
{
    m.lemma_pairs();
    lemma_pairs_views(m.pairs());
}

// ---------------------------------------------------------------------------
// Copies
// ---------------------------------------------------------------------------

fn copy_bytes(b: &Vec<u8>) -> (r: Vec<u8>)
    ensures
        r@ == b@,
{
    let r = b.clone();
    assert(r@ =~= b@);
    r
}

fn copy_kind(k: &Kind) -> (r: Kind)
    ensures
        r@ == k@,
    decreases k,
{
    match k {
        Kind::BoolValue(b) => Kind::BoolValue(*b),
        Kind::Int32Value(n) => Kind::Int32Value(*n),
        Kind::Int64Value(n) => Kind::Int64Value(*n),
        Kind::FloatValue(f) => Kind::FloatValue(*f),
        Kind::DoubleValue(d) => Kind::DoubleValue(*d),
        Kind::StringValue(s) => Kind::StringValue(s.clone()),
        Kind::BytesValue(b) => Kind::BytesValue(copy_bytes(b)),
        Kind::TimestampValue(t) => Kind::TimestampValue(*t),
        Kind::ListValue(l) => Kind::ListValue(GrpcList { values: copy_values(&l.values) }),
        Kind::MapValue(m) => {
            let entries = copy_entries(&m.entries);
            Kind::MapValue(GrpcMap { entries })
        },
        Kind::EmbeddedValue(e) => {
            let fields = copy_entries(&e.fields);
            Kind::EmbeddedValue(GrpcEmbedded { class: e.class.clone(), fields })
        },
        Kind::LinkValue(l) => Kind::LinkValue(
            GrpcLink { rid: l.rid.clone(), class: l.class.clone() },
        ),
        Kind::DecimalValue(d) => Kind::DecimalValue(
            GrpcDecimal {
                unscaled: d.unscaled,
                scale: d.scale,
                unscaled_bytes: copy_bytes(&d.unscaled_bytes),
            },
        ),
    }
}

fn copy_value(v: &GrpcValue) -> (r: GrpcValue)
    ensures
        r@ == v@,
    decreases v,
{
    GrpcValue {
        kind: match &v.kind {
            None => None,
            Some(k) => Some(copy_kind(k)),
        },
        logical_type: v.logical_type.clone(),
    }
}

fn copy_values(vs: &Vec<GrpcValue>) -> (r: Vec<GrpcValue>)
    ensures
        values_view(r@) == values_view(vs@),
    decreases vs,
{
    let mut out: Vec<GrpcValue> = Vec::new();
    for i in 0..vs.len()
        invariant
            out@.len() == i,
            forall|j: int| 0 <= j < i ==> (#[trigger] out@[j])@ == vs@[j]@,
    {
        assert(decreases_to!(vs@ => vs@[i as int]));
        out.push(copy_value(&vs[i]));
    }
    assert(values_view(out@) =~= values_view(vs@));
    out
}

fn copy_entries(m: &PropMap<GrpcValue>) -> (r: PropMap<GrpcValue>)
    ensures
        entries_view(r) == entries_view(*m),
    decreases m,
{
    let mut out: PropMap<GrpcValue> = PropMap::new();
    let n = m.len();
    proof {
        lemma_entries(out);
    }
    assert(entries_view(out) =~= pairs_view(m.pairs().take(0)));
    for i in 0..n
        invariant
            n == m.pairs().len(),
            entries_view(out) == pairs_view(m.pairs().take(i as int)),
    {
        proof {
            m.lemma_pairs();
            assert(decreases_to!(m.pairs() => m.pairs()[i as int]));
            assert(m.pairs().take(i + 1).drop_last() =~= m.pairs().take(i as int));
        }
        let (k, v) = m.entry(i);
        let w = copy_value(v);
        let ghost before = out;
        out.insert(k.clone(), w);
        proof {
            lemma_entries(before);
            lemma_entries(out);
            assert(entries_view(out) =~= entries_view(before).insert(k@, w@));
        }
    }
    assert(m.pairs().take(n as int) =~= m.pairs());
    out
}

impl Clone for GrpcValue {
    fn clone(&self) -> (r: Self)
        ensures
            r@ == self@,
    {
        copy_value(self)
    }
}

impl Clone for Kind {
    fn clone(&self) -> (r: Self)
        ensures
            r@ == self@,
    {
        copy_kind(self)
    }
}

impl Clone for GrpcRecord {
    fn clone(&self) -> (r: Self)
        ensures
            r@ == self@,
    {
        GrpcRecord {
            rid: self.rid.clone(),
            class: self.class.clone(),
            properties: copy_entries(&self.properties),
        }
    }
}

impl Clone for PropMap<GrpcValue> {
    fn clone(&self) -> (r: Self)
        ensures
            entries_view(r) == entries_view(*self),
    {
        copy_entries(self)
    }
}

// ---------------------------------------------------------------------------
// Equality
// ---------------------------------------------------------------------------

/// The bit pattern of a single-precision number that is not a number.
pub open spec fn single_nan(b: u32) -> bool {
    b % 0x8000_0000u32 > 0x7f80_0000u32
}

/// The bit pattern of a double-precision number that is not a number.
pub open spec fn double_nan(b: u64) -> bool {
    b % 0x8000_0000_0000_0000u64 > 0x7ff0_0000_0000_0000u64
}

/// Two single-precision bit patterns stand for equal numbers: neither is NaN, and they are
/// the same or both are a zero.
pub open spec fn same_single(a: u32, b: u32) -> bool {
    !single_nan(a) && !single_nan(b) && (a == b || (a % 0x8000_0000u32 == 0 && b % 0x8000_0000u32
        == 0))
}

/// Two double-precision bit patterns stand for equal numbers.
pub open spec fn same_double(a: u64, b: u64) -> bool {
    !double_nan(a) && !double_nan(b) && (a == b || (a % 0x8000_0000_0000_0000u64 == 0 && b
        % 0x8000_0000_0000_0000u64 == 0))
}

/// Two values are equal: the same payload kind with equal contents, numbers compared as
/// numbers, and the same logical type.
pub open spec fn value_eq(a: ValueView, b: ValueView) -> bool
    decreases a,
{
    a.logical_type == b.logical_type && match (a.kind, b.kind) {
        (None, None) => true,
        (Some(x), Some(y)) => kind_eq(x, y),
        _ => false,
    }
}

pub open spec fn kind_eq(a: KindView, b: KindView) -> bool
    decreases a,
{
    match (a, b) {
        (KindView::Float(x), KindView::Float(y)) => same_single(x, y),
        (KindView::Double(x), KindView::Double(y)) => same_double(x, y),
        (KindView::List(x), KindView::List(y)) => x.len() == y.len() && forall|i: int|
            0 <= i < x.len() ==> value_eq(x[i], #[trigger] y[i]),
        (KindView::Entries(x), KindView::Entries(y)) => x.dom() == y.dom() && forall|k: Seq<char>|
         #[trigger]
            x.contains_key(k) ==> value_eq(x[k], y[k]),
        (KindView::Embedded(c, x), KindView::Embedded(d, y)) => c == d && x.dom() == y.dom()
            && forall|k: Seq<char>| #[trigger] x.contains_key(k) ==> value_eq(x[k], y[k]),
        (KindView::Float(_), _) | (KindView::Double(_), _) | (KindView::List(_), _) | (
            KindView::Entries(_),
            _,
        ) | (KindView::Embedded(_, _), _) => false,
        _ => a == b,
    }
}

/// Two maps have the same names, with equal values under each.
pub open spec fn entries_eq(x: Map<Seq<char>, ValueView>, y: Map<Seq<char>, ValueView>) -> bool {
    x.dom() == y.dom() && forall|k: Seq<char>| #[trigger]
        x.contains_key(k) ==> value_eq(x[k], y[k])
}

/// No number inside `a` is NaN.
pub open spec fn nan_free(a: ValueView) -> bool
    decreases a,
{
    match a.kind {
        None => true,
        Some(k) => kind_nan_free(k),
    }
}

pub open spec fn kind_nan_free(k: KindView) -> bool
    decreases k,
{
    match k {
        KindView::Float(x) => !single_nan(x),
        KindView::Double(x) => !double_nan(x),
        KindView::List(x) => forall|i: int| 0 <= i < x.len() ==> nan_free(#[trigger] x[i]),
        KindView::Entries(x) => forall|n: Seq<char>| #[trigger]
            x.contains_key(n) ==> nan_free(x[n]),
        KindView::Embedded(_, x) => forall|n: Seq<char>| #[trigger]
            x.contains_key(n) ==> nan_free(x[n]),
        _ => true,
    }
}

/// A value without NaN equals itself.
pub proof fn law_nan_free_values_equal_themselves(a: ValueView)
    requires
        nan_free(a),
    ensures
        value_eq(a, a),
    decreases a,
{
    if let Some(k) = a.kind {
        match k {
            KindView::List(x) => {
                assert forall|i: int| 0 <= i < x.len() implies value_eq(x[i], #[trigger] x[i]) by {
                    law_nan_free_values_equal_themselves(x[i]);
                }
            },
            KindView::Entries(x) => {
                assert forall|n: Seq<char>| #[trigger] x.contains_key(n) implies value_eq(
                    x[n],
                    x[n],
                ) by {
                    law_nan_free_values_equal_themselves(x[n]);
                }
            },
            KindView::Embedded(_, x) => {
                assert forall|n: Seq<char>| #[trigger] x.contains_key(n) implies value_eq(
                    x[n],
                    x[n],
                ) by {
                    law_nan_free_values_equal_themselves(x[n]);
                }
            },
            _ => {},
        }
    }
}

fn equal_bytes(a: &Vec<u8>, b: &Vec<u8>) -> (r: bool)
    ensures
        r == (a@ == b@),
{
    if a.len() != b.len() {
        return false;
    }
    for i in 0..a.len()
        invariant
            a.len() == b.len(),
            forall|j: int| 0 <= j < i ==> a@[j] == b@[j],
    {
        if a[i] != b[i] {
            return false;
        }
    }
    assert(a@ =~= b@);
    true
}

fn equal_single(a: u32, b: u32) -> (r: bool)
    ensures
        r == same_single(a, b),
{
    a % 0x8000_0000u32 <= 0x7f80_0000u32 && b % 0x8000_0000u32 <= 0x7f80_0000u32 && (a == b || (a
        % 0x8000_0000u32 == 0 && b % 0x8000_0000u32 == 0))
}

/// Whether two double-precision bit patterns stand for equal numbers.
pub fn equal_double(a: u64, b: u64) -> (r: bool)
    ensures
        r == same_double(a, b),
{
    a % 0x8000_0000_0000_0000u64 <= 0x7ff0_0000_0000_0000u64 && b % 0x8000_0000_0000_0000u64
        <= 0x7ff0_0000_0000_0000u64 && (a == b || (a % 0x8000_0000_0000_0000u64 == 0 && b
        % 0x8000_0000_0000_0000u64 == 0))
}

/// Whether two values are equal.
pub fn equal_values(a: &GrpcValue, b: &GrpcValue) -> (r: bool)
    ensures
        r == value_eq(a@, b@),
    decreases a,
{
    if !text::same(a.logical_type.as_str(), b.logical_type.as_str()) {
        return false;
    }
    match (&a.kind, &b.kind) {
        (None, None) => true,
        (Some(x), Some(y)) => equal_kinds(x, y),
        _ => false,
    }
}

/// Whether two payloads are equal.
pub fn equal_kinds(a: &Kind, b: &Kind) -> (r: bool)
    ensures
        r == kind_eq(a@, b@),
    decreases a,
{
    match (a, b) {
        (Kind::BoolValue(x), Kind::BoolValue(y)) => *x == *y,
        (Kind::Int32Value(x), Kind::Int32Value(y)) => *x == *y,
        (Kind::Int64Value(x), Kind::Int64Value(y)) => *x == *y,
        (Kind::FloatValue(x), Kind::FloatValue(y)) => equal_single(*x, *y),
        (Kind::DoubleValue(x), Kind::DoubleValue(y)) => equal_double(*x, *y),
        (Kind::StringValue(x), Kind::StringValue(y)) => text::same(x.as_str(), y.as_str()),
        (Kind::BytesValue(x), Kind::BytesValue(y)) => equal_bytes(x, y),
        (Kind::TimestampValue(x), Kind::TimestampValue(y)) => *x == *y,
        (Kind::ListValue(x), Kind::ListValue(y)) => equal_lists(&x.values, &y.values),
        (Kind::MapValue(x), Kind::MapValue(y)) => equal_entries(&x.entries, &y.entries),
        (Kind::EmbeddedValue(x), Kind::EmbeddedValue(y)) => {
            text::same(x.class.as_str(), y.class.as_str()) && equal_entries(&x.fields, &y.fields)
        },
        (Kind::LinkValue(x), Kind::LinkValue(y)) => text::same(x.rid.as_str(), y.rid.as_str())
            && text::same(x.class.as_str(), y.class.as_str()),
        (Kind::DecimalValue(x), Kind::DecimalValue(y)) => x.unscaled == y.unscaled && x.scale
            == y.scale && equal_bytes(&x.unscaled_bytes, &y.unscaled_bytes),
        _ => false,
    }
}

fn equal_lists(a: &Vec<GrpcValue>, b: &Vec<GrpcValue>) -> (r: bool)
    ensures
        r == kind_eq(KindView::List(values_view(a@)), KindView::List(values_view(b@))),
    decreases a,
{
    if a.len() != b.len() {
        return false;
    }
    let ghost x = values_view(a@);
    let ghost y = values_view(b@);
    for i in 0..a.len()
        invariant
            a.len() == b.len(),
            x == values_view(a@),
            y == values_view(b@),
            forall|j: int| 0 <= j < i ==> value_eq(x[j], #[trigger] y[j]),
    {
        assert(decreases_to!(a@ => a@[i as int]));
        let e = equal_values(&a[i], &b[i]);
        assert(x[i as int] == a@[i as int]@ && y[i as int] == b@[i as int]@);
        if !e {
            return false;
        }
    }
    true
}

fn equal_entries(a: &PropMap<GrpcValue>, b: &PropMap<GrpcValue>) -> (r: bool)
    ensures
        r == entries_eq(entries_view(*a), entries_view(*b)),
    decreases a,
{
    let n = a.len();
    let m = b.len();
    let ghost x = entries_view(*a);
    let ghost y = entries_view(*b);
    proof {
        lemma_entries(*a);
        lemma_entries(*b);
        a.lemma_pairs();
        props::lemma_pairs_map(a.pairs());
    }
    if n != m {
        return false;
    }
    for i in 0..n
        invariant
            n == a.pairs().len(),
            x == entries_view(*a),
            y == entries_view(*b),
            x.dom() == a@.dom(),
            y.dom() == b@.dom(),
            forall|k: Seq<char>| #[trigger] a@.contains_key(k) ==> x[k] == a@[k]@,
            forall|k: Seq<char>| #[trigger] b@.contains_key(k) ==> y[k] == b@[k]@,
            forall|j: int|
                0 <= j < i ==> y.contains_key((#[trigger] a.pairs()[j]).0@) && value_eq(
                    x[a.pairs()[j].0@],
                    y[a.pairs()[j].0@],
                ),
    {
        proof {
            a.lemma_pairs();
            assert(decreases_to!(a.pairs() => a.pairs()[i as int]));
        }
        let (k, v) = a.entry(i);
        match b.get(k.as_str()) {
            None => {
                assert(x.contains_key(k@));
                return false;
            },
            Some(w) => {
                let e = equal_values(v, w);
                assert(x[k@] == v@);
                assert(y[k@] == w@);
                if !e {
                    assert(x.contains_key(k@));
                    return false;
                }
            },
        }
    }
    proof {
        assert forall|k: Seq<char>| #[trigger] x.contains_key(k) implies y.contains_key(k)
            && value_eq(x[k], y[k]) by {
            let j = choose|j: int| 0 <= j < a.pairs().len() && (#[trigger] a.pairs()[j]).0@ == k;
            assert(a.pairs()[j].0@ == k);
        }
        vstd::set_lib::lemma_subset_equality(x.dom(), y.dom());
    }
    true
}

impl PartialEq for GrpcValue {
    fn eq(&self, other: &Self) -> (r: bool) {
        equal_values(self, other)
    }
}

impl vstd::std_specs::cmp::PartialEqSpecImpl for GrpcValue {
    open spec fn obeys_eq_spec() -> bool {
        true
    }

    open spec fn eq_spec(&self, other: &Self) -> bool {
        value_eq(self@, other@)
    }
}

impl PartialEq for Kind {
    fn eq(&self, other: &Self) -> (r: bool) {
        equal_kinds(self, other)
    }
}

impl vstd::std_specs::cmp::PartialEqSpecImpl for Kind {
    open spec fn obeys_eq_spec() -> bool {
        true
    }

    open spec fn eq_spec(&self, other: &Self) -> bool {
        kind_eq(self@, other@)
    }
}

// ---------------------------------------------------------------------------
// Laws
// ---------------------------------------------------------------------------

/// No floating-point number occurs in the value, at any depth.
pub open spec fn float_free(a: ValueView) -> bool
    decreases a,
{
    match a.kind {
        None => true,
        Some(k) => match k {
            KindView::Float(_) => false,
            KindView::Double(_) => false,
            KindView::List(x) => forall|i: int| 0 <= i < x.len() ==> float_free(#[trigger] x[i]),
            KindView::Entries(x) => forall|n: Seq<char>| #[trigger]
                x.contains_key(n) ==> float_free(x[n]),
            KindView::Embedded(_, x) => forall|n: Seq<char>| #[trigger]
                x.contains_key(n) ==> float_free(x[n]),
            _ => true,
        },
    }
}

/// The value with every negative zero in it made positive.
pub open spec fn unsigned_zeros(a: ValueView) -> ValueView
    decreases a,
{
    ValueView {
        kind: match a.kind {
            None => None,
            Some(k) => Some(
                match k {
                    KindView::Float(x) => KindView::Float(if x == 0x8000_0000u32 { 0 } else { x }),
                    KindView::Double(x) => KindView::Double(
                        if x == 0x8000_0000_0000_0000u64 { 0 } else { x },
                    ),
                    KindView::List(x) => KindView::List(
                        Seq::new(
                            x.len(),
                            |i: int|
                                if 0 <= i < x.len() { unsigned_zeros(x[i]) } else { arbitrary() },
                        ),
                    ),
                    KindView::Entries(x) => KindView::Entries(
                        Map::new(
                            |n: Seq<char>| x.contains_key(n),
                            |n: Seq<char>|
                                if x.contains_key(n) { unsigned_zeros(x[n]) } else { arbitrary() },
                        ),
                    ),
                    KindView::Embedded(c, x) => KindView::Embedded(
                        c,
                        Map::new(
                            |n: Seq<char>| x.contains_key(n),
                            |n: Seq<char>|
                                if x.contains_key(n) { unsigned_zeros(x[n]) } else { arbitrary() },
                        ),
                    ),
                    _ => k,
                },
            ),
        },
        logical_type: a.logical_type,
    }
}

/// A bit pattern is no number exactly when its exponent is all ones and its fraction is not
/// zero.
pub proof fn law_nan_patterns(b: u32, d: u64)
    ensures
        single_nan(b) <==> (b as int / 0x80_0000) % 0x100 == 0xff && b as int % 0x80_0000 != 0,
        double_nan(d) <==> (d as int / 0x10_0000_0000_0000) % 0x800 == 0x7ff && d as int
            % 0x10_0000_0000_0000 != 0,
{
}

proof fn lemma_same_parts(
    x: Map<Seq<char>, ValueView>,
    y: Map<Seq<char>, ValueView>,
    u: Map<Seq<char>, ValueView>,
    v: Map<Seq<char>, ValueView>,
)
    requires
        forall|n: Seq<char>|
            #![trigger x.contains_key(n)]
            x.contains_key(n) && y.contains_key(n) ==> (value_eq(x[n], y[n]) <==> nan_free(x[n])
                && nan_free(y[n]) && unsigned_zeros(x[n]) == unsigned_zeros(y[n])),
        forall|n: Seq<char>| #[trigger] u.contains_key(n) <==> x.contains_key(n),
        forall|n: Seq<char>| #[trigger] u.contains_key(n) ==> u[n] == unsigned_zeros(x[n]),
        forall|n: Seq<char>| #[trigger] v.contains_key(n) <==> y.contains_key(n),
        forall|n: Seq<char>| #[trigger] v.contains_key(n) ==> v[n] == unsigned_zeros(y[n]),
    ensures
        (x.dom() == y.dom() && forall|n: Seq<char>| #[trigger]
            x.contains_key(n) ==> value_eq(x[n], y[n])) <==> ((forall|n: Seq<char>| #[trigger]
            x.contains_key(n) ==> nan_free(x[n])) && (forall|n: Seq<char>| #[trigger]
            y.contains_key(n) ==> nan_free(y[n])) && u == v),
{
    if x.dom() == y.dom() && forall|n: Seq<char>| #[trigger]
        x.contains_key(n) ==> value_eq(x[n], y[n]) {
        assert forall|n: Seq<char>| #[trigger] y.contains_key(n) implies nan_free(y[n]) by {
            assert(x.dom().contains(n));
            assert(x.contains_key(n));
        }
        assert forall|n: Seq<char>| #[trigger] u.contains_key(n) implies v.contains_key(n) && u[n]
            == v[n] by {
            assert(x.contains_key(n));
            assert(y.dom().contains(n));
        }
        assert forall|n: Seq<char>| #[trigger] v.contains_key(n) implies u.contains_key(n) by {
            assert(y.contains_key(n));
            assert(x.dom().contains(n));
        }
        assert(u =~= v);
    }
    if u == v {
        assert(x.dom() =~= y.dom()) by {
            assert forall|n: Seq<char>| x.dom().contains(n) <==> y.dom().contains(n) by {
                assert(u.contains_key(n) <==> x.contains_key(n));
                assert(v.contains_key(n) <==> y.contains_key(n));
            }
        }
        assert forall|n: Seq<char>| #[trigger] x.contains_key(n) implies unsigned_zeros(x[n])
            == unsigned_zeros(y[n]) && y.contains_key(n) by {
            assert(u.contains_key(n) && v.contains_key(n));
            assert(u[n] == v[n]);
        }
    }
}

/// Two values compare as equal exactly when no number in them is a NaN and they are the same
/// value up to the sign of the zeros in them.
pub proof fn law_equal_values_are_the_same_up_to_zeros(a: ValueView, b: ValueView)
    ensures
        value_eq(a, b) <==> nan_free(a) && nan_free(b) && unsigned_zeros(a) == unsigned_zeros(b),
    decreases a,
{
    match (a.kind, b.kind) {
        (Some(KindView::List(x)), Some(KindView::List(y))) => {
            let u = unsigned_zeros(a).kind->0->List_0;
            let v = unsigned_zeros(b).kind->0->List_0;
            assert forall|i: int| 0 <= i < x.len() && i < y.len() implies (value_eq(
                x[i],
                #[trigger] y[i],
            ) <==> nan_free(x[i]) && nan_free(y[i]) && u[i] == v[i]) by {
                law_equal_values_are_the_same_up_to_zeros(x[i], y[i]);
            }
            if value_eq(a, b) {
                assert forall|i: int| 0 <= i < x.len() implies nan_free(#[trigger] x[i]) by {
                    assert(value_eq(x[i], y[i]));
                }
                assert(u =~= v);
            }
            if unsigned_zeros(a) == unsigned_zeros(b) && nan_free(a) && nan_free(b) {
                assert(u == v && u.len() == x.len() && v.len() == y.len());
                assert forall|i: int| 0 <= i < x.len() implies value_eq(x[i], #[trigger] y[i]) by {
                    assert(nan_free(x[i]) && nan_free(y[i]));
                }
            }
        },
        (Some(KindView::Entries(x)), Some(KindView::Entries(y))) => {
            assert forall|n: Seq<char>|
                #![trigger x.contains_key(n)]
                x.contains_key(n) && y.contains_key(n) implies (value_eq(x[n], y[n]) <==> nan_free(
                x[n],
            ) && nan_free(y[n]) && unsigned_zeros(x[n]) == unsigned_zeros(y[n])) by {
                law_equal_values_are_the_same_up_to_zeros(x[n], y[n]);
            }
            lemma_same_parts(
                x,
                y,
                unsigned_zeros(a).kind->0->Entries_0,
                unsigned_zeros(b).kind->0->Entries_0,
            );
        },
        (Some(KindView::Embedded(_, x)), Some(KindView::Embedded(_, y))) => {
            assert forall|n: Seq<char>|
                #![trigger x.contains_key(n)]
                x.contains_key(n) && y.contains_key(n) implies (value_eq(x[n], y[n]) <==> nan_free(
                x[n],
            ) && nan_free(y[n]) && unsigned_zeros(x[n]) == unsigned_zeros(y[n])) by {
                law_equal_values_are_the_same_up_to_zeros(x[n], y[n]);
            }
            lemma_same_parts(
                x,
                y,
                unsigned_zeros(a).kind->0->Embedded_1,
                unsigned_zeros(b).kind->0->Embedded_1,
            );
        },
        _ => {},
    }
}

/// A value without floating-point numbers compares as equal with itself and with nothing
/// else.
pub proof fn law_equal_values_are_the_same(a: ValueView, b: ValueView)
    requires
        float_free(a),
    ensures
        value_eq(a, b) <==> a == b,
    decreases a,
{
    match (a.kind, b.kind) {
        (Some(KindView::List(x)), Some(KindView::List(y))) => {
            assert forall|i: int| 0 <= i < x.len() && i < y.len() implies (value_eq(
                x[i],
                #[trigger] y[i],
            ) <==> x[i] == y[i]) by {
                law_equal_values_are_the_same(x[i], y[i]);
            }
            if value_eq(a, b) {
                assert(x =~= y);
            }
        },
        (Some(KindView::Entries(x)), Some(KindView::Entries(y))) => {
            assert forall|n: Seq<char>| #[trigger] x.contains_key(n) implies (value_eq(x[n], y[n])
                <==> x[n] == y[n]) by {
                law_equal_values_are_the_same(x[n], y[n]);
            }
            if value_eq(a, b) {
                assert(x =~= y);
            }
        },
        (Some(KindView::Embedded(_, x)), Some(KindView::Embedded(_, y))) => {
            assert forall|n: Seq<char>| #[trigger] x.contains_key(n) implies (value_eq(x[n], y[n])
                <==> x[n] == y[n]) by {
                law_equal_values_are_the_same(x[n], y[n]);
            }
            if value_eq(a, b) {
                assert(x =~= y);
            }
        },
        _ => {},
    }
}

/// What a value is seen as is what it holds: a scalar's payload unchanged, the elements of a
/// list in order, and the entries of a map under their names.
pub proof fn law_views_show_what_is_held(v: GrpcValue)
    ensures
        v@.logical_type == v.logical_type@,
        v.kind is None <==> v@.kind is None,
        v.kind matches Some(Kind::BoolValue(x)) ==> v@.kind == Some(KindView::Bool(x)),
        v.kind matches Some(Kind::Int32Value(x)) ==> v@.kind == Some(KindView::Int32(x)),
        v.kind matches Some(Kind::Int64Value(x)) ==> v@.kind == Some(KindView::Int64(x)),
        v.kind matches Some(Kind::FloatValue(x)) ==> v@.kind == Some(KindView::Float(x)),
        v.kind matches Some(Kind::DoubleValue(x)) ==> v@.kind == Some(KindView::Double(x)),
        v.kind matches Some(Kind::StringValue(x)) ==> v@.kind == Some(KindView::Text(x@)),
        v.kind matches Some(Kind::BytesValue(x)) ==> v@.kind == Some(KindView::Bytes(x@)),
        v.kind matches Some(Kind::TimestampValue(x)) ==> v@.kind == Some(KindView::Time(x)),
        v.kind matches Some(Kind::LinkValue(x)) ==> v@.kind == Some(
            KindView::Link(x.rid@, x.class@),
        ),
        v.kind matches Some(Kind::DecimalValue(x)) ==> v@.kind == Some(
            KindView::Decimal(x.unscaled, x.scale, x.unscaled_bytes@),
        ),
        v.kind matches Some(Kind::ListValue(x)) ==> (v@.kind matches Some(KindView::List(l))
            && l.len() == x.values@.len() && forall|i: int|
            0 <= i < l.len() ==> #[trigger] l[i] == x.values@[i]@),
{
}

/// The view of named values has their names, and under each name the view of its value.
pub proof fn law_entries_show_what_is_held(m: PropMap<GrpcValue>, k: Seq<char>)
    ensures
        entries_view(m).contains_key(k) <==> m@.contains_key(k),
        m@.contains_key(k) ==> entries_view(m)[k] == m@[k]@,
{
    lemma_entries(m);
}

/// Named values compare as equal exactly when they have the same names and under each name the
/// same value, where that holds no floating-point number.
pub proof fn law_equal_entries_are_the_same(
    x: Map<Seq<char>, ValueView>,
    y: Map<Seq<char>, ValueView>,
)
    requires
        forall|k: Seq<char>| #[trigger] x.contains_key(k) ==> float_free(x[k]),
    ensures
        entries_eq(x, y) <==> x == y,
{
    assert forall|k: Seq<char>| #[trigger] x.contains_key(k) implies (value_eq(x[k], y[k]) <==> x[k]
        == y[k]) by {
        law_equal_values_are_the_same(x[k], y[k]);
    }
    if entries_eq(x, y) {
        assert(x =~= y);
    }
}

} // verus!
