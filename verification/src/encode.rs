//! Building wire values and records from Rust values.

use std::borrow::Cow;

use vstd::prelude::*;
use vstd::string::*;
use crate::decimal;
use crate::decimal::Decimal;
use crate::props;
use crate::props::PropMap;
use crate::record::link;
use crate::record::Link;
use crate::text;
use crate::time;
use crate::time::{CalendarDate, DateTimeUtc};
use crate::wire;
use crate::wire::{
    GrpcDecimal, GrpcEmbedded, GrpcLink, GrpcList, GrpcMap, GrpcRecord, GrpcValue, Kind, KindView,
    RecordView, Timestamp, ValueView,
};

verus! {

// ---------------------------------------------------------------------------
// Text arguments
// ---------------------------------------------------------------------------

/// What can be handed over as owned text.
pub trait IntoText: Sized {
    /// The characters.
    spec fn chars(self) -> Seq<char>;

    fn into_text(self) -> (r: String)
        ensures
            r@ == self.chars(),
    ;
}

impl IntoText for &str {
    open spec fn chars(self) -> Seq<char> {
        self@
    }

    fn into_text(self) -> (r: String) {
        self.to_owned()
    }
}

impl IntoText for String {
    open spec fn chars(self) -> Seq<char> {
        self@
    }

    fn into_text(self) -> (r: String) {
        self
    }
}

impl IntoText for &String {
    open spec fn chars(self) -> Seq<char> {
        self@
    }

    fn into_text(self) -> (r: String) {
        self.clone()
    }
}

// ---------------------------------------------------------------------------
// Models
// ---------------------------------------------------------------------------

/// A value with payload `k` and no logical type.
pub open spec fn of_kind(k: KindView) -> ValueView {
    ValueView { kind: Some(k), logical_type: Seq::empty() }
}

/// What a list of named values says, pair by pair.
pub open spec fn pair_views(s: Seq<(&str, GrpcValue)>) -> Seq<(Seq<char>, ValueView)> {
    Seq::new(s.len(), |i: int| (s[i].0@, s[i].1@))
}

/// What a list of named values says, pair by pair.
pub open spec fn owned_pair_views(s: Seq<(String, GrpcValue)>) -> Seq<(Seq<char>, ValueView)> {
    Seq::new(s.len(), |i: int| (s[i].0@, s[i].1@))
}

/// The map that named values describe; a later pair replaces an earlier one of the same name.
pub open spec fn named(s: Seq<(Seq<char>, ValueView)>) -> Map<Seq<char>, ValueView>
    decreases s.len(),
{
    if s.len() == 0 {
        Map::empty()
    } else {
        named(s.drop_last()).insert(s.last().0, s.last().1)
    }
}

/// A record of type `class` with the given properties and no rid.
pub open spec fn record_of(class: Seq<char>, s: Seq<(Seq<char>, ValueView)>) -> RecordView {
    RecordView { rid: Seq::empty(), class, properties: named(s) }
}

// ---------------------------------------------------------------------------
// Constructors
// ---------------------------------------------------------------------------

fn gv(kind: Kind) -> (v: GrpcValue)
    ensures
        v@ == of_kind(kind@),
{
    GrpcValue { kind: Some(kind), logical_type: String::new() }
}

pub fn str_v<S: IntoText>(s: S) -> (v: GrpcValue)
    ensures
        v@ == of_kind(KindView::Text(s.chars())),
{
    gv(Kind::StringValue(s.into_text()))
}

pub fn i64_v(n: i64) -> (v: GrpcValue)
    ensures
        v@ == of_kind(KindView::Int64(n)),
{
    gv(Kind::Int64Value(n))
}

pub fn i32_v(n: i32) -> (v: GrpcValue)
    ensures
        v@ == of_kind(KindView::Int32(n)),
{
    gv(Kind::Int32Value(n))
}

/// A single-precision number, given by its bit pattern.
pub fn f32_v(bits: u32) -> (v: GrpcValue)
    ensures
        v@ == of_kind(KindView::Float(bits)),
{
    gv(Kind::FloatValue(bits))
}

pub fn bool_v(b: bool) -> (v: GrpcValue)
    ensures
        v@ == of_kind(KindView::Bool(b)),
{
    gv(Kind::BoolValue(b))
}

/// A double-precision number, given by its bit pattern.
pub fn f64_v(bits: u64) -> (v: GrpcValue)
    ensures
        v@ == of_kind(KindView::Double(bits)),
{
    gv(Kind::DoubleValue(bits))
}

/// A byte blob.
pub fn bytes_v(b: Vec<u8>) -> (v: GrpcValue)
    ensures
        v@ == of_kind(KindView::Bytes(b@)),
{
    gv(Kind::BytesValue(b))
}

/// A list value.
pub fn list_v(values: Vec<GrpcValue>) -> (v: GrpcValue)
    ensures
        v@ == of_kind(KindView::List(wire::values_view(values@))),
{
    gv(Kind::ListValue(GrpcList { values }))
}

/// A link to a record by its rid.
pub fn link_v<S: IntoText>(rid: S) -> (v: GrpcValue)
    ensures
        v@ == of_kind(KindView::Link(rid.chars(), Seq::empty())),
{
    gv(Kind::LinkValue(GrpcLink { rid: rid.into_text(), class: String::new() }))
}

/// A timestamp value.
pub fn timestamp_v(t: DateTimeUtc) -> (v: GrpcValue)
    ensures
        v@ == of_kind(KindView::Time(Timestamp { seconds: t.secs(), nanos: t.nsecs() as i32 })),
        t.nsecs() <= i32::MAX,
{
    let nanos = t.timestamp_subsec_nanos();
    gv(Kind::TimestampValue(Timestamp { seconds: t.timestamp(), nanos: nanos as i32 }))
}

/// The payload of a date: the timestamp of midnight UTC.
pub open spec fn midnight_kind(ymd: (int, int, int)) -> KindView {
    KindView::Time(
        Timestamp { seconds: time::midnight_of(ymd.0, ymd.1, ymd.2)->0 as i64, nanos: 0 },
    )
}

/// A date value: midnight UTC. It is a representable instant, and its date is `d`.
pub fn date_v(d: CalendarDate) -> (v: GrpcValue)
    ensures
        v@ == of_kind(midnight_kind(d.ymd())),
        match midnight_kind(d.ymd()) {
            KindView::Time(t) => time::instant_valid(t.seconds as int, 0) && time::civil_date(
                t.seconds as int,
                0,
            ) == d.ymd(),
            _ => false,
        },
{
    gv(Kind::TimestampValue(Timestamp { seconds: d.midnight_utc(), nanos: 0 }))
}

/// The payload of a decimal: the mantissa as a 64-bit integer when it fits, and otherwise as
/// sixteen big-endian two's-complement bytes.
pub open spec fn decimal_kind(mantissa: int, scale: int) -> KindView {
    if i64::MIN <= mantissa <= i64::MAX {
        KindView::Decimal(mantissa as i64, scale as i32, Seq::empty())
    } else {
        KindView::Decimal(0, scale as i32, decimal::wide_bytes(mantissa))
    }
}

/// An exact decimal value.
pub fn decimal_v(d: Decimal) -> (v: GrpcValue)
    ensures
        v@ == of_kind(decimal_kind(d.digits() as int, d.places() as int)),
        d.places() <= 28,
{
    let mantissa = d.mantissa();
    let scale = d.scale();
    if -0x8000_0000_0000_0000i128 <= mantissa && mantissa <= 0x7fff_ffff_ffff_ffffi128 {
        let unscaled_bytes: Vec<u8> = Vec::new();
        assert(unscaled_bytes@ =~= Seq::empty());
        gv(
            Kind::DecimalValue(
                GrpcDecimal { unscaled: mantissa as i64, scale: scale as i32, unscaled_bytes },
            ),
        )
    } else {
        gv(
            Kind::DecimalValue(
                GrpcDecimal {
                    unscaled: 0,
                    scale: scale as i32,
                    unscaled_bytes: decimal::to_be_signed(mantissa),
                },
            ),
        )
    }
}

/// Inserting into a property map inserts what the value says.
pub proof fn lemma_insert_says(
    before: PropMap<GrpcValue>,
    after: PropMap<GrpcValue>,
    k: Seq<char>,
    v: GrpcValue,
)
    requires
        after@ == before@.insert(k, v),
    ensures
        wire::entries_view(after) == wire::entries_view(before).insert(k, v@),
{
    wire::lemma_entries(before);
    wire::lemma_entries(after);
    assert(wire::entries_view(after) =~= wire::entries_view(before).insert(k, v@));
}

/// An empty property map says nothing.
pub proof fn lemma_empty_says(m: PropMap<GrpcValue>)
    requires
        m@ == Map::<Seq<char>, GrpcValue>::empty(),
    ensures
        wire::entries_view(m) == Map::<Seq<char>, ValueView>::empty(),
{
    wire::lemma_entries(m);
    assert(wire::entries_view(m) =~= Map::<Seq<char>, ValueView>::empty());
}

/// Collect named values into a property map.
pub fn collect_named(pairs: Vec<(&str, GrpcValue)>) -> (m: PropMap<GrpcValue>)
    ensures
        wire::entries_view(m) == named(pair_views(pairs@)),
{
    let mut out: PropMap<GrpcValue> = PropMap::new();
    let ghost all = pair_views(pairs@);
    proof {
        lemma_empty_says(out);
    }
    assert(all.take(0) =~= Seq::empty());
    for p in it: pairs
        invariant
            it.seq() == pairs@,
            all == pair_views(pairs@),
            wire::entries_view(out) == named(all.take(it.index() as int)),
    {
        let ghost i = it.index() as int;
        let ghost before = out;
        let (k, v) = p;
        assert(all.take(i + 1).drop_last() =~= all.take(i));
        assert(all.take(i + 1).last() == (k@, v@));
        out.insert(k.to_owned(), v);
        proof {
            lemma_insert_says(before, out, k@, v);
        }
    }
    assert(all.take(all.len() as int) =~= all);
    out
}

/// An embedded record value.
pub fn embedded_v(class: &str, fields: Vec<(&str, GrpcValue)>) -> (v: GrpcValue)
    ensures
        v@ == of_kind(KindView::Embedded(class@, named(pair_views(fields@)))),
{
    let fields = collect_named(fields);
    gv(Kind::EmbeddedValue(GrpcEmbedded { class: class.to_owned(), fields }))
}

/// A map value from named values.
pub fn map_v(entries: Vec<(String, GrpcValue)>) -> (v: GrpcValue)
    ensures
        v@ == of_kind(KindView::Entries(named(owned_pair_views(entries@)))),
{
    let entries = collect_owned(entries);
    gv(Kind::MapValue(GrpcMap { entries }))
}

/// Collect named values into a property map.
pub fn collect_owned(pairs: Vec<(String, GrpcValue)>) -> (m: PropMap<GrpcValue>)
    ensures
        wire::entries_view(m) == named(owned_pair_views(pairs@)),
{
    let mut out: PropMap<GrpcValue> = PropMap::new();
    let ghost all = owned_pair_views(pairs@);
    proof {
        lemma_empty_says(out);
    }
    assert(all.take(0) =~= Seq::empty());
    for p in it: pairs
        invariant
            it.seq() == pairs@,
            all == owned_pair_views(pairs@),
            wire::entries_view(out) == named(all.take(it.index() as int)),
    {
        let ghost i = it.index() as int;
        let ghost before = out;
        let (k, v) = p;
        assert(all.take(i + 1).drop_last() =~= all.take(i));
        assert(all.take(i + 1).last() == (k@, v@));
        let ghost name = k@;
        out.insert(k, v);
        proof {
            lemma_insert_says(before, out, name, v);
        }
    }
    assert(all.take(all.len() as int) =~= all);
    out
}

// ---------------------------------------------------------------------------
// Type-directed conversion
// ---------------------------------------------------------------------------

/// Rust values that convert to their natural wire kind; the type picks the width.
pub trait IntoGrpcValue: Sized {
    /// What the value says on the wire; left open for a conversion in ordinary Rust.
    open spec fn wire(self) -> ValueView {
        arbitrary()
    }

    fn into_value(self) -> (v: GrpcValue)
        ensures
            v@ == self.wire(),
    ;
}

impl IntoGrpcValue for GrpcValue {
    open spec fn wire(self) -> ValueView {
        self@
    }

    fn into_value(self) -> (v: GrpcValue) {
        self
    }
}

impl IntoGrpcValue for bool {
    open spec fn wire(self) -> ValueView {
        of_kind(KindView::Bool(self))
    }

    fn into_value(self) -> (v: GrpcValue) {
        bool_v(self)
    }
}

impl IntoGrpcValue for i64 {
    open spec fn wire(self) -> ValueView {
        of_kind(KindView::Int64(self))
    }

    fn into_value(self) -> (v: GrpcValue) {
        i64_v(self)
    }
}

impl IntoGrpcValue for i32 {
    open spec fn wire(self) -> ValueView {
        of_kind(KindView::Int32(self))
    }

    fn into_value(self) -> (v: GrpcValue) {
        i32_v(self)
    }
}

/// Small widths bind as the 32-bit kind. `u8` has no conversion of its own: byte-ish values
/// belong in a `Vec<u8>`.
impl IntoGrpcValue for i8 {
    open spec fn wire(self) -> ValueView {
        of_kind(KindView::Int32(self as i32))
    }

    fn into_value(self) -> (v: GrpcValue) {
        i32_v(self as i32)
    }
}

impl IntoGrpcValue for i16 {
    open spec fn wire(self) -> ValueView {
        of_kind(KindView::Int32(self as i32))
    }

    fn into_value(self) -> (v: GrpcValue) {
        i32_v(self as i32)
    }
}

impl IntoGrpcValue for u16 {
    open spec fn wire(self) -> ValueView {
        of_kind(KindView::Int32(self as i32))
    }

    fn into_value(self) -> (v: GrpcValue) {
        i32_v(self as i32)
    }
}

/// `u32` binds as the 64-bit kind.
impl IntoGrpcValue for u32 {
    open spec fn wire(self) -> ValueView {
        of_kind(KindView::Int64(self as i64))
    }

    fn into_value(self) -> (v: GrpcValue) {
        i64_v(self as i64)
    }
}

/// `n` reduced to a signed 64-bit integer: values above `i64::MAX` wrap around.
pub open spec fn wrapped(n: u64) -> i64 {
    if n <= i64::MAX {
        n as i64
    } else {
        (n - 0x1_0000_0000_0000_0000) as i64
    }
}

/// `n` as a signed 64-bit integer, wrapping around above `i64::MAX`.
pub fn wrap(n: u64) -> (r: i64)
    ensures
        r == wrapped(n),
{
    if n <= 0x7fff_ffff_ffff_ffffu64 {
        n as i64
    } else {
        (n as i128 - 0x1_0000_0000_0000_0000i128) as i64
    }
}

/// `u64` binds as the 64-bit kind; the wire has no unsigned one, so large values wrap.
impl IntoGrpcValue for u64 {
    open spec fn wire(self) -> ValueView {
        of_kind(KindView::Int64(wrapped(self)))
    }

    fn into_value(self) -> (v: GrpcValue) {
        i64_v(wrap(self))
    }
}

/// A single-precision number, given by its bit pattern.
#[derive(Debug, Clone, Copy, PartialEq, Eq, Structural)]
pub struct Single(pub u32);

/// A double-precision number, given by its bit pattern.
#[derive(Debug, Clone, Copy, PartialEq, Eq, Structural)]
pub struct Double(pub u64);

impl IntoGrpcValue for Single {
    open spec fn wire(self) -> ValueView {
        of_kind(KindView::Float(self.0))
    }

    fn into_value(self) -> (v: GrpcValue) {
        f32_v(self.0)
    }
}

impl IntoGrpcValue for Double {
    open spec fn wire(self) -> ValueView {
        of_kind(KindView::Double(self.0))
    }

    fn into_value(self) -> (v: GrpcValue) {
        f64_v(self.0)
    }
}

impl IntoGrpcValue for &str {
    open spec fn wire(self) -> ValueView {
        of_kind(KindView::Text(self@))
    }

    fn into_value(self) -> (v: GrpcValue) {
        str_v(self)
    }
}

impl IntoGrpcValue for &String {
    open spec fn wire(self) -> ValueView {
        of_kind(KindView::Text(self@))
    }

    fn into_value(self) -> (v: GrpcValue) {
        str_v(self.as_str())
    }
}

impl IntoGrpcValue for String {
    open spec fn wire(self) -> ValueView {
        of_kind(KindView::Text(self@))
    }

    fn into_value(self) -> (v: GrpcValue) {
        str_v(self)
    }
}

impl<'a> IntoGrpcValue for Cow<'a, str> {
    open spec fn wire(self) -> ValueView {
        of_kind(KindView::Text(self@))
    }

    fn into_value(self) -> (v: GrpcValue) {
        match self {
            Cow::Borrowed(s) => str_v(s),
            Cow::Owned(s) => str_v(s),
        }
    }
}

/// A one-character string.
impl IntoGrpcValue for char {
    open spec fn wire(self) -> ValueView {
        of_kind(KindView::Text(seq![self]))
    }

    fn into_value(self) -> (v: GrpcValue) {
        let mut s = String::new();
        s.push(self);
        assert(s@ =~= seq![self]);
        str_v(s)
    }
}

/// Owned bytes bind as a blob.
impl IntoGrpcValue for Vec<u8> {
    open spec fn wire(self) -> ValueView {
        of_kind(KindView::Bytes(self@))
    }

    fn into_value(self) -> (v: GrpcValue) {
        bytes_v(self)
    }
}

impl IntoGrpcValue for Link {
    open spec fn wire(self) -> ValueView {
        of_kind(
            KindView::Link(link::rid_text(self.bucket as int, self.pos as int), Seq::empty()),
        )
    }

    fn into_value(self) -> (v: GrpcValue) {
        link_v(self.to_rid_string())
    }
}

impl IntoGrpcValue for DateTimeUtc {
    open spec fn wire(self) -> ValueView {
        of_kind(
            KindView::Time(Timestamp { seconds: self.secs(), nanos: self.nsecs() as i32 }),
        )
    }

    fn into_value(self) -> (v: GrpcValue) {
        timestamp_v(self)
    }
}

impl IntoGrpcValue for CalendarDate {
    open spec fn wire(self) -> ValueView {
        of_kind(midnight_kind(self.ymd()))
    }

    fn into_value(self) -> (v: GrpcValue) {
        date_v(self)
    }
}

impl IntoGrpcValue for Decimal {
    open spec fn wire(self) -> ValueView {
        of_kind(decimal_kind(self.digits() as int, self.places() as int))
    }

    fn into_value(self) -> (v: GrpcValue) {
        decimal_v(self)
    }
}

/// A list, element by element.
impl<T: IntoGrpcValue> IntoGrpcValue for Vec<T> {
    open spec fn wire(self) -> ValueView {
        of_kind(KindView::List(wires(self@)))
    }

    fn into_value(self) -> (v: GrpcValue) {
        let mut out: Vec<GrpcValue> = Vec::new();
        let ghost all = self@;
        for x in it: self
            invariant
                it.seq() == all,
                out@.len() == it.index(),
                forall|j: int| 0 <= j < it.index() ==> (#[trigger] out@[j])@ == all[j].wire(),
        {
            out.push(x.into_value());
        }
        assert(wire::values_view(out@) =~= wires(all));
        list_v(out)
    }
}

/// What each of a list of values says on the wire.
pub open spec fn wires<T: IntoGrpcValue>(s: Seq<T>) -> Seq<ValueView> {
    Seq::new(s.len(), |i: int| s[i].wire())
}

/// What each of a list of named values says on the wire.
pub open spec fn named_wires<T: IntoGrpcValue>(s: Seq<(&str, T)>) -> Seq<(Seq<char>, ValueView)> {
    Seq::new(s.len(), |i: int| (s[i].0@, s[i].1.wire()))
}

/// What the values of a map say on the wire, under the same names.
pub open spec fn map_wires<V: IntoGrpcValue>(m: Map<Seq<char>, V>) -> Map<Seq<char>, ValueView> {
    Map::new(|k: Seq<char>| m.contains_key(k), |k: Seq<char>| m[k].wire())
}

/// A map, entry by entry.
impl<V: IntoGrpcValue> IntoGrpcValue for PropMap<V> {
    open spec fn wire(self) -> ValueView {
        of_kind(KindView::Entries(map_wires(self@)))
    }

    fn into_value(self) -> (v: GrpcValue) {
        let entries = self.into_entries();
        let ghost all = entries@;
        let mut out: PropMap<GrpcValue> = PropMap::new();
        proof {
            lemma_empty_says(out);
            assert(all.take(0) =~= Seq::empty());
            assert(map_wires(props::pairs_map(all.take(0))) =~= Map::empty());
        }
        for p in it: entries
            invariant
                it.seq() == all,
                wire::entries_view(out) == map_wires(
                    props::pairs_map(all.take(it.index() as int)),
                ),
        {
            let ghost i = it.index() as int;
            let ghost before = out;
            let (k, x) = p;
            assert(all.take(i + 1).drop_last() =~= all.take(i));
            assert(all.take(i + 1).last() == (k, x));
            let ghost name = k@;
            let w = x.into_value();
            out.insert(k, w);
            proof {
                lemma_insert_says(before, out, name, w);
                assert(map_wires(props::pairs_map(all.take(i + 1))) =~= map_wires(
                    props::pairs_map(all.take(i)),
                ).insert(name, w@));
            }
        }
        assert(all.take(all.len() as int) =~= all);
        gv(Kind::MapValue(GrpcMap { entries: out }))
    }
}

fn convert_named<'a, T: IntoGrpcValue>(pairs: Vec<(&'a str, T)>) -> (r: Vec<(&'a str, GrpcValue)>)
    ensures
        pair_views(r@) == named_wires(pairs@),
{
    let mut out: Vec<(&'a str, GrpcValue)> = Vec::new();
    let ghost all = pairs@;
    for p in it: pairs
        invariant
            it.seq() == all,
            out@.len() == it.index(),
            forall|j: int|
                0 <= j < it.index() ==> (#[trigger] out@[j]).0@ == all[j].0@ && out@[j].1@
                    == all[j].1.wire(),
    {
        let (k, v) = p;
        out.push((k, v.into_value()));
    }
    assert(pair_views(out@) =~= named_wires(all));
    out
}

/// A record of type `class` from named values; its rid is left empty.
pub fn rec<T: IntoGrpcValue>(class: &str, props: Vec<(&str, T)>) -> (r: GrpcRecord)
    ensures
        r@ == record_of(class@, named_wires(props@)),
{
    GrpcRecord {
        rid: String::new(),
        class: class.to_owned(),
        properties: collect_named(convert_named(props)),
    }
}

// ---------------------------------------------------------------------------
// Bound parameters
// ---------------------------------------------------------------------------

/// Bound parameters by name.
#[derive(Debug)]
pub struct Params(pub PropMap<GrpcValue>);

impl View for Params {
    type V = Map<Seq<char>, ValueView>;

    open spec fn view(&self) -> Map<Seq<char>, ValueView> {
        wire::entries_view(self.0)
    }
}

impl Params {
    /// The parameters named by `pairs`.
    pub fn from_pairs<T: IntoGrpcValue>(pairs: Vec<(&str, T)>) -> (p: Self)
        ensures
            p@ == named(named_wires(pairs@)),
    {
        Params(collect_named(convert_named(pairs)))
    }
}

impl Default for Params {
    /// No parameters.
    fn default() -> (p: Self)
        ensures
            p@ == Map::<Seq<char>, ValueView>::empty(),
    {
        let m: PropMap<GrpcValue> = PropMap::new();
        proof {
            lemma_empty_says(m);
        }
        Params(m)
    }
}

impl From<PropMap<GrpcValue>> for Params {
    fn from(map: PropMap<GrpcValue>) -> (p: Self) {
        Params(map)
    }
}

impl vstd::std_specs::convert::FromSpecImpl<PropMap<GrpcValue>> for Params {
    open spec fn obeys_from_spec() -> bool {
        true
    }

    open spec fn from_spec(map: PropMap<GrpcValue>) -> Self {
        Params(map)
    }
}

impl Clone for Params {
    fn clone(&self) -> (r: Self)
        ensures
            r@ == self@,
    {
        Params(self.0.clone())
    }
}

// ---------------------------------------------------------------------------
// Laws
// ---------------------------------------------------------------------------

/// A value of a kind has that kind and no logical type.
pub proof fn law_values_have_their_kind(k: KindView)
    ensures
        of_kind(k).kind == Some(k),
        of_kind(k).logical_type.len() == 0,
{
}

/// Every scalar is written under the kind of its own type, with its own value: small integers
/// as 32-bit ones, `u32` and `i64` as 64-bit ones, and a `u64` with its 64 bits.
pub proof fn law_integers_are_written_as_they_are(
    b: bool,
    tiny: i8,
    small: i16,
    half: u16,
    plain: i32,
    word: u32,
    long: i64,
    wide: u64,
)
    ensures
        b.wire().kind == Some(KindView::Bool(b)),
        tiny.wire().kind matches Some(KindView::Int32(n)) && n == tiny,
        small.wire().kind matches Some(KindView::Int32(n)) && n == small,
        half.wire().kind matches Some(KindView::Int32(n)) && n == half,
        plain.wire().kind == Some(KindView::Int32(plain)),
        word.wire().kind matches Some(KindView::Int64(n)) && n == word,
        long.wire().kind == Some(KindView::Int64(long)),
        wide.wire().kind matches Some(KindView::Int64(n)) && (n - wide) % 0x1_0000_0000_0000_0000
            == 0 && (wide <= i64::MAX ==> n == wide),
        b.wire().logical_type.len() == 0,
        plain.wire().logical_type.len() == 0,
        long.wire().logical_type.len() == 0,
{
}

/// Text, characters, bytes, floating-point bit patterns and links are written with what they
/// hold; a link as its rid.
pub proof fn law_texts_are_written_as_they_are(
    c: char,
    s: String,
    bytes: Vec<u8>,
    single: Single,
    double: Double,
    l: Link,
)
    ensures
        c.wire().kind matches Some(KindView::Text(t)) && t.len() == 1 && t[0] == c,
        s.wire().kind == Some(KindView::Text(s@)),
        (&s).wire().kind == Some(KindView::Text(s@)),
        bytes.wire().kind == Some(KindView::Bytes(bytes@)),
        single.wire().kind == Some(KindView::Float(single.0)),
        double.wire().kind == Some(KindView::Double(double.0)),
        l.wire().kind == Some(
            KindView::Link(
                "#"@ + text::decimal(l.bucket as int) + ":"@ + text::decimal(l.pos as int),
                Seq::empty(),
            ),
        ),
{
}

/// An instant is written as its seconds since the epoch and the nanoseconds within the
/// second; a date as the midnight it begins with.
pub proof fn law_times_are_written_as_they_are(t: DateTimeUtc, d: CalendarDate)
    requires
        t.nsecs() < 2_000_000_000,
    ensures
        t.wire().kind matches Some(KindView::Time(w)) && w.seconds == t.secs() && w.nanos
            == t.nsecs(),
        d.wire().kind matches Some(KindView::Time(w)) && w.nanos == 0 && (time::midnight_of(
            d.ymd().0,
            d.ymd().1,
            d.ymd().2,
        ) matches Some(s) ==> i64::MIN <= s <= i64::MAX ==> w.seconds == s),
{
}

/// A decimal is written as its digits and its scale. Digits beyond 64 bits are written as a
/// big-endian two's-complement number of sixteen bytes, and only those.
pub proof fn law_decimals_are_written_as_they_are(mantissa: int, scale: int)
    requires
        decimal::decimal_valid(mantissa, scale),
    ensures
        decimal_kind(mantissa, scale) matches KindView::Decimal(unscaled, places, bytes) && places
            == scale && if bytes.len() == 0 {
            unscaled == mantissa
        } else {
            bytes.len() == 16 && decimal::signed_be(bytes) == mantissa && unscaled == 0 && !(
            i64::MIN <= mantissa <= i64::MAX)
        },
{
    decimal::law_wide_bytes_read_back(mantissa);
}

/// A list is written element by element, in order; a map entry by entry, under its names.
pub proof fn law_containers_are_written_in_order<T: IntoGrpcValue>(l: Vec<T>, m: PropMap<T>)
    ensures
        l.wire().kind matches Some(KindView::List(w)) && w.len() == l@.len() && forall|i: int|
            0 <= i < l@.len() ==> #[trigger] w[i] == l@[i].wire(),
        m.wire().kind matches Some(KindView::Entries(w)) && w.dom() == m@.dom() && forall|
            k: Seq<char>,
        | #[trigger]
            m@.contains_key(k) ==> w[k] == m@[k].wire(),
{
    assert(map_wires(m@).dom() =~= m@.dom());
}

/// Of named values, the last under a name is the one that stands.
pub proof fn law_the_last_value_under_a_name_stands(s: Seq<(Seq<char>, ValueView)>, i: int)
    requires
        0 <= i < s.len(),
        forall|j: int| i < j < s.len() ==> (#[trigger] s[j]).0 != s[i].0,
    ensures
        named(s).contains_key(s[i].0),
        named(s)[s[i].0] == s[i].1,
    decreases s.len(),
{
    if i < s.len() - 1 {
        let t = s.drop_last();
        assert(t[i] == s[i]);
        assert(s[s.len() - 1].0 != s[i].0);
        assert forall|j: int| i < j < t.len() implies (#[trigger] t[j]).0 != t[i].0 by {
            assert(s[j].0 != s[i].0);
        }
        law_the_last_value_under_a_name_stands(t, i);
    }
}

/// Named values have the names of the pairs and no other.
pub proof fn law_only_given_names_are_there(s: Seq<(Seq<char>, ValueView)>, k: Seq<char>)
    requires
        named(s).contains_key(k),
    ensures
        exists|i: int| 0 <= i < s.len() && (#[trigger] s[i]).0 == k,
    decreases s.len(),
{
    if s.last().0 == k {
        assert(s[s.len() - 1].0 == k);
    } else {
        let t = s.drop_last();
        law_only_given_names_are_there(t, k);
        let i = choose|i: int| 0 <= i < t.len() && (#[trigger] t[i]).0 == k;
        assert(s[i].0 == k);
    }
}

/// A record made of columns has its type and those columns, and no rid.
pub proof fn law_new_records_have_no_rid(class: Seq<char>, s: Seq<(Seq<char>, ValueView)>)
    ensures
        record_of(class, s).rid.len() == 0,
        record_of(class, s).class == class,
        record_of(class, s).properties == named(s),
{
}

/// Pairs are seen as their names and values, in order.
pub proof fn law_pairs_are_seen_in_order<T: IntoGrpcValue>(
    s: Seq<(&str, GrpcValue)>,
    t: Seq<(String, GrpcValue)>,
    u: Seq<(&str, T)>,
    i: int,
)
    ensures
        pair_views(s).len() == s.len(),
        0 <= i < s.len() ==> pair_views(s)[i] == (s[i].0@, s[i].1@),
        owned_pair_views(t).len() == t.len(),
        0 <= i < t.len() ==> owned_pair_views(t)[i] == (t[i].0@, t[i].1@),
        named_wires(u).len() == u.len(),
        0 <= i < u.len() ==> named_wires(u)[i] == (u[i].0@, u[i].1.wire()),
{
}

} // verus!
