//! The bridge between wire values and dynamic JSON values.

use vstd::prelude::*;
use crate::encode;
use crate::encode::IntoGrpcValue;
use crate::float;
use crate::props::PropMap;
use crate::record::convert;
use crate::record::convert::FromGrpcValue;
use crate::record::{ErrorView, RecordDecodeError};
use crate::wire;
use crate::wire::{
    GrpcDecimal, GrpcLink, GrpcList, GrpcMap, GrpcRecord, GrpcValue, Kind, KindView,
    RecordView, ValueView,
};

verus! {

// ---------------------------------------------------------------------------
// JSON values
// ---------------------------------------------------------------------------

/// A JSON number: a non-negative integer, a negative integer, or the bit pattern of a finite
/// double-precision number.
#[derive(Debug, Clone, Copy)]
pub enum JsonNumber {
    PosInt(u64),
    NegInt(i64),
    Float(u64),
}

/// A JSON value.
#[derive(Debug)]
pub enum Json {
    Null,
    Bool(bool),
    Number(JsonNumber),
    Text(String),
    Array(Vec<Json>),
    Object(PropMap<Json>),
}

/// What a JSON value says.
#[verifier::ext_equal]
pub enum JsonView {
    Null,
    Bool(bool),
    Number(JsonNumber),
    Text(Seq<char>),
    Array(Seq<JsonView>),
    Object(Map<Seq<char>, JsonView>),
}

pub open spec fn json_view(j: Json) -> JsonView
    decreases j,
{
    match j {
        Json::Null => JsonView::Null,
        Json::Bool(b) => JsonView::Bool(b),
        Json::Number(n) => JsonView::Number(n),
        Json::Text(s) => JsonView::Text(s@),
        Json::Array(items) => JsonView::Array(items_view(items@)),
        Json::Object(map) => {
            proof {
                map.lemma_pairs();
            }
            JsonView::Object(fields_view(map.pairs()))
        },
    }
}

pub open spec fn items_view(s: Seq<Json>) -> Seq<JsonView>
    decreases s,
{
    Seq::new(
        s.len(),
        |i: int|
            if 0 <= i < s.len() {
                json_view(s[i])
            } else {
                arbitrary()
            },
    )
}

pub open spec fn fields_view(s: Seq<(String, Json)>) -> Map<Seq<char>, JsonView>
    decreases s,
{
    if s.len() == 0 {
        Map::empty()
    } else {
        fields_view(s.drop_last()).insert(s.last().0@, json_view(s.last().1))
    }
}

/// What the fields of an object say.
pub open spec fn object_view(m: PropMap<Json>) -> Map<Seq<char>, JsonView> {
    fields_view(m.pairs())
}

impl View for Json {
    type V = JsonView;

    open spec fn view(&self) -> JsonView {
        json_view(*self)
    }
}

proof fn lemma_field_views(s: Seq<(String, Json)>)
    ensures
        fields_view(s).dom() == crate::props::pairs_map(s).dom(),
        forall|k: Seq<char>| #[trigger]
            crate::props::pairs_map(s).contains_key(k) ==> fields_view(s)[k]
                == crate::props::pairs_map(s)[k]@,
    decreases s.len(),
{
    if s.len() > 0 {
        lemma_field_views(s.drop_last());
    }
    assert(fields_view(s).dom() =~= crate::props::pairs_map(s).dom());
}

/// What an object says of a name is what the value under that name says.
pub proof fn lemma_object(m: PropMap<Json>)
    ensures
        object_view(m).dom() == m@.dom(),
        forall|k: Seq<char>| #[trigger] m@.contains_key(k) ==> object_view(m)[k] == m@[k]@,
{
    m.lemma_pairs();
    lemma_field_views(m.pairs());
}

proof fn lemma_object_insert(before: PropMap<Json>, after: PropMap<Json>, k: Seq<char>, v: Json)
    requires
        after@ == before@.insert(k, v),
    ensures
        object_view(after) == object_view(before).insert(k, v@),
{
    lemma_object(before);
    lemma_object(after);
    assert(object_view(after) =~= object_view(before).insert(k, v@));
}

proof fn lemma_object_empty(m: PropMap<Json>)
    requires
        m@ == Map::<Seq<char>, Json>::empty(),
    ensures
        object_view(m) == Map::<Seq<char>, JsonView>::empty(),
{
    lemma_object(m);
    assert(object_view(m) =~= Map::<Seq<char>, JsonView>::empty());
}

// ---------------------------------------------------------------------------
// Wire values as JSON
// ---------------------------------------------------------------------------

/// An integer as a JSON number.
pub open spec fn integer_json(n: i64) -> JsonView {
    JsonView::Number(
        if n >= 0 {
            JsonNumber::PosInt(n as u64)
        } else {
            JsonNumber::NegInt(n)
        },
    )
}

/// What a wire value is as JSON. An unset payload, and a number that JSON cannot write, are
/// null; embedded records lose their type.
pub open spec fn json_of(v: ValueView) -> JsonView
    decreases v,
{
    match v.kind {
        None => JsonView::Null,
        Some(k) => kind_json(k),
    }
}

pub open spec fn kind_json(k: KindView) -> JsonView
    decreases k,
{
    match k {
        KindView::Bool(b) => JsonView::Bool(b),
        KindView::Int32(n) => integer_json(n as i64),
        KindView::Int64(n) => integer_json(n),
        KindView::Float(b) => if float::single_special(b) {
            JsonView::Null
        } else {
            JsonView::Number(JsonNumber::Float(float::widened(b)))
        },
        KindView::Double(b) => if float::double_special(b) {
            JsonView::Null
        } else {
            JsonView::Number(JsonNumber::Float(b))
        },
        KindView::Text(s) => JsonView::Text(s),
        KindView::Bytes(b) => JsonView::Array(
            Seq::new(b.len(), |i: int| JsonView::Number(JsonNumber::PosInt(b[i] as u64))),
        ),
        KindView::Time(t) => JsonView::Text(convert::time_text(t)),
        KindView::List(l) => JsonView::Array(
            Seq::new(
                l.len(),
                |i: int|
                    if 0 <= i < l.len() {
                        json_of(l[i])
                    } else {
                        arbitrary()
                    },
            ),
        ),
        KindView::Entries(m) => JsonView::Object(
            Map::new(
                |n: Seq<char>| m.contains_key(n),
                |n: Seq<char>|
                    if m.contains_key(n) {
                        json_of(m[n])
                    } else {
                        arbitrary()
                    },
            ),
        ),
        KindView::Embedded(_, m) => JsonView::Object(
            Map::new(
                |n: Seq<char>| m.contains_key(n),
                |n: Seq<char>|
                    if m.contains_key(n) {
                        json_of(m[n])
                    } else {
                        arbitrary()
                    },
            ),
        ),
        KindView::Link(rid, _) => JsonView::Text(rid),
        KindView::Decimal(unscaled, scale, bytes) => if convert::plain_integer(scale, bytes) {
            integer_json(unscaled)
        } else {
            JsonView::Text(convert::decimal_text(unscaled, scale))
        },
    }
}

/// What the values of a map are as JSON, under the same names.
pub open spec fn fields_json(m: Map<Seq<char>, ValueView>) -> Map<Seq<char>, JsonView> {
    Map::new(|n: Seq<char>| m.contains_key(n), |n: Seq<char>| json_of(m[n]))
}

/// What the values of a list are as JSON, in order.
pub open spec fn items_json(l: Seq<ValueView>) -> Seq<JsonView> {
    Seq::new(l.len(), |i: int| json_of(l[i]))
}

/// Lists and maps are as JSON what their elements are.
pub proof fn lemma_container_json(l: Seq<ValueView>, c: Seq<char>, m: Map<Seq<char>, ValueView>)
    ensures
        kind_json(KindView::List(l)) == JsonView::Array(items_json(l)),
        kind_json(KindView::Entries(m)) == JsonView::Object(fields_json(m)),
        kind_json(KindView::Embedded(c, m)) == JsonView::Object(fields_json(m)),
{
    let s = kind_json(KindView::List(l))->Array_0;
    assert forall|i: int| 0 <= i < s.len() implies #[trigger] s[i] == items_json(l)[i] by {
        assert(s[i] == json_of(l[i]));
    }
    assert(s =~= items_json(l));
    let x = kind_json(KindView::Entries(m))->Object_0;
    assert forall|n: Seq<char>| #[trigger] m.contains_key(n) implies x[n] == fields_json(m)[n] by {
        assert(x[n] == json_of(m[n]));
    }
    assert(x =~= fields_json(m));
    let y = kind_json(KindView::Embedded(c, m))->Object_0;
    assert forall|n: Seq<char>| #[trigger] m.contains_key(n) implies y[n] == fields_json(m)[n] by {
        assert(y[n] == json_of(m[n]));
    }
    assert(y =~= fields_json(m));
}

/// What a record is as JSON: its properties, with `@rid` and `@type` when it carries them.
pub open spec fn record_json(r: RecordView) -> JsonView {
    JsonView::Object(
        with_text(with_text(fields_json(r.properties), "@rid"@, r.rid), "@type"@, r.class),
    )
}

/// `m` with the text `s` under `name`, where there is any.
pub open spec fn with_text(m: Map<Seq<char>, JsonView>, name: Seq<char>, s: Seq<char>) -> Map<
    Seq<char>,
    JsonView,
> {
    if s.len() == 0 {
        m
    } else {
        m.insert(name, JsonView::Text(s))
    }
}

/// What a row is as JSON: `@rid` and `@type` when it carries them, and the properties over
/// them.
pub open spec fn row_json(r: RecordView) -> JsonView {
    JsonView::Object(
        with_text(with_text(Map::empty(), "@rid"@, r.rid), "@type"@, r.class).union_prefer_right(
            fields_json(r.properties),
        ),
    )
}

fn integer_to_json(n: i64) -> (j: Json)
    ensures
        j@ == integer_json(n),
{
    if n >= 0 {
        Json::Number(JsonNumber::PosInt(n as u64))
    } else {
        Json::Number(JsonNumber::NegInt(n))
    }
}

fn bytes_to_json(b: &Vec<u8>) -> (j: Json)
    ensures
        j@ == kind_json(KindView::Bytes(b@)),
{
    let mut out: Vec<Json> = Vec::new();
    for i in 0..b.len()
        invariant
            out@.len() == i,
            forall|k: int|
                0 <= k < i ==> (#[trigger] out@[k])@ == JsonView::Number(
                    JsonNumber::PosInt(b@[k] as u64),
                ),
    {
        out.push(Json::Number(JsonNumber::PosInt(b[i] as u64)));
    }
    assert(items_view(out@) =~= Seq::new(
        b@.len(),
        |i: int| JsonView::Number(JsonNumber::PosInt(b@[i] as u64)),
    ));
    Json::Array(out)
}

fn link_to_json(l: &GrpcLink) -> (j: Json)
    ensures
        j@ == JsonView::Text(l.rid@),
{
    Json::Text(l.rid.clone())
}

fn decimal_to_json(d: &GrpcDecimal) -> (j: Json)
    ensures
        j@ == kind_json(KindView::Decimal(d.unscaled, d.scale, d.unscaled_bytes@)),
{
    if d.scale == 0 && d.unscaled_bytes.len() == 0 {
        integer_to_json(d.unscaled)
    } else {
        Json::Text(convert::decimal_to_string(d))
    }
}

/// Convert a single value; an unset payload is null.
pub fn grpc_value_to_json(v: &GrpcValue) -> (j: Json)
    ensures
        j@ == json_of(v@),
    decreases v,
{
    match &v.kind {
        None => Json::Null,
        Some(k) => kind_to_json(k),
    }
}

fn kind_to_json(k: &Kind) -> (j: Json)
    ensures
        j@ == kind_json(k@),
    decreases k,
{
    match k {
        Kind::BoolValue(b) => Json::Bool(*b),
        Kind::Int32Value(n) => integer_to_json(*n as i64),
        Kind::Int64Value(n) => integer_to_json(*n),
        Kind::FloatValue(b) => if float::finite_single(*b) {
            Json::Number(JsonNumber::Float(float::widen(*b)))
        } else {
            Json::Null
        },
        Kind::DoubleValue(b) => if float::finite_double(*b) {
            Json::Number(JsonNumber::Float(*b))
        } else {
            Json::Null
        },
        Kind::StringValue(s) => Json::Text(s.clone()),
        Kind::BytesValue(b) => bytes_to_json(b),
        Kind::TimestampValue(t) => Json::Text(convert::timestamp_to_string(t)),
        Kind::ListValue(l) => {
            let items = list_to_json(&l.values);
            proof {
                let vs = wire::values_view(l.values@);
                lemma_container_json(vs, Seq::empty(), Map::empty());
                assert(items_view(items@) =~= items_json(vs));
            }
            Json::Array(items)
        },
        Kind::MapValue(m) => {
            proof {
                lemma_container_json(Seq::empty(), Seq::empty(), wire::entries_view(m.entries));
            }
            Json::Object(map_to_json(&m.entries))
        },
        Kind::EmbeddedValue(e) => {
            proof {
                lemma_container_json(Seq::empty(), e.class@, wire::entries_view(e.fields));
            }
            Json::Object(map_to_json(&e.fields))
        },
        Kind::LinkValue(l) => link_to_json(l),
        Kind::DecimalValue(d) => decimal_to_json(d),
    }
}

fn list_to_json(vs: &Vec<GrpcValue>) -> (r: Vec<Json>)
    ensures
        r@.len() == vs@.len(),
        forall|i: int| 0 <= i < r@.len() ==> (#[trigger] r@[i])@ == json_of(vs@[i]@),
    decreases vs,
{
    let mut out: Vec<Json> = Vec::new();
    for i in 0..vs.len()
        invariant
            out@.len() == i,
            forall|j: int| 0 <= j < i ==> (#[trigger] out@[j])@ == json_of(vs@[j]@),
    {
        assert(decreases_to!(vs@ => vs@[i as int]));
        out.push(grpc_value_to_json(&vs[i]));
    }
    out
}

fn map_to_json(m: &PropMap<GrpcValue>) -> (r: PropMap<Json>)
    ensures
        object_view(r) == fields_json(wire::entries_view(*m)),
    decreases m,
{
    let mut out: PropMap<Json> = PropMap::new();
    let n = m.len();
    let ghost all = m.pairs();
    proof {
        lemma_object_empty(out);
        assert(wire::pairs_view(all.take(0)) =~= Map::empty());
        assert(fields_json(wire::pairs_view(all.take(0))) =~= Map::empty());
    }
    for i in 0..n
        invariant
            n == all.len(),
            all == m.pairs(),
            object_view(out) == fields_json(wire::pairs_view(all.take(i as int))),
    {
        proof {
            m.lemma_pairs();
            assert(decreases_to!(m.pairs() => m.pairs()[i as int]));
            assert(all.take(i + 1).drop_last() =~= all.take(i as int));
        }
        let (k, v) = m.entry(i);
        let j = grpc_value_to_json(v);
        let ghost before = out;
        let ghost so_far = wire::pairs_view(all.take(i as int));
        let ghost stored = j;
        out.insert(k.clone(), j);
        proof {
            lemma_object_insert(before, out, k@, stored);
            assert(wire::pairs_view(all.take(i + 1)) == so_far.insert(k@, v@));
            assert(fields_json(so_far.insert(k@, v@)) =~= fields_json(so_far).insert(
                k@,
                json_of(v@),
            ));
        }
    }
    assert(all.take(n as int) =~= all);
    out
}

fn put_text(fields: &mut PropMap<Json>, name: &str, s: &String)
    ensures
        object_view(*final(fields)) == with_text(object_view(*old(fields)), name@, s@),
{
    if !s.as_str().is_empty() {
        let ghost before = *fields;
        let v = Json::Text(s.clone());
        let ghost stored = v;
        fields.insert(name.to_owned(), v);
        proof {
            lemma_object_insert(before, *fields, name@, stored);
        }
    }
}

/// Convert a record's properties into a JSON object, with `@rid` and `@type` when the record
/// carries them.
pub fn grpc_record_to_json(r: &GrpcRecord) -> (j: Json)
    ensures
        j@ == record_json(r@),
{
    let mut fields = map_to_json(&r.properties);
    put_text(&mut fields, "@rid", &r.rid);
    put_text(&mut fields, "@type", &r.class);
    Json::Object(fields)
}

/// A whole row as a JSON object: `@rid` and `@type` when the record carries them, and the
/// properties over them.
pub fn row_to_json(r: &GrpcRecord) -> (j: Json)
    ensures
        j@ == row_json(r@),
{
    let mut fields: PropMap<Json> = PropMap::new();
    proof {
        lemma_object_empty(fields);
    }
    put_text(&mut fields, "@rid", &r.rid);
    put_text(&mut fields, "@type", &r.class);
    let ghost base = object_view(fields);
    let n = r.properties.len();
    let ghost all = r.properties.pairs();
    proof {
        assert(wire::pairs_view(all.take(0)) =~= Map::empty());
        assert(base =~= base.union_prefer_right(fields_json(wire::pairs_view(all.take(0)))));
    }
    for i in 0..n
        invariant
            n == all.len(),
            all == r.properties.pairs(),
            object_view(fields) == base.union_prefer_right(
                fields_json(wire::pairs_view(all.take(i as int))),
            ),
    {
        proof {
            assert(all.take(i + 1).drop_last() =~= all.take(i as int));
        }
        let (k, v) = r.properties.entry(i);
        let j = grpc_value_to_json(v);
        let ghost before = fields;
        let ghost so_far = wire::pairs_view(all.take(i as int));
        let ghost stored = j;
        fields.insert(k.clone(), j);
        proof {
            lemma_object_insert(before, fields, k@, stored);
            assert(wire::pairs_view(all.take(i + 1)) == so_far.insert(k@, v@));
            assert(base.union_prefer_right(fields_json(so_far.insert(k@, v@)))
                =~= base.union_prefer_right(fields_json(so_far)).insert(k@, json_of(v@)));
        }
    }
    assert(all.take(n as int) =~= all);
    Json::Object(fields)
}

// ---------------------------------------------------------------------------
// JSON as wire values
// ---------------------------------------------------------------------------

/// The payload of an integer: the 32-bit kind when it fits, else the 64-bit one.
pub open spec fn integer_kind(n: i64) -> KindView {
    if i32::MIN <= n <= i32::MAX {
        KindView::Int32(n as i32)
    } else {
        KindView::Int64(n)
    }
}

/// The payload of a JSON number. An integer beyond the signed 64-bit range widens to the
/// closest double.
pub open spec fn number_kind(n: JsonNumber) -> KindView {
    match n {
        JsonNumber::PosInt(u) => if u <= i64::MAX {
            integer_kind(u as i64)
        } else {
            KindView::Double(float::wide_double(u))
        },
        JsonNumber::NegInt(i) => integer_kind(i),
        JsonNumber::Float(b) => KindView::Double(b),
    }
}

/// What a JSON value is on the wire: null is an unset payload, objects are maps and arrays are
/// lists.
pub open spec fn wire_of(j: JsonView) -> ValueView
    decreases j,
{
    ValueView {
        kind: match j {
            JsonView::Null => None,
            JsonView::Bool(b) => Some(KindView::Bool(b)),
            JsonView::Number(n) => Some(number_kind(n)),
            JsonView::Text(s) => Some(KindView::Text(s)),
            JsonView::Array(a) => Some(
                KindView::List(
                    Seq::new(
                        a.len(),
                        |i: int|
                            if 0 <= i < a.len() {
                                wire_of(a[i])
                            } else {
                                arbitrary()
                            },
                    ),
                ),
            ),
            JsonView::Object(m) => Some(
                KindView::Entries(
                    Map::new(
                        |n: Seq<char>| m.contains_key(n),
                        |n: Seq<char>|
                            if m.contains_key(n) {
                                wire_of(m[n])
                            } else {
                                arbitrary()
                            },
                    ),
                ),
            ),
        },
        logical_type: Seq::empty(),
    }
}

/// What the fields of an object are on the wire, under the same names.
pub open spec fn fields_wire(m: Map<Seq<char>, JsonView>) -> Map<Seq<char>, ValueView> {
    Map::new(|n: Seq<char>| m.contains_key(n), |n: Seq<char>| wire_of(m[n]))
}

/// What the items of an array are on the wire, in order.
pub open spec fn items_wire(a: Seq<JsonView>) -> Seq<ValueView> {
    Seq::new(a.len(), |i: int| wire_of(a[i]))
}

/// Arrays and objects are on the wire what their elements are.
pub proof fn lemma_container_wire(a: Seq<JsonView>, m: Map<Seq<char>, JsonView>)
    ensures
        wire_of(JsonView::Array(a)) == encode::of_kind(KindView::List(items_wire(a))),
        wire_of(JsonView::Object(m)) == encode::of_kind(KindView::Entries(fields_wire(m))),
{
    let s = wire_of(JsonView::Array(a)).kind->0->List_0;
    assert forall|i: int| 0 <= i < s.len() implies #[trigger] s[i] == items_wire(a)[i] by {
        assert(s[i] == wire_of(a[i]));
    }
    assert(s =~= items_wire(a));
    let x = wire_of(JsonView::Object(m)).kind->0->Entries_0;
    assert forall|n: Seq<char>| #[trigger] m.contains_key(n) implies x[n] == fields_wire(m)[n] by {
        assert(x[n] == wire_of(m[n]));
    }
    assert(x =~= fields_wire(m));
}

fn number_to_kind(n: JsonNumber) -> (k: Kind)
    ensures
        k@ == number_kind(n),
{
    match n {
        JsonNumber::PosInt(u) => if u <= 0x7fff_ffffu64 {
            Kind::Int32Value(u as i32)
        } else if u <= 0x7fff_ffff_ffff_ffffu64 {
            Kind::Int64Value(u as i64)
        } else {
            Kind::DoubleValue(float::double_of_wide(u))
        },
        JsonNumber::NegInt(i) => if -0x8000_0000i64 <= i && i <= 0x7fff_ffffi64 {
            Kind::Int32Value(i as i32)
        } else {
            Kind::Int64Value(i)
        },
        JsonNumber::Float(b) => Kind::DoubleValue(b),
    }
}

/// Convert a JSON value onto the matching wire kind, the inverse of [`grpc_value_to_json`].
pub fn json_to_grpc_value(j: &Json) -> (v: GrpcValue)
    ensures
        v@ == wire_of(j@),
    decreases j,
{
    let kind: Option<Kind> = match j {
        Json::Null => None,
        Json::Bool(b) => Some(Kind::BoolValue(*b)),
        Json::Number(n) => Some(number_to_kind(*n)),
        Json::Text(s) => Some(Kind::StringValue(s.clone())),
        Json::Array(items) => {
            let values = items_to_wire(items);
            proof {
                lemma_container_wire(items_view(items@), Map::empty());
                assert(wire::values_view(values@) =~= items_wire(items_view(items@)));
            }
            Some(Kind::ListValue(GrpcList { values }))
        },
        Json::Object(map) => {
            proof {
                lemma_container_wire(Seq::empty(), object_view(*map));
            }
            Some(Kind::MapValue(GrpcMap { entries: fields_to_wire(map) }))
        },
    };
    GrpcValue { kind, logical_type: String::new() }
}

fn items_to_wire(items: &Vec<Json>) -> (r: Vec<GrpcValue>)
    ensures
        r@.len() == items@.len(),
        forall|i: int| 0 <= i < r@.len() ==> (#[trigger] r@[i])@ == wire_of(items@[i]@),
    decreases items,
{
    let mut out: Vec<GrpcValue> = Vec::new();
    for i in 0..items.len()
        invariant
            out@.len() == i,
            forall|j: int| 0 <= j < i ==> (#[trigger] out@[j])@ == wire_of(items@[j]@),
    {
        assert(decreases_to!(items@ => items@[i as int]));
        out.push(json_to_grpc_value(&items[i]));
    }
    out
}

fn fields_to_wire(m: &PropMap<Json>) -> (r: PropMap<GrpcValue>)
    ensures
        wire::entries_view(r) == fields_wire(object_view(*m)),
    decreases m,
{
    let mut out: PropMap<GrpcValue> = PropMap::new();
    let n = m.len();
    let ghost all = m.pairs();
    proof {
        encode::lemma_empty_says(out);
        assert(fields_view(all.take(0)) =~= Map::empty());
        assert(fields_wire(fields_view(all.take(0))) =~= Map::empty());
    }
    for i in 0..n
        invariant
            n == all.len(),
            all == m.pairs(),
            wire::entries_view(out) == fields_wire(fields_view(all.take(i as int))),
    {
        proof {
            m.lemma_pairs();
            assert(decreases_to!(m.pairs() => m.pairs()[i as int]));
            assert(all.take(i + 1).drop_last() =~= all.take(i as int));
        }
        let (k, j) = m.entry(i);
        let v = json_to_grpc_value(j);
        let ghost before = out;
        let ghost so_far = fields_view(all.take(i as int));
        let ghost stored = v;
        out.insert(k.clone(), v);
        proof {
            encode::lemma_insert_says(before, out, k@, stored);
            assert(fields_view(all.take(i + 1)) == so_far.insert(k@, j@));
            assert(fields_wire(so_far.insert(k@, j@)) =~= fields_wire(so_far).insert(
                k@,
                wire_of(j@),
            ));
        }
    }
    assert(all.take(n as int) =~= all);
    out
}

/// Any kind converts to JSON.
impl<'de> FromGrpcValue<'de> for Json {
    open spec fn decodable(v: ValueView) -> bool {
        true
    }

    open spec fn decoded(v: ValueView, out: Self) -> bool {
        out@ == json_of(v)
    }

    open spec fn refused(v: ValueView, e: ErrorView) -> bool {
        false
    }

    fn from_grpc_value(v: &'de GrpcValue) -> (r: Result<Self, RecordDecodeError>) {
        Ok(grpc_value_to_json(v))
    }
}

/// JSON binds through the bridge.
impl IntoGrpcValue for Json {
    open spec fn wire(self) -> ValueView {
        wire_of(self@)
    }

    fn into_value(self) -> (v: GrpcValue) {
        json_to_grpc_value(&self)
    }
}

// ---------------------------------------------------------------------------
// Equality
// ---------------------------------------------------------------------------

/// Two JSON numbers are equal: in the same form, floats compared as numbers.
pub open spec fn number_eq(a: JsonNumber, b: JsonNumber) -> bool {
    match (a, b) {
        (JsonNumber::Float(x), JsonNumber::Float(y)) => wire::same_double(x, y),
        _ => a == b,
    }
}

/// Two JSON values are equal: the same shape, with equal numbers.
pub open spec fn json_eq(a: JsonView, b: JsonView) -> bool
    decreases a,
{
    match (a, b) {
        (JsonView::Number(x), JsonView::Number(y)) => number_eq(x, y),
        (JsonView::Array(x), JsonView::Array(y)) => x.len() == y.len() && forall|i: int|
            0 <= i < x.len() ==> json_eq(x[i], #[trigger] y[i]),
        (JsonView::Object(x), JsonView::Object(y)) => x.dom() == y.dom() && forall|k: Seq<char>|
         #[trigger]
            x.contains_key(k) ==> json_eq(x[k], y[k]),
        (JsonView::Number(_), _) | (JsonView::Array(_), _) | (JsonView::Object(_), _) => false,
        _ => a == b,
    }
}

/// Whether two JSON numbers are equal.
pub fn equal_numbers(a: JsonNumber, b: JsonNumber) -> (r: bool)
    ensures
        r == number_eq(a, b),
{
    match (a, b) {
        (JsonNumber::PosInt(x), JsonNumber::PosInt(y)) => x == y,
        (JsonNumber::NegInt(x), JsonNumber::NegInt(y)) => x == y,
        (JsonNumber::Float(x), JsonNumber::Float(y)) => wire::equal_double(x, y),
        _ => false,
    }
}

/// Whether two JSON values are equal.
pub fn equal_json(a: &Json, b: &Json) -> (r: bool)
    ensures
        r == json_eq(a@, b@),
    decreases a,
{
    match (a, b) {
        (Json::Null, Json::Null) => true,
        (Json::Bool(x), Json::Bool(y)) => *x == *y,
        (Json::Number(x), Json::Number(y)) => equal_numbers(*x, *y),
        (Json::Text(x), Json::Text(y)) => crate::text::same(x.as_str(), y.as_str()),
        (Json::Array(x), Json::Array(y)) => equal_items(x, y),
        (Json::Object(x), Json::Object(y)) => equal_fields(x, y),
        _ => false,
    }
}

fn equal_items(a: &Vec<Json>, b: &Vec<Json>) -> (r: bool)
    ensures
        r == json_eq(JsonView::Array(items_view(a@)), JsonView::Array(items_view(b@))),
    decreases a,
{
    let ghost x = items_view(a@);
    let ghost y = items_view(b@);
    if a.len() != b.len() {
        return false;
    }
    for i in 0..a.len()
        invariant
            a.len() == b.len(),
            x == items_view(a@),
            y == items_view(b@),
            forall|j: int| 0 <= j < i ==> json_eq(x[j], #[trigger] y[j]),
    {
        assert(decreases_to!(a@ => a@[i as int]));
        let e = equal_json(&a[i], &b[i]);
        assert(x[i as int] == a@[i as int]@ && y[i as int] == b@[i as int]@);
        if !e {
            return false;
        }
    }
    true
}

fn equal_fields(a: &PropMap<Json>, b: &PropMap<Json>) -> (r: bool)
    ensures
        r == json_eq(JsonView::Object(object_view(*a)), JsonView::Object(object_view(*b))),
    decreases a,
{
    let n = a.len();
    let m = b.len();
    let ghost x = object_view(*a);
    let ghost y = object_view(*b);
    proof {
        lemma_object(*a);
        lemma_object(*b);
        a.lemma_pairs();
        crate::props::lemma_pairs_map(a.pairs());
    }
    if n != m {
        return false;
    }
    for i in 0..n
        invariant
            n == a.pairs().len(),
            x == object_view(*a),
            y == object_view(*b),
            x.dom() == a@.dom(),
            y.dom() == b@.dom(),
            forall|k: Seq<char>| #[trigger] a@.contains_key(k) ==> x[k] == a@[k]@,
            forall|k: Seq<char>| #[trigger] b@.contains_key(k) ==> y[k] == b@[k]@,
            forall|j: int|
                0 <= j < i ==> y.contains_key((#[trigger] a.pairs()[j]).0@) && json_eq(
                    x[a.pairs()[j].0@],
                    y[a.pairs()[j].0@],
                ),
    {
        proof {
            a.lemma_pairs();
            assert(decreases_to!(a.pairs() => a.pairs()[i as int]));
        }
        let (k, v) = a.entry(i);
        match b.get(k.as_str()) {
            None => {
                assert(x.contains_key(k@) && !y.contains_key(k@));
                return false;
            },
            Some(w) => {
                let e = equal_json(v, w);
                assert(x[k@] == v@);
                assert(y[k@] == w@);
                if !e {
                    assert(x.contains_key(k@));
                    return false;
                }
            },
        }
    }
    proof {
        assert forall|k: Seq<char>| #[trigger] x.contains_key(k) implies y.contains_key(k)
            && json_eq(x[k], y[k]) by {
            let j = choose|j: int| 0 <= j < a.pairs().len() && (#[trigger] a.pairs()[j]).0@ == k;
            assert(a.pairs()[j].0@ == k);
        }
        vstd::set_lib::lemma_subset_equality(x.dom(), y.dom());
    }
    true
}

impl PartialEq for JsonNumber {
    fn eq(&self, other: &Self) -> (r: bool) {
        equal_numbers(*self, *other)
    }
}

impl vstd::std_specs::cmp::PartialEqSpecImpl for JsonNumber {
    open spec fn obeys_eq_spec() -> bool {
        true
    }

    open spec fn eq_spec(&self, other: &Self) -> bool {
        number_eq(*self, *other)
    }
}

impl PartialEq for Json {
    fn eq(&self, other: &Self) -> (r: bool) {
        equal_json(self, other)
    }
}

impl vstd::std_specs::cmp::PartialEqSpecImpl for Json {
    open spec fn obeys_eq_spec() -> bool {
        true
    }

    open spec fn eq_spec(&self, other: &Self) -> bool {
        json_eq(self@, other@)
    }
}

// ---------------------------------------------------------------------------
// Laws
// ---------------------------------------------------------------------------

/// JSON values that the wire can hold: integers stay within the signed 64-bit range and are
/// written by their sign, and floats are finite.
pub open spec fn representable(j: JsonView) -> bool
    decreases j,
{
    match j {
        JsonView::Number(JsonNumber::PosInt(u)) => u <= i64::MAX,
        JsonView::Number(JsonNumber::NegInt(i)) => i < 0,
        JsonView::Number(JsonNumber::Float(b)) => !float::double_special(b),
        JsonView::Array(a) => forall|i: int| 0 <= i < a.len() ==> representable(#[trigger] a[i]),
        JsonView::Object(m) => forall|n: Seq<char>| #[trigger]
            m.contains_key(n) ==> representable(m[n]),
        _ => true,
    }
}

/// Every JSON value that the wire can hold comes back from the wire as it was, and is equal to
/// what went in.
pub proof fn law_json_round_trips(j: JsonView)
    requires
        representable(j),
    ensures
        json_of(wire_of(j)) == j,
        json_eq(json_of(wire_of(j)), j),
    decreases j,
{
    match j {
        JsonView::Array(a) => {
            lemma_container_wire(a, Map::empty());
            lemma_container_json(items_wire(a), Seq::empty(), Map::empty());
            let back = items_json(items_wire(a));
            assert forall|i: int| 0 <= i < a.len() implies #[trigger] back[i] == a[i] by {
                law_json_round_trips(a[i]);
            }
            assert(back =~= a);
            assert forall|i: int| 0 <= i < a.len() implies json_eq(a[i], #[trigger] a[i]) by {
                law_json_round_trips(a[i]);
            }
        },
        JsonView::Object(m) => {
            lemma_container_wire(Seq::empty(), m);
            lemma_container_json(Seq::empty(), Seq::empty(), fields_wire(m));
            let back = fields_json(fields_wire(m));
            assert forall|n: Seq<char>| #[trigger] m.contains_key(n) implies back[n] == m[n] by {
                law_json_round_trips(m[n]);
            }
            assert(back =~= m);
            assert forall|n: Seq<char>| #[trigger] m.contains_key(n) implies json_eq(
                m[n],
                m[n],
            ) by {
                law_json_round_trips(m[n]);
            }
        },
        _ => {},
    }
}

/// What a wire value is in JSON: scalars as themselves, a link as its rid, bytes as numbers,
/// a number that JSON cannot hold as null, an instant and a wide decimal as text.
pub proof fn law_wire_scalars_in_json(v: ValueView)
    ensures
        v.kind is None ==> json_of(v) == JsonView::Null,
        v.kind matches Some(KindView::Bool(b)) ==> json_of(v) == JsonView::Bool(b),
        v.kind matches Some(KindView::Text(s)) ==> json_of(v) == JsonView::Text(s),
        v.kind matches Some(KindView::Link(rid, _)) ==> json_of(v) == JsonView::Text(rid),
        v.kind matches Some(KindView::Int32(n)) ==> (json_of(v) matches JsonView::Number(x) && if n
            >= 0 {
            x matches JsonNumber::PosInt(u) && u == n
        } else {
            x matches JsonNumber::NegInt(i) && i == n
        }),
        v.kind matches Some(KindView::Int64(n)) ==> (json_of(v) matches JsonView::Number(x) && if n
            >= 0 {
            x matches JsonNumber::PosInt(u) && u == n
        } else {
            x matches JsonNumber::NegInt(i) && i == n
        }),
        v.kind matches Some(KindView::Double(d)) ==> json_of(v) == if (d as int
            / 0x10_0000_0000_0000) % 0x800 == 0x7ff {
            JsonView::Null
        } else {
            JsonView::Number(JsonNumber::Float(d))
        },
        v.kind matches Some(KindView::Float(b)) ==> if (b as int / 0x80_0000) % 0x100 == 0xff {
            json_of(v) == JsonView::Null
        } else {
            json_of(v) == JsonView::Number(JsonNumber::Float(float::widened(b)))
        },
        v.kind matches Some(KindView::Bytes(b)) ==> (json_of(v) matches JsonView::Array(a) && a.len()
            == b.len() && forall|i: int|
            0 <= i < b.len() ==> #[trigger] a[i] == JsonView::Number(
                JsonNumber::PosInt(b[i] as u64),
            )),
{
}

/// Lists, maps and embedded records in JSON: the elements in order, the entries under their
/// names. The type of an embedded record is not shown.
pub proof fn law_wire_containers_in_json(v: ValueView)
    ensures
        v.kind matches Some(KindView::List(l)) ==> (json_of(v) matches JsonView::Array(a) && a.len()
            == l.len() && forall|i: int| 0 <= i < l.len() ==> #[trigger] a[i] == json_of(l[i])),
        v.kind matches Some(KindView::Entries(m)) ==> (json_of(v) matches JsonView::Object(o)
            && o.dom() == m.dom() && forall|n: Seq<char>| #[trigger]
            m.contains_key(n) ==> o[n] == json_of(m[n])),
        v.kind matches Some(KindView::Embedded(_, m)) ==> (json_of(v) matches JsonView::Object(o)
            && o.dom() == m.dom() && forall|n: Seq<char>| #[trigger]
            m.contains_key(n) ==> o[n] == json_of(m[n])),
{
    if let Some(KindView::Entries(m)) = v.kind {
        assert(json_of(v)->Object_0.dom() =~= m.dom());
    }
    if let Some(KindView::Embedded(_, m)) = v.kind {
        assert(json_of(v)->Object_0.dom() =~= m.dom());
    }
}

/// What JSON is on the wire: whole numbers in the smallest integer kind that holds them, other
/// numbers as doubles, arrays as lists in order and objects as maps under their names.
pub proof fn law_json_on_the_wire(j: JsonView)
    ensures
        wire_of(j).logical_type.len() == 0,
        j is Null ==> wire_of(j).kind is None,
        j matches JsonView::Bool(b) ==> wire_of(j).kind == Some(KindView::Bool(b)),
        j matches JsonView::Text(s) ==> wire_of(j).kind == Some(KindView::Text(s)),
        j matches JsonView::Number(JsonNumber::Float(b)) ==> wire_of(j).kind == Some(
            KindView::Double(b),
        ),
        j matches JsonView::Number(JsonNumber::PosInt(u)) ==> (if u <= i32::MAX {
            wire_of(j).kind matches Some(KindView::Int32(n)) && n == u
        } else if u <= i64::MAX {
            wire_of(j).kind matches Some(KindView::Int64(n)) && n == u
        } else {
            wire_of(j).kind is Some && wire_of(j).kind->0 is Double
        }),
        j matches JsonView::Number(JsonNumber::NegInt(i)) ==> (if i32::MIN <= i <= i32::MAX {
            wire_of(j).kind matches Some(KindView::Int32(n)) && n == i
        } else {
            wire_of(j).kind == Some(KindView::Int64(i))
        }),
        j matches JsonView::Array(a) ==> (wire_of(j).kind matches Some(KindView::List(l)) && l.len()
            == a.len() && forall|i: int| 0 <= i < a.len() ==> #[trigger] l[i] == wire_of(a[i])),
        j matches JsonView::Object(o) ==> (wire_of(j).kind matches Some(KindView::Entries(m))
            && m.dom() == o.dom() && forall|n: Seq<char>| #[trigger]
            o.contains_key(n) ==> m[n] == wire_of(o[n])),
{
    if let JsonView::Object(o) = j {
        assert(wire_of(j).kind->0->Entries_0.dom() =~= o.dom());
    }
}

/// A record in JSON has its columns and, where they are known, its rid and type, which hide
/// columns of those names. A row has the same, but there a column of such a name is the one
/// that is seen.
pub proof fn law_records_in_json(r: RecordView, name: Seq<char>)
    ensures
        ({
            let rec = record_json(r)->Object_0;
            let row = row_json(r)->Object_0;
            let own = r.properties.contains_key(name);
            &&& record_json(r) is Object && row_json(r) is Object
            &&& r.class.len() > 0 ==> rec.contains_key("@type"@) && rec["@type"@] == JsonView::Text(
                r.class,
            )
            &&& r.rid.len() > 0 ==> rec.contains_key("@rid"@) && rec["@rid"@] == JsonView::Text(
                r.rid,
            )
            &&& name != "@rid"@ && name != "@type"@ ==> (rec.contains_key(name) <==> own) && (
            row.contains_key(name) <==> own)
            &&& own && name != "@rid"@ && name != "@type"@ ==> rec[name] == json_of(
                r.properties[name],
            )
            &&& own ==> row.contains_key(name) && row[name] == json_of(r.properties[name])
            &&& r.rid.len() > 0 && !r.properties.contains_key("@rid"@) ==> row.contains_key(
                "@rid"@,
            ) && row["@rid"@] == JsonView::Text(r.rid)
            &&& r.class.len() > 0 && !r.properties.contains_key("@type"@) ==> row.contains_key(
                "@type"@,
            ) && row["@type"@] == JsonView::Text(r.class)
            &&& r.rid.len() == 0 && !r.properties.contains_key("@rid"@) ==> !rec.contains_key(
                "@rid"@,
            ) && !row.contains_key("@rid"@)
            &&& r.class.len() == 0 && !r.properties.contains_key("@type"@) ==> !rec.contains_key(
                "@type"@,
            ) && !row.contains_key("@type"@)
        }),
{
    reveal_strlit("@rid");
    reveal_strlit("@type");
    assert("@rid"@[1] == 'r' && "@type"@[1] == 't');
}

/// No floating-point number occurs in the value, at any depth.
pub open spec fn float_free(j: JsonView) -> bool
    decreases j,
{
    match j {
        JsonView::Number(JsonNumber::Float(_)) => false,
        JsonView::Array(a) => forall|i: int| 0 <= i < a.len() ==> float_free(#[trigger] a[i]),
        JsonView::Object(m) => forall|n: Seq<char>| #[trigger]
            m.contains_key(n) ==> float_free(m[n]),
        _ => true,
    }
}

/// JSON without floating-point numbers compares as equal with itself and with nothing else;
/// floating-point numbers do where they are the same number.
pub proof fn law_equal_json_is_the_same(a: JsonView, b: JsonView)
    requires
        float_free(a),
    ensures
        json_eq(a, b) <==> a == b,
    decreases a,
{
    match (a, b) {
        (JsonView::Array(x), JsonView::Array(y)) => {
            assert forall|i: int| 0 <= i < x.len() && i < y.len() implies (json_eq(
                x[i],
                #[trigger] y[i],
            ) <==> x[i] == y[i]) by {
                law_equal_json_is_the_same(x[i], y[i]);
            }
            if json_eq(a, b) {
                assert(x =~= y);
            }
        },
        (JsonView::Object(x), JsonView::Object(y)) => {
            assert forall|n: Seq<char>| #[trigger] x.contains_key(n) implies (json_eq(x[n], y[n])
                <==> x[n] == y[n]) by {
                law_equal_json_is_the_same(x[n], y[n]);
            }
            if json_eq(a, b) {
                assert(x =~= y);
            }
        },
        _ => {},
    }
}

/// Two floating-point numbers are equal exactly when neither is a NaN and their bits are the
/// same or both are zeros; a number of another form is never equal to one.
pub proof fn law_json_floats_are_compared_as_numbers(x: u64, y: u64, n: JsonNumber)
    ensures
        number_eq(JsonNumber::Float(x), JsonNumber::Float(y)) <==> !wire::double_nan(x)
            && !wire::double_nan(y) && (x == y || ((x == 0 || x == 0x8000_0000_0000_0000) && (y == 0
            || y == 0x8000_0000_0000_0000))),
        !(n is Float) ==> !number_eq(JsonNumber::Float(x), n) && !number_eq(
            n,
            JsonNumber::Float(x),
        ),
{
}

/// JSON is seen as what it holds: scalars as themselves, elements in order, fields under their
/// names.
pub proof fn law_json_is_seen_as_it_is(j: Json, n: Seq<char>)
    ensures
        j is Null <==> j@ is Null,
        j matches Json::Bool(b) ==> j@ == JsonView::Bool(b),
        j matches Json::Number(x) ==> j@ == JsonView::Number(x),
        j matches Json::Text(s) ==> j@ == JsonView::Text(s@),
        j matches Json::Array(items) ==> (j@ matches JsonView::Array(a) && a.len() == items@.len()
            && forall|i: int| 0 <= i < a.len() ==> #[trigger] a[i] == items@[i]@),
        j matches Json::Object(m) ==> (j@ matches JsonView::Object(o) && (o.contains_key(n)
            <==> m@.contains_key(n)) && (m@.contains_key(n) ==> o[n] == m@[n]@)),
{
    if let Json::Object(m) = j {
        lemma_object(m);
    }
}

/// Every value can be read as JSON, and is read as what it is in JSON; JSON is written as what
/// it is on the wire.
pub proof fn law_every_value_reads_as_json(v: ValueView, j: Json)
    ensures
        Json::decodable(v),
        Json::decoded(v, j) <==> j@ == json_of(v),
        j.wire() == wire_of(j@),
{
}

} // verus!
