//! Typed rows encode as wire records, and read back as they were. The impls below are what
//! the encode and decode derives expand to for each row.

use std::borrow::Cow;
use std::collections::{BTreeMap, HashMap, HashSet};

use arcadedb_protocol::encode::{
    bytes_v, date_v, decimal_v, f64_v, i32_v, i64_v, list_v, map_v, str_v, timestamp_v, Double,
};
use arcadedb_protocol::json::{row_to_json, JsonNumber};
use arcadedb_protocol::record::derived::{record_fields, variant_tag, variant_text};
use arcadedb_protocol::record::{get, get_opt, FromGrpcValue, Number, Real64};
use arcadedb_protocol::{
    changed_param_map, grpc_record_to_json, grpc_value_to_json, json_to_grpc_value, props_diff,
    rec, CalendarDate,
    DateTimeUtc, Decimal, GrpcDecimal, GrpcLink, GrpcRecord, GrpcValue, IntoGrpcValue, Json, Kind,
    Link, Params, PropMap, RecordDecodeError, Timestamp, ToGrpcRecord,
};

fn kind(rec: &GrpcRecord, column: &str) -> Option<Kind> {
    rec.properties.get(column).unwrap().kind.clone()
}

fn of(map: &PropMap<GrpcValue>, name: &str) -> Option<Kind> {
    map.get(name).unwrap().kind.clone()
}

fn double(x: f64) -> Kind {
    Kind::DoubleValue(x.to_bits())
}

fn float(r: Real64) -> f64 {
    match r.0 {
        Number::Single(b) => f64::from(f32::from_bits(b)),
        Number::Double(b) => f64::from_bits(b),
        Number::Integer(n) => n as f64,
    }
}

/// The library's form of a parsed JSON document.
fn json(v: &serde_json::Value) -> Json {
    match v {
        serde_json::Value::Null => Json::Null,
        serde_json::Value::Bool(b) => Json::Bool(*b),
        serde_json::Value::Number(n) => Json::Number(match (n.as_u64(), n.as_i64()) {
            (Some(u), _) => JsonNumber::PosInt(u),
            (None, Some(i)) => JsonNumber::NegInt(i),
            (None, None) => JsonNumber::Float(n.as_f64().unwrap().to_bits()),
        }),
        serde_json::Value::String(s) => Json::Text(s.clone()),
        serde_json::Value::Array(a) => Json::Array(a.iter().map(json).collect()),
        serde_json::Value::Object(o) => {
            let mut m = PropMap::new();
            for (k, v) in o {
                m.insert(k.clone(), json(v));
            }
            Json::Object(m)
        }
    }
}

fn parsed(text: &str) -> Json {
    json(&serde_json::from_str(text).unwrap())
}

// ---------------------------------------------------------------------------
// Rows
// ---------------------------------------------------------------------------

#[derive(Debug, Clone, PartialEq)]
struct MetricRow {
    sensor_id: i64,
    sample_day: i32,
    temperature: i32,
    humidity: Option<i32>,
}

impl ToGrpcRecord for MetricRow {
    const KEY_COLUMNS: &'static [&'static str] = &[];

    fn props(&self) -> Vec<(&str, GrpcValue)> {
        let mut out = vec![
            ("sensorId", i64_v(self.sensor_id)),
            ("sampleDay", i32_v(self.sample_day)),
            ("temperature", i32_v(self.temperature)),
        ];
        if let Some(h) = &self.humidity {
            out.push(("humidity", i32_v(*h)));
        }
        out
    }
}

impl<'a> TryFrom<&'a GrpcRecord> for MetricRow {
    type Error = RecordDecodeError;

    fn try_from(rec: &'a GrpcRecord) -> Result<Self, RecordDecodeError> {
        let p = &rec.properties;
        Ok(MetricRow {
            sensor_id: get(p, &[], "sensorId")?,
            sample_day: get(p, &[], "sampleDay")?,
            temperature: get(p, &[], "temperature")?,
            humidity: get_opt(p, &[], "humidity")?,
        })
    }
}

#[derive(Debug, Clone, PartialEq)]
struct CandidateRow<'a> {
    collection_slug: &'a str,
    item_id: i64,
    status: &'a str,
    metadata: HashMap<String, String>,
}

impl ToGrpcRecord for CandidateRow<'_> {
    const KEY_COLUMNS: &'static [&'static str] = &[];

    fn props(&self) -> Vec<(&str, GrpcValue)> {
        vec![
            ("collection_slug", str_v(self.collection_slug)),
            ("item_id", i64_v(self.item_id)),
            ("status", str_v(self.status)),
            (
                "metadata",
                map_v(self.metadata.iter().map(|(k, v)| (k.clone(), str_v(v.clone()))).collect()),
            ),
        ]
    }
}

impl<'a> TryFrom<&'a GrpcRecord> for CandidateRow<'a> {
    type Error = RecordDecodeError;

    fn try_from(rec: &'a GrpcRecord) -> Result<Self, RecordDecodeError> {
        let p = &rec.properties;
        Ok(CandidateRow {
            collection_slug: get(p, &[], "collection_slug")?,
            item_id: get(p, &[], "item_id")?,
            status: get(p, &[], "status")?,
            metadata: get::<PropMap<String>>(p, &[], "metadata")?
                .into_entries()
                .into_iter()
                .collect(),
        })
    }
}

#[derive(Debug, Clone, PartialEq)]
struct OmitRow {
    visible: i32,
    gone: String,
    maybe: Option<i32>,
    logical_key: i64,
}

impl ToGrpcRecord for OmitRow {
    const KEY_COLUMNS: &'static [&'static str] = &[];

    fn props(&self) -> Vec<(&str, GrpcValue)> {
        let mut out = vec![("visible", i32_v(self.visible))];
        if !Option::is_none(&self.maybe) {
            if let Some(m) = &self.maybe {
                out.push(("maybe", i32_v(*m)));
            }
        }
        out.push(("logical_key", i64_v(self.logical_key)));
        out
    }
}

#[derive(Debug, Clone, PartialEq)]
struct Inner {
    a: i32,
    b: String,
}

impl ToGrpcRecord for Inner {
    const KEY_COLUMNS: &'static [&'static str] = &[];

    fn props(&self) -> Vec<(&str, GrpcValue)> {
        vec![("a", i32_v(self.a)), ("b", str_v(self.b.clone()))]
    }
}

impl<'de> FromGrpcValue<'de> for Inner {
    fn from_grpc_value(v: &'de GrpcValue) -> Result<Self, RecordDecodeError> {
        let p = record_fields(v, "embedded record")?;
        Ok(Inner { a: get(p, &[], "a")?, b: get(p, &[], "b")? })
    }
}

#[derive(Debug, Clone, PartialEq)]
struct Outer {
    name: String,
    inner: Inner,
    label_ids: Vec<i32>,
}

impl ToGrpcRecord for Outer {
    const KEY_COLUMNS: &'static [&'static str] = &[];

    fn props(&self) -> Vec<(&str, GrpcValue)> {
        vec![
            ("name", str_v(self.name.clone())),
            ("inner", self.inner.to_grpc_value()),
            ("tags", list_v(self.label_ids.iter().map(|e| i32_v(*e)).collect())),
        ]
    }
}

impl<'a> TryFrom<&'a GrpcRecord> for Outer {
    type Error = RecordDecodeError;

    fn try_from(rec: &'a GrpcRecord) -> Result<Self, RecordDecodeError> {
        let p = &rec.properties;
        Ok(Outer {
            name: get(p, &[], "name")?,
            inner: get(p, &[], "inner")?,
            label_ids: get(p, &[], "tags")?,
        })
    }
}

struct SearchParams<'a> {
    tokens: &'a [i32],
    weights: &'a [f64],
    keywords: Option<&'a str>,
}

impl ToGrpcRecord for SearchParams<'_> {
    const KEY_COLUMNS: &'static [&'static str] = &[];

    fn props(&self) -> Vec<(&str, GrpcValue)> {
        let mut out = vec![
            ("qTokens", list_v(self.tokens.iter().map(|e| i32_v(*e)).collect())),
            ("qWeights", list_v(self.weights.iter().map(|e| f64_v(e.to_bits())).collect())),
        ];
        if let Some(k) = &self.keywords {
            out.push(("keywords", str_v(*k)));
        }
        out
    }
}

// ---------------------------------------------------------------------------
// Wire kinds
// ---------------------------------------------------------------------------

#[test]
fn metric_row_maps_fields_to_wire_kinds() {
    let row = MetricRow {
        sensor_id: 1001,
        sample_day: 25_000,
        temperature: 25,
        humidity: Some(40),
    };
    let rec = row.to_grpc_record("sensor_readings");

    assert_eq!(rec.class, "sensor_readings");
    assert_eq!(kind(&rec, "sensorId"), Some(Kind::Int64Value(1001)));
    assert_eq!(kind(&rec, "sampleDay"), Some(Kind::Int32Value(25_000)));
    assert_eq!(kind(&rec, "temperature"), Some(Kind::Int32Value(25)));
    assert_eq!(kind(&rec, "humidity"), Some(Kind::Int32Value(40)));
}

#[test]
fn candidate_row_encodes_metadata_as_map() {
    let row = CandidateRow {
        collection_slug: "staff-picks",
        item_id: 1002,
        status: "approved",
        metadata: HashMap::from([("title".to_string(), "Red Widget".to_string())]),
    };
    let rec = row.to_grpc_record("listing");

    assert_eq!(rec.class, "listing");
    let Some(Kind::MapValue(map)) = kind(&rec, "metadata") else {
        panic!("metadata must be a map value");
    };
    let Some(Kind::StringValue(title)) = of(&map.entries, "title") else {
        panic!("metadata.title must be a string");
    };
    assert_eq!(title, "Red Widget");
}

#[test]
fn option_none_omits_the_property() {
    let row = MetricRow {
        sensor_id: 1,
        sample_day: 1,
        temperature: 0,
        humidity: None,
    };
    let rec = row.to_grpc_record("sensor_readings");
    assert!(
        !rec.properties.contains_key("humidity"),
        "None Option must be omitted, got {:?}",
        rec.properties.keys()
    );
    assert!(rec.properties.contains_key("sensorId"));
}

#[test]
fn skip_attrs_omit_properties() {
    let row = OmitRow {
        visible: 7,
        gone: "shhh".to_string(),
        maybe: None,
        logical_key: 99,
    };
    assert_eq!(row.gone, "shhh");
    let rec = row.to_grpc_record("omit");
    let mut keys: Vec<String> = rec.properties.keys();
    keys.sort_unstable();
    assert_eq!(keys, vec!["logical_key", "visible"]);
    // The present `maybe` is serialized under `skip_serializing_if` too.
    let row = OmitRow {
        visible: 8,
        gone: String::new(),
        maybe: Some(5),
        logical_key: 100,
    };
    let rec = row.to_grpc_record("omit");
    assert!(rec.properties.contains_key("maybe"));
}

#[test]
fn nested_struct_encodes_as_map() {
    let row = Outer {
        name: "outer".to_string(),
        inner: Inner {
            a: 1,
            b: "bee".to_string(),
        },
        label_ids: vec![100, 200],
    };
    let rec = row.to_grpc_record("outer");

    // Renames apply on the encode side too.
    assert!(rec.properties.contains_key("tags"));
    let Some(Kind::ListValue(tags)) = kind(&rec, "tags") else {
        panic!("tags must be a list");
    };
    assert_eq!(tags.values[0].kind, Some(Kind::Int32Value(100)));

    let Some(Kind::MapValue(inner)) = kind(&rec, "inner") else {
        panic!("nested struct must be a map value");
    };
    assert_eq!(of(&inner.entries, "a"), Some(Kind::Int32Value(1)));
    assert_eq!(of(&inner.entries, "b"), Some(Kind::StringValue("bee".to_string())));
}

#[test]
fn borrowed_slices_encode_as_lists_and_params() {
    let params = SearchParams {
        tokens: &[10, 20, 30],
        weights: &[0.5, 1.0],
        keywords: Some("spire"),
    };
    let map = params.to_param_map();

    assert!(map.contains_key("qTokens"));
    assert!(map.contains_key("qWeights"));
    assert!(map.contains_key("keywords"));

    let Some(Kind::ListValue(qt)) = of(&map, "qTokens") else {
        panic!("qTokens must be a list");
    };
    assert_eq!(
        qt.values,
        vec![
            GrpcValue {
                kind: Some(Kind::Int32Value(10)),
                logical_type: String::new()
            },
            GrpcValue {
                kind: Some(Kind::Int32Value(20)),
                logical_type: String::new()
            },
            GrpcValue {
                kind: Some(Kind::Int32Value(30)),
                logical_type: String::new()
            },
        ]
    );
    let Some(Kind::ListValue(qw)) = of(&map, "qWeights") else {
        panic!("qWeights must be a list");
    };
    assert_eq!(qw.values.len(), 2);
    assert_eq!(qw.values[0].kind, Some(double(0.5)));

    // `Option::None` params stay absent — omitted, not null.
    let empty = SearchParams {
        tokens: &[],
        weights: &[],
        keywords: None,
    };
    let map = empty.to_param_map();
    assert!(!map.contains_key("keywords"));
    assert!(
        map.contains_key("qTokens"),
        "empty list params are still bound (absent is null)"
    );
}

// ---------------------------------------------------------------------------
// Round trips
// ---------------------------------------------------------------------------

#[test]
fn round_trip_metric_row() {
    let row = MetricRow {
        sensor_id: 42,
        sample_day: 25_000,
        temperature: 7,
        humidity: Some(3),
    };
    let rec = row.to_grpc_record("sensor_readings");
    let decoded = MetricRow::try_from(&rec).expect("round-trip decode failed");
    assert_eq!(decoded, row);

    // And the None variant round-trips (optionally-defaulted field).
    let row = MetricRow {
        sensor_id: 42,
        sample_day: 25_000,
        temperature: 7,
        humidity: None,
    };
    let rec = row.to_grpc_record("sensor_readings");
    let decoded = MetricRow::try_from(&rec).expect("round-trip decode failed");
    assert_eq!(decoded, row);
}

#[test]
fn round_trip_candidate_row() {
    let row = CandidateRow {
        collection_slug: "staff-picks",
        item_id: 1001,
        status: "approved",
        metadata: HashMap::from([
            ("title".to_string(), "Red Widget".to_string()),
            ("extra".to_string(), "x".to_string()),
        ]),
    };
    let rec = row.to_grpc_record("listing");
    let decoded = CandidateRow::try_from(&rec).expect("round-trip decode failed");
    assert_eq!(decoded, row);
}

#[test]
fn round_trip_outer_with_nested() {
    let row = Outer {
        name: "n".to_string(),
        inner: Inner {
            a: -3,
            b: "b".to_string(),
        },
        label_ids: vec![1, 2, 3],
    };
    let rec = row.to_grpc_record("outer");
    let decoded = Outer::try_from(&rec).expect("round-trip decode failed");
    assert_eq!(decoded, row);
}

// ---------------------------------------------------------------------------
// Custom types via `with`
// ---------------------------------------------------------------------------

/// A wrapper that the encoder knows nothing about.
#[derive(Debug, Clone, PartialEq)]
struct Shareable(u64);

fn encode_shareable(value: &Shareable) -> GrpcValue {
    i64_v(value.0 as i64)
}

struct WithRow {
    shareable: Shareable,
    normal: i32,
}

impl ToGrpcRecord for WithRow {
    const KEY_COLUMNS: &'static [&'static str] = &[];

    fn props(&self) -> Vec<(&str, GrpcValue)> {
        vec![
            ("shareable", encode_shareable(&self.shareable)),
            ("normal", i32_v(self.normal)),
        ]
    }
}

#[test]
fn with_hatch_shapes_custom_values() {
    let row = WithRow {
        shareable: Shareable(7),
        normal: 1,
    };
    let rec = row.to_grpc_record("with");
    assert_eq!(kind(&rec, "shareable"), Some(Kind::Int64Value(7)));
    assert_eq!(kind(&rec, "normal"), Some(Kind::Int32Value(1)));
}

// ---------------------------------------------------------------------------
// Directional skips
// ---------------------------------------------------------------------------

#[derive(Debug, Clone, PartialEq)]
struct DirectionalSkipRow {
    always: String,
    write_skipped: String,
    read_skipped: String,
}

impl ToGrpcRecord for DirectionalSkipRow {
    const KEY_COLUMNS: &'static [&'static str] = &[];

    fn props(&self) -> Vec<(&str, GrpcValue)> {
        vec![
            ("always", str_v(self.always.clone())),
            ("read_skipped", str_v(self.read_skipped.clone())),
        ]
    }
}

impl<'a> TryFrom<&'a GrpcRecord> for DirectionalSkipRow {
    type Error = RecordDecodeError;

    fn try_from(rec: &'a GrpcRecord) -> Result<Self, RecordDecodeError> {
        let p = &rec.properties;
        Ok(DirectionalSkipRow {
            always: get(p, &[], "always")?,
            write_skipped: get(p, &[], "write_skipped")?,
            read_skipped: Default::default(),
        })
    }
}

#[test]
fn skip_serializing_still_decodes_and_skip_deserializing_skips_decode() {
    let rec = rec(
        "",
        vec![
            ("always", str_v("a")),
            ("write_skipped", str_v("w")),
            ("read_skipped", str_v("r")),
        ],
    );
    let row = DirectionalSkipRow::try_from(&rec).unwrap();
    assert_eq!(row.always, "a");
    assert_eq!(
        row.write_skipped, "w",
        "`skip_serializing` is write-only — the field must still decode"
    );
    assert_eq!(
        row.read_skipped, "",
        "`skip_deserializing` is read-only — the field must decode to its default"
    );
}

#[test]
fn skip_deserializing_still_encodes_and_skip_serializing_skips_encode() {
    let row = DirectionalSkipRow {
        always: "a".into(),
        write_skipped: "w".into(),
        read_skipped: "r".into(),
    };
    let keys: Vec<&str> = row.props().into_iter().map(|(k, _)| k).collect();
    assert!(keys.contains(&"always"));
    assert!(
        keys.contains(&"read_skipped"),
        "`skip_deserializing` is read-only — the field must still encode"
    );
    assert!(
        !keys.contains(&"write_skipped"),
        "`skip_serializing` is write-only — the field must be omitted at encode"
    );
}

// ---------------------------------------------------------------------------
// Blobs and times
// ---------------------------------------------------------------------------

struct BorrowedBlobRow<'a> {
    data: Cow<'a, [u8]>,
}

impl ToGrpcRecord for BorrowedBlobRow<'_> {
    const KEY_COLUMNS: &'static [&'static str] = &[];

    fn props(&self) -> Vec<(&str, GrpcValue)> {
        vec![("data", bytes_v(self.data.to_vec()))]
    }
}

#[test]
fn cow_bytes_encode_as_bytes_kind() {
    let row = BorrowedBlobRow {
        data: Cow::Borrowed(&[1u8, 2, 3][..]),
    };
    let props = row.props();
    assert_eq!(props.len(), 1);
    assert_eq!(
        props[0].1.kind,
        Some(Kind::BytesValue(vec![1, 2, 3])),
        "`Cow<[u8]>` is a byte blob — it must never reach the string arm"
    );
}

#[derive(Debug, Clone, PartialEq)]
struct TimestampedRow {
    created_at: DateTimeUtc,
}

impl ToGrpcRecord for TimestampedRow {
    const KEY_COLUMNS: &'static [&'static str] = &[];

    fn props(&self) -> Vec<(&str, GrpcValue)> {
        vec![("created_at", timestamp_v(self.created_at))]
    }
}

impl<'a> TryFrom<&'a GrpcRecord> for TimestampedRow {
    type Error = RecordDecodeError;

    fn try_from(rec: &'a GrpcRecord) -> Result<Self, RecordDecodeError> {
        Ok(TimestampedRow { created_at: get(&rec.properties, &[], "created_at")? })
    }
}

#[test]
fn datetime_round_trips_through_the_timestamp_kind() {
    let row = TimestampedRow {
        created_at: DateTimeUtc::from_timestamp(1_755_000_000, 123_456_789).unwrap(),
    };
    let rec = row.to_grpc_record("timestamped");
    assert_eq!(
        kind(&rec, "created_at"),
        Some(Kind::TimestampValue(Timestamp {
            seconds: 1_755_000_000,
            nanos: 123_456_789,
        })),
        "chrono DateTime must encode as the protobuf Timestamp kind"
    );
    let back = TimestampedRow::try_from(&rec).unwrap();
    assert_eq!(back, row);
}

// ---------------------------------------------------------------------------
// Keys
// ---------------------------------------------------------------------------

struct KeyedRow {
    item_id: String,
    title: String,
}

impl ToGrpcRecord for KeyedRow {
    fn props(&self) -> Vec<(&str, GrpcValue)> {
        vec![("item_id", str_v(self.item_id.clone())), ("title", str_v(self.title.clone()))]
    }

    const KEY_COLUMNS: &'static [&'static str] = &["item_id"];
}

struct UnkeyedRow {
    title: String,
}

impl ToGrpcRecord for UnkeyedRow {
    const KEY_COLUMNS: &'static [&'static str] = &[];

    fn props(&self) -> Vec<(&str, GrpcValue)> {
        vec![("title", str_v(self.title.clone()))]
    }
}

#[test]
fn key_columns_are_none_unless_declared() {
    assert_eq!(KeyedRow::KEY_COLUMNS, ["item_id"]);
    assert!(UnkeyedRow::KEY_COLUMNS.is_empty());
}

// ---------------------------------------------------------------------------
// Enums
// ---------------------------------------------------------------------------

#[derive(Debug, Clone, PartialEq)]
enum Size {
    Small,
    Large,
}

impl ToGrpcRecord for Size {
    const KEY_COLUMNS: &'static [&'static str] = &[];

    fn props(&self) -> Vec<(&str, GrpcValue)> {
        Vec::new()
    }

    fn to_grpc_value(&self) -> GrpcValue {
        str_v(match self {
            Size::Small => "small",
            Size::Large => "large",
        })
    }
}

impl<'de> FromGrpcValue<'de> for Size {
    fn from_grpc_value(v: &'de GrpcValue) -> Result<Self, RecordDecodeError> {
        match variant_text(v)? {
            "small" => Ok(Size::Small),
            "large" => Ok(Size::Large),
            other => Err(RecordDecodeError::unknown_variant(other)),
        }
    }
}

#[derive(Debug, Clone, PartialEq)]
enum Shape {
    Circle { radius: f64 },
    Rect { w: f64, h: f64 },
}

impl ToGrpcRecord for Shape {
    const KEY_COLUMNS: &'static [&'static str] = &[];

    fn props(&self) -> Vec<(&str, GrpcValue)> {
        match self {
            Shape::Circle { radius } => {
                vec![("kind", str_v("circle")), ("radius", f64_v(radius.to_bits()))]
            }
            Shape::Rect { w, h } => vec![
                ("kind", str_v("rect")),
                ("w", f64_v(w.to_bits())),
                ("h", f64_v(h.to_bits())),
            ],
        }
    }
}

impl<'de> FromGrpcValue<'de> for Shape {
    fn from_grpc_value(v: &'de GrpcValue) -> Result<Self, RecordDecodeError> {
        let p = record_fields(v, "record/map")?;
        match variant_tag(p, "kind", &[])? {
            "circle" => Ok(Shape::Circle { radius: float(get(p, &[], "radius")?) }),
            "rect" => Ok(Shape::Rect {
                w: float(get(p, &[], "w")?),
                h: float(get(p, &[], "h")?),
            }),
            other => Err(RecordDecodeError::unknown_variant(other)),
        }
    }
}

struct SizeCarrier {
    size: Size,
    shape: Option<Shape>,
}

impl ToGrpcRecord for SizeCarrier {
    const KEY_COLUMNS: &'static [&'static str] = &[];

    fn props(&self) -> Vec<(&str, GrpcValue)> {
        let mut out = vec![("size", self.size.to_grpc_value())];
        if let Some(s) = &self.shape {
            out.push(("shape", s.to_grpc_value()));
        }
        out
    }
}

#[test]
fn unit_enum_encodes_as_its_wire_name() {
    let v = Size::Large.to_grpc_value();
    assert_eq!(v.kind, Some(Kind::StringValue("large".into())));
    assert_eq!(
        Size::Small.to_grpc_value().kind,
        Some(Kind::StringValue("small".into()))
    );
}

#[test]
fn tagged_enum_encodes_discriminator_and_fields() {
    let v = Shape::Rect { w: 2.0, h: 3.0 }.to_grpc_value();
    let Some(Kind::MapValue(m)) = &v.kind else {
        panic!("tagged enum must encode as a map");
    };
    assert_eq!(of(&m.entries, "kind"), Some(Kind::StringValue("rect".into())));
    assert_eq!(of(&m.entries, "w"), Some(double(2.0)));
    assert_eq!(of(&m.entries, "h"), Some(double(3.0)));
}

#[test]
fn enum_fields_encode_inside_structs() {
    let row = SizeCarrier {
        size: Size::Small,
        shape: Some(Shape::Circle { radius: 1.0 }),
    };
    let rec = row.to_grpc_record("carrier");
    assert_eq!(kind(&rec, "size"), Some(Kind::StringValue("small".into())));
    let Some(Kind::MapValue(m)) = kind(&rec, "shape") else {
        panic!("shape must be a map");
    };
    assert!(m.entries.contains_key("kind"));

    // None omits the property, as for every Option.
    let row = SizeCarrier {
        size: Size::Large,
        shape: None,
    };
    let rec = row.to_grpc_record("carrier");
    assert!(!rec.properties.contains_key("shape"));
}

#[test]
fn enum_round_trips_with_decode() {
    for size in [Size::Small, Size::Large] {
        let back = Size::from_grpc_value(&size.to_grpc_value()).unwrap();
        assert_eq!(back, size);
    }
    let shape = Shape::Circle { radius: 2.5 };
    let back = Shape::from_grpc_value(&shape.to_grpc_value()).unwrap();
    assert_eq!(back, shape);
}

// ---------------------------------------------------------------------------
// Dynamic values
// ---------------------------------------------------------------------------

struct MetadataCarrier {
    name: String,
    metadata: HashMap<String, Json>,
}

impl ToGrpcRecord for MetadataCarrier {
    const KEY_COLUMNS: &'static [&'static str] = &[];

    fn props(&self) -> Vec<(&str, GrpcValue)> {
        vec![
            ("name", str_v(self.name.clone())),
            (
                "metadata",
                map_v(
                    self.metadata.iter().map(|(k, v)| (k.clone(), json_to_grpc_value(v))).collect(),
                ),
            ),
        ]
    }
}

#[test]
fn json_values_encode_onto_wire_kinds() {
    let mut metadata = HashMap::new();
    metadata.insert("count".to_string(), parsed("3"));
    metadata.insert("label".to_string(), parsed("\"hi\""));
    metadata.insert("flag".to_string(), parsed("true"));
    metadata.insert("nested".to_string(), parsed("{\"a\": [1, 2]}"));

    let row = MetadataCarrier {
        name: "m".into(),
        metadata,
    };
    let rec = row.to_grpc_record("meta");
    let Some(Kind::MapValue(m)) = kind(&rec, "metadata") else {
        panic!("metadata must be a map");
    };
    assert_eq!(of(&m.entries, "count"), Some(Kind::Int32Value(3)));
    assert_eq!(of(&m.entries, "label"), Some(Kind::StringValue("hi".into())));
    assert_eq!(of(&m.entries, "flag"), Some(Kind::BoolValue(true)));
    assert!(matches!(of(&m.entries, "nested"), Some(Kind::MapValue(_))));
}

#[test]
fn json_to_grpc_value_inverts_the_bridge() {
    let cases = [
        parsed("1"),
        parsed("1.5"),
        parsed("\"s\""),
        parsed("true"),
        parsed("[1, \"a\"]"),
        parsed("{\"k\": \"v\"}"),
        parsed("9223372036854775807"),
    ];
    for case in cases {
        let wire = json_to_grpc_value(&case);
        let back = grpc_value_to_json(&wire);
        assert_eq!(back, case, "round trip must be lossless for {case:?}");
    }
    // JSON null maps onto the unset kind — the wire's null.
    assert!(json_to_grpc_value(&Json::Null).kind.is_none());
}

#[test]
fn rows_become_json_objects() {
    let mut r = rec("", vec![("a", i64_v(1)), ("@type", str_v("stored"))]);
    assert_eq!(row_to_json(&r), parsed("{\"a\": 1, \"@type\": \"stored\"}"));
    assert_eq!(grpc_record_to_json(&r), parsed("{\"a\": 1, \"@type\": \"stored\"}"));
    // The record's own metadata gives way to a property in a row, and wins in a record.
    r.rid = "#1:2".to_string();
    r.class = "item".to_string();
    assert_eq!(
        row_to_json(&r),
        parsed("{\"@rid\": \"#1:2\", \"@type\": \"stored\", \"a\": 1}")
    );
    assert_eq!(
        grpc_record_to_json(&r),
        parsed("{\"@rid\": \"#1:2\", \"@type\": \"item\", \"a\": 1}")
    );
    assert_eq!(Json::from_grpc_value(&i64_v(1)).unwrap(), parsed("1"));
}

// ---------------------------------------------------------------------------
// Differences
// ---------------------------------------------------------------------------

#[derive(Debug, Clone)]
struct DiffRow {
    item_id: String,
    title: String,
    score: i32,
    note: Option<String>,
}

impl ToGrpcRecord for DiffRow {
    fn props(&self) -> Vec<(&str, GrpcValue)> {
        let mut out = vec![
            ("item_id", str_v(self.item_id.clone())),
            ("title", str_v(self.title.clone())),
            ("score", i32_v(self.score)),
        ];
        if let Some(n) = &self.note {
            out.push(("note", str_v(n.clone())));
        }
        out
    }

    const KEY_COLUMNS: &'static [&'static str] = &["item_id"];

    fn changed_wires(&self, other: &Self) -> Vec<String> {
        let mut out = Vec::new();
        if self.item_id != other.item_id {
            out.push("item_id".to_string());
        }
        if self.title != other.title {
            out.push("title".to_string());
        }
        if self.score != other.score {
            out.push("score".to_string());
        }
        if other.note.is_some() && self.note != other.note {
            out.push("note".to_string());
        }
        out
    }
}

fn diff_row(title: &str, score: i32, note: Option<&str>) -> DiffRow {
    DiffRow {
        item_id: "1".into(),
        title: title.into(),
        score,
        note: note.map(str::to_string),
    }
}

#[test]
fn props_diff_reports_only_changed_columns() {
    let old = diff_row("A", 5, Some("x"));
    let same = diff_row("A", 5, Some("x"));
    assert!(
        props_diff(&old, &same).is_empty(),
        "identical snapshots → no write"
    );

    let new = diff_row("B", 5, None);
    let diff = props_diff(&old, &new);
    // `title` changed; `note` became None (not expressible as a SET — omitted).
    assert_eq!(diff.len(), 1);
    assert_eq!(diff[0].0, "title");
    assert_eq!(diff[0].1.kind, Some(Kind::StringValue("B".into())));
    assert_eq!(changed_param_map(&old, &new).keys(), ["title"]);

    // An Option going None → Some counts as changed.
    let revived = diff_row("A", 5, Some("y"));
    let diff = props_diff(&old, &revived);
    assert_eq!(diff.len(), 1);
    assert_eq!(diff[0].0, "note");
}

#[test]
fn changed_wires_compares_rust_values_directly() {
    let old = diff_row("A", 5, Some("x"));
    let same = diff_row("A", 5, Some("x"));
    assert!(
        old.changed_wires(&same).is_empty(),
        "identical → no diff, no encoding"
    );

    let new = diff_row("B", 5, None);
    // `title` changed; `note` went Some→None (not SET-expressible → omitted,
    // matching `props_diff`).
    assert_eq!(old.changed_wires(&new), vec!["title".to_string()]);

    let revived = diff_row("A", 6, Some("y"));
    let mut changed = revived.changed_wires(&old);
    changed.sort_unstable();
    assert_eq!(changed, vec!["note".to_string(), "score".to_string()]);
}

#[test]
fn the_default_diff_agrees_with_props_diff() {
    let old = MetricRow { sensor_id: 1, sample_day: 2, temperature: 3, humidity: None };
    let new = MetricRow { sensor_id: 1, sample_day: 5, temperature: 3, humidity: Some(4) };
    assert_eq!(old.changed_wires(&new), ["sampleDay", "humidity"]);
    assert_eq!(new.changed_wires(&old), ["sampleDay"]);
}

// ---------------------------------------------------------------------------
// By-value encode
// ---------------------------------------------------------------------------

#[derive(Debug, Clone, PartialEq)]
struct OwnedRow {
    id: String,
    title: String,
    blob: Vec<u8>,
    flags: Vec<String>,
    note: Option<String>,
    score: i32,
}

impl ToGrpcRecord for OwnedRow {
    const KEY_COLUMNS: &'static [&'static str] = &[];

    fn props(&self) -> Vec<(&str, GrpcValue)> {
        let mut out = vec![
            ("id", str_v(self.id.clone())),
            ("title", str_v(self.title.clone())),
            ("blob", bytes_v(self.blob.clone())),
            ("flags", list_v(self.flags.iter().map(|e| str_v(e.clone())).collect())),
        ];
        if let Some(n) = &self.note {
            out.push(("note", str_v(n.clone())));
        }
        out.push(("score", i32_v(self.score)));
        out
    }

    fn into_grpc_record(self, class: &str) -> GrpcRecord {
        let mut props = PropMap::new();
        props.insert("id".to_string(), str_v(self.id));
        props.insert("title".to_string(), str_v(self.title));
        props.insert("blob".to_string(), bytes_v(self.blob));
        props.insert("flags".to_string(), list_v(self.flags.into_iter().map(str_v).collect()));
        if let Some(n) = self.note {
            props.insert("note".to_string(), str_v(n));
        }
        props.insert("score".to_string(), i32_v(self.score));
        GrpcRecord { rid: String::new(), class: class.to_string(), properties: props }
    }
}

#[test]
fn into_grpc_record_moves_payloads_and_matches_the_borrow_path() {
    let row = OwnedRow {
        id: "k".into(),
        title: "t".into(),
        blob: vec![1, 2, 3],
        flags: vec!["a".into()],
        note: Some("n".into()),
        score: 7,
    };
    let borrowed = row.clone().to_grpc_record("owned");
    let moved = row.into_grpc_record("owned");
    assert_eq!(borrowed.properties.len(), moved.properties.len());
    for k in borrowed.properties.keys() {
        assert_eq!(
            kind(&moved, &k),
            kind(&borrowed, &k),
            "column `{k}` must encode identically"
        );
    }
    // The provided form is the borrowing one.
    let row = MetricRow { sensor_id: 1, sample_day: 2, temperature: 3, humidity: None };
    assert_eq!(kind(&row.into_grpc_record("m"), "sensorId"), Some(Kind::Int64Value(1)));
}

// ---------------------------------------------------------------------------
// Links
// ---------------------------------------------------------------------------

#[derive(Debug, Clone, PartialEq)]
struct EdgeWriteRow {
    from: Link,
    to: Option<Link>,
    related: Vec<Link>,
}

impl ToGrpcRecord for EdgeWriteRow {
    const KEY_COLUMNS: &'static [&'static str] = &[];

    fn props(&self) -> Vec<(&str, GrpcValue)> {
        let mut out = vec![("@in", self.from.into_value())];
        if let Some(to) = &self.to {
            out.push(("@out", to.into_value()));
        }
        out.push(("related", list_v(self.related.iter().map(|l| l.into_value()).collect())));
        out
    }
}

#[test]
fn link_fields_encode_as_link_kind() {
    let row = EdgeWriteRow {
        from: Link::parse("#11:2").unwrap(),
        to: Some(Link::parse("#12:9").unwrap()),
        related: vec![Link::parse("#3:1").unwrap()],
    };
    let rec = row.clone().into_grpc_record("edge");
    assert_eq!(
        kind(&rec, "@in"),
        Some(Kind::LinkValue(GrpcLink {
            rid: "#11:2".into(),
            class: String::new(),
        }))
    );
    assert!(matches!(kind(&rec, "@out"), Some(Kind::LinkValue(_))));
    let Some(Kind::ListValue(l)) = kind(&rec, "related") else {
        panic!("related must be a list");
    };
    assert!(matches!(l.values[0].kind, Some(Kind::LinkValue(_))));

    // The borrow path agrees.
    let borrowed = row.to_grpc_record("edge");
    assert_eq!(kind(&borrowed, "@in"), kind(&rec, "@in"));
}

// ---------------------------------------------------------------------------
// Value helpers and parameters
// ---------------------------------------------------------------------------

#[test]
fn list_and_map_helpers_shape_the_wire_values() {
    let list = list_v(vec![str_v("a"), str_v("b")]);
    let Some(Kind::ListValue(l)) = &list.kind else {
        panic!("expected list");
    };
    assert_eq!(l.values.len(), 2);

    let map = map_v(vec![("k".to_string(), i64_v(1))]);
    let Some(Kind::MapValue(m)) = &map.kind else {
        panic!("expected map");
    };
    assert_eq!(of(&m.entries, "k"), Some(Kind::Int64Value(1)));
}

#[test]
fn temporal_values_encode_as_utc_timestamps() {
    let dt = DateTimeUtc::parse_from_rfc3339("2024-01-15T10:30:00Z").unwrap();
    let Some(Kind::TimestampValue(ts)) = timestamp_v(dt).kind else {
        panic!("expected timestamp");
    };
    assert_eq!(ts.seconds, dt.timestamp());
    assert_eq!(ts.seconds, 1_705_314_600);

    // DATE columns: midnight-UTC on the wire.
    let d = CalendarDate::from_ymd_opt(2025, 6, 30).unwrap();
    let Some(Kind::TimestampValue(ts)) = date_v(d).kind else {
        panic!("expected timestamp");
    };
    assert_eq!(ts.seconds, 1_751_241_600); // 2025-06-30T00:00:00Z
    assert_eq!(ts.nanos, 0);
}

#[test]
fn params_construct_from_arrays_and_maps() {
    // Pairs — the call-site form.
    let p = Params::from_pairs(vec![("item_id", i64_v(7)), ("name", str_v("ada"))]);
    assert_eq!(of(&p.0, "item_id"), Some(Kind::Int64Value(7)));
    assert_eq!(p.0.len(), 2);

    // Existing maps (e.g. a DTO's to_param_map output) wrap as-is.
    let mut m = PropMap::new();
    m.insert("k".to_string(), f64_v(0.5f64.to_bits()));
    let p = Params::from(m);
    assert_eq!(of(&p.0, "k"), Some(double(0.5)));

    // Default (no parameters).
    assert_eq!(Params::default().0.len(), 0);
}

#[test]
fn params_macro_discovers_kinds_via_into_grpc_value() {
    let since = DateTimeUtc::parse_from_rfc3339("2024-01-15T00:00:00Z").unwrap();
    let title_owned = String::from("Red Widget");
    let min: f64 = 0.8;

    let p = Params::from_pairs(vec![
        ("item_id", 1001i64.into_value()),
        ("bare", 1001.into_value()),
        ("title", "Red Widget".into_value()),
        ("owned_title", (&title_owned).into_value()),
        ("min_score", Double(min.to_bits()).into_value()),
        ("featured", true.into_value()),
        ("since", since.into_value()),
    ])
    .0;

    assert_eq!(of(&p, "item_id"), Some(Kind::Int64Value(1001)));
    assert_eq!(of(&p, "bare"), Some(Kind::Int32Value(1001)));
    assert_eq!(of(&p, "title"), Some(Kind::StringValue("Red Widget".into())));
    assert_eq!(of(&p, "owned_title"), Some(Kind::StringValue("Red Widget".into())));
    assert_eq!(of(&p, "min_score"), Some(double(0.8)));
    assert_eq!(of(&p, "featured"), Some(Kind::BoolValue(true)));
    assert_eq!(
        of(&p, "since"),
        Some(Kind::TimestampValue(Timestamp {
            seconds: since.timestamp(),
            nanos: 0
        }))
    );
}

#[test]
fn params_macro_handles_nested_maps_lists_and_passthrough() {
    // Nested map + explicit constructor passthrough + Vec binding.
    let labels = vec!["utility".to_string(), "handbook".to_string()];
    let filter = map_v(vec![
        ("genre".to_string(), "utility".into_value()),
        ("min".to_string(), Double(0.8f64.to_bits()).into_value()),
    ]);
    let p = Params::from_pairs(vec![
        ("item_id", i32_v(416).into_value()), // explicit narrow kind passes through
        ("filter", filter),
        ("labels", labels.into_value()),
    ])
    .0;

    assert_eq!(of(&p, "item_id"), Some(Kind::Int32Value(416)));

    let Some(Kind::MapValue(m)) = of(&p, "filter") else {
        panic!("filter must be a map");
    };
    assert_eq!(of(&m.entries, "genre"), Some(Kind::StringValue("utility".into())));
    assert_eq!(of(&m.entries, "min"), Some(double(0.8)));

    let Some(Kind::ListValue(l)) = of(&p, "labels") else {
        panic!("Vec must bind as a list");
    };
    assert_eq!(l.values.len(), 2);
}

#[test]
fn params_macro_single_entry_and_trailing_comma() {
    let one = Params::from_pairs(vec![("k", "v")]);
    assert_eq!(of(&one.0, "k"), Some(Kind::StringValue("v".into())));

    let two = Params::from_pairs(vec![("a", 1), ("b", 2)]);
    assert_eq!(two.0.len(), 2);
}

// ---------------------------------------------------------------------------
// Sets and ordered maps
// ---------------------------------------------------------------------------

struct TaggedRow {
    tags: HashSet<i32>,
    ordered: BTreeMap<String, f64>,
}

impl ToGrpcRecord for TaggedRow {
    const KEY_COLUMNS: &'static [&'static str] = &[];

    fn props(&self) -> Vec<(&str, GrpcValue)> {
        vec![
            ("tags", list_v(self.tags.iter().map(|e| i32_v(*e)).collect())),
            (
                "ordered",
                map_v(self.ordered.iter().map(|(k, v)| (k.clone(), f64_v(v.to_bits()))).collect()),
            ),
        ]
    }
}

#[test]
fn sets_encode_as_lists_and_btreemaps_as_maps() {
    let mut tags = HashSet::new();
    tags.insert(10);
    tags.insert(20);
    let row = TaggedRow {
        tags,
        ordered: BTreeMap::from([("a".to_string(), 0.5), ("b".to_string(), 1.5)]),
    };
    let rec = row.to_grpc_record("t");

    let Some(Kind::ListValue(l)) = kind(&rec, "tags") else {
        panic!("set field must encode as a list");
    };
    assert_eq!(l.values.len(), 2);

    let Some(Kind::MapValue(m)) = kind(&rec, "ordered") else {
        panic!("BTreeMap field must encode as a map");
    };
    assert_eq!(of(&m.entries, "a"), Some(double(0.5)));
}

// ---------------------------------------------------------------------------
// Decimals
// ---------------------------------------------------------------------------

#[derive(Debug, PartialEq)]
struct PriceRow {
    price: Decimal,
}

impl<'a> TryFrom<&'a GrpcRecord> for PriceRow {
    type Error = RecordDecodeError;

    fn try_from(rec: &'a GrpcRecord) -> Result<Self, RecordDecodeError> {
        Ok(PriceRow { price: get(&rec.properties, &[], "price")? })
    }
}

fn wire(d: &GrpcDecimal) -> GrpcRecord {
    let decimal = GrpcDecimal {
        unscaled: d.unscaled,
        scale: d.scale,
        unscaled_bytes: d.unscaled_bytes.clone(),
    };
    rec(
        "t",
        vec![(
            "price",
            GrpcValue {
                kind: Some(Kind::DecimalValue(decimal)),
                logical_type: String::new(),
            },
        )],
    )
}

#[test]
fn decimal_round_trips_through_the_wire_kind() {
    // 12345.6789 — mantissa fits a signed 64-bit integer.
    let d = Decimal::try_from_i128_with_scale(123_456_789, 4).unwrap();
    let v = decimal_v(d);
    let Some(Kind::DecimalValue(w)) = &v.kind else {
        panic!("expected decimal kind");
    };
    assert_eq!(w.unscaled, 123_456_789);
    assert_eq!(w.scale, 4);
    assert!(w.unscaled_bytes.is_empty());

    let back = PriceRow::try_from(&wire(w)).unwrap();
    assert_eq!(back.price, d);
}

#[test]
fn wide_mantissa_rides_bytes_and_overflows_loudly() {
    // >63-bit (but representable) mantissa must take the bytes path...
    let wide = Decimal::try_from_i128_with_scale(1i128 << 70, 0).unwrap();
    let v = decimal_v(wide);
    let Some(Kind::DecimalValue(w)) = &v.kind else {
        panic!("expected decimal kind");
    };
    assert!(!w.unscaled_bytes.is_empty() || w.unscaled != (1i128 << 70) as i64);
    assert_eq!(
        PriceRow::try_from(&wire(w)).unwrap().price,
        wide,
        "bytes-path mantissa round-trips"
    );

    // ...and >96-bit unscaled wire values decode as loud errors, never
    // silent precision loss.
    let too_wide = wire(&GrpcDecimal {
        unscaled: 0,
        scale: 2,
        unscaled_bytes: vec![0xFF; 17],
    });
    let err = PriceRow::try_from(&too_wide).unwrap_err();
    assert!(err.to_string().contains("too wide"), "{err:?}");
    // The type itself refuses a mantissa of more than its ninety-six bits.
    assert!(Decimal::try_from_i128_with_scale(1i128 << 96, 0).is_err());
    assert!(Decimal::try_from_i128_with_scale(1, 29).is_err());
}

#[test]
fn decimals_are_equal_as_numbers() {
    let d = |n: i128, places: u32| Decimal::try_from_i128_with_scale(n, places).unwrap();
    assert_eq!(d(10, 1), d(100, 2));
    assert_eq!(d(-10, 1), d(-1, 0));
    assert_eq!(d(0, 28), d(0, 0));
    assert_eq!(d((1i128 << 96) - 1, 0), d((1i128 << 96) - 1, 0));
    assert_ne!(d(10, 1), d(10, 2));
    assert_ne!(d(1, 0), d(-1, 0));
    assert_ne!(d((1i128 << 96) - 1, 28), d((1i128 << 96) - 1, 0));
    // The digits and places are kept all the same.
    assert_eq!(decimal_v(d(100, 2)).kind, decimal_v(d(100, 2)).kind);
    assert_ne!(decimal_v(d(100, 2)).kind, decimal_v(d(10, 1)).kind);
}

#[test]
fn json_floats_are_equal_as_numbers() {
    let float = |x: f64| Json::Number(JsonNumber::Float(x.to_bits()));
    assert_eq!(float(0.0), float(-0.0));
    assert_eq!(Json::Array(vec![float(0.0)]), Json::Array(vec![float(-0.0)]));
    assert_eq!(float(1.5), float(1.5));
    assert_ne!(float(1.5), float(-1.5));
    assert_ne!(float(1.0), Json::Number(JsonNumber::PosInt(1)));
    assert_ne!(float(f64::NAN), float(f64::NAN));
    assert_eq!(parsed("{\"a\": [0.0]}"), parsed("{\"a\": [-0.0]}"));
}
