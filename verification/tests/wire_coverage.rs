//! Every payload kind is built from a natural Rust value and decodes back to it.

use arcadedb_protocol::encode::{decimal_v, embedded_v, Double, Single};
use arcadedb_protocol::record::{FromGrpcValue, Number, Real32, Real64};
use arcadedb_protocol::{
    grpc_value_to_json, json_to_grpc_value, DateTimeUtc, Decimal, GrpcValue, IntoGrpcValue, Json,
    Kind, Link, PropMap,
};

#[test]
fn every_wire_kind_round_trips() {
    // Int64
    let v: GrpcValue = 100001i64.into_value();
    assert!(matches!(v.kind, Some(Kind::Int64Value(100001))));
    assert_eq!(i64::from_grpc_value(&v).unwrap(), 100001);

    // Int32
    let v: GrpcValue = 1716i32.into_value();
    assert!(matches!(v.kind, Some(Kind::Int32Value(1716))));
    assert_eq!(i32::from_grpc_value(&v).unwrap(), 1716);

    // Double
    let v: GrpcValue = Double(2.5f64.to_bits()).into_value();
    assert!(matches!(v.kind, Some(Kind::DoubleValue(b)) if f64::from_bits(b) == 2.5));
    assert!(matches!(Real64::from_grpc_value(&v).unwrap().0, Number::Double(b) if f64::from_bits(b) == 2.5));

    // Float
    let v: GrpcValue = Single(1.5f32.to_bits()).into_value();
    assert!(matches!(v.kind, Some(Kind::FloatValue(_))));
    assert!(matches!(Real32::from_grpc_value(&v).unwrap().0, Number::Single(b) if f32::from_bits(b) == 1.5));

    // Bool
    let v: GrpcValue = true.into_value();
    assert!(matches!(v.kind, Some(Kind::BoolValue(true))));
    assert!(bool::from_grpc_value(&v).unwrap());

    // String
    let v: GrpcValue = "StS".into_value();
    assert!(matches!(v.kind, Some(Kind::StringValue(ref s)) if s == "StS"));
    assert_eq!(String::from_grpc_value(&v).unwrap(), "StS");

    // Bytes (owned encode, borrowed decode view)
    let v: GrpcValue = vec![1u8, 2, 3].into_value();
    assert!(matches!(v.kind, Some(Kind::BytesValue(_))));
    assert_eq!(<&[u8]>::from_grpc_value(&v).unwrap(), &[1u8, 2, 3][..]);

    // Timestamp
    let now = chrono::Utc::now();
    let dt = DateTimeUtc::from_timestamp(now.timestamp(), now.timestamp_subsec_nanos()).unwrap();
    let v: GrpcValue = dt.into_value();
    assert!(matches!(v.kind, Some(Kind::TimestampValue(_))));
    let back = DateTimeUtc::from_grpc_value(&v).unwrap();
    assert_eq!(back.timestamp(), now.timestamp());
    assert_eq!(back.timestamp_subsec_nanos(), now.timestamp_subsec_nanos());

    // List
    let v: GrpcValue = vec![1i64, 2, 3].into_value();
    assert!(matches!(v.kind, Some(Kind::ListValue(_))));
    assert_eq!(Vec::<i64>::from_grpc_value(&v).unwrap(), vec![1, 2, 3]);

    // Map
    let mut m: PropMap<String> = PropMap::new();
    m.insert("k".to_string(), "v".to_string());
    let v: GrpcValue = m.into_value();
    assert!(matches!(v.kind, Some(Kind::MapValue(_))));
    let mut back = PropMap::<String>::from_grpc_value(&v).unwrap();
    assert_eq!(back.remove("k").as_deref(), Some("v"));

    // Link
    let link = Link::parse("#12:0").unwrap();
    let v: GrpcValue = link.into_value();
    assert!(matches!(v.kind, Some(Kind::LinkValue(_))));
    assert_eq!(Link::from_grpc_value(&v).unwrap(), link);

    // Embedded: no natural scalar type; the constructor is the interface.
    let v = embedded_v("x", vec![("a", 1i32.into_value())]);
    assert!(matches!(v.kind, Some(Kind::EmbeddedValue(_))));
    match grpc_value_to_json(&v) {
        Json::Object(m) => assert!(m.contains_key("a")),
        other => panic!("{other:?}"),
    }

    // Decimal
    let v = decimal_v(Decimal::try_from_i128_with_scale(1234, 2).unwrap());
    assert!(matches!(v.kind, Some(Kind::DecimalValue(_))));

    // The JSON bridge narrows small integers: JSON carries no width.
    let v: GrpcValue = 42i64.into_value();
    let j = grpc_value_to_json(&v);
    let back = json_to_grpc_value(&j);
    assert!(
        matches!(
            back.kind,
            Some(Kind::Int32Value(42)) | Some(Kind::Int64Value(42))
        ),
        "bridge must return an integer kind"
    );
}

/// A new kind has to be taught to this match, and given a round trip above.
#[allow(dead_code)]
fn touch_every_kind(k: &Kind) {
    match k {
        Kind::BoolValue(_) => {}
        Kind::Int32Value(_) => {}
        Kind::Int64Value(_) => {}
        Kind::FloatValue(_) => {}
        Kind::DoubleValue(_) => {}
        Kind::StringValue(_) => {}
        Kind::BytesValue(_) => {}
        Kind::TimestampValue(_) => {}
        Kind::ListValue(_) => {}
        Kind::MapValue(_) => {}
        Kind::EmbeddedValue(_) => {}
        Kind::LinkValue(_) => {}
        Kind::DecimalValue(_) => {}
    }
}

#[test]
fn lists_and_maps_come_back() {
    let texts = vec!["oak".to_string(), String::new(), "äß".to_string()];
    let v = texts.clone().into_value();
    assert_eq!(Vec::<String>::from_grpc_value(&v).unwrap(), texts);

    let at = |s: i64, n: u32| DateTimeUtc::from_timestamp(s, n).unwrap();
    let v = vec![at(0, 1), at(-1, 999_999_999)].into_value();
    let back = Vec::<DateTimeUtc>::from_grpc_value(&v).unwrap();
    let parts: Vec<(i64, u32)> =
        back.iter().map(|t| (t.timestamp(), t.timestamp_subsec_nanos())).collect();
    assert_eq!(parts, [(0, 1), (-1, 999_999_999)]);

    let d = |n: i128, places: u32| Decimal::try_from_i128_with_scale(n, places).unwrap();
    let mut prices: PropMap<Decimal> = PropMap::new();
    prices.insert("small".to_string(), d(-125, 2));
    prices.insert("wide".to_string(), d(1i128 << 90, 5));
    let v = prices.into_value();
    let back = PropMap::<Decimal>::from_grpc_value(&v).unwrap();
    assert_eq!(back.len(), 2);
    assert_eq!(decimal_v(*back.get("small").unwrap()).kind, decimal_v(d(-125, 2)).kind);
    assert_eq!(decimal_v(*back.get("wide").unwrap()).kind, decimal_v(d(1i128 << 90, 5)).kind);
}
