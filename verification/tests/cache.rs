//! The cache: keys, hexadecimal values, expiry and response shapes.

use arcadedb_protocol::cache::{
    command_request, consume, consumed_payload, decode_hex, encode_hex, exists_command,
    first_scalar, incr, incr_command, key_exists, load, loaded_bytes, loaded_payload, raw_batch,
    set_command, store, unserializable, validate_key, value_to_string, Envelope, Loaded,
};
use arcadedb_protocol::encode::{bool_v, i32_v, i64_v, list_v, str_v};
use arcadedb_protocol::options::Duration;
use arcadedb_protocol::{rec, ArcadeDbError, GrpcRecord, GrpcValue};

fn unix_now() -> u64 {
    std::time::SystemTime::now()
        .duration_since(std::time::UNIX_EPOCH)
        .map(|d| d.as_secs())
        .unwrap_or(0)
}

#[test]
fn key_charset_rejects_tokenizer_breakers() {
    for good in ["feed:page:123", "k", "A-b.c_9", "probe_cache:abc"] {
        validate_key(good).unwrap_or_else(|e| panic!("`{good}` must be valid: {}", e.to_string()));
    }
    for bad in [
        "",
        "has space",
        "line\nbreak",
        "tab\tchar",
        "quote\"d",
        "semi;colon",
    ] {
        assert!(
            validate_key(bad).is_err(),
            "`{bad}` must be rejected before the wire"
        );
    }
}

#[test]
fn hex_round_trip_and_garbage_rejection() {
    // Spaces and embedded quotes.
    let payload = b"{\"title\":\"Space Game, \"quoted\"\":1}";
    assert_eq!(decode_hex(&encode_hex(&payload.to_vec())).unwrap(), payload);
    assert!(decode_hex("zz").is_err());
    assert!(decode_hex("abc").is_err());
}

#[test]
fn hex_is_lower_case_and_errors_name_the_byte() {
    let all: Vec<u8> = (0..=255).collect();
    let text = encode_hex(&all);
    assert!(text.starts_with("000102") && text.ends_with("fdfeff"));
    assert_eq!(decode_hex(&text).unwrap(), all);
    assert_eq!(encode_hex(&Vec::new()), "");
    assert_eq!(decode_hex("").unwrap(), Vec::<u8>::new());
    assert_eq!(decode_hex("0A").unwrap_err(), "invalid hex byte 0x41");
    assert_eq!(decode_hex("a\n").unwrap_err(), "invalid hex byte 0x0a");
    assert_eq!(decode_hex("abc").unwrap_err(), "odd hex length 3");
    // Two bytes of UTF-8 for one character.
    assert_eq!(decode_hex("é").unwrap_err(), "invalid hex byte 0xc3");
}

#[test]
fn envelope_expiry_logic() {
    let now = unix_now();
    let fresh = Envelope {
        stored_at_epoch: now - 10,
        ttl_secs: 60,
        payload: (),
    };
    let stale = Envelope {
        stored_at_epoch: now - 61,
        ttl_secs: 60,
        payload: (),
    };
    let zero_ttl = Envelope {
        stored_at_epoch: now,
        ttl_secs: 0,
        payload: (),
    };
    let no_expiry = Envelope {
        stored_at_epoch: now - 10_000,
        ttl_secs: u64::MAX,
        payload: (),
    };
    assert!(!fresh.expired(now));
    assert!(stale.expired(now));
    assert!(zero_ttl.expired(now), "0 = evict on read");
    assert!(!no_expiry.expired(now), "u64::MAX = never (saturating_add)");
}

#[test]
fn lifetimes_become_seconds() {
    let e = Envelope::new("s", Some(Duration::from_secs(60)), 7);
    assert_eq!((e.stored_at_epoch, e.ttl_secs, e.payload), (7, 60, "s"));
    assert_eq!(Envelope::new("s", None, 7).ttl_secs, u64::MAX);
    assert_eq!(Envelope::new("s", Some(Duration::from_millis(1900)), 7).ttl_secs, 1);
    assert!(Envelope::new("s", Some(Duration::from_secs(0)), 7).expired(7));
    assert!(!Envelope::new("s", Some(Duration::from_secs(1)), 7).expired(7));
    assert!(Envelope::new("s", Some(Duration::from_secs(1)), 7).expired(8));
}

#[test]
fn set_command_omits_ex_today() {
    assert_eq!(
        set_command("k", "deadbeef", Some(Duration::from_secs(60))),
        "SET k deadbeef"
    );
}

#[test]
fn batch_shape_decodes_per_command_scalars() {
    // Batch shape: one record, `value` = per-command array.
    let records = vec![rec(
        "redis",
        vec![("value", list_v(vec![str_v("OK"), str_v("3331")]))],
    )];
    let decoded: Vec<Option<String>> =
        raw_batch(&records, "").expect("batch responses carry the per-command array");
    assert_eq!(decoded, vec![Some("OK".into()), Some("3331".into())]);
}

#[test]
fn batches_of_another_shape_are_refused() {
    let miss = vec![rec("redis", vec![("value", list_v(vec![bool_v(true), i32_v(-4)]))])];
    assert_eq!(raw_batch(&miss, "").unwrap(), vec![None, Some("-4".into())]);
    let scalar = vec![rec("redis", vec![("value", str_v("OK"))])];
    let e = raw_batch(&scalar, "Some(\"OK\")").unwrap_err();
    assert_eq!(
        e.to_string(),
        "raw_batch: unexpected response shape (expected a per-command result array, got Some(\"OK\"))"
    );
    assert!(raw_batch(&Vec::new(), "None").is_err());
}

#[test]
fn first_scalar_fishes_the_wire_shapes() {
    let resp = |v: GrpcValue| -> Vec<GrpcRecord> { vec![rec("redis", vec![("value", v)])] };
    assert_eq!(first_scalar(&resp(str_v("OK"))), Some("OK".to_string()));
    // Integer results stringify: one shape for every command result.
    assert_eq!(first_scalar(&resp(i64_v(1))), Some("1".to_string()));
    // No scalar, no first row: both miss.
    let empty: Vec<GrpcRecord> = Vec::new();
    assert_eq!(first_scalar(&empty), None);
    assert_eq!(first_scalar(&resp(bool_v(true))), None);
    assert_eq!(value_to_string(&i32_v(-7)), Some("-7".to_string()));
}

#[test]
fn commands_carry_checked_keys() {
    assert_eq!(store("k", &b"hi".to_vec(), None).unwrap(), "SET k 6869");
    assert_eq!(load("a:b").unwrap(), "GET a:b");
    assert_eq!(consume("a:b").unwrap(), "GETDEL a:b");
    assert_eq!(exists_command("a.b").unwrap(), "EXISTS a.b");
    assert_eq!(incr_command("a-b").unwrap(), "INCR a-b");
    for r in [
        store("a b", &Vec::new(), None),
        load("a b"),
        consume("a b"),
        exists_command("a b"),
        incr_command("a b"),
    ] {
        match r {
            Err(ArcadeDbError::InvalidInput { message }) => assert_eq!(
                message,
                "cache key `a b`: expected non-empty [A-Za-z0-9_:.] and `-` only \
                 (the Redis command tokenizer splits on whitespace; newline is the batch separator)"
            ),
            other => panic!("{other:?}"),
        }
    }
    let q = command_request("db", "GET a");
    assert_eq!((q.language.as_str(), q.command.as_str()), ("redis", "GET a"));
    assert_eq!(
        unserializable("k", "boom").to_string(),
        "cache set `k`: payload serialization failed: boom"
    );
}

#[test]
fn reading_heals_what_it_cannot_use() {
    assert_eq!(loaded_bytes(None), Loaded::Miss);
    assert_eq!(loaded_bytes(Some("6869")), Loaded::Found(b"hi".to_vec()));
    assert_eq!(
        loaded_bytes(Some("abc")),
        Loaded::Heal("hex decode: odd hex length 3".to_string())
    );
    let entry = |ttl| Envelope::new(5i64, Some(Duration::from_secs(ttl)), 100);
    assert_eq!(loaded_payload(Ok(entry(60)), 120), Loaded::Found(5));
    assert_eq!(loaded_payload(Ok(entry(20)), 120), Loaded::Heal("expired".to_string()));
    assert_eq!(
        loaded_payload::<i64>(Err("eof".to_string()), 120),
        Loaded::Heal("envelope decode: eof".to_string())
    );
    // Consuming does not look at the age.
    assert_eq!(consumed_payload(Ok(entry(0))), Some(5));
    assert_eq!(consumed_payload::<i64>(Err("eof".to_string())), None);
}

#[test]
fn counting_needs_an_integer() {
    assert!(key_exists(Some("1")));
    assert!(!key_exists(Some("0")));
    assert!(!key_exists(None));
    assert_eq!(incr("k", Some("41")).unwrap(), 41);
    assert_eq!(incr("k", Some("-9223372036854775808")).unwrap(), i64::MIN);
    assert_eq!(
        incr("k", Some("4\"1")).unwrap_err().to_string(),
        "cache incr: `k` holds a non-integer value (\"4\\\"1\")"
    );
    assert!(incr("k", Some("9223372036854775808")).is_err());
    match incr("k", None).unwrap_err() {
        ArcadeDbError::CommandFailed { operation, message, affected } => {
            assert_eq!(operation, "cache incr");
            assert_eq!(message, "INCR `k` returned no value");
            assert_eq!(affected, None);
        }
        other => panic!("{other:?}"),
    }
}
