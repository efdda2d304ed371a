//! A transient key-value cache over the server's Redis language: key and value encoding, the
//! in-band expiry of entries, and what responses mean.
//!
//! The command tokenizer splits on white space, so that values travel in hexadecimal. The
//! server ignores `EX`, so that an entry carries its own lifetime and readers delete what has
//! expired.

use vstd::prelude::*;
use vstd::string::*;
use vstd::utf8::*;
use crate::client::execute;
use crate::client::execute::execute_language_request;
use crate::error::{ArcadeDbError, FailureView, Result};
use crate::options::Duration;
use crate::rpc::ExecuteCommandRequest;
use crate::text;
use crate::wire::{GrpcRecord, GrpcValue, Kind};

verus! {

// ---------------------------------------------------------------------------
// Keys
// ---------------------------------------------------------------------------

/// A character that the command tokenizer keeps together.
pub open spec fn key_char(c: char) -> bool {
    text::is_alnum(c) || c == '_' || c == ':' || c == '.' || c == '-'
}

pub open spec fn is_key(s: Seq<char>) -> bool {
    s.len() > 0 && forall|i: int| 0 <= i < s.len() ==> key_char(#[trigger] s[i])
}

/// What is said of a text that is no key.
pub open spec fn invalid_key(key: Seq<char>) -> FailureView {
    FailureView::InvalidInput(
        "cache key `"@ + key
            + "`: expected non-empty [A-Za-z0-9_:.] and `-` only (the Redis command tokenizer splits on whitespace; newline is the batch separator)"@,
    )
}

/// Keys hold ASCII letters, digits, `_`, `:`, `.` and `-` only.
pub fn validate_key(key: &str) -> (r: Result<()>)
    ensures
        match r {
            Ok(_) => is_key(key@),
            Err(e) => !is_key(key@) && e@ == invalid_key(key@),
        },
{
    let chars = text::chars_of(key);
    let mut valid = chars.len() > 0;
    for i in 0..chars.len()
        invariant
            chars@ == key@,
            valid == (key@.len() > 0 && forall|j: int|
                0 <= j < i ==> key_char(#[trigger] key@[j])),
    {
        let c = chars[i];
        if !text::alnum(c) && c != '_' && c != ':' && c != '.' && c != '-' {
            assert(!key_char(key@[i as int]));
            valid = false;
        }
    }
    if valid {
        return Ok(());
    }
    let mut message = "cache key `".to_owned();
    message.append(key);
    message.append(
        "`: expected non-empty [A-Za-z0-9_:.] and `-` only (the Redis command tokenizer splits on whitespace; newline is the batch separator)",
    );
    Err(ArcadeDbError::InvalidInput { message })
}

// ---------------------------------------------------------------------------
// Hexadecimal
// ---------------------------------------------------------------------------

/// The number that a hexadecimal digit stands for; digits are lower case.
pub open spec fn nibble_of(c: u8) -> Option<int> {
    if 48 <= c <= 57 {
        Some(c - 48)
    } else if 97 <= c <= 102 {
        Some(c - 87)
    } else {
        None
    }
}

/// Two digits per byte, the high one first.
pub open spec fn hex_of(bytes: Seq<u8>) -> Seq<char> {
    Seq::new(
        2 * bytes.len(),
        |i: int|
            if i % 2 == 0 {
                text::hex_digit(bytes[i / 2] as int / 16)
            } else {
                text::hex_digit(bytes[i / 2] as int % 16)
            },
    )
}

/// The first byte from `i` on that is no hexadecimal digit.
pub open spec fn bad_digit(s: Seq<u8>, i: nat) -> Option<u8>
    decreases s.len() - i,
{
    if i >= s.len() {
        None
    } else if nibble_of(s[i as int]) is None {
        Some(s[i as int])
    } else {
        bad_digit(s, i + 1)
    }
}

/// The bytes that an even number of digits stands for.
pub open spec fn bytes_of(s: Seq<u8>) -> Seq<u8> {
    Seq::new(
        s.len() / 2,
        |i: int| (16 * nibble_of(s[2 * i])->0 + nibble_of(s[2 * i + 1])->0) as u8,
    )
}

/// A byte as `0x` and two digits.
pub open spec fn byte_text(b: u8) -> Seq<char> {
    "0x"@ + hex_of(seq![b])
}

/// What hexadecimal text decodes to.
pub open spec fn hex_decoded(s: Seq<u8>) -> core::result::Result<Seq<u8>, Seq<char>> {
    if s.len() % 2 != 0 {
        Err("odd hex length "@ + text::decimal(s.len() as int))
    } else {
        match bad_digit(s, 0) {
            Some(b) => Err("invalid hex byte "@ + byte_text(b)),
            None => Ok(bytes_of(s)),
        }
    }
}

/// Encode bytes in hexadecimal.
pub fn encode_hex(bytes: &Vec<u8>) -> (out: String)
    ensures
        out@ == hex_of(bytes@),
{
    let mut out = String::new();
    assert(out@ =~= hex_of(bytes@.take(0)));
    for i in 0..bytes.len()
        invariant
            out@ == hex_of(bytes@.take(i as int)),
    {
        let b = bytes[i];
        out.push(text::hex_char(b / 16));
        out.push(text::hex_char(b % 16));
        assert(out@ =~= hex_of(bytes@.take(i + 1)));
    }
    assert(bytes@.take(bytes@.len() as int) =~= bytes@);
    out
}

fn nibble(c: u8) -> (r: Option<u8>)
    ensures
        match r {
            Some(n) => nibble_of(c) == Some(n as int) && n < 16,
            None => nibble_of(c) is None,
        },
{
    if 48 <= c && c <= 57 {
        Some(c - 48)
    } else if 97 <= c && c <= 102 {
        Some(c - 87)
    } else {
        None
    }
}

fn bad_byte(b: u8) -> (e: String)
    ensures
        e@ == "invalid hex byte "@ + byte_text(b),
{
    let mut one: Vec<u8> = Vec::new();
    one.push(b);
    assert(one@ =~= seq![b]);
    let mut e = "invalid hex byte ".to_owned();
    let mut shown = "0x".to_owned();
    shown.append(encode_hex(&one).as_str());
    e.append(shown.as_str());
    e
}

/// Decode hexadecimal text; digits are lower case.
pub fn decode_hex(s: &str) -> (r: core::result::Result<Vec<u8>, String>)
    ensures
        match (r, hex_decoded(encode_utf8(s@))) {
            (Ok(b), Ok(d)) => b@ == d,
            (Err(e), Err(m)) => e@ == m,
            _ => false,
        },
{
    let bytes = s.as_bytes();
    let n = bytes.len();
    if n % 2 != 0 {
        let mut e = "odd hex length ".to_owned();
        e.append(text::unsigned_text(n as u64).as_str());
        return Err(e);
    }
    let mut out: Vec<u8> = Vec::new();
    let mut i: usize = 0;
    while i < n
        invariant
            bytes@ == encode_utf8(s@),
            n == bytes@.len(),
            n % 2 == 0,
            i % 2 == 0,
            i <= n,
            out@.len() == i / 2,
            bad_digit(bytes@, 0) == bad_digit(bytes@, i as nat),
            forall|j: int|
                0 <= j < out@.len() ==> out@[j] == #[trigger] bytes_of(bytes@)[j],
        decreases n - i,
    {
        let high = match nibble(bytes[i]) {
            Some(h) => h,
            None => {
                return Err(bad_byte(bytes[i]));
            },
        };
        assert(bad_digit(bytes@, i as nat) == bad_digit(bytes@, (i + 1) as nat));
        let low = match nibble(bytes[i + 1]) {
            Some(l) => l,
            None => {
                return Err(bad_byte(bytes[i + 1]));
            },
        };
        assert(bytes_of(bytes@)[i as int / 2] == 16 * high + low);
        out.push(16 * high + low);
        i = i + 2;
    }
    assert(out@ =~= bytes_of(bytes@));
    Ok(out)
}

// ---------------------------------------------------------------------------
// Entries
// ---------------------------------------------------------------------------

/// A stored payload with its age and lifetime. A lifetime of `u64::MAX` seconds never ends,
/// one of 0 ends at once.
#[derive(Debug, PartialEq, Eq)]
pub struct Envelope<T> {
    pub stored_at_epoch: u64,
    pub ttl_secs: u64,
    pub payload: T,
}

/// Whether an entry has expired: its end, counted up to the largest time, is not ahead.
pub open spec fn has_expired(stored_at: u64, ttl: u64, now: u64) -> bool {
    (if stored_at + ttl > u64::MAX {
        u64::MAX as int
    } else {
        stored_at + ttl
    }) <= now
}

/// The seconds that a lifetime stands for; none is without end.
pub open spec fn ttl_of(ttl: Option<Duration>) -> u64 {
    match ttl {
        Some(d) => d.secs,
        None => u64::MAX,
    }
}

impl<T> Envelope<T> {
    /// An entry stored at `now`.
    pub fn new(payload: T, ttl: Option<Duration>, now: u64) -> (e: Self)
        ensures
            e == (Envelope { stored_at_epoch: now, ttl_secs: ttl_of(ttl), payload }),
    {
        let ttl_secs = match ttl {
            Some(d) => d.as_secs(),
            None => u64::MAX,
        };
        Envelope { stored_at_epoch: now, ttl_secs, payload }
    }

    /// Whether the entry has expired at `now`.
    pub fn expired(&self, now: u64) -> (b: bool)
        ensures
            b == has_expired(self.stored_at_epoch, self.ttl_secs, now),
    {
        let end = match self.stored_at_epoch.checked_add(self.ttl_secs) {
            Some(end) => end,
            None => u64::MAX,
        };
        end <= now
    }
}

// ---------------------------------------------------------------------------
// Commands
// ---------------------------------------------------------------------------

/// `verb` on a key.
pub open spec fn key_command(verb: Seq<char>, key: Seq<char>) -> Seq<char> {
    verb + " "@ + key
}

/// The command that stores an encoded value. The lifetime travels in the entry, not in the
/// command.
pub fn set_command(key: &str, encoded: &str, _ttl: Option<Duration>) -> (r: String)
    ensures
        r@ == key_command("SET"@, key@) + " "@ + encoded@,
{
    let mut s = "SET".to_owned();
    s.append(" ");
    s.append(key);
    s.append(" ");
    s.append(encoded);
    s
}

fn on_key(verb: &str, key: &str) -> (r: Result<String>)
    ensures
        match r {
            Ok(s) => is_key(key@) && s@ == key_command(verb@, key@),
            Err(e) => !is_key(key@) && e@ == invalid_key(key@),
        },
{
    validate_key(key)?;
    let mut s = verb.to_owned();
    s.append(" ");
    s.append(key);
    Ok(s)
}

/// The request of a cache command.
pub fn command_request(database: &str, command: &str) -> (r: ExecuteCommandRequest)
    ensures
        execute::commands(r, database@, command@, "redis"@, Map::empty()),
        r.transaction is None,
{
    execute_language_request(database, "redis", command)
}

/// The command that stores a serialized entry.
pub fn store(key: &str, entry: &Vec<u8>, ttl: Option<Duration>) -> (r: Result<String>)
    ensures
        match r {
            Ok(s) => is_key(key@) && s@ == key_command("SET"@, key@) + " "@ + hex_of(entry@),
            Err(e) => !is_key(key@) && e@ == invalid_key(key@),
        },
{
    validate_key(key)?;
    Ok(set_command(key, encode_hex(entry).as_str(), ttl))
}

/// The error of a payload that cannot be serialized.
pub fn unserializable(key: &str, reason: &str) -> (e: ArcadeDbError)
    ensures
        e@ == FailureView::InvalidInput(
            "cache set `"@ + key@ + "`: payload serialization failed: "@ + reason@,
        ),
{
    let mut message = "cache set `".to_owned();
    message.append(key);
    message.append("`: payload serialization failed: ");
    message.append(reason);
    ArcadeDbError::InvalidInput { message }
}

/// The command that reads an entry.
pub fn load(key: &str) -> (r: Result<String>)
    ensures
        match r {
            Ok(s) => is_key(key@) && s@ == key_command("GET"@, key@),
            Err(e) => !is_key(key@) && e@ == invalid_key(key@),
        },
{
    on_key("GET", key)
}

/// The command that reads and deletes an entry.
pub fn consume(key: &str) -> (r: Result<String>)
    ensures
        match r {
            Ok(s) => is_key(key@) && s@ == key_command("GETDEL"@, key@),
            Err(e) => !is_key(key@) && e@ == invalid_key(key@),
        },
{
    on_key("GETDEL", key)
}

/// The command that asks for an entry.
pub fn exists_command(key: &str) -> (r: Result<String>)
    ensures
        match r {
            Ok(s) => is_key(key@) && s@ == key_command("EXISTS"@, key@),
            Err(e) => !is_key(key@) && e@ == invalid_key(key@),
        },
{
    on_key("EXISTS", key)
}

/// The command that counts an entry up.
pub fn incr_command(key: &str) -> (r: Result<String>)
    ensures
        match r {
            Ok(s) => is_key(key@) && s@ == key_command("INCR"@, key@),
            Err(e) => !is_key(key@) && e@ == invalid_key(key@),
        },
{
    on_key("INCR", key)
}

// ---------------------------------------------------------------------------
// Responses
// ---------------------------------------------------------------------------

/// A value as text: strings as they are, integers in decimal, nothing else.
pub open spec fn scalar_text(kind: Option<Kind>) -> Option<Seq<char>> {
    match kind {
        Some(Kind::StringValue(s)) => Some(s@),
        Some(Kind::Int64Value(n)) => Some(text::decimal(n as int)),
        Some(Kind::Int32Value(n)) => Some(text::decimal(n as int)),
        _ => None,
    }
}

/// A value as text: strings as they are, integers in decimal, nothing else.
pub fn value_to_string(v: &GrpcValue) -> (r: Option<String>)
    ensures
        text::optional(r) == scalar_text(v.kind),
{
    match &v.kind {
        Some(Kind::StringValue(s)) => Some(s.clone()),
        Some(Kind::Int64Value(n)) => Some(text::signed_text(*n)),
        Some(Kind::Int32Value(n)) => Some(text::signed_text(*n as i64)),
        _ => None,
    }
}

/// The first scalar among the properties from `i` on.
pub open spec fn scalar_from(pairs: Seq<(String, GrpcValue)>, i: nat) -> Option<Seq<char>>
    decreases pairs.len() - i,
{
    if i >= pairs.len() {
        None
    } else if scalar_text(pairs[i as int].1.kind) is Some {
        scalar_text(pairs[i as int].1.kind)
    } else {
        scalar_from(pairs, i + 1)
    }
}

/// The first scalar of the first row.
pub open spec fn first_scalar_of(records: Seq<GrpcRecord>) -> Option<Seq<char>> {
    if records.len() == 0 {
        None
    } else {
        scalar_from(records[0].properties.pairs(), 0)
    }
}

/// The first scalar of the first row.
pub fn first_scalar(records: &Vec<GrpcRecord>) -> (r: Option<String>)
    ensures
        text::optional(r) == first_scalar_of(records@),
{
    if records.len() == 0 {
        return None;
    }
    let props = &records[0].properties;
    let n = props.len();
    for i in 0..n
        invariant
            records@.len() > 0,
            *props == records@[0].properties,
            n == props.pairs().len(),
            scalar_from(props.pairs(), 0) == scalar_from(props.pairs(), i as nat),
    {
        let (_k, v) = props.entry(i);
        let found = value_to_string(v);
        if found.is_some() {
            return found;
        }
    }
    None
}

/// The results of a batch: the list in the first property of the first row.
pub open spec fn batch_list(records: Seq<GrpcRecord>) -> Option<Seq<GrpcValue>> {
    if records.len() == 0 || records[0].properties.pairs().len() == 0 {
        None
    } else {
        match records[0].properties.pairs()[0].1.kind {
            Some(Kind::ListValue(list)) => Some(list.values@),
            _ => None,
        }
    }
}

/// Each value as text.
pub open spec fn scalar_texts(values: Seq<GrpcValue>) -> Seq<Option<Seq<char>>> {
    Seq::new(values.len(), |i: int| scalar_text(values[i].kind))
}

pub open spec fn optional_texts(v: Seq<Option<String>>) -> Seq<Option<Seq<char>>> {
    Seq::new(v.len(), |i: int| text::optional(v[i]))
}

/// The per-command results of a batch, in order; a command without a scalar result has none.
/// `shown` is how the error shows a response of another shape.
pub fn raw_batch(records: &Vec<GrpcRecord>, shown: &str) -> (r: Result<Vec<Option<String>>>)
    ensures
        match (r, batch_list(records@)) {
            (Ok(v), Some(values)) => optional_texts(v@) == scalar_texts(values),
            (Err(e), None) => e@ == FailureView::InvalidInput(
                "raw_batch: unexpected response shape (expected a per-command result array, got "@
                    + shown@ + ")"@,
            ),
            _ => false,
        },
{
    if records.len() > 0 && records[0].properties.len() > 0 {
        let (_k, v) = records[0].properties.entry(0);
        if let Some(Kind::ListValue(list)) = &v.kind {
            let mut out: Vec<Option<String>> = Vec::new();
            for i in 0..list.values.len()
                invariant
                    out@.len() == i,
                    forall|j: int|
                        0 <= j < i ==> text::optional(#[trigger] out@[j]) == scalar_text(
                            list.values@[j].kind,
                        ),
            {
                out.push(value_to_string(&list.values[i]));
            }
            assert(optional_texts(out@) =~= scalar_texts(list.values@));
            return Ok(out);
        }
    }
    let mut message =
        "raw_batch: unexpected response shape (expected a per-command result array, got ".to_owned();
    message.append(shown);
    message.append(")");
    Err(ArcadeDbError::InvalidInput { message })
}

/// What reading an entry came to so far.
#[derive(Debug, PartialEq, Eq)]
pub enum Loaded<T> {
    /// There is no entry.
    Miss,
    /// The entry is to be deleted, and reads as a miss; this is why.
    Heal(String),
    Found(T),
}

/// The serialized entry that a read returned. What is no hexadecimal heals.
pub fn loaded_bytes(encoded: Option<&str>) -> (r: Loaded<Vec<u8>>)
    ensures
        match encoded {
            None => r is Miss,
            Some(s) => match hex_decoded(encode_utf8(s@)) {
                Ok(b) => r matches Loaded::Found(v) && v@ == b,
                Err(m) => r matches Loaded::Heal(why) && why@ == "hex decode: "@ + m,
            },
        },
{
    match encoded {
        None => Loaded::Miss,
        Some(s) => match decode_hex(s) {
            Ok(b) => Loaded::Found(b),
            Err(e) => {
                let mut why = "hex decode: ".to_owned();
                why.append(e.as_str());
                Loaded::Heal(why)
            },
        },
    }
}

/// The payload of a parsed entry. What has expired heals, and so does what did not parse.
pub fn loaded_payload<T>(parsed: core::result::Result<Envelope<T>, String>, now: u64) -> (r: Loaded<
    T,
>)
    ensures
        match parsed {
            Ok(e) => if has_expired(e.stored_at_epoch, e.ttl_secs, now) {
                r matches Loaded::Heal(why) && why@ == "expired"@
            } else {
                r == Loaded::Found(e.payload)
            },
            Err(m) => r matches Loaded::Heal(why) && why@ == "envelope decode: "@ + m@,
        },
{
    match parsed {
        Ok(e) => if e.expired(now) {
            Loaded::Heal("expired".to_owned())
        } else {
            Loaded::Found(e.payload)
        },
        Err(m) => {
            let mut why = "envelope decode: ".to_owned();
            why.append(m.as_str());
            Loaded::Heal(why)
        },
    }
}

/// The payload of an entry that was read and deleted, whatever its age. What did not parse is
/// a miss.
pub fn consumed_payload<T>(parsed: core::result::Result<Envelope<T>, String>) -> (r: Option<T>)
    ensures
        match parsed {
            Ok(e) => r == Some(e.payload),
            Err(_) => r is None,
        },
{
    match parsed {
        Ok(e) => Some(e.payload),
        Err(_) => None,
    }
}

/// Whether the answer to the question for an entry is yes.
pub fn key_exists(answer: Option<&str>) -> (b: bool)
    ensures
        b == (answer matches Some(s) && s@ == "1"@),
{
    match answer {
        Some(s) => text::same(s, "1"),
        None => false,
    }
}

/// How a text is shown in Rust's debug notation.
pub uninterp spec fn debug_text(s: Seq<char>) -> Seq<char>;

/// `{:?}` on a `str`: a function of the text.
#[verifier::external_body]
fn debug(s: &str) -> (r: String)
    ensures
        r@ == debug_text(s@),
{
    format!("{s:?}")
}

/// The number that counting an entry up came to. No answer is a failed command; an answer that
/// is no 64-bit integer is refused.
pub fn incr(key: &str, answer: Option<&str>) -> (r: Result<i64>)
    ensures
        match answer {
            None => r matches Err(e) && e@ == FailureView::CommandFailed(
                "cache incr"@,
                "INCR `"@ + key@ + "` returned no value"@,
                None,
            ),
            Some(s) => match r {
                Ok(n) => text::integer_value(s@) == Some(n as int),
                Err(e) => not_i64(s@) && e@ == FailureView::InvalidInput(
                    "cache incr: `"@ + key@ + "` holds a non-integer value ("@ + debug_text(s@)
                        + ")"@,
                ),
            },
        },
{
    match answer {
        None => {
            let mut message = "INCR `".to_owned();
            message.append(key);
            message.append("` returned no value");
            Err(
                ArcadeDbError::CommandFailed {
                    operation: "cache incr".to_owned(),
                    message,
                    affected: None,
                },
            )
        },
        Some(s) => match text::parse_integer(&text::chars_of(s), i64::MIN, i64::MAX) {
            Some(n) => Ok(n),
            None => {
                let mut message = "cache incr: `".to_owned();
                message.append(key);
                message.append("` holds a non-integer value (");
                message.append(debug(s).as_str());
                message.append(")");
                Err(ArcadeDbError::InvalidInput { message })
            },
        },
    }
}

/// A text that is no decimal number in the range of `i64`.
pub open spec fn not_i64(s: Seq<char>) -> bool {
    match text::integer_value(s) {
        Some(n) => n < i64::MIN || n > i64::MAX,
        None => true,
    }
}

// ---------------------------------------------------------------------------
// Laws
// ---------------------------------------------------------------------------

/// Hexadecimal text reads back as the bytes it was made from, and it holds nothing that the
/// command tokenizer splits on.
pub proof fn law_hex_reads_back(bytes: Seq<u8>)
    ensures
        hex_decoded(encode_utf8(hex_of(bytes))) == Ok::<Seq<u8>, Seq<char>>(bytes),
        forall|i: int| 0 <= i < hex_of(bytes).len() ==> key_char(#[trigger] hex_of(bytes)[i]),
{
    let h = hex_of(bytes);
    assert forall|i: int| 0 <= i < h.len() implies 0 <= bytes[i / 2] as int / 16 < 16 && 0
        <= bytes[i / 2] as int % 16 < 16 && key_char(#[trigger] h[i]) && (h[i] as u32) < 128 by {}
    assert(is_ascii_chars(h));
    is_ascii_chars_encode_utf8(h);
    let s = encode_utf8(h);
    assert forall|i: int| 0 <= i < s.len() implies nibble_of(#[trigger] s[i]) == Some(
        if i % 2 == 0 {
            bytes[i / 2] as int / 16
        } else {
            bytes[i / 2] as int % 16
        },
    ) by {
        assert(h[i] as u8 == s[i]);
    }
    lemma_no_bad_digit(s, 0);
    assert(bytes_of(s) =~= bytes) by {
        assert forall|i: int| 0 <= i < bytes.len() implies bytes_of(s)[i] == bytes[i] by {
            assert(nibble_of(s[2 * i]) == Some(bytes[i] as int / 16)) by {
                assert((2 * i) / 2 == i && (2 * i) % 2 == 0);
            }
            assert(nibble_of(s[2 * i + 1]) == Some(bytes[i] as int % 16)) by {
                assert((2 * i + 1) / 2 == i && (2 * i + 1) % 2 == 1);
            }
        }
    }
}

proof fn lemma_no_bad_digit(s: Seq<u8>, i: nat)
    requires
        forall|j: int| i <= j < s.len() ==> nibble_of(#[trigger] s[j]) is Some,
    ensures
        bad_digit(s, i) is None,
    decreases s.len() - i,
{
    if i < s.len() {
        lemma_no_bad_digit(s, i + 1);
    }
}

/// What was stored is found, until its lifetime is over: reading back the text of a stored
/// entry gives its bytes, an entry without a lifetime does not expire before the end of time,
/// one with a lifetime of 0 has expired at once, and one that has expired stays expired.
pub proof fn law_entries_live_as_long_as_they_should(
    entry: Seq<u8>,
    stored_at: u64,
    ttl: u64,
    now: u64,
    later: u64,
)
    requires
        now <= later,
    ensures
        hex_decoded(encode_utf8(hex_of(entry))) == Ok::<Seq<u8>, Seq<char>>(entry),
        now < u64::MAX ==> !has_expired(stored_at, ttl_of(None), now),
        stored_at <= now ==> has_expired(stored_at, 0, now),
        has_expired(stored_at, ttl, now) ==> has_expired(stored_at, ttl, later),
        stored_at + ttl < u64::MAX ==> has_expired(stored_at, ttl, now) == (stored_at + ttl <= now),
{
    law_hex_reads_back(entry);
}

/// A key holds no white space and no line break.
pub proof fn law_keys_hold_together(key: Seq<char>, i: int)
    requires
        is_key(key),
        0 <= i < key.len(),
    ensures
        !text::is_space(key[i]),
        key[i] != '\n',
{
}

/// A key is one or more ASCII letters, digits, underscores, colons, dots and dashes.
pub proof fn law_keys_are_plain(key: Seq<char>)
    ensures
        is_key(key) <==> key.len() > 0 && forall|i: int|
            0 <= i < key.len() ==> (('a' <= #[trigger] key[i] && key[i] <= 'z') || ('A' <= key[i]
                && key[i] <= 'Z') || ('0' <= key[i] && key[i] <= '9') || key[i] == '_' || key[i]
                == ':' || key[i] == '.' || key[i] == '-'),
{
    if is_key(key) {
        assert forall|i: int| 0 <= i < key.len() implies (('a' <= #[trigger] key[i] && key[i]
            <= 'z') || ('A' <= key[i] && key[i] <= 'Z') || ('0' <= key[i] && key[i] <= '9')
            || key[i] == '_' || key[i] == ':' || key[i] == '.' || key[i] == '-') by {
            assert(key_char(key[i]));
        }
    }
}

/// A byte is written as two lower-case hexadecimal digits, the high one first.
pub proof fn law_bytes_are_two_digits(bytes: Seq<u8>, i: int)
    requires
        0 <= i < bytes.len(),
    ensures
        hex_of(bytes).len() == 2 * bytes.len(),
        hex_of(bytes)[2 * i] == text::hex_digit(bytes[i] as int / 16),
        hex_of(bytes)[2 * i + 1] == text::hex_digit(bytes[i] as int % 16),
{
}

/// A text is read as bytes exactly when its length is even and every character is a digit or a
/// letter from `a` to `f`; each two digits are one byte, the high one first.
pub proof fn law_hex_is_read_two_digits_a_byte(s: Seq<u8>)
    ensures
        hex_decoded(s) is Ok <==> s.len() % 2 == 0 && forall|i: int|
            0 <= i < s.len() ==> (48 <= (#[trigger] s[i]) <= 57 || 97 <= s[i] <= 102),
        hex_decoded(s) matches Ok(b) ==> b.len() == s.len() / 2 && forall|i: int|
            0 <= i < b.len() ==> (#[trigger] b[i]) == 16 * digit_value(s[2 * i]) + digit_value(
                s[2 * i + 1],
            ),
{
    lemma_bad_digit(s, 0);
    if let Ok(b) = hex_decoded(s) {
        assert forall|i: int| 0 <= i < b.len() implies (#[trigger] b[i]) == 16 * digit_value(
            s[2 * i],
        ) + digit_value(s[2 * i + 1]) by {
            assert(nibble_of(s[2 * i]) is Some);
            assert(nibble_of(s[2 * i + 1]) is Some);
        }
    }
}

/// What a hexadecimal digit, as a byte of text, stands for.
pub open spec fn digit_value(c: u8) -> int {
    if c < 97 {
        c - 48
    } else {
        c - 97 + 10
    }
}

proof fn lemma_bad_digit(s: Seq<u8>, i: nat)
    ensures
        bad_digit(s, i) is None <==> forall|j: int|
            i <= j < s.len() ==> nibble_of(#[trigger] s[j]) is Some,
    decreases s.len() - i,
{
    if i < s.len() && nibble_of(s[i as int]) is Some {
        lemma_bad_digit(s, i + 1);
    }
}

/// An entry without a time to live has the longest one; one with a time to live has its whole
/// seconds. It has expired once the time it was stored and that span are past.
pub proof fn law_entries_expire_at_their_end(d: Duration, stored_at: u64, ttl: u64, now: u64)
    ensures
        ttl_of(None) == u64::MAX,
        ttl_of(Some(d)) == d.secs,
        stored_at + ttl <= u64::MAX ==> (has_expired(stored_at, ttl, now) <==> now >= stored_at
            + ttl),
        stored_at + ttl > u64::MAX ==> (has_expired(stored_at, ttl, now) <==> now == u64::MAX),
{
}

/// A command is its verb, a space and its key.
pub proof fn law_commands_name_their_key(verb: Seq<char>, key: Seq<char>)
    ensures
        key_command(verb, key) == verb + " "@ + key,
{
}

/// A scalar answer is a text or an integer, which is written in decimal; of a row it is the
/// first such column, and of several rows the first row's.
pub proof fn law_answers_are_the_first_scalar(records: Seq<GrpcRecord>, n: i64, m: i32, s: String)
    ensures
        scalar_text(Some(Kind::StringValue(s))) == Some(s@),
        scalar_text(Some(Kind::Int64Value(n))) == Some(text::decimal(n as int)),
        scalar_text(Some(Kind::Int32Value(m))) == Some(text::decimal(m as int)),
        scalar_text(None) is None,
        records.len() == 0 ==> first_scalar_of(records) is None,
        records.len() > 0 ==> match first_scalar_of(records) {
            Some(t) => exists|i: int|
                0 <= i < records[0].properties.pairs().len() && scalar_text(
                    (#[trigger] records[0].properties.pairs()[i]).1.kind,
                ) == Some(t) && forall|j: int|
                    0 <= j < i ==> scalar_text(
                        (#[trigger] records[0].properties.pairs()[j]).1.kind,
                    ) is None,
            None => forall|i: int|
                0 <= i < records[0].properties.pairs().len() ==> scalar_text(
                    (#[trigger] records[0].properties.pairs()[i]).1.kind,
                ) is None,
        },
{
    if records.len() > 0 {
        lemma_first_scalar(records[0].properties.pairs(), 0);
    }
}

proof fn lemma_first_scalar(pairs: Seq<(String, GrpcValue)>, i: nat)
    ensures
        match scalar_from(pairs, i) {
            Some(t) => exists|j: int|
                i <= j < pairs.len() && scalar_text((#[trigger] pairs[j]).1.kind) == Some(t)
                    && forall|k: int|
                    i <= k < j ==> scalar_text((#[trigger] pairs[k]).1.kind) is None,
            None => forall|j: int|
                i <= j < pairs.len() ==> scalar_text((#[trigger] pairs[j]).1.kind) is None,
        },
    decreases pairs.len() - i,
{
    if i < pairs.len() {
        if scalar_text(pairs[i as int].1.kind) is Some {
            assert(scalar_text(pairs[i as int].1.kind) == scalar_from(pairs, i));
        } else {
            lemma_first_scalar(pairs, i + 1);
        }
    }
}

/// A batch of answers is the list in the first column of the first row, in order.
pub proof fn law_batches_are_the_list_in_the_first_column(records: Seq<GrpcRecord>)
    ensures
        batch_list(records) matches Some(values) ==> records.len() > 0
            && records[0].properties.pairs().len() > 0 && (
        records[0].properties.pairs()[0].1.kind matches Some(Kind::ListValue(list)) && values
            == list.values@) && scalar_texts(values).len() == values.len() && forall|i: int|
            0 <= i < values.len() ==> #[trigger] scalar_texts(values)[i] == scalar_text(
                values[i].kind,
            ),
{
}

/// A counter's answer is no number exactly when it is no integer of 64 bits.
pub proof fn law_counters_are_integers(s: Seq<char>)
    ensures
        not_i64(s) <==> !exists|n: i64| text::integer_value(s) == Some(n as int),
{
    if !not_i64(s) {
        let n = text::integer_value(s)->0 as i64;
        assert(text::integer_value(s) == Some(n as int));
    }
}

/// A refused key is named in the message.
pub proof fn law_refused_keys_are_named(key: Seq<char>)
    ensures
        invalid_key(key) == FailureView::InvalidInput(
            "cache key `"@ + key
                + "`: expected non-empty [A-Za-z0-9_:.] and `-` only (the Redis command tokenizer splits on whitespace; newline is the batch separator)"@,
        ),
{
}

/// Several answers are seen as their texts, in order.
pub proof fn law_answers_are_seen_in_order(v: Seq<Option<String>>, i: int)
    requires
        0 <= i < v.len(),
    ensures
        optional_texts(v).len() == v.len(),
        v[i] matches Some(s) ==> optional_texts(v)[i] == Some(s@),
        v[i] is None ==> optional_texts(v)[i] is None,
{
}

} // verus!
