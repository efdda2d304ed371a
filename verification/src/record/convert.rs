//! Decoding one wire value into a Rust value.
//!
//! Kinds are accepted as the server sends them, with two deliberate behaviours: integer
//! narrowing is range-checked, and float targets accept integer kinds.

use std::borrow::Cow;

use vstd::prelude::*;
use vstd::string::*;
use crate::decimal;
use crate::decimal::Decimal;
use crate::props::PropMap;
use crate::record;
use crate::record::link;
use crate::record::{ErrorView, Link, RecordDecodeError};
use crate::text;
use crate::time;
use crate::time::{CalendarDate, DateTimeUtc};
use crate::wire;
use crate::wire::{GrpcDecimal, GrpcValue, Kind, KindView, Timestamp, ValueView};

verus! {

/// Convert a single wire value into `Self`, borrowing from it when the target is a borrowed
/// view.
///
/// The three predicates describe a conversion to the verified code that builds on it; they
/// are left open for a type whose conversion is written in ordinary Rust.
pub trait FromGrpcValue<'de>: Sized {
    /// Values that convert.
    open spec fn decodable(v: ValueView) -> bool {
        arbitrary()
    }

    /// `out` is what `v` converts to.
    open spec fn decoded(v: ValueView, out: Self) -> bool {
        arbitrary()
    }

    /// `e` is how the conversion of `v` fails.
    open spec fn refused(v: ValueView, e: ErrorView) -> bool {
        arbitrary()
    }

    fn from_grpc_value(value: &'de GrpcValue) -> (r: Result<Self, RecordDecodeError>)
        ensures
            match r {
                Ok(out) => Self::decodable(value@) && Self::decoded(value@, out),
                Err(e) => !Self::decodable(value@) && Self::refused(value@, e@),
            },
    ;
}

/// The failure of a target called `expected` to accept the kind of `v`.
pub open spec fn wrong_kind(v: ValueView, expected: Seq<char>) -> ErrorView {
    record::mismatch(expected, record::kind_text(v.kind))
}

// ---------------------------------------------------------------------------
// Strings
// ---------------------------------------------------------------------------

/// A timestamp as text; one that cannot be represented reads as the epoch.
pub open spec fn time_text(t: Timestamp) -> Seq<char> {
    if time::instant_valid(t.seconds as int, t.nanos as int) {
        time::rfc3339_of(t.seconds as int, t.nanos as int)
    } else {
        "1970-01-01T00:00:00+00:00"@
    }
}

/// A decimal that is not a plain integer, as `<unscaled>e-<scale>`.
pub open spec fn decimal_text(unscaled: i64, scale: i32) -> Seq<char> {
    text::decimal(unscaled as int) + "e-"@ + text::decimal(scale as int)
}

/// A decimal without places and without wide bytes is a plain 64-bit integer.
pub open spec fn plain_integer(scale: i32, bytes: Seq<u8>) -> bool {
    scale == 0 && bytes.len() == 0
}

/// The text of a payload that has one: a string, a link's rid, a timestamp, or a decimal that
/// is not a plain integer.
pub open spec fn string_form(k: Option<KindView>) -> Option<Seq<char>> {
    match k {
        Some(KindView::Text(s)) => Some(s),
        Some(KindView::Link(rid, _)) => Some(rid),
        Some(KindView::Time(t)) => Some(time_text(t)),
        Some(KindView::Decimal(unscaled, scale, bytes)) => if plain_integer(scale, bytes) {
            None
        } else {
            Some(decimal_text(unscaled, scale))
        },
        _ => None,
    }
}

/// The text that a payload holds as it is: a string or a link's rid.
pub open spec fn stored_text(k: Option<KindView>) -> Option<Seq<char>> {
    match k {
        Some(KindView::Text(s)) => Some(s),
        Some(KindView::Link(rid, _)) => Some(rid),
        _ => None,
    }
}

/// The instant of a timestamp, when it can be represented.
fn instant_of(t: &Timestamp) -> (r: Option<DateTimeUtc>)
    ensures
        match r {
            Some(i) => time::instant_valid(t.seconds as int, t.nanos as int) && i.secs()
                == t.seconds && i.nsecs() == t.nanos,
            None => !time::instant_valid(t.seconds as int, t.nanos as int),
        },
{
    if t.nanos < 0 {
        None
    } else {
        DateTimeUtc::from_timestamp(t.seconds, t.nanos as u32)
    }
}

/// A timestamp as RFC 3339 text; one that cannot be represented reads as the epoch.
pub fn timestamp_to_string(t: &Timestamp) -> (r: String)
    ensures
        r@ == time_text(*t),
{
    match instant_of(t) {
        Some(i) => i.to_rfc3339(),
        None => "1970-01-01T00:00:00+00:00".to_owned(),
    }
}

/// A decimal as `<unscaled>e-<scale>`.
pub fn decimal_to_string(d: &GrpcDecimal) -> (r: String)
    ensures
        r@ == decimal_text(d.unscaled, d.scale),
{
    let mut out = text::signed_text(d.unscaled);
    out.append("e-");
    out.append(text::signed_text(d.scale as i64).as_str());
    out
}

impl<'de> FromGrpcValue<'de> for String {
    open spec fn decodable(v: ValueView) -> bool {
        string_form(v.kind) is Some
    }

    open spec fn decoded(v: ValueView, out: Self) -> bool {
        string_form(v.kind) == Some(out@)
    }

    open spec fn refused(v: ValueView, e: ErrorView) -> bool {
        e == wrong_kind(v, "string"@)
    }

    fn from_grpc_value(v: &'de GrpcValue) -> (r: Result<Self, RecordDecodeError>) {
        match &v.kind {
            Some(Kind::StringValue(s)) => Ok(s.clone()),
            Some(Kind::LinkValue(l)) => Ok(l.rid.clone()),
            Some(Kind::TimestampValue(t)) => Ok(timestamp_to_string(t)),
            Some(Kind::DecimalValue(d)) => {
                if d.scale != 0 || d.unscaled_bytes.len() != 0 {
                    Ok(decimal_to_string(d))
                } else {
                    Err(RecordDecodeError::type_mismatch("string", "decimal"))
                }
            },
            _ => Err(RecordDecodeError::type_mismatch("string", record::kind_name(&v.kind))),
        }
    }
}

/// A view of the text that the value holds; synthesized texts cannot be borrowed.
impl<'de> FromGrpcValue<'de> for &'de str {
    open spec fn decodable(v: ValueView) -> bool {
        stored_text(v.kind) is Some
    }

    open spec fn decoded(v: ValueView, out: Self) -> bool {
        stored_text(v.kind) == Some(out@)
    }

    open spec fn refused(v: ValueView, e: ErrorView) -> bool {
        e == wrong_kind(v, "string"@)
    }

    fn from_grpc_value(v: &'de GrpcValue) -> (r: Result<Self, RecordDecodeError>) {
        match &v.kind {
            Some(Kind::StringValue(s)) => Ok(s.as_str()),
            Some(Kind::LinkValue(l)) => Ok(l.rid.as_str()),
            _ => Err(RecordDecodeError::type_mismatch("string", record::kind_name(&v.kind))),
        }
    }
}

/// Borrowed when the value holds the text, owned when the text is synthesized.
impl<'de> FromGrpcValue<'de> for Cow<'de, str> {
    open spec fn decodable(v: ValueView) -> bool {
        string_form(v.kind) is Some
    }

    open spec fn decoded(v: ValueView, out: Self) -> bool {
        string_form(v.kind) == Some(out@) && (out is Borrowed <==> stored_text(v.kind) is Some)
    }

    open spec fn refused(v: ValueView, e: ErrorView) -> bool {
        e == wrong_kind(v, "string"@)
    }

    fn from_grpc_value(v: &'de GrpcValue) -> (r: Result<Self, RecordDecodeError>) {
        match &v.kind {
            Some(Kind::StringValue(s)) => Ok(Cow::Borrowed(s.as_str())),
            Some(Kind::LinkValue(l)) => Ok(Cow::Borrowed(l.rid.as_str())),
            Some(Kind::TimestampValue(t)) => Ok(Cow::Owned(timestamp_to_string(t))),
            Some(Kind::DecimalValue(d)) => {
                if d.scale != 0 || d.unscaled_bytes.len() != 0 {
                    Ok(Cow::Owned(decimal_to_string(d)))
                } else {
                    Err(RecordDecodeError::type_mismatch("string", "decimal"))
                }
            },
            _ => Err(RecordDecodeError::type_mismatch("string", record::kind_name(&v.kind))),
        }
    }
}

/// A string of exactly one character.
impl<'de> FromGrpcValue<'de> for char {
    open spec fn decodable(v: ValueView) -> bool {
        match v.kind {
            Some(KindView::Text(s)) => s.len() == 1,
            _ => false,
        }
    }

    open spec fn decoded(v: ValueView, out: Self) -> bool {
        v.kind == Some(KindView::Text(seq![out]))
    }

    open spec fn refused(v: ValueView, e: ErrorView) -> bool {
        e == wrong_kind(v, "single-char string"@)
    }

    fn from_grpc_value(v: &'de GrpcValue) -> (r: Result<Self, RecordDecodeError>) {
        match &v.kind {
            Some(Kind::StringValue(s)) => {
                let chars = text::chars_of(s.as_str());
                if chars.len() == 1 {
                    assert(chars@ =~= seq![chars@[0]]);
                    Ok(chars[0])
                } else {
                    Err(RecordDecodeError::type_mismatch("single-char string", "string"))
                }
            },
            _ => Err(
                RecordDecodeError::type_mismatch("single-char string", record::kind_name(&v.kind)),
            ),
        }
    }
}

// ---------------------------------------------------------------------------
// Links and booleans
// ---------------------------------------------------------------------------

/// A typed link, or a string in the shape of a rid.
impl<'de> FromGrpcValue<'de> for Link {
    open spec fn decodable(v: ValueView) -> bool {
        match stored_text(v.kind) {
            Some(s) => link::rid_parts(s) is Some,
            None => false,
        }
    }

    open spec fn decoded(v: ValueView, out: Self) -> bool {
        match stored_text(v.kind) {
            Some(s) => link::rid_parts(s) == Some((out.bucket as int, out.pos as int)),
            None => false,
        }
    }

    open spec fn refused(v: ValueView, e: ErrorView) -> bool {
        match stored_text(v.kind) {
            Some(s) => e == link::invalid_rid(s),
            None => e == wrong_kind(v, "link"@),
        }
    }

    fn from_grpc_value(v: &'de GrpcValue) -> (r: Result<Self, RecordDecodeError>) {
        match &v.kind {
            Some(Kind::LinkValue(l)) => Link::parse(l.rid.as_str()),
            Some(Kind::StringValue(s)) => Link::parse(s.as_str()),
            _ => Err(RecordDecodeError::type_mismatch("link", record::kind_name(&v.kind))),
        }
    }
}

impl<'de> FromGrpcValue<'de> for bool {
    open spec fn decodable(v: ValueView) -> bool {
        v.kind matches Some(KindView::Bool(_))
    }

    open spec fn decoded(v: ValueView, out: Self) -> bool {
        v.kind == Some(KindView::Bool(out))
    }

    open spec fn refused(v: ValueView, e: ErrorView) -> bool {
        e == wrong_kind(v, "bool"@)
    }

    fn from_grpc_value(v: &'de GrpcValue) -> (r: Result<Self, RecordDecodeError>) {
        match &v.kind {
            Some(Kind::BoolValue(b)) => Ok(*b),
            _ => Err(RecordDecodeError::type_mismatch("bool", record::kind_name(&v.kind))),
        }
    }
}

// ---------------------------------------------------------------------------
// Integers
// ---------------------------------------------------------------------------

/// The integer that a payload holds: an integer kind, or a decimal that is a plain integer.
pub open spec fn integer_form(k: Option<KindView>) -> Option<int> {
    match k {
        Some(KindView::Int32(n)) => Some(n as int),
        Some(KindView::Int64(n)) => Some(n as int),
        Some(KindView::Decimal(unscaled, scale, bytes)) => if plain_integer(scale, bytes) {
            Some(unscaled as int)
        } else {
            None
        },
        _ => None,
    }
}

/// The integer of a payload, when it lies within `min..=max`.
pub open spec fn integer_within(k: Option<KindView>, min: int, max: int) -> Option<int> {
    match integer_form(k) {
        Some(n) => if min <= n <= max {
            Some(n)
        } else {
            None
        },
        None => None,
    }
}

fn integer_of(v: &GrpcValue) -> (r: Option<i64>)
    ensures
        match r {
            Some(n) => integer_form(v@.kind) == Some(n as int),
            None => integer_form(v@.kind) is None,
        },
{
    match &v.kind {
        Some(Kind::Int32Value(n)) => Some(*n as i64),
        Some(Kind::Int64Value(n)) => Some(*n),
        Some(Kind::DecimalValue(d)) => {
            if d.scale == 0 && d.unscaled_bytes.len() == 0 {
                Some(d.unscaled)
            } else {
                None
            }
        },
        _ => None,
    }
}

fn integer_in(v: &GrpcValue, min: i64, max: i64, expected: &'static str) -> (r: Result<
    i64,
    RecordDecodeError,
>)
    ensures
        match r {
            Ok(n) => integer_within(v@.kind, min as int, max as int) == Some(n as int),
            Err(e) => integer_within(v@.kind, min as int, max as int) is None && e@ == wrong_kind(
                v@,
                expected@,
            ),
        },
{
    match integer_of(v) {
        Some(n) => if min <= n && n <= max {
            Ok(n)
        } else {
            Err(RecordDecodeError::type_mismatch(expected, record::kind_name(&v.kind)))
        },
        None => Err(RecordDecodeError::type_mismatch(expected, record::kind_name(&v.kind))),
    }
}

impl<'de> FromGrpcValue<'de> for i8 {
    open spec fn decodable(v: ValueView) -> bool {
        integer_within(v.kind, i8::MIN as int, i8::MAX as int) is Some
    }

    open spec fn decoded(v: ValueView, out: Self) -> bool {
        integer_form(v.kind) == Some(out as int)
    }

    open spec fn refused(v: ValueView, e: ErrorView) -> bool {
        e == wrong_kind(v, "i8"@)
    }

    fn from_grpc_value(v: &'de GrpcValue) -> (r: Result<Self, RecordDecodeError>) {
        match integer_in(v, -128, 127, "i8") {
            Ok(n) => Ok(n as i8),
            Err(e) => Err(e),
        }
    }
}

impl<'de> FromGrpcValue<'de> for i16 {
    open spec fn decodable(v: ValueView) -> bool {
        integer_within(v.kind, i16::MIN as int, i16::MAX as int) is Some
    }

    open spec fn decoded(v: ValueView, out: Self) -> bool {
        integer_form(v.kind) == Some(out as int)
    }

    open spec fn refused(v: ValueView, e: ErrorView) -> bool {
        e == wrong_kind(v, "i16"@)
    }

    fn from_grpc_value(v: &'de GrpcValue) -> (r: Result<Self, RecordDecodeError>) {
        match integer_in(v, -32768, 32767, "i16") {
            Ok(n) => Ok(n as i16),
            Err(e) => Err(e),
        }
    }
}

impl<'de> FromGrpcValue<'de> for i32 {
    open spec fn decodable(v: ValueView) -> bool {
        integer_within(v.kind, i32::MIN as int, i32::MAX as int) is Some
    }

    open spec fn decoded(v: ValueView, out: Self) -> bool {
        integer_form(v.kind) == Some(out as int)
    }

    open spec fn refused(v: ValueView, e: ErrorView) -> bool {
        e == wrong_kind(v, "i32"@)
    }

    fn from_grpc_value(v: &'de GrpcValue) -> (r: Result<Self, RecordDecodeError>) {
        match integer_in(v, -0x8000_0000, 0x7fff_ffff, "i32") {
            Ok(n) => Ok(n as i32),
            Err(e) => Err(e),
        }
    }
}

impl<'de> FromGrpcValue<'de> for i64 {
    open spec fn decodable(v: ValueView) -> bool {
        integer_within(v.kind, i64::MIN as int, i64::MAX as int) is Some
    }

    open spec fn decoded(v: ValueView, out: Self) -> bool {
        integer_form(v.kind) == Some(out as int)
    }

    open spec fn refused(v: ValueView, e: ErrorView) -> bool {
        e == wrong_kind(v, "i64"@)
    }

    fn from_grpc_value(v: &'de GrpcValue) -> (r: Result<Self, RecordDecodeError>) {
        match integer_in(v, i64::MIN, i64::MAX, "i64") {
            Ok(n) => Ok(n),
            Err(e) => Err(e),
        }
    }
}

impl<'de> FromGrpcValue<'de> for u8 {
    open spec fn decodable(v: ValueView) -> bool {
        integer_within(v.kind, u8::MIN as int, u8::MAX as int) is Some
    }

    open spec fn decoded(v: ValueView, out: Self) -> bool {
        integer_form(v.kind) == Some(out as int)
    }

    open spec fn refused(v: ValueView, e: ErrorView) -> bool {
        e == wrong_kind(v, "u8"@)
    }

    fn from_grpc_value(v: &'de GrpcValue) -> (r: Result<Self, RecordDecodeError>) {
        match integer_in(v, 0, 255, "u8") {
            Ok(n) => Ok(n as u8),
            Err(e) => Err(e),
        }
    }
}

impl<'de> FromGrpcValue<'de> for u16 {
    open spec fn decodable(v: ValueView) -> bool {
        integer_within(v.kind, u16::MIN as int, u16::MAX as int) is Some
    }

    open spec fn decoded(v: ValueView, out: Self) -> bool {
        integer_form(v.kind) == Some(out as int)
    }

    open spec fn refused(v: ValueView, e: ErrorView) -> bool {
        e == wrong_kind(v, "u16"@)
    }

    fn from_grpc_value(v: &'de GrpcValue) -> (r: Result<Self, RecordDecodeError>) {
        match integer_in(v, 0, 65535, "u16") {
            Ok(n) => Ok(n as u16),
            Err(e) => Err(e),
        }
    }
}

impl<'de> FromGrpcValue<'de> for u32 {
    open spec fn decodable(v: ValueView) -> bool {
        integer_within(v.kind, u32::MIN as int, u32::MAX as int) is Some
    }

    open spec fn decoded(v: ValueView, out: Self) -> bool {
        integer_form(v.kind) == Some(out as int)
    }

    open spec fn refused(v: ValueView, e: ErrorView) -> bool {
        e == wrong_kind(v, "u32"@)
    }

    fn from_grpc_value(v: &'de GrpcValue) -> (r: Result<Self, RecordDecodeError>) {
        match integer_in(v, 0, 0xffff_ffff, "u32") {
            Ok(n) => Ok(n as u32),
            Err(e) => Err(e),
        }
    }
}

impl<'de> FromGrpcValue<'de> for u64 {
    open spec fn decodable(v: ValueView) -> bool {
        integer_within(v.kind, u64::MIN as int, u64::MAX as int) is Some
    }

    open spec fn decoded(v: ValueView, out: Self) -> bool {
        integer_form(v.kind) == Some(out as int)
    }

    open spec fn refused(v: ValueView, e: ErrorView) -> bool {
        e == wrong_kind(v, "u64"@)
    }

    fn from_grpc_value(v: &'de GrpcValue) -> (r: Result<Self, RecordDecodeError>) {
        match integer_in(v, 0, i64::MAX, "u64") {
            Ok(n) => Ok(n as u64),
            Err(e) => Err(e),
        }
    }
}

// ---------------------------------------------------------------------------
// Floats
// ---------------------------------------------------------------------------

/// A number on its way to a floating-point target: the bit pattern of a float, or an integer.
#[derive(Debug, Clone, Copy, PartialEq, Eq, Structural)]
pub enum Number {
    Single(u32),
    Double(u64),
    Integer(i64),
}

/// The number that a payload holds; float targets take float and integer kinds.
pub open spec fn number_form(k: Option<KindView>) -> Option<Number> {
    match k {
        Some(KindView::Float(b)) => Some(Number::Single(b)),
        Some(KindView::Double(b)) => Some(Number::Double(b)),
        Some(KindView::Int32(n)) => Some(Number::Integer(n as i64)),
        Some(KindView::Int64(n)) => Some(Number::Integer(n)),
        _ => None,
    }
}

fn number_of(v: &GrpcValue) -> (r: Option<Number>)
    ensures
        r == number_form(v@.kind),
{
    match &v.kind {
        Some(Kind::FloatValue(b)) => Some(Number::Single(*b)),
        Some(Kind::DoubleValue(b)) => Some(Number::Double(*b)),
        Some(Kind::Int32Value(n)) => Some(Number::Integer(*n as i64)),
        Some(Kind::Int64Value(n)) => Some(Number::Integer(*n)),
        _ => None,
    }
}

/// The source of a single-precision target.
#[derive(Debug, Clone, Copy, PartialEq, Eq, Structural)]
pub struct Real32(pub Number);

/// The source of a double-precision target.
#[derive(Debug, Clone, Copy, PartialEq, Eq, Structural)]
pub struct Real64(pub Number);

impl<'de> FromGrpcValue<'de> for Real32 {
    open spec fn decodable(v: ValueView) -> bool {
        number_form(v.kind) is Some
    }

    open spec fn decoded(v: ValueView, out: Self) -> bool {
        number_form(v.kind) == Some(out.0)
    }

    open spec fn refused(v: ValueView, e: ErrorView) -> bool {
        e == wrong_kind(v, "f32"@)
    }

    fn from_grpc_value(v: &'de GrpcValue) -> (r: Result<Self, RecordDecodeError>) {
        match number_of(v) {
            Some(n) => Ok(Real32(n)),
            None => Err(RecordDecodeError::type_mismatch("f32", record::kind_name(&v.kind))),
        }
    }
}

impl<'de> FromGrpcValue<'de> for Real64 {
    open spec fn decodable(v: ValueView) -> bool {
        number_form(v.kind) is Some
    }

    open spec fn decoded(v: ValueView, out: Self) -> bool {
        number_form(v.kind) == Some(out.0)
    }

    open spec fn refused(v: ValueView, e: ErrorView) -> bool {
        e == wrong_kind(v, "f64"@)
    }

    fn from_grpc_value(v: &'de GrpcValue) -> (r: Result<Self, RecordDecodeError>) {
        match number_of(v) {
            Some(n) => Ok(Real64(n)),
            None => Err(RecordDecodeError::type_mismatch("f64", record::kind_name(&v.kind))),
        }
    }
}

// ---------------------------------------------------------------------------
// Times and decimals
// ---------------------------------------------------------------------------

/// A representable timestamp, or RFC 3339 text.
impl<'de> FromGrpcValue<'de> for DateTimeUtc {
    open spec fn decodable(v: ValueView) -> bool {
        match v.kind {
            Some(KindView::Time(t)) => time::instant_valid(t.seconds as int, t.nanos as int),
            Some(KindView::Text(s)) => time::rfc3339_parsed(s) is Some,
            _ => false,
        }
    }

    open spec fn decoded(v: ValueView, out: Self) -> bool {
        match v.kind {
            Some(KindView::Time(t)) => out.secs() == t.seconds && out.nsecs() == t.nanos,
            Some(KindView::Text(s)) => time::rfc3339_parsed(s) == Some((out.secs(), out.nsecs())),
            _ => false,
        }
    }

    open spec fn refused(v: ValueView, e: ErrorView) -> bool {
        match v.kind {
            Some(KindView::Time(t)) => e == ErrorView::Conversion("timestamp out of range"@),
            Some(KindView::Text(s)) => e == ErrorView::Conversion(
                "invalid timestamp string `"@ + s + "`"@,
            ),
            _ => e == wrong_kind(v, "timestamp"@),
        }
    }

    fn from_grpc_value(v: &'de GrpcValue) -> (r: Result<Self, RecordDecodeError>) {
        match &v.kind {
            Some(Kind::TimestampValue(t)) => match instant_of(t) {
                Some(i) => Ok(i),
                None => Err(RecordDecodeError::conversion("timestamp out of range")),
            },
            Some(Kind::StringValue(s)) => match DateTimeUtc::parse_from_rfc3339(s.as_str()) {
                Some(i) => Ok(i),
                None => {
                    let mut message = String::new();
                    message.append("invalid timestamp string `");
                    message.append(s.as_str());
                    message.append("`");
                    assert(message@ =~= "invalid timestamp string `"@ + s@ + "`"@);
                    Err(RecordDecodeError::conversion(message.as_str()))
                },
            },
            _ => Err(RecordDecodeError::type_mismatch("timestamp", record::kind_name(&v.kind))),
        }
    }
}

/// Date columns arrive as midnight-UTC timestamps.
impl<'de> FromGrpcValue<'de> for CalendarDate {
    open spec fn decodable(v: ValueView) -> bool {
        match v.kind {
            Some(KindView::Time(t)) => time::instant_valid(t.seconds as int, t.nanos as int),
            _ => false,
        }
    }

    open spec fn decoded(v: ValueView, out: Self) -> bool {
        match v.kind {
            Some(KindView::Time(t)) => out.ymd() == time::civil_date(
                t.seconds as int,
                t.nanos as int,
            ),
            _ => false,
        }
    }

    open spec fn refused(v: ValueView, e: ErrorView) -> bool {
        match v.kind {
            Some(KindView::Time(t)) => e == ErrorView::Conversion(
                "timestamp out of range for date: "@ + text::decimal(t.seconds as int),
            ),
            _ => e == wrong_kind(v, "date"@),
        }
    }

    fn from_grpc_value(v: &'de GrpcValue) -> (r: Result<Self, RecordDecodeError>) {
        match &v.kind {
            Some(Kind::TimestampValue(t)) => match instant_of(t) {
                Some(i) => Ok(i.date()),
                None => {
                    let mut message = String::new();
                    message.append("timestamp out of range for date: ");
                    message.append(text::signed_text(t.seconds).as_str());
                    assert(message@ =~= "timestamp out of range for date: "@ + text::decimal(
                        t.seconds as int,
                    ));
                    Err(RecordDecodeError::conversion(message.as_str()))
                },
            },
            _ => Err(RecordDecodeError::type_mismatch("date", record::kind_name(&v.kind))),
        }
    }
}

/// The unscaled value of a wire decimal.
pub open spec fn unscaled_of(unscaled: i64, bytes: Seq<u8>) -> int {
    if bytes.len() == 0 {
        unscaled as int
    } else {
        decimal::signed_be(bytes)
    }
}

/// The first reason why a wire decimal cannot be taken.
pub open spec fn decimal_refusal(unscaled: i64, scale: i32, bytes: Seq<u8>) -> Seq<char> {
    if bytes.len() > 16 {
        "decimal unscaled value too wide for rust_decimal: "@ + text::decimal(bytes.len() as int)
            + " bytes"@
    } else if scale < 0 {
        "decimal scale out of range: "@ + text::decimal(scale as int)
    } else {
        "decimal value not representable: "@ + decimal::decimal_error(
            unscaled_of(unscaled, bytes),
            scale as int,
        )
    }
}

/// A wire decimal, or a 64-bit integer. What exceeds the mantissa or the scale is an error,
/// never a loss of precision.
impl<'de> FromGrpcValue<'de> for Decimal {
    open spec fn decodable(v: ValueView) -> bool {
        match v.kind {
            Some(KindView::Decimal(unscaled, scale, bytes)) => bytes.len() <= 16 && scale >= 0
                && decimal::decimal_valid(unscaled_of(unscaled, bytes), scale as int),
            Some(KindView::Int64(_)) => true,
            _ => false,
        }
    }

    open spec fn decoded(v: ValueView, out: Self) -> bool {
        match v.kind {
            Some(KindView::Decimal(unscaled, scale, bytes)) => out.digits() == unscaled_of(
                unscaled,
                bytes,
            ) && out.places() == scale,
            Some(KindView::Int64(n)) => out.digits() == n && out.places() == 0,
            _ => false,
        }
    }

    open spec fn refused(v: ValueView, e: ErrorView) -> bool {
        match v.kind {
            Some(KindView::Decimal(unscaled, scale, bytes)) => e == ErrorView::Conversion(
                decimal_refusal(unscaled, scale, bytes),
            ),
            _ => e == wrong_kind(v, "decimal"@),
        }
    }

    fn from_grpc_value(v: &'de GrpcValue) -> (r: Result<Self, RecordDecodeError>) {
        match &v.kind {
            Some(Kind::Int64Value(n)) => Ok(Decimal::from_integer(*n)),
            Some(Kind::DecimalValue(d)) => decimal_from_wire(d),
            _ => Err(RecordDecodeError::type_mismatch("decimal", record::kind_name(&v.kind))),
        }
    }
}

fn decimal_from_wire(d: &GrpcDecimal) -> (r: Result<Decimal, RecordDecodeError>)
    ensures
        match r {
            Ok(out) => d.unscaled_bytes@.len() <= 16 && d.scale >= 0 && decimal::decimal_valid(
                unscaled_of(d.unscaled, d.unscaled_bytes@),
                d.scale as int,
            ) && out.digits() == unscaled_of(d.unscaled, d.unscaled_bytes@) && out.places()
                == d.scale,
            Err(e) => !(d.unscaled_bytes@.len() <= 16 && d.scale >= 0 && decimal::decimal_valid(
                unscaled_of(d.unscaled, d.unscaled_bytes@),
                d.scale as int,
            )) && e@ == ErrorView::Conversion(
                decimal_refusal(d.unscaled, d.scale, d.unscaled_bytes@),
            ),
        },
{
    let mut message = String::new();
    if d.unscaled_bytes.len() > 16 {
        message.append("decimal unscaled value too wide for rust_decimal: ");
        message.append(text::unsigned_text(d.unscaled_bytes.len() as u64).as_str());
        message.append(" bytes");
        assert(message@ =~= decimal_refusal(d.unscaled, d.scale, d.unscaled_bytes@));
        return Err(RecordDecodeError::conversion(message.as_str()));
    }
    let unscaled: i128 = if d.unscaled_bytes.len() == 0 {
        d.unscaled as i128
    } else {
        decimal::from_be_signed(&d.unscaled_bytes)
    };
    if d.scale < 0 {
        message.append("decimal scale out of range: ");
        message.append(text::signed_text(d.scale as i64).as_str());
        assert(message@ =~= decimal_refusal(d.unscaled, d.scale, d.unscaled_bytes@));
        return Err(RecordDecodeError::conversion(message.as_str()));
    }
    match Decimal::try_from_i128_with_scale(unscaled, d.scale as u32) {
        Ok(out) => Ok(out),
        Err(why) => {
            message.append("decimal value not representable: ");
            message.append(why.as_str());
            assert(message@ =~= decimal_refusal(d.unscaled, d.scale, d.unscaled_bytes@));
            Err(RecordDecodeError::conversion(message.as_str()))
        },
    }
}

// ---------------------------------------------------------------------------
// Bytes and containers
// ---------------------------------------------------------------------------

/// A view of a byte blob.
impl<'de> FromGrpcValue<'de> for &'de [u8] {
    open spec fn decodable(v: ValueView) -> bool {
        v.kind matches Some(KindView::Bytes(_))
    }

    open spec fn decoded(v: ValueView, out: Self) -> bool {
        v.kind == Some(KindView::Bytes(out@))
    }

    open spec fn refused(v: ValueView, e: ErrorView) -> bool {
        e == wrong_kind(v, "bytes"@)
    }

    fn from_grpc_value(v: &'de GrpcValue) -> (r: Result<Self, RecordDecodeError>) {
        match &v.kind {
            Some(Kind::BytesValue(b)) => Ok(b.as_slice()),
            _ => Err(RecordDecodeError::type_mismatch("bytes", record::kind_name(&v.kind))),
        }
    }
}

/// An unset payload is `None`.
impl<'de, T: FromGrpcValue<'de>> FromGrpcValue<'de> for Option<T> {
    open spec fn decodable(v: ValueView) -> bool {
        v.kind is None || T::decodable(v)
    }

    open spec fn decoded(v: ValueView, out: Self) -> bool {
        match out {
            None => v.kind is None,
            Some(x) => v.kind is Some && T::decoded(v, x),
        }
    }

    open spec fn refused(v: ValueView, e: ErrorView) -> bool {
        T::refused(v, e)
    }

    fn from_grpc_value(v: &'de GrpcValue) -> (r: Result<Self, RecordDecodeError>) {
        match &v.kind {
            None => Ok(None),
            Some(_) => match T::from_grpc_value(v) {
                Ok(x) => Ok(Some(x)),
                Err(e) => Err(e),
            },
        }
    }
}

/// The path of element `i` of a container called `label`.
pub open spec fn element_path(label: Seq<char>, i: int) -> Seq<char> {
    label + "["@ + text::decimal(i) + "]"@
}

/// The path of the map entry `k`.
pub open spec fn entry_path(k: Seq<char>) -> Seq<char> {
    "map["@ + k + "]"@
}

/// Each of `l` converts.
pub open spec fn each_decodable<'de, T: FromGrpcValue<'de>>(l: Seq<ValueView>) -> bool {
    forall|i: int| 0 <= i < l.len() ==> T::decodable(#[trigger] l[i])
}

/// `out` holds what each of `l` converts to, in order.
pub open spec fn each_decoded<'de, T: FromGrpcValue<'de>>(
    l: Seq<ValueView>,
    out: Seq<T>,
) -> bool {
    out.len() == l.len() && forall|i: int|
        0 <= i < l.len() ==> T::decoded(l[i], #[trigger] out[i])
}

/// Each entry of `m` converts.
pub open spec fn entries_decodable<'de, T: FromGrpcValue<'de>>(
    m: Map<Seq<char>, ValueView>,
) -> bool {
    forall|k: Seq<char>| #[trigger] m.contains_key(k) ==> T::decodable(m[k])
}

/// `out` holds under each name of `m` what the entry converts to, and no other name.
pub open spec fn entries_decoded<'de, T: FromGrpcValue<'de>>(
    m: Map<Seq<char>, ValueView>,
    out: Map<Seq<char>, T>,
) -> bool {
    out.dom() == m.dom() && forall|k: Seq<char>| #[trigger]
        m.contains_key(k) ==> T::decoded(m[k], out[k])
}

/// All elements of a list convert.
pub open spec fn all_decodable<'de, T: FromGrpcValue<'de>>(v: ValueView) -> bool {
    match v.kind {
        Some(KindView::List(l)) => each_decodable::<T>(l),
        _ => false,
    }
}

/// `out` holds what the elements of a list convert to, in order.
pub open spec fn all_decoded<'de, T: FromGrpcValue<'de>>(v: ValueView, out: Seq<T>) -> bool {
    match v.kind {
        Some(KindView::List(l)) => each_decoded::<T>(l, out),
        _ => false,
    }
}

/// Element `i` of `l` is the first that does not convert, and fails with `inner`.
pub open spec fn fails_at<'de, T: FromGrpcValue<'de>>(
    l: Seq<ValueView>,
    i: int,
    inner: ErrorView,
) -> bool {
    &&& 0 <= i < l.len()
    &&& !T::decodable(l[i])
    &&& T::refused(l[i], inner)
    &&& forall|j: int| 0 <= j < i ==> T::decodable(#[trigger] l[j])
}

/// Entry `k` of `m` does not convert, and fails with `inner`.
pub open spec fn entry_fails<'de, T: FromGrpcValue<'de>>(
    m: Map<Seq<char>, ValueView>,
    k: Seq<char>,
    inner: ErrorView,
) -> bool {
    m.contains_key(k) && !T::decodable(m[k]) && T::refused(m[k], inner)
}

/// `e` is the failure of the first element that does not convert, under its path.
pub open spec fn some_element_fails<'de, T: FromGrpcValue<'de>>(
    l: Seq<ValueView>,
    label: Seq<char>,
    e: ErrorView,
) -> bool {
    exists|i: int, inner: ErrorView| #[trigger]
        fails_at::<T>(l, i, inner) && e == record::in_field(inner, element_path(label, i))
}

/// `e` is the failure of an entry that does not convert, under its path.
pub open spec fn some_entry_fails<'de, T: FromGrpcValue<'de>>(
    m: Map<Seq<char>, ValueView>,
    e: ErrorView,
) -> bool {
    exists|k: Seq<char>, inner: ErrorView| #[trigger]
        entry_fails::<T>(m, k, inner) && e == record::in_field(inner, entry_path(k))
}

/// `e` is the failure of the first element that does not convert, under its path; or the
/// value is no list.
pub open spec fn element_refused<'de, T: FromGrpcValue<'de>>(
    v: ValueView,
    label: Seq<char>,
    e: ErrorView,
) -> bool {
    match v.kind {
        Some(KindView::List(l)) => some_element_fails::<T>(l, label, e),
        _ => e == wrong_kind(v, "list"@),
    }
}

fn element_label(label: &str, i: usize) -> (r: String)
    ensures
        r@ == element_path(label@, i as int),
{
    let mut out = label.to_owned();
    out.append("[");
    out.append(text::unsigned_text(i as u64).as_str());
    out.append("]");
    assert(out@ =~= element_path(label@, i as int));
    out
}

fn decode_elements<'de, T: FromGrpcValue<'de>>(v: &'de GrpcValue, label: &str) -> (r: Result<
    Vec<T>,
    RecordDecodeError,
>)
    ensures
        match r {
            Ok(out) => all_decodable::<T>(v@) && all_decoded::<T>(v@, out@),
            Err(e) => !all_decodable::<T>(v@) && element_refused::<T>(v@, label@, e@),
        },
{
    match &v.kind {
        Some(Kind::ListValue(list)) => {
            let ghost l = wire::values_view(list.values@);
            let mut out: Vec<T> = Vec::new();
            for i in 0..list.values.len()
                invariant
                    l == wire::values_view(list.values@),
                    v@.kind == Some(KindView::List(l)),
                    out@.len() == i,
                    forall|j: int| 0 <= j < i ==> T::decodable(#[trigger] l[j]),
                    forall|j: int| 0 <= j < i ==> T::decoded(l[j], #[trigger] out@[j]),
            {
                assert(l[i as int] == list.values@[i as int]@);
                match T::from_grpc_value(&list.values[i]) {
                    Ok(x) => {
                        out.push(x);
                    },
                    Err(inner) => {
                        let path = element_label(label, i);
                        let ghost why = inner@;
                        let e = inner.with_field(path.as_str());
                        assert(!T::decodable(l[i as int]));
                        assert(fails_at::<T>(l, i as int, why));
                        assert(some_element_fails::<T>(l, label@, e@));
                        return Err(e);
                    },
                }
            }
            Ok(out)
        },
        _ => Err(RecordDecodeError::type_mismatch("list", record::kind_name(&v.kind))),
    }
}

/// List values, element by element.
impl<'de, T: FromGrpcValue<'de>> FromGrpcValue<'de> for Vec<T> {
    open spec fn decodable(v: ValueView) -> bool {
        all_decodable::<T>(v)
    }

    open spec fn decoded(v: ValueView, out: Self) -> bool {
        all_decoded::<T>(v, out@)
    }

    open spec fn refused(v: ValueView, e: ErrorView) -> bool {
        element_refused::<T>(v, "list"@, e)
    }

    fn from_grpc_value(v: &'de GrpcValue) -> (r: Result<Self, RecordDecodeError>) {
        decode_elements(v, "list")
    }
}

/// The elements of a list that a set target collects; the wire does not tell sets from lists.
pub fn set_elements<'de, T: FromGrpcValue<'de>>(v: &'de GrpcValue) -> (r: Result<
    Vec<T>,
    RecordDecodeError,
>)
    ensures
        match r {
            Ok(out) => all_decodable::<T>(v@) && all_decoded::<T>(v@, out@),
            Err(e) => !all_decodable::<T>(v@) && element_refused::<T>(v@, "set"@, e@),
        },
{
    decode_elements(v, "set")
}

/// Map values, entry by entry.
impl<'de, T: FromGrpcValue<'de>> FromGrpcValue<'de> for PropMap<T> {
    open spec fn decodable(v: ValueView) -> bool {
        match v.kind {
            Some(KindView::Entries(m)) => entries_decodable::<T>(m),
            _ => false,
        }
    }

    open spec fn decoded(v: ValueView, out: Self) -> bool {
        match v.kind {
            Some(KindView::Entries(m)) => entries_decoded::<T>(m, out@),
            _ => false,
        }
    }

    open spec fn refused(v: ValueView, e: ErrorView) -> bool {
        match v.kind {
            Some(KindView::Entries(m)) => some_entry_fails::<T>(m, e),
            _ => e == wrong_kind(v, "map"@),
        }
    }

    fn from_grpc_value(v: &'de GrpcValue) -> (r: Result<Self, RecordDecodeError>) {
        match &v.kind {
            Some(Kind::MapValue(map)) => {
                let ghost m = wire::entries_view(map.entries);
                let mut out: PropMap<T> = PropMap::new();
                let n = map.entries.len();
                proof {
                    wire::lemma_entries(map.entries);
                    map.entries.lemma_pairs();
                    crate::props::lemma_pairs_map(map.entries.pairs());
                }
                for i in 0..n
                    invariant
                        m == wire::entries_view(map.entries),
                        v@.kind == Some(KindView::Entries(m)),
                        n == map.entries.pairs().len(),
                        m.dom() == map.entries@.dom(),
                        forall|k: Seq<char>| #[trigger]
                            map.entries@.contains_key(k) ==> m[k] == map.entries@[k]@,
                        forall|k: Seq<char>| #[trigger]
                            out@.contains_key(k) ==> m.contains_key(k) && T::decodable(m[k])
                                && T::decoded(m[k], out@[k]),
                        forall|j: int|
                            0 <= j < i ==> out@.contains_key(
                                (#[trigger] map.entries.pairs()[j]).0@,
                            ),
                {
                    let (k, entry) = map.entries.entry(i);
                    assert(m[k@] == entry@);
                    assert(m.contains_key(k@));
                    match T::from_grpc_value(entry) {
                        Ok(x) => {
                            out.insert(k.clone(), x);
                        },
                        Err(inner) => {
                            let mut path = String::new();
                            path.append("map[");
                            path.append(k.as_str());
                            path.append("]");
                            assert(path@ =~= entry_path(k@));
                            let ghost why = inner@;
                            let e = inner.with_field(path.as_str());
                            assert(entry_fails::<T>(m, k@, why));
                            assert(some_entry_fails::<T>(m, e@));
                            return Err(e);
                        },
                    }
                }
                proof {
                    assert forall|k: Seq<char>| #[trigger] m.contains_key(k) implies out@.contains_key(
                        k,
                    ) by {
                        let j = choose|j: int|
                            0 <= j < map.entries.pairs().len() && (
                            #[trigger] map.entries.pairs()[j]).0@ == k;
                        assert(map.entries.pairs()[j].0@ == k);
                    }
                    assert(out@.dom() =~= m.dom());
                }
                Ok(out)
            },
            _ => Err(RecordDecodeError::type_mismatch("map", record::kind_name(&v.kind))),
        }
    }
}

/// Where a blob comes from a list of integers, the first element that is no byte.
pub open spec fn first_non_byte(l: Seq<ValueView>, i: int) -> bool {
    0 <= i < l.len() && byte_form(l[i].kind) is None && forall|j: int|
        0 <= j < i ==> byte_form((#[trigger] l[j]).kind) is Some
}

/// The byte of an integer payload, when it is one.
pub open spec fn byte_form(k: Option<KindView>) -> Option<u8> {
    match k {
        Some(KindView::Int32(n)) => if 0 <= n <= 255 {
            Some(n as u8)
        } else {
            None
        },
        Some(KindView::Int64(n)) => if 0 <= n <= 255 {
            Some(n as u8)
        } else {
            None
        },
        _ => None,
    }
}

/// Each of `l` is a byte.
pub open spec fn all_bytes(l: Seq<ValueView>) -> bool {
    forall|i: int| 0 <= i < l.len() ==> byte_form((#[trigger] l[i]).kind) is Some
}

/// The blob of a payload: bytes, or a list of small integers.
pub open spec fn blob_form(k: Option<KindView>) -> Option<Seq<u8>> {
    match k {
        Some(KindView::Bytes(b)) => Some(b),
        Some(KindView::List(l)) => if all_bytes(l) {
            Some(Seq::new(l.len(), |i: int| byte_form(l[i].kind)->0))
        } else {
            None
        },
        _ => None,
    }
}

/// `e` is why a value is no blob: the first element that is no byte, or the kind.
pub open spec fn blob_refused(v: ValueView, e: ErrorView) -> bool {
    match v.kind {
        Some(KindView::List(l)) => exists|i: int| #[trigger]
            first_non_byte(l, i) && e == wrong_kind(l[i], "u8"@),
        _ => e == wrong_kind(v, "bytes"@),
    }
}

/// A byte blob: the `bytes` kind, or a list of small integers.
pub fn decode_bytes(v: &GrpcValue) -> (r: Result<Vec<u8>, RecordDecodeError>)
    ensures
        match r {
            Ok(b) => blob_form(v@.kind) == Some(b@),
            Err(e) => blob_form(v@.kind) is None && blob_refused(v@, e@),
        },
{
    match &v.kind {
        Some(Kind::BytesValue(b)) => {
            let out = b.clone();
            assert(out@ =~= b@);
            Ok(out)
        },
        Some(Kind::ListValue(list)) => {
            let ghost l = wire::values_view(list.values@);
            let mut out: Vec<u8> = Vec::new();
            for i in 0..list.values.len()
                invariant
                    l == wire::values_view(list.values@),
                    v@.kind == Some(KindView::List(l)),
                    out@.len() == i,
                    forall|j: int|
                        0 <= j < i ==> byte_form((#[trigger] l[j]).kind) == Some(out@[j]),
            {
                let item = &list.values[i];
                assert(l[i as int] == item@);
                let byte: Option<u8> = match &item.kind {
                    Some(Kind::Int32Value(n)) => if 0 <= *n && *n <= 255 {
                        Some(*n as u8)
                    } else {
                        None
                    },
                    Some(Kind::Int64Value(n)) => if 0 <= *n && *n <= 255 {
                        Some(*n as u8)
                    } else {
                        None
                    },
                    _ => None,
                };
                match byte {
                    Some(b) => {
                        out.push(b);
                    },
                    None => {
                        assert(first_non_byte(l, i as int));
                        return Err(
                            RecordDecodeError::type_mismatch("u8", record::kind_name(&item.kind)),
                        );
                    },
                }
            }
            assert(out@ =~= Seq::new(l.len(), |i: int| byte_form(l[i].kind)->0));
            Ok(out)
        },
        _ => Err(RecordDecodeError::type_mismatch("bytes", record::kind_name(&v.kind))),
    }
}

} // verus!
