//! What is encoded decodes back.

use vstd::prelude::*;
use crate::decimal;
use crate::decimal::Decimal;
use crate::encode;
use crate::encode::{Double, IntoGrpcValue, Single};
use crate::props::PropMap;
use crate::record;
use crate::record::convert;
use crate::record::convert::{FromGrpcValue, Number, Real32, Real64};
use crate::record::link;
use crate::record::{ErrorView, Link};
use crate::text;
use crate::time;
use crate::time::{CalendarDate, DateTimeUtc};
use crate::wire::{KindView, ValueView};

verus! {

/// The wire form of a `T` decodes, and only to the value it was made of.
pub open spec fn comes_back<'de, T: IntoGrpcValue + FromGrpcValue<'de>>(x: T) -> bool {
    T::decodable(x.wire()) && forall|out: T| #[trigger] T::decoded(x.wire(), out) ==> out == x
}

/// Booleans and integers come back, each in its own width; an unsigned 64-bit integer does as
/// long as the signed wire kind can hold it.
pub proof fn law_scalars_come_back(
    b: bool,
    n8: i8,
    n16: i16,
    n32: i32,
    n64: i64,
    u16_: u16,
    u32_: u32,
    u64_: u64,
)
    ensures
        comes_back(b),
        comes_back(n8),
        comes_back(n16),
        comes_back(n32),
        comes_back(n64),
        comes_back(u16_),
        comes_back(u32_),
        u64_ <= i64::MAX ==> comes_back(u64_),
{
}

/// A character comes back.
pub proof fn law_characters_come_back(c: char)
    ensures
        comes_back(c),
{
    assert forall|out: char| #[trigger] <char as FromGrpcValue>::decoded(c.wire(), out) implies out
        == c by {
        assert(seq![out][0] == seq![c][0]);
    }
}

/// Text comes back with the same characters.
pub proof fn law_text_comes_back(s: String, out: String)
    ensures
        <String as FromGrpcValue>::decodable(s.wire()),
        <String as FromGrpcValue>::decoded(s.wire(), out) ==> out@ == s@,
{
}

/// A link with non-negative parts comes back.
pub proof fn law_links_come_back(l: Link)
    requires
        l.bucket >= 0,
        l.pos >= 0,
    ensures
        comes_back(l),
{
    link::law_rid_text_parses_back(l.bucket as int, l.pos as int);
}

/// An instant comes back to the nanosecond.
pub proof fn law_instants_come_back(t: DateTimeUtc, out: DateTimeUtc)
    requires
        time::instant_valid(t.secs() as int, t.nsecs() as int),
    ensures
        <DateTimeUtc as FromGrpcValue>::decodable(t.wire()),
        <DateTimeUtc as FromGrpcValue>::decoded(t.wire(), out) ==> out.secs() == t.secs()
            && out.nsecs() == t.nsecs(),
{
}

/// A date comes back; the requirement is what [`CalendarDate::midnight_utc`] states of it.
pub proof fn law_dates_come_back(d: CalendarDate, s: int, out: CalendarDate)
    requires
        time::midnight_of(d.ymd().0, d.ymd().1, d.ymd().2) == Some(s),
        time::instant_valid(s, 0),
        time::civil_date(s, 0) == d.ymd(),
    ensures
        <CalendarDate as FromGrpcValue>::decodable(d.wire()),
        <CalendarDate as FromGrpcValue>::decoded(d.wire(), out) ==> out.ymd() == d.ymd(),
{
}

/// A decimal comes back without loss, through the 64-bit form or the wide one.
pub proof fn law_decimals_come_back(d: Decimal, out: Decimal)
    requires
        decimal::decimal_valid(d.digits() as int, d.places() as int),
    ensures
        <Decimal as FromGrpcValue>::decodable(d.wire()),
        <Decimal as FromGrpcValue>::decoded(d.wire(), out) ==> out.digits() == d.digits()
            && out.places() == d.places(),
{
    decimal::law_wide_bytes_read_back(d.digits() as int);
}

/// Byte blobs come back.
pub proof fn law_blobs_come_back(b: Vec<u8>)
    ensures
        convert::blob_form(b.wire().kind) == Some(b@),
{
}

/// Floating-point numbers come back with their bits.
pub proof fn law_floats_come_back(x: Single, y: Double, out32: Real32, out64: Real64)
    ensures
        <Real32 as FromGrpcValue>::decodable(x.wire()),
        <Real32 as FromGrpcValue>::decoded(x.wire(), out32) ==> out32 == Real32(
            Number::Single(x.0),
        ),
        <Real64 as FromGrpcValue>::decodable(y.wire()),
        <Real64 as FromGrpcValue>::decoded(y.wire(), out64) ==> out64 == Real64(
            Number::Double(y.0),
        ),
{
}

/// The wire form of a `T` decodes, and only to values that stand in the relation `alike` to
/// the value it was made of.
pub open spec fn comes_back_as<'de, T: IntoGrpcValue + FromGrpcValue<'de>>(
    x: T,
    alike: spec_fn(T, T) -> bool,
) -> bool {
    T::decodable(x.wire()) && forall|out: T| #[trigger]
        T::decoded(x.wire(), out) ==> alike(out, x)
}

/// Two lists are alike element by element.
pub open spec fn lists_alike<T>(a: Seq<T>, b: Seq<T>, alike: spec_fn(T, T) -> bool) -> bool {
    a.len() == b.len() && forall|i: int| 0 <= i < b.len() ==> alike(#[trigger] a[i], b[i])
}

/// Two maps have the same keys and are alike entry by entry.
pub open spec fn maps_alike<T>(
    a: Map<Seq<char>, T>,
    b: Map<Seq<char>, T>,
    alike: spec_fn(T, T) -> bool,
) -> bool {
    a.dom() == b.dom() && forall|k: Seq<char>| #[trigger]
        b.contains_key(k) ==> alike(a[k], b[k])
}

/// A map comes back entry by entry, in whatever sense its values do.
pub proof fn law_maps_come_back<'de, T: IntoGrpcValue + FromGrpcValue<'de>>(
    m: PropMap<T>,
    out: PropMap<T>,
    alike: spec_fn(T, T) -> bool,
)
    requires
        forall|k: Seq<char>| #[trigger] m@.contains_key(k) ==> comes_back_as(m@[k], alike),
    ensures
        <PropMap<T> as FromGrpcValue>::decodable(
            encode::of_kind(KindView::Entries(encode::map_wires(m@))),
        ),
        <PropMap<T> as FromGrpcValue>::decoded(
            encode::of_kind(KindView::Entries(encode::map_wires(m@))),
            out,
        ) ==> maps_alike(out@, m@, alike),
{
    let w = encode::map_wires(m@);
    assert forall|k: Seq<char>| #[trigger] w.contains_key(k) implies T::decodable(w[k]) by {
        assert(comes_back_as(m@[k], alike));
    }
    if convert::entries_decoded::<T>(w, out@) {
        assert forall|k: Seq<char>| #[trigger] m@.contains_key(k) implies out@.contains_key(k)
            && alike(out@[k], m@[k]) by {
            assert(w.contains_key(k));
            assert(comes_back_as(m@[k], alike));
        }
        assert(out@.dom() =~= m@.dom());
    }
}

/// A list comes back element by element, in whatever sense its elements do.
pub proof fn law_lists_come_back<'de, T: IntoGrpcValue + FromGrpcValue<'de>>(
    v: Vec<T>,
    out: Vec<T>,
    alike: spec_fn(T, T) -> bool,
)
    requires
        forall|i: int| 0 <= i < v@.len() ==> comes_back_as(#[trigger] v@[i], alike),
    ensures
        <Vec<T> as FromGrpcValue>::decodable(
            encode::of_kind(KindView::List(encode::wires(v@))),
        ),
        <Vec<T> as FromGrpcValue>::decoded(
            encode::of_kind(KindView::List(encode::wires(v@))),
            out,
        ) ==> lists_alike(out@, v@, alike),
{
    let l: Seq<ValueView> = encode::wires(v@);
    assert forall|i: int| 0 <= i < l.len() implies T::decodable(#[trigger] l[i]) by {
        assert(comes_back_as(v@[i], alike));
    }
    if convert::each_decoded::<T>(l, out@) {
        assert forall|i: int| 0 <= i < v@.len() implies alike(#[trigger] out@[i], v@[i]) by {
            assert(comes_back_as(v@[i], alike));
            assert(T::decoded(l[i], out@[i]));
        }
    }
}

/// Two values are the same.
pub open spec fn same<T>(a: T, b: T) -> bool {
    a == b
}

/// Lists and maps of values that come back as themselves come back as themselves: those of
/// booleans, integers, characters and links.
pub proof fn law_lists_and_maps_of_plain_values_come_back<
    'de,
    T: IntoGrpcValue + FromGrpcValue<'de>,
>(v: Vec<T>, m: PropMap<T>, out: Vec<T>, out_map: PropMap<T>)
    requires
        forall|i: int| 0 <= i < v@.len() ==> comes_back(#[trigger] v@[i]),
        forall|k: Seq<char>| #[trigger] m@.contains_key(k) ==> comes_back(m@[k]),
    ensures
        <Vec<T> as FromGrpcValue>::decodable(
            encode::of_kind(KindView::List(encode::wires(v@))),
        ),
        <Vec<T> as FromGrpcValue>::decoded(
            encode::of_kind(KindView::List(encode::wires(v@))),
            out,
        ) ==> out@ == v@,
        <PropMap<T> as FromGrpcValue>::decodable(
            encode::of_kind(KindView::Entries(encode::map_wires(m@))),
        ),
        <PropMap<T> as FromGrpcValue>::decoded(
            encode::of_kind(KindView::Entries(encode::map_wires(m@))),
            out_map,
        ) ==> out_map@ == m@,
{
    let alike = |a: T, b: T| same(a, b);
    assert forall|i: int| 0 <= i < v@.len() implies comes_back_as(#[trigger] v@[i], alike) by {
        assert(comes_back(v@[i]));
    }
    assert forall|k: Seq<char>| #[trigger] m@.contains_key(k) implies comes_back_as(
        m@[k],
        alike,
    ) by {
        assert(comes_back(m@[k]));
    }
    law_lists_come_back(v, out, alike);
    law_maps_come_back(m, out_map, alike);
    if lists_alike(out@, v@, alike) {
        assert forall|i: int| 0 <= i < v@.len() implies out@[i] == v@[i] by {
            assert(alike(out@[i], v@[i]));
        }
        assert(out@ =~= v@);
    }
    if maps_alike(out_map@, m@, alike) {
        assert forall|k: Seq<char>| #[trigger] m@.contains_key(k) implies out_map@[k] == m@[k] by {
            assert(alike(out_map@[k], m@[k]));
        }
        assert(out_map@ =~= m@);
    }
}

/// Two texts have the same characters.
pub open spec fn same_text(a: String, b: String) -> bool {
    a@ == b@
}

/// Lists and maps of texts come back with the same characters.
pub proof fn law_lists_and_maps_of_texts_come_back(
    v: Vec<String>,
    m: PropMap<String>,
    out: Vec<String>,
    out_map: PropMap<String>,
)
    ensures
        <Vec<String> as FromGrpcValue>::decodable(
            encode::of_kind(KindView::List(encode::wires(v@))),
        ),
        <Vec<String> as FromGrpcValue>::decoded(
            encode::of_kind(KindView::List(encode::wires(v@))),
            out,
        ) ==> text::texts(out@) == text::texts(v@),
        <PropMap<String> as FromGrpcValue>::decodable(
            encode::of_kind(KindView::Entries(encode::map_wires(m@))),
        ),
        <PropMap<String> as FromGrpcValue>::decoded(
            encode::of_kind(KindView::Entries(encode::map_wires(m@))),
            out_map,
        ) ==> maps_alike(out_map@, m@, |a: String, b: String| same_text(a, b)),
{
    let alike = |a: String, b: String| same_text(a, b);
    assert forall|x: String| comes_back_as(x, alike) by {
        assert forall|out: String| #[trigger]
            <String as FromGrpcValue>::decoded(x.wire(), out) implies alike(out, x) by {
            law_text_comes_back(x, out);
        }
    }
    law_lists_come_back(v, out, alike);
    law_maps_come_back(m, out_map, alike);
    if lists_alike(out@, v@, alike) {
        assert forall|i: int| 0 <= i < v@.len() implies text::texts(out@)[i] == text::texts(
            v@,
        )[i] by {
            assert(alike(out@[i], v@[i]));
        }
        assert(text::texts(out@) =~= text::texts(v@));
    }
}

/// Two instants are the same to the nanosecond.
pub open spec fn same_instant(a: DateTimeUtc, b: DateTimeUtc) -> bool {
    a.secs() == b.secs() && a.nsecs() == b.nsecs()
}

/// Lists and maps of instants come back to the nanosecond.
pub proof fn law_lists_and_maps_of_instants_come_back(
    v: Vec<DateTimeUtc>,
    m: PropMap<DateTimeUtc>,
    out: Vec<DateTimeUtc>,
    out_map: PropMap<DateTimeUtc>,
)
    requires
        forall|i: int|
            0 <= i < v@.len() ==> time::instant_valid(
                (#[trigger] v@[i]).secs() as int,
                v@[i].nsecs() as int,
            ),
        forall|k: Seq<char>| #[trigger]
            m@.contains_key(k) ==> time::instant_valid(
                m@[k].secs() as int,
                m@[k].nsecs() as int,
            ),
    ensures
        <Vec<DateTimeUtc> as FromGrpcValue>::decodable(
            encode::of_kind(KindView::List(encode::wires(v@))),
        ),
        <Vec<DateTimeUtc> as FromGrpcValue>::decoded(
            encode::of_kind(KindView::List(encode::wires(v@))),
            out,
        ) ==> lists_alike(out@, v@, |a: DateTimeUtc, b: DateTimeUtc| same_instant(a, b)),
        <PropMap<DateTimeUtc> as FromGrpcValue>::decodable(
            encode::of_kind(KindView::Entries(encode::map_wires(m@))),
        ),
        <PropMap<DateTimeUtc> as FromGrpcValue>::decoded(
            encode::of_kind(KindView::Entries(encode::map_wires(m@))),
            out_map,
        ) ==> maps_alike(out_map@, m@, |a: DateTimeUtc, b: DateTimeUtc| same_instant(a, b)),
{
    let alike = |a: DateTimeUtc, b: DateTimeUtc| same_instant(a, b);
    assert forall|x: DateTimeUtc|
        time::instant_valid(x.secs() as int, x.nsecs() as int) implies comes_back_as(
        x,
        alike,
    ) by {
        law_instants_come_back(x, x);
        assert forall|out: DateTimeUtc| #[trigger]
            <DateTimeUtc as FromGrpcValue>::decoded(x.wire(), out) implies alike(out, x) by {
            law_instants_come_back(x, out);
        }
    }
    law_lists_come_back(v, out, alike);
    law_maps_come_back(m, out_map, alike);
}

/// Two decimals have the same digits and places.
pub open spec fn same_decimal(a: Decimal, b: Decimal) -> bool {
    a.digits() == b.digits() && a.places() == b.places()
}

/// Lists and maps of decimals come back without loss.
pub proof fn law_lists_and_maps_of_decimals_come_back(
    v: Vec<Decimal>,
    m: PropMap<Decimal>,
    out: Vec<Decimal>,
    out_map: PropMap<Decimal>,
)
    requires
        forall|i: int|
            0 <= i < v@.len() ==> decimal::decimal_valid(
                (#[trigger] v@[i]).digits() as int,
                v@[i].places() as int,
            ),
        forall|k: Seq<char>| #[trigger]
            m@.contains_key(k) ==> decimal::decimal_valid(
                m@[k].digits() as int,
                m@[k].places() as int,
            ),
    ensures
        <Vec<Decimal> as FromGrpcValue>::decodable(
            encode::of_kind(KindView::List(encode::wires(v@))),
        ),
        <Vec<Decimal> as FromGrpcValue>::decoded(
            encode::of_kind(KindView::List(encode::wires(v@))),
            out,
        ) ==> lists_alike(out@, v@, |a: Decimal, b: Decimal| same_decimal(a, b)),
        <PropMap<Decimal> as FromGrpcValue>::decodable(
            encode::of_kind(KindView::Entries(encode::map_wires(m@))),
        ),
        <PropMap<Decimal> as FromGrpcValue>::decoded(
            encode::of_kind(KindView::Entries(encode::map_wires(m@))),
            out_map,
        ) ==> maps_alike(out_map@, m@, |a: Decimal, b: Decimal| same_decimal(a, b)),
{
    let alike = |a: Decimal, b: Decimal| same_decimal(a, b);
    assert forall|x: Decimal|
        decimal::decimal_valid(x.digits() as int, x.places() as int) implies comes_back_as(
        x,
        alike,
    ) by {
        law_decimals_come_back(x, x);
        assert forall|out: Decimal| #[trigger]
            <Decimal as FromGrpcValue>::decoded(x.wire(), out) implies alike(out, x) by {
            law_decimals_come_back(x, out);
        }
    }
    law_lists_come_back(v, out, alike);
    law_maps_come_back(m, out_map, alike);
}

// ---------------------------------------------------------------------------
// What each type reads
// ---------------------------------------------------------------------------

/// The value holds the whole number `n`: an integer of either width, or a decimal without
/// places.
pub open spec fn whole_number(v: ValueView, n: int) -> bool {
    ||| v.kind matches Some(KindView::Int32(m)) && m == n
    ||| v.kind matches Some(KindView::Int64(m)) && m == n
    ||| v.kind matches Some(KindView::Decimal(m, scale, bytes)) && m == n && scale == 0
        && bytes.len() == 0
}

/// A signed integer reads exactly the whole numbers that fit it, and reads each as itself.
pub proof fn law_signed_integers_read_what_fits(v: ValueView, a: i8, b: i16, c: i32, d: i64, n: int)
    ensures
        i8::decoded(v, a) <==> whole_number(v, a as int),
        i16::decoded(v, b) <==> whole_number(v, b as int),
        i32::decoded(v, c) <==> whole_number(v, c as int),
        i64::decoded(v, d) <==> whole_number(v, d as int),
        whole_number(v, n) ==> (i8::decodable(v) <==> -128 <= n <= 127) && (i16::decodable(v)
            <==> -32768 <= n <= 32767) && (i32::decodable(v) <==> i32::MIN <= n <= i32::MAX) && (
        i64::decodable(v)),
        i8::decodable(v) || i16::decodable(v) || i32::decodable(v) || i64::decodable(v)
            ==> exists|m: int| whole_number(v, m),
{
    if let Some(m) = convert::integer_form(v.kind) {
        assert(whole_number(v, m));
    }
}

/// An unsigned integer reads exactly the whole numbers that fit it, and reads each as itself.
pub proof fn law_unsigned_integers_read_what_fits(
    v: ValueView,
    a: u8,
    b: u16,
    c: u32,
    d: u64,
    n: int,
)
    ensures
        u8::decoded(v, a) <==> whole_number(v, a as int),
        u16::decoded(v, b) <==> whole_number(v, b as int),
        u32::decoded(v, c) <==> whole_number(v, c as int),
        u64::decoded(v, d) <==> whole_number(v, d as int),
        whole_number(v, n) ==> (u8::decodable(v) <==> 0 <= n <= 255) && (u16::decodable(v) <==> 0
            <= n <= 65535) && (u32::decodable(v) <==> 0 <= n <= u32::MAX) && (u64::decodable(v)
            <==> 0 <= n),
        u8::decodable(v) || u16::decodable(v) || u32::decodable(v) || u64::decodable(v)
            ==> exists|m: int| whole_number(v, m),
{
    if let Some(m) = convert::integer_form(v.kind) {
        assert(whole_number(v, m));
    }
}

/// A `bool` reads booleans, a `char` texts of one character, a blob bytes, and a text what is
/// stored as text or as a link; a text also reads an instant, and a decimal that is no whole
/// number.
pub proof fn law_scalars_read_their_own_kind(v: ValueView, b: bool, c: char, s: String, w: Vec<u8>)
    ensures
        bool::decoded(v, b) <==> v.kind == Some(KindView::Bool(b)),
        bool::decodable(v) <==> v.kind matches Some(KindView::Bool(_)),
        char::decoded(v, c) <==> (v.kind matches Some(KindView::Text(t)) && t.len() == 1 && t[0]
            == c),
        char::decodable(v) <==> (v.kind matches Some(KindView::Text(t)) && t.len() == 1),
        v.kind matches Some(KindView::Text(t)) ==> String::decodable(v) && (String::decoded(v, s)
            <==> s@ == t),
        v.kind matches Some(KindView::Link(rid, _)) ==> String::decodable(v) && (String::decoded(
            v,
            s,
        ) <==> s@ == rid),
        v.kind is None || v.kind->0 is Bool || v.kind->0 is Int32 || v.kind->0 is Int64
            || v.kind->0 is Float || v.kind->0 is Double || v.kind->0 is Bytes || v.kind->0 is List
            || v.kind->0 is Entries || v.kind->0 is Embedded ==> !String::decodable(v),
{
    if let Some(KindView::Text(t)) = v.kind {
        assert(t.len() == 1 && t[0] == c ==> t =~= seq![c]);
    }
}

/// A blob is bytes, or a list of whole numbers from 0 to 255.
pub proof fn law_blobs_read_bytes_and_lists_of_small_numbers(k: Option<KindView>)
    ensures
        k matches Some(KindView::Bytes(b)) ==> convert::blob_form(k) == Some(b),
        k matches Some(KindView::List(l)) ==> match convert::blob_form(k) {
            Some(b) => b.len() == l.len() && forall|i: int|
                0 <= i < l.len() ==> match (#[trigger] l[i]).kind {
                    Some(KindView::Int32(n)) => n == b[i],
                    Some(KindView::Int64(n)) => n == b[i],
                    _ => false,
                },
            None => exists|i: int|
                0 <= i < l.len() && match (#[trigger] l[i]).kind {
                    Some(KindView::Int32(n)) => n < 0 || n > 255,
                    Some(KindView::Int64(n)) => n < 0 || n > 255,
                    _ => true,
                },
        },
        !(k matches Some(KindView::Bytes(_))) && !(k matches Some(KindView::List(_)))
            ==> convert::blob_form(k) is None,
{
    if let Some(KindView::List(l)) = k {
        if convert::blob_form(k) is Some {
            assert forall|i: int| 0 <= i < l.len() implies match (#[trigger] l[i]).kind {
                Some(KindView::Int32(n)) => n == convert::blob_form(k)->0[i],
                Some(KindView::Int64(n)) => n == convert::blob_form(k)->0[i],
                _ => false,
            } by {
                assert(convert::byte_form(l[i].kind) is Some);
            }
        } else {
            let i = choose|i: int|
                0 <= i < l.len() && convert::byte_form((#[trigger] l[i]).kind) is None;
        }
    }
}

/// An optional value is none exactly where there is no value; a list is read element by
/// element and a map entry by entry, and both only where every part can be read.
pub proof fn law_containers_read_their_parts<'de, T: FromGrpcValue<'de>>(
    v: ValueView,
    o: Option<T>,
    l: Vec<T>,
    m: PropMap<T>,
)
    ensures
        Option::<T>::decodable(v) <==> v.kind is None || T::decodable(v),
        Option::<T>::decoded(v, o) <==> match o {
            None => v.kind is None,
            Some(x) => v.kind is Some && T::decoded(v, x),
        },
        Vec::<T>::decodable(v) <==> (v.kind matches Some(KindView::List(s)) && forall|i: int|
            0 <= i < s.len() ==> T::decodable(#[trigger] s[i])),
        Vec::<T>::decoded(v, l) <==> (v.kind matches Some(KindView::List(s)) && l@.len() == s.len()
            && forall|i: int| 0 <= i < s.len() ==> T::decoded(s[i], #[trigger] l@[i])),
        PropMap::<T>::decodable(v) <==> (v.kind matches Some(KindView::Entries(e)) && forall|
            k: Seq<char>,
        | #[trigger]
            e.contains_key(k) ==> T::decodable(e[k])),
        PropMap::<T>::decoded(v, m) <==> (v.kind matches Some(KindView::Entries(e)) && m@.dom()
            == e.dom() && forall|k: Seq<char>| #[trigger]
            e.contains_key(k) ==> T::decoded(e[k], m@[k])),
{
}

/// A link is read from a link or a text that is a rid; an instant from a representable
/// timestamp, exactly, or from RFC 3339 text; a date from a timestamp; a decimal from its
/// digits and scale, or from a 64-bit integer.
pub proof fn law_composite_scalars_read_what_they_are(
    v: ValueView,
    l: Link,
    t: DateTimeUtc,
    d: CalendarDate,
    x: Decimal,
)
    ensures
        Link::decoded(v, l) ==> (v.kind matches Some(KindView::Link(s, _)) && link::rid_parts(s)
            == Some((l.bucket as int, l.pos as int))) || (v.kind matches Some(KindView::Text(s))
            && link::rid_parts(s) == Some((l.bucket as int, l.pos as int))),
        Link::decodable(v) <==> (v.kind matches Some(KindView::Link(s, _)) && link::rid_parts(
            s,
        ) is Some) || (v.kind matches Some(KindView::Text(s)) && link::rid_parts(s) is Some),
        v.kind matches Some(KindView::Time(w)) ==> (DateTimeUtc::decoded(v, t) <==> t.secs()
            == w.seconds && t.nsecs() == w.nanos) && (DateTimeUtc::decodable(v)
            <==> time::instant_valid(w.seconds as int, w.nanos as int)) && (CalendarDate::decoded(
            v,
            d,
        ) <==> d.ymd() == time::civil_date(w.seconds as int, w.nanos as int)),
        !(v.kind matches Some(KindView::Time(_))) ==> !CalendarDate::decodable(v),
        v.kind matches Some(KindView::Int64(n)) ==> Decimal::decodable(v) && (Decimal::decoded(v, x)
            <==> x.digits() == n && x.places() == 0),
        v.kind matches Some(KindView::Decimal(n, scale, bytes)) ==> (bytes.len() == 0 ==> (
        Decimal::decoded(v, x) <==> x.digits() == n && x.places() == scale)) && (bytes.len() > 0
            ==> (Decimal::decoded(v, x) <==> x.digits() == decimal::signed_be(bytes) && x.places()
            == scale)),
{
}

/// What cannot be read is refused with the name of what was expected and of what was there.
pub proof fn law_refusals_name_what_was_expected(v: ValueView, e: ErrorView)
    ensures
        bool::refused(v, e) <==> e == refusal("bool"@, v),
        i8::refused(v, e) <==> e == refusal("i8"@, v),
        i16::refused(v, e) <==> e == refusal("i16"@, v),
        i32::refused(v, e) <==> e == refusal("i32"@, v),
        i64::refused(v, e) <==> e == refusal("i64"@, v),
        u8::refused(v, e) <==> e == refusal("u8"@, v),
        u16::refused(v, e) <==> e == refusal("u16"@, v),
        u32::refused(v, e) <==> e == refusal("u32"@, v),
        u64::refused(v, e) <==> e == refusal("u64"@, v),
        Real32::refused(v, e) <==> e == refusal("f32"@, v),
        Real64::refused(v, e) <==> e == refusal("f64"@, v),
        String::refused(v, e) <==> e == refusal("string"@, v),
        char::refused(v, e) <==> e == refusal("single-char string"@, v),
        convert::stored_text(v.kind) is None ==> (Link::refused(v, e) <==> e == refusal("link"@, v)),
        convert::stored_text(v.kind) matches Some(s) ==> (Link::refused(v, e) <==> e
            == ErrorView::Conversion("invalid rid `"@ + s + "`"@)),
        !(v.kind matches Some(KindView::Time(_))) ==> (CalendarDate::refused(v, e) <==> e
            == refusal("date"@, v)),
        v.kind matches Some(KindView::Time(_)) ==> (DateTimeUtc::refused(v, e) <==> e
            == ErrorView::Conversion("timestamp out of range"@)),
{
}

/// `expected`, but something of another kind was there.
pub open spec fn refusal(expected: Seq<char>, v: ValueView) -> ErrorView {
    ErrorView::TypeMismatch(Seq::empty(), expected, record::kind_text(v.kind))
}

/// A list or a map that cannot be read is refused for one of its parts, which is named: the
/// first element in order, or an entry by its key.
pub proof fn law_refused_containers_name_the_part<'de, T: FromGrpcValue<'de>>(
    l: Seq<ValueView>,
    m: Map<Seq<char>, ValueView>,
    e: ErrorView,
)
    ensures
        convert::some_element_fails::<T>(l, "list"@, e) ==> exists|i: int, inner: ErrorView|
            0 <= i < l.len() && !T::decodable(l[i]) && #[trigger] T::refused(l[i], inner) && (
            forall|j: int| 0 <= j < i ==> T::decodable(#[trigger] l[j])) && e == record::in_field(
                inner,
                "list"@ + "["@ + text::decimal(i) + "]"@,
            ),
        convert::some_entry_fails::<T>(m, e) ==> exists|k: Seq<char>, inner: ErrorView|
            #[trigger] m.contains_key(k) && !T::decodable(m[k]) && #[trigger] T::refused(
                m[k],
                inner,
            ) && e == record::in_field(inner, "map["@ + k + "]"@),
{
    if convert::some_element_fails::<T>(l, "list"@, e) {
        let (i, inner) = choose|i: int, inner: ErrorView| #[trigger]
            convert::fails_at::<T>(l, i, inner) && e == record::in_field(
                inner,
                convert::element_path("list"@, i),
            );
        assert(T::refused(l[i], inner));
    }
    if convert::some_entry_fails::<T>(m, e) {
        let (k, inner) = choose|k: Seq<char>, inner: ErrorView| #[trigger]
            convert::entry_fails::<T>(m, k, inner) && e == record::in_field(
                inner,
                convert::entry_path(k),
            );
        assert(m.contains_key(k) && T::refused(m[k], inner));
    }
}

/// A floating-point number is read from either width with its bits, and from a whole number as
/// that number; from nothing else.
pub proof fn law_reals_read_numbers(v: ValueView, a: Real32, b: Real64)
    ensures
        v.kind matches Some(KindView::Float(x)) ==> (Real32::decoded(v, a) <==> a.0
            == Number::Single(x)) && (Real64::decoded(v, b) <==> b.0 == Number::Single(x)),
        v.kind matches Some(KindView::Double(x)) ==> (Real32::decoded(v, a) <==> a.0
            == Number::Double(x)) && (Real64::decoded(v, b) <==> b.0 == Number::Double(x)),
        v.kind matches Some(KindView::Int64(n)) ==> (Real32::decoded(v, a) <==> a.0
            == Number::Integer(n)) && (Real64::decoded(v, b) <==> b.0 == Number::Integer(n)),
        v.kind matches Some(KindView::Int32(n)) ==> (Real64::decoded(v, b) <==> (b.0 matches Number::Integer(
            m,
        ) && m == n)),
        Real32::decodable(v) <==> v.kind is Some && (v.kind->0 is Float || v.kind->0 is Double
            || v.kind->0 is Int32 || v.kind->0 is Int64),
        Real64::decodable(v) <==> Real32::decodable(v),
{
}

/// A blob that cannot be read is refused as no bytes, or for the first element of its list
/// that is no byte; a decimal for what makes it none.
pub proof fn law_refused_blobs_and_decimals_say_why(v: ValueView, e: ErrorView)
    ensures
        !(v.kind matches Some(KindView::List(_))) ==> (convert::blob_refused(v, e) <==> e
            == refusal("bytes"@, v)),
        v.kind matches Some(KindView::List(l)) ==> (convert::blob_refused(v, e) ==> exists|i: int|
            0 <= i < l.len() && convert::byte_form((#[trigger] l[i]).kind) is None && (forall|j: int|
                0 <= j < i ==> convert::byte_form((#[trigger] l[j]).kind) is Some) && e == refusal(
                "u8"@,
                l[i],
            )),
        !(v.kind matches Some(KindView::Decimal(_, _, _))) ==> (Decimal::refused(v, e) <==> e
            == refusal("decimal"@, v)),
        v.kind matches Some(KindView::Decimal(n, scale, bytes)) ==> (Decimal::refused(v, e) ==> if bytes.len()
            > 16 {
            e == ErrorView::Conversion(
                "decimal unscaled value too wide for rust_decimal: "@ + text::decimal(
                    bytes.len() as int,
                ) + " bytes"@,
            )
        } else if scale < 0 {
            e == ErrorView::Conversion("decimal scale out of range: "@ + text::decimal(scale as int))
        } else if scale > 28 {
            e == ErrorView::Conversion(
                "decimal value not representable: "@ + (
                "Scale exceeds the maximum precision allowed: "@ + text::decimal(scale as int)
                    + " > 28"@),
            )
        } else {
            e is Conversion
        }),
        Decimal::decodable(v) <==> (v.kind matches Some(KindView::Int64(_))) || (
        v.kind matches Some(KindView::Decimal(n, scale, bytes)) && bytes.len() <= 16 && 0 <= scale
            <= 28 && {
            let m = if bytes.len() == 0 {
                n as int
            } else {
                decimal::signed_be(bytes)
            };
            -0x1_0000_0000_0000_0000_0000_0000int < m < 0x1_0000_0000_0000_0000_0000_0000int
        }),
{
    if let Some(KindView::List(l)) = v.kind {
        if convert::blob_refused(v, e) {
            let i = choose|i: int| #[trigger]
                convert::first_non_byte(l, i) && e == convert::wrong_kind(l[i], "u8"@);
            assert(convert::byte_form(l[i].kind) is None);
        }
    }
}

/// An instant that is no representable one reads as the epoch in text; a decimal as its digits
/// and the power of ten.
pub proof fn law_instants_and_decimals_as_text(v: ValueView, s: String)
    ensures
        v.kind matches Some(KindView::Time(w)) ==> (String::decoded(v, s) <==> s@
            == if time::instant_valid(w.seconds as int, w.nanos as int) {
            time::rfc3339_of(w.seconds as int, w.nanos as int)
        } else {
            "1970-01-01T00:00:00+00:00"@
        }),
        v.kind matches Some(KindView::Decimal(n, scale, bytes)) ==> (String::decodable(v) <==> !(
        scale == 0 && bytes.len() == 0)) && (String::decoded(v, s) ==> s@ == text::decimal(n as int)
            + "e-"@ + text::decimal(scale as int)),
{
}

} // verus!
