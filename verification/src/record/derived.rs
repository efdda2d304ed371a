//! What derived decoders are built from, beside the property getters: the metadata fallbacks,
//! the rest of a map for a flattened field, and the discriminator of an enum.

use vstd::prelude::*;
use crate::encode;
use crate::props::PropMap;
use crate::record;
use crate::record::access;
use crate::record::access::DecodeFromMap;
use crate::record::convert;
use crate::record::convert::FromGrpcValue;
use crate::record::{ErrorView, RecordDecodeError};
use crate::text;
use crate::wire;
use crate::wire::{GrpcRecord, GrpcValue, Kind, KindView, ValueView};

verus! {

// ---------------------------------------------------------------------------
// Metadata fallbacks
// ---------------------------------------------------------------------------

/// The value that a synthetic property has: the stored one, else the record's metadata.
pub open spec fn stored_or(
    props: Map<Seq<char>, ValueView>,
    key: Seq<char>,
    fallback: Option<String>,
) -> Option<ValueView> {
    if props.contains_key(key) {
        Some(props[key])
    } else {
        match fallback {
            Some(s) => Some(encode::of_kind(KindView::Text(s@))),
            None => None,
        }
    }
}

/// An optional reference, without the reference.
pub open spec fn referred(s: Option<&String>) -> Option<String> {
    match s {
        Some(s) => Some(*s),
        None => None,
    }
}

fn decode_named<T: for<'a> FromGrpcValue<'a>>(v: &GrpcValue, key: &str) -> (r: Result<
    T,
    RecordDecodeError,
>)
    ensures
        access::field_result::<T>(v@, key@, r),
{
    match T::from_grpc_value(v) {
        Ok(x) => Ok(x),
        Err(inner) => {
            let ghost why = inner@;
            assert(T::refused(v@, why));
            Err(inner.with_field(key))
        },
    }
}

/// Read a synthetic property: the stored one, else the record's metadata.
fn synthetic<T: for<'a> FromGrpcValue<'a>>(
    props: &PropMap<GrpcValue>,
    key: &str,
    fallback: Option<&String>,
) -> (r: Option<Result<T, RecordDecodeError>>)
    ensures
        match stored_or(wire::entries_view(*props), key@, referred(fallback)) {
            Some(v) => r matches Some(out) && access::field_result::<T>(v, key@, out),
            None => r is None,
        },
{
    proof {
        wire::lemma_entries(*props);
    }
    match props.get(key) {
        Some(v) => Some(decode_named(v, key)),
        None => match fallback {
            Some(s) => Some(decode_named(&encode::str_v(s), key)),
            None => None,
        },
    }
}

/// A required synthetic property.
pub fn get_synth<T: for<'a> FromGrpcValue<'a>>(
    props: &PropMap<GrpcValue>,
    key: &str,
    fallback: Option<&String>,
) -> (r: Result<T, RecordDecodeError>)
    ensures
        match stored_or(wire::entries_view(*props), key@, referred(fallback)) {
            Some(v) => access::field_result::<T>(v, key@, r),
            None => access::missing::<T>(key@, r),
        },
{
    match synthetic(props, key, fallback) {
        Some(out) => out,
        None => Err(RecordDecodeError::missing_field(key)),
    }
}

/// A synthetic property with a default for records without that metadata.
pub fn get_synth_or<T: for<'a> FromGrpcValue<'a>, F: FnOnce() -> T>(
    props: &PropMap<GrpcValue>,
    key: &str,
    fallback: Option<&String>,
    def: F,
) -> (r: Result<T, RecordDecodeError>)
    requires
        call_requires(def, ()),
    ensures
        match stored_or(wire::entries_view(*props), key@, referred(fallback)) {
            Some(v) => access::field_result::<T>(v, key@, r),
            None => match r {
                Ok(x) => call_ensures(def, (), x),
                Err(_) => false,
            },
        },
{
    match synthetic(props, key, fallback) {
        Some(out) => out,
        None => Ok(def()),
    }
}

/// An optional synthetic property: a stored null is `None`.
pub fn get_synth_opt<T: for<'a> FromGrpcValue<'a>>(
    props: &PropMap<GrpcValue>,
    key: &str,
    fallback: Option<&String>,
) -> (r: Result<Option<T>, RecordDecodeError>)
    ensures
        match stored_or(wire::entries_view(*props), key@, referred(fallback)) {
            Some(v) => if v.kind is None {
                r == Ok::<Option<T>, RecordDecodeError>(None)
            } else {
                match r {
                    Ok(Some(x)) => access::field_result::<T>(v, key@, Ok(x)),
                    Ok(None) => false,
                    Err(e) => access::field_result::<T>(v, key@, Err(e)),
                }
            },
            None => r == Ok::<Option<T>, RecordDecodeError>(None),
        },
{
    proof {
        wire::lemma_entries(*props);
    }
    if let Some(v) = props.get(key) {
        if v.kind.is_none() {
            return Ok(None);
        }
    }
    match synthetic(props, key, fallback) {
        Some(Ok(x)) => Ok(Some(x)),
        Some(Err(e)) => Err(e),
        None => Ok(None),
    }
}

/// An optional synthetic property with a default for records without that metadata.
pub fn get_synth_opt_or<T: for<'a> FromGrpcValue<'a>, F: FnOnce() -> Option<T>>(
    props: &PropMap<GrpcValue>,
    key: &str,
    fallback: Option<&String>,
    def: F,
) -> (r: Result<Option<T>, RecordDecodeError>)
    requires
        call_requires(def, ()),
    ensures
        match stored_or(wire::entries_view(*props), key@, referred(fallback)) {
            Some(v) => if v.kind is None {
                r == Ok::<Option<T>, RecordDecodeError>(None)
            } else {
                match r {
                    Ok(Some(x)) => access::field_result::<T>(v, key@, Ok(x)),
                    Ok(None) => false,
                    Err(e) => access::field_result::<T>(v, key@, Err(e)),
                }
            },
            None => defaulted(def, r),
        },
{
    proof {
        wire::lemma_entries(*props);
    }
    if props.get(key).is_none() && fallback.is_none() {
        Ok(def())
    } else {
        get_synth_opt(props, key, fallback)
    }
}

// ---------------------------------------------------------------------------
// Optional properties with a default of their own
// ---------------------------------------------------------------------------

/// The default's value is the result.
pub open spec fn defaulted<T, F: FnOnce() -> T>(
    def: F,
    r: Result<T, RecordDecodeError>,
) -> bool {
    r matches Ok(x) && call_ensures(def, (), x)
}

/// Decode an optional property, falling back to `def` when it is absent; null is `None`.
pub fn get_opt_or<'de, T: FromGrpcValue<'de>, F: FnOnce() -> Option<T>>(
    props: &'de PropMap<GrpcValue>,
    taken: &[&str],
    key: &str,
    def: F,
) -> (r: Result<Option<T>, RecordDecodeError>)
    requires
        call_requires(def, ()),
    ensures
        match access::seen(wire::entries_view(*props), key@, text::slices(taken@)) {
            Some(v) => access::field_result::<Option<T>>(v, key@, r),
            None => defaulted(def, r),
        },
{
    match access::visible(props, key, taken) {
        Some(_) => access::get_opt(props, taken, key),
        None => Ok(def()),
    }
}

/// Decode an optional property with a custom conversion, falling back to `def` when it is
/// absent; null is `None`.
pub fn get_opt_with_or<
    T,
    F: Fn(&GrpcValue) -> Result<T, RecordDecodeError>,
    D: FnOnce() -> Option<T>,
>(props: &PropMap<GrpcValue>, taken: &[&str], key: &str, f: F, def: D) -> (r: Result<
    Option<T>,
    RecordDecodeError,
>)
    requires
        forall|v: &GrpcValue| #[trigger] call_requires(f, (v,)),
        call_requires(def, ()),
    ensures
        match access::seen(wire::entries_view(*props), key@, text::slices(taken@)) {
            Some(v) => if v.kind is None {
                r == Ok::<Option<T>, RecordDecodeError>(None)
            } else {
                match r {
                    Ok(Some(x)) => call_ensures(f, (&props@[key@],), Ok(x)),
                    Ok(None) => false,
                    Err(e) => access::custom_failure::<T, F>(f, props@[key@], key@, e@),
                }
            },
            None => defaulted(def, r),
        },
{
    match access::visible(props, key, taken) {
        Some(_) => access::get_opt_with(props, taken, key, f),
        None => Ok(def()),
    }
}

/// Decode an optional byte blob, falling back to `def` when it is absent; null is `None`.
pub fn get_opt_bytes_or<D: FnOnce() -> Option<Vec<u8>>>(
    props: &PropMap<GrpcValue>,
    taken: &[&str],
    key: &str,
    def: D,
) -> (r: Result<Option<Vec<u8>>, RecordDecodeError>)
    requires
        call_requires(def, ()),
    ensures
        match access::seen(wire::entries_view(*props), key@, text::slices(taken@)) {
            Some(v) => if v.kind is None {
                r == Ok::<Option<Vec<u8>>, RecordDecodeError>(None)
            } else {
                match r {
                    Ok(Some(b)) => convert::blob_form(v.kind) == Some(b@),
                    Ok(None) => false,
                    Err(e) => convert::blob_form(v.kind) is None && access::blob_refused_under(
                        v,
                        key@,
                        e@,
                    ),
                }
            },
            None => defaulted(def, r),
        },
{
    match access::visible(props, key, taken) {
        Some(_) => access::get_opt_bytes(props, taken, key),
        None => Ok(def()),
    }
}

// ---------------------------------------------------------------------------
// Metadata
// ---------------------------------------------------------------------------

/// A text of a record's metadata; an empty one is none.
pub open spec fn non_empty(s: String) -> Option<String> {
    if s@.len() == 0 {
        None
    } else {
        Some(s)
    }
}

/// The record's rid, for `@rid` fields; an empty one is none.
pub fn rid_of(rec: &GrpcRecord) -> (r: Option<&String>)
    ensures
        referred(r) == non_empty(rec.rid),
{
    if rec.rid.as_str().is_empty() {
        None
    } else {
        Some(&rec.rid)
    }
}

/// The record's type, for `@type` fields; an empty one is none.
pub fn class_of(rec: &GrpcRecord) -> (r: Option<&String>)
    ensures
        referred(r) == non_empty(rec.class),
{
    if rec.class.as_str().is_empty() {
        None
    } else {
        Some(&rec.class)
    }
}

// ---------------------------------------------------------------------------
// Flattened fields
// ---------------------------------------------------------------------------

/// The names hidden from a flattened child: those hidden from its parent, then the parent's
/// own columns.
pub fn child_taken<'a>(taken: &[&'a str], own: &[&'a str]) -> (r: Vec<&'a str>)
    ensures
        text::slices(r@) == text::slices(taken@) + text::slices(own@),
{
    let mut out: Vec<&'a str> = Vec::new();
    for i in 0..taken.len()
        invariant
            out@ == taken@.take(i as int),
    {
        out.push(taken[i]);
        assert(taken@.take(i + 1) =~= taken@.take(i as int).push(taken@[i as int]));
    }
    assert(out@ =~= taken@);
    for i in 0..own.len()
        invariant
            out@ == taken@ + own@.take(i as int),
    {
        out.push(own[i]);
        assert(own@.take(i + 1) =~= own@.take(i as int).push(own@[i as int]));
    }
    assert(out@ =~= taken@ + own@);
    assert(text::slices(out@) =~= text::slices(taken@) + text::slices(own@));
    out
}

/// Some property is not hidden.
pub open spec fn some_visible(props: Map<Seq<char>, ValueView>, taken: Seq<Seq<char>>) -> bool {
    exists|k: Seq<char>| #[trigger] props.contains_key(k) && !taken.contains(k)
}

/// Whether some property is not hidden: an optional flattened field decodes only then.
pub fn any_visible(props: &PropMap<GrpcValue>, taken: &[&str]) -> (r: bool)
    ensures
        r == some_visible(wire::entries_view(*props), text::slices(taken@)),
{
    proof {
        wire::lemma_entries(*props);
    }
    let keys = props.keys();
    for i in 0..keys.len()
        invariant
            forall|j: int|
                0 <= j < i ==> text::slices(taken@).contains((#[trigger] keys@[j])@),
            forall|k: Seq<char>|
                wire::entries_view(*props).contains_key(k) <==> text::texts(keys@).contains(k),
    {
        if !text::slice_holds(taken, keys[i].as_str()) {
            assert(text::texts(keys@)[i as int] == keys@[i as int]@);
            assert(wire::entries_view(*props).contains_key(keys@[i as int]@));
            return true;
        }
    }
    assert forall|k: Seq<char>| #[trigger]
        wire::entries_view(*props).contains_key(k) implies text::slices(taken@).contains(k) by {
        let j = choose|j: int| 0 <= j < keys@.len() && text::texts(keys@)[j] == k;
        assert(keys@[j]@ == k);
    }
    false
}

/// Decode a flattened field from what is visible to it, a failure raised under its name.
pub fn decode_rest<'de, T: DecodeFromMap<'de>>(
    props: &'de PropMap<GrpcValue>,
    taken: &[&str],
    field: &str,
) -> (r: Result<T, RecordDecodeError>)
    ensures
        match r {
            Ok(x) => call_ensures(T::from_map, (props, taken, None, None), Ok(x)),
            Err(e) => exists|inner: RecordDecodeError| #[trigger]
                call_ensures(T::from_map, (props, taken, None, None), Err(inner)) && e@
                    == record::in_field(inner@, field@),
        },
{
    match T::from_map(props, taken, None, None) {
        Ok(x) => Ok(x),
        Err(inner) => {
            let ghost kept = inner;
            assert(call_ensures(
                T::from_map,
                (props, taken, None, None),
                Err::<T, RecordDecodeError>(kept),
            ));
            Err(inner.with_field(field))
        },
    }
}

// ---------------------------------------------------------------------------
// Embedded records and enums
// ---------------------------------------------------------------------------

/// The fields of an embedded record or a map.
pub open spec fn fields_of(kind: Option<KindView>) -> Option<Map<Seq<char>, ValueView>> {
    match kind {
        Some(KindView::Embedded(_, fields)) => Some(fields),
        Some(KindView::Entries(entries)) => Some(entries),
        _ => None,
    }
}

/// The properties of an embedded record or a map; `expected` names the target in the error.
pub fn record_fields<'a>(v: &'a GrpcValue, expected: &'static str) -> (r: Result<
    &'a PropMap<GrpcValue>,
    RecordDecodeError,
>)
    ensures
        match r {
            Ok(m) => fields_of(v@.kind) == Some(wire::entries_view(*m)),
            Err(e) => fields_of(v@.kind) is None && e@ == convert::wrong_kind(v@, expected@),
        },
{
    match &v.kind {
        Some(Kind::EmbeddedValue(e)) => Ok(&e.fields),
        Some(Kind::MapValue(m)) => Ok(&m.entries),
        _ => Err(RecordDecodeError::type_mismatch(expected, record::kind_name(&v.kind))),
    }
}

/// The text of a string value: the wire name of a variant.
pub fn variant_text(v: &GrpcValue) -> (r: Result<&str, RecordDecodeError>)
    ensures
        match r {
            Ok(s) => v@.kind == Some(KindView::Text(s@)),
            Err(e) => !(v@.kind matches Some(KindView::Text(_))) && e@ == convert::wrong_kind(
                v@,
                "string"@,
            ),
        },
{
    match &v.kind {
        Some(Kind::StringValue(s)) => Ok(s.as_str()),
        _ => Err(RecordDecodeError::type_mismatch("string", record::kind_name(&v.kind))),
    }
}

/// The discriminator of an internally tagged enum. A missing one is a missing property, and a
/// kind other than a string is a mismatch.
pub fn variant_tag<'a>(props: &'a PropMap<GrpcValue>, tag: &str, taken: &[&str]) -> (r: Result<
    &'a str,
    RecordDecodeError,
>)
    ensures
        match access::seen(wire::entries_view(*props), tag@, text::slices(taken@)) {
            None => r matches Err(e) && e@ == ErrorView::MissingField(tag@),
            Some(v) => match r {
                Ok(s) => v.kind == Some(KindView::Text(s@)),
                Err(e) => !(v.kind matches Some(KindView::Text(_))) && e@ == convert::wrong_kind(
                    v,
                    "string"@,
                ),
            },
        },
{
    match access::visible(props, tag, taken) {
        Some(v) => variant_text(v),
        None => Err(RecordDecodeError::missing_field(tag)),
    }
}

// ---------------------------------------------------------------------------
// Laws
// ---------------------------------------------------------------------------

/// A flattened child sees what its parent sees without the parent's own columns, and a child
/// of that child likewise.
pub proof fn law_flattened_children_see_the_rest(
    props: Map<Seq<char>, ValueView>,
    taken: Seq<Seq<char>>,
    own: Seq<Seq<char>>,
    key: Seq<char>,
)
    ensures
        access::seen(props, key, taken + own) == (if own.contains(key) {
            None
        } else {
            access::seen(props, key, taken)
        }),
        access::untaken(props, taken + own) == access::untaken(access::untaken(props, taken), own),
{
    access::law_hidden_names_add_up(props, taken, own);
    access::law_hiding_is_removing(props, key, taken + own);
    access::law_hiding_is_removing(props, key, taken);
    let rest = access::untaken(access::untaken(props, taken), own);
    assert(access::untaken(props, taken + own).contains_key(key) == rest.contains_key(key));
}

/// A stored column hides what stands in for it; what stands in is a text, and nothing does
/// where there is none.
pub proof fn law_stored_columns_come_first(
    props: Map<Seq<char>, ValueView>,
    key: Seq<char>,
    fallback: Option<String>,
)
    ensures
        props.contains_key(key) ==> stored_or(props, key, fallback) == Some(props[key]),
        !props.contains_key(key) && fallback is None ==> stored_or(props, key, fallback) is None,
        !props.contains_key(key) ==> (fallback matches Some(s) ==> (stored_or(
            props,
            key,
            fallback,
        ) matches Some(v) && v.kind == Some(KindView::Text(s@)) && v.logical_type.len() == 0)),
{
}

/// A record's own rid or type stands in only where it is not empty.
pub proof fn law_empty_texts_stand_in_for_nothing(s: String)
    ensures
        s@.len() == 0 ==> non_empty(s) is None,
        s@.len() > 0 ==> non_empty(s) == Some(s),
{
}

/// An embedded record and a map have fields, and nothing else has.
pub proof fn law_records_and_maps_have_fields(kind: Option<KindView>)
    ensures
        kind matches Some(KindView::Embedded(_, m)) ==> fields_of(kind) == Some(m),
        kind matches Some(KindView::Entries(m)) ==> fields_of(kind) == Some(m),
        !(kind matches Some(KindView::Embedded(_, _))) && !(kind matches Some(KindView::Entries(_)))
            ==> fields_of(kind) is None,
{
}

/// Something is visible exactly when a column's name is not taken.
pub proof fn law_untaken_columns_are_visible(
    props: Map<Seq<char>, ValueView>,
    taken: Seq<Seq<char>>,
)
    ensures
        some_visible(props, taken) <==> exists|k: Seq<char>| #[trigger]
            access::untaken(props, taken).contains_key(k),
{
    if some_visible(props, taken) {
        let k = choose|k: Seq<char>| #[trigger] props.contains_key(k) && !taken.contains(k);
        assert(access::untaken(props, taken).contains_key(k));
    }
    if exists|k: Seq<char>| #[trigger] access::untaken(props, taken).contains_key(k) {
        let k = choose|k: Seq<char>| #[trigger] access::untaken(props, taken).contains_key(k);
        assert(props.contains_key(k));
    }
}

/// A missing column with a default is what the default gives.
pub proof fn law_defaults_stand_in<T, F: FnOnce() -> T>(def: F, r: Result<T, RecordDecodeError>)
    requires
        defaulted(def, r),
    ensures
        r is Ok,
        call_ensures(def, (), r->Ok_0),
{
}

/// A reference stands for what it refers to.
pub proof fn law_references_stand_for_what_they_refer_to(s: &String)
    ensures
        referred(Some(s)) == Some(*s),
        referred(None) is None,
{
}

} // verus!
