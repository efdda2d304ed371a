//! Property getters: required, optional and defaulted access, custom conversions and blobs.

use vstd::prelude::*;
use crate::encode;
use crate::props::PropMap;
use crate::record;
use crate::record::convert;
use crate::record::convert::FromGrpcValue;
use crate::record::{ErrorView, RecordDecodeError};
use crate::text;
use crate::wire;
use crate::wire::{GrpcEmbedded, GrpcRecord, GrpcValue, Kind, KindView, ValueView};

verus! {

// ---------------------------------------------------------------------------
// Models
// ---------------------------------------------------------------------------

/// The value of `key`, unless it is among the `taken` names.
pub open spec fn seen(
    props: Map<Seq<char>, ValueView>,
    key: Seq<char>,
    taken: Seq<Seq<char>>,
) -> Option<ValueView> {
    if taken.contains(key) || !props.contains_key(key) {
        None
    } else {
        Some(props[key])
    }
}

/// `e` is a failure to convert `v`, raised under the property `key`.
pub open spec fn refused_under<'de, T: FromGrpcValue<'de>>(
    v: ValueView,
    key: Seq<char>,
    e: ErrorView,
) -> bool {
    exists|inner: ErrorView| #[trigger] T::refused(v, inner) && e == record::in_field(inner, key)
}

/// `r` is what decoding the value `v` of the property `key` gives.
pub open spec fn field_result<'de, T: FromGrpcValue<'de>>(
    v: ValueView,
    key: Seq<char>,
    r: Result<T, RecordDecodeError>,
) -> bool {
    match r {
        Ok(x) => T::decodable(v) && T::decoded(v, x),
        Err(e) => !T::decodable(v) && refused_under::<T>(v, key, e@),
    }
}

/// `r` is the failure for a missing property `key`.
pub open spec fn missing<T>(key: Seq<char>, r: Result<T, RecordDecodeError>) -> bool {
    match r {
        Ok(_) => false,
        Err(e) => e@ == ErrorView::MissingField(key),
    }
}

/// `r` is what the conversion `f` of `value` gives, its failure raised under `key`.
pub open spec fn custom_result<T, F: Fn(&GrpcValue) -> Result<T, RecordDecodeError>>(
    f: F,
    value: GrpcValue,
    key: Seq<char>,
    r: Result<T, RecordDecodeError>,
) -> bool {
    match r {
        Ok(x) => call_ensures(f, (&value,), Ok(x)),
        Err(e) => custom_failure::<T, F>(f, value, key, e@),
    }
}

/// The conversion `f` of `value` fails, and `e` is that failure under `key`.
pub open spec fn custom_failure<T, F: Fn(&GrpcValue) -> Result<T, RecordDecodeError>>(
    f: F,
    value: GrpcValue,
    key: Seq<char>,
    e: ErrorView,
) -> bool {
    exists|inner: RecordDecodeError| #[trigger]
        call_ensures(f, (&value,), Err(inner)) && e == record::in_field(inner@, key)
}

/// `r` is what decoding the blob `v` of the property `key` gives.
pub open spec fn blob_result(
    v: ValueView,
    key: Seq<char>,
    r: Result<Vec<u8>, RecordDecodeError>,
) -> bool {
    match r {
        Ok(b) => convert::blob_form(v.kind) == Some(b@),
        Err(e) => convert::blob_form(v.kind) is None && blob_refused_under(v, key, e@),
    }
}

/// `e` is why `v` is no blob, raised under the property `key`.
pub open spec fn blob_refused_under(v: ValueView, key: Seq<char>, e: ErrorView) -> bool {
    exists|inner: ErrorView| #[trigger]
        convert::blob_refused(v, inner) && e == record::in_field(inner, key)
}

/// The properties without the `taken` names.
pub open spec fn untaken(
    props: Map<Seq<char>, ValueView>,
    taken: Seq<Seq<char>>,
) -> Map<Seq<char>, ValueView> {
    Map::new(
        |k: Seq<char>| props.contains_key(k) && !taken.contains(k),
        |k: Seq<char>| props[k],
    )
}

// ---------------------------------------------------------------------------
// Getters
// ---------------------------------------------------------------------------

/// The value for `key`, unless a parent scope already consumed the name.
pub fn visible<'a>(props: &'a PropMap<GrpcValue>, key: &str, taken: &[&str]) -> (r: Option<
    &'a GrpcValue,
>)
    ensures
        match r {
            Some(v) => seen(wire::entries_view(*props), key@, text::slices(taken@)) == Some(v@)
                && props@.contains_key(key@) && *v == props@[key@],
            None => seen(wire::entries_view(*props), key@, text::slices(taken@)) is None,
        },
{
    proof {
        wire::lemma_entries(*props);
    }
    if text::slice_holds(taken, key) {
        None
    } else {
        props.get(key)
    }
}

/// Decode a required property; an absent one is a missing-field error.
pub fn get<'de, T: FromGrpcValue<'de>>(
    props: &'de PropMap<GrpcValue>,
    taken: &[&str],
    key: &str,
) -> (r: Result<T, RecordDecodeError>)
    ensures
        match seen(wire::entries_view(*props), key@, text::slices(taken@)) {
            Some(v) => field_result::<T>(v, key@, r),
            None => missing::<T>(key@, r),
        },
{
    match visible(props, key, taken) {
        Some(v) => decode_under(v, key),
        None => Err(RecordDecodeError::missing_field(key)),
    }
}

/// Decode a value, raising a failure under the property `key`.
fn decode_under<'de, T: FromGrpcValue<'de>>(v: &'de GrpcValue, key: &str) -> (r: Result<
    T,
    RecordDecodeError,
>)
    ensures
        field_result::<T>(v@, key@, r),
{
    match T::from_grpc_value(v) {
        Ok(x) => Ok(x),
        Err(inner) => {
            let ghost why = inner@;
            assert(T::refused(v@, why));
            Err(inner.with_field(key))
        },
    }
}

/// Decode an optional property: absent or null is `None`.
pub fn get_opt<'de, T: FromGrpcValue<'de>>(
    props: &'de PropMap<GrpcValue>,
    taken: &[&str],
    key: &str,
) -> (r: Result<Option<T>, RecordDecodeError>)
    ensures
        match seen(wire::entries_view(*props), key@, text::slices(taken@)) {
            Some(v) => field_result::<Option<T>>(v, key@, r),
            None => r == Ok::<Option<T>, RecordDecodeError>(None),
        },
{
    match visible(props, key, taken) {
        Some(v) => decode_under(v, key),
        None => Ok(None),
    }
}

/// Decode a property, falling back to `def` when it is absent.
pub fn get_or<'de, T: FromGrpcValue<'de>, F: FnOnce() -> T>(
    props: &'de PropMap<GrpcValue>,
    taken: &[&str],
    key: &str,
    def: F,
) -> (r: Result<T, RecordDecodeError>)
    requires
        call_requires(def, ()),
    ensures
        match seen(wire::entries_view(*props), key@, text::slices(taken@)) {
            Some(v) => field_result::<T>(v, key@, r),
            None => match r {
                Ok(x) => call_ensures(def, (), x),
                Err(_) => false,
            },
        },
{
    match visible(props, key, taken) {
        Some(v) => decode_under(v, key),
        None => Ok(def()),
    }
}

/// Convert a value with `f`, raising a failure under the property `key`.
fn convert_under<T, F: Fn(&GrpcValue) -> Result<T, RecordDecodeError>>(
    v: &GrpcValue,
    key: &str,
    f: F,
) -> (r: Result<T, RecordDecodeError>)
    requires
        call_requires(f, (v,)),
    ensures
        custom_result::<T, F>(f, *v, key@, r),
{
    match f(v) {
        Ok(x) => Ok(x),
        Err(inner) => {
            let ghost kept = inner;
            assert(call_ensures(f, (v,), Err(kept)));
            Err(inner.with_field(key))
        },
    }
}

/// Decode a required property with a custom conversion.
pub fn get_with<T, F: Fn(&GrpcValue) -> Result<T, RecordDecodeError>>(
    props: &PropMap<GrpcValue>,
    taken: &[&str],
    key: &str,
    f: F,
) -> (r: Result<T, RecordDecodeError>)
    requires
        forall|v: &GrpcValue| #[trigger] call_requires(f, (v,)),
    ensures
        match seen(wire::entries_view(*props), key@, text::slices(taken@)) {
            Some(_) => custom_result::<T, F>(f, props@[key@], key@, r),
            None => missing::<T>(key@, r),
        },
{
    match visible(props, key, taken) {
        Some(v) => convert_under(v, key, f),
        None => Err(RecordDecodeError::missing_field(key)),
    }
}

/// Decode a property with a custom conversion, falling back to `def` when it is absent.
pub fn get_with_or<T, F: Fn(&GrpcValue) -> Result<T, RecordDecodeError>, D: FnOnce() -> T>(
    props: &PropMap<GrpcValue>,
    taken: &[&str],
    key: &str,
    f: F,
    def: D,
) -> (r: Result<T, RecordDecodeError>)
    requires
        forall|v: &GrpcValue| #[trigger] call_requires(f, (v,)),
        call_requires(def, ()),
    ensures
        match seen(wire::entries_view(*props), key@, text::slices(taken@)) {
            Some(_) => custom_result::<T, F>(f, props@[key@], key@, r),
            None => match r {
                Ok(x) => call_ensures(def, (), x),
                Err(_) => false,
            },
        },
{
    match visible(props, key, taken) {
        Some(v) => convert_under(v, key, f),
        None => Ok(def()),
    }
}

/// Decode an optional property with a custom conversion: absent or null is `None`.
pub fn get_opt_with<T, F: Fn(&GrpcValue) -> Result<T, RecordDecodeError>>(
    props: &PropMap<GrpcValue>,
    taken: &[&str],
    key: &str,
    f: F,
) -> (r: Result<Option<T>, RecordDecodeError>)
    requires
        forall|v: &GrpcValue| #[trigger] call_requires(f, (v,)),
    ensures
        match seen(wire::entries_view(*props), key@, text::slices(taken@)) {
            Some(v) => if v.kind is None {
                r == Ok::<Option<T>, RecordDecodeError>(None)
            } else {
                match r {
                    Ok(Some(x)) => call_ensures(f, (&props@[key@],), Ok(x)),
                    Ok(None) => false,
                    Err(e) => custom_failure::<T, F>(f, props@[key@], key@, e@),
                }
            },
            None => r == Ok::<Option<T>, RecordDecodeError>(None),
        },
{
    match visible(props, key, taken) {
        Some(v) => match &v.kind {
            None => Ok(None),
            Some(_) => match convert_under(v, key, f) {
                Ok(x) => Ok(Some(x)),
                Err(e) => Err(e),
            },
        },
        None => Ok(None),
    }
}

fn blob_under(v: &GrpcValue, key: &str) -> (r: Result<Vec<u8>, RecordDecodeError>)
    ensures
        blob_result(v@, key@, r),
{
    match convert::decode_bytes(v) {
        Ok(b) => Ok(b),
        Err(inner) => {
            let ghost why = inner@;
            assert(convert::blob_refused(v@, why));
            Err(inner.with_field(key))
        },
    }
}

/// Decode a required byte blob.
pub fn get_bytes(props: &PropMap<GrpcValue>, taken: &[&str], key: &str) -> (r: Result<
    Vec<u8>,
    RecordDecodeError,
>)
    ensures
        match seen(wire::entries_view(*props), key@, text::slices(taken@)) {
            Some(v) => blob_result(v, key@, r),
            None => missing::<Vec<u8>>(key@, r),
        },
{
    match visible(props, key, taken) {
        Some(v) => blob_under(v, key),
        None => Err(RecordDecodeError::missing_field(key)),
    }
}

/// Decode an optional byte blob: absent or null is `None`.
pub fn get_opt_bytes(props: &PropMap<GrpcValue>, taken: &[&str], key: &str) -> (r: Result<
    Option<Vec<u8>>,
    RecordDecodeError,
>)
    ensures
        match seen(wire::entries_view(*props), key@, text::slices(taken@)) {
            Some(v) => if v.kind is None {
                r == Ok::<Option<Vec<u8>>, RecordDecodeError>(None)
            } else {
                match r {
                    Ok(Some(b)) => convert::blob_form(v.kind) == Some(b@),
                    Ok(None) => false,
                    Err(e) => convert::blob_form(v.kind) is None && blob_refused_under(v, key@, e@),
                }
            },
            None => r == Ok::<Option<Vec<u8>>, RecordDecodeError>(None),
        },
{
    match visible(props, key, taken) {
        Some(v) => match &v.kind {
            None => Ok(None),
            Some(_) => match blob_under(v, key) {
                Ok(b) => Ok(Some(b)),
                Err(e) => Err(e),
            },
        },
        None => Ok(None),
    }
}

/// Decode a byte blob, falling back to `def` when it is absent.
pub fn get_bytes_or<D: FnOnce() -> Vec<u8>>(
    props: &PropMap<GrpcValue>,
    taken: &[&str],
    key: &str,
    def: D,
) -> (r: Result<Vec<u8>, RecordDecodeError>)
    requires
        call_requires(def, ()),
    ensures
        match seen(wire::entries_view(*props), key@, text::slices(taken@)) {
            Some(v) => blob_result(v, key@, r),
            None => match r {
                Ok(b) => call_ensures(def, (), b),
                Err(_) => false,
            },
        },
{
    match visible(props, key, taken) {
        Some(v) => blob_under(v, key),
        None => Ok(def()),
    }
}

impl GrpcRecord {
    /// Decode one required property; borrowed targets borrow from this record.
    pub fn get<'a, T: FromGrpcValue<'a>>(&'a self, key: &str) -> (r: Result<T, RecordDecodeError>)
        ensures
            match seen(self@.properties, key@, Seq::empty()) {
                Some(v) => field_result::<T>(v, key@, r),
                None => missing::<T>(key@, r),
            },
    {
        let none: [&str; 0] = [];
        assert(text::slices(none@) =~= Seq::empty());
        get(&self.properties, &none, key)
    }

    /// Decode one optional property: absent or null is `None`.
    pub fn get_opt<'a, T: FromGrpcValue<'a>>(&'a self, key: &str) -> (r: Result<
        Option<T>,
        RecordDecodeError,
    >)
        ensures
            match seen(self@.properties, key@, Seq::empty()) {
                Some(v) => field_result::<Option<T>>(v, key@, r),
                None => r == Ok::<Option<T>, RecordDecodeError>(None),
            },
    {
        let none: [&str; 0] = [];
        assert(text::slices(none@) =~= Seq::empty());
        get_opt(&self.properties, &none, key)
    }

    /// Decode one property, with a default for the absent case.
    pub fn get_or<'a, T: FromGrpcValue<'a>>(&'a self, key: &str, default: T) -> (r: Result<
        T,
        RecordDecodeError,
    >)
        ensures
            match seen(self@.properties, key@, Seq::empty()) {
                Some(v) => field_result::<T>(v, key@, r),
                None => r == Ok::<T, RecordDecodeError>(default),
            },
    {
        let none: [&str; 0] = [];
        assert(text::slices(none@) =~= Seq::empty());
        match visible(&self.properties, key, &none) {
            Some(v) => decode_under(v, key),
            None => Ok(default),
        }
    }
}

// ---------------------------------------------------------------------------
// Decoding from a property map
// ---------------------------------------------------------------------------

/// Decode straight from a property map, with the names in `taken` hidden: the parent scope of
/// a flattened field consumed them. The last two arguments feed the `@rid` and `@type`
/// fallbacks.
pub trait DecodeFromMap<'de>: Sized {
    fn from_map(
        props: &'de PropMap<GrpcValue>,
        taken: &[&str],
        syn_rid: Option<&'de String>,
        syn_type: Option<&'de String>,
    ) -> (r: Result<Self, RecordDecodeError>);
}

/// The untaken properties as one embedded value without a type.
pub open spec fn rest_value(
    props: Map<Seq<char>, ValueView>,
    taken: Seq<Seq<char>>,
) -> ValueView {
    encode::of_kind(KindView::Embedded(Seq::empty(), untaken(props, taken)))
}

/// A copy of the properties that are not taken.
pub fn copy_untaken(props: &PropMap<GrpcValue>, taken: &[&str]) -> (r: PropMap<GrpcValue>)
    ensures
        wire::entries_view(r) == untaken(wire::entries_view(*props), text::slices(taken@)),
{
    let mut out: PropMap<GrpcValue> = PropMap::new();
    let n = props.len();
    let ghost all = props.pairs();
    let ghost hidden = text::slices(taken@);
    proof {
        encode::lemma_empty_says(out);
        assert(wire::pairs_view(all.take(0)) =~= Map::empty());
        assert(untaken(wire::pairs_view(all.take(0)), hidden) =~= Map::empty());
    }
    for i in 0..n
        invariant
            n == all.len(),
            all == props.pairs(),
            hidden == text::slices(taken@),
            wire::entries_view(out) == untaken(wire::pairs_view(all.take(i as int)), hidden),
    {
        let (k, v) = props.entry(i);
        let ghost before = out;
        let ghost so_far = wire::pairs_view(all.take(i as int));
        assert(all.take(i + 1).drop_last() =~= all.take(i as int));
        assert(wire::pairs_view(all.take(i + 1)) == so_far.insert(k@, v@));
        if text::slice_holds(taken, k.as_str()) {
            assert(untaken(so_far.insert(k@, v@), hidden) =~= untaken(so_far, hidden));
        } else {
            let w = v.clone();
            out.insert(k.clone(), w);
            proof {
                encode::lemma_insert_says(before, out, k@, w);
                assert(untaken(so_far.insert(k@, v@), hidden) =~= untaken(so_far, hidden).insert(
                    k@,
                    v@,
                ));
            }
        }
    }
    assert(all.take(n as int) =~= all);
    out
}

/// Decode the untaken properties through [`FromGrpcValue`], as one embedded value. For types
/// that implement only that trait; the rest is copied.
pub fn from_map_via_value<T: for<'a> FromGrpcValue<'a>>(
    props: &PropMap<GrpcValue>,
    taken: &[&str],
) -> (r: Result<T, RecordDecodeError>)
    ensures
        match r {
            Ok(x) => T::decodable(rest_value(wire::entries_view(*props), text::slices(taken@)))
                && T::decoded(rest_value(wire::entries_view(*props), text::slices(taken@)), x),
            Err(e) => !T::decodable(rest_value(wire::entries_view(*props), text::slices(taken@)))
                && T::refused(rest_value(wire::entries_view(*props), text::slices(taken@)), e@),
        },
{
    let fields = copy_untaken(props, taken);
    let rest = GrpcValue {
        kind: Some(Kind::EmbeddedValue(GrpcEmbedded { class: String::new(), fields })),
        logical_type: String::new(),
    };
    T::from_grpc_value(&rest)
}

// ---------------------------------------------------------------------------
// Laws
// ---------------------------------------------------------------------------

/// A taken name is invisible, and other names are seen as they are stored.
pub proof fn law_taken_names_are_invisible(
    props: Map<Seq<char>, ValueView>,
    key: Seq<char>,
    taken: Seq<Seq<char>>,
)
    ensures
        taken.contains(key) ==> seen(props, key, taken) is None,
        !taken.contains(key) ==> seen(props, key, taken) == seen(props, key, Seq::empty()),
{
}

/// Hiding names from a getter is the same as removing them from the properties.
pub proof fn law_hiding_is_removing(
    props: Map<Seq<char>, ValueView>,
    key: Seq<char>,
    taken: Seq<Seq<char>>,
)
    ensures
        seen(props, key, taken) == seen(untaken(props, taken), key, Seq::empty()),
{
}

/// Hiding two lists of names one after the other hides their concatenation.
pub proof fn law_hidden_names_add_up(
    props: Map<Seq<char>, ValueView>,
    outer: Seq<Seq<char>>,
    inner: Seq<Seq<char>>,
)
    ensures
        untaken(untaken(props, outer), inner) == untaken(props, outer + inner),
{
    assert forall|k: Seq<char>| (outer + inner).contains(k) == (outer.contains(k)
        || inner.contains(k)) by {
        if outer.contains(k) {
            let i = choose|i: int| 0 <= i < outer.len() && outer[i] == k;
            assert((outer + inner)[i] == k);
        }
        if inner.contains(k) {
            let i = choose|i: int| 0 <= i < inner.len() && inner[i] == k;
            assert((outer + inner)[outer.len() + i] == k);
        }
    }
    assert(untaken(untaken(props, outer), inner) =~= untaken(props, outer + inner));
}

/// A column is seen exactly when the record has it and its name is not taken, and then with
/// its own value.
pub proof fn law_columns_are_seen_unless_taken(
    props: Map<Seq<char>, ValueView>,
    key: Seq<char>,
    taken: Seq<Seq<char>>,
)
    ensures
        seen(props, key, taken) is Some <==> props.contains_key(key) && !taken.contains(key),
        seen(props, key, taken) matches Some(v) ==> v == props[key],
{
}

/// A read of a column gives what its type reads of the value, or the type's error with the
/// column's name in front.
pub proof fn law_reads_give_what_the_type_reads<'de, T: FromGrpcValue<'de>>(
    v: ValueView,
    key: Seq<char>,
    r: Result<T, RecordDecodeError>,
)
    requires
        field_result::<T>(v, key, r),
    ensures
        r is Ok <==> T::decodable(v),
        r matches Ok(x) ==> T::decoded(v, x),
        r matches Err(e) ==> exists|inner: ErrorView| #[trigger]
            T::refused(v, inner) && e@ == record::in_field(inner, key),
{
}

/// A missing column is an error that names it, and nothing else is.
pub proof fn law_missing_columns_are_named<T>(key: Seq<char>, r: Result<T, RecordDecodeError>)
    requires
        missing::<T>(key, r),
    ensures
        r is Err,
        r->Err_0@ == ErrorView::MissingField(key),
{
}

/// What the taken names leave is the other columns with their values; they are handed on as an
/// embedded record without a type.
pub proof fn law_the_rest_is_every_other_column(
    props: Map<Seq<char>, ValueView>,
    taken: Seq<Seq<char>>,
    k: Seq<char>,
)
    ensures
        untaken(props, taken).contains_key(k) <==> props.contains_key(k) && !taken.contains(k),
        untaken(props, taken).contains_key(k) ==> untaken(props, taken)[k] == props[k],
        rest_value(props, taken).kind == Some(
            KindView::Embedded(Seq::empty(), untaken(props, taken)),
        ),
{
}

/// A read of a blob gives the bytes that the value holds, or an error with the column's name
/// in front.
pub proof fn law_blob_reads_give_the_bytes(
    v: ValueView,
    key: Seq<char>,
    r: Result<Vec<u8>, RecordDecodeError>,
)
    requires
        blob_result(v, key, r),
    ensures
        r is Ok <==> convert::blob_form(v.kind) is Some,
        r matches Ok(b) ==> convert::blob_form(v.kind) == Some(b@),
        r matches Err(e) ==> exists|inner: ErrorView| #[trigger]
            convert::blob_refused(v, inner) && e@ == record::in_field(inner, key),
{
}

/// A read through a converter gives what the converter gives of the value, or its error with
/// the column's name in front.
pub proof fn law_converters_decide<T, F: Fn(&GrpcValue) -> Result<T, RecordDecodeError>>(
    f: F,
    value: GrpcValue,
    key: Seq<char>,
    r: Result<T, RecordDecodeError>,
)
    requires
        custom_result(f, value, key, r),
    ensures
        r matches Ok(x) ==> call_ensures(f, (&value,), Ok(x)),
        r matches Err(e) ==> exists|inner: RecordDecodeError| #[trigger]
            call_ensures(f, (&value,), Err(inner)) && e@ == record::in_field(inner@, key),
{
}

} // verus!
