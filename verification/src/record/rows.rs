//! Encoding typed rows, and the difference between two snapshots of a row.

use vstd::prelude::*;
use crate::encode;
use crate::record::access;
use crate::props::PropMap;
use crate::text;
use crate::wire;
use crate::wire::{GrpcMap, GrpcRecord, GrpcValue, Kind, KindView, ValueView};

verus! {

/// Encode a typed row into a wire record.
///
/// The provided methods build on [`props`](Self::props). Override
/// [`to_grpc_value`](Self::to_grpc_value) when the nested form is not a map.
pub trait ToGrpcRecord {
    /// The bulk-conflict identity: the wire names of the key fields. Rows without a key, and
    /// values that are no rows, have none.
    const KEY_COLUMNS: &'static [&'static str];

    /// The named values of the row, in order; left open for a row in ordinary Rust.
    open spec fn columns(&self) -> Seq<(Seq<char>, ValueView)> {
        arbitrary()
    }

    /// The named values of the row; fields that are not written are absent.
    fn props(&self) -> (r: Vec<(&str, GrpcValue)>)
        ensures
            encode::pair_views(r@) == self.columns(),
    ;

    /// The whole record, of type `class`.
    fn to_grpc_record(&self, class: &str) -> (r: GrpcRecord)
        ensures
            r@ == encode::record_of(class@, self.columns()),
    {
        record_from(class, self.props())
    }

    /// The row as a nested value: by default a map of its named values.
    fn to_grpc_value(&self) -> (v: GrpcValue)
        default_ensures
            v@ == encode::of_kind(KindView::Entries(encode::named(self.columns()))),
    {
        map_from(self.props())
    }

    /// The named values as a map for parameter binding.
    fn to_param_map(&self) -> (m: PropMap<GrpcValue>)
        ensures
            wire::entries_view(m) == encode::named(self.columns()),
    {
        encode::collect_named(self.props())
    }

    /// The names of the columns that differ between two snapshots, `self` being the old one. A
    /// column that the new one leaves out is never reported.
    fn changed_wires(&self, other: &Self) -> (r: Vec<String>)
        ensures
            forall|i: int|
                0 <= i < r@.len() ==> names_of(other.columns()).contains((#[trigger] r@[i])@),
        default_ensures
            text::texts(r@) == names_of(diff(self.columns(), other.columns())),
    {
        changed_names(self.props(), other.props())
    }

    /// The record by value; the same record as the borrowing form gives.
    fn into_grpc_record(self, class: &str) -> (r: GrpcRecord) where Self: Sized
        ensures
            r@ == encode::record_of(class@, self.columns()),
    {
        self.to_grpc_record(class)
    }
}

fn record_from(class: &str, props: Vec<(&str, GrpcValue)>) -> (r: GrpcRecord)
    ensures
        r@ == encode::record_of(class@, encode::pair_views(props@)),
{
    GrpcRecord {
        rid: String::new(),
        class: class.to_owned(),
        properties: encode::collect_named(props),
    }
}

fn map_from(props: Vec<(&str, GrpcValue)>) -> (v: GrpcValue)
    ensures
        v@ == encode::of_kind(KindView::Entries(encode::named(encode::pair_views(props@)))),
{
    let entries = encode::collect_named(props);
    GrpcValue { kind: Some(Kind::MapValue(GrpcMap { entries })), logical_type: String::new() }
}

// ---------------------------------------------------------------------------
// Differences
// ---------------------------------------------------------------------------

/// The names of named values.
pub open spec fn names_of(s: Seq<(Seq<char>, ValueView)>) -> Seq<Seq<char>> {
    Seq::new(s.len(), |i: int| s[i].0)
}

/// `old` holds no equal value under the name of `p`.
pub open spec fn differs(old: Map<Seq<char>, ValueView>, p: (Seq<char>, ValueView)) -> bool {
    !(old.contains_key(p.0) && wire::value_eq(old[p.0], p.1))
}

/// The columns of `new` whose value is not the one that `old` has under the name.
pub open spec fn diff(
    old: Seq<(Seq<char>, ValueView)>,
    new: Seq<(Seq<char>, ValueView)>,
) -> Seq<(Seq<char>, ValueView)>
    decreases new.len(),
{
    if new.len() == 0 {
        Seq::empty()
    } else {
        let rest = diff(old, new.drop_last());
        if differs(encode::named(old), new.last()) {
            rest.push(new.last())
        } else {
            rest
        }
    }
}

fn diff_props(old: Vec<(&str, GrpcValue)>, new: Vec<(&str, GrpcValue)>) -> (r: Vec<
    (String, GrpcValue),
>)
    ensures
        encode::owned_pair_views(r@) == diff(encode::pair_views(old@), encode::pair_views(new@)),
{
    let ghost base = encode::pair_views(old@);
    let before = encode::collect_named(old);
    let ghost all = encode::pair_views(new@);
    let ghost known = encode::named(base);
    let mut out: Vec<(String, GrpcValue)> = Vec::new();
    proof {
        wire::lemma_entries(before);
        assert(all.take(0) =~= Seq::empty());
        assert(encode::owned_pair_views(out@) =~= Seq::empty());
    }
    for p in it: new
        invariant
            it.seq() == new@,
            all == encode::pair_views(new@),
            known == encode::named(base),
            known == wire::entries_view(before),
            known.dom() == before@.dom(),
            forall|k: Seq<char>| #[trigger] before@.contains_key(k) ==> known[k] == before@[k]@,
            encode::owned_pair_views(out@) == diff(base, all.take(it.index() as int)),
    {
        let ghost i = it.index() as int;
        let (k, v) = p;
        assert(all.take(i + 1).drop_last() =~= all.take(i));
        assert(all.take(i + 1).last() == (k@, v@));
        let same = match before.get(k) {
            Some(w) => wire::equal_values(w, &v),
            None => false,
        };
        assert(same == !differs(known, (k@, v@)));
        let ghost so_far = encode::owned_pair_views(out@);
        if !same {
            let ghost said = v@;
            out.push((k.to_owned(), v));
            assert(encode::owned_pair_views(out@) =~= so_far.push((k@, said)));
        }
    }
    assert(all.take(all.len() as int) =~= all);
    out
}

fn changed_names(old: Vec<(&str, GrpcValue)>, new: Vec<(&str, GrpcValue)>) -> (r: Vec<String>)
    ensures
        text::texts(r@) == names_of(diff(encode::pair_views(old@), encode::pair_views(new@))),
        forall|i: int|
            0 <= i < r@.len() ==> names_of(encode::pair_views(new@)).contains(
                (#[trigger] r@[i])@,
            ),
{
    let ghost base = encode::pair_views(old@);
    let ghost columns = encode::pair_views(new@);
    let ghost d = diff(encode::pair_views(old@), encode::pair_views(new@));
    let changed = diff_props(old, new);
    let ghost all = changed@;
    let mut out: Vec<String> = Vec::new();
    for p in it: changed
        invariant
            it.seq() == all,
            out@.len() == it.index(),
            forall|j: int| 0 <= j < it.index() ==> (#[trigger] out@[j])@ == all[j].0@,
    {
        let (k, _) = p;
        out.push(k);
    }
    proof {
        assert(encode::owned_pair_views(all) == d);
        assert forall|j: int| 0 <= j < out@.len() implies #[trigger] text::texts(out@)[j]
            == names_of(d)[j] by {
            assert(d[j] == encode::owned_pair_views(all)[j]);
        }
        assert(text::texts(out@) =~= names_of(d));
        assert forall|i: int| 0 <= i < out@.len() implies names_of(columns).contains(
            (#[trigger] out@[i])@,
        ) by {
            assert(text::texts(out@)[i] == names_of(d)[i]);
            law_diff_reports_only_new_columns(base, columns, i);
            let k = choose|k: int| 0 <= k < columns.len() && columns[k] == d[i];
            assert(names_of(columns)[k] == d[i].0);
        }
    }
    out
}

/// The columns whose value differs between two snapshots of one row. A column that only the
/// new snapshot has counts as changed; one that only the old snapshot has cannot be expressed
/// as a write and is left out.
pub fn props_diff<T: ToGrpcRecord + ?Sized>(old: &T, new: &T) -> (r: Vec<(String, GrpcValue)>)
    ensures
        encode::owned_pair_views(r@) == diff(old.columns(), new.columns()),
{
    diff_props(old.props(), new.props())
}

/// The changed columns as a parameter map.
pub fn changed_param_map<T: ToGrpcRecord + ?Sized>(old: &T, new: &T) -> (m: PropMap<GrpcValue>)
    ensures
        wire::entries_view(m) == encode::named(diff(old.columns(), new.columns())),
{
    encode::collect_owned(props_diff(old, new))
}

// ---------------------------------------------------------------------------
// Laws
// ---------------------------------------------------------------------------

/// No name occurs twice.
pub open spec fn distinct_names(s: Seq<(Seq<char>, ValueView)>) -> bool {
    forall|i: int, j: int| 0 <= i < j < s.len() ==> (#[trigger] s[i]).0 != (#[trigger] s[j]).0
}

/// No value holds a number that is not one.
pub open spec fn all_nan_free(s: Seq<(Seq<char>, ValueView)>) -> bool {
    forall|i: int| 0 <= i < s.len() ==> wire::nan_free((#[trigger] s[i]).1)
}

/// What distinctly named values describe.
pub proof fn lemma_named(s: Seq<(Seq<char>, ValueView)>)
    requires
        distinct_names(s),
    ensures
        forall|i: int|
            0 <= i < s.len() ==> encode::named(s).contains_key((#[trigger] s[i]).0)
                && encode::named(s)[s[i].0] == s[i].1,
    decreases s.len(),
{
    if s.len() > 0 {
        let t = s.drop_last();
        assert(distinct_names(t));
        lemma_named(t);
        assert forall|i: int| 0 <= i < s.len() implies encode::named(s).contains_key(
            (#[trigger] s[i]).0,
        ) && encode::named(s)[s[i].0] == s[i].1 by {
            if i < t.len() {
                assert(t[i] == s[i]);
                assert(s[i].0 != s[s.len() - 1].0);
            }
        }
    }
}

/// The names that named values have are those of the pairs.
proof fn lemma_named_dom(s: Seq<(Seq<char>, ValueView)>, k: Seq<char>)
    ensures
        encode::named(s).contains_key(k) ==> exists|i: int|
            0 <= i < s.len() && (#[trigger] s[i]).0 == k,
    decreases s.len(),
{
    if s.len() > 0 && encode::named(s).contains_key(k) {
        if s.last().0 == k {
            assert(s[s.len() - 1].0 == k);
        } else {
            lemma_named_dom(s.drop_last(), k);
            let i = choose|i: int|
                0 <= i < s.drop_last().len() && (#[trigger] s.drop_last()[i]).0 == k;
            assert(s[i].0 == k);
        }
    }
}

/// What is written under a name is read under it, and nothing else is there: a record gives
/// back the columns of the row it was made from. Names occur once in a row.
pub proof fn law_written_columns_are_read(
    class: Seq<char>,
    s: Seq<(Seq<char>, ValueView)>,
    key: Seq<char>,
    value: ValueView,
)
    requires
        distinct_names(s),
    ensures
        access::seen(encode::record_of(class, s).properties, key, Seq::empty()) == Some(value)
            <==> s.contains((key, value)),
{
    lemma_named(s);
    lemma_named_dom(s, key);
    if s.contains((key, value)) {
        let i = choose|i: int| 0 <= i < s.len() && s[i] == (key, value);
        assert(encode::named(s)[s[i].0] == s[i].1);
    }
    if encode::named(s).contains_key(key) {
        let i = choose|i: int| 0 <= i < s.len() && (#[trigger] s[i]).0 == key;
        assert(encode::named(s)[s[i].0] == s[i].1);
        assert(s[i] == (key, s[i].1));
        assert(s.contains((key, s[i].1)));
    }
}

/// Two equal snapshots have no difference: a write that changes nothing can be skipped. Names
/// occur once in a row, and a number that is not one differs from itself.
pub proof fn law_equal_snapshots_have_no_diff(s: Seq<(Seq<char>, ValueView)>)
    requires
        distinct_names(s),
        all_nan_free(s),
    ensures
        diff(s, s) == Seq::<(Seq<char>, ValueView)>::empty(),
{
    lemma_named(s);
    lemma_no_diff(s, s.len() as int);
    assert(s.take(s.len() as int) =~= s);
}

proof fn lemma_no_diff(s: Seq<(Seq<char>, ValueView)>, n: int)
    requires
        0 <= n <= s.len(),
        all_nan_free(s),
        forall|i: int|
            0 <= i < s.len() ==> encode::named(s).contains_key((#[trigger] s[i]).0)
                && encode::named(s)[s[i].0] == s[i].1,
    ensures
        diff(s, s.take(n)) == Seq::<(Seq<char>, ValueView)>::empty(),
    decreases n,
{
    if n > 0 {
        lemma_no_diff(s, n - 1);
        assert(s.take(n).drop_last() =~= s.take(n - 1));
        assert(s.take(n).last() == s[n - 1]);
        wire::law_nan_free_values_equal_themselves(s[n - 1].1);
    }
}

/// Every reported column is one of the new snapshot: a column that became absent is never
/// reported.
pub proof fn law_diff_reports_only_new_columns(
    old: Seq<(Seq<char>, ValueView)>,
    new: Seq<(Seq<char>, ValueView)>,
    i: int,
)
    requires
        0 <= i < diff(old, new).len(),
    ensures
        new.contains(diff(old, new)[i]),
        differs(encode::named(old), diff(old, new)[i]),
    decreases new.len(),
{
    if new.len() > 0 {
        let rest = diff(old, new.drop_last());
        if i < rest.len() {
            law_diff_reports_only_new_columns(old, new.drop_last(), i);
            let k = choose|k: int|
                0 <= k < new.drop_last().len() && new.drop_last()[k] == rest[i];
            assert(new[k] == diff(old, new)[i]);
        } else {
            assert(new[new.len() - 1] == diff(old, new)[i]);
        }
    }
}

/// Every column of the new snapshot that is not reported holds an equal value in the old one:
/// writing the reported columns over the old row gives the new one.
pub proof fn law_diff_reports_every_change(
    old: Seq<(Seq<char>, ValueView)>,
    new: Seq<(Seq<char>, ValueView)>,
    i: int,
)
    requires
        0 <= i < new.len(),
    ensures
        diff(old, new).contains(new[i]) || (encode::named(old).contains_key(new[i].0)
            && wire::value_eq(encode::named(old)[new[i].0], new[i].1)),
    decreases new.len(),
{
    if i < new.len() - 1 {
        law_diff_reports_every_change(old, new.drop_last(), i);
        let rest = diff(old, new.drop_last());
        if rest.contains(new[i]) {
            let k = choose|k: int| 0 <= k < rest.len() && rest[k] == new[i];
            assert(diff(old, new)[k] == new[i]);
        }
    } else if differs(encode::named(old), new.last()) {
        let d = diff(old, new);
        assert(d[d.len() - 1] == new[i]);
    }
}

/// Every column of the new snapshot whose value is not the one that the old snapshot holds
/// under its name is reported, and no column whose value is. The values hold no floating-point
/// number, which may differ from itself or equal another.
pub proof fn law_diff_reports_exactly_the_changes(
    old: Seq<(Seq<char>, ValueView)>,
    new: Seq<(Seq<char>, ValueView)>,
    i: int,
)
    requires
        0 <= i < new.len(),
        wire::float_free(new[i].1),
    ensures
        diff(old, new).contains(new[i]) <==> !(encode::named(old).contains_key(new[i].0)
            && encode::named(old)[new[i].0] == new[i].1),
{
    law_diff_reports_every_change(old, new, i);
    let old_value = encode::named(old)[new[i].0];
    lemma_equal_either_way(old_value, new[i].1);
    if diff(old, new).contains(new[i]) {
        let k = choose|k: int| 0 <= k < diff(old, new).len() && diff(old, new)[k] == new[i];
        law_diff_reports_only_new_columns(old, new, k);
    }
}

proof fn lemma_equal_either_way(a: ValueView, b: ValueView)
    requires
        wire::float_free(b),
    ensures
        wire::value_eq(a, b) <==> a == b,
{
    wire::law_equal_values_are_the_same_up_to_zeros(a, b);
    wire::law_equal_values_are_the_same_up_to_zeros(b, a);
    wire::law_equal_values_are_the_same(b, a);
}

/// Writing the reported columns over the old row gives the new row: under the name of every
/// column of the new snapshot stands its value, up to the sign of zeros, and exactly where it
/// holds no floating-point number. Columns that the new snapshot does not have stay.
pub proof fn law_writing_the_diff_gives_the_new_row(
    old: Seq<(Seq<char>, ValueView)>,
    new: Seq<(Seq<char>, ValueView)>,
    k: Seq<char>,
)
    requires
        distinct_names(new),
    ensures
        ({
            let row = encode::named(old).union_prefer_right(encode::named(diff(old, new)));
            &&& forall|i: int|
                0 <= i < new.len() && (#[trigger] new[i]).0 == k ==> row.contains_key(k)
                    && wire::unsigned_zeros(row[k]) == wire::unsigned_zeros(new[i].1) && (
                wire::float_free(new[i].1) ==> row[k] == new[i].1)
            &&& (forall|i: int| 0 <= i < new.len() ==> (#[trigger] new[i]).0 != k) ==> (
            row.contains_key(k) <==> encode::named(old).contains_key(k)) && (row.contains_key(k)
                ==> row[k] == encode::named(old)[k])
        }),
{
    let d = diff(old, new);
    let row = encode::named(old).union_prefer_right(encode::named(d));
    lemma_named_dom(d, k);
    lemma_diff_names(old, new);
    lemma_named(d);
    if encode::named(d).contains_key(k) {
        let j = choose|j: int| 0 <= j < d.len() && (#[trigger] d[j]).0 == k;
        law_diff_reports_only_new_columns(old, new, j);
        let m = choose|m: int| 0 <= m < new.len() && new[m] == d[j];
        assert(new[m].0 == k);
        assert(row[k] == d[j].1);
    }
    assert forall|i: int| 0 <= i < new.len() && (#[trigger] new[i]).0 == k implies row.contains_key(
        k,
    ) && wire::unsigned_zeros(row[k]) == wire::unsigned_zeros(new[i].1) && (wire::float_free(
        new[i].1,
    ) ==> row[k] == new[i].1) by {
        law_diff_reports_every_change(old, new, i);
        if d.contains(new[i]) {
            let j = choose|j: int| 0 <= j < d.len() && d[j] == new[i];
            assert(encode::named(d).contains_key(d[j].0));
        } else {
            if encode::named(d).contains_key(k) {
                let j = choose|j: int| 0 <= j < d.len() && (#[trigger] d[j]).0 == k;
                law_diff_reports_only_new_columns(old, new, j);
                let m = choose|m: int| 0 <= m < new.len() && new[m] == d[j];
                assert(new[m].0 == new[i].0);
                assert(m == i);
                assert(d.contains(new[i]));
            }
            wire::law_equal_values_are_the_same_up_to_zeros(encode::named(old)[k], new[i].1);
            if wire::float_free(new[i].1) {
                lemma_equal_either_way(encode::named(old)[k], new[i].1);
            }
        }
    }
}

proof fn lemma_diff_names(old: Seq<(Seq<char>, ValueView)>, new: Seq<(Seq<char>, ValueView)>)
    requires
        distinct_names(new),
    ensures
        distinct_names(diff(old, new)),
    decreases new.len(),
{
    if new.len() > 0 {
        let t = new.drop_last();
        assert(distinct_names(t));
        lemma_diff_names(old, t);
        let rest = diff(old, t);
        assert forall|i: int, j: int| 0 <= i < j < diff(old, new).len() implies (
        #[trigger] diff(old, new)[i]).0 != (#[trigger] diff(old, new)[j]).0 by {
            if j == rest.len() {
                law_diff_reports_only_new_columns(old, t, i);
                let m = choose|m: int| 0 <= m < t.len() && t[m] == rest[i];
                assert(new[m].0 == rest[i].0);
                assert(new[m].0 != new[new.len() - 1].0);
            } else {
                assert(rest[i].0 != rest[j].0);
            }
        }
    }
}

/// The names of columns are those of the pairs, in order.
pub proof fn law_names_are_those_of_the_pairs(s: Seq<(Seq<char>, ValueView)>, i: int)
    requires
        0 <= i < s.len(),
    ensures
        names_of(s).len() == s.len(),
        names_of(s)[i] == s[i].0,
{
}

} // verus!
