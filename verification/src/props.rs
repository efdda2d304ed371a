//! A map from property names to values.
//!
//! Entries are kept in a vector in insertion order and no name occurs twice; contracts speak
//! of the map that the entries describe.

use vstd::prelude::*;
use crate::text;

verus! {

/// A string-keyed map.
#[derive(Debug)]
pub struct PropMap<V> {
    entries: Vec<(String, V)>,
}

/// The map that a list of entries describes; a later entry replaces an earlier one of the
/// same name.
pub open spec fn pairs_map<V>(s: Seq<(String, V)>) -> Map<Seq<char>, V>
    decreases s.len(),
{
    if s.len() == 0 {
        Map::empty()
    } else {
        pairs_map(s.drop_last()).insert(s.last().0@, s.last().1)
    }
}

/// No name occurs twice.
pub open spec fn distinct<V>(s: Seq<(String, V)>) -> bool {
    forall|i: int, j: int|
        0 <= i < j < s.len() ==> (#[trigger] s[i]).0@ != (#[trigger] s[j]).0@
}

/// What a list of distinct entries describes, entry by entry.
pub proof fn lemma_pairs_map<V>(s: Seq<(String, V)>)
    requires
        distinct(s),
    ensures
        forall|i: int|
            0 <= i < s.len() ==> pairs_map(s).contains_key((#[trigger] s[i]).0@) && pairs_map(
                s,
            )[s[i].0@] == s[i].1,
        forall|k: Seq<char>| #[trigger]
            pairs_map(s).contains_key(k) ==> exists|i: int|
                0 <= i < s.len() && (#[trigger] s[i]).0@ == k,
        pairs_map(s).dom().finite(),
        pairs_map(s).dom().len() == s.len(),
    decreases s.len(),
{
    if s.len() > 0 {
        let t = s.drop_last();
        assert(distinct(t));
        lemma_pairs_map(t);
        assert forall|i: int| 0 <= i < s.len() implies pairs_map(s).contains_key(
            (#[trigger] s[i]).0@,
        ) && pairs_map(s)[s[i].0@] == s[i].1 by {
            if i < t.len() {
                assert(t[i] == s[i]);
            }
        }
        assert forall|k: Seq<char>| #[trigger] pairs_map(s).contains_key(k) implies exists|i: int|
            0 <= i < s.len() && (#[trigger] s[i]).0@ == k by {
            if k == s.last().0@ {
                assert(s[s.len() - 1].0@ == k);
            } else {
                assert(pairs_map(t).contains_key(k));
                let i = choose|i: int| 0 <= i < t.len() && (#[trigger] t[i]).0@ == k;
                assert(s[i].0@ == k);
            }
        }
        if pairs_map(t).contains_key(s.last().0@) {
            let i = choose|i: int| 0 <= i < t.len() && (#[trigger] t[i]).0@ == s.last().0@;
            assert(s[i].0@ == s[s.len() - 1].0@);
        }
    }
}

impl<V> View for PropMap<V> {
    type V = Map<Seq<char>, V>;

    closed spec fn view(&self) -> Map<Seq<char>, V> {
        pairs_map(self.entries@)
    }
}

impl<V> PropMap<V> {
    #[verifier::type_invariant]
    spec fn inv(&self) -> bool {
        distinct(self.entries@)
    }

    /// The entries, in insertion order.
    pub closed spec fn pairs(&self) -> Seq<(String, V)> {
        self.entries@
    }

    /// A map is described by its entries, and they are smaller than it.
    pub proof fn lemma_pairs(&self)
        ensures
            self@ == pairs_map(self.pairs()),
            decreases_to!(*self => self.pairs()),
    {
    }

    /// The empty map.
    pub fn new() -> (m: Self)
        ensures
            m@ == Map::<Seq<char>, V>::empty(),
            m.pairs().len() == 0,
    {
        PropMap { entries: Vec::new() }
    }

    /// The number of entries.
    pub fn len(&self) -> (n: usize)
        ensures
            self@.dom().finite(),
            n == self@.dom().len(),
            n == self.pairs().len(),
            distinct(self.pairs()),
    {
        proof {
            use_type_invariant(self);
            lemma_pairs_map(self.entries@);
        }
        self.entries.len()
    }

    /// Whether there are no entries.
    pub fn is_empty(&self) -> (b: bool)
        ensures
            b == (self@ == Map::<Seq<char>, V>::empty()),
            b == (self.pairs().len() == 0),
    {
        proof {
            use_type_invariant(self);
            lemma_pairs_map(self.entries@);
            if self.entries@.len() == 0 {
                assert(self@ =~= Map::empty());
            } else {
                assert(self@.contains_key(self.entries@[0].0@));
            }
        }
        self.entries.len() == 0
    }

    fn find(&self, key: &str) -> (r: Option<usize>)
        ensures
            distinct(self.entries@),
            match r {
                Some(i) => i < self.entries@.len() && self.entries@[i as int].0@ == key@
                    && self@.contains_key(key@) && self@[key@] == self.entries@[i as int].1,
                None => !self@.contains_key(key@) && forall|i: int|
                    0 <= i < self.entries@.len() ==> (#[trigger] self.entries@[i]).0@ != key@,
            },
    {
        proof {
            use_type_invariant(self);
            lemma_pairs_map(self.entries@);
        }
        for i in 0..self.entries.len()
            invariant
                forall|j: int| 0 <= j < i ==> (#[trigger] self.entries@[j]).0@ != key@,
                distinct(self.entries@),
                forall|j: int|
                    0 <= j < self.entries@.len() ==> pairs_map(self.entries@).contains_key(
                        (#[trigger] self.entries@[j]).0@,
                    ) && pairs_map(self.entries@)[self.entries@[j].0@] == self.entries@[j].1,
        {
            if text::same(self.entries[i].0.as_str(), key) {
                return Some(i);
            }
        }
        None
    }

    /// Whether `key` has a value.
    pub fn contains_key(&self, key: &str) -> (b: bool)
        ensures
            b == self@.contains_key(key@),
    {
        self.find(key).is_some()
    }

    /// The value of `key`.
    pub fn get(&self, key: &str) -> (r: Option<&V>)
        ensures
            match r {
                Some(v) => self@.contains_key(key@) && *v == self@[key@],
                None => !self@.contains_key(key@),
            },
    {
        match self.find(key) {
            Some(i) => Some(&self.entries[i].1),
            None => None,
        }
    }

    /// The entry at position `i` of the insertion order.
    pub fn entry(&self, i: usize) -> (r: (&String, &V))
        requires
            i < self.pairs().len(),
        ensures
            *r.0 == self.pairs()[i as int].0,
            *r.1 == self.pairs()[i as int].1,
            self@.contains_key(r.0@),
            self@[r.0@] == *r.1,
    {
        proof {
            use_type_invariant(self);
            lemma_pairs_map(self.entries@);
        }
        (&self.entries[i].0, &self.entries[i].1)
    }

    /// Set the value of `key`.
    pub fn insert(&mut self, key: String, value: V)
        ensures
            final(self)@ == old(self)@.insert(key@, value),
    {
        let found = self.find(key.as_str());
        proof {
            use_type_invariant(&*self);
            lemma_pairs_map(self.entries@);
        }
        let ghost before = self.entries@;
        let mut entries: Vec<(String, V)> = Vec::new();
        core::mem::swap(&mut entries, &mut self.entries);
        match found {
            Some(i) => {
                entries.set(i, (key, value));
            },
            None => {
                entries.push((key, value));
            },
        }
        proof {
            let after = entries@;
            assert(distinct(after)) by {
                assert forall|a: int, b: int| 0 <= a < b < after.len() implies (
                #[trigger] after[a]).0@ != (#[trigger] after[b]).0@ by {
                    if a < before.len() && b < before.len() {
                        assert(after[a].0@ == before[a].0@);
                        assert(after[b].0@ == before[b].0@);
                    } else {
                        assert(after[a].0@ == before[a].0@);
                    }
                }
            }
            lemma_pairs_map(after);
            assert(pairs_map(after) =~= pairs_map(before).insert(key@, value)) by {
                assert forall|k: Seq<char>|
                    pairs_map(after).contains_key(k) == pairs_map(before).insert(
                        key@,
                        value,
                    ).contains_key(k) by {
                    if pairs_map(after).contains_key(k) && k != key@ {
                        let i = choose|i: int| 0 <= i < after.len() && (#[trigger] after[i]).0@ == k;
                        assert(before[i].0@ == k);
                    }
                    if pairs_map(before).contains_key(k) {
                        let i = choose|i: int|
                            0 <= i < before.len() && (#[trigger] before[i]).0@ == k;
                        assert(after[i].0@ == k);
                    }
                    if k == key@ {
                        match found {
                            Some(i) => {
                                assert(after[i as int].0@ == k);
                            },
                            None => {
                                assert(after[after.len() - 1].0@ == k);
                            },
                        }
                    }
                }
                assert forall|k: Seq<char>| #[trigger] pairs_map(after).contains_key(k) implies pairs_map(
                    after,
                )[k] == pairs_map(before).insert(key@, value)[k] by {
                    let i = choose|i: int| 0 <= i < after.len() && (#[trigger] after[i]).0@ == k;
                    if k != key@ {
                        assert(before[i].0@ == k);
                        assert(before[i].1 == after[i].1);
                    } else {
                        match found {
                            Some(j) => {
                                if i != j {
                                    assert(before[i].0@ == before[j as int].0@);
                                }
                            },
                            None => {
                                if i < before.len() {
                                    assert(before[i].0@ == key@);
                                }
                            },
                        }
                    }
                }
            }
        }
        self.entries = entries;
    }

    /// Take `key` out, returning its value.
    pub fn remove(&mut self, key: &str) -> (r: Option<V>)
        ensures
            final(self)@ == old(self)@.remove(key@),
            match r {
                Some(v) => old(self)@.contains_key(key@) && v == old(self)@[key@],
                None => !old(self)@.contains_key(key@),
            },
    {
        let found = self.find(key);
        proof {
            use_type_invariant(&*self);
            lemma_pairs_map(self.entries@);
        }
        let ghost before = self.entries@;
        match found {
            None => {
                assert(pairs_map(before) =~= pairs_map(before).remove(key@));
                None
            },
            Some(i) => {
                let mut entries: Vec<(String, V)> = Vec::new();
                core::mem::swap(&mut entries, &mut self.entries);
                let (_, value) = entries.remove(i);
                proof {
                    let after = entries@;
                    assert(forall|a: int|
                        0 <= a < after.len() ==> #[trigger] after[a] == before[if a < i {
                            a
                        } else {
                            a + 1
                        }]);
                    assert(distinct(after));
                    lemma_pairs_map(after);
                    assert(pairs_map(after) =~= pairs_map(before).remove(key@)) by {
                        assert forall|k: Seq<char>|
                            pairs_map(after).contains_key(k) == pairs_map(before).remove(
                                key@,
                            ).contains_key(k) by {
                            if pairs_map(after).contains_key(k) {
                                let a = choose|a: int|
                                    0 <= a < after.len() && (#[trigger] after[a]).0@ == k;
                                let b = if a < i {
                                    a
                                } else {
                                    a + 1
                                };
                                assert(before[b].0@ == k);
                                assert(before[i as int].0@ == key@);
                            }
                            if pairs_map(before).contains_key(k) && k != key@ {
                                let b = choose|b: int|
                                    0 <= b < before.len() && (#[trigger] before[b]).0@ == k;
                                let a = if b < i {
                                    b
                                } else {
                                    b - 1
                                };
                                assert(after[a].0@ == k);
                            }
                        }
                        assert forall|k: Seq<char>| #[trigger]
                            pairs_map(after).contains_key(k) implies pairs_map(after)[k]
                            == pairs_map(before).remove(key@)[k] by {
                            let a = choose|a: int|
                                0 <= a < after.len() && (#[trigger] after[a]).0@ == k;
                            let b = if a < i {
                                a
                            } else {
                                a + 1
                            };
                            assert(before[b].0@ == k);
                        }
                    }
                }
                self.entries = entries;
                Some(value)
            },
        }
    }

    /// The entries, in insertion order.
    pub fn into_entries(self) -> (r: Vec<(String, V)>)
        ensures
            r@ == self.pairs(),
            distinct(r@),
            self@ == pairs_map(r@),
    {
        proof {
            use_type_invariant(&self);
        }
        self.entries
    }

    /// The names, in insertion order.
    pub fn keys(&self) -> (r: Vec<String>)
        ensures
            r@.len() == self@.dom().len(),
            self@.dom().finite(),
            forall|k: Seq<char>| self@.contains_key(k) <==> text::texts(r@).contains(k),
    {
        proof {
            use_type_invariant(self);
            lemma_pairs_map(self.entries@);
        }
        let mut out: Vec<String> = Vec::new();
        for i in 0..self.entries.len()
            invariant
                out@.len() == i,
                forall|j: int| 0 <= j < i ==> (#[trigger] out@[j])@ == self.entries@[j].0@,
        {
            out.push(self.entries[i].0.clone());
        }
        proof {
            assert forall|k: Seq<char>| self@.contains_key(k) <==> text::texts(out@).contains(k) by {
                if self@.contains_key(k) {
                    let i = choose|i: int|
                        0 <= i < self.entries@.len() && (#[trigger] self.entries@[i]).0@ == k;
                    assert(text::texts(out@)[i] == k);
                }
                if text::texts(out@).contains(k) {
                    let i = choose|i: int|
                        0 <= i < out@.len() && text::texts(out@)[i] == k;
                    assert(out@[i]@ == k);
                    assert(self.entries@[i].0@ == k);
                }
            }
        }
        out
    }
}

/// Of pairs, the last under a name is the one that stands.
pub proof fn law_the_last_pair_under_a_name_stands<V>(s: Seq<(String, V)>, i: int)
    requires
        0 <= i < s.len(),
        forall|j: int| i < j < s.len() ==> (#[trigger] s[j]).0@ != s[i].0@,
    ensures
        pairs_map(s).contains_key(s[i].0@),
        pairs_map(s)[s[i].0@] == s[i].1,
    decreases s.len(),
{
    if i < s.len() - 1 {
        let t = s.drop_last();
        assert(t[i] == s[i]);
        assert(s[s.len() - 1].0@ != s[i].0@);
        assert forall|j: int| i < j < t.len() implies (#[trigger] t[j]).0@ != t[i].0@ by {
            assert(s[j].0@ != s[i].0@);
        }
        law_the_last_pair_under_a_name_stands(t, i);
    }
}

} // verus!
