//! A small string-keyed map kept as a vector of distinct-key entries.
//!
//! The in-memory login stores key their entries by user name or token; this
//! list gives them a `Map` view with exact insert / remove / update contracts.

use vstd::prelude::*;
use crate::text::{chars_eq, chars_of};

verus! {

/// No key occurs twice.
pub open spec fn distinct_keys<V>(s: Seq<(String, V)>) -> bool {
    forall|i: int, j: int| 0 <= i < s.len() && 0 <= j < s.len() && i != j ==> s[i].0@ != s[j].0@
}

/// The map an entry sequence denotes (later entries win, which never matters
/// when keys are distinct).
pub open spec fn to_map<V>(s: Seq<(String, V)>) -> Map<Seq<char>, V>
    decreases s.len(),
{
    if s.len() == 0 {
        Map::empty()
    } else {
        to_map(s.drop_last()).insert(s.last().0@, s.last().1)
    }
}

/// A key is in the map exactly when some entry carries it, and then the map
/// holds that entry's value.
pub proof fn lemma_to_map_lookup<V>(s: Seq<(String, V)>, i: int)
    requires
        distinct_keys(s),
        0 <= i < s.len(),
    ensures
        to_map(s).contains_key(s[i].0@),
        to_map(s)[s[i].0@] == s[i].1,
    decreases s.len(),
{
    if i < s.len() - 1 {
        let t = s.drop_last();
        assert(t[i] == s[i]);
        assert(distinct_keys(t));
        lemma_to_map_lookup(t, i);
        assert(s.last().0@ != s[i].0@);
    }
}

/// A key that no entry carries is not in the map.
pub proof fn lemma_to_map_absent<V>(s: Seq<(String, V)>, k: Seq<char>)
    requires
        forall|i: int| 0 <= i < s.len() ==> s[i].0@ != k,
    ensures
        !to_map(s).contains_key(k),
    decreases s.len(),
{
    if s.len() > 0 {
        let t = s.drop_last();
        assert forall|i: int| 0 <= i < t.len() implies t[i].0@ != k by {
            assert(t[i] == s[i]);
        }
        lemma_to_map_absent(t, k);
        assert(s[s.len() - 1].0@ != k);
    }
}

/// Every key of the map is carried by some entry.
pub proof fn lemma_to_map_keys<V>(s: Seq<(String, V)>, k: Seq<char>)
    requires
        to_map(s).contains_key(k),
    ensures
        exists|i: int| 0 <= i < s.len() && s[i].0@ == k,
{
    if forall|i: int| 0 <= i < s.len() ==> s[i].0@ != k {
        lemma_to_map_absent(s, k);
    }
}

/// Two distinct-key sequences with the same lookups denote the same map.
pub proof fn lemma_to_map_ext<V>(s: Seq<(String, V)>, m: Map<Seq<char>, V>)
    requires
        distinct_keys(s),
        forall|i: int| 0 <= i < s.len() ==> m.contains_key(#[trigger] s[i].0@) && m[s[i].0@]
            == s[i].1,
        forall|k: Seq<char>| m.contains_key(k) ==> exists|i: int| 0 <= i < s.len() && s[i].0@ == k,
    ensures
        to_map(s) =~= m,
{
    assert forall|k: Seq<char>| #[trigger] to_map(s).contains_key(k) <==> m.contains_key(k) by {
        if to_map(s).contains_key(k) {
            lemma_to_map_keys(s, k);
            let i = choose|i: int| 0 <= i < s.len() && s[i].0@ == k;
            assert(m.contains_key(s[i].0@));
        }
        if m.contains_key(k) {
            let i = choose|i: int| 0 <= i < s.len() && s[i].0@ == k;
            lemma_to_map_lookup(s, i);
        }
    }
    assert forall|k: Seq<char>| #[trigger] to_map(s).contains_key(k) implies to_map(s)[k] == m[k] by {
        lemma_to_map_keys(s, k);
        let i = choose|i: int| 0 <= i < s.len() && s[i].0@ == k;
        lemma_to_map_lookup(s, i);
    }
}

/// With distinct keys, the map has as many keys as the sequence has entries.
pub proof fn lemma_to_map_len<V>(s: Seq<(String, V)>)
    requires
        distinct_keys(s),
    ensures
        to_map(s).dom().finite(),
        to_map(s).dom().len() == s.len(),
    decreases s.len(),
{
    if s.len() > 0 {
        let t = s.drop_last();
        assert(distinct_keys(t));
        lemma_to_map_len(t);
        assert forall|i: int| 0 <= i < t.len() implies t[i].0@ != s.last().0@ by {
            assert(t[i] == s[i]);
        }
        lemma_to_map_absent(t, s.last().0@);
    }
}

/// A string-keyed map kept as a vector of entries with distinct keys.
pub struct AssocList<V> {
    items: Vec<(String, V)>,
}

impl<V> AssocList<V> {
    /// The map of the list.
    pub closed spec fn view(&self) -> Map<Seq<char>, V> {
        to_map(self.items@)
    }

    /// The list is well formed: keys are distinct.
    pub closed spec fn wf(&self) -> bool {
        distinct_keys(self.items@)
    }

    /// The entries in list order.
    pub closed spec fn entries(&self) -> Seq<(String, V)> {
        self.items@
    }

    /// The entries determine the map and have distinct keys.
    pub proof fn lemma_entries(&self)
        requires
            self.wf(),
        ensures
            distinct_keys(self.entries()),
            self.view() == to_map(self.entries()),
            self.view().dom().finite(),
            self.view().dom().len() == self.entries().len(),
            forall|i: int|
                0 <= i < self.entries().len() ==> self.view().contains_key(
                    #[trigger] self.entries()[i].0@,
                ) && self.view()[self.entries()[i].0@] == self.entries()[i].1,
            forall|k: Seq<char>|
                #[trigger] self.view().contains_key(k) ==> exists|i: int|
                    0 <= i < self.entries().len() && self.entries()[i].0@ == k,
    {
        lemma_to_map_len(self.items@);
        assert forall|i: int| 0 <= i < self.entries().len() implies self.view().contains_key(
            #[trigger] self.entries()[i].0@,
        ) && self.view()[self.entries()[i].0@] == self.entries()[i].1 by {
            lemma_to_map_lookup(self.items@, i);
        }
        assert forall|k: Seq<char>| #[trigger] self.view().contains_key(k) implies exists|i: int|
            0 <= i < self.entries().len() && self.entries()[i].0@ == k by {
            lemma_to_map_keys(self.items@, k);
            let i = choose|i: int| 0 <= i < self.items@.len() && self.items@[i].0@ == k;
            assert(self.entries()[i].0@ == k);
        }
    }

    /// An empty list.
    pub fn new() -> (r: Self)
        ensures
            r.wf(),
            r.view() == Map::<Seq<char>, V>::empty(),
            r.entries().len() == 0,
    {
        AssocList { items: Vec::new() }
    }

    /// Number of entries.
    pub fn len(&self) -> (n: usize)
        ensures
            n == self.entries().len(),
    {
        self.items.len()
    }

    /// The key of entry `i`.
    pub fn key_at(&self, i: usize) -> (k: &String)
        requires
            i < self.entries().len(),
        ensures
            *k == self.entries()[i as int].0,
    {
        &self.items[i].0
    }

    /// The value of entry `i`.
    pub fn value_at(&self, i: usize) -> (v: &V)
        requires
            i < self.entries().len(),
        ensures
            *v == self.entries()[i as int].1,
    {
        &self.items[i].1
    }

    /// The position of `key`.
    pub fn find(&self, key: &str) -> (r: Option<usize>)
        requires
            self.wf(),
        ensures
            match r {
                Some(i) => i < self.entries().len() && self.entries()[i as int].0@ == key@
                    && self.view().contains_key(key@) && self.view()[key@] == self.entries()[i as int].1,
                None => !self.view().contains_key(key@),
            },
    {
        let target = chars_of(key);
        let mut i: usize = 0;
        while i < self.items.len()
            invariant
                i <= self.items.len(),
                target@ == key@,
                distinct_keys(self.items@),
                forall|j: int| 0 <= j < i ==> self.items@[j].0@ != key@,
            decreases self.items.len() - i,
        {
            let k = chars_of(self.items[i].0.as_str());
            if chars_eq(&k, &target) {
                proof {
                    lemma_to_map_lookup(self.items@, i as int);
                }
                return Some(i);
            }
            i = i + 1;
        }
        proof {
            lemma_to_map_absent(self.items@, key@);
        }
        None
    }

    /// Replaces the value of entry `i`.
    pub fn set_value(&mut self, i: usize, v: V)
        requires
            old(self).wf(),
            i < old(self).entries().len(),
        ensures
            final(self).wf(),
            final(self).view() == old(self).view().insert(old(self).entries()[i as int].0@, v),
            final(self).entries() == old(self).entries().update(
                i as int,
                (old(self).entries()[i as int].0, v),
            ),
    {
        let ghost old_items = self.items@;
        let ghost k = old_items[i as int].0@;
        let key = self.items[i].0.clone();
        self.items.set(i, (key, v));
        proof {
            let s = self.items@;
            assert(distinct_keys(s)) by {
                assert forall|a: int, b: int|
                    0 <= a < s.len() && 0 <= b < s.len() && a != b implies s[a].0@ != s[b].0@ by {
                    assert(s[a].0@ == old_items[a].0@);
                    assert(s[b].0@ == old_items[b].0@);
                }
            }
            let m = to_map(old_items).insert(k, v);
            assert forall|a: int| 0 <= a < s.len() implies m.contains_key(#[trigger] s[a].0@)
                && m[s[a].0@] == s[a].1 by {
                if a != i {
                    lemma_to_map_lookup(old_items, a);
                    assert(old_items[a].0@ != k);
                }
            }
            assert forall|kk: Seq<char>| m.contains_key(kk) implies exists|a: int|
                0 <= a < s.len() && s[a].0@ == kk by {
                if kk == k {
                    assert(s[i as int].0@ == kk);
                } else {
                    lemma_to_map_keys(old_items, kk);
                    let a = choose|a: int| 0 <= a < old_items.len() && old_items[a].0@ == kk;
                    assert(s[a].0@ == kk);
                }
            }
            lemma_to_map_ext(s, m);
        }
    }

    /// Removes entry `i` and returns it.
    pub fn remove_at(&mut self, i: usize) -> (e: (String, V))
        requires
            old(self).wf(),
            i < old(self).entries().len(),
        ensures
            final(self).wf(),
            e == old(self).entries()[i as int],
            final(self).view() == old(self).view().remove(e.0@),
            final(self).entries() == old(self).entries().remove(i as int),
    {
        let ghost old_items = self.items@;
        let e = self.items.remove(i);
        proof {
            let s = self.items@;
            let k = e.0@;
            assert(distinct_keys(s)) by {
                assert forall|a: int, b: int|
                    0 <= a < s.len() && 0 <= b < s.len() && a != b implies s[a].0@ != s[b].0@ by {
                    let a2 = if a < i { a } else { a + 1 };
                    let b2 = if b < i { b } else { b + 1 };
                    assert(s[a] == old_items[a2]);
                    assert(s[b] == old_items[b2]);
                }
            }
            let m = to_map(old_items).remove(k);
            assert forall|a: int| 0 <= a < s.len() implies m.contains_key(#[trigger] s[a].0@)
                && m[s[a].0@] == s[a].1 by {
                let a2 = if a < i { a } else { a + 1 };
                assert(s[a] == old_items[a2]);
                lemma_to_map_lookup(old_items, a2);
                assert(old_items[a2].0@ != k);
            }
            assert forall|kk: Seq<char>| m.contains_key(kk) implies exists|a: int|
                0 <= a < s.len() && s[a].0@ == kk by {
                lemma_to_map_keys(old_items, kk);
                let a2 = choose|a2: int| 0 <= a2 < old_items.len() && old_items[a2].0@ == kk;
                assert(a2 != i);
                let a = if a2 < i { a2 } else { a2 - 1 };
                assert(s[a] == old_items[a2]);
            }
            lemma_to_map_ext(s, m);
        }
        e
    }

    /// Adds an entry for a key that is not present.
    pub fn push_new(&mut self, key: String, v: V)
        requires
            old(self).wf(),
            !old(self).view().contains_key(key@),
        ensures
            final(self).wf(),
            final(self).view() == old(self).view().insert(key@, v),
            final(self).entries() == old(self).entries().push((key, v)),
    {
        let ghost old_items = self.items@;
        let ghost k = key@;
        proof {
            assert forall|a: int| 0 <= a < old_items.len() implies old_items[a].0@ != k by {
                lemma_to_map_lookup(old_items, a);
            }
        }
        self.items.push((key, v));
        proof {
            let s = self.items@;
            assert(s.drop_last() =~= old_items);
            assert(distinct_keys(s)) by {
                assert forall|a: int, b: int|
                    0 <= a < s.len() && 0 <= b < s.len() && a != b implies s[a].0@ != s[b].0@ by {
                    if a < old_items.len() {
                        assert(s[a] == old_items[a]);
                    }
                    if b < old_items.len() {
                        assert(s[b] == old_items[b]);
                    }
                }
            }
        }
    }

    /// Sets `key` to `v`, replacing any value it had.
    pub fn insert(&mut self, key: String, v: V)
        requires
            old(self).wf(),
        ensures
            final(self).wf(),
            final(self).view() == old(self).view().insert(key@, v),
    {
        match self.find(key.as_str()) {
            Some(i) => {
                self.set_value(i, v);
            },
            None => {
                self.push_new(key, v);
            },
        }
    }

    /// Removes `key` and returns its value, if it had one.
    pub fn remove(&mut self, key: &str) -> (r: Option<V>)
        requires
            old(self).wf(),
        ensures
            final(self).wf(),
            final(self).view() == old(self).view().remove(key@),
            match r {
                Some(v) => old(self).view().contains_key(key@) && old(self).view()[key@] == v,
                None => !old(self).view().contains_key(key@),
            },
    {
        match self.find(key) {
            Some(i) => {
                let e = self.remove_at(i);
                Some(e.1)
            },
            None => {
                proof {
                    assert(self.view().remove(key@) =~= self.view());
                }
                None
            },
        }
    }
}

} // verus!
