//! A map keyed by texts, held as a vector of entries in which a later entry
//! overrides an earlier one with the same key.

use vstd::prelude::*;
use crate::text::str_eq;

verus! {

/// The map that the entries `es` stand for: each key with the value of its
/// last entry.
pub open spec fn entries_map<V>(es: Seq<(Seq<char>, V)>) -> Map<Seq<char>, V>
    decreases es.len(),
{
    if es.len() == 0 {
        Map::empty()
    } else {
        entries_map(es.drop_last()).insert(es.last().0, es.last().1)
    }
}

/// Replacing the value of the last entry of a key replaces its value in the
/// map.
proof fn lemma_update_last<V>(es: Seq<(Seq<char>, V)>, i: int, v: V)
    requires
        0 <= i < es.len(),
        forall|j: int| i < j < es.len() ==> (#[trigger] es[j]).0 != es[i].0,
    ensures
        entries_map(es.update(i, (es[i].0, v))) == entries_map(es).insert(es[i].0, v),
    decreases es.len(),
{
    let k = es[i].0;
    let es2 = es.update(i, (k, v));
    if i == es.len() - 1 {
        assert(es2.drop_last() =~= es.drop_last());
        assert(entries_map(es2) =~= entries_map(es).insert(k, v));
    } else {
        assert(es2.drop_last() =~= es.drop_last().update(i, (k, v)));
        assert(es.drop_last()[i] == es[i]);
        assert forall|j: int| i < j < es.drop_last().len() implies (#[trigger] es.drop_last()[j]).0 != es.drop_last()[i].0 by {
            assert(es.drop_last()[j] == es[j]);
        }
        lemma_update_last(es.drop_last(), i, v);
        assert(es.last().0 != k);
        assert(entries_map(es2) =~= entries_map(es).insert(k, v));
    }
}

/// The entries `es`, with the texts of their keys.
pub open spec fn key_views<V>(es: Seq<(String, V)>) -> Seq<(Seq<char>, V)> {
    es.map_values(|e: (String, V)| (e.0@, e.1))
}

/// A map keyed by texts.
pub struct TextMap<V> {
    entries: Vec<(String, V)>,
}

impl<V> TextMap<V> {
    /// The entries, by the texts of their keys.
    pub closed spec fn entries(&self) -> Seq<(Seq<char>, V)> {
        key_views(self.entries@)
    }

    /// The map: each key with its value.
    pub open spec fn view(&self) -> Map<Seq<char>, V> {
        entries_map(self.entries())
    }

    /// No two entries have the same key.
    #[verifier::type_invariant]
    spec fn keys_unique(self) -> bool {
        unique_keys(self.entries())
    }

    /// An empty map.
    pub fn new() -> (m: Self)
        ensures
            m.view() == Map::<Seq<char>, V>::empty(),
    {
        let m = TextMap { entries: Vec::new() };
        assert(m.entries() =~= Seq::<(Seq<char>, V)>::empty());
        m
    }

    /// The position of the last entry whose key is `key`.
    fn find(&self, key: &str) -> (r: Option<usize>)
        ensures
            match r {
                Some(i) => i < self.entries().len() && self.entries()[i as int].0 == key@
                    && forall|j: int| i < j < self.entries().len() ==> (#[trigger] self.entries()[j]).0 != key@,
                None => forall|j: int| 0 <= j < self.entries().len() ==> (#[trigger] self.entries()[j]).0 != key@,
            },
    {
        let mut i = self.entries.len();
        while i > 0
            invariant
                i <= self.entries().len(),
                self.entries().len() == self.entries@.len(),
                forall|j: int| i <= j < self.entries().len() ==> (#[trigger] self.entries()[j]).0 != key@,
            decreases i,
        {
            i = i - 1;
            assert(self.entries()[i as int].0 == self.entries@[i as int].0@);
            if str_eq(self.entries[i].0.as_str(), key) {
                return Some(i);
            }
        }
        None
    }

    /// The map holds no entry after the last of `key`'s.
    proof fn lemma_find(&self, key: Seq<char>, i: int)
        requires
            0 <= i <= self.entries().len(),
            forall|j: int| i <= j < self.entries().len() ==> (#[trigger] self.entries()[j]).0 != key,
        ensures
            self.view().contains_key(key) == entries_map(self.entries().take(i)).contains_key(key),
            self.view().contains_key(key) ==> self.view()[key] == entries_map(self.entries().take(i))[key],
        decreases self.entries().len() - i,
    {
        lemma_entries_tail(self.entries(), key, i);
    }

    /// The value of `key`, if any.
    pub fn get(&self, key: &str) -> (r: Option<&V>)
        ensures
            match r {
                Some(v) => self.view().contains_key(key@) && *v == self.view()[key@],
                None => !self.view().contains_key(key@),
            },
    {
        match self.find(key) {
            Some(i) => {
                proof {
                    self.lemma_find(key@, i + 1);
                    let es = self.entries();
                    assert(es.take(i + 1).drop_last() =~= es.take(i as int));
                }
                Some(&self.entries[i].1)
            },
            None => {
                proof {
                    self.lemma_find(key@, 0);
                }
                None
            },
        }
    }

    /// Set the value of `key` to `value`.
    pub fn insert(&mut self, key: String, value: V)
        ensures
            final(self).view() == old(self).view().insert(key@, value),
    {
        proof {
            use_type_invariant(&*self);
        }
        let ghost es = self.entries();
        let found = self.find(key.as_str());
        let mut entries: Vec<(String, V)> = Vec::new();
        std::mem::swap(&mut entries, &mut self.entries);
        match found {
            Some(i) => {
                proof {
                    lemma_update_last(es, i as int, value);
                }
                entries[i] = (key, value);
                assert(key_views(entries@) =~= es.update(i as int, (es[i as int].0, value)));
                assert(unique_keys(key_views(entries@))) by {
                    let u = key_views(entries@);
                    assert forall|a: int, b: int| 0 <= a < b < u.len() implies (#[trigger] u[a]).0 != (#[trigger] u[b]).0 by {
                        assert(u[a].0 == es[a].0 && u[b].0 == es[b].0);
                    }
                }
                self.entries = entries;
            },
            None => {
                entries.push((key, value));
                assert(key_views(entries@).drop_last() =~= es);
                assert(unique_keys(key_views(entries@))) by {
                    let u = key_views(entries@);
                    assert forall|a: int, b: int| 0 <= a < b < u.len() implies (#[trigger] u[a]).0 != (#[trigger] u[b]).0 by {
                        assert(u[a] == es[a]);
                        if b < es.len() {
                            assert(u[b] == es[b]);
                        }
                    }
                }
                self.entries = entries;
            },
        }
    }

    /// Remove `key`, returning its value, if any.
    pub fn remove(&mut self, key: &str) -> (r: Option<V>)
        ensures
            final(self).view() == old(self).view().remove(key@),
            match r {
                Some(v) => old(self).view().contains_key(key@) && v == old(self).view()[key@],
                None => !old(self).view().contains_key(key@),
            },
    {
        proof {
            use_type_invariant(&*self);
        }
        match self.find(key) {
            Some(i) => {
                let ghost es = self.entries();
                proof {
                    lemma_unique_lookup(es);
                    lemma_remove_unique(es, i as int);
                }
                let mut entries: Vec<(String, V)> = Vec::new();
                std::mem::swap(&mut entries, &mut self.entries);
                let (_, v) = entries.remove(i);
                assert(key_views(entries@) =~= es.remove(i as int));
                self.entries = entries;
                Some(v)
            },
            None => {
                proof {
                    lemma_absent(self.entries(), key@);
                    assert(self.view().remove(key@) =~= self.view());
                }
                None
            },
        }
    }

    /// The keys of the map, each once, in no particular order.
    pub fn keys(&self) -> (r: Vec<String>)
        ensures
            r@.len() == self.view().dom().len(),
            forall|i: int| 0 <= i < r@.len() ==> self.view().contains_key(#[trigger] r@[i]@),
            forall|k: Seq<char>| #[trigger] self.view().contains_key(k)
                ==> exists|i: int| 0 <= i < r@.len() && (#[trigger] r@[i])@ == k,
    {
        proof {
            use_type_invariant(self);
        }
        let ghost es = self.entries();
        let mut r: Vec<String> = Vec::new();
        let mut i: usize = 0;
        while i < self.entries.len()
            invariant
                es == self.entries(),
                es.len() == self.entries@.len(),
                i <= es.len(),
                r@.len() == i,
                forall|j: int| 0 <= j < i ==> (#[trigger] r@[j])@ == es[j].0,
            decreases es.len() - i,
        {
            r.push(self.entries[i].0.clone());
            i = i + 1;
        }
        proof {
            lemma_unique_lookup(es);
            lemma_unique_len(es);
            assert forall|k: Seq<char>| #[trigger] self.view().contains_key(k)
                implies exists|i: int| 0 <= i < r@.len() && (#[trigger] r@[i])@ == k by {
                let j = choose|j: int| 0 <= j < es.len() && es[j].0 == k;
                assert(r@[j]@ == k);
            }
        }
        r
    }
}

/// No two of the entries `es` have the same key.
pub open spec fn unique_keys<V>(es: Seq<(Seq<char>, V)>) -> bool {
    forall|i: int, j: int| 0 <= i < j < es.len() ==> (#[trigger] es[i]).0 != (#[trigger] es[j]).0
}

/// A key of none of the entries is not in their map.
proof fn lemma_absent<V>(es: Seq<(Seq<char>, V)>, key: Seq<char>)
    requires
        forall|j: int| 0 <= j < es.len() ==> (#[trigger] es[j]).0 != key,
    ensures
        !entries_map(es).contains_key(key),
    decreases es.len(),
{
    if es.len() > 0 {
        let d = es.drop_last();
        assert forall|j: int| 0 <= j < d.len() implies (#[trigger] d[j]).0 != key by {
            assert(d[j] == es[j]);
        }
        lemma_absent(d, key);
    }
}

/// With unique keys, the map holds each entry, and only the keys of the
/// entries.
proof fn lemma_unique_lookup<V>(es: Seq<(Seq<char>, V)>)
    requires
        unique_keys(es),
    ensures
        forall|j: int| 0 <= j < es.len() ==> entries_map(es).contains_key((#[trigger] es[j]).0) && entries_map(es)[es[j].0] == es[j].1,
        forall|k: Seq<char>| #[trigger] entries_map(es).contains_key(k) ==> exists|j: int| 0 <= j < es.len() && es[j].0 == k,
    decreases es.len(),
{
    if es.len() > 0 {
        let d = es.drop_last();
        assert(unique_keys(d)) by {
            assert forall|i: int, j: int| 0 <= i < j < d.len() implies (#[trigger] d[i]).0 != (#[trigger] d[j]).0 by {
                assert(d[i] == es[i] && d[j] == es[j]);
            }
        }
        lemma_unique_lookup(d);
        assert forall|j: int| 0 <= j < es.len() implies entries_map(es).contains_key((#[trigger] es[j]).0) && entries_map(es)[es[j].0] == es[j].1 by {
            if j < es.len() - 1 {
                assert(d[j] == es[j]);
                assert(es[j].0 != es[es.len() - 1].0);
            }
        }
        assert forall|k: Seq<char>| #[trigger] entries_map(es).contains_key(k) implies exists|j: int| 0 <= j < es.len() && es[j].0 == k by {
            if k != es.last().0 {
                assert(entries_map(d).contains_key(k));
                let j = choose|j: int| 0 <= j < d.len() && d[j].0 == k;
                assert(es[j] == d[j]);
            } else {
                assert(es[es.len() - 1].0 == k);
            }
        }
    }
}

/// With unique keys, removing the entry of a key removes the key.
proof fn lemma_remove_unique<V>(es: Seq<(Seq<char>, V)>, i: int)
    requires
        unique_keys(es),
        0 <= i < es.len(),
    ensures
        entries_map(es.remove(i)) == entries_map(es).remove(es[i].0),
        unique_keys(es.remove(i)),
    decreases es.len(),
{
    let k = es[i].0;
    let d = es.drop_last();
    assert(unique_keys(d)) by {
        assert forall|a: int, b: int| 0 <= a < b < d.len() implies (#[trigger] d[a]).0 != (#[trigger] d[b]).0 by {
            assert(d[a] == es[a] && d[b] == es[b]);
        }
    }
    if i == es.len() - 1 {
        assert(es.remove(i) =~= d);
        assert forall|j: int| 0 <= j < d.len() implies (#[trigger] d[j]).0 != k by {
            assert(d[j] == es[j]);
        }
        lemma_absent(d, k);
        assert(entries_map(d) =~= entries_map(es).remove(k));
    } else {
        lemma_remove_unique(d, i);
        assert(d[i] == es[i]);
        assert(es.remove(i).drop_last() =~= d.remove(i));
        assert(es.remove(i).last() == es.last());
        assert(es.last().0 != k);
        assert(entries_map(es.remove(i)) =~= entries_map(es).remove(k));
    }
    es.remove_ensures(i);
    assert forall|a: int, b: int| 0 <= a < b < es.remove(i).len() implies (#[trigger] es.remove(i)[a]).0 != (#[trigger] es.remove(i)[b]).0 by {
        let a2 = if a < i { a } else { a + 1 };
        let b2 = if b < i { b } else { b + 1 };
        assert(es.remove(i)[a] == es[a2]);
        assert(es.remove(i)[b] == es[b2]);
    }
}

/// With unique keys, the map has as many keys as there are entries.
proof fn lemma_unique_len<V>(es: Seq<(Seq<char>, V)>)
    requires
        unique_keys(es),
    ensures
        entries_map(es).dom().finite(),
        entries_map(es).dom().len() == es.len(),
    decreases es.len(),
{
    if es.len() > 0 {
        let d = es.drop_last();
        assert(unique_keys(d)) by {
            assert forall|a: int, b: int| 0 <= a < b < d.len() implies (#[trigger] d[a]).0 != (#[trigger] d[b]).0 by {
                assert(d[a] == es[a] && d[b] == es[b]);
            }
        }
        lemma_unique_len(d);
        assert forall|j: int| 0 <= j < d.len() implies (#[trigger] d[j]).0 != es.last().0 by {
            assert(d[j] == es[j]);
        }
        lemma_absent(d, es.last().0);
    }
}

/// Entries after the position `i` that have other keys do not change the
/// value of `key`.
proof fn lemma_entries_tail<V>(es: Seq<(Seq<char>, V)>, key: Seq<char>, i: int)
    requires
        0 <= i <= es.len(),
        forall|j: int| i <= j < es.len() ==> (#[trigger] es[j]).0 != key,
    ensures
        entries_map(es).contains_key(key) == entries_map(es.take(i)).contains_key(key),
        entries_map(es).contains_key(key) ==> entries_map(es)[key] == entries_map(es.take(i))[key],
    decreases es.len() - i,
{
    if i < es.len() {
        let d = es.drop_last();
        assert(d.take(i) =~= es.take(i));
        assert forall|j: int| i <= j < d.len() implies (#[trigger] d[j]).0 != key by {
            assert(d[j] == es[j]);
        }
        lemma_entries_tail(d, key, i);
    } else {
        assert(es.take(i) =~= es);
    }
}

} // verus!
