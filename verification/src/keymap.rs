//! A small string-keyed map that keeps its entries in insertion order.
//!
//! It stands in for the hash maps of string keys that the DSL and the engine use
//! (headers, extracted variables, faker field definitions, ...).  Its abstract
//! value is a `Map` from key text to value, and `pairs` exposes the ordered list
//! of entries.
use vstd::prelude::*;
use crate::text::str_equal;

verus! {

/// No two entries of an association list carry the same key.
pub open spec fn keys_unique<V>(s: Seq<(Seq<char>, V)>) -> bool {
    forall|i: int, j: int| 0 <= i < j < s.len() ==> s[i].0 != s[j].0
}

/// The key `k` occurs in the association list `s`.
pub open spec fn has_key<V>(s: Seq<(Seq<char>, V)>, k: Seq<char>) -> bool {
    exists|i: int| 0 <= i < s.len() && #[trigger] s[i].0 == k
}

/// The map that an association list stands for.
pub open spec fn assoc_map<V>(s: Seq<(Seq<char>, V)>) -> Map<Seq<char>, V> {
    Map::new(
        |k: Seq<char>| has_key(s, k),
        |k: Seq<char>| s[choose|i: int| 0 <= i < s.len() && #[trigger] s[i].0 == k].1,
    )
}

/// In an association list without repeated keys, the value of the entry at `i` is
/// what the map gives for its key.
pub proof fn lemma_assoc_map_at<V>(s: Seq<(Seq<char>, V)>, i: int)
    requires
        keys_unique(s),
        0 <= i < s.len(),
    ensures
        assoc_map(s).contains_key(s[i].0),
        assoc_map(s)[s[i].0] == s[i].1,
{
    let k = s[i].0;
    assert(has_key(s, k));
    let j = choose|j: int| 0 <= j < s.len() && #[trigger] s[j].0 == k;
    if j != i {
        if j < i {
            assert(s[j].0 != s[i].0);
        } else {
            assert(s[i].0 != s[j].0);
        }
    }
}

/// Entries with their keys taken as text.
pub open spec fn pairs_of<V>(entries: Seq<(String, V)>) -> Seq<(Seq<char>, V)> {
    entries.map_values(|e: (String, V)| (e.0@, e.1))
}

/// A string-keyed map kept in insertion order.
#[derive(Debug)]
pub struct KeyMap<V> {
    entries: Vec<(String, V)>,
}

impl<V> View for KeyMap<V> {
    type V = Map<Seq<char>, V>;

    open spec fn view(&self) -> Map<Seq<char>, V> {
        assoc_map(self.pairs())
    }
}

impl<V> KeyMap<V> {
    /// The entries in insertion order, keys taken as text.
    pub closed spec fn pairs(&self) -> Seq<(Seq<char>, V)> {
        pairs_of(self.entries@)
    }

    #[verifier::type_invariant]
    spec fn inv(&self) -> bool {
        keys_unique(self.pairs())
    }

    /// Keys never repeat.
    pub fn unique_keys(&self)
        ensures
            keys_unique(self.pairs()),
    {
        proof {
            use_type_invariant(self);
        }
    }

    /// An empty map.
    pub fn new() -> (m: Self)
        ensures
            m.pairs() == Seq::<(Seq<char>, V)>::empty(),
            m@ == Map::<Seq<char>, V>::empty(),
    {
        let m = KeyMap { entries: Vec::new() };
        assert(m.pairs() =~= Seq::<(Seq<char>, V)>::empty());
        assert(m@ =~= Map::<Seq<char>, V>::empty());
        m
    }

    /// The entries, in insertion order.
    pub fn into_entries(self) -> (r: Vec<(String, V)>)
        ensures
            pairs_of(r@) == self.pairs(),
    {
        self.entries
    }

    /// Number of entries, which is the number of distinct keys.
    pub fn len(&self) -> (n: usize)
        ensures
            n == self.pairs().len(),
    {
        self.entries.len()
    }

    /// The key of the entry at `i`.
    pub fn key_at(&self, i: usize) -> (k: &String)
        requires
            i < self.pairs().len(),
        ensures
            k@ == self.pairs()[i as int].0,
    {
        &self.entries[i].0
    }

    /// The value of the entry at `i`.
    pub fn value_at(&self, i: usize) -> (v: &V)
        requires
            i < self.pairs().len(),
        ensures
            *v == self.pairs()[i as int].1,
    {
        &self.entries[i].1
    }

    /// Position of the entry with key `key`, if any.
    pub fn position(&self, key: &str) -> (r: Option<usize>)
        ensures
            match r {
                Some(i) => i < self.pairs().len() && self.pairs()[i as int].0 == key@,
                None => !has_key(self.pairs(), key@),
            },
    {
        let n = self.entries.len();
        let mut i: usize = 0;
        while i < n
            invariant
                n == self.entries@.len(),
                i <= n,
                forall|j: int| 0 <= j < i ==> self.pairs()[j].0 != key@,
            decreases n - i,
        {
            let k = self.entries[i].0.as_str();
            if str_equal(k, key) {
                return Some(i);
            }
            i = i + 1;
        }
        proof {
            assert forall|j: int| 0 <= j < self.pairs().len() implies #[trigger] self.pairs()[j].0
                != key@ by {}
        }
        None
    }

    /// Whether `key` has an entry.
    pub fn contains_key(&self, key: &str) -> (b: bool)
        ensures
            b == self@.contains_key(key@),
    {
        self.position(key).is_some()
    }

    /// The value stored under `key`.
    pub fn get(&self, key: &str) -> (r: Option<&V>)
        ensures
            match r {
                Some(v) => self@.contains_key(key@) && *v == self@[key@],
                None => !self@.contains_key(key@),
            },
    {
        proof {
            use_type_invariant(self);
        }
        match self.position(key) {
            Some(i) => {
                proof {
                    lemma_assoc_map_at(self.pairs(), i as int);
                }
                Some(&self.entries[i].1)
            },
            None => None,
        }
    }

    /// Stores `value` under `key`: an existing entry keeps its place and takes the
    /// new value, a new key is appended.
    pub fn insert(&mut self, key: String, value: V)
        ensures
            final(self)@ == old(self)@.insert(key@, value),
            has_key(old(self).pairs(), key@) ==> final(self).pairs().len() == old(self).pairs().len(),
            !has_key(old(self).pairs(), key@) ==> final(self).pairs() == old(self).pairs().push(
                (key@, value),
            ),
            forall|i: int|
                0 <= i < old(self).pairs().len() ==> #[trigger] final(self).pairs()[i].0 == old(
                    self,
                ).pairs()[i].0,
    {
        proof {
            use_type_invariant(&*self);
        }
        let ghost old_pairs = self.pairs();
        let ghost kv = key@;
        let pos = self.position(key.as_str());
        match pos {
            Some(i) => {
                let mut entries: Vec<(String, V)> = Vec::new();
                std::mem::swap(&mut entries, &mut self.entries);
                entries.set(i, (key, value));
                proof {
                    assert(pairs_of(entries@) =~= old_pairs.update(i as int, (kv, value)));
                    assert(keys_unique(pairs_of(entries@)));
                }
                self.entries = entries;
                proof {
                    let new_pairs = self.pairs();
                    assert(assoc_map(new_pairs) =~= assoc_map(old_pairs).insert(kv, value)) by {
                        assert forall|k: Seq<char>| #[trigger]
                            assoc_map(new_pairs).contains_key(k) == assoc_map(
                                old_pairs,
                            ).insert(kv, value).contains_key(k) by {
                            if has_key(new_pairs, k) {
                                let j = choose|j: int|
                                    0 <= j < new_pairs.len() && #[trigger] new_pairs[j].0 == k;
                                if j != i {
                                    assert(old_pairs[j].0 == k);
                                }
                            }
                            if has_key(old_pairs, k) {
                                let j = choose|j: int|
                                    0 <= j < old_pairs.len() && #[trigger] old_pairs[j].0 == k;
                                assert(new_pairs[j].0 == k);
                            }
                            if k == kv {
                                assert(new_pairs[i as int].0 == k);
                            }
                        }
                        assert forall|k: Seq<char>|
                            #[trigger] assoc_map(new_pairs).contains_key(k) implies assoc_map(
                                new_pairs,
                            )[k] == assoc_map(old_pairs).insert(kv, value)[k] by {
                            let j = choose|j: int|
                                0 <= j < new_pairs.len() && #[trigger] new_pairs[j].0 == k;
                            lemma_assoc_map_at(new_pairs, j);
                            if j != i {
                                lemma_assoc_map_at(old_pairs, j);
                            }
                        }
                    }
                }
            },
            None => {
                let mut entries: Vec<(String, V)> = Vec::new();
                std::mem::swap(&mut entries, &mut self.entries);
                entries.push((key, value));
                proof {
                    assert(pairs_of(entries@) =~= old_pairs.push((kv, value)));
                    assert(keys_unique(pairs_of(entries@)));
                }
                self.entries = entries;
                proof {
                    let new_pairs = self.pairs();
                    assert(assoc_map(new_pairs) =~= assoc_map(old_pairs).insert(kv, value)) by {
                        assert forall|k: Seq<char>| #[trigger]
                            assoc_map(new_pairs).contains_key(k) == assoc_map(
                                old_pairs,
                            ).insert(kv, value).contains_key(k) by {
                            if has_key(new_pairs, k) {
                                let j = choose|j: int|
                                    0 <= j < new_pairs.len() && #[trigger] new_pairs[j].0 == k;
                                if j < old_pairs.len() {
                                    assert(old_pairs[j].0 == k);
                                }
                            }
                            if has_key(old_pairs, k) {
                                let j = choose|j: int|
                                    0 <= j < old_pairs.len() && #[trigger] old_pairs[j].0 == k;
                                assert(new_pairs[j].0 == k);
                            }
                            if k == kv {
                                assert(new_pairs[old_pairs.len() as int].0 == k);
                            }
                        }
                        assert forall|k: Seq<char>|
                            #[trigger] assoc_map(new_pairs).contains_key(k) implies assoc_map(
                                new_pairs,
                            )[k] == assoc_map(old_pairs).insert(kv, value)[k] by {
                            let j = choose|j: int|
                                0 <= j < new_pairs.len() && #[trigger] new_pairs[j].0 == k;
                            lemma_assoc_map_at(new_pairs, j);
                            if j < old_pairs.len() {
                                lemma_assoc_map_at(old_pairs, j);
                            }
                        }
                    }
                }
            },
        }
    }
}

impl<V: Clone> Clone for KeyMap<V> {
    /// A copy with the same keys in the same order, each value cloned.
    fn clone(&self) -> (r: Self)
        ensures
            r.pairs().len() == self.pairs().len(),
            forall|i: int|
                0 <= i < self.pairs().len() ==> (#[trigger] r.pairs()[i]).0 == self.pairs()[i].0
                    && cloned::<V>(self.pairs()[i].1, r.pairs()[i].1),
    {
        proof {
            use_type_invariant(self);
        }
        let mut out: Vec<(String, V)> = Vec::new();
        let n = self.entries.len();
        let mut i: usize = 0;
        while i < n
            invariant
                n == self.entries@.len(),
                i <= n,
                out@.len() == i,
                keys_unique(self.pairs()),
                forall|j: int|
                    0 <= j < i ==> (#[trigger] pairs_of(out@)[j]).0 == self.pairs()[j].0
                        && cloned::<V>(self.pairs()[j].1, pairs_of(out@)[j].1),
            decreases n - i,
        {
            let k = self.entries[i].0.clone();
            let v = self.entries[i].1.clone();
            let ghost old_out = out@;
            let ghost kk = k@;
            let ghost vv = v;
            out.push((k, v));
            proof {
                assert(pairs_of(out@) =~= pairs_of(old_out).push((kk, vv)));
                assert(pairs_of(out@)[i as int].0 == self.pairs()[i as int].0);
            }
            i = i + 1;
        }
        proof {
            assert forall|a: int, b: int| 0 <= a < b < pairs_of(out@).len() implies pairs_of(
                out@,
            )[a].0 != pairs_of(out@)[b].0 by {
                assert(pairs_of(out@)[a].0 == self.pairs()[a].0);
                assert(pairs_of(out@)[b].0 == self.pairs()[b].0);
            }
        }
        KeyMap { entries: out }
    }
}

} // verus!
