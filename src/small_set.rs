use vstd::prelude::*;

use crate::equivalent::{Equivalent, StarlarkHashKey};
use crate::small_map::{insert_spec, lemma_has_first_match, lookup_spec, remove_spec, SmallMap};
use crate::hash_value::{hash_words, StarlarkHashValue};
use crate::vec_map::{entry_matches, has_match, Entry};

verus! {

/// The keys of a map's entries, in order.
pub open spec fn entry_keys<K>(s: Seq<Entry<K, ()>>) -> Seq<K> {
    s.map_values(|e: Entry<K, ()>| e.1)
}

/// Whether some key of `s` has the words `words`.
pub open spec fn contains_words<K: StarlarkHashKey>(s: Seq<K>, words: Seq<u32>) -> bool {
    exists|i: int| 0 <= i < s.len() && (#[trigger] s[i]).key_words() == words
}

/// A set that keeps insertion order: a [`SmallMap`] whose values carry nothing.
#[derive(Clone, Debug)]
pub struct SmallSet<K> {
    map: SmallMap<K, ()>,
}

impl<K> View for SmallSet<K> {
    type V = Seq<K>;

    closed spec fn view(&self) -> Seq<K> {
        entry_keys(self.map@)
    }
}

impl<K> SmallSet<K> {
    /// Number of keys.
    pub fn len(&self) -> (r: usize)
        ensures
            r == self@.len(),
    {
        self.map.len()
    }

    /// Whether there are no keys.
    pub fn is_empty(&self) -> (r: bool)
        ensures
            r == (self@.len() == 0),
    {
        self.map.is_empty()
    }

    /// The key at a position, in insertion order.
    pub fn get_index(&self, index: usize) -> (r: Option<&K>)
        ensures
            index < self@.len() ==> r == Some(&self@[index as int]),
            index >= self@.len() ==> r.is_none(),
    {
        match self.map.get_index(index) {
            Some((k, _)) => Some(k),
            None => None,
        }
    }
}

impl<K: StarlarkHashKey> SmallSet<K> {
    /// Keys are unique and the underlying map is well formed.
    pub closed spec fn wf(&self) -> bool {
        self.map.wf()
    }

    /// An empty set.
    pub fn new() -> (r: SmallSet<K>)
        ensures
            r.wf(),
            r@ == Seq::<K>::empty(),
    {
        let r = SmallSet { map: SmallMap::new() };
        proof {
            assert(r@ =~= Seq::<K>::empty());
        }
        r
    }

    /// Whether the key is present.
    pub fn contains<Q: Equivalent<K> + ?Sized>(&self, key: &Q) -> (r: bool)
        requires
            self.wf(),
        ensures
            r == contains_words(self@, key.key_words()),
    {
        let r = self.map.contains_key(key);
        proof {
            lemma_lookup_is_contains(self.map@, key.key_words());
        }
        r
    }

    /// Add a key at the end unless it is present; whether it was added.
    pub fn insert(&mut self, key: K) -> (r: bool)
        where
            K: Equivalent<K>,
        requires
            old(self).wf(),
        ensures
            final(self).wf(),
            r == !contains_words(old(self)@, key.key_words()),
            final(self)@ == if r {
                old(self)@.push(key)
            } else {
                old(self)@
            },
    {
        let ghost words = key.key_words();
        let ghost k = key;
        let prev = self.map.insert(key, ());
        proof {
            let o = old(self).map@;
            lemma_lookup_is_contains(o, words);
            old(self).map.lemma_wf_entries();
            let n = insert_spec(o, k, ());
            let h = StarlarkHashValue(hash_words(words));
            if prev.is_some() {
                let j = choose|j: int| 0 <= j < o.len() && (#[trigger] o[j]).1.key_words() == words;
                assert(entry_matches(o[j], h, words));
                assert(has_match(o, h, words));
                lemma_has_first_match(o, h, words);
                assert(n.len() == o.len());
                assert forall|i: int| 0 <= i < n.len() implies n[i].1 == o[i].1 by {}
                assert(entry_keys(n) =~= entry_keys(o));
            } else {
                if has_match(o, h, words) {
                    let j = choose|j: int| 0 <= j < o.len() && entry_matches(#[trigger] o[j], h, words);
                    assert(o[j].1.key_words() == words);
                }
                assert(entry_keys(n) =~= entry_keys(o).push(k));
            }
        }
        prev.is_none()
    }

    /// Remove the key, keeping the order of the others; whether it was present.
    pub fn remove<Q: Equivalent<K> + ?Sized>(&mut self, key: &Q) -> (r: bool)
        requires
            old(self).wf(),
        ensures
            final(self).wf(),
            r == contains_words(old(self)@, key.key_words()),
            !r ==> final(self)@ == old(self)@,
            r ==> exists|i: int|
                0 <= i < old(self)@.len() && (#[trigger] old(self)@[i]).key_words() == key.key_words()
                    && final(self)@ == old(self)@.remove(i),
            forall|i: int| 0 <= i < final(self)@.len() ==> (#[trigger] final(self)@[i]).key_words() != key.key_words(),
    {
        let ghost words = key.key_words();
        let prev = self.map.remove(key);
        proof {
            let o = old(self).map@;
            lemma_lookup_is_contains(o, words);
            old(self).map.lemma_wf_entries();
            self.map.lemma_wf_entries();
            let n = self.map@;
            if exists|i: int| 0 <= i < o.len() && (#[trigger] o[i]).1.key_words() == words {
                let i = choose|i: int| 0 <= i < o.len() && (#[trigger] o[i]).1.key_words() == words;
                assert(n == o.remove(i));
                assert(entry_keys(n) =~= entry_keys(o).remove(i));
                assert(entry_keys(o)[i].key_words() == words);
                assert(self@ == entry_keys(n));
                assert(old(self)@ == entry_keys(o));
                assert(0 <= i < old(self)@.len() && old(self)@[i].key_words() == words && self@ == old(self)@.remove(i));
                assert forall|j: int| 0 <= j < n.len() implies (#[trigger] entry_keys(n)[j]).key_words() != words by {
                    let j2 = if j < i { j } else { j + 1 };
                    assert(n[j] == o[j2]);
                }
            } else {
                assert forall|j: int| 0 <= j < n.len() implies (#[trigger] entry_keys(n)[j]).key_words() != words by {
                    assert(n[j] == o[j]);
                }
            }
        }
        prev.is_some()
    }
}

/// A key has a value in a map exactly when it is among the map's keys.
proof fn lemma_lookup_is_contains<K: StarlarkHashKey>(s: Seq<Entry<K, ()>>, words: Seq<u32>)
    ensures
        lookup_spec(s, words).is_some() == contains_words(entry_keys(s), words),
        lookup_spec(s, words).is_none() ==> remove_spec(s, words) == s,
{
    if contains_words(entry_keys(s), words) {
        let i = choose|i: int| 0 <= i < entry_keys(s).len() && (#[trigger] entry_keys(s)[i]).key_words() == words;
        assert(s[i].1.key_words() == words);
    }
    if exists|i: int| 0 <= i < s.len() && (#[trigger] s[i]).1.key_words() == words {
        let i = choose|i: int| 0 <= i < s.len() && (#[trigger] s[i]).1.key_words() == words;
        assert(entry_keys(s)[i].key_words() == words);
    }
}

} // verus!
