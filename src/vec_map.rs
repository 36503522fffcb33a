use vstd::prelude::*;

use vstd::seq_lib::{to_multiset_build, to_multiset_contains, to_multiset_remove};

use crate::equivalent::{
    lemma_words_le_total, lemma_words_le_transitive, words_le, Equivalent, StarlarkHashKey, StarlarkOrdKey,
};
use crate::hash_value::{hash_words, StarlarkHashValue};
use crate::hashed::Hashed;

verus! {

/// One entry of a [`VecMap`]: the key's hash, the key and the value.
#[derive(Clone, Debug)]
pub(crate) struct Bucket<K, V> {
    hash: StarlarkHashValue,
    key: K,
    value: V,
}

/// An entry as the contracts see it: hash, key, value.
pub type Entry<K, V> = (StarlarkHashValue, K, V);

/// Whether an entry holds the key with hash `h` and words `words`.
pub open spec fn entry_matches<K: StarlarkHashKey, V>(
    e: Entry<K, V>,
    h: StarlarkHashValue,
    words: Seq<u32>,
) -> bool {
    e.0 == h && e.1.key_words() == words
}

/// Whether some entry holds the key.
pub open spec fn has_match<K: StarlarkHashKey, V>(
    s: Seq<Entry<K, V>>,
    h: StarlarkHashValue,
    words: Seq<u32>,
) -> bool {
    exists|i: int| 0 <= i < s.len() && entry_matches(#[trigger] s[i], h, words)
}

/// Whether `i` is the position of the first entry that holds the key.
pub open spec fn is_first_match<K: StarlarkHashKey, V>(
    s: Seq<Entry<K, V>>,
    h: StarlarkHashValue,
    words: Seq<u32>,
    i: int,
) -> bool {
    &&& 0 <= i < s.len()
    &&& entry_matches(s[i], h, words)
    &&& forall|j: int| 0 <= j < i ==> !entry_matches(#[trigger] s[j], h, words)
}

/// The entries after appending each hashed key and value of `items` in turn.
pub open spec fn append_all<K, V>(s: Seq<Entry<K, V>>, items: Seq<(Hashed<K>, V)>) -> Seq<Entry<K, V>>
    decreases items.len(),
{
    if items.len() == 0 {
        s
    } else {
        append_all(s, items.drop_last()).push(
            (items.last().0.spec_hash(), items.last().0.spec_key(), items.last().1),
        )
    }
}

/// Appending to an empty map lists the entries in the order they were appended, each
/// once, with the hash stored at the time.
pub proof fn lemma_append_order<K, V>(items: Seq<(Hashed<K>, V)>)
    ensures
        append_all(Seq::<Entry<K, V>>::empty(), items).len() == items.len(),
        forall|i: int|
            0 <= i < items.len() ==> {
                let e = #[trigger] append_all(Seq::<Entry<K, V>>::empty(), items)[i];
                &&& e.0 == items[i].0.spec_hash()
                &&& e.1 == items[i].0.spec_key()
                &&& e.2 == items[i].1
            },
    decreases items.len(),
{
    if items.len() > 0 {
        let init = items.drop_last();
        lemma_append_order(init);
        assert forall|i: int| 0 <= i < init.len() implies init[i] == items[i] by {}
    }
}

/// The first entry that holds a key is one position: maps with the same entries,
/// however they were made or whatever room they reserved, find the same entry.
pub proof fn lemma_first_match_unique<K: StarlarkHashKey, V>(
    s: Seq<Entry<K, V>>,
    h: StarlarkHashValue,
    words: Seq<u32>,
    i: int,
    j: int,
)
    requires
        is_first_match(s, h, words, i),
        is_first_match(s, h, words, j),
    ensures
        i == j,
{
    if i < j {
        assert(!entry_matches(s[i], h, words));
    } else if j < i {
        assert(!entry_matches(s[j], h, words));
    }
}

/// An insertion-ordered sequence of buckets, searched linearly.
#[derive(Clone, Debug)]
pub struct VecMap<K, V> {
    buckets: Vec<Bucket<K, V>>,
}

impl<K, V> View for VecMap<K, V> {
    type V = Seq<Entry<K, V>>;

    closed spec fn view(&self) -> Seq<Entry<K, V>> {
        self.buckets@.map_values(|b: Bucket<K, V>| (b.hash, b.key, b.value))
    }
}

impl<K, V> VecMap<K, V> {
    /// An empty map.
    pub fn new() -> (r: VecMap<K, V>)
        ensures
            r@ == Seq::<Entry<K, V>>::empty(),
    {
        let r = VecMap { buckets: Vec::new() };
        proof {
            assert(r@ =~= Seq::<Entry<K, V>>::empty());
        }
        r
    }

    /// An empty map with room for `n` entries.
    pub fn with_capacity(n: usize) -> (r: VecMap<K, V>)
        ensures
            r@ == Seq::<Entry<K, V>>::empty(),
    {
        let r = VecMap { buckets: Vec::with_capacity(n) };
        proof {
            assert(r@ =~= Seq::<Entry<K, V>>::empty());
        }
        r
    }

    /// Make room for `additional` more entries.
    pub fn reserve(&mut self, additional: usize)
        ensures
            final(self)@ == old(self)@,
    {
        self.buckets.reserve(additional);
        proof {
            assert(final(self)@ =~= old(self)@);
        }
    }

    /// Number of entries.
    pub fn len(&self) -> (r: usize)
        ensures
            r == self@.len(),
    {
        self.buckets.len()
    }

    /// Whether there are no entries.
    pub fn is_empty(&self) -> (r: bool)
        ensures
            r == (self@.len() == 0),
    {
        self.buckets.len() == 0
    }

    /// Remove all entries.
    pub fn clear(&mut self)
        ensures
            final(self)@ == Seq::<Entry<K, V>>::empty(),
    {
        self.buckets.clear();
        proof {
            assert(final(self)@ =~= Seq::<Entry<K, V>>::empty());
        }
    }

    /// The key and value at a position.
    pub fn get_index(&self, index: usize) -> (r: Option<(&K, &V)>)
        ensures
            index < self@.len() ==> r == Some((&self@[index as int].1, &self@[index as int].2)),
            index >= self@.len() ==> r.is_none(),
    {
        if index < self.buckets.len() {
            let b = &self.buckets[index];
            Some((&b.key, &b.value))
        } else {
            None
        }
    }

    /// The hashed key and value at a position that the caller knows to be valid.
    pub fn get_unchecked(&self, index: usize) -> (r: (Hashed<&K>, &V))
        requires
            index < self@.len(),
        ensures
            r.0.spec_hash() == self@[index as int].0,
            *r.0.spec_key() == self@[index as int].1,
            *r.1 == self@[index as int].2,
    {
        let b = &self.buckets[index];
        (Hashed::new_unchecked(b.hash, &b.key), &b.value)
    }

    /// Replace the value at a position that the caller knows to be valid,
    /// and return the previous one.
    pub fn replace_value(&mut self, index: usize, value: V) -> (r: V)
        requires
            index < old(self)@.len(),
        ensures
            r == old(self)@[index as int].2,
            final(self)@ == old(self)@.update(
                index as int,
                (old(self)@[index as int].0, old(self)@[index as int].1, value),
            ),
    {
        let b = self.buckets.remove(index);
        let Bucket { hash, key, value: prev } = b;
        self.buckets.insert(index, Bucket { hash, key, value });
        proof {
            assert(final(self)@ =~= old(self)@.update(
                index as int,
                (old(self)@[index as int].0, old(self)@[index as int].1, value),
            ));
        }
        prev
    }

    /// Append an entry; the caller knows that the key is not present yet.
    pub fn insert_unique_unchecked(&mut self, key: Hashed<K>, value: V)
        ensures
            final(self)@ == old(self)@.push((key.spec_hash(), key.spec_key(), value)),
    {
        let hash = key.hash();
        self.buckets.push(Bucket { hash, key: key.into_key(), value });
        proof {
            assert(final(self)@ =~= old(self)@.push((key.spec_hash(), key.spec_key(), value)));
        }
    }

    /// Remove the entry at a position, keeping the order of the others.
    pub fn remove(&mut self, index: usize) -> (r: (Hashed<K>, V))
        requires
            index < old(self)@.len(),
        ensures
            r.0.spec_hash() == old(self)@[index as int].0,
            r.0.spec_key() == old(self)@[index as int].1,
            r.1 == old(self)@[index as int].2,
            final(self)@ == old(self)@.remove(index as int),
    {
        let Bucket { hash, key, value } = self.buckets.remove(index);
        proof {
            assert(final(self)@ =~= old(self)@.remove(index as int));
        }
        (Hashed::new_unchecked(hash, key), value)
    }

    /// Remove the last entry.
    pub fn pop(&mut self) -> (r: Option<(Hashed<K>, V)>)
        ensures
            old(self)@.len() == 0 ==> r.is_none() && final(self)@ == old(self)@,
            old(self)@.len() > 0 ==> {
                &&& final(self)@ == old(self)@.drop_last()
                &&& r matches Some((hk, v))
                &&& hk.spec_hash() == old(self)@.last().0
                &&& hk.spec_key() == old(self)@.last().1
                &&& v == old(self)@.last().2
            },
    {
        match self.buckets.pop() {
            None => None,
            Some(b) => {
                proof {
                    assert(final(self)@ =~= old(self)@.drop_last());
                }
                let Bucket { hash, key, value } = b;
                Some((Hashed::new_unchecked(hash, key), value))
            },
        }
    }

    /// All entries with their hashed keys, in order.
    pub fn into_iter_hashed(self) -> (r: Vec<(Hashed<K>, V)>)
        ensures
            r@.len() == self@.len(),
            forall|i: int|
                0 <= i < r@.len() ==> {
                    &&& (#[trigger] r@[i]).0.spec_hash() == self@[i].0
                    &&& r@[i].0.spec_key() == self@[i].1
                    &&& r@[i].1 == self@[i].2
                },
    {
        let ghost entries = self@;
        let mut rest = self.buckets;
        let mut reversed: Vec<Bucket<K, V>> = Vec::new();
        while rest.len() > 0
            invariant
                rest@.len() + reversed@.len() == entries.len(),
                forall|i: int| 0 <= i < rest@.len() ==> {
                    &&& (#[trigger] rest@[i]).hash == entries[i].0
                    &&& rest@[i].key == entries[i].1
                    &&& rest@[i].value == entries[i].2
                },
                forall|i: int| 0 <= i < reversed@.len() ==> {
                    let e = entries[entries.len() - 1 - i];
                    &&& (#[trigger] reversed@[i]).hash == e.0
                    &&& reversed@[i].key == e.1
                    &&& reversed@[i].value == e.2
                },
            decreases rest@.len(),
        {
            let b = rest.pop().unwrap();
            reversed.push(b);
        }
        let mut r: Vec<(Hashed<K>, V)> = Vec::new();
        while reversed.len() > 0
            invariant
                r@.len() + reversed@.len() == entries.len(),
                forall|i: int| 0 <= i < reversed@.len() ==> {
                    let e = entries[entries.len() - 1 - i];
                    &&& (#[trigger] reversed@[i]).hash == e.0
                    &&& reversed@[i].key == e.1
                    &&& reversed@[i].value == e.2
                },
                forall|i: int| 0 <= i < r@.len() ==> {
                    &&& (#[trigger] r@[i]).0.spec_hash() == entries[i].0
                    &&& r@[i].0.spec_key() == entries[i].1
                    &&& r@[i].1 == entries[i].2
                },
            decreases reversed@.len(),
        {
            let Bucket { hash, key, value } = reversed.pop().unwrap();
            r.push((Hashed::new_unchecked(hash, key), value));
        }
        r
    }
}

/// The words that an ordered hash of the map folds: for each entry in order, its stored
/// hash, then the words of its value. Keys are not hashed again.
pub open spec fn ordered_words<K, V: StarlarkHashKey>(s: Seq<Entry<K, V>>) -> Seq<u32>
    decreases s.len(),
{
    if s.len() == 0 {
        Seq::empty()
    } else {
        ordered_words(s.drop_last()) + seq![s.last().0@, hash_words(s.last().2.key_words())]
    }
}

/// Whether two sequences of entries hold equal keys and values, position by position.
pub open spec fn entries_eq_ordered<K: StarlarkHashKey, V: StarlarkHashKey>(
    a: Seq<Entry<K, V>>,
    b: Seq<Entry<K, V>>,
) -> bool {
    &&& a.len() == b.len()
    &&& forall|i: int|
        0 <= i < a.len() ==> (#[trigger] a[i]).1.key_words() == b[i].1.key_words() && a[i].2.key_words()
            == b[i].2.key_words()
}

impl<K, V> VecMap<K, V> {
    /// The keys, in order.
    pub fn keys(&self) -> (r: Vec<&K>)
        ensures
            r@.len() == self@.len(),
            forall|i: int| 0 <= i < r@.len() ==> *(#[trigger] r@[i]) == self@[i].1,
    {
        let mut r: Vec<&K> = Vec::new();
        let mut i: usize = 0;
        while i < self.buckets.len()
            invariant
                i <= self@.len(),
                r@.len() == i,
                forall|j: int| 0 <= j < i ==> *(#[trigger] r@[j]) == self@[j].1,
            decreases self@.len() - i,
        {
            r.push(&self.buckets[i].key);
            i = i + 1;
        }
        r
    }

    /// The values, in order.
    pub fn values(&self) -> (r: Vec<&V>)
        ensures
            r@.len() == self@.len(),
            forall|i: int| 0 <= i < r@.len() ==> *(#[trigger] r@[i]) == self@[i].2,
    {
        let mut r: Vec<&V> = Vec::new();
        let mut i: usize = 0;
        while i < self.buckets.len()
            invariant
                i <= self@.len(),
                r@.len() == i,
                forall|j: int| 0 <= j < i ==> *(#[trigger] r@[j]) == self@[j].2,
            decreases self@.len() - i,
        {
            r.push(&self.buckets[i].value);
            i = i + 1;
        }
        r
    }
}

impl<K: StarlarkHashKey, V: StarlarkHashKey> VecMap<K, V> {
    /// Equal where the entries hold equal keys and values in the same order.
    pub fn eq_ordered(&self, other: &Self) -> (r: bool)
        where
            K: Equivalent<K>,
            V: Equivalent<V>,
        ensures
            r == entries_eq_ordered(self@, other@),
    {
        if self.buckets.len() != other.buckets.len() {
            return false;
        }
        let mut i: usize = 0;
        while i < self.buckets.len()
            invariant
                self@.len() == other@.len(),
                i <= self@.len(),
                forall|j: int|
                    0 <= j < i ==> (#[trigger] self@[j]).1.key_words() == other@[j].1.key_words()
                        && self@[j].2.key_words() == other@[j].2.key_words(),
            decreases self@.len() - i,
        {
            let a = &self.buckets[i];
            let b = &other.buckets[i];
            if !a.key.equivalent(&b.key) || !a.value.equivalent(&b.value) {
                proof {
                    assert(self@[i as int].1 == a.key && self@[i as int].2 == a.value);
                    assert(other@[i as int].1 == b.key && other@[i as int].2 == b.value);
                }
                return false;
            }
            i = i + 1;
        }
        true
    }

    /// Hash the entries in order: each entry's stored hash stands for its key.
    pub fn hash_ordered(&self) -> (r: StarlarkHashValue)
        ensures
            r@ == hash_words(ordered_words(self@)),
    {
        let mut words: Vec<u32> = Vec::new();
        let mut i: usize = 0;
        while i < self.buckets.len()
            invariant
                i <= self@.len(),
                words@ == ordered_words(self@.subrange(0, i as int)),
            decreases self@.len() - i,
        {
            let b = &self.buckets[i];
            proof {
                assert(self@.subrange(0, i + 1).drop_last() =~= self@.subrange(0, i as int));
            }
            words.push(b.hash.get());
            words.push(b.value.hash_key().get());
            i = i + 1;
            proof {
                assert(words@ =~= ordered_words(self@.subrange(0, i as int)));
            }
        }
        proof {
            assert(self@.subrange(0, self@.len() as int) =~= self@);
        }
        StarlarkHashValue::hash_words(words.as_slice())
    }
}

/// No two entries hold the same key.
pub open spec fn keys_unique<K: StarlarkHashKey, V>(s: Seq<Entry<K, V>>) -> bool {
    forall|i: int, j: int|
        0 <= i < s.len() && 0 <= j < s.len() && i != j ==> (#[trigger] s[i]).1.key_words()
            != (#[trigger] s[j]).1.key_words()
}

/// Whether the entries come in the order of their keys.
pub open spec fn keys_sorted<K: StarlarkHashKey, V>(s: Seq<Entry<K, V>>) -> bool {
    forall|i: int, j: int|
        0 <= i < j < s.len() ==> words_le((#[trigger] s[i]).1.key_words(), (#[trigger] s[j]).1.key_words())
}

/// The entries that a sequence of buckets holds.
spec fn bucket_entries<K, V>(v: Seq<Bucket<K, V>>) -> Seq<Entry<K, V>> {
    v.map_values(|b: Bucket<K, V>| (b.hash, b.key, b.value))
}

impl<K: StarlarkOrdKey, V> VecMap<K, V> {
    /// Reorder the entries by their keys, which are all different.
    pub fn sort_keys(&mut self)
        requires
            keys_unique(old(self)@),
        ensures
            final(self)@.to_multiset() == old(self)@.to_multiset(),
            keys_sorted(final(self)@),
    {
        broadcast use vstd::seq_lib::group_to_multiset_ensures;

        let ghost orig = self@;
        let mut rest: Vec<Bucket<K, V>> = Vec::new();
        std::mem::swap(&mut rest, &mut self.buckets);
        let mut out: Vec<Bucket<K, V>> = Vec::new();
        proof {
            assert(bucket_entries(rest@) == orig);
            assert(bucket_entries(out@) =~= Seq::<Entry<K, V>>::empty());
            assert(orig.to_multiset().add(Seq::<Entry<K, V>>::empty().to_multiset()) =~= orig.to_multiset());
        }
        while rest.len() > 0
            invariant
                bucket_entries(out@).to_multiset().add(bucket_entries(rest@).to_multiset()) == orig.to_multiset(),
                keys_sorted(bucket_entries(out@)),
                forall|x: int, y: int|
                    0 <= x < out@.len() && 0 <= y < rest@.len() ==> words_le(
                        (#[trigger] out@[x]).key.key_words(),
                        (#[trigger] rest@[y]).key.key_words(),
                    ),
            decreases rest@.len(),
        {
            let mut m: usize = 0;
            let mut j: usize = 1;
            proof {
                lemma_words_le_total(rest@[0].key.key_words(), rest@[0].key.key_words());
            }
            while j < rest.len()
                invariant
                    m < rest@.len(),
                    1 <= j <= rest@.len(),
                    forall|t: int| 0 <= t < j ==> words_le(rest@[m as int].key.key_words(), (#[trigger] rest@[t]).key.key_words()),
                decreases rest@.len() - j,
            {
                let ghost old_m = m;
                if !rest[m].key.key_le(&rest[j].key) {
                    proof {
                        lemma_words_le_total(rest@[m as int].key.key_words(), rest@[j as int].key.key_words());
                    }
                    m = j;
                    proof {
                        lemma_words_le_total(rest@[m as int].key.key_words(), rest@[m as int].key.key_words());
                        assert forall|t: int| 0 <= t < j + 1 implies words_le(rest@[m as int].key.key_words(), (#[trigger] rest@[t]).key.key_words()) by {
                            if t < j {
                                lemma_words_le_transitive(
                                    rest@[m as int].key.key_words(),
                                    rest@[old_m as int].key.key_words(),
                                    rest@[t].key.key_words(),
                                );
                            }
                        }
                    }
                }
                j = j + 1;
            }
            let ghost rest_before = rest@;
            let ghost out_before = out@;
            let b = rest.remove(m);
            out.push(b);
            proof {
                let e = bucket_entries(rest_before)[m as int];
                assert(bucket_entries(rest@) =~= bucket_entries(rest_before).remove(m as int));
                assert(bucket_entries(out@) =~= bucket_entries(out_before).push(e));
                assert(bucket_entries(rest_before).contains(e));
                to_multiset_contains(bucket_entries(rest_before), e);
                to_multiset_remove(bucket_entries(rest_before), m as int);
                to_multiset_build(bucket_entries(out_before), e);
                assert(bucket_entries(out@).to_multiset().add(bucket_entries(rest@).to_multiset()) =~= bucket_entries(
                    out_before,
                ).to_multiset().add(bucket_entries(rest_before).to_multiset()));
                assert forall|x: int, y: int|
                    0 <= x < out@.len() && 0 <= y < rest@.len() implies words_le(
                        (#[trigger] out@[x]).key.key_words(),
                        (#[trigger] rest@[y]).key.key_words(),
                    ) by {
                    let y2 = if y < m { y } else { y + 1 };
                    assert(rest@[y] == rest_before[y2]);
                    if x < out_before.len() {
                        assert(out@[x] == out_before[x]);
                    }
                }
                let ov = bucket_entries(out@);
                assert forall|x: int, y: int| 0 <= x < y < ov.len() implies words_le(
                    (#[trigger] ov[x]).1.key_words(),
                    (#[trigger] ov[y]).1.key_words(),
                ) by {
                    if y < out_before.len() {
                        assert(ov[x] == bucket_entries(out_before)[x]);
                        assert(ov[y] == bucket_entries(out_before)[y]);
                    } else {
                        assert(out@[x] == out_before[x]);
                    }
                }
            }
        }
        self.buckets = out;
        proof {
            assert(bucket_entries(rest@) =~= Seq::<Entry<K, V>>::empty());
            assert(self@ == bucket_entries(out@));
            assert(self@.to_multiset() =~= self@.to_multiset().add(Seq::<Entry<K, V>>::empty().to_multiset()));
        }
    }
}

impl<K: StarlarkHashKey, V> VecMap<K, V> {
    /// Find the first entry that holds the key: the stored hash is compared first,
    /// the key only where the hashes agree.
    pub fn get_full<Q: Equivalent<K> + ?Sized>(&self, key: Hashed<&Q>) -> (r: Option<(usize, &K, &V)>)
        ensures
            match r {
                Some((i, k, v)) => {
                    &&& is_first_match(self@, key.spec_hash(), key.spec_key().key_words(), i as int)
                    &&& *k == self@[i as int].1
                    &&& *v == self@[i as int].2
                },
                None => !has_match(self@, key.spec_hash(), key.spec_key().key_words()),
            },
    {
        let h = key.hash();
        let q = key.key();
        let mut i: usize = 0;
        while i < self.buckets.len()
            invariant
                i <= self@.len(),
                h == key.spec_hash(),
                *q == key.spec_key(),
                forall|j: int| 0 <= j < i ==> !entry_matches(#[trigger] self@[j], h, q.key_words()),
            decreases self@.len() - i,
        {
            let b = &self.buckets[i];
            if b.hash == h && q.equivalent(&b.key) {
                return Some((i, &b.key, &b.value));
            }
            i = i + 1;
        }
        None
    }

    /// Position of the first entry that holds the key.
    pub fn get_index_of_hashed<Q: Equivalent<K> + ?Sized>(&self, key: Hashed<&Q>) -> (r: Option<usize>)
        ensures
            match r {
                Some(i) => is_first_match(self@, key.spec_hash(), key.spec_key().key_words(), i as int),
                None => !has_match(self@, key.spec_hash(), key.spec_key().key_words()),
            },
    {
        match self.get_full(key) {
            Some((i, _, _)) => Some(i),
            None => None,
        }
    }

    /// Remove the first entry that holds the key, keeping the order of the others.
    pub fn remove_hashed_entry<Q: Equivalent<K> + ?Sized>(&mut self, key: Hashed<&Q>) -> (r: Option<(K, V)>)
        ensures
            match r {
                Some((k, v)) => exists|i: int| {
                    &&& is_first_match(old(self)@, key.spec_hash(), key.spec_key().key_words(), i)
                    &&& k == old(self)@[i].1
                    &&& v == old(self)@[i].2
                    &&& final(self)@ == old(self)@.remove(i)
                },
                None => {
                    &&& !has_match(old(self)@, key.spec_hash(), key.spec_key().key_words())
                    &&& final(self)@ == old(self)@
                },
            },
    {
        match self.get_index_of_hashed(key) {
            None => None,
            Some(i) => {
                let (hk, v) = self.remove(i);
                Some((hk.into_key(), v))
            },
        }
    }
}

} // verus!
