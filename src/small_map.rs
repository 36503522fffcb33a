use vstd::prelude::*;

use crate::equivalent::{Equivalent, StarlarkHashKey};
use crate::hash_value::{hash_words, StarlarkHashValue};
use crate::hashed::Hashed;
use crate::vec_map::{entry_matches, has_match, is_first_match, keys_unique, Entry, VecMap};

verus! {

/// Up to this many entries a map has no hash index and is searched linearly.
pub const NO_INDEX_THRESHOLD: usize = 32;

/// The hash of each entry.
pub open spec fn entry_hashes<K, V>(s: Seq<Entry<K, V>>) -> Seq<u32> {
    s.map_values(|e: Entry<K, V>| e.0@)
}

/// Every entry stores the canonical hash of its key.
pub open spec fn hashes_canonical<K: StarlarkHashKey, V>(s: Seq<Entry<K, V>>) -> bool {
    forall|i: int| 0 <= i < s.len() ==> (#[trigger] s[i]).0@ == hash_words(s[i].1.key_words())
}

/// Index slot of the entry at position `p`, in a table of `n` slots.
pub open spec fn slot_of(hs: Seq<u32>, p: int, n: int) -> int {
    hs[p] as int % n
}

/// `link` points to the last position before `upto` whose slot is `t`
/// (as the position plus one), or is zero where there is none.
pub open spec fn link_ok(hs: Seq<u32>, n: int, t: int, link: usize, upto: int) -> bool {
    if link == 0 {
        forall|q: int| 0 <= q < upto ==> #[trigger] slot_of(hs, q, n) != t
    } else {
        &&& link - 1 < upto
        &&& slot_of(hs, link - 1, n) == t
        &&& forall|q: int| link - 1 < q < upto ==> #[trigger] slot_of(hs, q, n) != t
    }
}

/// The chained hash index over the first `len` hashes of `hs`: each slot heads a chain
/// that visits every position of that slot, from the last to the first.
pub open spec fn index_ok(hs: Seq<u32>, heads: Seq<usize>, next: Seq<usize>, len: int) -> bool {
    let n = heads.len() as int;
    &&& n > 0
    &&& next.len() == len
    &&& len <= hs.len()
    &&& forall|t: int| 0 <= t < n ==> link_ok(hs, n, t, #[trigger] heads[t], len)
    &&& forall|p: int| 0 <= p < len ==> link_ok(hs, n, slot_of(hs, p, n), #[trigger] next[p], p)
}

/// A map that keeps insertion order. Small maps are searched linearly; once a map grows
/// past [`NO_INDEX_THRESHOLD`] entries it also keeps a hash index, and never drops it.
#[derive(Clone, Debug)]
pub struct SmallMap<K, V> {
    entries: VecMap<K, V>,
    heads: Vec<usize>,
    next: Vec<usize>,
}

impl<K, V> View for SmallMap<K, V> {
    type V = Seq<Entry<K, V>>;

    closed spec fn view(&self) -> Seq<Entry<K, V>> {
        self.entries@
    }
}

/// The map after inserting `key` with `value`: an existing entry of the key gets the
/// new value and keeps its place, else the entry goes at the end.
pub open spec fn insert_spec<K: StarlarkHashKey, V>(
    s: Seq<Entry<K, V>>,
    key: K,
    value: V,
) -> Seq<Entry<K, V>> {
    let h = StarlarkHashValue(hash_words(key.key_words()));
    if has_match(s, h, key.key_words()) {
        let i = choose|i: int| is_first_match(s, h, key.key_words(), i);
        s.update(i, (s[i].0, s[i].1, value))
    } else {
        s.push((h, key, value))
    }
}

/// The value stored for the key with words `words`, if any.
pub open spec fn lookup_spec<K: StarlarkHashKey, V>(s: Seq<Entry<K, V>>, words: Seq<u32>) -> Option<V> {
    if exists|i: int| 0 <= i < s.len() && (#[trigger] s[i]).1.key_words() == words {
        let i = choose|i: int| 0 <= i < s.len() && (#[trigger] s[i]).1.key_words() == words;
        Some(s[i].2)
    } else {
        None
    }
}

/// The map after removing the key with words `words`, where it is present.
pub open spec fn remove_spec<K: StarlarkHashKey, V>(s: Seq<Entry<K, V>>, words: Seq<u32>) -> Seq<Entry<K, V>> {
    if exists|i: int| 0 <= i < s.len() && (#[trigger] s[i]).1.key_words() == words {
        let i = choose|i: int| 0 <= i < s.len() && (#[trigger] s[i]).1.key_words() == words;
        s.remove(i)
    } else {
        s
    }
}

/// In a map with unique keys and canonical hashes, the first entry that holds a key
/// with its canonical hash is the one entry that holds it.
proof fn lemma_first_match_is_the_entry<K: StarlarkHashKey, V>(s: Seq<Entry<K, V>>, words: Seq<u32>, i: int)
    requires
        keys_unique(s),
        hashes_canonical(s),
        is_first_match(s, StarlarkHashValue(hash_words(words)), words, i),
    ensures
        lookup_spec(s, words) == Some(s[i].2),
        remove_spec(s, words) == s.remove(i),
        (choose|j: int| 0 <= j < s.len() && (#[trigger] s[j]).1.key_words() == words) == i,
        (choose|j: int| is_first_match(s, StarlarkHashValue(hash_words(words)), words, j)) == i,
{
    let h = StarlarkHashValue(hash_words(words));
    let j = choose|j: int| 0 <= j < s.len() && (#[trigger] s[j]).1.key_words() == words;
    assert(0 <= j < s.len() && s[j].1.key_words() == words);
    assert(j == i);
    let k = choose|k: int| is_first_match(s, h, words, k);
    assert(is_first_match(s, h, words, k));
    if k < i {
        assert(!entry_matches(s[k], h, words));
    } else if i < k {
        assert(!entry_matches(s[i], h, words));
    }
}

/// Where no entry holds a key with its canonical hash, the key is absent.
proof fn lemma_no_match_is_absent<K: StarlarkHashKey, V>(s: Seq<Entry<K, V>>, words: Seq<u32>)
    requires
        hashes_canonical(s),
        !has_match(s, StarlarkHashValue(hash_words(words)), words),
    ensures
        lookup_spec(s, words).is_none(),
        remove_spec(s, words) == s,
        forall|i: int| 0 <= i < s.len() ==> (#[trigger] s[i]).1.key_words() != words,
{
    assert forall|i: int| 0 <= i < s.len() implies (#[trigger] s[i]).1.key_words() != words by {
        if s[i].1.key_words() == words {
            assert(entry_matches(s[i], StarlarkHashValue(hash_words(words)), words));
        }
    }
}

/// The index stays in order when hashes are added after the positions it covers.
proof fn lemma_index_extend(hs: Seq<u32>, hs2: Seq<u32>, heads: Seq<usize>, next: Seq<usize>, len: int)
    requires
        index_ok(hs, heads, next, len),
        len <= hs2.len(),
        forall|q: int| 0 <= q < len ==> hs[q] == hs2[q],
    ensures
        index_ok(hs2, heads, next, len),
{
    let n = heads.len() as int;
    assert forall|q: int| 0 <= q < len implies #[trigger] slot_of(hs2, q, n) == slot_of(hs, q, n) by {}
    assert forall|t: int| 0 <= t < n implies link_ok(hs2, n, t, #[trigger] heads[t], len) by {
        assert(link_ok(hs, n, t, heads[t], len));
    }
    assert forall|p: int| 0 <= p < len implies link_ok(hs2, n, slot_of(hs2, p, n), #[trigger] next[p], p) by {
        assert(link_ok(hs, n, slot_of(hs, p, n), next[p], p));
    }
}

/// The map after inserting each pair of `pairs` in turn.
pub open spec fn insert_all<K: StarlarkHashKey, V>(s: Seq<Entry<K, V>>, pairs: Seq<(K, V)>) -> Seq<Entry<K, V>>
    decreases pairs.len(),
{
    if pairs.len() == 0 {
        s
    } else {
        insert_spec(insert_all(s, pairs.drop_last()), pairs.last().0, pairs.last().1)
    }
}

/// Inserting keys that are all different, into an empty map, lists them in the order
/// of insertion, each with its value and canonical hash.
pub proof fn lemma_insertion_order<K: StarlarkHashKey, V>(pairs: Seq<(K, V)>)
    requires
        forall|i: int, j: int|
            0 <= i < pairs.len() && 0 <= j < pairs.len() && i != j ==> (#[trigger] pairs[i]).0.key_words()
                != (#[trigger] pairs[j]).0.key_words(),
    ensures
        insert_all(Seq::<Entry<K, V>>::empty(), pairs).len() == pairs.len(),
        forall|i: int|
            0 <= i < pairs.len() ==> {
                let e = #[trigger] insert_all(Seq::<Entry<K, V>>::empty(), pairs)[i];
                &&& e.0@ == hash_words(pairs[i].0.key_words())
                &&& e.1 == pairs[i].0
                &&& e.2 == pairs[i].1
            },
    decreases pairs.len(),
{
    if pairs.len() > 0 {
        let init = pairs.drop_last();
        assert forall|i: int, j: int|
            0 <= i < init.len() && 0 <= j < init.len() && i != j implies (#[trigger] init[i]).0.key_words()
                != (#[trigger] init[j]).0.key_words() by {
            assert(init[i] == pairs[i]);
            assert(init[j] == pairs[j]);
        }
        lemma_insertion_order(init);
        let s = insert_all(Seq::<Entry<K, V>>::empty(), init);
        let k = pairs.last().0;
        let h = StarlarkHashValue(hash_words(k.key_words()));
        if has_match(s, h, k.key_words()) {
            let i = choose|i: int| 0 <= i < s.len() && entry_matches(#[trigger] s[i], h, k.key_words());
            assert(s[i].1 == init[i].0);
            assert(pairs[i] == init[i]);
            assert(pairs[pairs.len() - 1] == pairs.last());
        }
        let r = insert_all(Seq::<Entry<K, V>>::empty(), pairs);
        assert(r == s.push((h, k, pairs.last().1)));
        assert forall|i: int| 0 <= i < pairs.len() implies {
            let e = #[trigger] r[i];
            &&& e.0@ == hash_words(pairs[i].0.key_words())
            &&& e.1 == pairs[i].0
            &&& e.2 == pairs[i].1
        } by {
            if i < init.len() {
                assert(init[i] == pairs[i]);
            }
        }
    }
}

/// A key inserted with a value is then found, through any key with the same words
/// (a borrowed view of it included), with that value.
pub proof fn lemma_lookup_after_insert<K: StarlarkHashKey, V>(s: Seq<Entry<K, V>>, key: K, value: V, words: Seq<u32>)
    requires
        keys_unique(s),
        hashes_canonical(s),
        words == key.key_words(),
    ensures
        lookup_spec(insert_spec(s, key, value), words) == Some(value),
{
    let h = StarlarkHashValue(hash_words(words));
    let r = insert_spec(s, key, value);
    if has_match(s, h, words) {
        let i = choose|i: int| is_first_match(s, h, words, i);
        lemma_has_first_match(s, h, words);
        assert(is_first_match(s, h, words, i));
        assert(r[i].1.key_words() == words);
        let j = choose|j: int| 0 <= j < r.len() && (#[trigger] r[j]).1.key_words() == words;
        if j != i {
            assert(r[j] == s[j]);
            assert(s[i].1.key_words() == s[j].1.key_words());
        }
    } else {
        lemma_no_match_is_absent(s, words);
        let last = s.len() as int;
        assert(r[last].1.key_words() == words);
        let j = choose|j: int| 0 <= j < r.len() && (#[trigger] r[j]).1.key_words() == words;
        if j != last {
            assert(r[j] == s[j]);
        }
    }
}

/// Where some entry holds a key, a first one does.
pub(crate) proof fn lemma_has_first_match<K: StarlarkHashKey, V>(s: Seq<Entry<K, V>>, h: StarlarkHashValue, words: Seq<u32>)
    requires
        has_match(s, h, words),
    ensures
        exists|i: int| is_first_match(s, h, words, i),
{
    let w = choose|w: int| 0 <= w < s.len() && entry_matches(#[trigger] s[w], h, words);
    lemma_first_match_below(s, h, words, w);
}

proof fn lemma_first_match_below<K: StarlarkHashKey, V>(s: Seq<Entry<K, V>>, h: StarlarkHashValue, words: Seq<u32>, w: int)
    requires
        0 <= w < s.len(),
        entry_matches(s[w], h, words),
    ensures
        exists|i: int| is_first_match(s, h, words, i),
    decreases w,
{
    if exists|j: int| 0 <= j < w && entry_matches(#[trigger] s[j], h, words) {
        let j = choose|j: int| 0 <= j < w && entry_matches(#[trigger] s[j], h, words);
        lemma_first_match_below(s, h, words, j);
    } else {
        assert(is_first_match(s, h, words, w));
    }
}

/// Inserting a key adds one entry exactly when the key was absent; removing a key
/// takes one entry away exactly when it was present, and changes nothing otherwise.
pub proof fn lemma_length_counts<K: StarlarkHashKey, V>(s: Seq<Entry<K, V>>, key: K, value: V, words: Seq<u32>)
    requires
        keys_unique(s),
        hashes_canonical(s),
    ensures
        insert_spec(s, key, value).len() == s.len() + if lookup_spec(s, key.key_words()).is_none() {
            1int
        } else {
            0int
        },
        remove_spec(s, words).len() == s.len() - if lookup_spec(s, words).is_some() {
            1int
        } else {
            0int
        },
        lookup_spec(s, words).is_none() ==> remove_spec(s, words) == s,
{
    let k_words = key.key_words();
    let kh = StarlarkHashValue(hash_words(k_words));
    if has_match(s, kh, k_words) {
        lemma_has_first_match(s, kh, k_words);
        let i = choose|i: int| is_first_match(s, kh, k_words, i);
        lemma_first_match_is_the_entry(s, k_words, i);
    } else {
        lemma_no_match_is_absent(s, k_words);
    }
    let h = StarlarkHashValue(hash_words(words));
    if has_match(s, h, words) {
        lemma_has_first_match(s, h, words);
        let i = choose|i: int| is_first_match(s, h, words, i);
        lemma_first_match_is_the_entry(s, words, i);
    } else {
        lemma_no_match_is_absent(s, words);
    }
}

/// The map after a sequence of operations: `(true, k, v)` inserts `k` with `v`,
/// `(false, k, _)` removes the key `k`.
pub open spec fn apply_ops<K: StarlarkHashKey, V>(s: Seq<Entry<K, V>>, ops: Seq<(bool, K, V)>) -> Seq<Entry<K, V>>
    decreases ops.len(),
{
    if ops.len() == 0 {
        s
    } else {
        let before = apply_ops(s, ops.drop_last());
        let op = ops.last();
        if op.0 {
            insert_spec(before, op.1, op.2)
        } else {
            remove_spec(before, op.1.key_words())
        }
    }
}

/// How many operations of the sequence succeed: insertions of an absent key, and
/// removals of a present key.
pub open spec fn successes<K: StarlarkHashKey, V>(s: Seq<Entry<K, V>>, ops: Seq<(bool, K, V)>, inserts: bool) -> int
    decreases ops.len(),
{
    if ops.len() == 0 {
        0
    } else {
        let before = apply_ops(s, ops.drop_last());
        let op = ops.last();
        let present = lookup_spec(before, op.1.key_words()).is_some();
        successes(s, ops.drop_last(), inserts) + if op.0 == inserts && present != inserts {
            1int
        } else {
            0int
        }
    }
}

/// Inserting or removing keeps keys unique and hashes canonical.
proof fn lemma_ops_keep_entries_valid<K: StarlarkHashKey, V>(s: Seq<Entry<K, V>>, key: K, value: V)
    requires
        keys_unique(s),
        hashes_canonical(s),
    ensures
        keys_unique(insert_spec(s, key, value)),
        hashes_canonical(insert_spec(s, key, value)),
        keys_unique(remove_spec(s, key.key_words())),
        hashes_canonical(remove_spec(s, key.key_words())),
{
    let words = key.key_words();
    let h = StarlarkHashValue(hash_words(words));
    let n = insert_spec(s, key, value);
    if has_match(s, h, words) {
        lemma_has_first_match(s, h, words);
        let i = choose|i: int| is_first_match(s, h, words, i);
        assert(n == s.update(i, (s[i].0, s[i].1, value)));
        assert forall|a: int, b: int|
            0 <= a < n.len() && 0 <= b < n.len() && a != b implies (#[trigger] n[a]).1.key_words()
                != (#[trigger] n[b]).1.key_words() by {
            assert(n[a].1 == s[a].1);
            assert(n[b].1 == s[b].1);
        }
        assert forall|a: int| 0 <= a < n.len() implies (#[trigger] n[a]).0@ == hash_words(n[a].1.key_words()) by {
            assert(n[a].1 == s[a].1 && n[a].0 == s[a].0);
        }
    } else {
        lemma_no_match_is_absent(s, words);
        assert(n == s.push((h, key, value)));
        assert forall|a: int, b: int|
            0 <= a < n.len() && 0 <= b < n.len() && a != b implies (#[trigger] n[a]).1.key_words()
                != (#[trigger] n[b]).1.key_words() by {
            if a < s.len() {
                assert(n[a] == s[a]);
            }
            if b < s.len() {
                assert(n[b] == s[b]);
            }
        }
        assert forall|a: int| 0 <= a < n.len() implies (#[trigger] n[a]).0@ == hash_words(n[a].1.key_words()) by {
            if a < s.len() {
                assert(n[a] == s[a]);
            }
        }
    }
    let r = remove_spec(s, words);
    if exists|i: int| 0 <= i < s.len() && (#[trigger] s[i]).1.key_words() == words {
        let i = choose|i: int| 0 <= i < s.len() && (#[trigger] s[i]).1.key_words() == words;
        assert(r == s.remove(i));
        assert forall|a: int, b: int|
            0 <= a < r.len() && 0 <= b < r.len() && a != b implies (#[trigger] r[a]).1.key_words()
                != (#[trigger] r[b]).1.key_words() by {
            let a2 = if a < i { a } else { a + 1 };
            let b2 = if b < i { b } else { b + 1 };
            assert(r[a] == s[a2]);
            assert(r[b] == s[b2]);
        }
        assert forall|a: int| 0 <= a < r.len() implies (#[trigger] r[a]).0@ == hash_words(r[a].1.key_words()) by {
            let a2 = if a < i { a } else { a + 1 };
            assert(r[a] == s[a2]);
        }
    }
}

/// Over any sequence of insertions and removals, the length is the starting length
/// plus the insertions that added a key minus the removals that found one; a removal
/// of an absent key changes nothing.
pub proof fn lemma_length_over_ops<K: StarlarkHashKey, V>(s: Seq<Entry<K, V>>, ops: Seq<(bool, K, V)>)
    requires
        keys_unique(s),
        hashes_canonical(s),
    ensures
        keys_unique(apply_ops(s, ops)),
        hashes_canonical(apply_ops(s, ops)),
        apply_ops(s, ops).len() == s.len() + successes(s, ops, true) - successes(s, ops, false),
    decreases ops.len(),
{
    if ops.len() > 0 {
        let init = ops.drop_last();
        lemma_length_over_ops(s, init);
        let before = apply_ops(s, init);
        let op = ops.last();
        lemma_ops_keep_entries_valid(before, op.1, op.2);
        lemma_length_counts(before, op.1, op.2, op.1.key_words());
    }
}

/// The entries alone decide what insertions, removals and lookups give: two
/// well-formed maps with the same entries, whichever of them keeps a hash index (one
/// may have grown past [`NO_INDEX_THRESHOLD`] entries and kept its index after
/// removals, the other never have), given the same operations end with the same
/// entries in the same order and answer every lookup alike.
pub proof fn lemma_backend_transparent<K: StarlarkHashKey, V>(
    a: SmallMap<K, V>,
    b: SmallMap<K, V>,
    ops: Seq<(bool, K, V)>,
    words: Seq<u32>,
)
    requires
        a.wf(),
        b.wf(),
        a@ == b@,
    ensures
        apply_ops(a@, ops) == apply_ops(b@, ops),
        lookup_spec(apply_ops(a@, ops), words) == lookup_spec(apply_ops(b@, ops), words),
{
}

impl<K, V> SmallMap<K, V> {
    /// Whether the map keeps a hash index.
    pub closed spec fn is_indexed(&self) -> bool {
        self.heads@.len() > 0
    }

    /// Number of entries.
    pub fn len(&self) -> (r: usize)
        ensures
            r == self@.len(),
    {
        self.entries.len()
    }

    /// Whether there are no entries.
    pub fn is_empty(&self) -> (r: bool)
        ensures
            r == (self@.len() == 0),
    {
        self.entries.is_empty()
    }

    /// The key and value at a position, in insertion order.
    pub fn get_index(&self, index: usize) -> (r: Option<(&K, &V)>)
        ensures
            index < self@.len() ==> r == Some((&self@[index as int].1, &self@[index as int].2)),
            index >= self@.len() ==> r.is_none(),
    {
        self.entries.get_index(index)
    }

    /// All entries with their hashed keys, in insertion order.
    pub fn into_iter_hashed(self) -> (r: Vec<(Hashed<K>, V)>)
        ensures
            r@.len() == self@.len(),
            forall|i: int|
                0 <= i < r@.len() ==> {
                    &&& (#[trigger] r@[i]).0.spec_hash() == self@[i].0
                    &&& r@[i].0.spec_key() == self@[i].1
                    &&& r@[i].1 == self@[i].2
                },
    {
        self.entries.into_iter_hashed()
    }
}

impl<K: StarlarkHashKey, V> SmallMap<K, V> {
    /// Keys are unique, hashes canonical, and the index, where there is one, is in order.
    pub closed spec fn wf(&self) -> bool {
        &&& keys_unique(self@)
        &&& hashes_canonical(self@)
        &&& self.heads@.len() == 0 ==> self.next@.len() == 0 && self@.len() <= NO_INDEX_THRESHOLD
        &&& self.heads@.len() > 0 ==> index_ok(
            entry_hashes(self@),
            self.heads@,
            self.next@,
            self@.len() as int,
        )
    }

    /// An empty map, without an index.
    pub fn new() -> (r: SmallMap<K, V>)
        ensures
            r@ == Seq::<Entry<K, V>>::empty(),
            !r.is_indexed(),
            r.wf(),
    {
        SmallMap { entries: VecMap::new(), heads: Vec::new(), next: Vec::new() }
    }

    /// An empty map with room for `n` entries.
    pub fn with_capacity(n: usize) -> (r: SmallMap<K, V>)
        ensures
            r@ == Seq::<Entry<K, V>>::empty(),
            !r.is_indexed(),
            r.wf(),
    {
        SmallMap { entries: VecMap::with_capacity(n), heads: Vec::new(), next: Vec::new() }
    }

    /// A map of the given pairs, inserted in order.
    pub fn from_entries(pairs: Vec<(K, V)>) -> (r: SmallMap<K, V>)
        where
            K: Equivalent<K>,
        ensures
            r.wf(),
            r@ == insert_all(Seq::<Entry<K, V>>::empty(), pairs@),
    {
        let ghost all = pairs@;
        let mut rest = pairs;
        let mut reversed: Vec<(K, V)> = Vec::new();
        while rest.len() > 0
            invariant
                rest@.len() + reversed@.len() == all.len(),
                forall|i: int| 0 <= i < rest@.len() ==> #[trigger] rest@[i] == all[i],
                forall|i: int| 0 <= i < reversed@.len() ==> #[trigger] reversed@[i] == all[all.len() - 1 - i],
            decreases rest@.len(),
        {
            let p = rest.pop().unwrap();
            reversed.push(p);
        }
        let mut m = SmallMap::new();
        let ghost mut done: int = 0;
        while reversed.len() > 0
            invariant
                m.wf(),
                done + reversed@.len() == all.len(),
                0 <= done <= all.len(),
                forall|i: int| 0 <= i < reversed@.len() ==> #[trigger] reversed@[i] == all[all.len() - 1 - i],
                m@ == insert_all(Seq::<Entry<K, V>>::empty(), all.subrange(0, done)),
            decreases reversed@.len(),
        {
            let (k, v) = reversed.pop().unwrap();
            proof {
                assert(all.subrange(0, done + 1).drop_last() =~= all.subrange(0, done));
                assert(all.subrange(0, done + 1).last() == all[done]);
            }
            m.insert(k, v);
            proof {
                done = done + 1;
            }
        }
        proof {
            assert(all.subrange(0, all.len() as int) =~= all);
        }
        m
    }

    /// What a well-formed map says of its entries.
    pub proof fn lemma_wf_entries(&self)
        requires
            self.wf(),
        ensures
            keys_unique(self@),
            hashes_canonical(self@),
    {
    }

    /// Add the entry at position `next.len()` to the index.
    fn index_push(&mut self, h: StarlarkHashValue)
        requires
            old(self).heads@.len() > 0,
            old(self).next@.len() < old(self)@.len(),
            entry_hashes(old(self)@)[old(self).next@.len() as int] == h@,
            index_ok(
                entry_hashes(old(self)@),
                old(self).heads@,
                old(self).next@,
                old(self).next@.len() as int,
            ),
        ensures
            final(self)@ == old(self)@,
            final(self).heads@.len() == old(self).heads@.len(),
            final(self).next@.len() == old(self).next@.len() + 1,
            index_ok(
                entry_hashes(final(self)@),
                final(self).heads@,
                final(self).next@,
                final(self).next@.len() as int,
            ),
    {
        let ghost hs = entry_hashes(self@);
        let ghost n = self.heads@.len() as int;
        let ghost p = self.next@.len() as int;
        let s = (h.get() as usize) % self.heads.len();
        let link = self.heads[s];
        self.next.push(link);
        self.heads.set(s, self.next.len());
        proof {
            assert(slot_of(hs, p, n) == s);
            assert forall|t: int| 0 <= t < n implies link_ok(hs, n, t, #[trigger] self.heads@[t], p + 1) by {
                if t != s {
                    assert(link_ok(hs, n, t, old(self).heads@[t], p));
                }
            }
            assert forall|q: int| 0 <= q < p + 1 implies link_ok(hs, n, slot_of(hs, q, n), #[trigger] self.next@[q], q) by {
                if q < p {
                    assert(link_ok(hs, n, slot_of(hs, q, n), old(self).next@[q], q));
                } else {
                    assert(link_ok(hs, n, s as int, old(self).heads@[s as int], p));
                }
            }
        }
    }

    /// Build an index of `n` slots over all entries.
    fn rebuild_index(&mut self, n: usize)
        requires
            n > 0,
            keys_unique(old(self)@),
            hashes_canonical(old(self)@),
        ensures
            final(self)@ == old(self)@,
            final(self).heads@.len() == n,
            final(self).wf(),
    {
        let mut heads: Vec<usize> = Vec::new();
        let mut t: usize = 0;
        while t < n
            invariant
                t <= n,
                heads@.len() == t,
                forall|u: int| 0 <= u < t ==> #[trigger] heads@[u] == 0,
            decreases n - t,
        {
            heads.push(0);
            t = t + 1;
        }
        self.heads = heads;
        self.next = Vec::new();
        let len = self.entries.len();
        proof {
            let hs = entry_hashes(self@);
            assert forall|u: int| 0 <= u < n implies link_ok(hs, n as int, u, #[trigger] self.heads@[u], 0) by {}
        }
        let mut p: usize = 0;
        while p < len
            invariant
                len == self@.len(),
                self@ == old(self)@,
                self.heads@.len() == n,
                p == self.next@.len(),
                p <= len,
                index_ok(entry_hashes(self@), self.heads@, self.next@, p as int),
            decreases len - p,
        {
            let (hk, _) = self.entries.get_unchecked(p);
            let h = hk.hash();
            self.index_push(h);
            p = p + 1;
        }
    }

    /// Position of the first entry that holds the key, found through the index.
    fn index_lookup<Q: Equivalent<K> + ?Sized>(&self, h: StarlarkHashValue, q: &Q) -> (r: Option<usize>)
        requires
            self.wf(),
            self.is_indexed(),
        ensures
            match r {
                Some(i) => is_first_match(self@, h, q.key_words(), i as int),
                None => !has_match(self@, h, q.key_words()),
            },
    {
        let ghost hs = entry_hashes(self@);
        let ghost n = self.heads@.len() as int;
        let ghost len = self@.len() as int;
        let s = (h.get() as usize) % self.heads.len();
        let mut cur = self.heads[s];
        let mut found: Option<usize> = None;
        proof {
            assert(link_ok(hs, n, s as int, self.heads@[s as int], len));
        }
        while cur > 0
            invariant
                self.wf(),
                self.is_indexed(),
                hs == entry_hashes(self@),
                n == self.heads@.len(),
                len == self@.len(),
                s == h@ as int % n,
                cur == 0 || (cur - 1 < len && slot_of(hs, cur - 1, n) == s),
                forall|j: int|
                    cur <= j < len && #[trigger] slot_of(hs, j, n) == s && entry_matches(self@[j], h, q.key_words())
                        ==> (found matches Some(f) && f <= j),
                found matches Some(f) ==> cur <= f < len && entry_matches(self@[f as int], h, q.key_words()),
            decreases cur,
        {
            let p = cur - 1;
            let (hk, _) = self.entries.get_unchecked(p);
            if hk.hash() == h && q.equivalent(*hk.key()) {
                found = Some(p);
            }
            proof {
                assert(link_ok(hs, n, slot_of(hs, p as int, n), self.next@[p as int], p as int));
            }
            cur = self.next[p];
        }
        proof {
            assert forall|j: int| 0 <= j < len && entry_matches(self@[j], h, q.key_words()) implies
                (found matches Some(f) && f <= j) by {
                assert(hs[j] == self@[j].0@);
                assert(slot_of(hs, j, n) == s);
            }
        }
        found
    }

    /// Position of the entry that holds the key.
    pub fn get_index_of_hashed<Q: Equivalent<K> + ?Sized>(&self, key: Hashed<&Q>) -> (r: Option<usize>)
        requires
            self.wf(),
        ensures
            match r {
                Some(i) => is_first_match(self@, key.spec_hash(), key.spec_key().key_words(), i as int),
                None => !has_match(self@, key.spec_hash(), key.spec_key().key_words()),
            },
    {
        if self.heads.len() > 0 {
            self.index_lookup(key.hash(), *key.key())
        } else {
            self.entries.get_index_of_hashed(key)
        }
    }

    /// The entry that holds the key, with its position.
    pub fn get_full_hashed<Q: Equivalent<K> + ?Sized>(&self, key: Hashed<&Q>) -> (r: Option<(usize, &K, &V)>)
        requires
            self.wf(),
        ensures
            match r {
                Some((i, k, v)) => {
                    &&& is_first_match(self@, key.spec_hash(), key.spec_key().key_words(), i as int)
                    &&& *k == self@[i as int].1
                    &&& *v == self@[i as int].2
                },
                None => !has_match(self@, key.spec_hash(), key.spec_key().key_words()),
            },
    {
        match self.get_index_of_hashed(key) {
            None => None,
            Some(i) => {
                let (hk, v) = self.entries.get_unchecked(i);
                Some((i, *hk.key(), v))
            },
        }
    }

    /// The value stored for the key.
    pub fn get<Q: Equivalent<K> + ?Sized>(&self, key: &Q) -> (r: Option<&V>)
        requires
            self.wf(),
        ensures
            match r {
                Some(v) => lookup_spec(self@, key.key_words()) == Some(*v),
                None => lookup_spec(self@, key.key_words()).is_none(),
            },
    {
        let hk = Hashed::new(key);
        match self.get_full_hashed(hk) {
            Some((i, _, v)) => {
                proof {
                    lemma_first_match_is_the_entry(self@, key.key_words(), i as int);
                }
                Some(v)
            },
            None => {
                proof {
                    lemma_no_match_is_absent(self@, key.key_words());
                }
                None
            },
        }
    }

    /// Whether the key is present.
    pub fn contains_key<Q: Equivalent<K> + ?Sized>(&self, key: &Q) -> (r: bool)
        requires
            self.wf(),
        ensures
            r == lookup_spec(self@, key.key_words()).is_some(),
    {
        match self.get(key) {
            Some(_) => true,
            None => false,
        }
    }

    /// Insert a hashed key: an entry of the same key gets the new value, and the
    /// previous value is returned; else the entry goes at the end.
    pub fn insert_hashed(&mut self, key: Hashed<K>, value: V) -> (r: Option<V>)
        where
            K: Equivalent<K>,
        requires
            old(self).wf(),
            key.is_canonical(),
        ensures
            final(self).wf(),
            final(self)@ == insert_spec(old(self)@, key.spec_key(), value),
            r == lookup_spec(old(self)@, key.spec_key().key_words()),
            final(self).is_indexed() == (old(self).is_indexed() || final(self)@.len() > NO_INDEX_THRESHOLD),
    {
        let ghost words = key.spec_key().key_words();
        let ghost h = key.spec_hash();
        let found = self.get_index_of_hashed(Hashed::new_unchecked(key.hash(), key.key()));
        match found {
            Some(i) => {
                proof {
                    lemma_first_match_is_the_entry(self@, words, i as int);
                }
                let prev = self.entries.replace_value(i, value);
                proof {
                    assert(entry_hashes(self@) =~= entry_hashes(old(self)@));
                    assert forall|a: int, b: int|
                        0 <= a < self@.len() && 0 <= b < self@.len() && a != b implies (#[trigger] self@[a]).1.key_words()
                            != (#[trigger] self@[b]).1.key_words() by {
                        assert(old(self)@[a].1 == self@[a].1);
                        assert(old(self)@[b].1 == self@[b].1);
                    }
                    assert forall|a: int| 0 <= a < self@.len() implies (#[trigger] self@[a]).0@ == hash_words(self@[a].1.key_words()) by {
                        assert(old(self)@[a].1 == self@[a].1);
                    }
                }
                Some(prev)
            },
            None => {
                proof {
                    lemma_no_match_is_absent(self@, words);
                }
                let h_exec = key.hash();
                self.entries.insert_unique_unchecked(key, value);
                proof {
                    let s = self@;
                    assert forall|a: int, b: int|
                        0 <= a < s.len() && 0 <= b < s.len() && a != b implies (#[trigger] s[a]).1.key_words()
                            != (#[trigger] s[b]).1.key_words() by {
                        if a < old(self)@.len() && b < old(self)@.len() {
                            assert(old(self)@[a] == s[a]);
                            assert(old(self)@[b] == s[b]);
                        } else if a < old(self)@.len() {
                            assert(old(self)@[a] == s[a]);
                        } else {
                            assert(old(self)@[b] == s[b]);
                        }
                    }
                    assert forall|a: int| 0 <= a < s.len() implies (#[trigger] s[a]).0@ == hash_words(s[a].1.key_words()) by {
                        if a < old(self)@.len() {
                            assert(old(self)@[a] == s[a]);
                        }
                    }
                    assert(entry_hashes(s).len() == s.len());
                    assert forall|q: int| 0 <= q < old(self)@.len() implies entry_hashes(old(self)@)[q] == entry_hashes(s)[q] by {
                        assert(old(self)@[q] == s[q]);
                    }
                    if self.heads@.len() > 0 {
                        lemma_index_extend(entry_hashes(old(self)@), entry_hashes(s), self.heads@, self.next@, old(self)@.len() as int);
                    }
                }
                let len = self.entries.len();
                if self.heads.len() > 0 {
                    if len > self.heads.len() && self.heads.len() <= usize::MAX / 2 {
                        let n = self.heads.len() * 2;
                        self.rebuild_index(n);
                    } else {
                        self.index_push(h_exec);
                    }
                } else if len > NO_INDEX_THRESHOLD {
                    self.rebuild_index(2 * NO_INDEX_THRESHOLD);
                }
                None
            },
        }
    }

    /// Insert a key, hashing it first.
    pub fn insert(&mut self, key: K, value: V) -> (r: Option<V>)
        where
            K: Equivalent<K>,
        requires
            old(self).wf(),
        ensures
            final(self).wf(),
            final(self)@ == insert_spec(old(self)@, key, value),
            r == lookup_spec(old(self)@, key.key_words()),
            final(self).is_indexed() == (old(self).is_indexed() || final(self)@.len() > NO_INDEX_THRESHOLD),
    {
        self.insert_hashed(Hashed::new(key), value)
    }

    /// Remove the key, keeping the order of the other entries, and return its value.
    pub fn remove<Q: Equivalent<K> + ?Sized>(&mut self, key: &Q) -> (r: Option<V>)
        requires
            old(self).wf(),
        ensures
            final(self).wf(),
            final(self)@ == remove_spec(old(self)@, key.key_words()),
            r == lookup_spec(old(self)@, key.key_words()),
            final(self).is_indexed() == old(self).is_indexed(),
    {
        let ghost words = key.key_words();
        let found = self.get_index_of_hashed(Hashed::new(key));
        match found {
            None => {
                proof {
                    lemma_no_match_is_absent(self@, words);
                }
                None
            },
            Some(i) => {
                proof {
                    lemma_first_match_is_the_entry(self@, words, i as int);
                }
                let (_, v) = self.entries.remove(i);
                proof {
                    let s = self@;
                    let o = old(self)@;
                    assert forall|a: int, b: int|
                        0 <= a < s.len() && 0 <= b < s.len() && a != b implies (#[trigger] s[a]).1.key_words()
                            != (#[trigger] s[b]).1.key_words() by {
                        let a2 = if a < i { a } else { a + 1 };
                        let b2 = if b < i { b } else { b + 1 };
                        assert(o[a2] == s[a]);
                        assert(o[b2] == s[b]);
                    }
                    assert forall|a: int| 0 <= a < s.len() implies (#[trigger] s[a]).0@ == hash_words(s[a].1.key_words()) by {
                        let a2 = if a < i { a } else { a + 1 };
                        assert(o[a2] == s[a]);
                    }
                }
                if self.heads.len() > 0 {
                    let n = self.heads.len();
                    self.rebuild_index(n);
                } else {
                    self.next = Vec::new();
                }
                Some(v)
            },
        }
    }

    /// Remove all entries; an index, where there is one, stays and is emptied.
    pub fn clear(&mut self)
        requires
            old(self).wf(),
        ensures
            final(self).wf(),
            final(self)@ == Seq::<Entry<K, V>>::empty(),
            final(self).is_indexed() == old(self).is_indexed(),
    {
        self.entries.clear();
        if self.heads.len() > 0 {
            let n = self.heads.len();
            self.rebuild_index(n);
        } else {
            self.next = Vec::new();
        }
    }
}

} // verus!
