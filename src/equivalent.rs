use vstd::prelude::*;

use vstd::utf8::encode_utf8;

use crate::hash_value::{hash_words, StarlarkHashValue, FNV_OFFSET, FNV_PRIME};

verus! {

/// A key seen as the sequence of words that identifies it. Two keys are the same key
/// exactly when their words agree, and the canonical hash of a key is the hash of its words.
pub trait StarlarkHashKey {
    /// The words that identify the key.
    spec fn key_words(&self) -> Seq<u32>;

    /// The canonical hash of the key.
    fn hash_key(&self) -> (r: StarlarkHashValue)
        ensures
            r@ == hash_words(self.key_words()),
    ;
}

/// Lookup by a borrowed view: `q.equivalent(k)` compares `q` as if it were converted
/// to the owned key type.
pub trait Equivalent<K: StarlarkHashKey + ?Sized>: StarlarkHashKey {
    /// Whether `self` and `key` are the same key.
    fn equivalent(&self, key: &K) -> (r: bool)
        ensures
            r == (self.key_words() == key.key_words()),
    ;
}

/// The words of a byte string: one word per byte.
pub open spec fn byte_words(b: Seq<u8>) -> Seq<u32> {
    b.map_values(|x: u8| x as u32)
}

/// The canonical hash of a byte string.
pub fn hash_bytes(b: &[u8]) -> (r: StarlarkHashValue)
    ensures
        r@ == hash_words(byte_words(b@)),
{
    let mut h: u32 = FNV_OFFSET;
    let mut i: usize = 0;
    while i < b.len()
        invariant
            i <= b@.len(),
            h == hash_words(byte_words(b@.subrange(0, i as int))),
        decreases b@.len() - i,
    {
        let w = b[i] as u32;
        proof {
            let next = byte_words(b@.subrange(0, i + 1));
            assert(next.drop_last() =~= byte_words(b@.subrange(0, i as int)));
            assert(next.last() == w);
        }
        h = (h ^ w).wrapping_mul(FNV_PRIME);
        i = i + 1;
    }
    proof {
        assert(b@.subrange(0, b@.len() as int) =~= b@);
    }
    StarlarkHashValue::new_unchecked(h)
}

/// Compare two byte strings.
pub fn bytes_equal(a: &[u8], b: &[u8]) -> (r: bool)
    ensures
        r == (byte_words(a@) == byte_words(b@)),
{
    if a.len() != b.len() {
        proof {
            assert(byte_words(a@).len() != byte_words(b@).len());
        }
        return false;
    }
    let mut i: usize = 0;
    while i < a.len()
        invariant
            a@.len() == b@.len(),
            i <= a@.len(),
            forall|j: int| 0 <= j < i ==> a@[j] == b@[j],
        decreases a@.len() - i,
    {
        if a[i] != b[i] {
            proof {
                assert(byte_words(a@)[i as int] != byte_words(b@)[i as int]);
            }
            return false;
        }
        i = i + 1;
    }
    proof {
        assert(byte_words(a@) =~= byte_words(b@));
    }
    true
}

/// Lexicographic order on sequences of words: the order of byte strings, and of
/// single integers.
pub open spec fn words_le(a: Seq<u32>, b: Seq<u32>) -> bool
    decreases a.len(),
{
    if a.len() == 0 {
        true
    } else if b.len() == 0 {
        false
    } else if a[0] != b[0] {
        a[0] < b[0]
    } else {
        words_le(a.drop_first(), b.drop_first())
    }
}

/// Of two sequences of words, one comes first.
pub proof fn lemma_words_le_total(a: Seq<u32>, b: Seq<u32>)
    ensures
        words_le(a, b) || words_le(b, a),
    decreases a.len(),
{
    if a.len() > 0 && b.len() > 0 && a[0] == b[0] {
        lemma_words_le_total(a.drop_first(), b.drop_first());
    }
}

/// The order of sequences of words is transitive.
pub proof fn lemma_words_le_transitive(a: Seq<u32>, b: Seq<u32>, c: Seq<u32>)
    requires
        words_le(a, b),
        words_le(b, c),
    ensures
        words_le(a, c),
    decreases a.len(),
{
    if a.len() > 0 && b.len() > 0 && c.len() > 0 && a[0] == b[0] && b[0] == c[0] {
        lemma_words_le_transitive(a.drop_first(), b.drop_first(), c.drop_first());
    }
}

/// A key whose type has a total order, seen on its words.
pub trait StarlarkOrdKey: StarlarkHashKey {
    /// Whether the key comes no later than `other`.
    fn key_le(&self, other: &Self) -> (r: bool)
        ensures
            r == words_le(self.key_words(), other.key_words()),
    ;
}

/// Compare two byte strings in lexicographic order.
pub fn bytes_le(a: &[u8], b: &[u8]) -> (r: bool)
    ensures
        r == words_le(byte_words(a@), byte_words(b@)),
{
    let ghost wa = byte_words(a@);
    let ghost wb = byte_words(b@);
    let mut i: usize = 0;
    proof {
        assert(wa.subrange(0, wa.len() as int) =~= wa);
        assert(wb.subrange(0, wb.len() as int) =~= wb);
    }
    while i < a.len() && i < b.len()
        invariant
            i <= a@.len(),
            i <= b@.len(),
            wa == byte_words(a@),
            wb == byte_words(b@),
            words_le(wa, wb) == words_le(wa.subrange(i as int, wa.len() as int), wb.subrange(i as int, wb.len() as int)),
        decreases a@.len() - i,
    {
        let x = a[i];
        let y = b[i];
        let ghost sa = wa.subrange(i as int, wa.len() as int);
        let ghost sb = wb.subrange(i as int, wb.len() as int);
        proof {
            assert(sa[0] == x as u32);
            assert(sb[0] == y as u32);
        }
        if x != y {
            return x < y;
        }
        proof {
            assert(sa.drop_first() =~= wa.subrange(i + 1, wa.len() as int));
            assert(sb.drop_first() =~= wb.subrange(i + 1, wb.len() as int));
        }
        i = i + 1;
    }
    proof {
        let sa = wa.subrange(i as int, wa.len() as int);
        let sb = wb.subrange(i as int, wb.len() as int);
        assert(sa.len() == 0 || sb.len() == 0);
    }
    i == a.len()
}

impl StarlarkOrdKey for u32 {
    fn key_le(&self, other: &u32) -> (r: bool) {
        proof {
            assert(seq![*self].drop_first() =~= Seq::<u32>::empty());
            assert(seq![*other].drop_first() =~= Seq::<u32>::empty());
            assert(words_le(Seq::<u32>::empty(), Seq::<u32>::empty()));
        }
        *self <= *other
    }
}

impl StarlarkOrdKey for String {
    fn key_le(&self, other: &String) -> (r: bool) {
        bytes_le(self.as_str().as_bytes(), other.as_str().as_bytes())
    }
}

impl StarlarkHashKey for u32 {
    open spec fn key_words(&self) -> Seq<u32> {
        seq![*self]
    }

    fn hash_key(&self) -> (r: StarlarkHashValue) {
        proof {
            assert(seq![*self].drop_last() =~= Seq::<u32>::empty());
            assert(hash_words(Seq::<u32>::empty()) == FNV_OFFSET);
        }
        StarlarkHashValue::new_unchecked((FNV_OFFSET ^ *self).wrapping_mul(FNV_PRIME))
    }
}

impl Equivalent<u32> for u32 {
    fn equivalent(&self, key: &u32) -> (r: bool) {
        proof {
            if self.key_words() == key.key_words() {
                assert(self.key_words()[0] == key.key_words()[0]);
            }
        }
        *self == *key
    }
}

impl StarlarkHashKey for str {
    open spec fn key_words(&self) -> Seq<u32> {
        byte_words(encode_utf8(self@))
    }

    fn hash_key(&self) -> (r: StarlarkHashValue) {
        hash_bytes(self.as_bytes())
    }
}

impl StarlarkHashKey for String {
    open spec fn key_words(&self) -> Seq<u32> {
        byte_words(encode_utf8(self@))
    }

    fn hash_key(&self) -> (r: StarlarkHashValue) {
        hash_bytes(self.as_str().as_bytes())
    }
}

impl Equivalent<String> for String {
    fn equivalent(&self, key: &String) -> (r: bool) {
        bytes_equal(self.as_str().as_bytes(), key.as_str().as_bytes())
    }
}

impl Equivalent<String> for str {
    fn equivalent(&self, key: &String) -> (r: bool) {
        bytes_equal(self.as_bytes(), key.as_str().as_bytes())
    }
}

} // verus!
