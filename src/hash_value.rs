use vstd::prelude::*;

verus! {

/// Offset basis of the 32-bit FNV-1a hash.
pub const FNV_OFFSET: u32 = 2166136261;

/// Prime multiplier of the 32-bit FNV-1a hash.
pub const FNV_PRIME: u32 = 16777619;

/// One FNV-1a step: mix a word into the running hash.
pub open spec fn hash_step(h: u32, w: u32) -> u32 {
    (((h ^ w) as int * FNV_PRIME as int) % 0x1_0000_0000int) as u32
}

/// The canonical hash of a key, given the sequence of words that the key is made of.
pub open spec fn hash_words(s: Seq<u32>) -> u32
    decreases s.len(),
{
    if s.len() == 0 {
        FNV_OFFSET
    } else {
        hash_step(hash_words(s.drop_last()), s.last())
    }
}

/// A hash value as stored in map buckets.
#[derive(Clone, Copy, Debug, PartialEq, Eq, Structural, Hash)]
pub struct StarlarkHashValue(pub u32);

impl View for StarlarkHashValue {
    type V = u32;

    open spec fn view(&self) -> u32 {
        self.0
    }
}

impl StarlarkHashValue {
    /// Wrap an already computed hash.
    pub fn new_unchecked(h: u32) -> (r: StarlarkHashValue)
        ensures
            r@ == h,
    {
        StarlarkHashValue(h)
    }

    /// The raw hash.
    pub fn get(self) -> (r: u32)
        ensures
            r == self@,
    {
        self.0
    }

    /// Hash a sequence of words with the canonical hash function.
    pub fn hash_words(words: &[u32]) -> (r: StarlarkHashValue)
        ensures
            r@ == hash_words(words@),
    {
        let mut h: u32 = FNV_OFFSET;
        let mut i: usize = 0;
        while i < words.len()
            invariant
                i <= words@.len(),
                h == hash_words(words@.subrange(0, i as int)),
            decreases words@.len() - i,
        {
            let w = words[i];
            proof {
                assert(words@.subrange(0, i + 1).drop_last() =~= words@.subrange(0, i as int));
            }
            h = (h ^ w).wrapping_mul(FNV_PRIME);
            i = i + 1;
        }
        proof {
            assert(words@.subrange(0, words@.len() as int) =~= words@);
        }
        StarlarkHashValue(h)
    }
}

} // verus!
