use vstd::prelude::*;

use crate::equivalent::{Equivalent, StarlarkHashKey};
use crate::hash_value::{hash_words, StarlarkHashValue};

verus! {

/// A key together with its hash, computed once.
#[derive(Clone, Copy, Debug)]
pub struct Hashed<K> {
    hash: StarlarkHashValue,
    key: K,
}

/// Whether `h` is the canonical hash of `key`.
pub open spec fn hash_is_canonical<K: StarlarkHashKey + ?Sized>(h: StarlarkHashValue, key: &K) -> bool {
    h@ == hash_words(key.key_words())
}

impl<'a, Q: StarlarkHashKey + ?Sized> StarlarkHashKey for &'a Q {
    open spec fn key_words(&self) -> Seq<u32> {
        (**self).key_words()
    }

    fn hash_key(&self) -> (r: StarlarkHashValue) {
        (**self).hash_key()
    }
}

impl<K> Hashed<K> {
    /// The stored hash.
    pub closed spec fn spec_hash(&self) -> StarlarkHashValue {
        self.hash
    }

    /// The stored key.
    pub closed spec fn spec_key(&self) -> K {
        self.key
    }

    /// Pair a key with a hash that the caller knows to be the key's hash.
    pub fn new_unchecked(hash: StarlarkHashValue, key: K) -> (r: Hashed<K>)
        ensures
            r.spec_hash() == hash,
            r.spec_key() == key,
    {
        Hashed { hash, key }
    }

    /// The stored hash.
    pub fn hash(&self) -> (r: StarlarkHashValue)
        ensures
            r == self.spec_hash(),
    {
        self.hash
    }

    /// The key.
    pub fn key(&self) -> (r: &K)
        ensures
            *r == self.spec_key(),
    {
        &self.key
    }

    /// Take the key out.
    pub fn into_key(self) -> (r: K)
        ensures
            r == self.spec_key(),
    {
        self.key
    }
}

impl<K: StarlarkHashKey> Hashed<K> {
    /// Whether the stored hash is the canonical hash of the key.
    pub open spec fn is_canonical(&self) -> bool {
        hash_is_canonical(self.spec_hash(), &self.spec_key())
    }

    /// Hash a key with the canonical hash function.
    pub fn new(key: K) -> (r: Hashed<K>)
        ensures
            r.spec_key() == key,
            r.is_canonical(),
    {
        let hash = key.hash_key();
        Hashed { hash, key }
    }

    /// Whether two hashed keys denote the same key: the hashes are compared first,
    /// and the keys only where the hashes agree.
    pub fn equivalent_to<K2: StarlarkHashKey>(&self, other: &Hashed<K2>) -> (r: bool)
        where
            K: Equivalent<K2>,
        requires
            self.is_canonical(),
            other.is_canonical(),
        ensures
            r == (self.spec_key().key_words() == other.spec_key().key_words()),
    {
        self.hash == other.hash && self.key.equivalent(&other.key)
    }
}

/// Hashing a key twice gives the same hash, whichever is built first: each stored
/// hash is the canonical hash of the other's key, so `equivalent_to` holds both ways.
pub proof fn lemma_hashed_deterministic<K: StarlarkHashKey>(a: Hashed<K>, b: Hashed<K>)
    requires
        a.is_canonical(),
        b.is_canonical(),
        a.spec_key().key_words() == b.spec_key().key_words(),
    ensures
        a.spec_hash() == b.spec_hash(),
        hash_is_canonical(a.spec_hash(), &b.spec_key()),
        hash_is_canonical(b.spec_hash(), &a.spec_key()),
{
}

} // verus!
