//! Finding things by their hash.
use crate::ir::node::{CanonicalHash, CanonicalNode};
use crate::text;
use std::collections::HashMap;
use vstd::prelude::*;

verus! {

broadcast use vstd::std_specs::hash::group_hash_axioms;

/// The first eight bytes of a hash as a number.
pub open spec fn hash_key(h: Seq<u8>) -> u64 {
    (h[0] + h[1] * 0x100 + h[2] * 0x10000 + h[3] * 0x1000000 + h[4] * 0x100000000 + h[5]
        * 0x10000000000 + h[6] * 0x1000000000000 + h[7] * 0x100000000000000) as u64
}

/// Something that is known by a hash.
pub trait Hashed {
    spec fn digest(&self) -> Seq<u8>;

    fn hash(&self) -> (r: &CanonicalHash)
        ensures
            r@ == self.digest(),
    ;
}

impl Hashed for CanonicalNode {
    open spec fn digest(&self) -> Seq<u8> {
        self.hash@
    }

    fn hash(&self) -> (r: &CanonicalHash) {
        &self.hash
    }
}

/// Finds the hashes of the first items of a list by their first bytes.
pub struct HashIndex {
    positions: HashMap<u64, usize>,
}

impl HashIndex {
    /// The keys of the first `n` items are noted, and no others.
    pub closed spec fn covers<T: Hashed>(self, items: Seq<T>, n: int) -> bool {
        &&& forall|i: int|
            0 <= i < n ==> self.positions@.contains_key(hash_key((#[trigger] items[i]).digest()))
        &&& forall|key: u64| #[trigger]
            self.positions@.contains_key(key) ==> self.positions@[key] < n
    }

    /// An index of nothing.
    pub fn new<T: Hashed>() -> (r: HashIndex)
        ensures
            forall|items: Seq<T>| #[trigger] r.covers(items, 0),
    {
        HashIndex { positions: HashMap::new() }
    }

    /// Items that are put behind the first `n` change nothing.
    pub proof fn lemma_extends<T: Hashed>(self, before: Seq<T>, after: Seq<T>, n: int)
        requires
            self.covers(before, n),
            n <= before.len(),
            before.is_prefix_of(after),
        ensures
            self.covers(after, n),
    {
        assert forall|i: int| 0 <= i < n implies self.positions@.contains_key(
            hash_key((#[trigger] after[i]).digest()),
        ) by {
            assert(before[i] == after[i]);
            assert(self.positions@.contains_key(hash_key(before[i].digest())));
        }
    }

    fn key(hash: &CanonicalHash) -> (r: u64)
        ensures
            r == hash_key(hash@),
    {
        hash[0] as u64 + hash[1] as u64 * 0x100 + hash[2] as u64 * 0x10000 + hash[3] as u64
            * 0x1000000 + hash[4] as u64 * 0x100000000 + hash[5] as u64 * 0x10000000000
            + hash[6] as u64 * 0x1000000000000 + hash[7] as u64 * 0x100000000000000
    }

    /// The position of one of the first `n` items that has the hash, if there is
    /// one.
    pub fn find<T: Hashed>(&self, items: &Vec<T>, n: usize, hash: &CanonicalHash) -> (r: Option<
        usize,
    >)
        requires
            n <= items@.len(),
            self.covers(items@, n as int),
        ensures
            (match r {
                Some(i) => i < n && items@[i as int].digest() == hash@,
                None => forall|i: int| 0 <= i < n ==> (#[trigger] items@[i]).digest() != hash@,
            }),
    {
        let key = HashIndex::key(hash);
        match self.positions.get(&key) {
            None => {
                proof {
                    assert forall|i: int| 0 <= i < n implies (#[trigger] items@[i]).digest()
                        != hash@ by {
                        assert(self.positions@.contains_key(hash_key(items@[i].digest())));
                    }
                }
                None
            },
            Some(position) => {
                assert(self.positions@.contains_key(key));
                if text::same_bytes(items[*position].hash(), hash) {
                    return Some(*position);
                }
                let mut i: usize = 0;
                while i < n
                    invariant
                        i <= n <= items@.len(),
                        forall|k: int| 0 <= k < i ==> (#[trigger] items@[k]).digest() != hash@,
                    decreases n - i,
                {
                    if text::same_bytes(items[i].hash(), hash) {
                        return Some(i);
                    }
                    i += 1;
                }
                None
            },
        }
    }

    /// Whether one of the first `n` items has the hash.
    pub fn holds<T: Hashed>(&self, items: &Vec<T>, n: usize, hash: &CanonicalHash) -> (r: bool)
        requires
            n <= items@.len(),
            self.covers(items@, n as int),
        ensures
            r == exists|i: int| 0 <= i < n && (#[trigger] items@[i]).digest() == hash@,
    {
        self.find(items, n, hash).is_some()
    }

    /// Notes the item at `n`.
    pub fn note<T: Hashed>(&mut self, items: &Vec<T>, n: usize)
        requires
            n < items@.len(),
            old(self).covers(items@, n as int),
        ensures
            final(self).covers(items@, n + 1),
    {
        let key = HashIndex::key(items[n].hash());
        let ghost before = self.positions@;
        self.positions.insert(key, n);
        proof {
            assert forall|i: int| 0 <= i < n + 1 implies self.positions@.contains_key(
                hash_key((#[trigger] items@[i]).digest()),
            ) by {
                if i < n {
                    assert(before.contains_key(hash_key(items@[i].digest())));
                }
            }
            assert forall|k: u64| #[trigger] self.positions@.contains_key(k) implies self.positions@[k]
                < n + 1 by {
                if k != key {
                    assert(before.contains_key(k));
                }
            }
        }
    }

    /// An index of a whole list.
    pub fn of<T: Hashed>(items: &Vec<T>) -> (r: HashIndex)
        ensures
            r.covers(items@, items@.len() as int),
    {
        let mut r = HashIndex::new::<T>();
        let mut i: usize = 0;
        while i < items.len()
            invariant
                i <= items@.len(),
                r.covers(items@, i as int),
            decreases items@.len() - i,
        {
            r.note(items, i);
            i += 1;
        }
        r
    }
}

} // verus!
