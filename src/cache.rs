use lru::LruCache;
use vstd::prelude::*;

use crate::model::{
    entries_total, evict_to_budget, key_index, keys_unique, law_eviction_fits_budget, lemma_key_index,
    lemma_total_promote, lemma_total_push, lemma_total_remove, lemma_unique_drop_first, law_mutation_accounting, lemma_unique_put, promote_with,
    put_entry, Entry,
};
use crate::resident::ResidentSize;
use crate::store::{
    lru_capacity, lru_entries, store_cap, store_contains, store_get, store_get_mut, store_is_empty, store_len,
    store_new, store_peek, store_pop_lru, store_put, store_resize,
};

verus! {

/// The item-count capacity the store starts with.
pub const INITIAL_CAPACITY: usize = 4;

/// The capacity after an insertion into a store that holds `len` entries
/// and has room for `cap`: doubled, saturating, when it was full.
pub open spec fn grown_capacity(cap: nat, len: nat) -> nat {
    if len < cap {
        cap
    } else if 2 * cap > usize::MAX {
        usize::MAX as nat
    } else {
        2 * cap
    }
}

/// An LRU cache bounded by the total resident size of its values.
pub struct MemoryLruCache {
    inner: LruCache<String, Vec<u8>>,
    cur_size: usize,
    max_size: usize,
}

impl View for MemoryLruCache {
    type V = Seq<Entry>;

    /// The entries, least recently used first.
    closed spec fn view(&self) -> Seq<Entry> {
        lru_entries(self.inner)
    }
}

impl MemoryLruCache {
    /// The byte budget the cache was made with.
    pub closed spec fn budget(&self) -> nat {
        self.max_size as nat
    }

    /// The item-count capacity of the underlying store.
    pub closed spec fn capacity(&self) -> nat {
        lru_capacity(self.inner)
    }

    /// The running total matches the entries and fits the budget unless a
    /// single entry is left, keys are unique, and the store has room for its entries.
    pub closed spec fn wf(&self) -> bool {
        &&& self.cur_size as nat == entries_total(self@)
        &&& (self.cur_size <= self.max_size || self@.len() == 1)
        &&& keys_unique(self@)
        &&& 0 < lru_capacity(self.inner)
        &&& self@.len() <= lru_capacity(self.inner)
    }

    /// Between operations the running total is the sum of the sizes of the
    /// entries, and it fits the budget unless one entry alone exceeds it.
    pub proof fn lemma_within_budget(&self)
        requires
            self.wf(),
        ensures
            entries_total(self@) <= self.budget() || self@.len() == 1,
            keys_unique(self@),
    {
    }

    /// Create a new cache with a maximum cumulative size of values.
    pub fn new(max_size: usize) -> (r: Self)
        ensures
            r.wf(),
            r@ == Seq::<Entry>::empty(),
            r.budget() == max_size,
            r.capacity() == INITIAL_CAPACITY,
    {
        let r = MemoryLruCache { inner: store_new(INITIAL_CAPACITY), cur_size: 0, max_size };
        assert(entries_total(r@) == 0);
        r
    }

    /// Insert an item. A present key gets the new value; either way the
    /// entry becomes the most recent one, and least recently used entries
    /// leave until the values fit the budget. The new entry itself never
    /// leaves: a value larger than the whole budget is admitted, and the
    /// cache holds it alone, over budget, until another insertion evicts it.
    pub fn insert(&mut self, key: String, val: Vec<u8>)
        requires
            old(self).wf(),
            old(self)@.len() < usize::MAX,
        ensures
            final(self).wf(),
            final(self)@ == evict_to_budget(put_entry(old(self)@, key@, val@), old(self).budget()),
            final(self).budget() == old(self).budget(),
            final(self).capacity() == grown_capacity(old(self).capacity(), old(self)@.len()),
    {
        let cap = store_cap(&self.inner);
        // the store counts items while the budget counts bytes: grow the
        // item count geometrically whenever it is reached.
        if store_len(&self.inner) == cap {
            let next_cap = if cap > usize::MAX / 2 {
                usize::MAX
            } else {
                cap * 2
            };
            store_resize(&mut self.inner, next_cap);
        }
        let ghost s = self@;
        proof {
            lemma_key_index(s, key@);
            lemma_unique_put(s, key@, val@);
        }
        let mut total: u128 = self.cur_size as u128 + val.resident_size() as u128;
        let displaced = store_put(&mut self.inner, key, val);
        match displaced {
            Some(lru) => {
                proof {
                    lemma_total_promote(s, key_index(s, key@), val@);
                }
                total = total - lru.resident_size() as u128;
            },
            None => {
                proof {
                    lemma_total_push(s, (key@, val@));
                }
            },
        }
        self.readjust_down(total);
    }

    /// Get a reference to an item in the cache, which becomes the most
    /// recent one. It is a logic error for its size to be altered while borrowed.
    pub fn get(&mut self, key: &String) -> (r: Option<&Vec<u8>>)
        requires
            old(self).wf(),
        ensures
            final(self).wf(),
            r is Some <==> key_index(old(self)@, key@) >= 0,
            r matches Some(v) ==> v@ == old(self)@[key_index(old(self)@, key@)].1,
            final(self)@ == if key_index(old(self)@, key@) >= 0 {
                promote_with(
                    old(self)@,
                    key_index(old(self)@, key@),
                    old(self)@[key_index(old(self)@, key@)].1,
                )
            } else {
                old(self)@
            },
            final(self).budget() == old(self).budget(),
            final(self).capacity() == old(self).capacity(),
    {
        proof {
            let s = self@;
            let i = key_index(s, key@);
            lemma_key_index(s, key@);
            if i >= 0 {
                lemma_total_promote(s, i, s[i].1);
                lemma_unique_put(s, key@, s[i].1);
            }
        }
        store_get(&mut self.inner, key)
    }

    /// Execute a closure with the value under the provided key, which
    /// becomes the most recent entry, and return what the closure returns.
    /// The closure is called once: with a handle on the stored value, or
    /// with `None` where the key is absent. The size the value has after the
    /// closure replaces the one it had before, and least recently used
    /// entries leave until the values fit the budget. The mutated entry
    /// itself never leaves in the same call, even where it alone outgrows
    /// the budget.
    pub fn with_mut<U, F: FnOnce(Option<&mut Vec<u8>>) -> U>(&mut self, key: &String, with: F) -> (r: U)
        requires
            old(self).wf(),
            forall|v: Option<&mut Vec<u8>>| with.requires((v,)),
        ensures
            final(self).wf(),
            final(self).budget() == old(self).budget(),
            final(self).capacity() == old(self).capacity(),
            key_index(old(self)@, key@) < 0 ==> call_ensures(with, (None,), r),
            key_index(old(self)@, key@) < 0 ==> final(self)@ == old(self)@,
            key_index(old(self)@, key@) >= 0 ==> exists|m: &mut Vec<u8>|
                (*m)@ == old(self)@[key_index(old(self)@, key@)].1
                && #[trigger] call_ensures(with, (Some(m),), r)
                && final(self)@ == evict_to_budget(
                    promote_with(old(self)@, key_index(old(self)@, key@), (*final(m))@),
                    old(self).budget(),
                )
                && final(self)@.len() > 0
                && final(self)@.last() == (key@, (*final(m))@),
    {
        let ghost s = self@;
        proof {
            lemma_key_index(s, key@);
        }
        let val = store_get_mut(&mut self.inner, key);
        match val {
            Some(v) => {
                let prev_size = v.resident_size();
                let res = with(Some(&mut *v));
                let new_size = v.resident_size();
                let ghost w = v@;
                proof {
                    lemma_total_remove(s, key_index(s, key@));
                    lemma_total_promote(s, key_index(s, key@), w);
                    lemma_unique_put(s, key@, w);
                    lemma_total_remove(promote_with(s, key_index(s, key@), w), s.len() - 1);
                    law_mutation_accounting(s, key_index(s, key@), w, self.max_size as nat);
                }
                let total: u128 = self.cur_size as u128 - prev_size as u128 + new_size as u128;
                self.readjust_down(total);
                assert(self@ == evict_to_budget(promote_with(s, key_index(s, key@), w), self.budget()));
                res
            },
            None => {
                let res = with(None);
                proof {
                    if s.len() > 0 {
                        lemma_total_remove(s, s.len() - 1);
                    }
                }
                let total: u128 = self.cur_size as u128;
                self.readjust_down(total);
                res
            },
        }
    }

    /// Currently-used size of values in bytes.
    pub fn current_size(&self) -> (r: usize)
        requires
            self.wf(),
        ensures
            r == entries_total(self@),
    {
        self.cur_size
    }

    /// Returns the number of key-value pairs that are currently in the cache.
    pub fn len(&self) -> (r: usize)
        ensures
            r == self@.len(),
    {
        store_len(&self.inner)
    }

    /// Returns a bool indicating whether the given key is in the cache.
    /// Does not update the LRU list.
    pub fn contains(&self, key: &String) -> (r: bool)
        ensures
            r == (key_index(self@, key@) >= 0),
    {
        store_contains(&self.inner, key)
    }

    /// Returns a bool indicating whether the cache is empty or not.
    pub fn is_empty(&self) -> (r: bool)
        ensures
            r == (self@.len() == 0),
    {
        store_is_empty(&self.inner)
    }

    /// Returns a reference to the value corresponding to the key in the cache or
    /// None if it is not present in the cache. Unlike get, peek does not update the
    /// LRU list so the key's position will be unchanged.
    pub fn peek(&self, key: &String) -> (r: Option<&Vec<u8>>)
        ensures
            r is Some <==> key_index(self@, key@) >= 0,
            r matches Some(v) ==> v@ == self@[key_index(self@, key@)].1,
    {
        store_peek(&self.inner, key)
    }

    /// Drops least recently used entries until the running total, which
    /// `total` holds, fits the budget or one entry is left.
    fn readjust_down(&mut self, total: u128)
        requires
            total == entries_total(old(self)@),
            keys_unique(old(self)@),
            0 < lru_capacity(old(self).inner),
            old(self)@.len() <= lru_capacity(old(self).inner),
            old(self)@.len() > 0 ==> old(self)@.last().1.len() <= usize::MAX,
        ensures
            final(self).wf(),
            final(self)@ == evict_to_budget(old(self)@, old(self).max_size as nat),
            final(self).max_size == old(self).max_size,
            final(self).capacity() == old(self).capacity(),
    {
        let mut total = total;
        while total > self.max_size as u128 && store_len(&self.inner) > 1
            invariant
                total == entries_total(self@),
                keys_unique(self@),
                0 < lru_capacity(self.inner),
                self@.len() <= lru_capacity(self.inner),
                self.max_size == old(self).max_size,
                lru_capacity(self.inner) == lru_capacity(old(self).inner),
                old(self)@.len() > 0 ==> self@.len() > 0 && self@.last() == old(self)@.last(),
                evict_to_budget(self@, self.max_size as nat) == evict_to_budget(
                    old(self)@,
                    self.max_size as nat,
                ),
            ensures
                self@.len() <= 1 || total <= self.max_size as u128,
            decreases self@.len(),
        {
            let ghost before = self@;
            match store_pop_lru(&mut self.inner) {
                Some((_, v)) => {
                    proof {
                        lemma_unique_drop_first(before);
                        assert(before.drop_first().last() == before.last());
                    }
                    total = total - v.resident_size() as u128;
                },
                None => {
                    break ;
                },
            }
        }
        proof {
            law_eviction_fits_budget(self@, self.max_size as nat);
            if self@.len() == 1 {
                assert(self@.drop_first().len() == 0);
                assert(entries_total(self@.drop_first()) == 0);
            }
        }
        self.cur_size = total as usize;
    }
}

} // verus!
