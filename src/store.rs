use lru::LruCache;
use std::num::NonZeroUsize;
use vstd::prelude::*;

use crate::model::{key_index, promote_with, Entry};

verus! {

#[verifier::external_type_specification]
#[verifier::external_body]
#[verifier::reject_recursive_types(K)]
#[verifier::reject_recursive_types(V)]
#[verifier::reject_recursive_types(S)]
pub struct ExLruCache<K, V, S>(LruCache<K, V, S>);

/// The entries of a store, least recently used first.
pub uninterp spec fn lru_entries(c: LruCache<String, Vec<u8>>) -> Seq<(Seq<char>, Seq<u8>)>;

/// The number of entries a store holds before `put` drops its least recently used one.
pub uninterp spec fn lru_capacity(c: LruCache<String, Vec<u8>>) -> nat;

/// Relies on `LruCache::new`: an empty store that holds `cap` entries.
#[verifier::external_body]
pub(crate) fn store_new(cap: usize) -> (r: LruCache<String, Vec<u8>>)
    requires
        cap > 0,
    ensures
        lru_entries(r) == Seq::<Entry>::empty(),
        lru_capacity(r) == cap,
{
    LruCache::new(NonZeroUsize::new(cap).unwrap())
}

/// Relies on `LruCache::cap`: the capacity, which is never zero.
#[verifier::external_body]
pub(crate) fn store_cap(c: &LruCache<String, Vec<u8>>) -> (r: usize)
    ensures
        r == lru_capacity(*c),
        r > 0,
{
    c.cap().get()
}

/// Relies on `LruCache::len`: the number of entries.
#[verifier::external_body]
pub(crate) fn store_len(c: &LruCache<String, Vec<u8>>) -> (r: usize)
    ensures
        r == lru_entries(*c).len(),
{
    c.len()
}

/// Relies on `LruCache::is_empty`: whether there is no entry.
#[verifier::external_body]
pub(crate) fn store_is_empty(c: &LruCache<String, Vec<u8>>) -> (r: bool)
    ensures
        r == (lru_entries(*c).len() == 0),
{
    c.is_empty()
}

/// Relies on `LruCache::resize`: the capacity becomes `cap`, and least
/// recently used entries beyond it are dropped.
#[verifier::external_body]
pub(crate) fn store_resize(c: &mut LruCache<String, Vec<u8>>, cap: usize)
    requires
        cap > 0,
    ensures
        lru_capacity(*final(c)) == cap,
        lru_entries(*old(c)).len() <= cap ==> lru_entries(*final(c)) == lru_entries(*old(c)),
        lru_entries(*old(c)).len() > cap ==> lru_entries(*final(c)) == lru_entries(
            *old(c),
        ).subrange(lru_entries(*old(c)).len() - cap, lru_entries(*old(c)).len() as int),
{
    c.resize(NonZeroUsize::new(cap).unwrap())
}

/// Relies on `LruCache::put`: a present key gets the new value and becomes
/// most recent, and its old value is returned; an absent key is appended as
/// most recent, after the least recently used entry was dropped if the store
/// was full, and nothing is returned.
#[verifier::external_body]
pub(crate) fn store_put(c: &mut LruCache<String, Vec<u8>>, k: String, v: Vec<u8>) -> (r: Option<Vec<u8>>)
    ensures
        lru_capacity(*final(c)) == lru_capacity(*old(c)),
        r is Some <==> key_index(lru_entries(*old(c)), k@) >= 0,
        r matches Some(w) ==> w@ == lru_entries(*old(c))[key_index(lru_entries(*old(c)), k@)].1,
        key_index(lru_entries(*old(c)), k@) >= 0 ==> lru_entries(*final(c)) == promote_with(
            lru_entries(*old(c)),
            key_index(lru_entries(*old(c)), k@),
            v@,
        ),
        key_index(lru_entries(*old(c)), k@) < 0 && lru_entries(*old(c)).len() < lru_capacity(
            *old(c),
        ) ==> lru_entries(*final(c)) == lru_entries(*old(c)).push((k@, v@)),
        key_index(lru_entries(*old(c)), k@) < 0 && lru_entries(*old(c)).len() >= lru_capacity(
            *old(c),
        ) ==> lru_entries(*final(c)) == lru_entries(*old(c)).drop_first().push((k@, v@)),
{
    c.put(k, v)
}

/// Relies on `LruCache::get`: the value under `k`, whose entry becomes most recent.
#[verifier::external_body]
pub(crate) fn store_get<'a>(c: &'a mut LruCache<String, Vec<u8>>, k: &String) -> (r: Option<&'a Vec<u8>>)
    ensures
        lru_capacity(*final(c)) == lru_capacity(*old(c)),
        r is Some <==> key_index(lru_entries(*old(c)), k@) >= 0,
        r matches Some(w) ==> w@ == lru_entries(*old(c))[key_index(lru_entries(*old(c)), k@)].1,
        key_index(lru_entries(*old(c)), k@) >= 0 ==> lru_entries(*final(c)) == promote_with(
            lru_entries(*old(c)),
            key_index(lru_entries(*old(c)), k@),
            lru_entries(*old(c))[key_index(lru_entries(*old(c)), k@)].1,
        ),
        key_index(lru_entries(*old(c)), k@) < 0 ==> lru_entries(*final(c)) == lru_entries(*old(c)),
{
    c.get(k)
}

/// Relies on `LruCache::get_mut`: a handle on the value under `k`, whose
/// entry becomes most recent and keeps what the handle leaves in it.
#[verifier::external_body]
pub(crate) fn store_get_mut<'a>(c: &'a mut LruCache<String, Vec<u8>>, k: &String) -> (r: Option<&'a mut Vec<u8>>)
    ensures
        lru_capacity(*final(c)) == lru_capacity(*old(c)),
        r is Some <==> key_index(lru_entries(*old(c)), k@) >= 0,
        r matches Some(w) ==> (*w)@ == lru_entries(*old(c))[key_index(lru_entries(*old(c)), k@)].1,
        r matches Some(w) ==> lru_entries(*final(c)) == promote_with(
            lru_entries(*old(c)),
            key_index(lru_entries(*old(c)), k@),
            (*final(w))@,
        ),
        r is None ==> lru_entries(*final(c)) == lru_entries(*old(c)),
{
    c.get_mut(k)
}

/// Relies on `LruCache::peek`: the value under `k`, with the order unchanged.
#[verifier::external_body]
pub(crate) fn store_peek<'a>(c: &'a LruCache<String, Vec<u8>>, k: &String) -> (r: Option<&'a Vec<u8>>)
    ensures
        r is Some <==> key_index(lru_entries(*c), k@) >= 0,
        r matches Some(w) ==> w@ == lru_entries(*c)[key_index(lru_entries(*c), k@)].1,
{
    c.peek(k)
}

/// Relies on `LruCache::contains`: whether `k` has an entry; the order is unchanged.
#[verifier::external_body]
pub(crate) fn store_contains(c: &LruCache<String, Vec<u8>>, k: &String) -> (r: bool)
    ensures
        r == (key_index(lru_entries(*c), k@) >= 0),
{
    c.contains(k)
}

/// Relies on `LruCache::pop_lru`: removes and returns the least recently used entry.
#[verifier::external_body]
pub(crate) fn store_pop_lru(c: &mut LruCache<String, Vec<u8>>) -> (r: Option<(String, Vec<u8>)>)
    ensures
        lru_capacity(*final(c)) == lru_capacity(*old(c)),
        r is Some <==> lru_entries(*old(c)).len() > 0,
        r matches Some(e) ==> (e.0@, e.1@) == lru_entries(*old(c))[0],
        lru_entries(*final(c)) == if lru_entries(*old(c)).len() > 0 {
            lru_entries(*old(c)).drop_first()
        } else {
            lru_entries(*old(c))
        },
{
    c.pop_lru()
}

} // verus!
