use vstd::prelude::*;

verus! {

/// An entry of the cache as a reader sees it: the key's characters and the value's bytes.
pub type Entry = (Seq<char>, Seq<u8>);

/// Sum of the value sizes of `s`.
pub open spec fn entries_total(s: Seq<Entry>) -> nat
    decreases s.len(),
{
    if s.len() == 0 {
        0
    } else {
        s[0].1.len() + entries_total(s.drop_first())
    }
}

/// Position of key `k` in `s`, the last one that holds it, or -1.
pub open spec fn key_index(s: Seq<Entry>, k: Seq<char>) -> int
    decreases s.len(),
{
    if s.len() == 0 {
        -1
    } else if s.last().0 == k {
        s.len() - 1
    } else {
        key_index(s.drop_last(), k)
    }
}

/// No two entries share a key.
pub open spec fn keys_unique(s: Seq<Entry>) -> bool {
    forall|i: int, j: int| 0 <= i < s.len() && 0 <= j < s.len() && i != j ==> s[i].0 != s[j].0
}

/// The entry at `i` moved to the most-recent end, with value `v`.
pub open spec fn promote_with(s: Seq<Entry>, i: int, v: Seq<u8>) -> Seq<Entry> {
    s.remove(i).push((s[i].0, v))
}

/// `put` of a key into a store with room for one more entry: a present key
/// is replaced and promoted, an absent one is appended as most recent.
pub open spec fn put_entry(s: Seq<Entry>, k: Seq<char>, v: Seq<u8>) -> Seq<Entry> {
    let i = key_index(s, k);
    if i >= 0 {
        promote_with(s, i, v)
    } else {
        s.push((k, v))
    }
}

/// Drops least-recently-used entries until the total fits in `max`, but
/// never the most recent one: a value larger than the budget on its own is
/// kept, alone and over budget, until something else is inserted.
pub open spec fn evict_to_budget(s: Seq<Entry>, max: nat) -> Seq<Entry>
    decreases s.len(),
{
    if s.len() <= 1 || entries_total(s) <= max {
        s
    } else {
        evict_to_budget(s.drop_first(), max)
    }
}

pub proof fn lemma_key_index(s: Seq<Entry>, k: Seq<char>)
    ensures
        -1 <= key_index(s, k) < s.len(),
        key_index(s, k) >= 0 ==> s[key_index(s, k)].0 == k,
        key_index(s, k) < 0 ==> forall|j: int| 0 <= j < s.len() ==> s[j].0 != k,
    decreases s.len(),
{
    if s.len() > 0 {
        lemma_key_index(s.drop_last(), k);
        if s.last().0 != k {
            assert forall|j: int| 0 <= j < s.len() implies #[trigger] s[j].0 != k || key_index(
                s,
                k,
            ) >= 0 by {
                if j < s.len() - 1 {
                    assert(s[j] == s.drop_last()[j]);
                }
            }
        }
    }
}

pub proof fn lemma_total_push(s: Seq<Entry>, e: Entry)
    ensures
        entries_total(s.push(e)) == entries_total(s) + e.1.len(),
    decreases s.len(),
{
    if s.len() > 0 {
        lemma_total_push(s.drop_first(), e);
        assert(s.push(e).drop_first() =~= s.drop_first().push(e));
        assert(s.push(e)[0] == s[0]);
    } else {
        assert(s.push(e).drop_first() =~= Seq::<Entry>::empty());
        assert(entries_total(Seq::<Entry>::empty()) == 0);
    }
}

pub proof fn lemma_total_remove(s: Seq<Entry>, i: int)
    requires
        0 <= i < s.len(),
    ensures
        entries_total(s.remove(i)) + s[i].1.len() == entries_total(s),
    decreases s.len(),
{
    if i == 0 {
        assert(s.remove(0) =~= s.drop_first());
    } else {
        lemma_total_remove(s.drop_first(), i - 1);
        assert(s.remove(i).drop_first() =~= s.drop_first().remove(i - 1));
    }
}

pub proof fn lemma_total_promote(s: Seq<Entry>, i: int, v: Seq<u8>)
    requires
        0 <= i < s.len(),
    ensures
        entries_total(promote_with(s, i, v)) + s[i].1.len() == entries_total(s) + v.len(),
{
    lemma_total_remove(s, i);
    lemma_total_push(s.remove(i), (s[i].0, v));
}

pub proof fn lemma_unique_drop_first(s: Seq<Entry>)
    requires
        keys_unique(s),
        s.len() > 0,
    ensures
        keys_unique(s.drop_first()),
{
    assert forall|i: int, j: int|
        0 <= i < s.len() - 1 && 0 <= j < s.len() - 1 && i != j implies s.drop_first()[i].0
        != s.drop_first()[j].0 by {
        assert(s.drop_first()[i] == s[i + 1]);
        assert(s.drop_first()[j] == s[j + 1]);
    }
}

pub proof fn lemma_unique_put(s: Seq<Entry>, k: Seq<char>, v: Seq<u8>)
    requires
        keys_unique(s),
    ensures
        keys_unique(put_entry(s, k, v)),
        put_entry(s, k, v).len() == if key_index(s, k) >= 0 {
            s.len()
        } else {
            s.len() + 1
        },
{
    lemma_key_index(s, k);
    let i = key_index(s, k);
    let t = put_entry(s, k, v);
    if i >= 0 {
        assert forall|a: int, b: int|
            0 <= a < t.len() && 0 <= b < t.len() && a != b implies t[a].0 != t[b].0 by {
            let ia = if a == t.len() - 1 { i } else if a < i { a } else { a + 1 };
            let ib = if b == t.len() - 1 { i } else if b < i { b } else { b + 1 };
            assert(t[a].0 == s[ia].0);
            assert(t[b].0 == s[ib].0);
        }
    } else {
        assert forall|a: int, b: int|
            0 <= a < t.len() && 0 <= b < t.len() && a != b implies t[a].0 != t[b].0 by {
            if a < s.len() {
                assert(t[a] == s[a]);
            }
            if b < s.len() {
                assert(t[b] == s[b]);
            }
        }
    }
}

/// Whatever the entries, eviction leaves values whose total fits the budget
/// or a single entry, the most recent; what it leaves is a suffix of them:
/// the most recent entries, and at least one of them if there was any.
pub proof fn law_eviction_fits_budget(s: Seq<Entry>, max: nat)
    ensures
        entries_total(evict_to_budget(s, max)) <= max || evict_to_budget(s, max).len() == 1,
        s.len() > 0 ==> evict_to_budget(s, max).len() > 0,
        evict_to_budget(s, max).len() <= s.len(),
        evict_to_budget(s, max) == s.subrange(
            s.len() - evict_to_budget(s, max).len(),
            s.len() as int,
        ),
    decreases s.len(),
{
    if s.len() <= 1 || entries_total(s) <= max {
        assert(s.subrange(0, s.len() as int) =~= s);
    } else {
        law_eviction_fits_budget(s.drop_first(), max);
        let e = evict_to_budget(s.drop_first(), max);
        assert(s.drop_first().subrange(s.len() - 1 - e.len(), s.len() - 1) =~= s.subrange(
            s.len() - e.len(),
            s.len() as int,
        ));
    }
}

/// Whether some entry of `s` has key `k`.
pub open spec fn holds_key(s: Seq<Entry>, k: Seq<char>) -> bool {
    key_index(s, k) >= 0
}

proof fn lemma_holds_key_at(s: Seq<Entry>, k: Seq<char>, j: int)
    requires
        0 <= j < s.len(),
        s[j].0 == k,
    ensures
        holds_key(s, k),
{
    lemma_key_index(s, k);
}

/// Entries leave in the order they came in: after three insertions under
/// distinct keys that the cache did not hold, with no lookup between them,
/// the first key stays only if the second does, and the second only if the third does.
pub proof fn law_eviction_follows_insertion(
    s: Seq<Entry>,
    ka: Seq<char>,
    va: Seq<u8>,
    kb: Seq<char>,
    vb: Seq<u8>,
    kc: Seq<char>,
    vc: Seq<u8>,
    max: nat,
)
    requires
        ka != kb,
        kb != kc,
        ka != kc,
        !holds_key(s, ka),
        !holds_key(s, kb),
        !holds_key(s, kc),
    ensures
        ({
            let s1 = evict_to_budget(put_entry(s, ka, va), max);
            let s2 = evict_to_budget(put_entry(s1, kb, vb), max);
            let s3 = evict_to_budget(put_entry(s2, kc, vc), max);
            &&& holds_key(s3, ka) ==> holds_key(s3, kb)
            &&& holds_key(s3, kb) ==> holds_key(s3, kc)
        }),
{
    lemma_key_index(s, ka);
    lemma_key_index(s, kb);
    lemma_key_index(s, kc);
    let u1 = s.push((ka, va));
    let s1 = evict_to_budget(u1, max);
    law_eviction_fits_budget(u1, max);
    let d1 = u1.len() - s1.len();
    assert forall|j: int| 0 <= j < s1.len() implies s1[j].0 != kb && s1[j].0 != kc by {
        assert(s1[j] == u1[j + d1]);
        if j + d1 < s.len() {
            assert(u1[j + d1] == s[j + d1]);
        }
    }
    lemma_key_index(s1, kb);
    lemma_key_index(s1, kc);
    let u2 = s1.push((kb, vb));
    let s2 = evict_to_budget(u2, max);
    law_eviction_fits_budget(u2, max);
    let d2 = u2.len() - s2.len();
    assert forall|j: int| 0 <= j < s2.len() implies s2[j].0 != kc by {
        assert(s2[j] == u2[j + d2]);
        if j + d2 < s1.len() {
            assert(u2[j + d2] == s1[j + d2]);
        }
    }
    lemma_key_index(s2, kc);
    let u3 = s2.push((kc, vc));
    let s3 = evict_to_budget(u3, max);
    law_eviction_fits_budget(u3, max);
    let d3 = u3.len() - s3.len();
    lemma_key_index(s3, ka);
    lemma_key_index(s3, kb);
    if holds_key(s3, ka) {
        let p = key_index(s3, ka);
        assert(s3[p] == u3[p + d3]);
        assert(p + d3 < s2.len());
        assert(u3[p + d3] == s2[p + d3]);
        assert(s2[p + d3] == u2[p + d3 + d2]);
        assert(p + d3 + d2 < s1.len());
        let q = s1.len() - d2 - d3;
        assert(s2[s1.len() - d2] == u2[s1.len() as int]);
        assert(u3[s1.len() - d2] == s2[s1.len() - d2]);
        assert(s3[q] == u3[q + d3]);
        lemma_holds_key_at(s3, kb, q);
    }
    if holds_key(s3, kb) {
        assert(s3[s3.len() - 1] == u3[u3.len() - 1]);
        lemma_holds_key_at(s3, kc, s3.len() - 1);
    }
}

/// Promotion moves an entry to the most recent end and keeps the others in
/// their order; the number of entries does not change.
pub proof fn law_promote_moves_to_most_recent(s: Seq<Entry>, i: int, v: Seq<u8>)
    requires
        0 <= i < s.len(),
    ensures
        promote_with(s, i, v).len() == s.len(),
        promote_with(s, i, v).last() == (s[i].0, v),
        forall|j: int| 0 <= j < i ==> promote_with(s, i, v)[j] == s[j],
        forall|j: int| i < j < s.len() ==> promote_with(s, i, v)[j - 1] == s[j],
{
}

/// A mutation of the value at `i` changes the total by exactly the change of
/// that value's size, and the eviction that follows removes other entries
/// only: the mutated one stays, as the most recent, whatever its new size.
pub proof fn law_mutation_accounting(s: Seq<Entry>, i: int, w: Seq<u8>, max: nat)
    requires
        0 <= i < s.len(),
    ensures
        entries_total(promote_with(s, i, w)) + s[i].1.len() == entries_total(s) + w.len(),
        evict_to_budget(promote_with(s, i, w), max).len() > 0,
        evict_to_budget(promote_with(s, i, w), max).last() == (s[i].0, w),
{
    lemma_total_promote(s, i, w);
    lemma_evict_keeps_last(promote_with(s, i, w), max);
}

proof fn lemma_evict_keeps_last(s: Seq<Entry>, max: nat)
    requires
        s.len() > 0,
    ensures
        evict_to_budget(s, max).len() > 0,
        evict_to_budget(s, max).last() == s.last(),
    decreases s.len(),
{
    if s.len() > 1 && entries_total(s) > max {
        assert(s.drop_first().last() == s.last());
        lemma_evict_keeps_last(s.drop_first(), max);
    }
}

} // verus!
