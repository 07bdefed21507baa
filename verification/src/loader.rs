//! The batch key loader: per-request coalescing of single-key lookups.
//!
//! Resolving relation fields one entity at a time issues one store query per
//! entity. A [`LoaderScope`] instead registers every requested key, and at
//! the next scheduling boundary the driver takes the deduplicated pending
//! batch ([`LoaderScope::drain`]), performs one multi-key fetch for it, and
//! hands the rows back ([`LoaderScope::resolve`]). Every requested key then
//! has a cache entry: the fetched value, or an explicit miss (`None`) when
//! the store returned no row for it, so one absent relation never fails its
//! siblings. A scope lives for one logical request and is never shared
//! across requests. Should the one batched fetch itself fail, the driver
//! reports that single error (`SDKError::BatchFetchFailed`) to every caller
//! awaiting a key of that batch; the scope is then torn down, never resolved
//! with stale data.

use vstd::prelude::*;

use crate::errors::SDKError;

verus! {

/// One row of a batched fetch: the key it answers and the value found.
#[derive(Debug)]
pub struct Fetched<V> {
    pub key: u128,
    pub value: V,
}

struct CacheEntry<V> {
    key: u128,
    value: Option<V>,
}

/// The per-request loader state: the keys awaiting the next batched fetch
/// and the results of the fetches already performed.
pub struct LoaderScope<V> {
    pending: Vec<u128>,
    cache: Vec<CacheEntry<V>>,
}

/// The resolved entries of a cache, as a map from key to outcome
/// (`Some(value)` for a fetched row, `None` for an explicit miss).
spec fn entries_map<V>(es: Seq<CacheEntry<V>>) -> Map<u128, Option<V>>
    decreases es.len(),
{
    if es.len() == 0 {
        Map::<u128, Option<V>>::empty()
    } else {
        entries_map(es.drop_last()).insert(es.last().key, es.last().value)
    }
}

/// The pending keys after one `load(key)`: unchanged when the key is already
/// cached or already pending, extended by the key otherwise.
pub open spec fn register<V>(
    pending: Seq<u128>,
    cache: Map<u128, Option<V>>,
    key: u128,
) -> Seq<u128> {
    if cache.dom().contains(key) || pending.contains(key) {
        pending
    } else {
        pending.push(key)
    }
}

/// The value a batched fetch found for `key`, scanning from row `i`:
/// the first matching row wins, and no row means a miss.
pub open spec fn first_result_from<V>(rows: Seq<Fetched<V>>, key: u128, i: nat) -> Option<V>
    decreases rows.len() - i,
{
    if i >= rows.len() {
        None
    } else if rows[i as int].key == key {
        Some(rows[i as int].value)
    } else {
        first_result_from(rows, key, i + 1)
    }
}

/// The value a batched fetch found for `key`, if any.
pub open spec fn first_result<V>(rows: Seq<Fetched<V>>, key: u128) -> Option<V> {
    first_result_from(rows, key, 0)
}

/// How many times `key` occurs among pending keys.
pub open spec fn count_key(s: Seq<u128>, key: u128) -> nat
    decreases s.len(),
{
    if s.len() == 0 {
        0
    } else {
        count_key(s.drop_last(), key) + if s.last() == key {
            1nat
        } else {
            0nat
        }
    }
}

/// Removing a row with another key leaves the first result for `key` as it
/// was: relative order among `key`'s rows is untouched.
proof fn lemma_first_result_remove<V>(rows: Seq<Fetched<V>>, idx: int, key: u128)
    requires
        0 <= idx < rows.len(),
        rows[idx].key != key,
    ensures
        first_result(rows.remove(idx), key) == first_result(rows, key),
    decreases rows.len(),
{
    lemma_first_result_shift(rows, idx, key, 0);
}

/// The workhorse behind `lemma_first_result_remove`, generalized over the
/// scan start.
proof fn lemma_first_result_shift<V>(rows: Seq<Fetched<V>>, idx: int, key: u128, i: nat)
    requires
        0 <= idx < rows.len(),
        rows[idx].key != key,
        i <= rows.len(),
    ensures
        first_result_from(rows.remove(idx), key, if i <= idx {
            i
        } else {
            (i - 1) as nat
        }) == first_result_from(rows, key, i),
    decreases rows.len() - i,
{
    let removed = rows.remove(idx);
    if i >= rows.len() {
    } else if i == idx {
        lemma_first_result_shift(rows, idx, key, i + 1);
    } else {
        if rows[i as int].key == key {
        } else {
            lemma_first_result_shift(rows, idx, key, i + 1);
        }
    }
}

impl<V> LoaderScope<V> {
    /// The keys registered for the next batched fetch, in arrival order.
    pub closed spec fn pending_view(&self) -> Seq<u128> {
        self.pending@
    }

    /// What is known for each key a finished fetch covered.
    pub closed spec fn cache_view(&self) -> Map<u128, Option<V>> {
        entries_map(self.cache@)
    }

    /// The scope's invariant: no key pends twice, no key is cached twice,
    /// and no pending key is already cached.
    pub closed spec fn wf(&self) -> bool {
        &&& forall|i: int, j: int|
            0 <= i < j < self.pending@.len() ==> self.pending@[i] != self.pending@[j]
        &&& forall|i: int, j: int|
            0 <= i < j < self.cache@.len() ==> self.cache@[i].key != self.cache@[j].key
        &&& forall|i: int|
            0 <= i < self.pending@.len() ==> !entries_map(self.cache@).dom().contains(
                #[trigger] self.pending@[i],
            )
    }

    /// A fresh scope for one logical request: nothing pending, nothing cached.
    pub fn new() -> (s: Self)
        ensures
            s.wf(),
            s.pending_view() == Seq::<u128>::empty(),
            s.cache_view() == Map::<u128, Option<V>>::empty(),
    {
        LoaderScope { pending: Vec::new(), cache: Vec::new() }
    }

    /// The position of `key` in the cache, if a fetch already covered it.
    #[verifier::loop_isolation(false)]
    fn cache_index(&self, key: u128) -> (r: Option<usize>)
        ensures
            match r {
                Some(i) => i < self.cache@.len() && self.cache@[i as int].key == key,
                None => forall|i: int| 0 <= i < self.cache@.len() ==> self.cache@[i].key != key,
            },
    {
        let n = self.cache.len();
        for i in 0..n
            invariant
                forall|j: int| 0 <= j < i ==> self.cache@[j].key != key,
        {
            if self.cache[i].key == key {
                return Some(i);
            }
        }
        None
    }

    /// Whether `key` already sits in the pending batch.
    #[verifier::loop_isolation(false)]
    fn is_pending(&self, key: u128) -> (r: bool)
        ensures
            r == self.pending@.contains(key),
    {
        let n = self.pending.len();
        for i in 0..n
            invariant
                forall|j: int| 0 <= j < i ==> self.pending@[j] != key,
        {
            if self.pending[i] == key {
                return true;
            }
        }
        proof {
            assert(!self.pending@.contains(key));
        }
        false
    }

    /// Registers one lookup. Returns whether the key is already resolved (so
    /// the caller may read it at once via [`Self::get`]); otherwise the key
    /// joins the pending batch — once, however often it is requested.
    pub fn load(&mut self, key: u128) -> (resolved: bool)
        requires
            old(self).wf(),
        ensures
            final(self).wf(),
            resolved == old(self).cache_view().dom().contains(key),
            final(self).cache_view() == old(self).cache_view(),
            final(self).pending_view() == register(
                old(self).pending_view(),
                old(self).cache_view(),
                key,
            ),
    {
        match self.cache_index(key) {
            Some(_) => {
                proof {
                    lemma_entries_map_member(self.cache@, key);
                }
                true
            },
            None => {
                proof {
                    lemma_entries_map_absent(self.cache@, key);
                }
                if !self.is_pending(key) {
                    self.pending.push(key);
                    proof {
                        assert forall|i: int, j: int|
                            0 <= i < j < self.pending@.len() implies self.pending@[i]
                            != self.pending@[j] by {
                            if j == self.pending@.len() - 1 {
                                assert(!old(self).pending@.contains(self.pending@[j]));
                            }
                        }
                    }
                }
                false
            },
        }
    }

    /// Takes the deduplicated batch for the next multi-key fetch and empties
    /// the pending set. Each key appears at most once and none is cached yet,
    /// so exactly one fetch covers every outstanding lookup.
    pub fn drain(&mut self) -> (batch: Vec<u128>)
        requires
            old(self).wf(),
        ensures
            final(self).wf(),
            batch@ == old(self).pending_view(),
            final(self).pending_view() == Seq::<u128>::empty(),
            final(self).cache_view() == old(self).cache_view(),
            forall|i: int, j: int| 0 <= i < j < batch@.len() ==> batch@[i] != batch@[j],
            forall|i: int|
                0 <= i < batch@.len() ==> !old(self).cache_view().dom().contains(
                    #[trigger] batch@[i],
                ),
    {
        let mut batch: Vec<u128> = Vec::new();
        core::mem::swap(&mut batch, &mut self.pending);
        batch
    }

    /// Files the rows of the batched fetch. Every key of the batch becomes
    /// resolved: to its first matching row, or to an explicit miss (`None`)
    /// when the fetch returned no row for it — a missing relation is an
    /// answer, not a failure of the sibling keys. Keys outside the batch keep
    /// what they had.
    #[verifier::loop_isolation(false)]
    pub fn resolve(&mut self, batch: Vec<u128>, rows: Vec<Fetched<V>>)
        requires
            old(self).wf(),
            forall|i: int, j: int| 0 <= i < j < batch@.len() ==> batch@[i] != batch@[j],
            forall|i: int|
                0 <= i < batch@.len() ==> !old(self).cache_view().dom().contains(
                    #[trigger] batch@[i],
                ),
            forall|i: int|
                0 <= i < batch@.len() ==> !old(self).pending_view().contains(#[trigger] batch@[i]),
        ensures
            final(self).wf(),
            final(self).pending_view() == old(self).pending_view(),
            forall|i: int|
                0 <= i < batch@.len() ==> final(self).cache_view().dom().contains(
                    #[trigger] batch@[i],
                ) && final(self).cache_view()[batch@[i]] == first_result(rows@, batch@[i]),
            forall|k: u128|
                !batch@.contains(k) ==> {
                    &&& final(self).cache_view().dom().contains(k) == old(
                        self,
                    ).cache_view().dom().contains(k)
                    &&& old(self).cache_view().dom().contains(k) ==> final(self).cache_view()[k]
                        == old(self).cache_view()[k]
                },
    {
        let ghost batch0 = batch@;
        let ghost rows0 = rows@;
        let n0: usize = batch.len();
        proof {
            assert(batch0.len() == n0);
        }
        let mut batch = batch;
        let mut rows = rows;
        let mut k: usize = 0;
        while batch.len() > 0
            invariant
                batch0.len() <= usize::MAX,
                k + batch.len() == batch0.len(),
                batch@ == batch0.subrange(k as int, batch0.len() as int),
                self.pending@ == old(self).pending@,
                self.wf(),
                // rows not yet consumed answer the remaining keys as the
                // original rows did
                forall|t: int|
                    k <= t < batch0.len() ==> first_result(rows@, #[trigger] batch0[t])
                        == first_result(rows0, batch0[t]),
                // processed keys are resolved to their original first row
                forall|t: int|
                    0 <= t < k ==> self.cache_view().dom().contains(#[trigger] batch0[t])
                        && self.cache_view()[batch0[t]] == first_result(rows0, batch0[t]),
                // untouched keys keep their entries
                forall|key: u128|
                    !batch0.contains(key) ==> {
                        &&& self.cache_view().dom().contains(key) == old(
                            self,
                        ).cache_view().dom().contains(key)
                        &&& old(self).cache_view().dom().contains(key) ==> self.cache_view()[key]
                            == old(self).cache_view()[key]
                    },
                // unprocessed keys are still unresolved
                forall|t: int|
                    k <= t < batch0.len() ==> !self.cache_view().dom().contains(
                        #[trigger] batch0[t],
                    ),
            decreases batch.len(),
        {
            let key = batch.remove(0);
            proof {
                assert(key == batch0[k as int]);
            }
            let found = Self::take_first_row(&mut rows, key);
            let ghost pre = self.cache@;
            proof {
                assert(!entries_map(pre).dom().contains(key));
                assert forall|i: int| 0 <= i < pre.len() implies pre[i].key != key by {
                    if pre[i].key == key {
                        lemma_entries_map_member(pre, key);
                    }
                }
            }
            self.cache.push(CacheEntry { key, value: found });
            proof {
                assert(self.cache@.drop_last() =~= pre);
                assert(self.cache@.drop_last() == pre);
                assert(entries_map(self.cache@) == entries_map(pre).insert(
                    key,
                    first_result(rows0, key),
                ));
            }
            k = k + 1;
        }
    }

    /// Pulls the first row answering `key` out of `rows`, leaving the answers
    /// for every other key untouched.
    #[verifier::loop_isolation(false)]
    fn take_first_row(rows: &mut Vec<Fetched<V>>, key: u128) -> (found: Option<V>)
        ensures
            found == first_result(old(rows)@, key),
            forall|other: u128|
                other != key ==> first_result(final(rows)@, other) == first_result(
                    old(rows)@,
                    other,
                ),
    {
        let n = rows.len();
        let mut idx: usize = 0;
        loop
            invariant
                idx <= rows@.len(),
                n == rows@.len(),
                rows@ == old(rows)@,
                first_result_from(rows@, key, 0) == first_result_from(rows@, key, idx as nat),
                forall|j: int| 0 <= j < idx ==> rows@[j].key != key,
            decreases rows@.len() - idx,
        {
            if idx >= rows.len() {
                return None;
            }
            if rows[idx].key == key {
                let row = rows.remove(idx);
                proof {
                    assert(first_result_from(old(rows)@, key, idx as nat) == Some(row.value));
                    assert forall|other: u128| other != key implies first_result(
                        final(rows)@,
                        other,
                    ) == first_result(old(rows)@, other) by {
                        lemma_first_result_remove(old(rows)@, idx as int, other);
                    }
                }
                return Some(row.value);
            }
            idx = idx + 1;
        }
    }

    /// Abandons a drained batch whose one underlying fetch failed: the batch
    /// is dropped, nothing is cached — so no handle can ever be resolved with
    /// stale data — and the returned error is the single
    /// `SDKError::BatchFetchFailed` that every caller awaiting a key of the
    /// batch reports. This is the only way a load surfaces a hard error.
    pub fn fail_batch(&mut self, _batch: Vec<u128>) -> (e: SDKError)
        ensures
            e == SDKError::BatchFetchFailed,
            final(self).pending_view() == old(self).pending_view(),
            final(self).cache_view() == old(self).cache_view(),
            final(self).wf() == old(self).wf(),
    {
        SDKError::BatchFetchFailed
    }

    /// How many registered lookups still await a fetch. A scope being torn
    /// down with outstanding lookups is a programming error in the driver:
    /// it must fail fast rather than leave handles silently unanswered.
    pub fn outstanding(&self) -> (r: usize)
        ensures
            r == self.pending_view().len(),
    {
        self.pending.len()
    }

    /// What a finished fetch left for `key`: `Some(&outcome)` once the key
    /// was resolved — the outcome itself being `None` for an explicit miss —
    /// and `None` while no fetch has covered the key.
    pub fn get(&self, key: u128) -> (r: Option<&Option<V>>)
        requires
            self.wf(),
        ensures
            match r {
                Some(v) => self.cache_view().dom().contains(key) && *v == self.cache_view()[key],
                None => !self.cache_view().dom().contains(key),
            },
    {
        match self.cache_index(key) {
            Some(i) => {
                proof {
                    lemma_entries_map_at(self.cache@, i as int);
                }
                Some(&self.cache[i].value)
            },
            None => {
                proof {
                    lemma_entries_map_absent(self.cache@, key);
                }
                None
            },
        }
    }
}

/// A cache without an entry for `key` resolves nothing for it.
proof fn lemma_entries_map_absent<V>(es: Seq<CacheEntry<V>>, key: u128)
    requires
        forall|i: int| 0 <= i < es.len() ==> es[i].key != key,
    ensures
        !entries_map(es).dom().contains(key),
    decreases es.len(),
{
    if es.len() > 0 {
        lemma_entries_map_absent(es.drop_last(), key);
    }
}

/// A cache with an entry for `key` resolves it.
proof fn lemma_entries_map_member<V>(es: Seq<CacheEntry<V>>, key: u128)
    requires
        exists|i: int| 0 <= i < es.len() && es[i].key == key,
    ensures
        entries_map(es).dom().contains(key),
    decreases es.len(),
{
    let i = choose|i: int| 0 <= i < es.len() && es[i].key == key;
    if i == es.len() - 1 {
    } else {
        assert(es.drop_last()[i] == es[i]);
        lemma_entries_map_member(es.drop_last(), key);
    }
}

/// With unique keys, entry `i` is what the cache resolves for its key.
proof fn lemma_entries_map_at<V>(es: Seq<CacheEntry<V>>, i: int)
    requires
        0 <= i < es.len(),
        forall|a: int, b: int| 0 <= a < b < es.len() ==> es[a].key != es[b].key,
    ensures
        entries_map(es).dom().contains(es[i].key),
        entries_map(es)[es[i].key] == es[i].value,
    decreases es.len(),
{
    if i == es.len() - 1 {
    } else {
        lemma_entries_map_at(es.drop_last(), i);
        assert(es.last().key != es[i].key);
    }
}

/// Registering a key is idempotent within one scope: however often a caller
/// loads the same key, the pending batch carries it as if loaded once.
pub proof fn lemma_register_idempotent<V>(
    pending: Seq<u128>,
    cache: Map<u128, Option<V>>,
    key: u128,
)
    ensures
        register::<V>(register::<V>(pending, cache, key), cache, key) == register::<V>(
            pending,
            cache,
            key,
        ),
{
    if !cache.dom().contains(key) && !pending.contains(key) {
        assert(pending.push(key)[pending.len() as int] == key);
        assert(pending.push(key).contains(key));
    }
}

/// A key neither cached nor pending pends exactly once after a load, and no
/// further load changes that: the one batched fetch will name it once.
pub proof fn lemma_register_count<V>(pending: Seq<u128>, cache: Map<u128, Option<V>>, key: u128)
    requires
        !pending.contains(key),
        !cache.dom().contains(key),
    ensures
        count_key(register::<V>(pending, cache, key), key) == count_key(pending, key) + 1,
        count_key(pending, key) == 0,
{
    lemma_count_key_absent(pending, key);
    assert(register::<V>(pending, cache, key) == pending.push(key));
    assert(pending.push(key).drop_last() =~= pending);
}

/// No row for `key` means the scan finds nothing, from any start.
proof fn lemma_first_result_all_absent<V>(rows: Seq<Fetched<V>>, key: u128, i: nat)
    requires
        forall|j: int| 0 <= j < rows.len() ==> rows[j].key != key,
    ensures
        first_result_from(rows, key, i) is None,
    decreases rows.len() - i,
{
    if i < rows.len() {
        lemma_first_result_all_absent(rows, key, i + 1);
    }
}

/// A row for `key` means the scan finds one, from any start at or before it.
proof fn lemma_first_result_present<V>(rows: Seq<Fetched<V>>, key: u128, i: nat)
    requires
        exists|j: int| i <= j < rows.len() && rows[j].key == key,
    ensures
        first_result_from(rows, key, i) is Some,
    decreases rows.len() - i,
{
    let j = choose|j: int| i <= j < rows.len() && rows[j].key == key;
    if rows[i as int].key != key {
        lemma_first_result_present(rows, key, i + 1);
    }
}

/// A batched fetch that found a row for `a` but none for `b` resolves `a` to
/// its record and `b` to an explicit miss: a missing key never fails the
/// sibling keys of the same batch.
pub proof fn lemma_partial_miss<V>(rows: Seq<Fetched<V>>, a: u128, b: u128)
    requires
        exists|j: int| 0 <= j < rows.len() && rows[j].key == a,
        forall|j: int| 0 <= j < rows.len() ==> rows[j].key != b,
    ensures
        first_result(rows, a) is Some,
        first_result(rows, b) is None,
{
    lemma_first_result_present(rows, a, 0);
    lemma_first_result_all_absent(rows, b, 0);
}

/// A key a sequence does not contain counts zero.
proof fn lemma_count_key_absent(s: Seq<u128>, key: u128)
    requires
        !s.contains(key),
    ensures
        count_key(s, key) == 0,
    decreases s.len(),
{
    if s.len() > 0 {
        assert(s.last() != key);
        assert(!s.drop_last().contains(key)) by {
            if s.drop_last().contains(key) {
                let i = choose|i: int| 0 <= i < s.drop_last().len() && s.drop_last()[i] == key;
                assert(s[i] == key);
            }
        }
        lemma_count_key_absent(s.drop_last(), key);
    }
}

} // verus!
