//! What holds of a reference cache over whole histories of operations.
//!
//! A history is a sequence of [`CacheOp`]s. [`apply`] says what one
//! operation does to the contents of a cache, in the words of the contracts
//! of [`RefCache`](crate::reference_cache::RefCache); [`run`] applies a
//! history from left to right.

use vstd::prelude::*;
use crate::blockcfg::HeaderHash;
use crate::quarantine::QuarantinedView;
use crate::reference_cache::{is_expired, unexpired, Cached};

verus! {

/// One operation on a cache, with its arguments.
pub enum CacheOp {
    /// Place a value under a key at a time.
    Insert(HeaderHash, QuarantinedView, u64),
    /// Read a key at a time.
    Get(HeaderHash, u64),
    /// Remove a key.
    Remove(HeaderHash),
    /// Evict what has expired at a time.
    Purge(u64),
}

impl CacheOp {
    /// The operation leaves an entry held under `k` as it is, unless the
    /// operation is a purge.
    pub open spec fn spares(self, k: HeaderHash) -> bool {
        match self {
            CacheOp::Insert(key, _, _) => key != k,
            CacheOp::Get(key, _) => key != k,
            CacheOp::Remove(key) => key != k,
            CacheOp::Purge(_) => true,
        }
    }

    /// The operation touches the entry under `k` if there is one: it is an
    /// insertion or a read of `k`.
    pub open spec fn touches(self, k: HeaderHash) -> bool {
        match self {
            CacheOp::Insert(key, _, _) => key == k,
            CacheOp::Get(key, _) => key == k,
            _ => false,
        }
    }

    /// The time that the operation carries; zero for a removal, which
    /// carries none.
    pub open spec fn time(self) -> u64 {
        match self {
            CacheOp::Insert(_, _, now) => now,
            CacheOp::Get(_, now) => now,
            CacheOp::Remove(_) => 0,
            CacheOp::Purge(now) => now,
        }
    }
}

/// The contents of a cache with time-to-live `ttl` after `op`, given its
/// contents `m` before.
pub open spec fn apply(m: Map<HeaderHash, Cached>, ttl: u64, op: CacheOp) -> Map<
    HeaderHash,
    Cached,
> {
    match op {
        CacheOp::Insert(key, value, now) => m.insert(key, Cached { value, touched: now }),
        CacheOp::Get(key, now) => if m.contains_key(key) {
            m.insert(key, Cached { value: m[key].value, touched: now })
        } else {
            m
        },
        CacheOp::Remove(key) => m.remove(key),
        CacheOp::Purge(now) => unexpired(m, ttl, now),
    }
}

/// The contents of a cache with time-to-live `ttl` after the operations
/// `ops` in order, given its contents `m` before.
pub open spec fn run(m: Map<HeaderHash, Cached>, ttl: u64, ops: Seq<CacheOp>) -> Map<
    HeaderHash,
    Cached,
>
    decreases ops.len(),
{
    if ops.len() == 0 {
        m
    } else {
        apply(run(m, ttl, ops.drop_last()), ttl, ops.last())
    }
}

/// Sliding time-to-live: after a read of `k` at time `t` that found an
/// entry, the entry stays, with `t` as its last touch, through every
/// history in which no operation inserts, reads or removes `k` and every
/// purge runs before `t + ttl`.
pub proof fn lemma_ttl_sliding(
    m: Map<HeaderHash, Cached>,
    ttl: u64,
    k: HeaderHash,
    t: u64,
    ops: Seq<CacheOp>,
)
    requires
        m.contains_key(k),
        forall|i: int| 0 <= i < ops.len() ==> (#[trigger] ops[i]).spares(k),
        forall|i: int| 0 <= i < ops.len() && #[trigger] ops[i] is Purge ==> ops[i].time() < t + ttl,
    ensures
        run(apply(m, ttl, CacheOp::Get(k, t)), ttl, ops).contains_key(k),
        run(apply(m, ttl, CacheOp::Get(k, t)), ttl, ops)[k] == (Cached {
            value: m[k].value,
            touched: t,
        }),
    decreases ops.len(),
{
    if ops.len() > 0 {
        let before = ops.drop_last();
        assert forall|i: int| 0 <= i < before.len() implies (#[trigger] before[i]).spares(k) by {
            assert(before[i] == ops[i]);
        }
        assert forall|i: int| 0 <= i < before.len() && #[trigger] before[i] is Purge implies before[i].time()
            < t + ttl by {
            assert(before[i] == ops[i]);
        }
        lemma_ttl_sliding(m, ttl, k, t, before);
        let last = ops[ops.len() - 1];
        assert(last.spares(k));
        assert(last is Purge ==> last.time() < t + ttl);
    }
}

/// Eviction is complete and exact: after a purge at time `now`, an entry
/// is held exactly when it was held before and its last touch lies less
/// than `ttl` before `now`; such an entry is unchanged. So no entry last
/// touched at or before `now - ttl` remains.
pub proof fn lemma_eviction_complete(m: Map<HeaderHash, Cached>, ttl: u64, now: u64, k: HeaderHash)
    ensures
        apply(m, ttl, CacheOp::Purge(now)).contains_key(k) <==> m.contains_key(k) && m[k].touched
            + ttl > now,
        apply(m, ttl, CacheOp::Purge(now)).contains_key(k) ==> apply(
            m,
            ttl,
            CacheOp::Purge(now),
        )[k] == m[k],
        m.contains_key(k) && m[k].touched <= now - ttl ==> !apply(
            m,
            ttl,
            CacheOp::Purge(now),
        ).contains_key(k),
{
}

/// The time of the latest operation among the first `end` of `ops` that
/// touches `k`; zero when none of them does.
pub open spec fn last_touch(ops: Seq<CacheOp>, k: HeaderHash, end: int) -> u64
    decreases end,
{
    if end <= 0 {
        0
    } else if ops[end - 1].touches(k) {
        ops[end - 1].time()
    } else {
        last_touch(ops, k, end - 1)
    }
}

/// Operation `i` of `ops` inserts under `k`.
pub open spec fn inserts(ops: Seq<CacheOp>, k: HeaderHash, i: int) -> bool {
    ops[i] matches CacheOp::Insert(key, _, _) && key == k
}

/// An entry held under `k` before operation `j` of `ops` is still held after
/// it: the operation does not remove `k`, and if it is a purge, the last
/// touch of `k` before it lies less than `ttl` back.
pub open spec fn outlives(ops: Seq<CacheOp>, ttl: u64, k: HeaderHash, j: int) -> bool {
    match ops[j] {
        CacheOp::Remove(key) => key != k,
        CacheOp::Purge(now) => !is_expired(last_touch(ops, k, j), ttl, now),
        _ => true,
    }
}

/// After the history `ops`, `k` has been inserted and not removed or expired
/// since: some operation inserts under `k`, and the entry outlives every
/// later operation.
pub open spec fn live(ops: Seq<CacheOp>, ttl: u64, k: HeaderHash) -> bool {
    exists|i: int|
        0 <= i < ops.len() && #[trigger] inserts(ops, k, i) && forall|j: int|
            i < j < ops.len() ==> #[trigger] outlives(ops, ttl, k, j)
}

proof fn lemma_last_touch_prefix(ops: Seq<CacheOp>, k: HeaderHash, end: int)
    requires
        0 <= end < ops.len(),
    ensures
        last_touch(ops.drop_last(), k, end) == last_touch(ops, k, end),
    decreases end,
{
    if end > 0 {
        assert(ops.drop_last()[end - 1] == ops[end - 1]);
        lemma_last_touch_prefix(ops, k, end - 1);
    }
}

proof fn lemma_outlives_prefix(ops: Seq<CacheOp>, ttl: u64, k: HeaderHash, j: int)
    requires
        0 <= j < ops.len() - 1,
    ensures
        outlives(ops.drop_last(), ttl, k, j) == outlives(ops, ttl, k, j),
{
    assert(ops.drop_last()[j] == ops[j]);
    lemma_last_touch_prefix(ops, k, j);
}

proof fn lemma_live_step(ops: Seq<CacheOp>, ttl: u64, k: HeaderHash)
    requires
        ops.len() > 0,
    ensures
        live(ops, ttl, k) <==> inserts(ops, k, ops.len() - 1) || (live(ops.drop_last(), ttl, k)
            && outlives(ops, ttl, k, ops.len() - 1)),
{
    let before = ops.drop_last();
    let n = ops.len() - 1;
    if live(ops, ttl, k) && !inserts(ops, k, n) {
        let i = choose|i: int|
            0 <= i < ops.len() && #[trigger] inserts(ops, k, i) && forall|j: int|
                i < j < ops.len() ==> #[trigger] outlives(ops, ttl, k, j);
        assert(before[i] == ops[i]);
        assert(inserts(before, k, i));
        assert forall|j: int| i < j < before.len() implies #[trigger] outlives(
            before,
            ttl,
            k,
            j,
        ) by {
            assert(outlives(ops, ttl, k, j));
            lemma_outlives_prefix(ops, ttl, k, j);
        }
        assert(outlives(ops, ttl, k, n));
    }
    if live(before, ttl, k) && outlives(ops, ttl, k, n) {
        let i = choose|i: int|
            0 <= i < before.len() && #[trigger] inserts(before, k, i) && forall|j: int|
                i < j < before.len() ==> #[trigger] outlives(before, ttl, k, j);
        assert(before[i] == ops[i]);
        assert(inserts(ops, k, i));
        assert forall|j: int| i < j < ops.len() implies #[trigger] outlives(ops, ttl, k, j) by {
            if j < n {
                assert(outlives(before, ttl, k, j));
                lemma_outlives_prefix(ops, ttl, k, j);
            }
        }
    }
    if inserts(ops, k, n) {
        assert(forall|j: int| n < j < ops.len() ==> #[trigger] outlives(ops, ttl, k, j));
    }
}

proof fn lemma_key_history(ttl: u64, ops: Seq<CacheOp>, k: HeaderHash)
    ensures
        run(Map::empty(), ttl, ops).contains_key(k) <==> live(ops, ttl, k),
        run(Map::empty(), ttl, ops).contains_key(k) ==> run(Map::empty(), ttl, ops)[k].touched
            == last_touch(ops, k, ops.len() as int),
    decreases ops.len(),
{
    if ops.len() > 0 {
        let n = ops.len() - 1;
        lemma_key_history(ttl, ops.drop_last(), k);
        lemma_live_step(ops, ttl, k);
        lemma_last_touch_prefix(ops, k, n);
    }
}

/// Key uniqueness: starting from an empty cache, after any history of
/// insertions, reads, removals and purges the cache holds an entry under a
/// key exactly when the key has been inserted and not removed or expired
/// since. A map holds each key once, so no key is held twice.
pub proof fn lemma_key_set(ttl: u64, ops: Seq<CacheOp>)
    ensures
        forall|k: HeaderHash| #[trigger]
            run(Map::empty(), ttl, ops).contains_key(k) <==> live(ops, ttl, k),
{
    assert forall|k: HeaderHash| #[trigger]
        run(Map::empty(), ttl, ops).contains_key(k) <==> live(ops, ttl, k) by {
        lemma_key_history(ttl, ops, k);
    }
}

} // verus!
