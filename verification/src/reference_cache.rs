//! A map from block identifiers to quarantined entries in which an entry
//! that goes untouched for the time-to-live becomes eligible for eviction.
//!
//! Time is a number that the caller supplies with each operation: a count of
//! milliseconds on a clock of the caller's choosing. The cache never reads a
//! clock of its own, so what it does depends on its arguments alone.

use vstd::prelude::*;
use crate::blockcfg::HeaderHash;
use crate::quarantine::{Quarantined, QuarantinedView};

verus! {

/// One cached entry as mathematical values: what is held and when it was
/// last touched.
pub struct Cached {
    pub value: QuarantinedView,
    pub touched: u64,
}

/// An entry last touched at `touched` has outlived `ttl` at time `now`.
pub open spec fn is_expired(touched: u64, ttl: u64, now: u64) -> bool {
    touched + ttl <= now
}

/// The entries of `m` that have not outlived `ttl` at time `now`.
pub open spec fn unexpired(m: Map<HeaderHash, Cached>, ttl: u64, now: u64) -> Map<
    HeaderHash,
    Cached,
> {
    Map::new(
        |k: HeaderHash| m.contains_key(k) && !is_expired(m[k].touched, ttl, now),
        |k: HeaderHash| m[k],
    )
}

/// The time at which an entry last touched at `touched` becomes eligible
/// for eviction, capped at the largest representable time.
pub open spec fn expiry(touched: u64, ttl: u64) -> u64 {
    if touched + ttl > u64::MAX {
        u64::MAX
    } else {
        (touched + ttl) as u64
    }
}

struct Entry {
    key: HeaderHash,
    value: Quarantined,
    touched: u64,
}

impl Entry {
    spec fn cached(self) -> Cached {
        Cached { value: self.value@, touched: self.touched }
    }
}

spec fn distinct_keys(s: Seq<Entry>) -> bool {
    forall|i: int, j: int| 0 <= i < j < s.len() ==> s[i].key != s[j].key
}

spec fn holds_key(s: Seq<Entry>, k: HeaderHash) -> bool {
    exists|i: int| 0 <= i < s.len() && s[i].key == k
}

spec fn index_of(s: Seq<Entry>, k: HeaderHash) -> int {
    choose|i: int| 0 <= i < s.len() && s[i].key == k
}

spec fn as_map(s: Seq<Entry>) -> Map<HeaderHash, Cached> {
    Map::new(|k: HeaderHash| holds_key(s, k), |k: HeaderHash| s[index_of(s, k)].cached())
}

proof fn lemma_entry_at(s: Seq<Entry>, i: int)
    requires
        distinct_keys(s),
        0 <= i < s.len(),
    ensures
        holds_key(s, s[i].key),
        index_of(s, s[i].key) == i,
        as_map(s).contains_key(s[i].key),
        as_map(s)[s[i].key] == s[i].cached(),
{
    let j = index_of(s, s[i].key);
    assert(0 <= j < s.len() && s[j].key == s[i].key);
}

proof fn lemma_pushed(s: Seq<Entry>, e: Entry)
    requires
        distinct_keys(s),
        !holds_key(s, e.key),
    ensures
        distinct_keys(s.push(e)),
        as_map(s.push(e)) == as_map(s).insert(e.key, e.cached()),
{
    let t = s.push(e);
    assert forall|i: int, j: int| 0 <= i < j < t.len() implies t[i].key != t[j].key by {
        if j == s.len() {
            assert(s[i].key != e.key);
        }
    }
    assert forall|k: HeaderHash| holds_key(t, k) <==> (holds_key(s, k) || k == e.key) by {
        if holds_key(s, k) {
            let i = index_of(s, k);
            assert(t[i].key == k);
        }
        if k == e.key {
            assert(t[s.len() as int].key == k);
        }
    }
    assert forall|k: HeaderHash| holds_key(t, k) implies #[trigger] as_map(t)[k] == as_map(
        s,
    ).insert(e.key, e.cached())[k] by {
        let i = index_of(t, k);
        lemma_entry_at(t, i);
        if i < s.len() {
            assert(s[i].key == k);
            lemma_entry_at(s, i);
        }
    }
    assert(as_map(t) =~= as_map(s).insert(e.key, e.cached()));
}

proof fn lemma_replaced(s: Seq<Entry>, i: int, e: Entry)
    requires
        distinct_keys(s),
        0 <= i < s.len(),
        s[i].key == e.key,
    ensures
        distinct_keys(s.update(i, e)),
        as_map(s.update(i, e)) == as_map(s).insert(e.key, e.cached()),
{
    let t = s.update(i, e);
    assert forall|a: int, b: int| 0 <= a < b < t.len() implies t[a].key != t[b].key by {
        assert(t[a].key == s[a].key);
        assert(t[b].key == s[b].key);
    }
    assert forall|k: HeaderHash| holds_key(t, k) <==> holds_key(s, k) by {
        if holds_key(s, k) {
            let j = index_of(s, k);
            assert(t[j].key == k);
        }
        if holds_key(t, k) {
            let j = index_of(t, k);
            assert(s[j].key == k);
        }
    }
    lemma_entry_at(s, i);
    assert forall|k: HeaderHash| holds_key(t, k) implies #[trigger] as_map(t)[k] == as_map(
        s,
    ).insert(e.key, e.cached())[k] by {
        let j = index_of(t, k);
        lemma_entry_at(t, j);
        if j != i {
            assert(s[j].key == k);
            lemma_entry_at(s, j);
        }
    }
    assert(as_map(t) =~= as_map(s).insert(e.key, e.cached()));
}

proof fn lemma_removed(s: Seq<Entry>, i: int)
    requires
        distinct_keys(s),
        0 <= i < s.len(),
    ensures
        distinct_keys(s.remove(i)),
        as_map(s.remove(i)) == as_map(s).remove(s[i].key),
{
    let t = s.remove(i);
    assert forall|a: int, b: int| 0 <= a < b < t.len() implies t[a].key != t[b].key by {
        let a0 = if a < i { a } else { a + 1 };
        let b0 = if b < i { b } else { b + 1 };
        assert(t[a] == s[a0]);
        assert(t[b] == s[b0]);
    }
    assert forall|k: HeaderHash| holds_key(t, k) <==> (holds_key(s, k) && k != s[i].key) by {
        if holds_key(s, k) && k != s[i].key {
            let j = index_of(s, k);
            let j1 = if j < i { j } else { j - 1 };
            assert(t[j1] == s[j]);
        }
        if holds_key(t, k) {
            let j = index_of(t, k);
            let j0 = if j < i { j } else { j + 1 };
            assert(t[j] == s[j0]);
            assert(s[j0].key == k);
        }
    }
    assert forall|k: HeaderHash| holds_key(t, k) implies #[trigger] as_map(t)[k] == as_map(
        s,
    ).remove(s[i].key)[k] by {
        let j = index_of(t, k);
        lemma_entry_at(t, j);
        let j0 = if j < i { j } else { j + 1 };
        assert(t[j] == s[j0]);
        lemma_entry_at(s, j0);
    }
    assert(as_map(t) =~= as_map(s).remove(s[i].key));
}

proof fn lemma_size(s: Seq<Entry>)
    requires
        distinct_keys(s),
    ensures
        as_map(s).dom().finite(),
        as_map(s).dom().len() == s.len(),
    decreases s.len(),
{
    if s.len() == 0 {
        assert(as_map(s).dom() =~= Set::<HeaderHash>::empty());
    } else {
        let p = s.drop_last();
        let e = s.last();
        assert(s == p.push(e));
        assert(distinct_keys(p)) by {
            assert forall|i: int, j: int| 0 <= i < j < p.len() implies p[i].key != p[j].key by {
                assert(p[i] == s[i]);
                assert(p[j] == s[j]);
            }
        }
        assert(!holds_key(p, e.key)) by {
            if holds_key(p, e.key) {
                let i = index_of(p, e.key);
                assert(s[i].key == s[s.len() - 1].key);
            }
        }
        lemma_size(p);
        lemma_pushed(p, e);
        assert(as_map(s).dom() =~= as_map(p).dom().insert(e.key));
    }
}

spec fn survives(all: Seq<Entry>, j: int, ttl: u64, now: u64) -> bool {
    !is_expired(all[j].touched, ttl, now)
}

/// Each entry of `kept` is an unexpired entry of `all` at or after index `n`;
/// `origin` says which.
spec fn taken_from(
    kept: Seq<Entry>,
    origin: Seq<int>,
    all: Seq<Entry>,
    n: int,
    ttl: u64,
    now: u64,
) -> bool {
    &&& origin.len() == kept.len()
    &&& forall|x: int|
        0 <= x < kept.len() ==> n <= #[trigger] origin[x] < all.len() && kept[x] == all[origin[x]]
            && survives(all, origin[x], ttl, now)
}

/// Each unexpired entry of `all` at or after index `n` has its key in `kept`.
spec fn covers(kept: Seq<Entry>, all: Seq<Entry>, n: int, ttl: u64, now: u64) -> bool {
    forall|j: int|
        n <= j < all.len() && #[trigger] survives(all, j, ttl, now) ==> holds_key(
            kept,
            all[j].key,
        )
}

proof fn lemma_keep(
    kept: Seq<Entry>,
    origin: Seq<int>,
    all: Seq<Entry>,
    n: int,
    ttl: u64,
    now: u64,
)
    requires
        distinct_keys(all),
        distinct_keys(kept),
        0 < n <= all.len(),
        taken_from(kept, origin, all, n, ttl, now),
        covers(kept, all, n, ttl, now),
        survives(all, n - 1, ttl, now),
    ensures
        distinct_keys(kept.push(all[n - 1])),
        taken_from(kept.push(all[n - 1]), origin.push(n - 1), all, n - 1, ttl, now),
        covers(kept.push(all[n - 1]), all, n - 1, ttl, now),
{
    let e = all[n - 1];
    let grown = kept.push(e);
    let from = origin.push(n - 1);
    if holds_key(kept, e.key) {
        let x = index_of(kept, e.key);
        assert(all[origin[x]].key == all[n - 1].key);
    }
    lemma_pushed(kept, e);
    assert forall|x: int| 0 <= x < grown.len() implies n - 1 <= #[trigger] from[x] < all.len()
        && grown[x] == all[from[x]] && survives(all, from[x], ttl, now) by {
        if x < kept.len() {
            assert(from[x] == origin[x]);
        }
    }
    assert forall|j: int| n - 1 <= j < all.len() && #[trigger] survives(
        all,
        j,
        ttl,
        now,
    ) implies holds_key(grown, all[j].key) by {
        if j == n - 1 {
            assert(grown[kept.len() as int].key == all[j].key);
        } else {
            let x = index_of(kept, all[j].key);
            assert(grown[x].key == all[j].key);
        }
    }
}

proof fn lemma_drop(
    kept: Seq<Entry>,
    origin: Seq<int>,
    all: Seq<Entry>,
    n: int,
    ttl: u64,
    now: u64,
)
    requires
        0 < n <= all.len(),
        taken_from(kept, origin, all, n, ttl, now),
        covers(kept, all, n, ttl, now),
        !survives(all, n - 1, ttl, now),
    ensures
        taken_from(kept, origin, all, n - 1, ttl, now),
        covers(kept, all, n - 1, ttl, now),
{
}

proof fn lemma_all_taken(kept: Seq<Entry>, origin: Seq<int>, all: Seq<Entry>, ttl: u64, now: u64)
    requires
        distinct_keys(all),
        distinct_keys(kept),
        taken_from(kept, origin, all, 0, ttl, now),
        covers(kept, all, 0, ttl, now),
    ensures
        as_map(kept) == unexpired(as_map(all), ttl, now),
{
    let goal = unexpired(as_map(all), ttl, now);
    assert forall|k: HeaderHash| holds_key(kept, k) <==> goal.contains_key(k) by {
        if holds_key(kept, k) {
            let x = index_of(kept, k);
            lemma_entry_at(all, origin[x]);
        }
        if goal.contains_key(k) {
            let j = index_of(all, k);
            lemma_entry_at(all, j);
            assert(survives(all, j, ttl, now));
        }
    }
    assert forall|k: HeaderHash| holds_key(kept, k) implies #[trigger] as_map(kept)[k]
        == goal[k] by {
        let x = index_of(kept, k);
        lemma_entry_at(kept, x);
        lemma_entry_at(all, origin[x]);
    }
    assert(as_map(kept) =~= goal);
}

fn find(entries: &Vec<Entry>, key: &HeaderHash) -> (r: Option<usize>)
    ensures
        match r {
            Some(i) => i < entries.len() && entries[i as int].key == *key,
            None => !holds_key(entries@, *key),
        },
{
    let mut i: usize = 0;
    while i < entries.len()
        invariant
            i <= entries.len(),
            forall|j: int| 0 <= j < i ==> entries[j].key != *key,
        decreases entries.len() - i,
    {
        if entries[i].key == *key {
            return Some(i);
        }
        i += 1;
    }
    None
}

/// A cache of quarantined entries keyed by block identifier.
///
/// Every entry carries the time of its last touch. Inserting an entry and
/// reading it are touches. An entry whose last touch lies at least the
/// time-to-live in the past is removed by the next [`RefCache::purge`].
pub struct RefCache {
    entries: Vec<Entry>,
    ttl: u64,
}

impl View for RefCache {
    type V = Map<HeaderHash, Cached>;

    closed spec fn view(&self) -> Map<HeaderHash, Cached> {
        as_map(self.entries@)
    }
}

impl RefCache {
    #[verifier::type_invariant]
    spec fn keys_are_distinct(self) -> bool {
        distinct_keys(self.entries@)
    }

    /// The time-to-live the cache was created with.
    pub closed spec fn spec_ttl(&self) -> u64 {
        self.ttl
    }

    /// Creates an empty cache whose entries live `ttl` past their last touch.
    pub fn new(ttl: u64) -> (r: Self)
        ensures
            r@ == Map::<HeaderHash, Cached>::empty(),
            r.ttl() == ttl,
    {
        let r = RefCache { entries: Vec::new(), ttl };
        assert(r@ =~= Map::<HeaderHash, Cached>::empty());
        r
    }

    /// The time-to-live the cache was created with.
    #[verifier::when_used_as_spec(spec_ttl)]
    pub fn ttl(&self) -> (r: u64)
        ensures
            r == self.ttl(),
    {
        self.ttl
    }

    /// Places `value` under `key`, touched at `now`. An entry already held
    /// under `key` is replaced together with the time of its last touch.
    pub fn insert(&mut self, key: HeaderHash, value: Quarantined, now: u64)
        ensures
            final(self)@ == old(self)@.insert(key, Cached { value: value@, touched: now }),
            final(self).ttl() == old(self).ttl(),
    {
        proof {
            use_type_invariant(&*self);
        }
        let mut entries: Vec<Entry> = Vec::new();
        std::mem::swap(&mut entries, &mut self.entries);
        let entry = Entry { key, value, touched: now };
        match find(&entries, &key) {
            Some(i) => {
                proof {
                    lemma_replaced(entries@, i as int, entry);
                }
                entries.set(i, entry);
            },
            None => {
                proof {
                    lemma_pushed(entries@, entry);
                }
                entries.push(entry);
            },
        }
        self.entries = entries;
    }

    /// Reads the entry under `key`. A hit touches the entry at `now` and
    /// returns a copy of what is held; a miss changes nothing.
    pub fn get(&mut self, key: HeaderHash, now: u64) -> (r: Option<Quarantined>)
        ensures
            final(self).ttl() == old(self).ttl(),
            match r {
                Some(value) => {
                    &&& old(self)@.contains_key(key)
                    &&& value@ == old(self)@[key].value
                    &&& final(self)@ == old(self)@.insert(
                        key,
                        Cached { value: old(self)@[key].value, touched: now },
                    )
                },
                None => !old(self)@.contains_key(key) && final(self)@ == old(self)@,
            },
    {
        proof {
            use_type_invariant(&*self);
        }
        let mut entries: Vec<Entry> = Vec::new();
        std::mem::swap(&mut entries, &mut self.entries);
        let r = match find(&entries, &key) {
            Some(i) => {
                proof {
                    lemma_entry_at(entries@, i as int);
                }
                let copy = entries[i].value.clone();
                let held = entries.remove(i);
                let entry = Entry { key: held.key, value: held.value, touched: now };
                proof {
                    let s = old(self).entries@;
                    lemma_removed(s, i as int);
                    assert(!holds_key(s.remove(i as int), key)) by {
                        assert(!as_map(s).remove(key).contains_key(key));
                    }
                    lemma_pushed(s.remove(i as int), entry);
                    assert(as_map(s).remove(key).insert(key, entry.cached()) =~= as_map(
                        s,
                    ).insert(key, entry.cached()));
                }
                entries.push(entry);
                Some(copy)
            },
            None => None,
        };
        self.entries = entries;
        r
    }

    /// Removes the entry under `key`, if there is one.
    pub fn remove(&mut self, key: HeaderHash)
        ensures
            final(self)@ == old(self)@.remove(key),
            final(self).ttl() == old(self).ttl(),
    {
        proof {
            use_type_invariant(&*self);
        }
        let mut entries: Vec<Entry> = Vec::new();
        std::mem::swap(&mut entries, &mut self.entries);
        match find(&entries, &key) {
            Some(i) => {
                proof {
                    lemma_removed(entries@, i as int);
                }
                entries.remove(i);
            },
            None => {
                assert(as_map(entries@) =~= as_map(entries@).remove(key));
            },
        }
        self.entries = entries;
    }

    /// Removes every entry that has outlived the time-to-live at `now`: those
    /// whose last touch lies at least the time-to-live before `now`. The
    /// other entries stay as they are.
    pub fn purge(&mut self, now: u64)
        ensures
            final(self)@ == unexpired(old(self)@, old(self).ttl(), now),
            final(self).ttl() == old(self).ttl(),
            forall|k: HeaderHash| #[trigger]
                final(self)@.contains_key(k) ==> final(self)@[k].touched + final(self).ttl()
                    > now,
    {
        proof {
            use_type_invariant(&*self);
        }
        let ttl = self.ttl;
        let mut entries: Vec<Entry> = Vec::new();
        std::mem::swap(&mut entries, &mut self.entries);
        let ghost all = entries@;
        let ghost mut origin: Seq<int> = Seq::empty();
        let mut kept: Vec<Entry> = Vec::new();
        while entries.len() > 0
            invariant
                distinct_keys(all),
                entries@ == all.subrange(0, entries.len() as int),
                entries.len() <= all.len(),
                distinct_keys(kept@),
                taken_from(kept@, origin, all, entries.len() as int, ttl, now),
                covers(kept@, all, entries.len() as int, ttl, now),
            decreases entries.len(),
        {
            let ghost n = entries.len() as int;
            let ghost before = kept@;
            let entry = entries.pop().unwrap();
            assert(entry == all[n - 1]);
            if now < entry.touched || now - entry.touched < ttl {
                proof {
                    lemma_keep(before, origin, all, n, ttl, now);
                    origin = origin.push(n - 1);
                }
                kept.push(entry);
            } else {
                proof {
                    lemma_drop(before, origin, all, n, ttl, now);
                }
            }
        }
        proof {
            lemma_all_taken(kept@, origin, all, ttl, now);
        }
        self.entries = kept;
    }

    /// The number of entries held.
    pub fn len(&self) -> (r: usize)
        ensures
            self@.dom().finite(),
            r == self@.len(),
    {
        proof {
            use_type_invariant(self);
            lemma_size(self.entries@);
        }
        self.entries.len()
    }

    /// Whether the cache holds no entry.
    pub fn is_empty(&self) -> (r: bool)
        ensures
            r == (self@ == Map::<HeaderHash, Cached>::empty()),
    {
        proof {
            use_type_invariant(self);
            if self.entries@.len() > 0 {
                lemma_entry_at(self.entries@, 0);
            } else {
                assert(self@ =~= Map::<HeaderHash, Cached>::empty());
            }
        }
        self.entries.len() == 0
    }

    /// Whether an entry is held under `key`. Looking is no touch.
    pub fn contains(&self, key: HeaderHash) -> (r: bool)
        ensures
            r == self@.contains_key(key),
    {
        find(&self.entries, &key).is_some()
    }

    /// The earliest time at which an entry now held becomes eligible for
    /// eviction, or `None` when the cache is empty.
    pub fn next_expiry(&self) -> (r: Option<u64>)
        ensures
            match r {
                Some(at) => {
                    &&& exists|k: HeaderHash| #[trigger]
                        self@.contains_key(k) && at == expiry(self@[k].touched, self.ttl())
                    &&& forall|k: HeaderHash| #[trigger]
                        self@.contains_key(k) ==> at <= expiry(self@[k].touched, self.ttl())
                },
                None => self@ == Map::<HeaderHash, Cached>::empty(),
            },
    {
        proof {
            use_type_invariant(self);
        }
        if self.entries.len() == 0 {
            assert(self@ =~= Map::<HeaderHash, Cached>::empty());
            return None;
        }
        let ttl = self.ttl;
        let mut best: u64 = self.entries[0].touched.saturating_add(ttl);
        let ghost mut at: int = 0;
        let mut i: usize = 1;
        while i < self.entries.len()
            invariant
                1 <= i <= self.entries.len(),
                0 <= at < i,
                best == expiry(self.entries[at].touched, ttl),
                forall|j: int| 0 <= j < i ==> best <= expiry(#[trigger] self.entries[j].touched, ttl),
            decreases self.entries.len() - i,
        {
            let candidate = self.entries[i].touched.saturating_add(ttl);
            if candidate < best {
                best = candidate;
                proof {
                    at = i as int;
                }
            }
            i += 1;
        }
        proof {
            let s = self.entries@;
            lemma_entry_at(s, at);
            assert(self@.contains_key(s[at].key));
            assert forall|k: HeaderHash| #[trigger] self@.contains_key(k) implies best <= expiry(
                self@[k].touched,
                ttl,
            ) by {
                let j = index_of(s, k);
                lemma_entry_at(s, j);
            }
        }
        Some(best)
    }
}

} // verus!
