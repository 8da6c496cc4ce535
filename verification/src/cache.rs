//! In-memory async segment cache.
//!
//! Times are milliseconds on one monotonic clock; an age is the distance from
//! the time a value was collected to now, and is zero when now comes first.

use vstd::prelude::*;

use crate::segments::{SegmentContent, SegmentContentView};
use crate::text::{copy_str, str_eq};

verus! {

/// What identifies a cached value: the segment, the source it was collected
/// from (a repository, a project), and the configuration generation.
#[derive(Clone, Debug, PartialEq, Eq, Hash)]
pub struct CacheKey {
    pub segment_id: String,
    pub source: String,
    pub config_generation: u64,
}

pub struct CacheKeyView {
    pub segment_id: Seq<char>,
    pub source: Seq<char>,
    pub config_generation: u64,
}

impl View for CacheKey {
    type V = CacheKeyView;

    open spec fn view(&self) -> CacheKeyView {
        CacheKeyView {
            segment_id: self.segment_id@,
            source: self.source@,
            config_generation: self.config_generation,
        }
    }
}

/// What the renderer gets for an async segment.
#[derive(Clone, Debug, PartialEq, Eq)]
pub enum AsyncValue {
    Loading,
    Ready(Option<SegmentContent>),
    Stale(Option<SegmentContent>),
    Failed,
}

pub enum AsyncValueView {
    Loading,
    Ready(Option<SegmentContentView>),
    Stale(Option<SegmentContentView>),
    Failed,
}

pub open spec fn content_opt_view(o: Option<SegmentContent>) -> Option<SegmentContentView> {
    match o {
        Some(c) => Some(c@),
        None => None,
    }
}

impl View for AsyncValue {
    type V = AsyncValueView;

    open spec fn view(&self) -> AsyncValueView {
        match self {
            AsyncValue::Loading => AsyncValueView::Loading,
            AsyncValue::Ready(v) => AsyncValueView::Ready(content_opt_view(*v)),
            AsyncValue::Stale(v) => AsyncValueView::Stale(content_opt_view(*v)),
            AsyncValue::Failed => AsyncValueView::Failed,
        }
    }
}

#[derive(Clone, Debug, PartialEq, Eq)]
enum CachedValue {
    Success(Option<SegmentContent>),
    Failure,
}

pub enum CachedValueView {
    Success(Option<SegmentContentView>),
    Failure,
}

impl View for CachedValue {
    type V = CachedValueView;

    closed spec fn view(&self) -> CachedValueView {
        match self {
            CachedValue::Success(v) => CachedValueView::Success(content_opt_view(*v)),
            CachedValue::Failure => CachedValueView::Failure,
        }
    }
}

#[derive(Clone, Debug, PartialEq, Eq)]
struct CacheEntry {
    value: CachedValue,
    collected_at: u64,
    last_used: u64,
}

/// A cached outcome and the time it was collected.
pub struct CacheEntryView {
    pub value: CachedValueView,
    pub collected_at: u64,
}

impl View for CacheEntry {
    type V = CacheEntryView;

    closed spec fn view(&self) -> CacheEntryView {
        CacheEntryView { value: self.value@, collected_at: self.collected_at }
    }
}

/// Everything a cache holds, as values: its entries, their last uses, the keys
/// whose collection is under way, the use counter and the capacity.
pub struct CacheModel {
    pub stored: Seq<(CacheKeyView, CacheEntryView)>,
    pub uses: Seq<(CacheKeyView, u64)>,
    pub pending: Seq<CacheKeyView>,
    pub clock: u64,
    pub capacity: nat,
}

/// What recording a failed collection of `key` at `at` does: the collection ends;
/// a kept success (even an empty one) stays as it is; otherwise a failure collected
/// at `at` is stored.
pub open spec fn failure_step(a: CacheModel, key: CacheKeyView, at: u64, b: CacheModel) -> bool {
    &&& b.capacity == a.capacity
    &&& !b.pending.contains(key)
    &&& forall|k: CacheKeyView| k != key ==> (b.pending.contains(k) <==> a.pending.contains(k))
    &&& if entry_for(a.stored, key) matches Some(e) && e.value is Success {
        b.stored == a.stored && b.uses == a.uses && b.clock == a.clock
    } else {
        b.clock == next_use(a.clock) && stores(
            a.stored,
            a.uses,
            b.stored,
            b.uses,
            a.capacity,
            key,
            CacheEntryView { value: CachedValueView::Failure, collected_at: at },
            b.clock,
        )
    }
}

/// What recording a successful collection of `key` at `at` does: the collection
/// ends, and `value` is stored as a success collected at `at`.
pub open spec fn success_step(
    a: CacheModel,
    key: CacheKeyView,
    value: Option<SegmentContentView>,
    at: u64,
    b: CacheModel,
) -> bool {
    &&& b.capacity == a.capacity
    &&& !b.pending.contains(key)
    &&& forall|k: CacheKeyView| k != key ==> (b.pending.contains(k) <==> a.pending.contains(k))
    &&& b.clock == next_use(a.clock)
    &&& stores(
        a.stored,
        a.uses,
        b.stored,
        b.uses,
        a.capacity,
        key,
        CacheEntryView { value: CachedValueView::Success(value), collected_at: at },
        b.clock,
    )
}

/// Whether the `i`-th step of `trace` records the failure of `keys[i]` at `at`.
pub open spec fn failure_trace_step(trace: Seq<CacheModel>, keys: Seq<CacheKeyView>, at: u64, i: int) -> bool {
    failure_step(trace[i], keys[i], at, trace[i + 1])
}

/// Whether `trace` runs from `before` to `after` recording the failure of each of
/// `keys` in turn, at `at`.
pub open spec fn failures_trace(
    trace: Seq<CacheModel>,
    keys: Seq<CacheKeyView>,
    at: u64,
    before: CacheModel,
    after: CacheModel,
) -> bool {
    &&& trace.len() == keys.len() + 1
    &&& trace[0] == before
    &&& trace.last() == after
    &&& forall|i: int| 0 <= i < keys.len() ==> #[trigger] failure_trace_step(trace, keys, at, i)
}

/// A cache with no room keeps nothing: whatever is recorded in it, it stays empty
/// and every lookup answers `Loading`.
pub proof fn law_zero_capacity_keeps_nothing(
    a: CacheModel,
    key: CacheKeyView,
    value: Option<SegmentContentView>,
    at: u64,
    b: CacheModel,
    k: CacheKeyView,
    now: u64,
    ttl: u64,
)
    requires
        a.capacity == 0,
        a.stored.len() == 0,
        success_step(a, key, value, at, b) || failure_step(a, key, at, b),
    ensures
        b.capacity == 0,
        b.stored.len() == 0,
        lookup_value(entry_for(b.stored, k), now, ttl) == AsyncValueView::Loading,
{
    if entry_for(a.stored, key) matches Some(e) && e.value is Success {
    }
}

/// Outcomes of async collection, each kept under its key, with the keys whose
/// collection is under way. It holds at most `capacity` entries; when full, the
/// entry used least recently (stored or read longest ago) makes room. Uses are
/// ordered by a counter that each store and each read of a kept entry advances.
#[derive(Debug)]
pub struct SegmentCache {
    entries: Vec<(CacheKey, CacheEntry)>,
    inflight: Vec<CacheKey>,
    capacity: usize,
    clock: u64,
}

spec fn entries_view(es: Seq<(CacheKey, CacheEntry)>) -> Seq<(CacheKeyView, CacheEntryView)> {
    Seq::new(es.len(), |i: int| (es[i].0@, es[i].1@))
}

spec fn uses_view(es: Seq<(CacheKey, CacheEntry)>) -> Seq<(CacheKeyView, u64)> {
    Seq::new(es.len(), |i: int| (es[i].0@, es[i].1.last_used))
}

/// The use counter after one more use: one more, short of the largest count.
pub open spec fn next_use(t: u64) -> u64 {
    if t < u64::MAX {
        (t + 1) as u64
    } else {
        t
    }
}

/// Whether `v` is the position of an entry used least recently.
pub open spec fn least_recent(uses: Seq<(CacheKeyView, u64)>, v: int) -> bool {
    0 <= v < uses.len() && forall|j: int| 0 <= j < uses.len() ==> uses[v].1 <= #[trigger] uses[j].1
}

/// The last uses run beside the entries, key for key, and none is later than
/// the counter.
pub open spec fn uses_wf(
    es: Seq<(CacheKeyView, CacheEntryView)>,
    uses: Seq<(CacheKeyView, u64)>,
    clock: u64,
) -> bool {
    &&& uses.len() == es.len()
    &&& forall|i: int| 0 <= i < es.len() ==> #[trigger] uses[i].0 == es[i].0
    &&& forall|i: int| 0 <= i < uses.len() ==> #[trigger] uses[i].1 <= clock
}

pub open spec fn keys_view(ks: Seq<CacheKey>) -> Seq<CacheKeyView> {
    Seq::new(ks.len(), |i: int| ks[i]@)
}

/// The entry kept under `key` (the last one, were there several).
pub open spec fn entry_for<V>(es: Seq<(CacheKeyView, V)>, key: CacheKeyView) -> Option<V>
    decreases es.len(),
{
    if es.len() == 0 {
        None
    } else if es.last().0 == key {
        Some(es.last().1)
    } else {
        entry_for(es.drop_last(), key)
    }
}

pub open spec fn distinct_keys<V>(es: Seq<(CacheKeyView, V)>) -> bool {
    forall|i: int, j: int| 0 <= i < es.len() && 0 <= j < es.len() && i != j ==> es[i].0 != es[j].0
}

pub open spec fn distinct(ks: Seq<CacheKeyView>) -> bool {
    forall|i: int, j: int| 0 <= i < ks.len() && 0 <= j < ks.len() && i != j ==> ks[i] != ks[j]
}

/// How old a value collected at `collected_at` is at `now`.
pub open spec fn age(collected_at: u64, now: u64) -> nat {
    if now >= collected_at {
        (now - collected_at) as nat
    } else {
        0
    }
}

/// Whether a value collected at `collected_at` is still fresh at `now`.
pub open spec fn fresh(collected_at: u64, now: u64, ttl: u64) -> bool {
    age(collected_at, now) < ttl
}

/// What a lookup answers for the entry kept under a key.
pub open spec fn lookup_value(entry: Option<CacheEntryView>, now: u64, ttl: u64) -> AsyncValueView {
    match entry {
        None => AsyncValueView::Loading,
        Some(e) => match e.value {
            CachedValueView::Success(v) => if fresh(e.collected_at, now, ttl) {
                AsyncValueView::Ready(v)
            } else {
                AsyncValueView::Stale(v)
            },
            CachedValueView::Failure => AsyncValueView::Failed,
        },
    }
}

/// Every key stands for at most one entry, and the entries fit the capacity.
pub open spec fn entries_wf(es: Seq<(CacheKeyView, CacheEntryView)>, capacity: nat) -> bool {
    distinct_keys(es) && es.len() <= capacity
}

impl SegmentCache {
    /// The kept entries, in the order they were first stored.
    pub closed spec fn stored(&self) -> Seq<(CacheKeyView, CacheEntryView)> {
        entries_view(self.entries@)
    }

    /// The keys whose collection is under way.
    pub closed spec fn pending(&self) -> Seq<CacheKeyView> {
        keys_view(self.inflight@)
    }

    pub closed spec fn capacity(&self) -> nat {
        self.capacity as nat
    }

    /// When each kept entry was last used, in the order of `stored`.
    pub closed spec fn uses(&self) -> Seq<(CacheKeyView, u64)> {
        uses_view(self.entries@)
    }

    /// The use counter: the count of the latest use.
    pub closed spec fn clock(&self) -> u64 {
        self.clock
    }

    /// The whole cache as values.
    pub open spec fn model(&self) -> CacheModel {
        CacheModel {
            stored: self.stored(),
            uses: self.uses(),
            pending: self.pending(),
            clock: self.clock(),
            capacity: self.capacity(),
        }
    }

    /// When the entry kept under `key` was last used.
    pub open spec fn last_use(&self, key: CacheKeyView) -> Option<u64> {
        entry_for(self.uses(), key)
    }

    /// The entry kept under `key`.
    pub open spec fn entry(&self, key: CacheKeyView) -> Option<CacheEntryView> {
        entry_for(self.stored(), key)
    }

    pub open spec fn wf(&self) -> bool {
        entries_wf(self.stored(), self.capacity()) && uses_wf(self.stored(), self.uses(), self.clock())
    }

    /// An empty cache holding at most `capacity` entries.
    pub fn new(capacity: usize) -> (r: SegmentCache)
        ensures
            r.wf(),
            r.capacity() == capacity,
            r.stored().len() == 0,
            r.pending().len() == 0,
    {
        let r = SegmentCache { entries: Vec::new(), inflight: Vec::new(), capacity, clock: 0 };
        assert(r.stored() =~= Seq::<(CacheKeyView, CacheEntryView)>::empty());
        assert(r.uses() =~= Seq::<(CacheKeyView, u64)>::empty());
        assert(r.pending() =~= Seq::<CacheKeyView>::empty());
        r
    }

    /// `Loading` when nothing is kept under `key`; a kept success as `Ready`
    /// while younger than `ttl` and `Stale` after; a kept failure as `Failed`.
    /// Reading a kept entry uses it: its last use becomes the next count of the
    /// use counter. Nothing else changes.
    pub fn lookup(&mut self, key: &CacheKey, now: u64, ttl: u64) -> (r: AsyncValue)
        requires
            old(self).wf(),
        ensures
            final(self).wf(),
            r@ == lookup_value(old(self).entry(key@), now, ttl),
            final(self).stored() == old(self).stored(),
            final(self).pending() == old(self).pending(),
            final(self).capacity() == old(self).capacity(),
            old(self).entry(key@) is None ==> final(self).uses() == old(self).uses()
                && final(self).clock() == old(self).clock(),
            old(self).entry(key@) is Some ==> final(self).clock() == next_use(old(self).clock())
                && touched(old(self).uses(), final(self).uses(), key@, final(self).clock()),
    {
        match find_entry(&self.entries, key) {
            None => AsyncValue::Loading,
            Some(i) => {
                let ghost before = self.stored();
                let ghost bu = self.uses();
                let ghost old_clock = self.clock;
                proof {
                    lemma_aligned(before, bu);
                }
                let t = if self.clock < u64::MAX {
                    self.clock + 1
                } else {
                    self.clock
                };
                self.clock = t;
                let k = self.entries[i].0.copy();
                let value = copy_value(&self.entries[i].1.value);
                let collected_at = self.entries[i].1.collected_at;
                let r = match &value {
                    CachedValue::Success(v) => {
                        if is_fresh(collected_at, now, ttl) {
                            AsyncValue::Ready(copy_content(v))
                        } else {
                            AsyncValue::Stale(copy_content(v))
                        }
                    },
                    CachedValue::Failure => AsyncValue::Failed,
                };
                self.entries.set(i, (k, CacheEntry { value, collected_at, last_used: t }));
                proof {
                    assert(self.stored() =~= before);
                    assert(self.uses() =~= bu.update(i as int, (key@, t)));
                    lemma_update_entry(bu, i as int, key@, t);
                    assert forall|j: int| 0 <= j < self.uses().len() implies #[trigger] self.uses()[j].1
                        <= self.clock by {
                        if j != i {
                            assert(self.uses()[j] == bu[j]);
                        }
                    }
                    assert forall|j: int| 0 <= j < self.stored().len() implies #[trigger] self.uses()[j].0
                        == self.stored()[j].0 by {
                        if j != i {
                            assert(self.uses()[j] == bu[j]);
                        }
                    }
                }
                r
            },
        }
    }

    /// Whether `key` should be collected again: not while a collection is under
    /// way; otherwise when nothing is kept or what is kept is no longer fresh.
    pub fn needs_refresh(&self, key: &CacheKey, now: u64, ttl: u64) -> (r: bool)
        requires
            self.wf(),
        ensures
            r == (!self.pending().contains(key@) && match self.entry(key@) {
                None => true,
                Some(e) => !fresh(e.collected_at, now, ttl),
            }),
    {
        if self.is_inflight(key) {
            return false;
        }
        match find_entry(&self.entries, key) {
            None => true,
            Some(i) => !is_fresh(self.entries[i].1.collected_at, now, ttl),
        }
    }

    /// Records that `key` is being collected; `false` when it already was.
    pub fn mark_inflight(&mut self, key: CacheKey) -> (r: bool)
        requires
            old(self).wf(),
        ensures
            final(self).wf(),
            r == !old(self).pending().contains(key@),
            final(self).pending().contains(key@),
            forall|k: CacheKeyView| k != key@ ==> (final(self).pending().contains(k)
                <==> old(self).pending().contains(k)),
            final(self).stored() == old(self).stored(),
            final(self).uses() == old(self).uses(),
            final(self).clock() == old(self).clock(),
            final(self).capacity() == old(self).capacity(),
    {
        if self.is_inflight(&key) {
            return false;
        }
        let ghost before = self.pending();
        self.inflight.push(key);
        proof {
            assert(self.pending() =~= before.push(key@));
            assert(self.pending()[before.len() as int] == key@);
            assert forall|k: CacheKeyView| k != key@ implies (self.pending().contains(k)
                <==> before.contains(k)) by {
                if self.pending().contains(k) {
                    let i = choose|i: int| 0 <= i < self.pending().len() && self.pending()[i] == k;
                    assert(i < before.len());
                    assert(before[i] == k);
                }
                if before.contains(k) {
                    let i = choose|i: int| 0 <= i < before.len() && before[i] == k;
                    assert(self.pending()[i] == k);
                }
            }
        }
        true
    }

    /// Whether a collection of `key` is under way.
    pub fn is_inflight(&self, key: &CacheKey) -> (r: bool)
        ensures
            r == self.pending().contains(key@),
    {
        let mut i: usize = 0;
        while i < self.inflight.len()
            invariant
                i <= self.inflight.len(),
                forall|j: int| 0 <= j < i ==> self.pending()[j] != key@,
            decreases self.inflight.len() - i,
        {
            if key_eq(&self.inflight[i], key) {
                assert(self.pending()[i as int] == key@);
                return true;
            }
            i += 1;
        }
        proof {
            if self.pending().contains(key@) {
                let j = choose|j: int| 0 <= j < self.pending().len() && self.pending()[j] == key@;
                assert(false);
            }
        }
        false
    }

    fn clear_inflight(&mut self, key: &CacheKey)
        requires
            old(self).wf(),
        ensures
            final(self).wf(),
            !final(self).pending().contains(key@),
            forall|k: CacheKeyView| k != key@ ==> (final(self).pending().contains(k)
                <==> old(self).pending().contains(k)),
            final(self).stored() == old(self).stored(),
            final(self).uses() == old(self).uses(),
            final(self).clock() == old(self).clock(),
            final(self).capacity() == old(self).capacity(),
    {
        let mut kept: Vec<CacheKey> = Vec::new();
        let mut i: usize = 0;
        let ghost before = self.pending();
        let ghost pred = |k: CacheKeyView| k != key@;
        assert(keys_view(kept@) =~= before.take(0).filter(pred)) by {
            reveal_with_fuel(Seq::filter, 1);
            assert(before.take(0) =~= Seq::<CacheKeyView>::empty());
        }
        while i < self.inflight.len()
            invariant
                i <= self.inflight.len(),
                before == keys_view(self.inflight@),
                pred == (|k: CacheKeyView| k != key@),
                keys_view(kept@) == before.take(i as int).filter(pred),
            decreases self.inflight.len() - i,
        {
            let ghost old_kept = keys_view(kept@);
            proof {
                reveal_with_fuel(Seq::filter, 1);
                assert(before.take(i + 1).drop_last() =~= before.take(i as int));
                assert(before.take(i + 1).last() == before[i as int]);
            }
            if !key_eq(&self.inflight[i], key) {
                let k = self.inflight[i].copy();
                kept.push(k);
                assert(keys_view(kept@) =~= old_kept.push(k@));
            } else {
                assert(keys_view(kept@) =~= old_kept);
            }
            i += 1;
        }
        self.inflight = kept;
        proof {
            assert(before.take(i as int) =~= before);
            let after = self.pending();
            broadcast use vstd::seq_lib::group_filter_ensures;
            if after.contains(key@) {
                before.lemma_filter_contains_rev(pred, key@);
            }
            assert forall|k: CacheKeyView| k != key@ implies (after.contains(k) <==> before.contains(k)) by {
                if after.contains(k) {
                    before.lemma_filter_contains_rev(pred, k);
                }
                if before.contains(k) {
                    let j = choose|j: int| 0 <= j < before.len() && before[j] == k;
                    before.lemma_filter_contains(pred, j);
                }
            }
        }
    }

    /// Stores a successful collection of `key` and ends its collection.
    pub fn complete_success(
        &mut self,
        key: CacheKey,
        value: Option<SegmentContent>,
        collected_at: u64,
    )
        requires
            old(self).wf(),
        ensures
            final(self).wf(),
            final(self).capacity() == old(self).capacity(),
            !final(self).pending().contains(key@),
            forall|k: CacheKeyView| k != key@ ==> (final(self).pending().contains(k)
                <==> old(self).pending().contains(k)),
            final(self).clock() == next_use(old(self).clock()),
            stores(
                old(self).stored(),
                old(self).uses(),
                final(self).stored(),
                final(self).uses(),
                old(self).capacity(),
                key@,
                CacheEntryView {
                    value: CachedValueView::Success(content_opt_view(value)),
                    collected_at,
                },
                final(self).clock(),
            ),
            success_step(old(self).model(), key@, content_opt_view(value), collected_at, final(self).model()),
    {
        self.clear_inflight(&key);
        self.insert(key, CachedValue::Success(value), collected_at);
    }

    /// Records a failed collection of `key` and ends its collection. A kept
    /// success (even an empty one) stays as it is.
    pub fn complete_failure(&mut self, key: CacheKey, collected_at: u64)
        requires
            old(self).wf(),
        ensures
            final(self).wf(),
            final(self).capacity() == old(self).capacity(),
            !final(self).pending().contains(key@),
            forall|k: CacheKeyView| k != key@ ==> (final(self).pending().contains(k)
                <==> old(self).pending().contains(k)),
            (old(self).entry(key@) matches Some(e) && e.value is Success) ==> final(self).stored()
                == old(self).stored() && final(self).uses() == old(self).uses() && final(self).clock()
                == old(self).clock(),
            !(old(self).entry(key@) matches Some(e) && e.value is Success) ==> final(self).clock()
                == next_use(old(self).clock()) && stores(
                old(self).stored(),
                old(self).uses(),
                final(self).stored(),
                final(self).uses(),
                old(self).capacity(),
                key@,
                CacheEntryView { value: CachedValueView::Failure, collected_at },
                final(self).clock(),
            ),
            failure_step(old(self).model(), key@, collected_at, final(self).model()),
    {
        self.clear_inflight(&key);
        match find_entry(&self.entries, &key) {
            Some(i) => {
                if let CachedValue::Success(_) = &self.entries[i].1.value {
                    return;
                }
            },
            None => {},
        }
        self.insert(key, CachedValue::Failure, collected_at);
    }

    /// Whether anything is kept under `key`.
    pub fn has_entry(&self, key: &CacheKey) -> (r: bool)
        requires
            self.wf(),
        ensures
            r == self.entry(key@) is Some,
    {
        find_entry(&self.entries, key).is_some()
    }

    /// The number of kept entries.
    pub fn len(&self) -> (r: usize)
        ensures
            r == self.stored().len(),
    {
        self.entries.len()
    }

    /// Whether nothing is kept.
    pub fn is_empty(&self) -> (r: bool)
        ensures
            r == (self.stored().len() == 0),
    {
        self.entries.len() == 0
    }

    #[verifier::rlimit(40)]
    fn insert(&mut self, key: CacheKey, value: CachedValue, collected_at: u64)
        requires
            old(self).wf(),
        ensures
            final(self).wf(),
            final(self).capacity() == old(self).capacity(),
            final(self).pending() == old(self).pending(),
            final(self).clock() == next_use(old(self).clock()),
            stores(
                old(self).stored(),
                old(self).uses(),
                final(self).stored(),
                final(self).uses(),
                old(self).capacity(),
                key@,
                CacheEntryView { value: value@, collected_at },
                final(self).clock(),
            ),
    {
        let ghost before = self.stored();
        let ghost bu = self.uses();
        proof {
            lemma_aligned(before, bu);
        }
        let t = if self.clock < u64::MAX {
            self.clock + 1
        } else {
            self.clock
        };
        self.clock = t;
        if self.capacity == 0 {
            proof {
                assert(self.stored() == before);
                assert(self.uses() == bu);
            }
            return;
        }
        let entry = CacheEntry { value, collected_at, last_used: t };
        let ghost ev = entry@;
        match find_entry(&self.entries, &key) {
            Some(i) => {
                self.entries.set(i, (key, entry));
                proof {
                    assert(self.stored() =~= before.update(i as int, (key@, ev)));
                    assert(self.uses() =~= bu.update(i as int, (key@, t)));
                    lemma_update_entry(before, i as int, key@, ev);
                    lemma_update_entry(bu, i as int, key@, t);
                    assert forall|j: int| 0 <= j < self.uses().len() implies #[trigger] self.uses()[j].1
                        <= self.clock by {
                        if j != i {
                            assert(self.uses()[j] == bu[j]);
                        }
                    }
                    assert forall|j: int| 0 <= j < self.stored().len() implies #[trigger] self.uses()[j].0
                        == self.stored()[j].0 by {
                        if j != i {
                            assert(self.uses()[j] == bu[j]);
                            assert(self.stored()[j] == before[j]);
                        }
                    }
                }
            },
            None => {
                let full = self.entries.len() >= self.capacity;
                let ghost mut v: int = 0;
                if full {
                    let vi = self.evict_least_recent();
                    proof {
                        v = vi as int;
                        lemma_remove_entry(before, v);
                        lemma_remove_entry(bu, v);
                    }
                }
                let ghost mid = self.stored();
                let ghost mu = self.uses();
                proof {
                    lemma_aligned(mid, mu);
                    assert(entry_for(mid, key@) is None);
                    assert(entry_for(mu, key@) is None);
                }
                self.entries.push((key, entry));
                proof {
                    assert(self.stored() =~= mid.push((key@, ev)));
                    assert(self.uses() =~= mu.push((key@, t)));
                    lemma_push_entry(mid, key@, ev);
                    lemma_push_entry(mu, key@, t);
                    assert forall|j: int| 0 <= j < self.uses().len() implies #[trigger] self.uses()[j].1
                        <= self.clock by {
                        if j < mu.len() {
                            assert(self.uses()[j] == mu[j]);
                        }
                    }
                    assert forall|j: int| 0 <= j < self.stored().len() implies #[trigger] self.uses()[j].0
                        == self.stored()[j].0 by {
                        if j < mu.len() {
                            assert(self.uses()[j] == mu[j]);
                            assert(self.stored()[j] == mid[j]);
                        }
                    }
                    if full {
                        assert(least_recent(bu, v));
                        assert(bu[v].0 == before[v].0);
                    }
                }
            },
        }
    }

    /// Removes the entry used least recently, and tells where it stood.
    fn evict_least_recent(&mut self) -> (v: usize)
        requires
            old(self).wf(),
            old(self).stored().len() > 0,
        ensures
            final(self).capacity() == old(self).capacity(),
            final(self).pending() == old(self).pending(),
            final(self).clock() == old(self).clock(),
            least_recent(old(self).uses(), v as int),
            final(self).stored() == old(self).stored().remove(v as int),
            final(self).uses() == old(self).uses().remove(v as int),
            uses_wf(final(self).stored(), final(self).uses(), final(self).clock()),
    {
        let mut least: usize = 0;
        let mut i: usize = 1;
        while i < self.entries.len()
            invariant
                1 <= i <= self.entries.len(),
                least < self.entries.len(),
                forall|j: int| 0 <= j < i ==> self.entries@[least as int].1.last_used
                    <= #[trigger] self.entries@[j].1.last_used,
            decreases self.entries.len() - i,
        {
            if self.entries[i].1.last_used < self.entries[least].1.last_used {
                least = i;
            }
            i += 1;
        }
        let ghost before = self.stored();
        let ghost bu = self.uses();
        proof {
            assert forall|j: int| 0 <= j < bu.len() implies bu[least as int].1 <= #[trigger] bu[j].1 by {
                assert(bu[j].1 == self.entries@[j].1.last_used);
            }
        }
        self.entries.remove(least);
        proof {
            assert(self.stored() =~= before.remove(least as int));
            assert(self.uses() =~= bu.remove(least as int));
            assert forall|j: int| 0 <= j < self.uses().len() implies #[trigger] self.uses()[j].1
                <= self.clock by {
                let ij = if j < least {
                    j
                } else {
                    j + 1
                };
                assert(self.uses()[j] == bu[ij]);
            }
        }
        least
    }
}

/// Reading `key` at count `t`: its last use becomes `t`, and every other key's
/// last use stays as it was.
pub open spec fn touched(
    before: Seq<(CacheKeyView, u64)>,
    after: Seq<(CacheKeyView, u64)>,
    key: CacheKeyView,
    t: u64,
) -> bool {
    forall|k: CacheKeyView| #[trigger]
        entry_for(after, k) == if k == key {
            Some(t)
        } else {
            entry_for(before, k)
        }
}

/// What storing `entry` under `key` at use count `used_at` does to a cache of
/// `capacity` entries: a cache with no room stores nothing; otherwise `key` maps
/// to `entry`, last used at `used_at`, and every other key keeps its entry and
/// last use, except that when the cache was full and `key` new, the entry used
/// least recently is evicted first.
pub open spec fn stores(
    before: Seq<(CacheKeyView, CacheEntryView)>,
    before_uses: Seq<(CacheKeyView, u64)>,
    after: Seq<(CacheKeyView, CacheEntryView)>,
    after_uses: Seq<(CacheKeyView, u64)>,
    capacity: nat,
    key: CacheKeyView,
    entry: CacheEntryView,
    used_at: u64,
) -> bool {
    if capacity == 0 {
        after == before && after_uses == before_uses
    } else if entry_for(before, key) is Some || before.len() < capacity {
        &&& forall|k: CacheKeyView| #[trigger]
            entry_for(after, k) == if k == key {
                Some(entry)
            } else {
                entry_for(before, k)
            }
        &&& forall|k: CacheKeyView| #[trigger]
            entry_for(after_uses, k) == if k == key {
                Some(used_at)
            } else {
                entry_for(before_uses, k)
            }
    } else {
        exists|v: int|
            #![trigger before_uses[v]]
            least_recent(before_uses, v) && (forall|k: CacheKeyView| #[trigger]
                entry_for(after, k) == if k == key {
                    Some(entry)
                } else if k == before_uses[v].0 {
                    None
                } else {
                    entry_for(before, k)
                }) && (forall|k: CacheKeyView| #[trigger]
                entry_for(after_uses, k) == if k == key {
                    Some(used_at)
                } else if k == before_uses[v].0 {
                    None
                } else {
                    entry_for(before_uses, k)
                })
    }
}

/// Last uses that run beside entries with distinct keys have distinct keys too,
/// and a key has a last use exactly when it has an entry.
proof fn lemma_aligned(es: Seq<(CacheKeyView, CacheEntryView)>, us: Seq<(CacheKeyView, u64)>)
    requires
        distinct_keys(es),
        us.len() == es.len(),
        forall|i: int| 0 <= i < es.len() ==> #[trigger] us[i].0 == es[i].0,
    ensures
        distinct_keys(us),
        forall|k: CacheKeyView| (#[trigger] entry_for(us, k) is Some) == (entry_for(es, k) is Some),
    decreases es.len(),
{
    assert(distinct_keys(us)) by {
        assert forall|i: int, j: int| 0 <= i < us.len() && 0 <= j < us.len() && i != j implies us[i].0
            != us[j].0 by {
            assert(us[i].0 == es[i].0 && us[j].0 == es[j].0);
        }
    }
    if es.len() > 0 {
        let de = es.drop_last();
        let du = us.drop_last();
        assert(distinct_keys(de)) by {
            assert forall|i: int, j: int| 0 <= i < de.len() && 0 <= j < de.len() && i != j implies de[i].0
                != de[j].0 by {
                assert(de[i] == es[i] && de[j] == es[j]);
            }
        }
        assert forall|i: int| 0 <= i < de.len() implies #[trigger] du[i].0 == de[i].0 by {
            assert(du[i] == us[i] && de[i] == es[i]);
        }
        lemma_aligned(de, du);
        assert(us.last().0 == es.last().0);
        assert forall|k: CacheKeyView| (#[trigger] entry_for(us, k) is Some) == (entry_for(
            es,
            k,
        ) is Some) by {
            if us.last().0 != k {
                assert(entry_for(us, k) == entry_for(du, k));
                assert(entry_for(es, k) == entry_for(de, k));
            }
        }
    }
}

/// In a list with distinct keys, each key finds its own entry.
pub proof fn lemma_entry_for<V>(es: Seq<(CacheKeyView, V)>)
    requires
        distinct_keys(es),
    ensures
        forall|i: int| 0 <= i < es.len() ==> entry_for(es, #[trigger] es[i].0) == Some(es[i].1),
    decreases es.len(),
{
    if es.len() > 0 {
        let d = es.drop_last();
        assert(distinct_keys(d)) by {
            assert forall|i: int, j: int| 0 <= i < d.len() && 0 <= j < d.len() && i != j implies d[i].0
                != d[j].0 by {
                assert(d[i] == es[i] && d[j] == es[j]);
            }
        }
        lemma_entry_for(d);
        assert forall|i: int| 0 <= i < es.len() implies entry_for(es, #[trigger] es[i].0) == Some(
            es[i].1,
        ) by {
            if i < es.len() - 1 {
                assert(d[i] == es[i]);
                assert(es[i].0 != es.last().0);
            }
        }
    }
}

proof fn lemma_entry_for_absent<V>(es: Seq<(CacheKeyView, V)>, k: CacheKeyView)
    requires
        forall|i: int| 0 <= i < es.len() ==> es[i].0 != k,
    ensures
        entry_for(es, k) is None,
    decreases es.len(),
{
    if es.len() > 0 {
        let d = es.drop_last();
        assert(es[es.len() - 1].0 != k);
        assert forall|i: int| 0 <= i < d.len() implies d[i].0 != k by {
            assert(d[i] == es[i]);
        }
        lemma_entry_for_absent(d, k);
    }
}

proof fn lemma_update_entry<V>(
    es: Seq<(CacheKeyView, V)>,
    i: int,
    key: CacheKeyView,
    entry: V,
)
    requires
        distinct_keys(es),
        0 <= i < es.len(),
        es[i].0 == key,
    ensures
        distinct_keys(es.update(i, (key, entry))),
        forall|k: CacheKeyView| #[trigger]
            entry_for(es.update(i, (key, entry)), k) == if k == key {
                Some(entry)
            } else {
                entry_for(es, k)
            },
{
    let u = es.update(i, (key, entry));
    assert(distinct_keys(u)) by {
        assert forall|a: int, b: int| 0 <= a < u.len() && 0 <= b < u.len() && a != b implies u[a].0
            != u[b].0 by {
            assert(u[a].0 == es[a].0 && u[b].0 == es[b].0);
        }
    }
    lemma_entry_for(es);
    lemma_entry_for(u);
    assert forall|k: CacheKeyView| #[trigger]
        entry_for(u, k) == if k == key {
            Some(entry)
        } else {
            entry_for(es, k)
        } by {
        if k == key {
            assert(u[i].0 == k);
        } else if exists|j: int| 0 <= j < es.len() && es[j].0 == k {
            let j = choose|j: int| 0 <= j < es.len() && es[j].0 == k;
            assert(j != i);
            assert(u[j] == es[j]);
        } else {
            assert forall|j: int| 0 <= j < u.len() implies u[j].0 != k by {
                if j != i {
                    assert(u[j] == es[j]);
                }
            }
            lemma_entry_for_absent(u, k);
            lemma_entry_for_absent(es, k);
        }
    }
}

proof fn lemma_push_entry<V>(es: Seq<(CacheKeyView, V)>, key: CacheKeyView, entry: V)
    requires
        distinct_keys(es),
        entry_for(es, key) is None,
    ensures
        distinct_keys(es.push((key, entry))),
        forall|k: CacheKeyView| #[trigger]
            entry_for(es.push((key, entry)), k) == if k == key {
                Some(entry)
            } else {
                entry_for(es, k)
            },
{
    let u = es.push((key, entry));
    lemma_entry_for(es);
    assert(u.drop_last() =~= es);
    assert(distinct_keys(u)) by {
        assert forall|a: int, b: int| 0 <= a < u.len() && 0 <= b < u.len() && a != b implies u[a].0
            != u[b].0 by {
            if a < es.len() && b < es.len() {
                assert(u[a] == es[a] && u[b] == es[b]);
            } else if a < es.len() {
                assert(u[a] == es[a]);
                assert(entry_for(es, es[a].0) is Some);
            } else {
                assert(u[b] == es[b]);
                assert(entry_for(es, es[b].0) is Some);
            }
        }
    }
}

proof fn lemma_remove_entry<V>(es: Seq<(CacheKeyView, V)>, v: int)
    requires
        distinct_keys(es),
        0 <= v < es.len(),
    ensures
        distinct_keys(es.remove(v)),
        forall|k: CacheKeyView| #[trigger]
            entry_for(es.remove(v), k) == if k == es[v].0 {
                None
            } else {
                entry_for(es, k)
            },
{
    let u = es.remove(v);
    assert(distinct_keys(u)) by {
        assert forall|a: int, b: int| 0 <= a < u.len() && 0 <= b < u.len() && a != b implies u[a].0
            != u[b].0 by {
            let ia = if a < v {
                a
            } else {
                a + 1
            };
            let ib = if b < v {
                b
            } else {
                b + 1
            };
            assert(u[a] == es[ia] && u[b] == es[ib]);
        }
    }
    lemma_entry_for(es);
    lemma_entry_for(u);
    assert forall|k: CacheKeyView| #[trigger]
        entry_for(u, k) == if k == es[v].0 {
            None
        } else {
            entry_for(es, k)
        } by {
        if k == es[v].0 {
            assert forall|j: int| 0 <= j < u.len() implies u[j].0 != k by {
                let ij = if j < v {
                    j
                } else {
                    j + 1
                };
                assert(u[j] == es[ij]);
            }
            lemma_entry_for_absent(u, k);
        } else if exists|j: int| 0 <= j < es.len() && es[j].0 == k {
            let j = choose|j: int| 0 <= j < es.len() && es[j].0 == k;
            let uj = if j < v {
                j
            } else {
                j - 1
            };
            assert(u[uj] == es[j]);
        } else {
            assert forall|j: int| 0 <= j < u.len() implies u[j].0 != k by {
                let ij = if j < v {
                    j
                } else {
                    j + 1
                };
                assert(u[j] == es[ij]);
            }
            lemma_entry_for_absent(u, k);
            lemma_entry_for_absent(es, k);
        }
    }
}

/// Whether two keys are equal.
pub fn key_eq(a: &CacheKey, b: &CacheKey) -> (r: bool)
    ensures
        r == (a@ == b@),
{
    str_eq(a.segment_id.as_str(), b.segment_id.as_str()) && str_eq(
        a.source.as_str(),
        b.source.as_str(),
    ) && a.config_generation == b.config_generation
}

fn find_entry(entries: &Vec<(CacheKey, CacheEntry)>, key: &CacheKey) -> (r: Option<usize>)
    requires
        distinct_keys(entries_view(entries@)),
    ensures
        match r {
            Some(i) => i < entries.len() && entries@[i as int].0@ == key@ && entry_for(
                entries_view(entries@),
                key@,
            ) == Some(entries@[i as int].1@),
            None => entry_for(entries_view(entries@), key@) is None,
        },
{
    let ghost es = entries_view(entries@);
    proof {
        lemma_entry_for(es);
    }
    let mut i: usize = 0;
    while i < entries.len()
        invariant
            i <= entries.len(),
            es == entries_view(entries@),
            distinct_keys(es),
            forall|j: int| 0 <= j < i ==> es[j].0 != key@,
        decreases entries.len() - i,
    {
        if key_eq(&entries[i].0, key) {
            proof {
                lemma_entry_for(es);
                assert(es[i as int].0 == key@);
            }
            return Some(i);
        }
        i += 1;
    }
    proof {
        lemma_entry_for_absent(es, key@);
    }
    None
}

fn copy_value(v: &CachedValue) -> (r: CachedValue)
    ensures
        r@ == v@,
{
    match v {
        CachedValue::Success(c) => CachedValue::Success(copy_content(c)),
        CachedValue::Failure => CachedValue::Failure,
    }
}

fn copy_content(v: &Option<SegmentContent>) -> (r: Option<SegmentContent>)
    ensures
        content_opt_view(r) == content_opt_view(*v),
{
    match v {
        Some(c) => Some(c.copy()),
        None => None,
    }
}

/// Whether a value collected at `collected_at` is still fresh at `now`.
pub fn is_fresh(collected_at: u64, now: u64, ttl: u64) -> (r: bool)
    ensures
        r == fresh(collected_at, now, ttl),
{
    let age = if now >= collected_at {
        now - collected_at
    } else {
        0
    };
    age < ttl
}

impl CacheKey {
    pub fn new(segment_id: &str, source: &str, config_generation: u64) -> (r: CacheKey)
        ensures
            r@ == (CacheKeyView { segment_id: segment_id@, source: source@, config_generation }),
    {
        CacheKey { segment_id: copy_str(segment_id), source: copy_str(source), config_generation }
    }

    /// A copy of this key.
    pub fn copy(&self) -> (r: CacheKey)
        ensures
            r@ == self@,
    {
        CacheKey {
            segment_id: copy_str(self.segment_id.as_str()),
            source: copy_str(self.source.as_str()),
            config_generation: self.config_generation,
        }
    }
}

// ---------------------------------------------------------------------------
// Laws
// ---------------------------------------------------------------------------

/// A success read back while younger than the TTL is `Ready` with what was
/// stored; once as old as the TTL, `Stale` with the same value.
pub proof fn law_success_read_back(
    entry: CacheEntryView,
    value: Option<SegmentContentView>,
    now: u64,
    ttl: u64,
)
    requires
        entry.value == CachedValueView::Success(value),
    ensures
        age(entry.collected_at, now) < ttl ==> lookup_value(Some(entry), now, ttl)
            == AsyncValueView::Ready(value),
        age(entry.collected_at, now) >= ttl ==> lookup_value(Some(entry), now, ttl)
            == AsyncValueView::Stale(value),
{
}

/// A cache that keeps its entries within its capacity keeps doing so after
/// storing, and a cache with no room never keeps anything.
pub proof fn law_stores_respect_capacity(
    before: Seq<(CacheKeyView, CacheEntryView)>,
    before_uses: Seq<(CacheKeyView, u64)>,
    after: Seq<(CacheKeyView, CacheEntryView)>,
    after_uses: Seq<(CacheKeyView, u64)>,
    capacity: nat,
    key: CacheKeyView,
    entry: CacheEntryView,
    used_at: u64,
)
    requires
        stores(before, before_uses, after, after_uses, capacity, key, entry, used_at),
        capacity == 0,
        before.len() == 0,
    ensures
        after.len() == 0,
        entry_for(after, key) is None,
{
}

/// A key with an entry holds it at some position.
proof fn lemma_entry_for_position<V>(es: Seq<(CacheKeyView, V)>, k: CacheKeyView)
    requires
        entry_for(es, k) is Some,
    ensures
        exists|j: int| 0 <= j < es.len() && es[j].0 == k && Some(es[j].1) == entry_for(es, k),
    decreases es.len(),
{
    if es.last().0 != k {
        let d = es.drop_last();
        lemma_entry_for_position(d, k);
        let j = choose|j: int| 0 <= j < d.len() && d[j].0 == k && Some(d[j].1) == entry_for(d, k);
        assert(es[j] == d[j]);
    } else {
        assert(es[es.len() - 1] == es.last());
    }
}

/// Least recently used goes first: when storing makes room, an entry used more
/// recently than another kept entry is never the one evicted; it keeps its value
/// and its last use.
pub proof fn law_recent_entry_survives(
    before: Seq<(CacheKeyView, CacheEntryView)>,
    before_uses: Seq<(CacheKeyView, u64)>,
    after: Seq<(CacheKeyView, CacheEntryView)>,
    after_uses: Seq<(CacheKeyView, u64)>,
    capacity: nat,
    key: CacheKeyView,
    entry: CacheEntryView,
    used_at: u64,
    older: CacheKeyView,
    newer: CacheKeyView,
)
    requires
        distinct_keys(before_uses),
        stores(before, before_uses, after, after_uses, capacity, key, entry, used_at),
        newer != key,
        entry_for(before_uses, older) matches Some(u) && entry_for(before_uses, newer) matches Some(
            w,
        ) && u < w,
    ensures
        entry_for(after, newer) == entry_for(before, newer),
        entry_for(after_uses, newer) == entry_for(before_uses, newer),
{
    if capacity != 0 && !(entry_for(before, key) is Some || before.len() < capacity) {
        let v = choose|v: int|
            #![trigger before_uses[v]]
            least_recent(before_uses, v) && (forall|k: CacheKeyView| #[trigger]
                entry_for(after, k) == if k == key {
                    Some(entry)
                } else if k == before_uses[v].0 {
                    None
                } else {
                    entry_for(before, k)
                }) && (forall|k: CacheKeyView| #[trigger]
                entry_for(after_uses, k) == if k == key {
                    Some(used_at)
                } else if k == before_uses[v].0 {
                    None
                } else {
                    entry_for(before_uses, k)
                });
        if before_uses[v].0 == newer {
            lemma_entry_for(before_uses);
            assert(entry_for(before_uses, before_uses[v].0) == Some(before_uses[v].1));
            lemma_entry_for_position(before_uses, older);
            let j = choose|j: int|
                0 <= j < before_uses.len() && before_uses[j].0 == older && Some(before_uses[j].1)
                    == entry_for(before_uses, older);
            assert(before_uses[v].1 <= before_uses[j].1);
            assert(false);
        }
    }
}

} // verus!
