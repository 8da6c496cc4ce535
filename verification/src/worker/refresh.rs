//! Looking up the async segments for a prompt, and deciding which to collect again.

use vstd::prelude::*;

use crate::cache::{
    age, entry_for, failure_step, failure_trace_step, fresh, keys_view, CacheModel, lookup_value, AsyncValueView, CacheEntryView, CacheKey, CacheKeyView,
    SegmentCache,
};
use crate::config::{Config, SegmentConfigView};
use crate::render::{values_view, AsyncSegmentValues};
use crate::segments::asynchronous::{
    all_async_segments, async_segments, key_opt, seg_key, seg_primary, seg_render_ids, seg_timeout,
    seg_ttl, strs_view_of, AsyncSegment, WorkspaceProbe,
};
use crate::state::{PromptState, PromptStateView};
use crate::worker::{
    config_uses_any_segment, min_loading_of, segment_min_loading_until, segment_timeout,
    segment_ttl, uses_segment,
};

verus! {

// ---------------------------------------------------------------------------
// Specification
// ---------------------------------------------------------------------------

/// Whether the layout shows any of `ids`.
pub open spec fn uses_any(config: Config, ids: Seq<Seq<char>>) -> bool {
    exists|i: int| 0 <= i < ids.len() && uses_segment(config, #[trigger] ids[i])
}

/// A configured duration, else the default.
pub open spec fn ttl_of(config: SegmentConfigView, default: u64) -> u64 {
    match config.ttl_ms {
        Some(t) => t,
        None => default,
    }
}

/// A configured time limit unless it is 0, else the default.
pub open spec fn timeout_of(config: SegmentConfigView, default: u64) -> u64 {
    match config.timeout_ms {
        Some(t) => if t != 0 {
            t
        } else {
            default
        },
        None => default,
    }
}

/// The values looked up for the render ids of one segment.
pub open spec fn ids_values(
    s: AsyncSegment,
    ids: Seq<Seq<char>>,
    stored: Seq<(CacheKeyView, CacheEntryView)>,
    state: PromptStateView,
    probe: WorkspaceProbe,
    config_generation: u64,
    now: u64,
    ttl: u64,
) -> Seq<(Seq<char>, AsyncValueView)>
    decreases ids.len(),
{
    if ids.len() == 0 {
        seq![]
    } else {
        let before = ids_values(s, ids.drop_last(), stored, state, probe, config_generation, now, ttl);
        match seg_key(s, ids.last(), state, probe, config_generation) {
            Some(k) => before.push((ids.last(), lookup_value(entry_for(stored, k), now, ttl))),
            None => before,
        }
    }
}

/// The values looked up for one segment: none when the layout does not show it.
pub open spec fn segment_values(
    s: AsyncSegment,
    stored: Seq<(CacheKeyView, CacheEntryView)>,
    state: PromptStateView,
    probe: WorkspaceProbe,
    config: Config,
    config_generation: u64,
    now: u64,
) -> Seq<(Seq<char>, AsyncValueView)> {
    if uses_any(config, seg_render_ids(s)) {
        let ttl = ttl_of(config.segment_view(seg_primary(s)), seg_ttl(s));
        ids_values(s, seg_render_ids(s), stored, state, probe, config_generation, now, ttl)
    } else {
        seq![]
    }
}

/// The values looked up for a list of segments, in order.
pub open spec fn segments_values(
    segs: Seq<AsyncSegment>,
    stored: Seq<(CacheKeyView, CacheEntryView)>,
    state: PromptStateView,
    probe: WorkspaceProbe,
    config: Config,
    config_generation: u64,
    now: u64,
) -> Seq<(Seq<char>, AsyncValueView)>
    decreases segs.len(),
{
    if segs.len() == 0 {
        seq![]
    } else {
        segments_values(segs.drop_last(), stored, state, probe, config, config_generation, now)
            + segment_values(segs.last(), stored, state, probe, config, config_generation, now)
    }
}

// ---------------------------------------------------------------------------
// Lookup
// ---------------------------------------------------------------------------

/// The cached value of every async segment the layout shows and the directory
/// applies to, under its render id. Reading the values uses the entries read;
/// the entries themselves and the collections under way stay as they were.
pub fn async_values(
    cache: &mut SegmentCache,
    state: &PromptState,
    probe: &WorkspaceProbe,
    config: &Config,
    config_generation: u64,
    now: u64,
) -> (r: AsyncSegmentValues)
    requires
        old(cache).wf(),
    ensures
        final(cache).wf(),
        final(cache).stored() == old(cache).stored(),
        final(cache).pending() == old(cache).pending(),
        final(cache).capacity() == old(cache).capacity(),
        values_view(r@) == segments_values(
            all_async_segments(),
            old(cache).stored(),
            state@,
            *probe,
            *config,
            config_generation,
            now,
        ),
{
    let segs = async_segments();
    let mut values: AsyncSegmentValues = Vec::new();
    let mut i: usize = 0;
    let ghost st = cache.stored();
    let ghost pend = cache.pending();
    let ghost cap = cache.capacity();
    assert(segs@.take(0) =~= Seq::<AsyncSegment>::empty());
    while i < segs.len()
        invariant
            i <= segs.len(),
            cache.wf(),
            cache.stored() == st,
            cache.pending() == pend,
            cache.capacity() == cap,
            values_view(values@) == segments_values(
                segs@.take(i as int),
                cache.stored(),
                state@,
                *probe,
                *config,
                config_generation,
                now,
            ),
        decreases segs.len() - i,
    {
        let s = segs[i];
        let ids = s.render_ids();
        let ghost before = values_view(values@);
        assert(segs@.take(i + 1).drop_last() =~= segs@.take(i as int));
        assert(segs@.take(i + 1).last() == s);
        if config_uses_any_segment(config, ids.as_slice()) {
            proof {
                assert(uses_any(*config, seg_render_ids(s))) by {
                    let k = choose|k: int| 0 <= k < ids@.len() && uses_segment(*config, #[trigger] ids@[k]@);
                    assert(seg_render_ids(s)[k] == ids@[k]@);
                }
            }
            let ttl = segment_ttl(&config.segment(s.primary_id()), s.default_ttl());
            let mut j: usize = 0;
            assert(strs_view_of(ids@).take(0) =~= Seq::<Seq<char>>::empty());
            while j < ids.len()
                invariant
                    j <= ids.len(),
                    cache.wf(),
                    cache.stored() == st,
                    cache.pending() == pend,
                    cache.capacity() == cap,
                    strs_view_of(ids@) == seg_render_ids(s),
                    values_view(values@) == before + ids_values(
                        s,
                        strs_view_of(ids@).take(j as int),
                        cache.stored(),
                        state@,
                        *probe,
                        config_generation,
                        now,
                        ttl,
                    ),
                decreases ids.len() - j,
            {
                let ghost prev = values_view(values@);
                assert(strs_view_of(ids@).take(j + 1).drop_last() =~= strs_view_of(ids@).take(
                    j as int,
                ));
                assert(strs_view_of(ids@).take(j + 1).last() == ids@[j as int]@);
                match s.cache_key(ids[j], state, probe, config_generation) {
                    Some(key) => {
                        let v = cache.lookup(&key, now, ttl);
                        values.push((ids[j].to_string(), v));
                        assert(values_view(values@) =~= prev.push((ids@[j as int]@, v@)));
                    },
                    None => {},
                }
                j += 1;
            }
            assert(strs_view_of(ids@).take(j as int) =~= seg_render_ids(s));
        } else {
            proof {
                if uses_any(*config, seg_render_ids(s)) {
                    let k = choose|k: int| 0 <= k < seg_render_ids(s).len() && uses_segment(*config, #[trigger] seg_render_ids(s)[k]);
                    assert(ids@[k]@ == seg_render_ids(s)[k]);
                }
            }
            assert(values_view(values@) =~= before + Seq::<(Seq<char>, AsyncValueView)>::empty());
        }
        i += 1;
    }
    assert(segs@.take(i as int) =~= segs@);
    values
}

// ---------------------------------------------------------------------------
// Refreshes
// ---------------------------------------------------------------------------

/// A collection to start: the segment, the prompt generation it is for, the key it
/// runs under, the keys that fail with it, its time limit, and when its result may
/// show at the earliest.
#[derive(Debug, PartialEq, Eq)]
pub struct RefreshPlan {
    pub segment: AsyncSegment,
    pub generation: u64,
    pub key: CacheKey,
    pub fail_keys: Vec<CacheKey>,
    pub timeout_ms: u64,
    pub min_loading_until: u64,
}

pub struct RefreshPlanView {
    pub segment: AsyncSegment,
    pub generation: u64,
    pub key: CacheKeyView,
    pub fail_keys: Seq<CacheKeyView>,
    pub timeout_ms: u64,
    pub min_loading_until: u64,
}

/// The keys of a list, as values.
pub open spec fn keys_of(v: Seq<CacheKey>) -> Seq<CacheKeyView> {
    Seq::new(v.len(), |i: int| v[i]@)
}

impl View for RefreshPlan {
    type V = RefreshPlanView;

    open spec fn view(&self) -> RefreshPlanView {
        RefreshPlanView {
            segment: self.segment,
            generation: self.generation,
            key: self.key@,
            fail_keys: keys_of(self.fail_keys@),
            timeout_ms: self.timeout_ms,
            min_loading_until: self.min_loading_until,
        }
    }
}

/// The plans of a list, as values.
pub open spec fn plans_view(v: Seq<RefreshPlan>) -> Seq<RefreshPlanView> {
    Seq::new(v.len(), |i: int| v[i]@)
}

/// The keys of each render id of a segment that has one.
pub open spec fn fail_keys_of(
    s: AsyncSegment,
    ids: Seq<Seq<char>>,
    state: PromptStateView,
    probe: WorkspaceProbe,
    config_generation: u64,
) -> Seq<CacheKeyView>
    decreases ids.len(),
{
    if ids.len() == 0 {
        seq![]
    } else {
        let before = fail_keys_of(s, ids.drop_last(), state, probe, config_generation);
        match seg_key(s, ids.last(), state, probe, config_generation) {
            Some(k) => before.push(k),
            None => before,
        }
    }
}

/// Whether a key should be collected again: not while a collection is under way,
/// otherwise when nothing fresh is kept.
pub open spec fn wants_refresh(
    stored: Seq<(CacheKeyView, CacheEntryView)>,
    pending: Set<CacheKeyView>,
    key: CacheKeyView,
    now: u64,
    ttl: u64,
) -> bool {
    !pending.contains(key) && match entry_for(stored, key) {
        None => true,
        Some(e) => !fresh(e.collected_at, now, ttl),
    }
}

/// When a new collection's result may show.
pub open spec fn min_loading_until_of(
    stored: Seq<(CacheKeyView, CacheEntryView)>,
    key: CacheKeyView,
    config: Config,
    segment_id: Seq<char>,
    now: u64,
) -> u64 {
    if entry_for(stored, key) is Some {
        now
    } else {
        let m = min_loading_of(config, config.segment_view(segment_id));
        if now + m <= u64::MAX {
            (now + m) as u64
        } else {
            u64::MAX
        }
    }
}

/// The collection to start for one segment, if any: the layout shows it, the
/// directory applies to it, and its primary key wants refreshing.
pub open spec fn segment_plan(
    s: AsyncSegment,
    stored: Seq<(CacheKeyView, CacheEntryView)>,
    pending: Set<CacheKeyView>,
    generation: u64,
    state: PromptStateView,
    probe: WorkspaceProbe,
    config: Config,
    config_generation: u64,
    now: u64,
) -> Option<RefreshPlanView> {
    if !uses_any(config, seg_render_ids(s)) {
        None
    } else {
        match seg_key(s, seg_primary(s), state, probe, config_generation) {
            None => None,
            Some(key) => {
                let seg_config = config.segment_view(seg_primary(s));
                if !wants_refresh(stored, pending, key, now, ttl_of(seg_config, seg_ttl(s))) {
                    None
                } else {
                    Some(
                        RefreshPlanView {
                            segment: s,
                            generation,
                            key,
                            fail_keys: fail_keys_of(
                                s,
                                seg_render_ids(s),
                                state,
                                probe,
                                config_generation,
                            ),
                            timeout_ms: timeout_of(seg_config, seg_timeout(s)),
                            min_loading_until: min_loading_until_of(
                                stored,
                                key,
                                config,
                                seg_primary(s),
                                now,
                            ),
                        },
                    )
                }
            },
        }
    }
}

/// The collections to start for a list of segments, in order, and the keys under
/// way afterwards: each planned key is under way for the segments after it.
pub open spec fn segments_plans(
    segs: Seq<AsyncSegment>,
    stored: Seq<(CacheKeyView, CacheEntryView)>,
    pending: Set<CacheKeyView>,
    generation: u64,
    state: PromptStateView,
    probe: WorkspaceProbe,
    config: Config,
    config_generation: u64,
    now: u64,
) -> (Seq<RefreshPlanView>, Set<CacheKeyView>)
    decreases segs.len(),
{
    if segs.len() == 0 {
        (seq![], pending)
    } else {
        let (plans, under_way) = segments_plans(
            segs.drop_last(),
            stored,
            pending,
            generation,
            state,
            probe,
            config,
            config_generation,
            now,
        );
        match segment_plan(
            segs.last(),
            stored,
            under_way,
            generation,
            state,
            probe,
            config,
            config_generation,
            now,
        ) {
            Some(p) => (plans.push(p), under_way.insert(p.key)),
            None => (plans, under_way),
        }
    }
}

fn collect_fail_keys(
    s: AsyncSegment,
    state: &PromptState,
    probe: &WorkspaceProbe,
    config_generation: u64,
) -> (r: Vec<CacheKey>)
    ensures
        keys_of(r@) == fail_keys_of(s, seg_render_ids(s), state@, *probe, config_generation),
{
    let ids = s.render_ids();
    let mut keys: Vec<CacheKey> = Vec::new();
    let mut j: usize = 0;
    assert(strs_view_of(ids@).take(0) =~= Seq::<Seq<char>>::empty());
    while j < ids.len()
        invariant
            j <= ids.len(),
            strs_view_of(ids@) == seg_render_ids(s),
            keys_of(keys@) == fail_keys_of(
                s,
                strs_view_of(ids@).take(j as int),
                state@,
                *probe,
                config_generation,
            ),
        decreases ids.len() - j,
    {
        let ghost prev = keys_of(keys@);
        assert(strs_view_of(ids@).take(j + 1).drop_last() =~= strs_view_of(ids@).take(j as int));
        assert(strs_view_of(ids@).take(j + 1).last() == ids@[j as int]@);
        match s.cache_key(ids[j], state, probe, config_generation) {
            Some(key) => {
                let ghost kv = key@;
                keys.push(key);
                assert(keys_of(keys@) =~= prev.push(kv));
            },
            None => {},
        }
        j += 1;
    }
    assert(strs_view_of(ids@).take(j as int) =~= seg_render_ids(s));
    keys
}

/// Decides which async segments to collect again for a prompt, and records each
/// chosen collection as under way. The caller starts a job for each plan, and hands
/// a plan whose job could not be started to `abandon_refresh`.
pub fn plan_async_refreshes(
    cache: &mut SegmentCache,
    generation: u64,
    state: &PromptState,
    probe: &WorkspaceProbe,
    config: &Config,
    config_generation: u64,
    now: u64,
) -> (r: Vec<RefreshPlan>)
    requires
        old(cache).wf(),
    ensures
        final(cache).wf(),
        final(cache).capacity() == old(cache).capacity(),
        final(cache).stored() == old(cache).stored(),
        ({
            let (plans, under_way) = segments_plans(
                all_async_segments(),
                old(cache).stored(),
                old(cache).pending().to_set(),
                generation,
                state@,
                *probe,
                *config,
                config_generation,
                now,
            );
            &&& plans_view(r@) == plans
            &&& final(cache).pending().to_set() == under_way
        }),
{
    let segs = async_segments();
    let ghost stored = cache.stored();
    let ghost pending0 = cache.pending().to_set();
    let mut plans: Vec<RefreshPlan> = Vec::new();
    let mut i: usize = 0;
    assert(segs@.take(0) =~= Seq::<AsyncSegment>::empty());
    while i < segs.len()
        invariant
            i <= segs.len(),
            segs@ == all_async_segments(),
            cache.wf(),
            cache.capacity() == old(cache).capacity(),
            cache.stored() == stored,
            stored == old(cache).stored(),
            pending0 == old(cache).pending().to_set(),
            ({
                let (ps, under_way) = segments_plans(
                    segs@.take(i as int),
                    stored,
                    pending0,
                    generation,
                    state@,
                    *probe,
                    *config,
                    config_generation,
                    now,
                );
                &&& plans_view(plans@) == ps
                &&& cache.pending().to_set() == under_way
            }),
        decreases segs.len() - i,
    {
        let s = segs[i];
        assert(segs@.take(i + 1).drop_last() =~= segs@.take(i as int));
        assert(segs@.take(i + 1).last() == s);
        let ghost under_way = cache.pending().to_set();
        let ghost before = plans_view(plans@);
        let ids = s.render_ids();
        let uses = config_uses_any_segment(config, ids.as_slice());
        proof {
            if uses {
                let k = choose|k: int| 0 <= k < ids@.len() && uses_segment(*config, #[trigger] ids@[k]@);
                assert(seg_render_ids(s)[k] == ids@[k]@);
            } else if uses_any(*config, seg_render_ids(s)) {
                let k = choose|k: int| 0 <= k < seg_render_ids(s).len() && uses_segment(*config, #[trigger] seg_render_ids(s)[k]);
                assert(ids@[k]@ == seg_render_ids(s)[k]);
            }
        }
        if uses {
            let primary = s.primary_id();
            match s.cache_key(primary, state, probe, config_generation) {
                Some(key) => {
                    let seg_config = config.segment(primary);
                    let ttl = segment_ttl(&seg_config, s.default_ttl());
                    if cache.needs_refresh(&key, now, ttl) {
                        let min_loading_until = segment_min_loading_until(
                            cache,
                            &key,
                            config,
                            primary,
                            now,
                        );
                        let fail_keys = collect_fail_keys(s, state, probe, config_generation);
                        let ghost kv = key@;
                        let _ = cache.mark_inflight(key.copy());
                        let timeout_ms = segment_timeout(&seg_config, s.default_timeout());
                        let plan = RefreshPlan {
                            segment: s,
                            generation,
                            key,
                            fail_keys,
                            timeout_ms,
                            min_loading_until,
                        };
                        let ghost pv = plan@;
                        plans.push(plan);
                        proof {
                            assert(plans_view(plans@) =~= before.push(pv));
                            assert(cache.pending().to_set() =~= under_way.insert(kv));
                        }
                    } else {
                        proof {
                            assert(!wants_refresh(stored, under_way, key@, now, ttl));
                        }
                    }
                },
                None => {},
            }
        }
        i += 1;
    }
    assert(segs@.take(i as int) =~= segs@);
    plans
}

proof fn lemma_primary_key_segment(
    s: AsyncSegment,
    state: PromptStateView,
    probe: WorkspaceProbe,
    config_generation: u64,
)
    ensures
        seg_key(s, seg_primary(s), state, probe, config_generation) matches Some(k) ==> k.segment_id
            == seg_primary(s),
{
    reveal_strlit("git_status");
    reveal_strlit("git_branch");
    assert("git_status"@[4] != "git_branch"@[4]);
}

proof fn lemma_primaries_distinct(i: int, j: int)
    requires
        0 <= i < all_async_segments().len(),
        0 <= j < all_async_segments().len(),
        i != j,
    ensures
        seg_primary(all_async_segments()[i]) != seg_primary(all_async_segments()[j]),
{
    reveal_strlit("git_status");
    reveal_strlit("rust_version");
    reveal_strlit("bun_version");
    reveal_strlit("deno_version");
    reveal_strlit("node_version");
    reveal_strlit("python_version");
    let a = seg_primary(all_async_segments()[i]);
    let b = seg_primary(all_async_segments()[j]);
    assert(a[0] != b[0]);
}

proof fn lemma_under_way_keys(
    segs: Seq<AsyncSegment>,
    stored: Seq<(CacheKeyView, CacheEntryView)>,
    pending: Set<CacheKeyView>,
    generation: u64,
    state: PromptStateView,
    probe: WorkspaceProbe,
    config: Config,
    config_generation: u64,
    now: u64,
    k: CacheKeyView,
)
    requires
        segments_plans(segs, stored, pending, generation, state, probe, config, config_generation, now).1.contains(k),
    ensures
        pending.contains(k) || exists|j: int| 0 <= j < segs.len() && k.segment_id == seg_primary(#[trigger] segs[j]),
    decreases segs.len(),
{
    if segs.len() > 0 {
        let d = segs.drop_last();
        let (plans, uw) = segments_plans(d, stored, pending, generation, state, probe, config, config_generation, now);
        match segment_plan(segs.last(), stored, uw, generation, state, probe, config, config_generation, now) {
            Some(p) => {
                if k == p.key {
                    lemma_primary_key_segment(segs.last(), state, probe, config_generation);
                    assert(segs[segs.len() - 1] == segs.last());
                } else {
                    lemma_under_way_keys(d, stored, pending, generation, state, probe, config, config_generation, now, k);
                    if !pending.contains(k) {
                        let j = choose|j: int| 0 <= j < d.len() && k.segment_id == seg_primary(#[trigger] d[j]);
                        assert(d[j] == segs[j]);
                    }
                }
            },
            None => {
                lemma_under_way_keys(d, stored, pending, generation, state, probe, config, config_generation, now, k);
                if !pending.contains(k) {
                    let j = choose|j: int| 0 <= j < d.len() && k.segment_id == seg_primary(#[trigger] d[j]);
                    assert(d[j] == segs[j]);
                }
            },
        }
    }
}

proof fn lemma_plan_kept(
    segs: Seq<AsyncSegment>,
    i: int,
    stored: Seq<(CacheKeyView, CacheEntryView)>,
    pending: Set<CacheKeyView>,
    generation: u64,
    state: PromptStateView,
    probe: WorkspaceProbe,
    config: Config,
    config_generation: u64,
    now: u64,
)
    requires
        0 <= i < segs.len(),
        segment_plan(
            segs[i],
            stored,
            segments_plans(segs.take(i), stored, pending, generation, state, probe, config, config_generation, now).1,
            generation,
            state,
            probe,
            config,
            config_generation,
            now,
        ) is Some,
    ensures
        segments_plans(segs, stored, pending, generation, state, probe, config, config_generation, now).0.contains(
            segment_plan(
                segs[i],
                stored,
                segments_plans(segs.take(i), stored, pending, generation, state, probe, config, config_generation, now).1,
                generation,
                state,
                probe,
                config,
                config_generation,
                now,
            ).unwrap(),
        ),
    decreases segs.len(),
{
    let d = segs.drop_last();
    let p = segment_plan(
        segs[i],
        stored,
        segments_plans(segs.take(i), stored, pending, generation, state, probe, config, config_generation, now).1,
        generation,
        state,
        probe,
        config,
        config_generation,
        now,
    ).unwrap();
    let (plans, uw) = segments_plans(d, stored, pending, generation, state, probe, config, config_generation, now);
    if i == segs.len() - 1 {
        assert(segs.take(i) =~= d);
        assert(segs[i] == segs.last());
        assert(plans.push(p)[plans.len() as int] == p);
    } else {
        assert(d.take(i) =~= segs.take(i));
        assert(d[i] == segs[i]);
        lemma_plan_kept(d, i, stored, pending, generation, state, probe, config, config_generation, now);
        let j = choose|j: int| 0 <= j < plans.len() && plans[j] == p;
        match segment_plan(segs.last(), stored, uw, generation, state, probe, config, config_generation, now) {
            Some(q) => {
                assert(plans.push(q)[j] == p);
            },
            None => {},
        }
    }
}

/// A segment the layout shows, whose key is not under way and whose kept value
/// is at least as old as its time to live (the configured `ttl_ms`, else the
/// segment's default), or which has nothing kept, is collected again: the plans
/// hold a plan for its key.
pub proof fn law_stale_keys_are_collected_again(
    i: int,
    stored: Seq<(CacheKeyView, CacheEntryView)>,
    pending: Set<CacheKeyView>,
    generation: u64,
    state: PromptStateView,
    probe: WorkspaceProbe,
    config: Config,
    config_generation: u64,
    now: u64,
    k: CacheKeyView,
)
    requires
        0 <= i < all_async_segments().len(),
        uses_any(config, seg_render_ids(all_async_segments()[i])),
        seg_key(
            all_async_segments()[i],
            seg_primary(all_async_segments()[i]),
            state,
            probe,
            config_generation,
        ) == Some(k),
        !pending.contains(k),
        match entry_for(stored, k) {
            None => true,
            Some(e) => age(e.collected_at, now) >= match config.segment_view(
                seg_primary(all_async_segments()[i]),
            ).ttl_ms {
                Some(t) => t,
                None => seg_ttl(all_async_segments()[i]),
            },
        },
    ensures
        exists|j: int|
            0 <= j < segments_plans(
                all_async_segments(),
                stored,
                pending,
                generation,
                state,
                probe,
                config,
                config_generation,
                now,
            ).0.len() && (#[trigger] segments_plans(
                all_async_segments(),
                stored,
                pending,
                generation,
                state,
                probe,
                config,
                config_generation,
                now,
            ).0[j]).key == k,
{
    let segs = all_async_segments();
    let s = segs[i];
    let uw = segments_plans(segs.take(i), stored, pending, generation, state, probe, config, config_generation, now).1;
    lemma_primary_key_segment(s, state, probe, config_generation);
    if uw.contains(k) {
        lemma_under_way_keys(segs.take(i), stored, pending, generation, state, probe, config, config_generation, now, k);
        let j = choose|j: int| 0 <= j < segs.take(i).len() && k.segment_id == seg_primary(#[trigger] segs.take(i)[j]);
        assert(segs.take(i)[j] == segs[j]);
        lemma_primaries_distinct(i, j);
        assert(false);
    }
    let plan = segment_plan(s, stored, uw, generation, state, probe, config, config_generation, now);
    assert(plan is Some);
    lemma_plan_kept(segs, i, stored, pending, generation, state, probe, config, config_generation, now);
    let plans = segments_plans(segs, stored, pending, generation, state, probe, config, config_generation, now).0;
    let j = choose|j: int| 0 <= j < plans.len() && plans[j] == plan.unwrap();
    assert(plans[j].key == k);
}

/// Ends a collection whose job could not be started: each of its keys fails now,
/// one after another, as `complete_failure` records a failure (a kept success
/// stays; otherwise a failure collected at `now` is stored, the entry used least
/// recently making room when the cache is full). Other collections under way go on.
pub fn abandon_refresh(cache: &mut SegmentCache, plan: &RefreshPlan, now: u64)
    requires
        old(cache).wf(),
    ensures
        final(cache).wf(),
        final(cache).capacity() == old(cache).capacity(),
        forall|i: int|
            0 <= i < plan.fail_keys@.len() ==> !final(cache).pending().contains(
                #[trigger] plan.fail_keys@[i]@,
            ),
        forall|k: CacheKeyView|
            !keys_view(plan.fail_keys@).contains(k) ==> (final(cache).pending().contains(k)
                <==> old(cache).pending().contains(k)),
        exists|trace: Seq<CacheModel>|
            trace.len() == plan.fail_keys@.len() + 1 && trace[0] == old(cache).model() && trace.last()
                == final(cache).model() && forall|i: int|
                0 <= i < plan.fail_keys@.len() ==> #[trigger] failure_trace_step(
                    trace,
                    keys_view(plan.fail_keys@),
                    now,
                    i,
                ),
{
    let ghost keys = keys_view(plan.fail_keys@);
    let ghost mut trace: Seq<CacheModel> = seq![cache.model()];
    let mut i: usize = 0;
    while i < plan.fail_keys.len()
        invariant
            i <= plan.fail_keys.len(),
            keys == keys_view(plan.fail_keys@),
            cache.wf(),
            cache.capacity() == old(cache).capacity(),
            forall|k: int|
                0 <= k < i ==> !cache.pending().contains(#[trigger] plan.fail_keys@[k]@),
            forall|k: CacheKeyView|
                !keys.take(i as int).contains(k) ==> (cache.pending().contains(k)
                    <==> old(cache).pending().contains(k)),
            trace.len() == i + 1,
            trace[0] == old(cache).model(),
            trace.last() == cache.model(),
            forall|j: int| 0 <= j < i ==> #[trigger] failure_trace_step(trace, keys, now, j),
        decreases plan.fail_keys.len() - i,
    {
        let ghost before = cache.pending();
        let ghost prev = trace;
        cache.complete_failure(plan.fail_keys[i].copy(), now);
        proof {
            trace = prev.push(cache.model());
            assert(keys[i as int] == plan.fail_keys@[i as int]@);
            assert(prev[i as int] == prev.last());
            assert(failure_trace_step(trace, keys, now, i as int)) by {
                assert(trace[i as int] == prev[i as int]);
                assert(trace[i + 1] == cache.model());
            }
            assert forall|j: int| 0 <= j < i + 1 implies #[trigger] failure_trace_step(
                trace,
                keys,
                now,
                j,
            ) by {
                if j < i {
                    assert(failure_trace_step(prev, keys, now, j));
                    assert(trace[j] == prev[j]);
                    assert(trace[j + 1] == prev[j + 1]);
                }
            }
            assert forall|k: int| 0 <= k < i + 1 implies !cache.pending().contains(
                #[trigger] plan.fail_keys@[k]@,
            ) by {
                if k < i && plan.fail_keys@[k]@ != plan.fail_keys@[i as int]@ {
                    assert(!before.contains(plan.fail_keys@[k]@));
                }
            }
            assert forall|k: CacheKeyView| !keys.take(i + 1).contains(k) implies (
            cache.pending().contains(k) <==> old(cache).pending().contains(k)) by {
                assert(keys.take(i + 1)[i as int] == keys[i as int]);
                if keys.take(i as int).contains(k) {
                    let j = choose|j: int| 0 <= j < i && keys.take(i as int)[j] == k;
                    assert(keys.take(i + 1)[j] == k);
                }
            }
        }
        i += 1;
    }
    proof {
        assert(keys.take(i as int) =~= keys);
    }
}

} // verus!
