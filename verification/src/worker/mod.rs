//! Background worker: the decisions it takes between prompts.
//!
//! The worker's loop, its FIFOs, threads and timers run outside this library;
//! each decision they need is a function here from plain values to plain values.
//! Times are milliseconds on one monotonic clock.

pub mod jobs;
pub mod protocol;
pub mod refresh;
pub mod session;

use vstd::prelude::*;

use crate::cache::{
    failure_step, failure_trace_step, failures_trace, keys_view, success_step, AsyncValue, AsyncValueView, CacheKey,
    CacheKeyView, CacheModel, SegmentCache,
};
use crate::config::{strings_view, Config, SegmentConfig, SegmentConfigView, DEFAULT_INITIAL_WAIT_MS, DEFAULT_MIN_LOADING_MS};
use crate::render::{value_for, values_view, AsyncSegmentValues};
use crate::segments::{content_opt, SegmentContent, SegmentContentView};
use crate::config::error::{push_quoted, quoted};
use crate::text::{push_str, str_eq};
use self::jobs::{JobOutcome, JobResult};
use self::protocol::RenderStatus;

verus! {

/// What the worker is started with.
#[derive(Clone, Debug)]
pub struct WorkerOptions {
    pub runtime_dir: String,
    pub session_token: String,
    pub parent_pid: Option<u32>,
}

/// Why the worker stopped; the text is what the operating system reported.
#[derive(Clone, Debug, PartialEq, Eq)]
pub enum WorkerError {
    OpenRequest { path: String, source: String },
    OpenResponse { path: String, source: String },
    Write(String),
    Read(String),
}

impl WorkerError {
    /// The message of this error.
    pub fn message(&self) -> (r: String)
        ensures
            r@ == match self {
                WorkerError::OpenRequest { path, source } => "failed to open request FIFO "@
                    + quoted(path@) + ": "@ + source@,
                WorkerError::OpenResponse { path, source } => "failed to open response FIFO "@
                    + quoted(path@) + ": "@ + source@,
                WorkerError::Write(e) => "failed to write worker response: "@ + e@,
                WorkerError::Read(e) => "failed to read worker request: "@ + e@,
            },
    {
        match self {
            WorkerError::OpenRequest { path, source } => {
                let mut s = "failed to open request FIFO ".to_string();
                push_quoted(&mut s, path.as_str());
                push_str(&mut s, ": ");
                push_str(&mut s, source.as_str());
                s
            },
            WorkerError::OpenResponse { path, source } => {
                let mut s = "failed to open response FIFO ".to_string();
                push_quoted(&mut s, path.as_str());
                push_str(&mut s, ": ");
                push_str(&mut s, source.as_str());
                s
            },
            WorkerError::Write(e) => {
                let mut s = "failed to write worker response: ".to_string();
                push_str(&mut s, e.as_str());
                s
            },
            WorkerError::Read(e) => {
                let mut s = "failed to read worker request: ".to_string();
                push_str(&mut s, e.as_str());
                s
            },
        }
    }
}

/// Why an async segment has no value.
#[derive(Clone, Copy, Debug, PartialEq, Eq)]
pub enum AsyncSegmentFailure {
    Failed,
}

/// One collected segment: its key, and what was collected or that it failed.
#[derive(Debug, PartialEq, Eq)]
pub struct AsyncJobSegment {
    pub key: CacheKey,
    pub content: Result<Option<SegmentContent>, AsyncSegmentFailure>,
}

/// What a collection job hands back: the segments, and the time before which
/// they are not shown (so that a loading placeholder does not flicker).
#[derive(Debug, PartialEq, Eq)]
pub struct AsyncJobSegments {
    pub min_loading_until: u64,
    pub segments: Vec<AsyncJobSegment>,
}

/// How long a segment's collection may take: its configured timeout unless that
/// is 0, else `default`.
pub fn segment_timeout(config: &SegmentConfig, default: u64) -> (r: u64)
    ensures
        r == match config.timeout_ms {
            Some(t) => if t != 0 { t } else { default },
            None => default,
        },
{
    match config.timeout_ms {
        Some(t) => {
            if t != 0 {
                t
            } else {
                default
            }
        },
        None => default,
    }
}

/// How long a collected value stays fresh: its configured TTL (0 included), else `default`.
pub fn segment_ttl(config: &SegmentConfig, default: u64) -> (r: u64)
    ensures
        r == match config.ttl_ms {
            Some(t) => t,
            None => default,
        },
{
    match config.ttl_ms {
        Some(t) => t,
        None => default,
    }
}

/// How long a loading placeholder shows at least: the segment's setting, else
/// the global one, else the built-in default.
pub open spec fn min_loading_of(config: Config, segment: SegmentConfigView) -> u64 {
    match segment.min_loading_ms {
        Some(m) => m,
        None => match config.async_config.min_loading_ms {
            Some(m) => m,
            None => DEFAULT_MIN_LOADING_MS,
        },
    }
}

/// How long a loading placeholder shows at least.
pub fn segment_min_loading(config: &Config, segment_config: &SegmentConfig) -> (r: u64)
    ensures
        r == min_loading_of(*config, segment_config@),
{
    match segment_config.min_loading_ms {
        Some(m) => m,
        None => match config.async_config.min_loading_ms {
            Some(m) => m,
            None => DEFAULT_MIN_LOADING_MS,
        },
    }
}

/// When a new collection's result may show: at once when something is already
/// cached for the key, else after the minimum loading time (at the latest
/// representable time when that would overflow).
pub fn segment_min_loading_until(cache: &SegmentCache, key: &CacheKey, config: &Config, segment_id: &str, now: u64) -> (r: u64)
    requires
        cache.wf(),
    ensures
        r == if cache.entry(key@) is Some {
            now
        } else {
            let m = min_loading_of(*config, config.segment_view(segment_id@));
            if now + m <= u64::MAX { (now + m) as u64 } else { u64::MAX }
        },
{
    if cache.has_entry(key) {
        return now;
    }
    let m = segment_min_loading(config, &config.segment(segment_id));
    if m <= u64::MAX - now {
        now + m
    } else {
        u64::MAX
    }
}

/// How long to hold a finished job's result back: until its minimum loading
/// time has passed; never for a job that panicked.
pub open spec fn delay_of(outcome_until: Option<u64>, now: u64) -> Option<u64> {
    match outcome_until {
        None => None,
        Some(until) => if until <= now { None } else { Some((until - now) as u64) },
    }
}

pub open spec fn outcome_until(result: JobResult<AsyncJobSegments>) -> Option<u64> {
    match result.outcome {
        JobOutcome::Completed(s) => Some(s.min_loading_until),
        JobOutcome::Panicked => None,
    }
}

/// How long to hold a finished job's result back.
pub fn job_result_delay(result: &JobResult<AsyncJobSegments>, now: u64) -> (r: Option<u64>)
    ensures
        r == delay_of(outcome_until(*result), now),
{
    match &result.outcome {
        JobOutcome::Completed(segments) => {
            if segments.min_loading_until <= now {
                None
            } else {
                Some(segments.min_loading_until - now)
            }
        },
        JobOutcome::Panicked => None,
    }
}

/// What a collected segment holds, as a value.
pub open spec fn segment_outcome(
    segment: Result<Option<SegmentContent>, AsyncSegmentFailure>,
) -> Result<Option<SegmentContentView>, AsyncSegmentFailure> {
    match segment {
        Ok(c) => Ok(content_opt(c)),
        Err(e) => Err(e),
    }
}

/// What storing one collected segment of `key` at `at` does: a value is recorded
/// as a success, a failure as a failure.
pub open spec fn segment_step(
    a: CacheModel,
    key: CacheKeyView,
    segment: Result<Option<SegmentContentView>, AsyncSegmentFailure>,
    at: u64,
    b: CacheModel,
) -> bool {
    match segment {
        Ok(value) => success_step(a, key, value, at, b),
        Err(AsyncSegmentFailure::Failed) => failure_step(a, key, at, b),
    }
}

/// Whether the `i`-th step of `trace` stores the `i`-th of `segments` at `at`.
pub open spec fn segment_trace_step(trace: Seq<CacheModel>, segments: Seq<AsyncJobSegment>, at: u64, i: int) -> bool {
    segment_step(trace[i], segments[i].key@, segment_outcome(segments[i].content), at, trace[i + 1])
}

/// What storing a finished job does to the cache, from `before` to `after`: each
/// collected segment stored in turn at the job's finishing time; or, when the job
/// panicked, a failure recorded for each key that fails with it and then for its
/// own key.
pub open spec fn job_stored(result: JobResult<AsyncJobSegments>, before: CacheModel, after: CacheModel) -> bool {
    match result.outcome {
        JobOutcome::Completed(s) => exists|trace: Seq<CacheModel>|
            trace.len() == s.segments@.len() + 1 && trace[0] == before && trace.last() == after
                && forall|i: int|
                0 <= i < s.segments@.len() ==> #[trigger] segment_trace_step(
                    trace,
                    s.segments@,
                    result.finished_at,
                    i,
                ),
        JobOutcome::Panicked => exists|trace: Seq<CacheModel>|
            failures_trace(
                trace,
                keys_view(result.fail_keys@).push(result.key@),
                result.finished_at,
                before,
                after,
            ),
    }
}

/// Stores one collected segment: its value, or its failure.
pub fn complete_segment(cache: &mut SegmentCache, key: CacheKey, segment: Result<Option<SegmentContent>, AsyncSegmentFailure>, collected_at: u64)
    requires
        old(cache).wf(),
    ensures
        final(cache).wf(),
        final(cache).capacity() == old(cache).capacity(),
        !final(cache).pending().contains(key@),
        forall|k: CacheKeyView| k != key@ ==> (final(cache).pending().contains(k)
            <==> old(cache).pending().contains(k)),
        segment_step(old(cache).model(), key@, segment_outcome(segment), collected_at, final(cache).model()),
{
    match segment {
        Ok(content) => cache.complete_success(key, content, collected_at),
        Err(AsyncSegmentFailure::Failed) => cache.complete_failure(key, collected_at),
    }
}

/// Stores what a finished job reports: each collected segment, or, when the job
/// panicked, a failure for its key and every key that fails with it.
pub fn complete_job_result(result: JobResult<AsyncJobSegments>, cache: &mut SegmentCache)
    requires
        old(cache).wf(),
    ensures
        final(cache).wf(),
        final(cache).capacity() == old(cache).capacity(),
        match result.outcome {
            JobOutcome::Completed(s) => forall|i: int| 0 <= i < s.segments.len() ==> !final(cache).pending().contains(#[trigger] s.segments@[i].key@),
            JobOutcome::Panicked => !final(cache).pending().contains(result.key@) && forall|i: int| 0 <= i < result.fail_keys.len() ==> !final(cache).pending().contains(#[trigger] result.fail_keys@[i]@),
        },
        job_stored(result, old(cache).model(), final(cache).model()),
{
    let finished_at = result.finished_at;
    match result.outcome {
        JobOutcome::Completed(segments) => {
            let ghost all = segments.segments@;
            let ghost mut trace: Seq<CacheModel> = seq![cache.model()];
            let mut i: usize = 0;
            while i < segments.segments.len()
                invariant
                    i <= segments.segments.len(),
                    all == segments.segments@,
                    cache.wf(),
                    cache.capacity() == old(cache).capacity(),
                    forall|k: int| 0 <= k < i ==> !cache.pending().contains(#[trigger] all[k].key@),
                    trace.len() == i + 1,
                    trace[0] == old(cache).model(),
                    trace.last() == cache.model(),
                    forall|j: int| 0 <= j < i ==> #[trigger] segment_trace_step(trace, all, finished_at, j),
                decreases segments.segments.len() - i,
            {
                let seg = &segments.segments[i];
                let ghost before = cache.pending();
                let ghost prev = trace;
                let copied = copy_result(&seg.content);
                proof {
                    assert(segment_outcome(copied) == segment_outcome(all[i as int].content));
                }
                complete_segment(cache, seg.key.copy(), copied, finished_at);
                proof {
                    trace = prev.push(cache.model());
                    assert(prev[i as int] == prev.last());
                    assert(segment_trace_step(trace, all, finished_at, i as int)) by {
                        assert(trace[i as int] == prev[i as int]);
                        assert(trace[i + 1] == cache.model());
                    }
                    assert forall|j: int| 0 <= j < i + 1 implies #[trigger] segment_trace_step(
                        trace,
                        all,
                        finished_at,
                        j,
                    ) by {
                        if j < i {
                            assert(segment_trace_step(prev, all, finished_at, j));
                            assert(trace[j] == prev[j]);
                            assert(trace[j + 1] == prev[j + 1]);
                        }
                    }
                    assert forall|k: int| 0 <= k < i + 1 implies !cache.pending().contains(#[trigger] all[k].key@) by {
                        if k < i {
                            complete_keeps_absent(before, cache.pending(), all[i as int].key@, all[k].key@);
                        }
                    }
                }
                i += 1;
            }
            proof {
                assert(trace.len() == all.len() + 1 && trace[0] == old(cache).model() && trace.last()
                    == cache.model() && forall|j: int|
                    0 <= j < all.len() ==> #[trigger] segment_trace_step(trace, all, finished_at, j));
            }
        },
        JobOutcome::Panicked => {
            let mut keys: Vec<CacheKey> = Vec::new();
            let mut j: usize = 0;
            while j < result.fail_keys.len()
                invariant
                    j <= result.fail_keys.len(),
                    keys.len() == j,
                    forall|k: int| 0 <= k < j ==> #[trigger] keys@[k]@ == result.fail_keys@[k]@,
                decreases result.fail_keys.len() - j,
            {
                keys.push(result.fail_keys[j].copy());
                j += 1;
            }
            keys.push(result.key.copy());
            let ghost all = keys@;
            let ghost kv = keys_view(result.fail_keys@).push(result.key@);
            proof {
                assert(keys_view(all) =~= kv) by {
                    assert forall|k: int| 0 <= k < all.len() implies keys_view(all)[k] == kv[k] by {
                        if k < result.fail_keys.len() {
                            assert(all[k]@ == result.fail_keys@[k]@);
                        }
                    }
                }
            }
            let ghost mut trace: Seq<CacheModel> = seq![cache.model()];
            let mut i: usize = 0;
            while i < keys.len()
                invariant
                    i <= keys.len(),
                    all == keys@,
                    kv == keys_view(all),
                    cache.wf(),
                    cache.capacity() == old(cache).capacity(),
                    forall|k: int| 0 <= k < i ==> !cache.pending().contains(#[trigger] all[k]@),
                    trace.len() == i + 1,
                    trace[0] == old(cache).model(),
                    trace.last() == cache.model(),
                    forall|j: int| 0 <= j < i ==> #[trigger] failure_trace_step(trace, kv, finished_at, j),
                decreases keys.len() - i,
            {
                let ghost before = cache.pending();
                let ghost prev = trace;
                cache.complete_failure(keys[i].copy(), finished_at);
                proof {
                    trace = prev.push(cache.model());
                    assert(kv[i as int] == all[i as int]@);
                    assert(prev[i as int] == prev.last());
                    assert(failure_trace_step(trace, kv, finished_at, i as int)) by {
                        assert(trace[i as int] == prev[i as int]);
                        assert(trace[i + 1] == cache.model());
                    }
                    assert forall|j: int| 0 <= j < i + 1 implies #[trigger] failure_trace_step(
                        trace,
                        kv,
                        finished_at,
                        j,
                    ) by {
                        if j < i {
                            assert(failure_trace_step(prev, kv, finished_at, j));
                            assert(trace[j] == prev[j]);
                            assert(trace[j + 1] == prev[j + 1]);
                        }
                    }
                    assert forall|k: int| 0 <= k < i + 1 implies !cache.pending().contains(#[trigger] all[k]@) by {
                        if k < i {
                            complete_keeps_absent(before, cache.pending(), all[i as int]@, all[k]@);
                        }
                    }
                }
                i += 1;
            }
            proof {
                assert(all[all.len() - 1]@ == result.key@);
                assert forall|k: int| 0 <= k < result.fail_keys.len() implies !cache.pending().contains(#[trigger] result.fail_keys@[k]@) by {
                    assert(all[k]@ == result.fail_keys@[k]@);
                }
                assert(failures_trace(trace, kv, finished_at, old(cache).model(), cache.model()));
            }
        },
    }
}

proof fn complete_keeps_absent(before: Seq<CacheKeyView>, after: Seq<CacheKeyView>, done: CacheKeyView, k: CacheKeyView)
    requires
        !before.contains(k),
        forall|x: CacheKeyView| x != done ==> (after.contains(x) <==> before.contains(x)),
        !after.contains(done),
    ensures
        !after.contains(k),
{
    if k != done {
    }
}

fn copy_result(r: &Result<Option<SegmentContent>, AsyncSegmentFailure>) -> (c: Result<Option<SegmentContent>, AsyncSegmentFailure>)
    ensures
        match (r, c) {
            (Ok(a), Ok(b)) => content_opt(*a) == content_opt(b),
            (Err(a), Err(b)) => a == b,
            _ => false,
        },
{
    match r {
        Ok(Some(x)) => Ok(Some(x.copy())),
        Ok(None) => Ok(None),
        Err(e) => Err(*e),
    }
}

/// Whether the layout shows segment `id` anywhere.
pub open spec fn uses_segment(config: Config, id: Seq<char>) -> bool {
    let l = config.layout;
    strings_view(l.line1.left@).contains(id) || strings_view(l.line1.right@).contains(id)
        || strings_view(l.line2.left@).contains(id) || strings_view(l.line2.right@).contains(id)
}

fn list_contains(list: &Vec<String>, id: &str) -> (r: bool)
    ensures
        r == strings_view(list@).contains(id@),
{
    let mut i: usize = 0;
    while i < list.len()
        invariant
            i <= list.len(),
            forall|k: int| 0 <= k < i ==> strings_view(list@)[k] != id@,
        decreases list.len() - i,
    {
        if str_eq(list[i].as_str(), id) {
            assert(strings_view(list@)[i as int] == id@);
            return true;
        }
        i += 1;
    }
    false
}

/// Whether the layout shows segment `id` anywhere.
pub fn config_uses_segment(config: &Config, id: &str) -> (r: bool)
    ensures
        r == uses_segment(*config, id@),
{
    list_contains(&config.layout.line1.left, id) || list_contains(&config.layout.line1.right, id)
        || list_contains(&config.layout.line2.left, id) || list_contains(&config.layout.line2.right, id)
}

/// Whether the layout shows any of the segments.
pub fn config_uses_any_segment(config: &Config, ids: &[&str]) -> (r: bool)
    ensures
        r == exists|i: int| 0 <= i < ids@.len() && uses_segment(*config, #[trigger] ids@[i]@),
{
    let mut i: usize = 0;
    while i < ids.len()
        invariant
            i <= ids.len(),
            forall|k: int| 0 <= k < i ==> !uses_segment(*config, #[trigger] ids@[k]@),
        decreases ids.len() - i,
    {
        if config_uses_segment(config, ids[i]) {
            return true;
        }
        i += 1;
    }
    false
}

/// `Partial` while a segment the layout shows is still loading, else `Final`.
pub open spec fn status_of_values(config: Config, values: Seq<(Seq<char>, AsyncValueView)>) -> RenderStatus {
    if exists|i: int| 0 <= i < values.len() && uses_segment(config, #[trigger] values[i].0) && values[i].1 is Loading {
        RenderStatus::Partial
    } else {
        RenderStatus::Final
    }
}

/// Whether a prompt is final, or will be updated when loading segments arrive.
pub fn render_status(config: &Config, async_values: &AsyncSegmentValues) -> (r: RenderStatus)
    ensures
        r == status_of_values(*config, values_view(async_values@)),
{
    let ghost vs = values_view(async_values@);
    let mut i: usize = 0;
    while i < async_values.len()
        invariant
            i <= async_values.len(),
            vs == values_view(async_values@),
            forall|k: int| 0 <= k < i ==> !(uses_segment(*config, #[trigger] vs[k].0) && vs[k].1 is Loading),
        decreases async_values.len() - i,
    {
        let loading = match &async_values[i].1 {
            AsyncValue::Loading => true,
            _ => false,
        };
        assert(vs[i as int].0 == async_values@[i as int].0@);
        if loading && config_uses_segment(config, async_values[i].0.as_str()) {
            assert(uses_segment(*config, vs[i as int].0) && vs[i as int].1 is Loading);
            return RenderStatus::Partial;
        }
        i += 1;
    }
    RenderStatus::Final
}

/// How long the first render waits for async segments.
pub fn initial_wait_ms(config: &Config) -> (r: u64)
    ensures
        r == match config.async_config.initial_wait_ms {
            Some(w) => w,
            None => DEFAULT_INITIAL_WAIT_MS,
        },
{
    match config.async_config.initial_wait_ms {
        Some(w) => w,
        None => DEFAULT_INITIAL_WAIT_MS,
    }
}

/// What to do with a finished job's result now.
pub enum JobHandling {
    /// Hold the result back for this many milliseconds, then hand it in again.
    Deferred { result: JobResult<AsyncJobSegments>, delay_ms: u64 },
    /// The result is stored in the cache.
    Completed,
}

/// Handles a finished job: holds it back while its minimum loading time runs,
/// else stores it.
pub fn handle_job_result(result: JobResult<AsyncJobSegments>, cache: &mut SegmentCache, now: u64) -> (r: JobHandling)
    requires
        old(cache).wf(),
    ensures
        final(cache).wf(),
        match delay_of(outcome_until(result), now) {
            Some(d) => r matches JobHandling::Deferred { result: held, delay_ms } && delay_ms == d
                && held == result && final(cache).stored() == old(cache).stored()
                && final(cache).pending() == old(cache).pending(),
            None => r is Completed && job_stored(result, old(cache).model(), final(cache).model()),
        },
{
    match job_result_delay(&result, now) {
        Some(delay_ms) => JobHandling::Deferred { result, delay_ms },
        None => {
            complete_job_result(result, cache);
            JobHandling::Completed
        },
    }
}

} // verus!
