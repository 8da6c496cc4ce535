//! The worker's state between requests: the configuration it renders with, and the
//! prompt it last answered.
//!
//! Probing and reading the configuration file, and writing records, are done by the
//! caller; the decisions between those steps are made here.

use vstd::prelude::*;

use crate::cache::SegmentCache;
use crate::config::error::{ConfigError, ConfigWarning, ConfigWarningView};
use crate::config::load::{same_snapshot, ConfigSnapshot, ConfigSource};
use crate::config::warnings::{config_warnings, warnings_view};
use crate::config::{
    default_line1_left, opt_view, pairs_view, strings_view, Config, SegmentConfig,
    SegmentConfigView, StyleConfig,
};
use crate::render::{
    lowered_prompt, rendered_of, render_with_async, separator_of, values_view, LoweredPrompt,
    LoweredPromptView,
};
use crate::segments::asynchronous::{all_async_segments, WorkspaceProbe};
use crate::state::PromptState;
use crate::text::{copy_str, str_eq};
use crate::worker::protocol::{RenderRequest, RenderStatus, WorkerRecord, WorkerRecordView};
use crate::worker::refresh::{async_values, segments_values};
use crate::worker::{render_status, status_of_values};

verus! {

// ---------------------------------------------------------------------------
// Comparing configurations
// ---------------------------------------------------------------------------

/// The segment tables of a configuration, as values.
pub open spec fn segments_view(v: Seq<(String, SegmentConfig)>) -> Seq<(Seq<char>, SegmentConfigView)> {
    Seq::new(v.len(), |i: int| (v[i].0@, v[i].1@))
}

/// Whether two configurations say the same; the keys that were not understood do not
/// count.
pub open spec fn same_config(a: Config, b: Config) -> bool {
    &&& a.async_config == b.async_config
    &&& a.layout.lines == b.layout.lines
    &&& opt_view(a.layout.separator) == opt_view(b.layout.separator)
    &&& strings_view(a.layout.line1.left@) == strings_view(b.layout.line1.left@)
    &&& strings_view(a.layout.line1.right@) == strings_view(b.layout.line1.right@)
    &&& strings_view(a.layout.line2.left@) == strings_view(b.layout.line2.left@)
    &&& strings_view(a.layout.line2.right@) == strings_view(b.layout.line2.right@)
    &&& segments_view(a.segments@) == segments_view(b.segments@)
}

fn opt_same(a: &Option<String>, b: &Option<String>) -> (r: bool)
    ensures
        r == (opt_view(*a) == opt_view(*b)),
{
    match (a, b) {
        (Some(x), Some(y)) => str_eq(x.as_str(), y.as_str()),
        (None, None) => true,
        _ => false,
    }
}

fn strings_same(a: &Vec<String>, b: &Vec<String>) -> (r: bool)
    ensures
        r == (strings_view(a@) == strings_view(b@)),
{
    if a.len() != b.len() {
        assert(strings_view(a@).len() != strings_view(b@).len());
        return false;
    }
    let mut i: usize = 0;
    while i < a.len()
        invariant
            i <= a.len(),
            a.len() == b.len(),
            forall|k: int| 0 <= k < i ==> #[trigger] strings_view(a@)[k] == strings_view(b@)[k],
        decreases a.len() - i,
    {
        if !str_eq(a[i].as_str(), b[i].as_str()) {
            assert(strings_view(a@)[i as int] != strings_view(b@)[i as int]);
            return false;
        }
        i += 1;
    }
    assert(strings_view(a@) =~= strings_view(b@));
    true
}

fn pairs_same(a: &Vec<(String, String)>, b: &Vec<(String, String)>) -> (r: bool)
    ensures
        r == (pairs_view(a@) == pairs_view(b@)),
{
    if a.len() != b.len() {
        assert(pairs_view(a@).len() != pairs_view(b@).len());
        return false;
    }
    let mut i: usize = 0;
    while i < a.len()
        invariant
            i <= a.len(),
            a.len() == b.len(),
            forall|k: int| 0 <= k < i ==> #[trigger] pairs_view(a@)[k] == pairs_view(b@)[k],
        decreases a.len() - i,
    {
        if !(str_eq(a[i].0.as_str(), b[i].0.as_str()) && str_eq(a[i].1.as_str(), b[i].1.as_str())) {
            assert(pairs_view(a@)[i as int] != pairs_view(b@)[i as int]);
            return false;
        }
        i += 1;
    }
    assert(pairs_view(a@) =~= pairs_view(b@));
    true
}

fn style_same(a: &StyleConfig, b: &StyleConfig) -> (r: bool)
    ensures
        r == (a@ == b@),
{
    opt_same(&a.fg, &b.fg) && opt_same(&a.bg, &b.bg) && a.bold == b.bold
}

fn segment_same(a: &SegmentConfig, b: &SegmentConfig) -> (r: bool)
    ensures
        r == (a@ == b@),
{
    opt_same(&a.character, &b.character) && pairs_same(&a.characters, &b.characters) && opt_same(
        &a.icon,
        &b.icon,
    ) && pairs_same(&a.icons, &b.icons) && opt_same(&a.loading, &b.loading) && a.max_components
        == b.max_components && a.min_ms == b.min_ms && a.min_loading_ms == b.min_loading_ms
        && a.force_display == b.force_display && opt_same(&a.format, &b.format) && opt_same(
        &a.prefix,
        &b.prefix,
    ) && opt_same(&a.separator, &b.separator) && a.show_counts == b.show_counts && a.ttl_ms
        == b.ttl_ms && a.timeout_ms == b.timeout_ms && style_same(&a.style, &b.style) && style_same(
        &a.error_style,
        &b.error_style,
    ) && style_same(&a.prefix_style, &b.prefix_style)
}

fn segments_same(a: &Vec<(String, SegmentConfig)>, b: &Vec<(String, SegmentConfig)>) -> (r: bool)
    ensures
        r == (segments_view(a@) == segments_view(b@)),
{
    if a.len() != b.len() {
        assert(segments_view(a@).len() != segments_view(b@).len());
        return false;
    }
    let mut i: usize = 0;
    while i < a.len()
        invariant
            i <= a.len(),
            a.len() == b.len(),
            forall|k: int| 0 <= k < i ==> #[trigger] segments_view(a@)[k] == segments_view(b@)[k],
        decreases a.len() - i,
    {
        if !(str_eq(a[i].0.as_str(), b[i].0.as_str()) && segment_same(&a[i].1, &b[i].1)) {
            assert(segments_view(a@)[i as int] != segments_view(b@)[i as int]);
            return false;
        }
        i += 1;
    }
    assert(segments_view(a@) =~= segments_view(b@));
    true
}

/// Whether two configurations say the same, the keys that were not understood aside.
pub fn config_same(a: &Config, b: &Config) -> (r: bool)
    ensures
        r == same_config(*a, *b),
{
    a.async_config.initial_wait_ms == b.async_config.initial_wait_ms
        && a.async_config.min_loading_ms == b.async_config.min_loading_ms && a.layout.lines
        == b.layout.lines && opt_same(&a.layout.separator, &b.layout.separator) && strings_same(
        &a.layout.line1.left,
        &b.layout.line1.left,
    ) && strings_same(&a.layout.line1.right, &b.layout.line1.right) && strings_same(
        &a.layout.line2.left,
        &b.layout.line2.left,
    ) && strings_same(&a.layout.line2.right, &b.layout.line2.right) && segments_same(
        &a.segments,
        &b.segments,
    )
}

// ---------------------------------------------------------------------------
// Configuration state
// ---------------------------------------------------------------------------

/// Where the worker's configuration comes from, the snapshot it was last read at,
/// the configuration itself, and its generation (which changes whenever the
/// configuration does, and is part of every cache key).
pub struct ConfigState {
    pub source: ConfigSource,
    pub snapshot: Option<ConfigSnapshot>,
    pub config: Config,
    pub generation: u64,
}

/// Whether a configuration says what the built-in defaults say.
pub open spec fn is_default_config(c: Config) -> bool {
    &&& c.async_config.initial_wait_ms is None
    &&& c.async_config.min_loading_ms is None
    &&& c.layout.lines == 2
    &&& c.layout.separator is None
    &&& strings_view(c.layout.line1.left@) == default_line1_left()
    &&& strings_view(c.layout.line1.right@) == seq!["time"@]
    &&& strings_view(c.layout.line2.left@) == seq!["exit_status"@, "prompt_char"@]
    &&& strings_view(c.layout.line2.right@).len() == 0
    &&& c.segments@.len() == 0
}

/// The generation after a configuration is replaced: one more, stopping at the
/// largest.
pub open spec fn next_generation(g: u64) -> u64 {
    if g < u64::MAX {
        (g + 1) as u64
    } else {
        g
    }
}

proof fn lemma_same_as_default(a: Config, d: Config)
    requires
        is_default_config(d),
    ensures
        same_config(a, d) <==> is_default_config(a),
{
    if is_default_config(a) {
        assert(strings_view(a.layout.line2.right@) =~= strings_view(d.layout.line2.right@));
        assert(segments_view(a.segments@) =~= segments_view(d.segments@));
    }
    if same_config(a, d) {
        assert(segments_view(a.segments@).len() == segments_view(d.segments@).len());
    }
}

proof fn lemma_same_reflexive(a: Config)
    ensures
        same_config(a, a),
{
}

/// What to do next while loading the configuration.
pub enum ConfigLoadStep {
    /// The configuration is settled; `report` is an error to show the user, if any.
    Done { generation: u64, report: Option<ConfigError> },
    /// Read the configuration at this snapshot (its `read_path`, or the defaults when
    /// it has none) and hand the outcome to `finish_config_load`.
    Read { snapshot: ConfigSnapshot },
}

impl ConfigState {
    /// The state before anything was read: the built-in defaults, generation 0.
    pub fn new(source: ConfigSource) -> (r: ConfigState)
        ensures
            r.source == source,
            r.snapshot is None,
            r.generation == 0,
            is_default_config(r.config),
    {
        ConfigState { source, snapshot: None, config: Config::default(), generation: 0 }
    }

    /// Puts `config` in place; the generation moves on when it says something new.
    pub fn replace_config(&mut self, config: Config)
        ensures
            final(self).source == old(self).source,
            final(self).snapshot == old(self).snapshot,
            same_config(old(self).config, config) ==> final(self).config == old(self).config
                && final(self).generation == old(self).generation,
            !same_config(old(self).config, config) ==> final(self).config == config
                && final(self).generation == next_generation(old(self).generation),
    {
        if !config_same(&self.config, &config) {
            self.generation = if self.generation < u64::MAX {
                self.generation + 1
            } else {
                self.generation
            };
            self.config = config;
        }
    }
}

/// Whether an error is to be shown: only the first one is.
fn first_report(warned: &mut bool, error: ConfigError) -> (r: Option<ConfigError>)
    ensures
        *final(warned),
        !*old(warned) ==> r == Some(error),
        *old(warned) ==> r is None,
{
    if *warned {
        None
    } else {
        *warned = true;
        Some(error)
    }
}

/// What one start of settling the configuration does, from `before` (with the
/// error already reported or not) to `after`, given the probe of the file.
pub open spec fn begin_load(
    before: ConfigState,
    warned_before: bool,
    probe: Result<ConfigSnapshot, ConfigError>,
    after: ConfigState,
    warned_after: bool,
    r: ConfigLoadStep,
) -> bool {
    &&& (after.source == before.source)
    &&& (match probe {
        Err(e) => {
            &&& after.snapshot == before.snapshot
            &&& !is_default_config(before.config) ==> after.generation == next_generation(before.generation)
            &&& is_default_config(before.config) ==> after.generation == before.generation
            &&& is_default_config(after.config)
            &&& warned_after
            &&& r matches ConfigLoadStep::Done { generation, report } && generation == after.generation && (!warned_before ==> report == Some(e)) && (warned_before ==> report is None)
        },
        Ok(s) => if before.snapshot matches Some(current) && same_snapshot(current, s) {
            &&& after.snapshot == before.snapshot
            &&& after.config == before.config
            &&& after.generation == before.generation
            &&& warned_after == warned_before
            &&& r matches ConfigLoadStep::Done { generation, report } && generation == before.generation && report is None
        } else {
            &&& after.snapshot == before.snapshot
            &&& after.config == before.config
            &&& after.generation == before.generation
            &&& warned_after == warned_before
            &&& r == ConfigLoadStep::Read { snapshot: s }
        },
    })
}

/// The first step of settling the configuration for a request, given what probing
/// the configuration file gave. When probing failed, the defaults are used and the
/// error is reported (once); when the snapshot is the one last read, nothing
/// changes; otherwise the file is to be read.
pub fn begin_config_load(
    state: &mut ConfigState,
    warned_error: &mut bool,
    probe: Result<ConfigSnapshot, ConfigError>,
) -> (r: ConfigLoadStep)
    ensures
        begin_load(*old(state), *old(warned_error), probe, *final(state), *final(warned_error), r),

{
    match probe {
        Err(e) => {
            let report = first_report(warned_error, e);
            let d = Config::default();
            proof {
                lemma_same_as_default(state.config, d);
            }
            state.replace_config(d);
            ConfigLoadStep::Done { generation: state.generation, report }
        },
        Ok(s) => {
            let unchanged = match &state.snapshot {
                Some(current) => current.same_as(&s),
                None => false,
            };
            if unchanged {
                ConfigLoadStep::Done { generation: state.generation, report: None }
            } else {
                ConfigLoadStep::Read { snapshot: s }
            }
        },
    }
}

/// What the last step of settling the configuration does, from `before` to
/// `after`, given what reading the file at `snapshot` gave.
pub open spec fn finish_load(
    before: ConfigState,
    warned_before: bool,
    snapshot: ConfigSnapshot,
    loaded: Result<Config, ConfigError>,
    after: ConfigState,
    warned_after: bool,
    r: (u64, Option<ConfigError>),
) -> bool {
    &&& after.source == before.source
    &&& after.snapshot == Some(snapshot)
    &&& r.0 == after.generation
    &&& match loaded {
        Ok(c) => {
            &&& same_config(after.config, c)
            &&& (same_config(before.config, c) ==> after.generation == before.generation)
            &&& (!same_config(before.config, c) ==> after.generation == next_generation(before.generation))
            &&& warned_after == warned_before
            &&& r.1 is None
        },
        Err(e) => {
            &&& is_default_config(after.config)
            &&& (is_default_config(before.config) ==> after.generation == before.generation)
            &&& (!is_default_config(before.config) ==> after.generation == next_generation(before.generation))
            &&& warned_after
            &&& (!warned_before ==> r.1 == Some(e))
            &&& (warned_before ==> r.1 is None)
        },
    }
}

/// One reload, as the worker runs it before each prompt: the probe of the file goes
/// to `begin_config_load`, and where that asks for a read, what reading gave goes
/// to `finish_config_load` (otherwise the state stays as `begin_config_load` left
/// it). Across the reload, a snapshot equal to the one last read keeps the
/// configuration and its generation; and in every case the generation stays exactly
/// when the configuration the worker ends with says what it said before, and
/// otherwise moves on by one.
pub proof fn law_reload(
    s0: ConfigState,
    w0: bool,
    probe: Result<ConfigSnapshot, ConfigError>,
    s1: ConfigState,
    w1: bool,
    step: ConfigLoadStep,
    loaded: Result<Config, ConfigError>,
    s2: ConfigState,
    w2: bool,
    finished: (u64, Option<ConfigError>),
)
    requires
        begin_load(s0, w0, probe, s1, w1, step),
        step matches ConfigLoadStep::Read { snapshot } ==> finish_load(
            s1,
            w1,
            snapshot,
            loaded,
            s2,
            w2,
            finished,
        ),
        step is Done ==> s2 == s1,
    ensures
        (probe matches Ok(snap) && s0.snapshot matches Some(cur) && same_snapshot(cur, snap))
            ==> s2.config == s0.config && s2.generation == s0.generation,
        same_config(s0.config, s2.config) ==> s2.generation == s0.generation,
        !same_config(s0.config, s2.config) ==> s2.generation == next_generation(s0.generation),
{
    lemma_same_reflexive(s0.config);
    match probe {
        Err(e) => {
            lemma_same_as_default(s0.config, s1.config);
        },
        Ok(snap) => {
            if let ConfigLoadStep::Read { snapshot } = step {
                match loaded {
                    Ok(c) => {},
                    Err(e) => {
                        lemma_same_as_default(s0.config, s2.config);
                    },
                }
            }
        },
    }
}

/// The last step of settling the configuration: what reading it at `snapshot` gave.
/// A failed read falls back to the defaults and is reported (once). The
/// configuration is put in place, and the snapshot recorded.
pub fn finish_config_load(
    state: &mut ConfigState,
    warned_error: &mut bool,
    snapshot: ConfigSnapshot,
    loaded: Result<Config, ConfigError>,
) -> (r: (u64, Option<ConfigError>))
    ensures
        finish_load(*old(state), *old(warned_error), snapshot, loaded, *final(state), *final(warned_error), r),
{
    let (config, report) = match loaded {
        Ok(c) => (c, None),
        Err(e) => (Config::default(), first_report(warned_error, e)),
    };
    proof {
        lemma_same_reflexive(config);
        if loaded is Err {
            lemma_same_as_default(state.config, config);
        }
    }
    let ghost before = state.config;
    state.replace_config(config);
    proof {
        if same_config(before, config) {
            assert(state.config == before);
        }
    }
    state.snapshot = Some(snapshot);
    (state.generation, report)
}

// ---------------------------------------------------------------------------
// Warnings shown once
// ---------------------------------------------------------------------------

/// The warnings of `all` not in `shown`, in order, each once.
pub open spec fn unseen(all: Seq<ConfigWarningView>, shown: Seq<ConfigWarningView>) -> Seq<
    ConfigWarningView,
>
    decreases all.len(),
{
    if all.len() == 0 {
        seq![]
    } else {
        let before = unseen(all.drop_last(), shown);
        if shown.contains(all.last()) || before.contains(all.last()) {
            before
        } else {
            before.push(all.last())
        }
    }
}

fn warning_same(a: &ConfigWarning, b: &ConfigWarning) -> (r: bool)
    ensures
        r == (a@ == b@),
{
    match (a, b) {
        (ConfigWarning::UnknownKey { location: x }, ConfigWarning::UnknownKey { location: y }) => str_eq(
            x.as_str(),
            y.as_str(),
        ),
        (
            ConfigWarning::UnknownSegmentTable { segment: x },
            ConfigWarning::UnknownSegmentTable { segment: y },
        ) => str_eq(x.as_str(), y.as_str()),
        (
            ConfigWarning::UnknownLayoutSegment { location: x, segment: s },
            ConfigWarning::UnknownLayoutSegment { location: y, segment: t },
        ) => str_eq(x.as_str(), y.as_str()) && str_eq(s.as_str(), t.as_str()),
        (
            ConfigWarning::InvalidColor { location: x, color: s },
            ConfigWarning::InvalidColor { location: y, color: t },
        ) => str_eq(x.as_str(), y.as_str()) && str_eq(s.as_str(), t.as_str()),
        _ => false,
    }
}

fn contains_warning(list: &Vec<ConfigWarning>, w: &ConfigWarning) -> (r: bool)
    ensures
        r == warnings_view(list@).contains(w@),
{
    let mut i: usize = 0;
    while i < list.len()
        invariant
            i <= list.len(),
            forall|k: int| 0 <= k < i ==> #[trigger] warnings_view(list@)[k] != w@,
        decreases list.len() - i,
    {
        if warning_same(&list[i], w) {
            assert(warnings_view(list@)[i as int] == w@);
            return true;
        }
        i += 1;
    }
    false
}

/// The warnings of `config` not shown yet, each once; they are added to `shown`.
pub fn new_warnings(shown: &mut Vec<ConfigWarning>, config: &Config, known_segment_ids: &[&str]) -> (r: Vec<
    ConfigWarning,
>)
    ensures
        warnings_view(r@) == unseen(config_warnings(*config, known_segment_ids@), warnings_view(
            old(shown)@,
        )),
        warnings_view(final(shown)@) == warnings_view(old(shown)@) + warnings_view(r@),
{
    let all = config.warnings(known_segment_ids);
    let ghost before = warnings_view(shown@);
    let mut fresh: Vec<ConfigWarning> = Vec::new();
    let mut i: usize = 0;
    assert(warnings_view(all@).take(0) =~= Seq::<ConfigWarningView>::empty());
    while i < all.len()
        invariant
            i <= all.len(),
            warnings_view(fresh@) == unseen(warnings_view(all@).take(i as int), before),
            warnings_view(shown@) == before + warnings_view(fresh@),
        decreases all.len() - i,
    {
        let w = &all[i];
        assert(warnings_view(all@).take(i + 1).drop_last() =~= warnings_view(all@).take(i as int));
        assert(warnings_view(all@).take(i + 1).last() == w@);
        let seen = contains_warning(shown, w);
        proof {
            let f = warnings_view(fresh@);
            if before.contains(w@) || f.contains(w@) {
                if before.contains(w@) {
                    let k = choose|k: int| 0 <= k < before.len() && before[k] == w@;
                    assert(warnings_view(shown@)[k] == w@);
                } else {
                    let k = choose|k: int| 0 <= k < f.len() && f[k] == w@;
                    assert(warnings_view(shown@)[before.len() + k] == w@);
                }
            }
            if warnings_view(shown@).contains(w@) {
                let k = choose|k: int| 0 <= k < warnings_view(shown@).len() && warnings_view(shown@)[k] == w@;
                if k < before.len() {
                    assert(before[k] == w@);
                } else {
                    assert(f[k - before.len()] == w@);
                }
            }
        }
        if !seen {
            let ghost f0 = warnings_view(fresh@);
            let ghost s0 = warnings_view(shown@);
            let a = copy_warning(w);
            let b = copy_warning(w);
            fresh.push(a);
            shown.push(b);
            assert(warnings_view(fresh@) =~= f0.push(w@));
            assert(warnings_view(shown@) =~= s0.push(w@));
        }
        i += 1;
    }
    assert(warnings_view(all@).take(i as int) =~= warnings_view(all@));
    fresh
}

fn copy_warning(w: &ConfigWarning) -> (r: ConfigWarning)
    ensures
        r@ == w@,
{
    match w {
        ConfigWarning::UnknownKey { location } => ConfigWarning::UnknownKey {
            location: copy_str(location.as_str()),
        },
        ConfigWarning::UnknownSegmentTable { segment } => ConfigWarning::UnknownSegmentTable {
            segment: copy_str(segment.as_str()),
        },
        ConfigWarning::UnknownLayoutSegment { location, segment } => ConfigWarning::UnknownLayoutSegment {
            location: copy_str(location.as_str()),
            segment: copy_str(segment.as_str()),
        },
        ConfigWarning::InvalidColor { location, color } => ConfigWarning::InvalidColor {
            location: copy_str(location.as_str()),
            color: copy_str(color.as_str()),
        },
    }
}

// ---------------------------------------------------------------------------
// Answering and updating prompts
// ---------------------------------------------------------------------------

/// The prompt the worker answered last: updates are written for it while its
/// segments arrive.
pub struct ActivePrompt {
    pub generation: u64,
    pub state: PromptState,
    pub config: Config,
    pub config_generation: u64,
    pub output: LoweredPrompt,
}

fn copy_lowered(p: &LoweredPrompt) -> (r: LoweredPrompt)
    ensures
        r@ == p@,
{
    LoweredPrompt { prompt: copy_str(p.prompt.as_str()), rprompt: copy_str(p.rprompt.as_str()) }
}

/// The prompt for `state` with the async segments as the cache holds them now.
pub open spec fn prompt_now(
    state: PromptState,
    probe: WorkspaceProbe,
    config: Config,
    config_generation: u64,
    stored: Seq<(crate::cache::CacheKeyView, crate::cache::CacheEntryView)>,
    now: u64,
) -> LoweredPromptView {
    lowered_prompt(
        rendered_of(
            config,
            state@,
            Some(segments_values(all_async_segments(), stored, state@, probe, config, config_generation, now)),
        ),
        state.columns as nat,
        separator_of(config),
    )
}

/// Whether that prompt is final.
pub open spec fn status_now(
    state: PromptState,
    probe: WorkspaceProbe,
    config: Config,
    config_generation: u64,
    stored: Seq<(crate::cache::CacheKeyView, crate::cache::CacheEntryView)>,
    now: u64,
) -> RenderStatus {
    status_of_values(
        config,
        segments_values(all_async_segments(), stored, state@, probe, config, config_generation, now),
    )
}

/// The answer to a render request: the prompt with the cached async values, and
/// whether more is coming. The second value is the prompt again, for the active
/// prompt the answer leaves behind.
pub fn answer_render(
    request: &RenderRequest,
    config: &Config,
    config_generation: u64,
    cache: &mut SegmentCache,
    probe: &WorkspaceProbe,
    now: u64,
) -> (r: (WorkerRecord, LoweredPrompt))
    requires
        old(cache).wf(),
    ensures
        final(cache).wf(),
        final(cache).stored() == old(cache).stored(),
        final(cache).pending() == old(cache).pending(),
        final(cache).capacity() == old(cache).capacity(),
        r.0@ == (WorkerRecordView::Prompt {
            generation: request.generation,
            status: status_now(request.state, *probe, *config, config_generation, old(cache).stored(), now),
            output: prompt_now(request.state, *probe, *config, config_generation, old(cache).stored(), now),
        }),
        r.1@ == prompt_now(request.state, *probe, *config, config_generation, old(cache).stored(), now),
{
    let values = async_values(cache, &request.state, probe, config, config_generation, now);
    let output = render_with_async(config, &request.state, &values);
    let status = render_status(config, &values);
    let kept = copy_lowered(&output);
    (WorkerRecord::Prompt { generation: request.generation, status, output }, kept)
}

/// The update for the active prompt once new values arrived: `None` when there is no
/// active prompt or it would not change; otherwise the prompt is written again and
/// remembered.
pub fn update_if_active(
    active: &mut Option<ActivePrompt>,
    cache: &mut SegmentCache,
    probe: &WorkspaceProbe,
    now: u64,
) -> (r: Option<WorkerRecord>)
    requires
        old(cache).wf(),
    ensures
        final(cache).wf(),
        final(cache).stored() == old(cache).stored(),
        final(cache).pending() == old(cache).pending(),
        final(cache).capacity() == old(cache).capacity(),
        match *old(active) {
            None => r is None && *final(active) is None,
            Some(a) => {
                let p = prompt_now(a.state, *probe, a.config, a.config_generation, old(cache).stored(), now);
                &&& *final(active) matches Some(b)
                &&& b.generation == a.generation && b.state == a.state && b.config == a.config
                    && b.config_generation == a.config_generation
                &&& if p == a.output@ {
                    r is None && b.output@ == a.output@
                } else {
                    &&& r matches Some(rec)
                    &&& rec@ == (WorkerRecordView::Update {
                        generation: a.generation,
                        status: status_now(a.state, *probe, a.config, a.config_generation, old(cache).stored(), now),
                        output: p,
                    })
                    &&& b.output@ == p
                }
            },
        },
{
    match active {
        None => None,
        Some(a) => {
            let values = async_values(cache, &a.state, probe, &a.config, a.config_generation, now);
            let output = render_with_async(&a.config, &a.state, &values);
            if str_eq(output.prompt.as_str(), a.output.prompt.as_str()) && str_eq(
                output.rprompt.as_str(),
                a.output.rprompt.as_str(),
            ) {
                return None;
            }
            let status = render_status(&a.config, &values);
            a.output = copy_lowered(&output);
            Some(WorkerRecord::Update { generation: a.generation, status, output })
        },
    }
}

} // verus!
