use nova::cache::{AsyncValue, CacheKey, SegmentCache};
use nova::config::error::{ConfigError, ConfigWarning};
use nova::config::load::{ConfigFingerprint, ConfigSnapshot, ConfigSource};
use nova::config::{AsyncConfig, Config, LineConfig, SegmentConfig, DEFAULT_MIN_LOADING_MS};
use nova::render::render_with_async;
use nova::segments::asynchronous::{
    async_segments, known_segment_ids, AsyncSegment, RustSegment, WorkspaceProbe,
};
use nova::segments::workspace::{path_ancestors, path_parent_of, DirEntry};
use nova::segments::SegmentContent;
use nova::state::{Keymap, PromptEnv, PromptState};
use nova::worker::jobs::{JobOutcome, JobResult};
use nova::worker::protocol::{
    decode_worker_record, encode_worker_record, RenderRequest, RenderStatus, WorkerRecord,
    RECORD_SEPARATOR,
};
use nova::worker::refresh::{abandon_refresh, async_values, plan_async_refreshes};
use nova::worker::session::{
    answer_render, begin_config_load, finish_config_load, new_warnings, update_if_active,
    ActivePrompt, ConfigLoadStep, ConfigState,
};
use nova::worker::{
    handle_job_result, job_result_delay, render_status, segment_min_loading,
    segment_min_loading_until, segment_timeout, segment_ttl, AsyncJobSegment, AsyncJobSegments,
    JobHandling, WorkerError,
};

const NOW: u64 = 5_000_000;

fn min_loading_config(ms: u64) -> Config {
    Config {
        async_config: AsyncConfig {
            min_loading_ms: Some(ms),
            ..AsyncConfig::default()
        },
        ..Config::default()
    }
}

fn rust_key() -> CacheKey {
    CacheKey::new("rust_version", "/repo", 1)
}

fn completed(min_loading_until: u64, segments: Vec<AsyncJobSegment>) -> JobResult<AsyncJobSegments> {
    JobResult {
        generation: 1,
        key: rust_key(),
        fail_keys: vec![rust_key()],
        started_at: NOW,
        finished_at: NOW,
        outcome: JobOutcome::Completed(AsyncJobSegments {
            min_loading_until,
            segments,
        }),
    }
}

#[test]
fn segment_timeout_uses_configured_milliseconds() {
    let config = SegmentConfig {
        timeout_ms: Some(2_500),
        ..SegmentConfig::default()
    };

    assert_eq!(segment_timeout(&config, 1_000), 2_500);
}

#[test]
fn segment_timeout_ignores_zero_overrides() {
    let config = SegmentConfig {
        timeout_ms: Some(0),
        ..SegmentConfig::default()
    };

    assert_eq!(segment_timeout(&config, 1_000), 1_000);
}

#[test]
fn segment_ttl_uses_configured_milliseconds() {
    let config = SegmentConfig {
        ttl_ms: Some(2_500),
        ..SegmentConfig::default()
    };

    assert_eq!(segment_ttl(&config, 1_000), 2_500);
}

#[test]
fn segment_ttl_allows_zero_overrides() {
    let config = SegmentConfig {
        ttl_ms: Some(0),
        ..SegmentConfig::default()
    };

    assert_eq!(segment_ttl(&config, 1_000), 0);
}

#[test]
fn segment_min_loading_uses_global_config() {
    assert_eq!(
        segment_min_loading(&min_loading_config(250), &SegmentConfig::default()),
        250
    );
}

#[test]
fn segment_min_loading_uses_builtin_default() {
    assert_eq!(
        segment_min_loading(&Config::default(), &SegmentConfig::default()),
        DEFAULT_MIN_LOADING_MS
    );
}

#[test]
fn segment_min_loading_prefers_segment_config() {
    let segment_config = SegmentConfig {
        min_loading_ms: Some(75),
        ..SegmentConfig::default()
    };

    assert_eq!(
        segment_min_loading(&min_loading_config(250), &segment_config),
        75
    );
}

#[test]
fn segment_min_loading_allows_zero_segment_override() {
    let segment_config = SegmentConfig {
        min_loading_ms: Some(0),
        ..SegmentConfig::default()
    };

    assert_eq!(segment_min_loading(&min_loading_config(250), &segment_config), 0);
}

#[test]
fn segment_min_loading_until_waits_for_missing_cache_entry() {
    let cache = SegmentCache::new(4);

    assert_eq!(
        segment_min_loading_until(&cache, &rust_key(), &min_loading_config(40), "rust_version", NOW),
        NOW + 40
    );
}

#[test]
fn segment_min_loading_until_does_not_wait_for_cached_entry() {
    let mut cache = SegmentCache::new(4);
    cache.complete_success(
        rust_key(),
        Some(SegmentContent::new("rust_version", "1.96.1", Default::default())),
        NOW - 60_000,
    );

    assert_eq!(
        segment_min_loading_until(&cache, &rust_key(), &min_loading_config(40), "rust_version", NOW),
        NOW
    );
}

#[test]
fn segment_min_loading_until_stops_at_the_latest_time() {
    let cache = SegmentCache::new(4);

    assert_eq!(
        segment_min_loading_until(&cache, &rust_key(), &min_loading_config(40), "rust_version", u64::MAX - 10),
        u64::MAX
    );
}

#[test]
fn job_result_delay_waits_until_min_loading_deadline() {
    assert_eq!(job_result_delay(&completed(NOW + 10, Vec::new()), NOW), Some(10));
}

#[test]
fn job_result_delay_only_waits_for_remaining_min_loading_time() {
    let started_at = NOW;
    let finished_at = started_at + 6;
    let mut result = completed(started_at + 10, Vec::new());
    result.finished_at = finished_at;

    assert_eq!(job_result_delay(&result, finished_at), Some(4));
}

#[test]
fn job_result_delay_is_none_when_job_exceeds_min_loading_time() {
    let started_at = NOW;
    let finished_at = started_at + 15;
    let mut result = completed(started_at + 10, Vec::new());
    result.finished_at = finished_at;

    assert_eq!(job_result_delay(&result, finished_at), None);
}

#[test]
fn job_result_delay_is_none_after_min_loading_deadline() {
    assert_eq!(job_result_delay(&completed(NOW, Vec::new()), NOW), None);
}

#[test]
fn job_result_delay_is_none_for_panicked_jobs() {
    let result: JobResult<AsyncJobSegments> = JobResult {
        generation: 1,
        key: rust_key(),
        fail_keys: vec![rust_key()],
        started_at: NOW,
        finished_at: NOW,
        outcome: JobOutcome::Panicked,
    };

    assert_eq!(job_result_delay(&result, NOW), None);
}

#[test]
fn handle_job_result_defers_completion_until_min_loading_deadline() {
    let key = rust_key();
    let result = completed(
        NOW + 5,
        vec![AsyncJobSegment {
            key: key.clone(),
            content: Ok(Some(SegmentContent::new(
                "rust_version",
                "1.96.1",
                Default::default(),
            ))),
        }],
    );
    let mut cache = SegmentCache::new(4);

    let handling = handle_job_result(result, &mut cache, NOW);

    assert_eq!(cache.lookup(&key, NOW, 1_000), AsyncValue::Loading);
    let JobHandling::Deferred { result: deferred, delay_ms } = handling else {
        panic!("expected deferred job result");
    };
    assert_eq!(deferred.key, key);
    assert_eq!(delay_ms, 5);

    let handling = handle_job_result(deferred, &mut cache, NOW + 5);
    assert!(matches!(handling, JobHandling::Completed));
    assert_eq!(
        cache.lookup(&key, NOW + 5, 1_000),
        AsyncValue::Ready(Some(SegmentContent::new(
            "rust_version",
            "1.96.1",
            Default::default()
        )))
    );
}

#[test]
fn panicked_jobs_fail_their_key_and_every_fail_key() {
    let branch = CacheKey::new("git_branch", "/repo", 1);
    let status = CacheKey::new("git_status", "/repo", 1);
    let result: JobResult<AsyncJobSegments> = JobResult {
        generation: 1,
        key: status.clone(),
        fail_keys: vec![branch.clone()],
        started_at: NOW,
        finished_at: NOW,
        outcome: JobOutcome::Panicked,
    };
    let mut cache = SegmentCache::new(4);
    cache.mark_inflight(status.clone());
    cache.mark_inflight(branch.clone());

    assert!(matches!(handle_job_result(result, &mut cache, NOW), JobHandling::Completed));
    assert!(!cache.is_inflight(&status));
    assert!(!cache.is_inflight(&branch));
    assert_eq!(cache.lookup(&status, NOW, 1_000), AsyncValue::Failed);
    assert_eq!(cache.lookup(&branch, NOW, 1_000), AsyncValue::Failed);
}

fn values(items: Vec<(&str, AsyncValue)>) -> Vec<(String, AsyncValue)> {
    items
        .into_iter()
        .map(|(id, value)| (id.to_string(), value))
        .collect()
}

#[test]
fn render_status_is_final_when_no_async_values_are_applicable() {
    assert_eq!(render_status(&Config::default(), &Vec::new()), RenderStatus::Final);
}

#[test]
fn render_status_is_partial_when_async_values_are_loading() {
    let values = values(vec![
        ("git_branch", AsyncValue::Failed),
        ("git_status", AsyncValue::Loading),
        ("rust_version", AsyncValue::Failed),
    ]);
    assert_eq!(render_status(&Config::default(), &values), RenderStatus::Partial);
}

#[test]
fn render_status_is_final_when_async_values_are_stale() {
    let values = values(vec![
        ("git_branch", AsyncValue::Failed),
        (
            "git_status",
            AsyncValue::Stale(Some(SegmentContent::new(
                "git_status",
                "[+1]",
                Default::default(),
            ))),
        ),
        ("rust_version", AsyncValue::Failed),
    ]);
    assert_eq!(render_status(&Config::default(), &values), RenderStatus::Final);
}

#[test]
fn render_status_is_final_when_async_values_are_ready_or_failed() {
    let values = values(vec![
        (
            "git_branch",
            AsyncValue::Ready(Some(SegmentContent::new(
                "git_branch",
                "main",
                Default::default(),
            ))),
        ),
        ("git_status", AsyncValue::Failed),
        ("rust_version", AsyncValue::Failed),
    ]);

    assert_eq!(render_status(&Config::default(), &values), RenderStatus::Final);
}

fn strings(items: &[&str]) -> Vec<String> {
    items.iter().map(|item| item.to_string()).collect()
}

fn sync_only_config() -> Config {
    let mut config = Config::default();
    config.layout.lines = 2;
    config.layout.line1 = LineConfig {
        left: strings(&["dir"]),
        right: strings(&["duration"]),
    };
    config.layout.line2 = LineConfig {
        left: strings(&["exit_status", "prompt_char"]),
        right: Vec::new(),
    };
    config
}

#[test]
fn render_status_is_final_when_config_has_no_async_segments() {
    assert_eq!(render_status(&sync_only_config(), &Vec::new()), RenderStatus::Final);
}

#[test]
fn loading_values_of_hidden_segments_leave_the_prompt_final() {
    let values = values(vec![("git_status", AsyncValue::Loading)]);
    assert_eq!(render_status(&sync_only_config(), &values), RenderStatus::Final);
}

fn rust_config(ttl_ms: Option<u64>) -> Config {
    let mut config = Config::default();
    config.layout.lines = 2;
    config.layout.line1 = LineConfig {
        left: strings(&["rust_version"]),
        right: Vec::new(),
    };
    config.layout.line2 = LineConfig {
        left: strings(&["prompt_char"]),
        right: Vec::new(),
    };
    if let Some(ttl) = ttl_ms {
        config.segments = vec![(
            "rust_version".to_string(),
            SegmentConfig {
                ttl_ms: Some(ttl),
                ..SegmentConfig::default()
            },
        )];
    }
    config
}

fn demo_state() -> PromptState {
    PromptState {
        cwd: "/tmp/demo".to_string(),
        exit_status: 0,
        duration_ms: None,
        time: None,
        columns: 120,
        keymap: Keymap::default(),
        env: PromptEnv::default(),
    }
}

/// The probe of `/tmp/demo` holding a `Cargo.toml`.
fn rust_probe() -> WorkspaceProbe {
    let ancestors = path_ancestors("/tmp/demo");
    let has_rust_marker = vec![true, false, false];
    let has_git = vec![false; ancestors.len()];
    WorkspaceProbe {
        entries: vec![DirEntry {
            name: "Cargo.toml".to_string(),
            is_dir: false,
        }],
        ancestors,
        has_git,
        has_rust_marker,
    }
}

fn decode(record: &WorkerRecord) -> WorkerRecord {
    let encoded = encode_worker_record(record);
    decode_worker_record(encoded.trim_end_matches(RECORD_SEPARATOR)).expect("record should decode")
}

#[test]
fn stale_generation_job_updates_active_prompt_generation() {
    let config = rust_config(None);
    let config_generation = 1;
    let state = demo_state();
    let probe = rust_probe();
    let key = AsyncSegment::Rust(RustSegment)
        .cache_key("rust_version", &state, &probe, config_generation)
        .expect("rust cache key should be available");
    let mut cache = SegmentCache::new(4);
    let initial_values = async_values(&mut cache, &state, &probe, &config, config_generation, NOW);
    let output = render_with_async(&config, &state, &initial_values);
    assert!(!output.prompt.contains("1.96.1"));

    let mut active_prompt = Some(ActivePrompt {
        generation: 2,
        state,
        config,
        config_generation,
        output,
    });
    let mut result = completed(
        NOW,
        vec![AsyncJobSegment {
            key: key.clone(),
            content: Ok(Some(SegmentContent::new(
                "rust_version",
                "1.96.1",
                Default::default(),
            ))),
        }],
    );
    result.key = key.clone();
    result.fail_keys = vec![key];

    assert!(matches!(
        handle_job_result(result, &mut cache, NOW),
        JobHandling::Completed
    ));
    let record = update_if_active(&mut active_prompt, &mut cache, &probe, NOW)
        .expect("the active prompt should change");

    let WorkerRecord::Update {
        generation,
        status,
        output,
    } = decode(&record)
    else {
        panic!("expected update response");
    };
    assert_eq!(generation, 2);
    assert_eq!(status, RenderStatus::Final);
    assert!(output.prompt.contains("1.96.1"));
    assert_eq!(active_prompt.expect("still active").output, output);
}

#[test]
fn final_status_still_allows_later_updates() {
    let config = rust_config(Some(0));
    let config_generation = 1;
    let state = demo_state();
    let probe = rust_probe();
    let key = AsyncSegment::Rust(RustSegment)
        .cache_key("rust_version", &state, &probe, config_generation)
        .expect("rust cache key should be available");
    let mut cache = SegmentCache::new(4);
    cache.complete_success(
        key.clone(),
        Some(SegmentContent::new("rust_version", "1.95.0", Default::default())),
        NOW,
    );

    let initial_values = async_values(&mut cache, &state, &probe, &config, config_generation, NOW);
    let output = render_with_async(&config, &state, &initial_values);
    assert_eq!(render_status(&config, &initial_values), RenderStatus::Final);
    assert!(output.prompt.contains("1.95.0"));

    let mut active_prompt = Some(ActivePrompt {
        generation: 2,
        state,
        config,
        config_generation,
        output,
    });
    cache.complete_success(
        key,
        Some(SegmentContent::new("rust_version", "1.96.1", Default::default())),
        NOW + 1,
    );

    let record = update_if_active(&mut active_prompt, &mut cache, &probe, NOW + 1)
        .expect("a later value should update the prompt");
    let WorkerRecord::Update { output, .. } = decode(&record) else {
        panic!("expected update response");
    };
    assert!(output.prompt.contains("1.96.1"));
    assert!(update_if_active(&mut active_prompt, &mut cache, &probe, NOW + 1).is_none());
    assert!(update_if_active(&mut None, &mut cache, &probe, NOW + 1).is_none());
}

#[test]
fn answers_render_requests_with_cached_values_and_plans_refreshes() {
    let config = rust_config(None);
    let probe = rust_probe();
    let mut cache = SegmentCache::new(4);
    let request = RenderRequest {
        generation: 3,
        state: demo_state(),
    };

    let (record, kept) = answer_render(&request, &config, 1, &mut cache, &probe, NOW);
    let WorkerRecord::Prompt {
        generation,
        status,
        output,
    } = record
    else {
        panic!("expected a prompt record");
    };
    assert_eq!(generation, 3);
    assert_eq!(status, RenderStatus::Partial);
    assert_eq!(output, kept);

    let plans = plan_async_refreshes(&mut cache, 3, &request.state, &probe, &config, 1, NOW);
    assert_eq!(plans.len(), 1);
    let plan = &plans[0];
    assert_eq!(plan.segment, AsyncSegment::Rust(RustSegment));
    assert_eq!(plan.generation, 3);
    assert_eq!(plan.key.segment_id, "rust_version");
    assert_eq!(plan.key.source, "/tmp/demo");
    assert_eq!(plan.fail_keys, vec![plan.key.clone()]);
    assert_eq!(plan.timeout_ms, 1_000);
    assert_eq!(plan.min_loading_until, NOW + DEFAULT_MIN_LOADING_MS);
    assert!(cache.is_inflight(&plan.key));

    let again = plan_async_refreshes(&mut cache, 4, &request.state, &probe, &config, 1, NOW);
    assert!(again.is_empty(), "a collection under way is not started twice");

    abandon_refresh(&mut cache, plan, NOW);
    assert!(!cache.is_inflight(&plan.key));
    assert_eq!(cache.lookup(&plan.key, NOW, 1_000), AsyncValue::Failed);
}

#[test]
fn git_refreshes_fail_both_render_ids_together() {
    let mut config = Config::default();
    config.layout.line1 = LineConfig {
        left: strings(&["git_branch"]),
        right: Vec::new(),
    };
    let ancestors = path_ancestors("/tmp/repo/src");
    let probe = WorkspaceProbe {
        entries: Vec::new(),
        has_git: vec![false, true, false, false],
        has_rust_marker: vec![false; ancestors.len()],
        ancestors,
    };
    let mut cache = SegmentCache::new(8);

    let plans = plan_async_refreshes(&mut cache, 1, &PromptState { cwd: "/tmp/repo/src".to_string(), ..demo_state() }, &probe, &config, 7, NOW);

    assert_eq!(plans.len(), 1);
    assert_eq!(plans[0].key, CacheKey::new("git_status", "/tmp/repo", 7));
    assert_eq!(
        plans[0].fail_keys,
        vec![
            CacheKey::new("git_branch", "/tmp/repo", 7),
            CacheKey::new("git_status", "/tmp/repo", 7)
        ]
    );
}

#[test]
fn segments_outside_the_layout_are_neither_looked_up_nor_collected() {
    let config = sync_only_config();
    let probe = rust_probe();
    let mut cache = SegmentCache::new(4);

    assert!(async_values(&mut cache, &demo_state(), &probe, &config, 1, NOW).is_empty());
    assert!(plan_async_refreshes(&mut cache, 1, &demo_state(), &probe, &config, 1, NOW).is_empty());
}

#[test]
fn lists_the_async_and_known_segments() {
    let ids: Vec<Vec<&str>> = async_segments().iter().map(|s| s.render_ids()).collect();
    assert_eq!(
        ids,
        vec![
            vec!["git_branch", "git_status"],
            vec!["rust_version"],
            vec!["bun_version"],
            vec!["deno_version"],
            vec!["node_version"],
            vec!["python_version"],
        ]
    );
    assert_eq!(known_segment_ids().len(), 16);
    assert!(known_segment_ids().contains(&"user_host"));
}

fn fingerprint(len: u64) -> ConfigFingerprint {
    ConfigFingerprint {
        modified_ns: 1_700_000_000_000_000_000,
        len,
    }
}

fn snapshot(path: &str, fingerprint: Option<ConfigFingerprint>) -> ConfigSnapshot {
    ConfigSnapshot {
        path: Some(path.to_string()),
        fingerprint,
    }
}

fn one_line_config() -> Config {
    let mut config = Config::default();
    config.layout.lines = 1;
    config
}

#[test]
fn load_worker_config_reuses_config_when_snapshot_is_unchanged() {
    let mut state = ConfigState::new(ConfigSource::from_path(Some("/tmp/config.toml".to_string())));
    let mut warned = false;
    let current = snapshot("/tmp/config.toml", Some(fingerprint(20)));

    let step = begin_config_load(&mut state, &mut warned, Ok(current.clone()));
    let ConfigLoadStep::Read { snapshot: to_read } = step else {
        panic!("a new snapshot should be read");
    };
    assert_eq!(to_read, current);
    let (first, report) = finish_config_load(&mut state, &mut warned, to_read, Ok(one_line_config()));
    assert_eq!(first, 1);
    assert!(report.is_none());

    let step = begin_config_load(&mut state, &mut warned, Ok(current));
    assert!(matches!(
        step,
        ConfigLoadStep::Done {
            generation: 1,
            report: None
        }
    ));
    assert_eq!(state.config.layout.lines, 1);
}

#[test]
fn load_worker_config_tracks_file_appearance_and_deletion() {
    let mut state = ConfigState::new(ConfigSource::from_path(Some("/tmp/config.toml".to_string())));
    let mut warned = false;

    let missing = snapshot("/tmp/config.toml", None);
    let ConfigLoadStep::Read { snapshot: s } = begin_config_load(&mut state, &mut warned, Ok(missing))
    else {
        panic!("the first snapshot should be read");
    };
    assert_eq!(s.read_path(), None);
    let (generation, _) = finish_config_load(&mut state, &mut warned, s, Ok(Config::default()));
    assert_eq!(generation, 0);
    assert_eq!(state.config.layout.lines, 2);

    let appeared = snapshot("/tmp/config.toml", Some(fingerprint(20)));
    let ConfigLoadStep::Read { snapshot: s } = begin_config_load(&mut state, &mut warned, Ok(appeared))
    else {
        panic!("a new file should be read");
    };
    let (generation, _) = finish_config_load(&mut state, &mut warned, s, Ok(one_line_config()));
    assert_eq!(generation, 1);
    assert_eq!(state.config.layout.lines, 1);

    let deleted = snapshot("/tmp/config.toml", None);
    let ConfigLoadStep::Read { snapshot: s } = begin_config_load(&mut state, &mut warned, Ok(deleted))
    else {
        panic!("a deleted file changes the snapshot");
    };
    let (generation, _) = finish_config_load(&mut state, &mut warned, s, Ok(Config::default()));
    assert_eq!(generation, 2);
    assert_eq!(state.config.layout.lines, 2);
}

#[test]
fn configuration_errors_fall_back_to_defaults_and_are_reported_once() {
    let mut state = ConfigState::new(ConfigSource::from_path(Some("/tmp/config.toml".to_string())));
    let mut warned = false;
    let error = ConfigError::Parse {
        path: "/tmp/config.toml".to_string(),
        reason: "expected `=`".to_string(),
    };

    let ConfigLoadStep::Read { snapshot: s } =
        begin_config_load(&mut state, &mut warned, Ok(snapshot("/tmp/config.toml", Some(fingerprint(3)))))
    else {
        panic!("the file should be read");
    };
    let (generation, report) = finish_config_load(&mut state, &mut warned, s, Err(error.clone()));
    assert_eq!(generation, 0);
    assert_eq!(report, Some(error.clone()));
    assert!(warned);

    let probe_error = ConfigError::Read {
        path: "/tmp/config.toml".to_string(),
        reason: "denied".to_string(),
    };
    let step = begin_config_load(&mut state, &mut warned, Err(probe_error));
    assert!(matches!(
        step,
        ConfigLoadStep::Done {
            generation: 0,
            report: None
        }
    ));
}

#[test]
fn unknown_keys_alone_do_not_change_the_generation() {
    let mut state = ConfigState::new(ConfigSource::from_path(None));
    let mut warned = false;
    let mut with_unknown = Config::default();
    with_unknown.unknown_keys = strings(&["unexpected"]);

    let ConfigLoadStep::Read { snapshot: s } = begin_config_load(
        &mut state,
        &mut warned,
        Ok(ConfigSnapshot {
            path: None,
            fingerprint: None,
        }),
    ) else {
        panic!("the first snapshot should be read");
    };
    let (generation, _) = finish_config_load(&mut state, &mut warned, s, Ok(with_unknown));
    assert_eq!(generation, 0);
}

#[test]
fn warnings_are_shown_once() {
    let mut config = Config::default();
    config.unknown_keys = strings(&["a", "b"]);
    let known = known_segment_ids();
    let mut shown = Vec::new();

    let first = new_warnings(&mut shown, &config, &known);
    assert_eq!(
        first,
        [
            ConfigWarning::UnknownKey {
                location: "a".to_string()
            },
            ConfigWarning::UnknownKey {
                location: "b".to_string()
            }
        ]
    );
    assert!(new_warnings(&mut shown, &config, &known).is_empty());

    config.unknown_keys = strings(&["b", "c"]);
    assert_eq!(
        new_warnings(&mut shown, &config, &known),
        [ConfigWarning::UnknownKey {
            location: "c".to_string()
        }]
    );
    assert_eq!(shown.len(), 3);
}

#[test]
fn path_parents_follow_path_semantics() {
    assert_eq!(path_parent_of("/a/b").as_deref(), Some("/a"));
    assert_eq!(path_parent_of("/a").as_deref(), Some("/"));
    assert_eq!(path_parent_of("/"), None);
    assert_eq!(path_parent_of(""), None);
    assert_eq!(path_parent_of("a").as_deref(), Some(""));
    assert_eq!(path_parent_of("./a").as_deref(), Some("."));
    assert_eq!(path_parent_of(".").as_deref(), Some(""));
    assert_eq!(path_parent_of("/a/b/").as_deref(), Some("/a"));
    assert_eq!(path_parent_of("/a/./b/.").as_deref(), Some("/a"));
    assert_eq!(path_parent_of("/a//b").as_deref(), Some("/a"));
    assert_eq!(path_parent_of("/a/..").as_deref(), Some("/a"));
    assert_eq!(path_ancestors("a/b"), ["a/b", "a", ""]);
}

#[test]
fn worker_errors_have_their_messages() {
    assert_eq!(
        WorkerError::OpenRequest {
            path: "/tmp/nova-1/req".to_string(),
            source: "No such file or directory".to_string(),
        }
        .message(),
        "failed to open request FIFO `/tmp/nova-1/req`: No such file or directory"
    );
    assert_eq!(
        WorkerError::OpenResponse {
            path: "/tmp/nova-1/resp".to_string(),
            source: "denied".to_string(),
        }
        .message(),
        "failed to open response FIFO `/tmp/nova-1/resp`: denied"
    );
    assert_eq!(
        WorkerError::Write("broken pipe".to_string()).message(),
        "failed to write worker response: broken pipe"
    );
    assert_eq!(
        WorkerError::Read("interrupted".to_string()).message(),
        "failed to read worker request: interrupted"
    );
}

#[test]
fn complete_segment_stores_values_as_successes_and_failures_as_failures() {
    let value_key = CacheKey::new("node_version", "/proj", 1);
    let failed_key = CacheKey::new("bun_version", "/proj", 1);
    let mut cache = SegmentCache::new(4);
    cache.mark_inflight(value_key.clone());
    cache.mark_inflight(failed_key.clone());

    nova::worker::complete_segment(
        &mut cache,
        value_key.clone(),
        Ok(Some(SegmentContent::new("node_version", "22.1.0", Default::default()))),
        NOW,
    );
    nova::worker::complete_segment(
        &mut cache,
        failed_key.clone(),
        Err(nova::worker::AsyncSegmentFailure::Failed),
        NOW,
    );

    assert!(!cache.is_inflight(&value_key));
    assert!(!cache.is_inflight(&failed_key));
    assert_eq!(
        cache.lookup(&value_key, NOW, 1_000),
        AsyncValue::Ready(Some(SegmentContent::new(
            "node_version",
            "22.1.0",
            Default::default()
        )))
    );
    assert_eq!(cache.lookup(&failed_key, NOW, 1_000), AsyncValue::Failed);
}
