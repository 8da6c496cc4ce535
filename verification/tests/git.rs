use nova::cache::CacheKey;
use nova::config::{SegmentConfig, StyleConfig};
use nova::segments::git::{
    collect_git_status, git_cache_key, git_job_segments, is_short_oid_ok, parse_porcelain_v2_z,
    render_git_branch, render_git_status, CommandOutput, GitCollectError, GitStatus,
};
use nova::segments::workspace::{find_repository_root, path_ancestors};
use nova::worker::AsyncSegmentFailure;

#[test]
fn renders_branch_segment() {
    let status = GitStatus {
        branch: Some("main".to_string()),
        ..GitStatus::default()
    };

    let rendered =
        render_git_branch(&status, &SegmentConfig::default()).expect("branch should render");

    assert_eq!(rendered.id, "git_branch");
    assert_eq!(rendered.text, "\u{f418} main");
    assert_eq!(rendered.style.fg.as_deref(), Some("magenta"));
    assert!(rendered.style.bold);
}

#[test]
fn renders_detached_head_segment_with_short_oid() {
    let status = GitStatus {
        head_oid: Some("abcdef0123456789".to_string()),
        ..GitStatus::default()
    };

    let rendered = render_git_branch(&status, &SegmentConfig::default())
        .expect("detached head should render");

    assert_eq!(rendered.text, "\u{f418} HEAD abcdef0");
}

#[test]
fn renders_branch_segment_with_configured_icon() {
    let status = GitStatus {
        branch: Some("main".to_string()),
        ..GitStatus::default()
    };
    let config = SegmentConfig {
        icon: Some("git".to_string()),
        ..SegmentConfig::default()
    };

    let rendered = render_git_branch(&status, &config).expect("branch should render");

    assert_eq!(rendered.text, "git main");
}

#[test]
fn renders_branch_segment_without_icon_when_configured_empty() {
    let status = GitStatus {
        branch: Some("main".to_string()),
        ..GitStatus::default()
    };
    let config = SegmentConfig {
        icon: Some(String::new()),
        ..SegmentConfig::default()
    };

    let rendered = render_git_branch(&status, &config).expect("branch should render");

    assert_eq!(rendered.text, "main");
}

#[test]
fn hides_branch_segment_when_branch_and_oid_are_absent() {
    assert_eq!(
        render_git_branch(&GitStatus::default(), &SegmentConfig::default()),
        None
    );
}

#[test]
fn renders_status_indicators_in_stable_order() {
    let status = GitStatus {
        staged: 2,
        modified: 1,
        untracked: 3,
        conflicted: 4,
        stashed: 5,
        ahead: 6,
        behind: 7,
        ..GitStatus::default()
    };

    let rendered = render_git_status(&status, &SegmentConfig::default())
        .expect("dirty status should render");

    assert_eq!(rendered.id, "git_status");
    assert_eq!(rendered.text, "[=4 !1 +2 ?3 $5 ⇡6 ⇣7]");
    assert_eq!(rendered.style.fg.as_deref(), Some("red"));
    assert!(rendered.style.bold);
}

#[test]
fn renders_status_indicators_with_configured_icons() {
    let status = GitStatus {
        staged: 2,
        modified: 1,
        untracked: 3,
        stashed: 4,
        ..GitStatus::default()
    };
    let config = SegmentConfig {
        icons: vec![
            ("staged".to_string(), "S".to_string()),
            ("untracked".to_string(), "U".to_string()),
            ("stash".to_string(), "T".to_string()),
        ],
        ..SegmentConfig::default()
    };

    let rendered = render_git_status(&status, &config).expect("dirty status should render");

    assert_eq!(rendered.text, "[!1 S2 U3 T4]");
}

#[test]
fn hides_status_indicators_with_empty_configured_icons() {
    let status = GitStatus {
        staged: 2,
        modified: 1,
        ..GitStatus::default()
    };
    let config = SegmentConfig {
        icons: vec![("staged".to_string(), String::new())],
        ..SegmentConfig::default()
    };

    let rendered = render_git_status(&status, &config).expect("dirty status should render");

    assert_eq!(rendered.text, "[!1]");
}

#[test]
fn hides_status_segment_when_repository_is_clean() {
    assert_eq!(
        render_git_status(&GitStatus::default(), &SegmentConfig::default()),
        None
    );
}

#[test]
fn renderers_honor_custom_styles() {
    let config = SegmentConfig {
        style: StyleConfig {
            fg: Some("cyan".to_string()),
            bg: None,
            bold: false,
        },
        ..SegmentConfig::default()
    };
    let status = GitStatus {
        branch: Some("main".to_string()),
        staged: 1,
        ..GitStatus::default()
    };

    let branch = render_git_branch(&status, &config).expect("branch should render");
    let git_status = render_git_status(&status, &config).expect("status should render");

    assert_eq!(branch.style.fg.as_deref(), Some("cyan"));
    assert!(!branch.style.bold);
    assert_eq!(git_status.style.fg.as_deref(), Some("cyan"));
    assert!(!git_status.style.bold);
}

#[test]
fn branch_and_status_use_independent_config_styles() {
    let branch_config = SegmentConfig {
        style: StyleConfig {
            fg: Some("cyan".to_string()),
            bg: None,
            bold: false,
        },
        ..SegmentConfig::default()
    };
    let status_config = SegmentConfig {
        style: StyleConfig {
            fg: Some("yellow".to_string()),
            bg: None,
            bold: true,
        },
        ..SegmentConfig::default()
    };
    let status = GitStatus {
        branch: Some("main".to_string()),
        staged: 1,
        ..GitStatus::default()
    };

    let branch = render_git_branch(&status, &branch_config).expect("branch should render");
    let git_status = render_git_status(&status, &status_config).expect("status should render");

    assert_eq!(branch.style.fg.as_deref(), Some("cyan"));
    assert!(!branch.style.bold);
    assert_eq!(git_status.style.fg.as_deref(), Some("yellow"));
    assert!(git_status.style.bold);
}

fn ancestors_of(cwd: &str) -> Vec<String> {
    path_ancestors(cwd)
}

#[test]
fn builds_cache_key_from_repository_root() {
    let ancestors = ancestors_of("/tmp/repo/src/deep");
    assert_eq!(
        ancestors,
        ["/tmp/repo/src/deep", "/tmp/repo/src", "/tmp/repo", "/tmp", "/"]
    );
    let has_git = vec![false, false, true, false, false];

    let key = git_cache_key(&ancestors, &has_git, 4).expect("repo root should be detected");

    assert_eq!(key.segment_id, "git_status");
    assert_eq!(key.source, "/tmp/repo");
    assert_eq!(key.config_generation, 4);
}

#[test]
fn accepts_git_file_markers_for_worktrees() {
    let ancestors = ancestors_of("/tmp/worktree");
    let has_git = vec![true, false, false];

    assert_eq!(
        find_repository_root(&ancestors, &has_git),
        Some("/tmp/worktree".to_string())
    );
}

#[test]
fn cache_key_is_none_outside_repository() {
    let ancestors = ancestors_of("/tmp/plain");
    let has_git = vec![false; ancestors.len()];

    assert_eq!(git_cache_key(&ancestors, &has_git, 1), None);
}

#[test]
fn parses_branch_and_counts_from_porcelain_v2_z() {
    let output = b"# branch.oid abc123def456\0\
# branch.head main\0\
# branch.ab +1 -2\0\
1 M. N... 000000 000000 000000 abc123 def456 staged.rs\0\
1 .M N... 000000 000000 000000 abc123 def456 modified.rs\0\
? untracked.txt\0";

    let status = parse_porcelain_v2_z(output);

    assert_eq!(status.branch.as_deref(), Some("main"));
    assert_eq!(status.head_oid.as_deref(), Some("abc123def456"));
    assert_eq!(status.ahead, 1);
    assert_eq!(status.behind, 2);
    assert_eq!(status.staged, 1);
    assert_eq!(status.modified, 1);
    assert_eq!(status.untracked, 1);
    assert_eq!(status.conflicted, 0);
}

#[test]
fn parses_detached_head_without_branch() {
    let output = b"# branch.oid abc123\0# branch.head (detached)\0";

    let status = parse_porcelain_v2_z(output);

    assert_eq!(status.branch, None);
    assert_eq!(status.head_oid.as_deref(), Some("abc123"));
}

#[test]
fn parses_staged_and_modified_from_single_entry() {
    let output = b"# branch.head feature\0\
1 MM N... 000000 000000 000000 abc123 def456 both.rs\0";

    let status = parse_porcelain_v2_z(output);

    assert_eq!(status.staged, 1);
    assert_eq!(status.modified, 1);
}

#[test]
fn parses_rename_as_staged_change() {
    let output = b"# branch.head main\0\
2 R. N... 000000 000000 000000 abc123 def456 R100 new.rs\0old.rs\0";

    let status = parse_porcelain_v2_z(output);

    assert_eq!(status.staged, 1);
    assert_eq!(status.modified, 0);
}

#[test]
fn parses_conflicted_entries() {
    let output = b"# branch.head main\0\
u UU N... 000000 000000 000000 100644 100644 100644 abc123 def456 ghi789 conflict.rs\0";

    let status = parse_porcelain_v2_z(output);

    assert_eq!(status.conflicted, 1);
}

#[test]
fn parses_stash_count() {
    let output = b"# branch.head main\0# stash 3\0";

    let status = parse_porcelain_v2_z(output);

    assert_eq!(status.stashed, 3);
}

#[test]
fn malformed_counts_fall_back_to_zero() {
    let output = b"# branch.head main\0# branch.ab +x -y\0# stash nope\0";

    let status = parse_porcelain_v2_z(output);

    assert_eq!(status.ahead, 0);
    assert_eq!(status.behind, 0);
    assert_eq!(status.stashed, 0);
    assert!(!status.has_changes());
}

#[test]
fn empty_output_returns_default_status() {
    assert_eq!(parse_porcelain_v2_z(b""), GitStatus::default());
}

#[test]
fn invalid_utf8_in_paths_does_not_stop_parsing() {
    let output = b"# branch.head main\0? caf\xff.txt\0";

    let status = parse_porcelain_v2_z(output);

    assert_eq!(status.branch.as_deref(), Some("main"));
    assert_eq!(status.untracked, 1);
}

#[test]
fn collector_returns_none_outside_repository() {
    let status = collect_git_status(false, Err(GitCollectError::TimedOut));

    assert_eq!(status, Ok(None));
}

#[test]
fn collector_parses_successful_output_and_refuses_failures() {
    let output = CommandOutput {
        success: true,
        stdout: b"# branch.head main\0? new.txt\0".to_vec(),
    };
    let status = collect_git_status(true, Ok(output))
        .expect("status should be collected")
        .expect("repository should have a status");
    assert_eq!(status.branch.as_deref(), Some("main"));
    assert_eq!(status.untracked, 1);

    let failed = CommandOutput {
        success: false,
        stdout: Vec::new(),
    };
    assert_eq!(
        collect_git_status(true, Ok(failed)),
        Err(GitCollectError::NonZeroExit)
    );
    assert_eq!(
        collect_git_status(true, Err(GitCollectError::TimedOut)),
        Err(GitCollectError::TimedOut)
    );
    assert_eq!(GitCollectError::TimedOut.message(), "git status timed out");
    assert_eq!(
        GitCollectError::Spawn("not found".to_string()).message(),
        "failed to spawn git status: not found"
    );
}

#[test]
fn job_segments_pair_branch_and_status_keys() {
    let status_key = CacheKey::new("git_status", "/repo", 3);
    let status = GitStatus {
        branch: Some("main".to_string()),
        modified: 2,
        ..GitStatus::default()
    };

    let segments = git_job_segments(
        status_key.clone(),
        Ok(Some(status.clone())),
        &SegmentConfig::default(),
        &SegmentConfig::default(),
    );

    assert_eq!(segments.len(), 2);
    assert_eq!(segments[0].key, CacheKey::new("git_branch", "/repo", 3));
    assert_eq!(segments[1].key, status_key);
    assert_eq!(
        segments[0].content,
        Ok(render_git_branch(&status, &SegmentConfig::default()))
    );
    assert_eq!(
        segments[1].content.as_ref().map(|c| c.as_ref().map(|c| c.text.clone())),
        Ok(Some("[!2]".to_string()))
    );

    let failed = git_job_segments(
        status_key.clone(),
        Err(GitCollectError::NonZeroExit),
        &SegmentConfig::default(),
        &SegmentConfig::default(),
    );
    assert_eq!(failed[0].content, Err(AsyncSegmentFailure::Failed));
    assert_eq!(failed[1].content, Err(AsyncSegmentFailure::Failed));

    let outside = git_job_segments(
        status_key,
        Ok(None),
        &SegmentConfig::default(),
        &SegmentConfig::default(),
    );
    assert_eq!(outside[0].content, Ok(None));
    assert_eq!(outside[1].content, Ok(None));
}

#[test]
fn short_object_ids_must_end_on_a_character_boundary() {
    assert!(is_short_oid_ok("abcdef0123456789"));
    assert!(is_short_oid_ok("abc"));
    assert!(is_short_oid_ok("abcdeé"));
    assert!(is_short_oid_ok("abcdefgé"));
    assert!(!is_short_oid_ok("abcdefé"));
}

#[test]
fn git_status_runs_porcelain_v2_in_the_prompt_directory() {
    let line = nova::segments::git::git_status_command("/tmp/repo");
    assert_eq!(line.program, "git");
    assert_eq!(
        line.args,
        vec![
            "--no-optional-locks",
            "status",
            "--porcelain=v2",
            "--branch",
            "--show-stash",
            "-z"
        ]
    );
    assert_eq!(line.dir, "/tmp/repo");
    assert_eq!(line.path, None);
}
