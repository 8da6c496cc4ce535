use nova::config::error::{ConfigError, ConfigWarning};
use nova::config::load::{discover_config_from_env, ConfigFingerprint, ConfigSnapshot, ConfigSource};
use nova::config::warnings::is_supported_color;
use nova::config::{Config, LineConfig, SegmentConfig, StyleConfig};

const TEST_KNOWN_SEGMENTS: &[&str] = &[
    "aws",
    "bun_version",
    "deno_version",
    "dir",
    "duration",
    "exit_status",
    "git_branch",
    "git_status",
    "nix_shell",
    "node_version",
    "prompt_char",
    "python_version",
    "rust_version",
    "ssh",
    "time",
    "user_host",
];

fn strings(items: &[&str]) -> Vec<String> {
    items.iter().map(|item| item.to_string()).collect()
}

fn line(left: &[&str], right: &[&str]) -> LineConfig {
    LineConfig {
        left: strings(left),
        right: strings(right),
    }
}

fn style(fg: Option<&str>, bg: Option<&str>, bold: bool) -> StyleConfig {
    StyleConfig {
        fg: fg.map(str::to_string),
        bg: bg.map(str::to_string),
        bold,
    }
}

fn pairs(items: &[(&str, &str)]) -> Vec<(String, String)> {
    items
        .iter()
        .map(|(key, value)| (key.to_string(), value.to_string()))
        .collect()
}

#[test]
fn defaults_to_a_two_line_sync_layout() {
    let config = Config::default();

    assert_eq!(config.async_config.initial_wait_ms, None);
    assert_eq!(config.async_config.min_loading_ms, None);
    assert_eq!(config.layout.lines, 2);
    assert_eq!(config.layout.separator, None);
    assert_eq!(config.layout.separator(), " ");
    assert_eq!(
        config.layout.line1.left,
        [
            "ssh",
            "dir",
            "git_branch",
            "git_status",
            "rust_version",
            "bun_version",
            "deno_version",
            "node_version",
            "python_version",
            "nix_shell",
            "aws",
            "duration"
        ]
    );
    assert_eq!(config.layout.line1.right, ["time"]);
    assert_eq!(config.layout.line2.left, ["exit_status", "prompt_char"]);
}

/// The configuration of the `[layout]`, `[async]` and `[segments.*]` tables of the
/// segment settings example.
fn segment_settings_config() -> Config {
    let mut config = Config::default();
    config.layout.lines = 1;
    config.layout.separator = Some(" | ".to_string());
    config.async_config.initial_wait_ms = Some(10);
    config.async_config.min_loading_ms = Some(50);
    config.layout.line1 = line(&["dir", "prompt_char"], &[]);
    config.segments = vec![
        (
            "aws".to_string(),
            SegmentConfig {
                force_display: Some(false),
                format: Some("$symbol$profile".to_string()),
                ..SegmentConfig::default()
            },
        ),
        (
            "dir".to_string(),
            SegmentConfig {
                icon: Some("d".to_string()),
                max_components: Some(2),
                ttl_ms: Some(5_000),
                timeout_ms: Some(1_234),
                style: style(Some("blue"), None, true),
                ..SegmentConfig::default()
            },
        ),
        (
            "duration".to_string(),
            SegmentConfig {
                prefix: Some("took ".to_string()),
                prefix_style: style(Some("#33ccff"), None, true),
                ..SegmentConfig::default()
            },
        ),
        (
            "git_status".to_string(),
            SegmentConfig {
                loading: Some("…".to_string()),
                min_loading_ms: Some(25),
                separator: Some(" ".to_string()),
                show_counts: Some(true),
                icons: pairs(&[("stash", "T"), ("staged", "S"), ("untracked", "U")]),
                style: style(Some("202"), Some("#102030"), false),
                ..SegmentConfig::default()
            },
        ),
        (
            "prompt_char".to_string(),
            SegmentConfig {
                character: Some(">_".to_string()),
                characters: pairs(&[("vi_command", "%")]),
                error_style: style(Some("red"), None, true),
                ..SegmentConfig::default()
            },
        ),
    ];
    config
}

fn value<'a>(entries: &'a [(String, String)], key: &str) -> Option<&'a str> {
    entries
        .iter()
        .find(|(name, _)| name == key)
        .map(|(_, value)| value.as_str())
}

#[test]
fn parses_segment_settings() {
    let config = segment_settings_config();

    assert_eq!(config.async_config.initial_wait_ms, Some(10));
    assert_eq!(config.async_config.min_loading_ms, Some(50));
    let dir = config.segment("dir");
    let prompt_char = config.segment("prompt_char");
    let duration = config.segment("duration");
    let aws = config.segment("aws");
    let git_status = config.segment("git_status");
    assert_eq!(config.layout.lines, 1);
    assert_eq!(config.layout.separator.as_deref(), Some(" | "));
    assert_eq!(config.layout.separator(), " | ");
    assert_eq!(dir.icon.as_deref(), Some("d"));
    assert_eq!(dir.max_components, Some(2));
    assert_eq!(dir.ttl_ms, Some(5_000));
    assert_eq!(dir.timeout_ms, Some(1_234));
    assert_eq!(dir.style.fg.as_deref(), Some("blue"));
    assert!(dir.style.bold);
    assert_eq!(prompt_char.character.as_deref(), Some(">_"));
    assert_eq!(value(&prompt_char.characters, "vi_command"), Some("%"));
    assert_eq!(prompt_char.error_style.fg.as_deref(), Some("red"));
    assert!(prompt_char.error_style.bold);
    assert_eq!(aws.force_display, Some(false));
    assert_eq!(aws.format.as_deref(), Some("$symbol$profile"));
    assert_eq!(duration.prefix.as_deref(), Some("took "));
    assert_eq!(duration.prefix_style.fg.as_deref(), Some("#33ccff"));
    assert!(duration.prefix_style.bold);
    assert_eq!(git_status.style.fg.as_deref(), Some("202"));
    assert_eq!(git_status.style.bg.as_deref(), Some("#102030"));
    assert_eq!(git_status.loading.as_deref(), Some("…"));
    assert_eq!(git_status.min_loading_ms, Some(25));
    assert_eq!(git_status.separator.as_deref(), Some(" "));
    assert_eq!(git_status.show_counts, Some(true));
    assert_eq!(value(&git_status.icons, "staged"), Some("S"));
    assert_eq!(value(&git_status.icons, "untracked"), Some("U"));
    assert_eq!(value(&git_status.icons, "stash"), Some("T"));
    assert_eq!(config.warnings(TEST_KNOWN_SEGMENTS), []);
}

#[test]
fn segments_without_a_table_use_the_empty_configuration() {
    let config = segment_settings_config();

    assert_eq!(config.segment("time"), SegmentConfig::default());
}

#[test]
fn rejects_unsupported_layout_line_counts() {
    let mut config = Config::default();
    config.layout.lines = 3;

    assert_eq!(
        config.validate(),
        Err(ConfigError::InvalidLayoutLines { lines: 3 })
    );
    assert_eq!(
        ConfigError::InvalidLayoutLines { lines: 3 }.message(),
        "invalid config: layout.lines must be 1 or 2, got 3"
    );
}

#[test]
fn accepts_one_and_two_line_layouts() {
    for lines in [1, 2] {
        let mut config = Config::default();
        config.layout.lines = lines;
        assert_eq!(config.clone().validate(), Ok(config));
    }
    let mut config = Config::default();
    config.layout.lines = 0;
    assert!(config.validate().is_err());
}

#[test]
fn mod_warns_about_unknown_config_keys_and_segment_tables() {
    let mut config = Config::default();
    config.layout.lines = 1;
    config.layout.line1 = line(&["dir"], &[]);
    config.segments = vec![
        (
            "git_staus".to_string(),
            SegmentConfig {
                style: style(Some("red"), None, false),
                ..SegmentConfig::default()
            },
        ),
        (
            "git_status".to_string(),
            SegmentConfig {
                icons: pairs(&[("custom", "x")]),
                style: style(Some("red"), None, false),
                ..SegmentConfig::default()
            },
        ),
        (
            "time".to_string(),
            SegmentConfig {
                max_components: Some(2),
                ..SegmentConfig::default()
            },
        ),
    ];
    config.unknown_keys = strings(&[
        "async.initial_wait",
        "layout.line1.middle",
        "layout.seperator",
        "segments.git_status.show_count",
        "segments.git_status.style.foreground",
        "unexpected",
    ]);

    assert_eq!(
        config.warnings(TEST_KNOWN_SEGMENTS),
        [
            ConfigWarning::UnknownKey {
                location: "async.initial_wait".to_string(),
            },
            ConfigWarning::UnknownKey {
                location: "layout.line1.middle".to_string(),
            },
            ConfigWarning::UnknownKey {
                location: "layout.seperator".to_string(),
            },
            ConfigWarning::UnknownKey {
                location: "segments.git_status.show_count".to_string(),
            },
            ConfigWarning::UnknownKey {
                location: "segments.git_status.style.foreground".to_string(),
            },
            ConfigWarning::UnknownKey {
                location: "unexpected".to_string(),
            },
            ConfigWarning::UnknownSegmentTable {
                segment: "git_staus".to_string(),
            },
        ]
    );
}

#[test]
fn warns_about_unknown_layout_segments() {
    let mut config = Config::default();
    config.layout.lines = 2;
    config.layout.line1 = line(&["dir", "missing"], &["missing"]);
    config.layout.line2 = line(&["prompt_char"], &[]);

    assert_eq!(
        config.warnings(TEST_KNOWN_SEGMENTS),
        [
            ConfigWarning::UnknownLayoutSegment {
                location: "layout.line1.left".to_string(),
                segment: "missing".to_string(),
            },
            ConfigWarning::UnknownLayoutSegment {
                location: "layout.line1.right".to_string(),
                segment: "missing".to_string(),
            }
        ]
    );
}

#[test]
fn warns_once_per_place_about_a_repeated_unknown_layout_segment() {
    let mut config = Config::default();
    config.layout.line1 = line(&["missing", "dir", "missing"], &[]);
    config.layout.line2 = line(&[], &[]);

    assert_eq!(
        config.warnings(TEST_KNOWN_SEGMENTS),
        [ConfigWarning::UnknownLayoutSegment {
            location: "layout.line1.left".to_string(),
            segment: "missing".to_string(),
        }]
    );
}

#[test]
fn warns_about_invalid_colors() {
    let mut config = Config::default();
    config.layout.lines = 1;
    config.layout.line1 = line(&["dir"], &[]);
    config.segments = vec![(
        "dir".to_string(),
        SegmentConfig {
            style: style(Some("not-a-color"), Some("#12345g"), false),
            error_style: style(Some("256"), None, false),
            prefix_style: style(None, Some("#123456"), false),
            ..SegmentConfig::default()
        },
    )];

    assert_eq!(
        config.warnings(TEST_KNOWN_SEGMENTS),
        [
            ConfigWarning::InvalidColor {
                location: "segments.dir.style.fg".to_string(),
                color: "not-a-color".to_string(),
            },
            ConfigWarning::InvalidColor {
                location: "segments.dir.style.bg".to_string(),
                color: "#12345g".to_string(),
            },
            ConfigWarning::InvalidColor {
                location: "segments.dir.error_style.fg".to_string(),
                color: "256".to_string(),
            }
        ]
    );
}

#[test]
fn accepts_named_palette_and_truecolor_values() {
    for color in ["black", "bright_white", "0", "255", "+7", "007", "#a0B1c2"] {
        assert!(is_supported_color(color), "{color} should be accepted");
    }
    for color in ["", "256", "-1", "+", "#12345", "#1234567", "grey", "Red"] {
        assert!(!is_supported_color(color), "{color} should be refused");
    }
}

#[test]
fn warning_messages_quote_their_subjects() {
    assert_eq!(
        ConfigWarning::UnknownKey {
            location: "layout.seperator".to_string()
        }
        .message(),
        "unknown config key `layout.seperator`"
    );
    assert_eq!(
        ConfigWarning::UnknownSegmentTable {
            segment: "git_staus".to_string()
        }
        .message(),
        "unknown segment table `segments.git_staus`"
    );
    assert_eq!(
        ConfigWarning::UnknownLayoutSegment {
            location: "layout.line1.left".to_string(),
            segment: "missing".to_string()
        }
        .message(),
        "unknown segment `missing` in `layout.line1.left`"
    );
    assert_eq!(
        ConfigWarning::InvalidColor {
            location: "segments.dir.style.fg".to_string(),
            color: "nope".to_string()
        }
        .message(),
        "invalid color `nope` in `segments.dir.style.fg`"
    );
}

#[test]
fn discovers_explicit_nova_config_first() {
    assert_eq!(
        discover_config_from_env(Some("/tmp/custom.toml"), Some("/tmp/xdg"), Some("/tmp/home")),
        Some("/tmp/custom.toml".to_string())
    );
}

#[test]
fn discovers_xdg_config_home_config_toml() {
    assert_eq!(
        discover_config_from_env(None, Some("/tmp/xdg"), Some("/tmp/home")),
        Some("/tmp/xdg/nova/config.toml".to_string())
    );
}

#[test]
fn discovers_home_config_toml_without_xdg_config_home() {
    assert_eq!(
        discover_config_from_env(None, None, Some("/tmp/home")),
        Some("/tmp/home/.config/nova/config.toml".to_string())
    );
}

#[test]
fn discovery_joins_without_doubling_separators() {
    assert_eq!(
        discover_config_from_env(None, Some("/tmp/xdg/"), None),
        Some("/tmp/xdg/nova/config.toml".to_string())
    );
    assert_eq!(discover_config_from_env(None, None, None), None);
}

#[test]
fn snapshots_missing_config_path_without_fingerprint() {
    let source = ConfigSource::from_path(Some("/tmp/missing.toml".to_string()));

    let snapshot = source.snapshot(Ok(None)).expect("snapshot should succeed");

    assert_eq!(snapshot.path.as_deref(), Some("/tmp/missing.toml"));
    assert_eq!(snapshot.fingerprint, None);
    assert_eq!(snapshot.read_path(), None);
}

#[test]
fn snapshots_existing_config_path_with_fingerprint() {
    let source = ConfigSource::from_path(Some("/tmp/config.toml".to_string()));
    let fingerprint = ConfigFingerprint {
        modified_ns: 1_700_000_000_000_000_000,
        len: 20,
    };

    let snapshot = source
        .snapshot(Ok(Some(fingerprint)))
        .expect("snapshot should succeed");

    assert_eq!(snapshot.path.as_deref(), Some("/tmp/config.toml"));
    assert_eq!(snapshot.fingerprint, Some(fingerprint));
    assert_eq!(snapshot.read_path().as_deref(), Some("/tmp/config.toml"));
}

#[test]
fn snapshot_passes_probe_errors_on_and_ignores_them_without_a_path() {
    let error = ConfigError::Read {
        path: "/tmp/config.toml".to_string(),
        reason: "permission denied".to_string(),
    };
    let source = ConfigSource::from_path(Some("/tmp/config.toml".to_string()));
    assert_eq!(source.snapshot(Err(error.clone())), Err(error.clone()));
    assert_eq!(
        error.message(),
        "failed to read config `/tmp/config.toml`: permission denied"
    );

    let none = ConfigSource::from_path(None);
    assert_eq!(
        none.snapshot(Err(error)),
        Ok(ConfigSnapshot {
            path: None,
            fingerprint: None
        })
    );
}
