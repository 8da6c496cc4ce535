use nova::cache::AsyncValue;
use nova::config::{Config, LayoutConfig, LineConfig, SegmentConfig, StyleConfig};
use nova::render::fit::{fit_prompt_line, fit_side};
use nova::render::width::{display_width, truncate_end, truncate_middle, truncate_start};
use nova::render::{
    command_columns, lower, lower_input_line, lower_side, prompt_columns_for_input, render,
    render_structured_with_async, render_with_async, strip_prompt_markers, visible_prompt_width,
    RenderedPrompt,
};
use nova::segments::{SegmentContent, SegmentPart, Style};
use nova::state::{Keymap, PromptEnv, PromptState};

fn test_segment(id: &str, text: &str) -> SegmentContent {
    SegmentContent::new(id, text, Style::default())
}

fn ids_and_texts(segments: &[SegmentContent]) -> Vec<(&str, &str)> {
    segments
        .iter()
        .map(|segment| (segment.id.as_str(), segment.text.as_str()))
        .collect()
}

fn state(cwd: &str, columns: u16) -> PromptState {
    PromptState {
        cwd: cwd.to_string(),
        exit_status: 0,
        duration_ms: None,
        time: None,
        columns,
        keymap: Keymap::Main,
        env: PromptEnv::default(),
    }
}

fn strings(items: &[&str]) -> Vec<String> {
    items.iter().map(|item| item.to_string()).collect()
}

fn one_line(left: &[&str], right: &[&str], separator: Option<&str>) -> Config {
    Config {
        layout: LayoutConfig {
            lines: 1,
            separator: separator.map(str::to_string),
            line1: LineConfig {
                left: strings(left),
                right: strings(right),
            },
            line2: LineConfig::default(),
        },
        ..Config::default()
    }
}

#[test]
fn snapshots_two_line_first_line_right_prompt() {
    let state = PromptState {
        cwd: "/Users/me/projects/nova".to_string(),
        exit_status: 1,
        duration_ms: Some(2_340),
        time: Some("11:16:42".to_string()),
        columns: 32,
        keymap: Keymap::Main,
        env: PromptEnv {
            home: Some("/Users/me".to_string()),
            ..PromptEnv::default()
        },
    };

    assert_eq!(
        render(&Config::default(), &state).prompt,
        "%{\u{1b}[32m%}~/p/nova%{\u{1b}[0m%} +2.3s          11:16:42\n\
%{\u{1b}[1;31m%}[1]%{\u{1b}[0m%} %{\u{1b}[1;31m%}❯ %{\u{1b}[0m%}"
    );
}

#[test]
fn snapshots_one_line_with_rprompt() {
    let state = PromptState {
        duration_ms: Some(5_000),
        ..state("/repo", 20)
    };
    let config = one_line(&["dir", "prompt_char"], &["duration"], None);

    let output = render(&config, &state);
    assert_eq!(output.prompt, "%{\x1b[32m%}/repo%{\x1b[0m%}\n❯ ");
    assert_eq!(output.rprompt, "");
}

#[test]
fn input_prompt_reserves_command_columns() {
    assert_eq!(command_columns(120), 60);
    assert_eq!(command_columns(80), 40);
    assert_eq!(command_columns(50), 25);
    assert_eq!(command_columns(20), 18);

    assert_eq!(prompt_columns_for_input(120), 60);
    assert_eq!(prompt_columns_for_input(80), 40);
    assert_eq!(prompt_columns_for_input(50), 25);
    assert_eq!(prompt_columns_for_input(20), 2);
}

#[test]
fn input_line_wraps_prompt_char_when_prompt_exceeds_command_budget() {
    let mut left = vec![
        test_segment("dir", "~/dev/oss/nova-example/src/render"),
        test_segment(
            "git_branch",
            "feature/render-fitting-priority-with-a-very-long-suffix-check",
        ),
        test_segment("git_status", "[!1+1?1]"),
        test_segment("rust_version", "\u{e7a8} 1.96.1"),
        test_segment("nix_shell", "\u{f313} impure (nix-shell-env)"),
        test_segment("aws", "\u{e33d} very-long-aws-profile (ap-northeast-1)"),
        test_segment("prompt_char", "❯ "),
    ];
    let mut right = vec![test_segment("time", "22:50:54")];

    fit_prompt_line(&mut left, &mut right, 80, " ");
    let input_line = lower_input_line(&left, 80, " ");

    assert!(input_line.wrapped);
    assert!(input_line.prompt.ends_with("\n❯ "));
}

#[test]
fn input_line_ellipsizes_left_side_before_wrapped_prompt_char() {
    let mut left = vec![
        test_segment("user_host", "t1190078@M4Pro"),
        test_segment("dir", "~/dev/oss/nova"),
        test_segment("git_branch", "(fix/32-render-fitting-priority)"),
        test_segment("prompt_char", "❯ "),
    ];
    let mut right = Vec::new();

    fit_prompt_line(&mut left, &mut right, 25, " ");
    let input_line = lower_input_line(&left, 25, " ");
    let lines = input_line.prompt.lines().collect::<Vec<_>>();

    assert!(input_line.wrapped);
    assert!(lines[0].starts_with('…'));
    assert!(lines[0].contains("fix"));
    assert_eq!(lines[1], "❯ ");
}

#[test]
fn input_rprompt_is_hidden_when_it_would_collide() {
    let output = lower(
        RenderedPrompt {
            line1_left: vec![test_segment("custom", "left-prompt-that-still-fits-input")],
            line1_right: vec![test_segment(
                "custom",
                "right-prompt-that-would-overlap-the-input-prompt",
            )],
            line2_left: Vec::new(),
            line2_right: Vec::new(),
        },
        80,
    );

    assert_eq!(output.prompt, "left-prompt-that-still-fits-input");
    assert_eq!(output.rprompt, "");
}

#[test]
fn oversized_input_rprompt_is_truncated_to_columns() {
    let output = lower(
        RenderedPrompt {
            line1_left: Vec::new(),
            line1_right: vec![
                test_segment("time", "12:34:56"),
                test_segment(
                    "custom",
                    "right-prompt-that-is-longer-than-the-entire-terminal-width",
                ),
            ],
            line2_left: Vec::new(),
            line2_right: Vec::new(),
        },
        32,
    );

    assert!(visible_prompt_width(&output.rprompt) <= 32);
    assert!(output.rprompt.starts_with('…'));
}

#[test]
fn snapshots_custom_separator() {
    let config = one_line(&["dir", "prompt_char"], &[], Some(" | "));

    assert_eq!(
        render(&config, &state("/repo", 80)).prompt,
        "%{\u{1b}[32m%}/repo%{\u{1b}[0m%} | ❯ "
    );
}

#[test]
fn includes_ready_async_segments_in_layout_order() {
    let config = one_line(&["dir", "git_branch", "git_status", "prompt_char"], &[], None);
    let async_values = vec![
        (
            "git_branch".to_string(),
            AsyncValue::Ready(Some(SegmentContent::new("git_branch", "main", Style::default()))),
        ),
        (
            "git_status".to_string(),
            AsyncValue::Ready(Some(SegmentContent::new("git_status", "[+1]", Style::default()))),
        ),
    ];

    let rendered = render_structured_with_async(&config, &state("/repo", 80), &async_values);

    assert_eq!(
        rendered
            .line1_left
            .iter()
            .map(|segment| segment.id.as_str())
            .collect::<Vec<_>>(),
        ["dir", "git_branch", "git_status", "prompt_char"]
    );
    assert_eq!(rendered.line1_left[1].text, "main");
    assert_eq!(rendered.line1_left[2].text, "[+1]");
}

#[test]
fn includes_stale_async_segments_and_omits_unavailable_states() {
    let config = one_line(
        &[
            "git_branch",
            "git_status",
            "bun_version",
            "node_version",
            "runtime",
            "prompt_char",
        ],
        &[],
        None,
    );
    let async_values = vec![
        (
            "git_branch".to_string(),
            AsyncValue::Stale(Some(SegmentContent::new("git_branch", "main", Style::default()))),
        ),
        ("git_status".to_string(), AsyncValue::Loading),
        ("bun_version".to_string(), AsyncValue::Stale(None)),
        ("node_version".to_string(), AsyncValue::Ready(None)),
        ("runtime".to_string(), AsyncValue::Failed),
    ];

    let rendered = render_structured_with_async(&config, &state("/repo", 80), &async_values);

    assert_eq!(
        rendered
            .line1_left
            .iter()
            .map(|segment| segment.id.as_str())
            .collect::<Vec<_>>(),
        ["git_branch", "prompt_char"]
    );
    assert_eq!(rendered.line1_left[0].text, "main");
}

#[test]
fn renders_configured_loading_placeholder() {
    let mut config = one_line(&["git_status", "prompt_char"], &[], None);
    config.segments = vec![(
        "git_status".to_string(),
        SegmentConfig {
            loading: Some("…".to_string()),
            style: StyleConfig {
                fg: Some("yellow".to_string()),
                bg: None,
                bold: true,
            },
            ..SegmentConfig::default()
        },
    )];
    let async_values = vec![("git_status".to_string(), AsyncValue::Loading)];

    assert_eq!(
        render_with_async(&config, &state("/repo", 80), &async_values).prompt,
        "%{\u{1b}[1;33m%}…%{\u{1b}[0m%} ❯ "
    );
}

#[test]
fn escapes_percent_in_dynamic_text() {
    assert!(render(&Config::default(), &state("/tmp/100%real", 80))
        .prompt
        .contains("100%%real"));
}

#[test]
fn renders_nix_shell_sync_segment() {
    let state = PromptState {
        env: PromptEnv {
            in_nix_shell: Some("pure".to_string()),
            ..PromptEnv::default()
        },
        ..state("/repo", 80)
    };
    let config = one_line(&["nix_shell"], &[], None);

    assert!(render(&config, &state).prompt.contains("\u{f313} pure"));
}

#[test]
fn narrow_fitting_preserves_dir_floor_and_truncates_branch() {
    let mut segments = vec![
        test_segment("user_host", "user@host"),
        test_segment("dir", "~/dev/oss/nova"),
        test_segment("git_branch", "feature/some-branch"),
        test_segment("node_version", "24.16.0"),
    ];

    fit_side(&mut segments, 14, " ");

    assert_eq!(
        ids_and_texts(&segments),
        [
            ("user_host", "user@host"),
            ("dir", "nova"),
            ("git_branch", "feat…ranch"),
            ("node_version", "24.16.0")
        ]
    );
}

#[test]
fn fitting_compacts_runtime_segments_to_icons_before_dropping() {
    let mut segments = vec![
        test_segment("dir", "nova"),
        test_segment("rust_version", "\u{e7a8} 1.96.1"),
    ];

    fit_side(&mut segments, 6, " ");

    assert_eq!(
        ids_and_texts(&segments),
        [("dir", "nova"), ("rust_version", "\u{e7a8}")]
    );
}

#[test]
fn fitting_compacts_dir_before_runtime_icons() {
    let mut segments = vec![
        test_segment("dir", "~/dev/oss/nova/src/render"),
        test_segment("rust_version", "\u{e7a8} 1.96.1"),
    ];

    fit_side(&mut segments, 25, " ");

    assert_eq!(
        ids_and_texts(&segments),
        [("dir", "~/d/o/n/s/render"), ("rust_version", "\u{e7a8} 1.96.1")]
    );
}

#[test]
fn fitting_compacts_icon_segments_as_a_group_with_separator() {
    let mut segments = vec![
        test_segment("dir", "nova"),
        test_segment("nix_shell", "\u{f313} impure (nix-shell-env)"),
        test_segment("aws", "\u{e33d} very-long-aws-profile (ap-northeast-1)"),
    ];

    fit_side(&mut segments, 60, " ");

    assert_eq!(
        ids_and_texts(&segments),
        [("dir", "nova"), ("nix_shell", "\u{f313}"), ("aws", "\u{e33d}")]
    );
    assert_eq!(lower_side(&segments, " "), "nova \u{f313} \u{e33d}");
}

#[test]
fn fitting_does_not_drop_segments_after_compaction() {
    let mut segments = vec![
        test_segment("rust_version", "\u{e7a8} 1.96.1"),
        test_segment("nix_shell", "\u{f313} impure (nix-shell-env)"),
        test_segment("aws", "\u{e33d} very-long-aws-profile (ap-northeast-1)"),
        test_segment("duration", "+10s"),
        test_segment("prompt_char", "❯ "),
    ];

    fit_side(&mut segments, 8, " ");

    assert_eq!(
        ids_and_texts(&segments),
        [
            ("rust_version", "\u{e7a8}"),
            ("nix_shell", "\u{f313}"),
            ("aws", "\u{e33d}"),
            ("duration", "+10s"),
            ("prompt_char", "❯ ")
        ]
    );
}

#[test]
fn fitting_strips_git_status_counts_before_dropping_status() {
    let mut segments = vec![test_segment("dir", "nova"), test_segment("git_status", "[+123?4]")];

    fit_side(&mut segments, 9, " ");

    assert_eq!(ids_and_texts(&segments), [("dir", "nova"), ("git_status", "[+?]")]);
}

#[test]
fn fitting_uses_compact_dir_path_before_leaf_only_floor() {
    let mut segments = vec![
        test_segment("dir", "~/dev/oss/nova/src/render"),
        test_segment("git_branch", "main"),
    ];

    fit_side(&mut segments, 21, " ");

    assert_eq!(
        ids_and_texts(&segments),
        [("dir", "~/d/o/n/s/render"), ("git_branch", "main")]
    );
}

#[test]
fn fitting_keeps_segments_when_prompt_char_must_wrap_later() {
    let mut segments = vec![
        test_segment("dir", "very-long-directory"),
        test_segment("prompt_char", "❯ "),
    ];

    fit_side(&mut segments, 2, " ");

    assert_eq!(ids_and_texts(&segments), [("dir", "…y"), ("prompt_char", "❯ ")]);
}

#[test]
fn fitting_trims_prompt_char_gap_before_replacing_prompt_char() {
    let mut segments = vec![test_segment("prompt_char", "❯ ")];

    fit_side(&mut segments, 1, " ");

    assert_eq!(ids_and_texts(&segments), [("prompt_char", "❯")]);
}

#[test]
fn fitting_removes_zero_width_segments() {
    let mut segments = vec![test_segment("dir", ""), test_segment("node_version", "24.16.0")];

    fit_side(&mut segments, 1, " ");

    assert!(segments.iter().all(|segment| display_width(&segment.text) > 0));
}

#[test]
fn fitting_preserves_part_style_when_truncating_segment() {
    let mut segments = vec![SegmentContent::from_parts(
        "user_host",
        vec![
            SegmentPart::new(
                "user",
                Style {
                    fg: Some("green".to_string()),
                    bg: None,
                    bold: false,
                },
            ),
            SegmentPart::new("@host", Style::default()),
        ],
    )];

    fit_side(&mut segments, 4, " ");

    assert_eq!(segments[0].style.fg.as_deref(), Some("green"));
    assert_eq!(lower_side(&segments, " "), "%{\u{1b}[32m%}use…%{\u{1b}[0m%}");
}

#[test]
fn visible_prompt_width_unescapes_literal_percent() {
    assert_eq!(strip_prompt_markers("%{\u{1b}[32m%}100%%%{\u{1b}[0m%}"), "100%");
    assert_eq!(visible_prompt_width("%{\u{1b}[32m%}100%%%{\u{1b}[0m%}"), 4);
}

#[test]
fn truncates_without_exceeding_width() {
    assert_eq!(truncate_end("abcdef", 4), "abc…");
    assert_eq!(truncate_start("abcdef", 4), "…def");
    assert_eq!(truncate_middle("abcdef", 4), "a…ef");
    assert!(display_width(&truncate_end("日本語abcdef", 6)) <= 6);
}

#[test]
fn wide_characters_count_twice() {
    assert_eq!(display_width("日本"), 4);
    assert_eq!(display_width("abc"), 3);
    assert_eq!(display_width(""), 0);
}

const PATHS: &[&str] = &[
    "",
    "a",
    "very/long/path/with/many/components/and/more/components/still",
    "日本語/ディレクトリ/とても長い名前のフォルダ",
    "spaces in names/and 100% percent/and-more-text-that-goes-on-and-on",
];

#[test]
fn first_line_never_exceeds_columns() {
    let long = "a".repeat(80);
    let mut paths: Vec<String> = PATHS.iter().map(|p| p.to_string()).collect();
    paths.push(long);
    for path in &paths {
        for columns in [1u16, 2, 3, 5, 8, 13, 21, 34, 55, 89, 119] {
            let state = PromptState {
                duration_ms: Some(10_000),
                ..state(&format!("/{path}"), columns)
            };
            let output = render(&Config::default(), &state);
            let first_line = output.prompt.lines().next().unwrap_or_default();

            assert!(
                visible_prompt_width(first_line) <= usize::from(columns),
                "{path} at {columns} columns"
            );
        }
    }
}

#[test]
fn first_line_never_exceeds_columns_with_custom_separator() {
    for separator in ["", " ", " | ", "日本", "%%%%"] {
        for path in PATHS {
            for columns in [1u16, 4, 9, 16, 25, 36, 49, 64, 81, 100, 119] {
                let state = PromptState {
                    duration_ms: Some(10_000),
                    ..state(&format!("/{path}"), columns)
                };
                let config = one_line(
                    &["dir", "git_branch", "duration", "prompt_char"],
                    &[],
                    Some(separator),
                );
                let output = render(&config, &state);
                let first_line = output.prompt.lines().next().unwrap_or_default();

                assert!(
                    visible_prompt_width(first_line) <= usize::from(columns),
                    "{path:?} with {separator:?} at {columns} columns"
                );
            }
        }
    }
}

#[test]
fn escaping_round_trips_through_the_visible_text() {
    for input in ["50% done", "%%", "plain", "%{not a marker%}", ""] {
        let escaped = nova::render::zsh::escape_prompt_text(input);
        assert_eq!(nova::render::strip_prompt_markers(&escaped), input);
        assert_eq!(
            nova::render::visible_prompt_width(&escaped),
            nova::render::width::display_width(input)
        );
    }
}
