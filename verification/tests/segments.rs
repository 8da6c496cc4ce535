use nova::config::{SegmentConfig, StyleConfig};
use nova::render::zsh::lower_segment;
use nova::segments::dir::display_path;
use nova::segments::duration::{format_duration, DurationSegment};
use nova::segments::exit_status::ExitStatusSegment;
use nova::segments::prompt_char::PromptCharSegment;
use nova::segments::time::TimeSegment;
use nova::segments::user_host::UserHostSegment;
use nova::segments::{SegmentContent, SegmentPart, Style, SyncSegment};
use nova::state::{Keymap, PromptEnv, PromptState};

fn state(cwd: &str, exit_status: i32, keymap: Keymap) -> PromptState {
    PromptState {
        cwd: cwd.to_string(),
        exit_status,
        duration_ms: None,
        time: None,
        columns: 80,
        keymap,
        env: PromptEnv::default(),
    }
}

#[test]
fn escapes_percent_and_wraps_ansi_sequences() {
    let segment = SegmentContent::new(
        "test",
        "100%",
        Style {
            fg: Some("red".to_string()),
            bg: None,
            bold: true,
        },
    );

    assert_eq!(lower_segment(&segment), "%{\u{1b}[1;31m%}100%%%{\u{1b}[0m%}");
}

#[test]
fn lowers_styled_parts_without_inserting_spaces() {
    let segment = SegmentContent::from_parts(
        "user_host",
        vec![
            SegmentPart::new(
                "nova",
                Style {
                    fg: Some("green".to_string()),
                    bg: None,
                    bold: false,
                },
            ),
            SegmentPart::new("@M4Pro", Style::default()),
        ],
    );

    assert_eq!(lower_segment(&segment), "%{\u{1b}[32m%}nova%{\u{1b}[0m%}@M4Pro");
}

#[test]
fn lowers_bright_ansi_colors() {
    let segment = SegmentContent::new(
        "test",
        "bright",
        Style {
            fg: Some("bright_white".to_string()),
            bg: Some("bright_blue".to_string()),
            bold: false,
        },
    );

    assert_eq!(lower_segment(&segment), "%{\u{1b}[97;104m%}bright%{\u{1b}[0m%}");
}

#[test]
fn leaves_unnamed_colors_out_of_escape_sequences() {
    let segment = SegmentContent::new(
        "test",
        "x",
        Style {
            fg: Some("202".to_string()),
            bg: Some("#102030".to_string()),
            bold: false,
        },
    );

    assert_eq!(lower_segment(&segment), "x");
}

#[test]
fn shortens_home_paths() {
    assert_eq!(
        display_path("/Users/me/dev/oss/nova", Some("/Users/me"), 4),
        "~/d/o/nova"
    );
}

#[test]
fn caps_long_paths_with_ellipsis() {
    assert_eq!(
        display_path("/Users/me/projects/nova/src/render", Some("/Users/me"), 2),
        "~/…/s/render"
    );
}

#[test]
fn preserves_full_paths_when_component_cap_is_zero() {
    assert_eq!(
        display_path("/Users/me/projects/nova", Some("/Users/me"), 0),
        "~/projects/nova"
    );
}

#[test]
fn keeps_root_visible() {
    assert_eq!(display_path("/", None, 4), "/");
    assert_eq!(display_path("/opt/homebrew/bin", None, 4), "/opt/homebrew/bin");
}

#[test]
fn home_itself_is_shown_as_a_tilde() {
    assert_eq!(display_path("/Users/me", Some("/Users/me"), 4), "~");
    assert_eq!(display_path("/Users/meme", Some("/Users/me"), 4), "/Users/meme");
}

#[test]
fn formats_milliseconds_and_seconds() {
    assert_eq!(format_duration(999), "+999ms");
    assert_eq!(format_duration(1_050), "+1.1s");
    assert_eq!(format_duration(2_000), "+2s");
    assert_eq!(format_duration(12_345), "+12.3s");
}

fn duration_state(duration_ms: u64) -> PromptState {
    PromptState {
        duration_ms: Some(duration_ms),
        ..state("/tmp", 0, Keymap::Main)
    }
}

#[test]
fn renders_default_plus_prefix() {
    let state = duration_state(2_000);

    let rendered = DurationSegment
        .render(&state, &SegmentConfig::default())
        .expect("duration should render");

    assert_eq!(rendered.text, "+2s");
    assert_eq!(rendered.parts[0].text, "+");
    assert_eq!(rendered.parts[1].text, "2s");
}

#[test]
fn hides_durations_below_the_threshold() {
    assert_eq!(
        DurationSegment.render(&duration_state(1_999), &SegmentConfig::default()),
        None
    );
    let config = SegmentConfig {
        min_ms: Some(0),
        ..SegmentConfig::default()
    };
    assert_eq!(
        DurationSegment
            .render(&duration_state(0), &config)
            .map(|segment| segment.text),
        Some("+0ms".to_string())
    );
}

#[test]
fn renders_configured_prefix_with_value_style() {
    let state = duration_state(2_000);
    let config = SegmentConfig {
        prefix: Some("took ".to_string()),
        style: StyleConfig {
            fg: Some("white".to_string()),
            bg: None,
            bold: false,
        },
        ..SegmentConfig::default()
    };

    let rendered = DurationSegment
        .render(&state, &config)
        .expect("duration should render");

    assert_eq!(rendered.text, "took 2s");
    assert_eq!(rendered.parts[0].text, "took ");
    assert_eq!(rendered.parts[0].style.fg.as_deref(), Some("white"));
    assert_eq!(rendered.parts[1].text, "2s");
    assert_eq!(rendered.parts[1].style.fg.as_deref(), Some("white"));
}

#[test]
fn renders_configured_prefix_style_separately() {
    let state = duration_state(2_000);
    let config = SegmentConfig {
        prefix: Some("took ".to_string()),
        prefix_style: StyleConfig {
            fg: Some("cyan".to_string()),
            bg: None,
            bold: true,
        },
        style: StyleConfig {
            fg: Some("white".to_string()),
            bg: None,
            bold: false,
        },
        ..SegmentConfig::default()
    };

    let rendered = DurationSegment
        .render(&state, &config)
        .expect("duration should render");

    assert_eq!(rendered.text, "took 2s");
    assert_eq!(rendered.parts[0].style.fg.as_deref(), Some("cyan"));
    assert!(rendered.parts[0].style.bold);
    assert_eq!(rendered.parts[1].style.fg.as_deref(), Some("white"));
    assert!(!rendered.parts[1].style.bold);
}

#[test]
fn renders_without_prefix_when_configured_empty() {
    let state = duration_state(2_000);
    let config = SegmentConfig {
        prefix: Some(String::new()),
        ..SegmentConfig::default()
    };

    let rendered = DurationSegment
        .render(&state, &config)
        .expect("duration should render");

    assert_eq!(rendered.text, "2s");
    assert_eq!(rendered.parts.len(), 1);
    assert_eq!(rendered.parts[0].text, "2s");
}

#[test]
fn hides_success_status() {
    let segment = ExitStatusSegment;

    assert_eq!(
        segment.render(&state("/tmp", 0, Keymap::Main), &SegmentConfig::default()),
        None
    );
}

#[test]
fn renders_failed_status_in_brackets() {
    let segment = ExitStatusSegment;

    let rendered = segment
        .render(&state("/tmp", 127, Keymap::Main), &SegmentConfig::default())
        .expect("failed status should render");

    assert_eq!(rendered.id, "exit_status");
    assert_eq!(rendered.text, "[127]");
    assert_eq!(rendered.style.fg.as_deref(), Some("red"));
    assert!(rendered.style.bold);
}

#[test]
fn renders_negative_status_in_brackets() {
    let rendered = ExitStatusSegment
        .render(&state("/tmp", -2, Keymap::Main), &SegmentConfig::default())
        .expect("failed status should render");

    assert_eq!(rendered.text, "[-2]");
}

#[test]
fn renders_prompt_time_when_available() {
    let state = PromptState {
        time: Some("11:16:42".to_string()),
        ..state("/repo", 0, Keymap::Main)
    };

    let segment = TimeSegment
        .render(&state, &SegmentConfig::default())
        .expect("time should render");

    assert_eq!(segment.id, "time");
    assert_eq!(segment.text, "11:16:42");
}

#[test]
fn omits_prompt_time_when_unavailable() {
    assert_eq!(
        TimeSegment.render(&state("/repo", 0, Keymap::Main), &SegmentConfig::default()),
        None
    );
}

#[test]
fn renders_user_and_host_when_available() {
    let state = PromptState {
        env: PromptEnv {
            user: Some("nova".to_string()),
            host: Some("M4Pro".to_string()),
            ..PromptEnv::default()
        },
        ..state("/repo", 0, Keymap::Main)
    };

    let segment = UserHostSegment
        .render(&state, &SegmentConfig::default())
        .expect("user host should render");

    assert_eq!(segment.id, "user_host");
    assert_eq!(segment.text, "nova@M4Pro");
    assert_eq!(segment.parts[0].text, "nova");
    assert_eq!(segment.parts[0].style.fg.as_deref(), Some("green"));
    assert_eq!(segment.parts[1].text, "@M4Pro");
    assert_eq!(segment.parts[1].style, Style::default());
}

#[test]
fn omits_user_host_when_context_is_missing() {
    assert_eq!(
        UserHostSegment.render(&state("/repo", 0, Keymap::Main), &SegmentConfig::default()),
        None
    );
}

#[test]
fn uses_default_style_for_success_without_config() {
    let rendered = PromptCharSegment
        .render(&state("/tmp", 0, Keymap::Main), &SegmentConfig::default())
        .expect("prompt char should render");

    assert_eq!(rendered.text, "❯ ");
    assert_eq!(rendered.style, Style::default());
}

#[test]
fn uses_red_style_for_failure_without_config() {
    let rendered = PromptCharSegment
        .render(&state("/tmp", 1, Keymap::Main), &SegmentConfig::default())
        .expect("prompt char should render");

    assert_eq!(rendered.text, "❯ ");
    assert_eq!(rendered.style.fg.as_deref(), Some("red"));
    assert!(rendered.style.bold);
}

#[test]
fn configured_prompt_style_overrides_default_failure_style() {
    let config = SegmentConfig {
        style: StyleConfig {
            fg: Some("green".to_string()),
            bg: None,
            bold: true,
        },
        ..SegmentConfig::default()
    };

    let rendered = PromptCharSegment
        .render(&state("/tmp", 1, Keymap::Main), &config)
        .expect("prompt char should render");

    assert_eq!(rendered.text, "❯ ");
    assert_eq!(rendered.style.fg.as_deref(), Some("green"));
    assert!(rendered.style.bold);
}

#[test]
fn configured_error_style_overrides_prompt_style_on_failure() {
    let config = SegmentConfig {
        style: StyleConfig {
            fg: Some("green".to_string()),
            bg: None,
            bold: false,
        },
        error_style: StyleConfig {
            fg: Some("red".to_string()),
            bg: None,
            bold: true,
        },
        ..SegmentConfig::default()
    };

    let rendered = PromptCharSegment
        .render(&state("/tmp", 1, Keymap::Main), &config)
        .expect("prompt char should render");

    assert_eq!(rendered.text, "❯ ");
    assert_eq!(rendered.style.fg.as_deref(), Some("red"));
    assert!(rendered.style.bold);
}

#[test]
fn appends_gap_to_configured_prompt_character() {
    let config = SegmentConfig {
        character: Some(">_".to_string()),
        ..SegmentConfig::default()
    };

    let rendered = PromptCharSegment
        .render(&state("/tmp", 0, Keymap::Main), &config)
        .expect("prompt char should render");

    assert_eq!(rendered.text, ">_ ");
}

#[test]
fn appends_gap_to_configured_vi_prompt_character() {
    let config = SegmentConfig {
        characters: vec![("vi_command".to_string(), "%".to_string())],
        ..SegmentConfig::default()
    };

    let rendered = PromptCharSegment
        .render(&state("/tmp", 0, Keymap::ViCommand), &config)
        .expect("prompt char should render");

    assert_eq!(rendered.text, "% ");
}

#[test]
fn vi_command_keymap_uses_its_default_character() {
    let rendered = PromptCharSegment
        .render(&state("/tmp", 0, Keymap::ViCommand), &SegmentConfig::default())
        .expect("prompt char should render");

    assert_eq!(rendered.text, "❮ ");
    assert_eq!(Keymap::parse("vicmd"), Keymap::ViCommand);
    assert_eq!(Keymap::parse("vi-command"), Keymap::ViCommand);
    assert_eq!(Keymap::parse("viins"), Keymap::Main);
}
