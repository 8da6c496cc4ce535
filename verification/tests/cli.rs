use nova::cli::{
    format_prompt_output, parse_columns, parse_parent_pid, preview_prompt, zsh_quote, CheckArgs,
    PromptArgs, PromptFormat, WorkerArgs,
};
use nova::config::Config;
use nova::render::{render, LoweredPrompt};
use nova::state::{Keymap, PromptEnv, PromptState};

fn args(items: &[&str]) -> Vec<String> {
    items.iter().map(|item| item.to_string()).collect()
}

#[test]
fn prompt_options_fill_in_the_request() {
    let parsed = PromptArgs::parse(
        &args(&[
            "--cwd",
            "/repo",
            "--cols",
            "120",
            "--exit",
            "-1",
            "--duration-ms",
            "2500",
            "--time",
            "11:16:42",
            "--keymap",
            "vicmd",
            "--config",
            "/tmp/c.toml",
            "--format",
            "shell",
        ]),
        "/start".to_string(),
        None,
    )
    .expect("options should parse");

    assert_eq!(
        parsed,
        PromptArgs {
            cwd: "/repo".to_string(),
            columns: 120,
            exit_status: -1,
            duration_ms: Some(2_500),
            time: Some("11:16:42".to_string()),
            keymap: Keymap::ViCommand,
            config_path: Some("/tmp/c.toml".to_string()),
            format: PromptFormat::Shell,
        }
    );
}

#[test]
fn prompt_defaults_come_from_the_environment() {
    let parsed = PromptArgs::parse(&[], "/start".to_string(), Some("132")).expect("no options");
    assert_eq!(parsed.cwd, "/start");
    assert_eq!(parsed.columns, 132);
    assert_eq!(parsed.format, PromptFormat::Plain);

    for columns in [Some("0"), Some("wide"), None] {
        let parsed = PromptArgs::parse(&[], "/start".to_string(), columns).expect("no options");
        assert_eq!(parsed.columns, 80);
    }
}

#[test]
fn prompt_option_errors_name_the_option() {
    assert_eq!(
        PromptArgs::parse(&args(&["--cols"]), "/".to_string(), None),
        Err("--cols requires a value".to_string())
    );
    assert_eq!(
        PromptArgs::parse(&args(&["--cols", "0"]), "/".to_string(), None),
        Err("--cols must be greater than 0".to_string())
    );
    assert_eq!(
        PromptArgs::parse(&args(&["--cols", "x"]), "/".to_string(), None),
        Err("invalid value for --cols: invalid digit found in string".to_string())
    );
    assert_eq!(
        PromptArgs::parse(&args(&["--bogus"]), "/".to_string(), None),
        Err("unknown prompt option `--bogus`".to_string())
    );
    assert_eq!(
        PromptArgs::parse(&args(&["--format", "html"]), "/".to_string(), None),
        Err("unknown prompt format `html`".to_string())
    );
    assert_eq!(parse_columns("70000"), Err("invalid value for --cols: number too large to fit in target type".to_string()));
}

#[test]
fn worker_options_and_environment() {
    let parsed = WorkerArgs::parse(&args(&["--dir", "/run/nova-1"]), Some("token"), Some("42"))
        .expect("worker options should parse");
    assert_eq!(
        parsed,
        WorkerArgs {
            runtime_dir: "/run/nova-1".to_string(),
            session_token: "token".to_string(),
            parent_pid: Some(42),
        }
    );

    let overridden = WorkerArgs::parse(
        &args(&["--session-token", "other", "--parent-pid", "7", "--dir", "/d"]),
        Some(""),
        Some(""),
    )
    .expect("options override the environment");
    assert_eq!(overridden.session_token, "other");
    assert_eq!(overridden.parent_pid, Some(7));

    assert_eq!(
        WorkerArgs::parse(&[], Some("token"), None),
        Err("worker requires --dir".to_string())
    );
    assert_eq!(
        WorkerArgs::parse(&args(&["--dir", "/d"]), Some(""), None),
        Err("worker requires NOVA_SESSION_TOKEN or --session-token".to_string())
    );
    assert_eq!(
        WorkerArgs::parse(&args(&["--dir", "/d"]), Some("t"), Some("0")),
        Err("NOVA_PARENT_PID must be greater than 0".to_string())
    );
    assert_eq!(
        parse_parent_pid("-3", "--parent-pid"),
        Err("invalid value for --parent-pid: invalid digit found in string".to_string())
    );
}

#[test]
fn check_options() {
    assert_eq!(CheckArgs::parse(&[]), Ok(CheckArgs { config_path: None }));
    assert_eq!(
        CheckArgs::parse(&args(&["--config", "/c.toml"])),
        Ok(CheckArgs {
            config_path: Some("/c.toml".to_string())
        })
    );
    assert_eq!(
        CheckArgs::parse(&args(&["--verbose"])),
        Err("unknown check option `--verbose`".to_string())
    );
}

#[test]
fn prints_prompts_in_each_format() {
    let output = LoweredPrompt {
        prompt: "%{\u{1b}[32m%}it's 100%%%{\u{1b}[0m%}".to_string(),
        rprompt: String::new(),
    };
    assert_eq!(
        format_prompt_output(PromptFormat::Plain, &output),
        "%{\u{1b}[32m%}it's 100%%%{\u{1b}[0m%}\n"
    );
    assert_eq!(
        format_prompt_output(PromptFormat::Preview, &output),
        "\u{1b}[32mit's 100%\u{1b}[0m\n"
    );
    assert_eq!(
        format_prompt_output(PromptFormat::Shell, &output),
        "PROMPT='%{\u{1b}[32m%}it'\\''s 100%%%{\u{1b}[0m%}'\nRPROMPT=''\n"
    );

    let with_right = LoweredPrompt {
        prompt: "a".to_string(),
        rprompt: "b".to_string(),
    };
    assert_eq!(format_prompt_output(PromptFormat::Plain, &with_right), "a\nb\n");
    assert_eq!(format_prompt_output(PromptFormat::Preview, &with_right), "a\nb\n");
}

#[test]
fn quoting_and_previews() {
    assert_eq!(zsh_quote("it's"), "'it'\\''s'");
    assert_eq!(zsh_quote(""), "''");
    assert_eq!(preview_prompt("%{x%}%%"), "x%");
    assert_eq!(PromptFormat::parse("preview"), Ok(PromptFormat::Preview));
}

fn prompt_command_output(options: &[&str]) -> Result<String, String> {
    let parsed = PromptArgs::parse(&args(options), "/start".to_string(), None)?;
    let state = PromptState {
        cwd: parsed.cwd,
        exit_status: parsed.exit_status,
        duration_ms: parsed.duration_ms,
        time: parsed.time,
        columns: parsed.columns,
        keymap: parsed.keymap,
        env: PromptEnv::default(),
    };
    let output = render(&Config::default(), &state);
    Ok(format_prompt_output(parsed.format, &output))
}

#[test]
fn renders_prompt_command() {
    let stdout = prompt_command_output(&["--cwd", "/tmp/nova", "--cols", "40", "--exit", "1"])
        .expect("prompt should render");

    assert!(stdout.contains("/tmp/nova"));
    assert!(stdout.contains("[1]"));
    assert!(stdout.contains("❯"));
}

#[test]
fn rejects_zero_columns() {
    let error = prompt_command_output(&["--cols", "0"]).expect_err("zero columns are refused");

    assert!(error.contains("--cols must be greater than 0"));
}

#[test]
fn prints_shell_assignments_for_prompt_command() {
    let stdout = prompt_command_output(&["--cwd", "/tmp/nova", "--format", "shell"])
        .expect("prompt should render");

    assert!(stdout.contains("PROMPT='"));
    assert!(stdout.contains("RPROMPT='"));
}

#[test]
fn previews_prompt_without_zsh_nonprinting_markers() {
    let stdout = prompt_command_output(&["--cwd", "/tmp/nova", "--format", "preview"])
        .expect("prompt should render");

    assert!(!stdout.contains("%{"));
    assert!(!stdout.contains("%}"));
    assert!(stdout.contains("\u{1b}[32m/tmp/nova"));
}
