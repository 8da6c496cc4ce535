use nova::cache::CacheKey;
use nova::config::SegmentConfig;
use nova::segments::runtime::collect::{
    bun_cache_key, collect_command_version, collect_optional_command_output,
    collected_version_segment, node_cache_key, python_attempt, python_cache_key,
    python_command_paths, remaining_time, runtime_cache_source, rust_cache_key,
    RuntimeCollectError, RuntimeKind,
};
use nova::segments::runtime::detect::{
    is_bun_project_dir, is_deno_project_dir, is_node_project_dir, is_python_project_dir,
};
use nova::segments::runtime::{
    parse_bun_version, parse_deno_version, parse_node_version, parse_python_version,
    parse_rustc_version, render_bun_version, render_deno_version, render_nix_shell,
    render_node_version, render_python_version, render_rust_version,
};
use nova::segments::workspace::{find_rust_project_root, path_ancestors, DirEntry};
use nova::state::PromptEnv;
use nova::worker::AsyncSegmentFailure;

fn file(name: &str) -> DirEntry {
    DirEntry {
        name: name.to_string(),
        is_dir: false,
    }
}

fn dir(name: &str) -> DirEntry {
    DirEntry {
        name: name.to_string(),
        is_dir: true,
    }
}

fn icon(text: &str) -> SegmentConfig {
    SegmentConfig {
        icon: Some(text.to_string()),
        ..SegmentConfig::default()
    }
}

#[test]
fn runtime_parses_rustc_version_output() {
    assert_eq!(
        parse_rustc_version("rustc 1.96.1 (abc 2026-01-01)\n"),
        Some("1.96.1".to_string())
    );
    assert_eq!(parse_rustc_version("not rustc\n"), None);
}

#[test]
fn rust_parses_rustc_version_output() {
    assert_eq!(
        parse_rustc_version("rustc 1.96.1 (abc 2026-01-01)\n"),
        Some("1.96.1".to_string())
    );
    assert_eq!(parse_rustc_version("not rustc\n"), None);
}

#[test]
fn runtime_renders_rust_version_segment() {
    let segment =
        render_rust_version("1.96.1", &SegmentConfig::default()).expect("version should render");

    assert_eq!(segment.id, "rust_version");
    assert_eq!(segment.text, "\u{e7a8} 1.96.1");
    assert_eq!(segment.style.fg.as_deref(), Some("cyan"));
    assert!(segment.style.bold);
}

#[test]
fn rust_renders_rust_version_segment() {
    let segment =
        render_rust_version("1.96.1", &SegmentConfig::default()).expect("version should render");

    assert_eq!(segment.id, "rust_version");
    assert_eq!(segment.text, "\u{e7a8} 1.96.1");
    assert_eq!(segment.style.fg.as_deref(), Some("cyan"));
    assert!(segment.style.bold);
}

#[test]
fn runtime_renders_rust_version_with_configured_icon() {
    let segment = render_rust_version("1.96.1", &icon("rust")).expect("version should render");

    assert_eq!(segment.text, "rust 1.96.1");
}

#[test]
fn rust_renders_rust_version_with_configured_icon() {
    let segment = render_rust_version("1.96.1", &icon("rust")).expect("version should render");

    assert_eq!(segment.text, "rust 1.96.1");
}

#[test]
fn runtime_renders_rust_version_without_icon_when_configured_empty() {
    let segment = render_rust_version("1.96.1", &icon("")).expect("version should render");

    assert_eq!(segment.text, "1.96.1");
}

#[test]
fn rust_renders_rust_version_without_icon_when_configured_empty() {
    let segment = render_rust_version("1.96.1", &icon("")).expect("version should render");

    assert_eq!(segment.text, "1.96.1");
}

#[test]
fn empty_versions_render_nothing() {
    assert_eq!(render_rust_version("", &SegmentConfig::default()), None);
    assert_eq!(render_python_version("", &SegmentConfig::default()), None);
}

#[test]
fn parses_bun_version_output() {
    assert_eq!(parse_bun_version("1.2.18\n"), Some("1.2.18".to_string()));
    assert_eq!(parse_bun_version("\n"), None);
}

#[test]
fn renders_bun_version_segment() {
    let segment =
        render_bun_version("1.2.18", &SegmentConfig::default()).expect("version should render");

    assert_eq!(segment.id, "bun_version");
    assert_eq!(segment.text, "\u{e76f} 1.2.18");
    assert_eq!(segment.style.fg.as_deref(), Some("red"));
    assert!(segment.style.bold);
}

#[test]
fn renders_bun_version_with_configured_icon() {
    let segment = render_bun_version("1.2.18", &icon("bun")).expect("version should render");

    assert_eq!(segment.text, "bun 1.2.18");
}

#[test]
fn parses_deno_version_output() {
    assert_eq!(parse_deno_version("deno 2.3.6\n"), Some("2.3.6".to_string()));
    assert_eq!(parse_deno_version("not-enough\n"), None);
}

#[test]
fn renders_deno_version_segment() {
    let segment =
        render_deno_version("2.3.6", &SegmentConfig::default()).expect("version should render");

    assert_eq!(segment.id, "deno_version");
    assert_eq!(segment.text, "\u{e7c0} 2.3.6");
    assert_eq!(segment.style.fg.as_deref(), Some("green"));
    assert!(segment.style.bold);
}

#[test]
fn renders_deno_version_with_configured_icon() {
    let segment = render_deno_version("2.3.6", &icon("deno")).expect("version should render");

    assert_eq!(segment.text, "deno 2.3.6");
}

#[test]
fn parses_node_version_output() {
    assert_eq!(parse_node_version("v22.17.0\n"), Some("22.17.0".to_string()));
    assert_eq!(parse_node_version("22.17.0\n"), Some("22.17.0".to_string()));
    assert_eq!(parse_node_version("\n"), None);
}

#[test]
fn renders_node_version_segment() {
    let segment =
        render_node_version("22.17.0", &SegmentConfig::default()).expect("version should render");

    assert_eq!(segment.id, "node_version");
    assert_eq!(segment.text, "\u{e718} 22.17.0");
    assert_eq!(segment.style.fg.as_deref(), Some("green"));
    assert!(segment.style.bold);
}

#[test]
fn renders_node_version_with_configured_icon() {
    let segment = render_node_version("22.17.0", &icon("node")).expect("version should render");

    assert_eq!(segment.text, "node 22.17.0");
}

#[test]
fn parses_python_version_output() {
    assert_eq!(
        parse_python_version("Python 3.12.4\n"),
        Some("3.12.4".to_string())
    );
    assert_eq!(
        parse_python_version("Python 3.12.4 :: Anaconda, Inc.\n"),
        Some("3.12.4".to_string())
    );
    assert_eq!(parse_python_version("not-enough\n"), None);
}

#[test]
fn renders_python_version_segment() {
    let segment =
        render_python_version("3.12.4", &SegmentConfig::default()).expect("version should render");

    assert_eq!(segment.id, "python_version");
    assert_eq!(segment.text, "\u{e73c} 3.12.4");
    assert_eq!(segment.style.fg.as_deref(), Some("yellow"));
    assert!(segment.style.bold);
}

#[test]
fn renders_python_version_with_configured_icon() {
    let segment = render_python_version("3.12.4", &icon("py")).expect("version should render");

    assert_eq!(segment.text, "py 3.12.4");
}

#[test]
fn renders_nix_shell_segment_for_pure_shell() {
    let segment = render_nix_shell(
        &PromptEnv {
            in_nix_shell: Some("pure".to_string()),
            ..PromptEnv::default()
        },
        &SegmentConfig::default(),
    )
    .expect("nix shell should render");

    assert_eq!(segment.id, "nix_shell");
    assert_eq!(segment.text, "\u{f313} pure");
    assert_eq!(segment.style.fg.as_deref(), Some("blue"));
    assert!(segment.style.bold);
}

#[test]
fn renders_nix_shell_segment_with_name() {
    let segment = render_nix_shell(
        &PromptEnv {
            in_nix_shell: Some("impure".to_string()),
            nix_shell_name: Some("starship".to_string()),
            ..PromptEnv::default()
        },
        &SegmentConfig::default(),
    )
    .expect("nix shell should render");

    assert_eq!(segment.text, "\u{f313} impure (starship)");
}

#[test]
fn omits_nix_shell_segment_for_invalid_state() {
    assert_eq!(
        render_nix_shell(
            &PromptEnv {
                in_nix_shell: Some("unknown".to_string()),
                ..PromptEnv::default()
            },
            &SegmentConfig::default(),
        ),
        None
    );
}

#[test]
fn detects_bun_projects_from_starship_default_conditions() {
    for marker in ["bun.lock", "bun.lockb", "bunfig.toml"] {
        assert!(
            is_bun_project_dir(&[file(marker)]),
            "{marker} should trigger bun detection"
        );
    }
    assert!(!is_bun_project_dir(&[file("package.json")]));
}

#[test]
fn bun_projects_suppress_node_detection() {
    for marker in ["bun.lock", "bun.lockb", "bunfig.toml"] {
        let entries = [file("package.json"), file(marker)];
        assert!(
            !is_node_project_dir(&entries),
            "{marker} should suppress node detection"
        );
        assert!(is_bun_project_dir(&entries), "{marker} should trigger bun detection");
    }
}

#[test]
fn detects_deno_projects_from_starship_default_conditions() {
    for marker in [
        "deno.json",
        "deno.jsonc",
        "deno.lock",
        "mod.ts",
        "deps.ts",
        "mod.js",
        "deps.js",
    ] {
        assert!(
            is_deno_project_dir(&[file(marker)]),
            "{marker} should trigger deno detection"
        );
    }
}

#[test]
fn deno_projects_suppress_node_detection() {
    for marker in ["deno.json", "deno.jsonc", "deno.lock"] {
        let entries = [file("package.json"), file(marker)];
        assert!(
            !is_node_project_dir(&entries),
            "{marker} should suppress node detection"
        );
        assert!(is_deno_project_dir(&entries));
    }
}

#[test]
fn detects_node_projects_from_starship_default_conditions() {
    for marker in ["package.json", ".node-version", ".nvmrc"] {
        assert!(
            is_node_project_dir(&[file(marker)]),
            "{marker} should trigger node detection"
        );
    }
    for name in [
        "index.js",
        "index.mjs",
        "index.cjs",
        "index.ts",
        "index.mts",
        "index.cts",
    ] {
        assert!(
            is_node_project_dir(&[file(name)]),
            "{name} should trigger node detection"
        );
    }
    assert!(is_node_project_dir(&[dir("node_modules")]));
}

#[test]
fn excludes_node_projects_with_starship_default_negative_conditions() {
    for excluded in [
        "bunfig.toml",
        "bun.lock",
        "bun.lockb",
        "deno.json",
        "deno.jsonc",
        "deno.lock",
    ] {
        assert!(
            !is_node_project_dir(&[file("package.json"), file(excluded)]),
            "{excluded} should suppress node detection"
        );
    }
    assert!(!is_node_project_dir(&[file("package.json"), dir("esy.lock")]));
}

#[test]
fn extension_detection_reads_the_last_or_the_first_dot() {
    assert!(is_node_project_dir(&[file("app.test.ts")]));
    assert!(is_node_project_dir(&[file("types.d.ts")]));
    assert!(!is_node_project_dir(&[file("archive.js.map")]));
    assert!(!is_node_project_dir(&[file(".eslintrc.js")]));
    assert!(!is_node_project_dir(&[file("README")]));
    assert!(!is_node_project_dir(&[dir("src.js")]));
    assert!(!is_node_project_dir(&[file("package.json.bak")]));
}

#[test]
fn detects_python_projects_from_starship_default_conditions() {
    for marker in [
        "requirements.txt",
        ".python-version",
        "pyproject.toml",
        "Pipfile",
        "tox.ini",
        "setup.py",
        "__init__.py",
    ] {
        assert!(
            is_python_project_dir(&[file(marker)], None),
            "{marker} should trigger python detection"
        );
    }
    for name in ["main.py", "notebook.ipynb"] {
        assert!(
            is_python_project_dir(&[file(name)], None),
            "{name} should trigger python detection"
        );
    }
}

#[test]
fn detects_python_projects_from_virtual_env() {
    assert!(is_python_project_dir(&[], Some("/tmp/project/.venv")));
    assert!(!is_python_project_dir(&[], None));
}

#[test]
fn finds_rust_project_root_from_markers() {
    let ancestors = path_ancestors("/tmp/work/crates/nova");
    assert_eq!(
        ancestors,
        ["/tmp/work/crates/nova", "/tmp/work/crates", "/tmp/work", "/tmp", "/"]
    );
    let markers = vec![false, false, true, false, false];

    assert_eq!(
        find_rust_project_root(&ancestors, &markers),
        Some("/tmp/work".to_string())
    );
}

#[test]
fn runtime_cache_key_is_none_outside_rust_projects() {
    let ancestors = path_ancestors("/tmp/plain");
    let markers = vec![false; ancestors.len()];

    assert_eq!(rust_cache_key(&ancestors, &markers, None, 1), None);
}

#[test]
fn rust_cache_key_is_none_outside_rust_projects() {
    let ancestors = path_ancestors("/tmp/elsewhere");
    let markers = vec![false; ancestors.len()];

    assert_eq!(rust_cache_key(&ancestors, &markers, Some("/usr/bin"), 1), None);
}

#[test]
fn rust_cache_key_uses_the_project_root() {
    let ancestors = path_ancestors("/tmp/work/src");
    let markers = vec![false, true, false, false];

    assert_eq!(
        rust_cache_key(&ancestors, &markers, None, 2),
        Some(CacheKey::new("rust_version", "/tmp/work", 2))
    );
}

#[test]
fn runtime_cache_key_changes_when_path_changes() {
    let entries = [file("package.json")];
    let first =
        node_cache_key("/tmp/app", &entries, Some("/opt/node-a/bin"), 1).expect("node key");
    let same = node_cache_key("/tmp/app", &entries, Some("/opt/node-a/bin"), 1).expect("node key");
    let second =
        node_cache_key("/tmp/app", &entries, Some("/opt/node-b/bin"), 1).expect("node key");
    let fallback = node_cache_key("/tmp/app", &entries, None, 1).expect("node key");

    assert_eq!(first, same);
    assert_ne!(first, second);
    assert_ne!(first, fallback);
    assert_eq!(fallback.source, "/tmp/app");
    assert!(first.source.starts_with("/tmp/app|path="));
    assert_eq!(first.source.len(), "/tmp/app|path=".len() + 16);
}

#[test]
fn an_empty_path_is_no_path() {
    assert_eq!(runtime_cache_source("/tmp/app", Some("")), "/tmp/app");
    assert_eq!(runtime_cache_source("/tmp/app", None), "/tmp/app");
    let digest = runtime_cache_source("/tmp/app", Some("/bin"));
    assert!(digest[digest.len() - 16..]
        .chars()
        .all(|c| c.is_ascii_hexdigit() && !c.is_ascii_uppercase()));
}

#[test]
fn cache_keys_are_none_outside_the_project_kind() {
    assert_eq!(bun_cache_key("/tmp/app", &[file("package.json")], None, 1), None);
    assert_eq!(node_cache_key("/tmp/app", &[file("bun.lock")], None, 1), None);
}

#[test]
fn python_cache_key_records_the_virtual_env() {
    let key = python_cache_key("/tmp/app", &[], Some("/tmp/app/.venv"), None, 3)
        .expect("virtual env marks a python project");

    assert_eq!(key, CacheKey::new("python_version", "/tmp/app|venv=/tmp/app/.venv", 3));
    assert_eq!(python_cache_key("/tmp/app", &[], None, None, 3), None);
}

#[test]
fn python_commands_try_the_virtual_env_first() {
    assert_eq!(
        python_command_paths(Some("/tmp/app/.venv")),
        ["/tmp/app/.venv/bin/python", "python", "python3", "python2"]
    );
    assert_eq!(python_command_paths(None), ["python", "python3", "python2"]);
}

fn missing() -> RuntimeCollectError {
    RuntimeCollectError::Spawn {
        missing: true,
        reason: "No such file or directory".to_string(),
    }
}

#[test]
fn falls_back_to_later_python_commands() {
    assert_eq!(python_attempt(Err(missing())), None);
    assert_eq!(
        python_attempt(Ok(b"Python 3.12.4\n".to_vec())),
        Some(Ok(Some("3.12.4".to_string())))
    );
    assert_eq!(python_attempt(Ok(Vec::new())), None);
    assert_eq!(
        python_attempt(Err(RuntimeCollectError::TimedOut)),
        Some(Err(RuntimeCollectError::TimedOut))
    );
}

#[test]
fn missing_commands_give_no_version_and_other_failures_an_error() {
    assert_eq!(collect_optional_command_output(Err(missing())), Ok(None));
    assert_eq!(
        collect_optional_command_output(Ok(b"x".to_vec())),
        Ok(Some(b"x".to_vec()))
    );
    assert_eq!(
        collect_command_version(RuntimeKind::Rust, Ok(b"rustc 1.80.0 (x)\n".to_vec())),
        Ok(Some("1.80.0".to_string()))
    );
    assert_eq!(collect_command_version(RuntimeKind::Node, Err(missing())), Ok(None));
    assert_eq!(
        collect_command_version(RuntimeKind::Deno, Err(RuntimeCollectError::ReaderPanicked)),
        Err(RuntimeCollectError::ReaderPanicked)
    );
    assert_eq!(
        RuntimeCollectError::TimedOut.message(),
        "runtime collection timed out"
    );
}

#[test]
fn no_time_left_is_a_timeout() {
    assert_eq!(remaining_time(1_500, 1_000), Ok(500));
    assert_eq!(remaining_time(1_000, 1_000), Err(RuntimeCollectError::TimedOut));
    assert_eq!(remaining_time(900, 1_000), Err(RuntimeCollectError::TimedOut));
}

#[test]
fn collected_versions_become_one_segment() {
    let key = CacheKey::new("bun_version", "/tmp/app", 1);
    let shown = collected_version_segment(
        key.clone(),
        Ok(Some("1.2.18".to_string())),
        RuntimeKind::Bun,
        &SegmentConfig::default(),
    );
    assert_eq!(shown.len(), 1);
    assert_eq!(shown[0].key, key);
    assert_eq!(
        shown[0].content,
        Ok(render_bun_version("1.2.18", &SegmentConfig::default()))
    );
    let failed = collected_version_segment(
        key,
        Err(RuntimeCollectError::TimedOut),
        RuntimeKind::Bun,
        &SegmentConfig::default(),
    );
    assert_eq!(failed[0].content, Err(AsyncSegmentFailure::Failed));
}

#[test]
fn runtime_commands_ask_for_the_version_with_the_request_path() {
    check_runtime_commands();
}

fn check_runtime_commands() {
    check_kind(nova::segments::runtime::collect::RuntimeKind::Deno, "deno", "-V");
    check_kind(nova::segments::runtime::collect::RuntimeKind::Node, "node", "--version");
    check_kind(nova::segments::runtime::collect::RuntimeKind::Rust, "rustc", "--version");
    check_kind(nova::segments::runtime::collect::RuntimeKind::Bun, "bun", "--version");

    let line = nova::segments::runtime::collect::runtime_command(
        nova::segments::runtime::collect::RuntimeKind::Node,
        "node",
        "/proj",
        Some(""),
    );
    assert_eq!(line.path, None);
    let line = nova::segments::runtime::collect::runtime_command(
        nova::segments::runtime::collect::RuntimeKind::Node,
        "node",
        "/proj",
        None,
    );
    assert_eq!(line.path, None);
}

fn check_kind(kind: nova::segments::runtime::collect::RuntimeKind, program: &str, arg: &str) {
    assert_eq!(kind.program(), program);
    let line = nova::segments::runtime::collect::runtime_command(
        kind,
        kind.program(),
        "/proj",
        Some("/opt/bin:/usr/bin"),
    );
    assert_eq!(line.program, program);
    assert_eq!(line.args, vec![arg.to_string()]);
    assert_eq!(line.dir, "/proj");
    assert_eq!(line.path.as_deref(), Some("/opt/bin:/usr/bin"));
}
