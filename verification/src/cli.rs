//! The command line: what the `prompt`, `worker` and `check` commands are given, and
//! how a rendered prompt is printed.
//!
//! The environment values the commands fall back on are read by the caller and
//! passed in.

use vstd::prelude::*;

use crate::render::{LoweredPrompt, LoweredPromptView};
use crate::state::Keymap;
use crate::text::{copy_str, parse_signed, parse_unsigned, push_str, str_eq};
use crate::zsh_init::{replace_all, single_quoted, zsh_single_quote};

verus! {

// ---------------------------------------------------------------------------
// Numbers, as `str::parse` reads them
// ---------------------------------------------------------------------------

/// The message `str::parse::<u16>` fails with on `s`.
pub uninterp spec fn u16_parse_error(s: Seq<char>) -> Seq<char>;

/// The message `str::parse::<i32>` fails with on `s`.
pub uninterp spec fn i32_parse_error(s: Seq<char>) -> Seq<char>;

/// The message `str::parse::<u64>` fails with on `s`.
pub uninterp spec fn u64_parse_error(s: Seq<char>) -> Seq<char>;

/// The message `str::parse::<u32>` fails with on `s`.
pub uninterp spec fn u32_parse_error(s: Seq<char>) -> Seq<char>;

/// Calls `str::parse::<u16>`. As std documents, it accepts an optional `+` followed
/// by decimal digits whose value fits; the message of a failure (the error's
/// `Display` text) is named, not stated.
#[verifier::external_body]
fn parse_u16_text(value: &str) -> (r: Result<u16, String>)
    ensures
        match r {
            Ok(v) => parse_unsigned(value@, u16::MAX as nat) == Some(v as nat),
            Err(e) => parse_unsigned(value@, u16::MAX as nat) is None && e@ == u16_parse_error(value@),
        },
{
    match value.parse::<u16>() {
        Ok(v) => Ok(v),
        Err(e) => Err(e.to_string()),
    }
}

/// Calls `str::parse::<i32>`: an optional sign followed by decimal digits whose
/// value fits; the message of a failure is named, not stated.
#[verifier::external_body]
fn parse_i32_text(value: &str) -> (r: Result<i32, String>)
    ensures
        match r {
            Ok(v) => parse_signed(value@, i32::MIN as int, i32::MAX as int) == Some(v as int),
            Err(e) => parse_signed(value@, i32::MIN as int, i32::MAX as int) is None && e@
                == i32_parse_error(value@),
        },
{
    match value.parse::<i32>() {
        Ok(v) => Ok(v),
        Err(e) => Err(e.to_string()),
    }
}

/// Calls `str::parse::<u64>`, as `parse_u16_text` calls it for `u16`.
#[verifier::external_body]
fn parse_u64_text(value: &str) -> (r: Result<u64, String>)
    ensures
        match r {
            Ok(v) => parse_unsigned(value@, u64::MAX as nat) == Some(v as nat),
            Err(e) => parse_unsigned(value@, u64::MAX as nat) is None && e@ == u64_parse_error(value@),
        },
{
    match value.parse::<u64>() {
        Ok(v) => Ok(v),
        Err(e) => Err(e.to_string()),
    }
}

/// Calls `str::parse::<u32>`, as `parse_u16_text` calls it for `u16`.
#[verifier::external_body]
fn parse_u32_text(value: &str) -> (r: Result<u32, String>)
    ensures
        match r {
            Ok(v) => parse_unsigned(value@, u32::MAX as nat) == Some(v as nat),
            Err(e) => parse_unsigned(value@, u32::MAX as nat) is None && e@ == u32_parse_error(value@),
        },
{
    match value.parse::<u32>() {
        Ok(v) => Ok(v),
        Err(e) => Err(e.to_string()),
    }
}

// ---------------------------------------------------------------------------
// Values of options
// ---------------------------------------------------------------------------

/// How `nova prompt` prints the prompt.
#[derive(Clone, Copy, Debug, PartialEq, Eq)]
pub enum PromptFormat {
    Plain,
    Preview,
    Shell,
}

/// The value after the option at `i`.
pub open spec fn value_after(args: Seq<Seq<char>>, i: int, option: Seq<char>) -> Result<
    Seq<char>,
    Seq<char>,
> {
    if 0 <= i && i + 1 < args.len() {
        Ok(args[i + 1])
    } else {
        Err(option + " requires a value"@)
    }
}

/// A prompt format's name.
pub open spec fn format_of(v: Seq<char>) -> Result<PromptFormat, Seq<char>> {
    if v == "plain"@ {
        Ok(PromptFormat::Plain)
    } else if v == "preview"@ {
        Ok(PromptFormat::Preview)
    } else if v == "shell"@ {
        Ok(PromptFormat::Shell)
    } else {
        Err("unknown prompt format `"@ + v + "`"@)
    }
}

/// The value of `--cols`: a positive `u16`.
pub open spec fn columns_of(v: Seq<char>) -> Result<u16, Seq<char>> {
    match parse_unsigned(v, u16::MAX as nat) {
        Some(n) => if n == 0 {
            Err("--cols must be greater than 0"@)
        } else {
            Ok(n as u16)
        },
        None => Err("invalid value for --cols: "@ + u16_parse_error(v)),
    }
}

/// The value of `--exit`: an `i32`.
pub open spec fn exit_of(v: Seq<char>) -> Result<i32, Seq<char>> {
    match parse_signed(v, i32::MIN as int, i32::MAX as int) {
        Some(n) => Ok(n as i32),
        None => Err("invalid value for --exit: "@ + i32_parse_error(v)),
    }
}

/// The value of `--duration-ms`: a `u64`.
pub open spec fn duration_of(v: Seq<char>) -> Result<u64, Seq<char>> {
    match parse_unsigned(v, u64::MAX as nat) {
        Some(n) => Ok(n as u64),
        None => Err("invalid value for --duration-ms: "@ + u64_parse_error(v)),
    }
}

/// A parent process id, read from `source`: a positive `u32`.
pub open spec fn parent_pid_of(v: Seq<char>, source: Seq<char>) -> Result<u32, Seq<char>> {
    match parse_unsigned(v, u32::MAX as nat) {
        Some(n) => if n == 0 {
            Err(source + " must be greater than 0"@)
        } else {
            Ok(n as u32)
        },
        None => Err("invalid value for "@ + source + ": "@ + u32_parse_error(v)),
    }
}

/// The keymap a name selects.
pub open spec fn keymap_of(v: Seq<char>) -> Keymap {
    if v == "vicmd"@ || v == "vi-command"@ {
        Keymap::ViCommand
    } else {
        Keymap::Main
    }
}

impl PromptFormat {
    /// The format named `input`.
    pub fn parse(input: &str) -> (r: Result<PromptFormat, String>)
        ensures
            match r {
                Ok(f) => format_of(input@) == Ok::<PromptFormat, Seq<char>>(f),
                Err(e) => format_of(input@) == Err::<PromptFormat, Seq<char>>(e@),
            },
    {
        if str_eq(input, "plain") {
            Ok(PromptFormat::Plain)
        } else if str_eq(input, "preview") {
            Ok(PromptFormat::Preview)
        } else if str_eq(input, "shell") {
            Ok(PromptFormat::Shell)
        } else {
            let mut e = "unknown prompt format `".to_string();
            push_str(&mut e, input);
            push_str(&mut e, "`");
            Err(e)
        }
    }
}

/// The views of the arguments.
pub open spec fn args_view(args: Seq<String>) -> Seq<Seq<char>> {
    Seq::new(args.len(), |i: int| args[i]@)
}

/// The value after the option at `index`.
pub fn required_value<'a>(args: &'a [String], index: usize, option: &str) -> (r: Result<&'a String, String>)
    ensures
        match r {
            Ok(v) => value_after(args_view(args@), index as int, option@) == Ok::<
                Seq<char>,
                Seq<char>,
            >(v@),
            Err(e) => value_after(args_view(args@), index as int, option@) == Err::<
                Seq<char>,
                Seq<char>,
            >(e@),
        },
{
    if index < args.len() && index + 1 < args.len() {
        Ok(&args[index + 1])
    } else {
        let mut e = copy_str(option);
        push_str(&mut e, " requires a value");
        Err(e)
    }
}

/// The value of `--cols`.
pub fn parse_columns(value: &str) -> (r: Result<u16, String>)
    ensures
        match r {
            Ok(c) => columns_of(value@) == Ok::<u16, Seq<char>>(c),
            Err(e) => columns_of(value@) == Err::<u16, Seq<char>>(e@),
        },
{
    match parse_u16_text(value) {
        Ok(c) => if c == 0 {
            Err("--cols must be greater than 0".to_string())
        } else {
            Ok(c)
        },
        Err(m) => {
            let mut e = "invalid value for --cols: ".to_string();
            push_str(&mut e, m.as_str());
            Err(e)
        },
    }
}

fn parse_exit(value: &str) -> (r: Result<i32, String>)
    ensures
        match r {
            Ok(c) => exit_of(value@) == Ok::<i32, Seq<char>>(c),
            Err(e) => exit_of(value@) == Err::<i32, Seq<char>>(e@),
        },
{
    match parse_i32_text(value) {
        Ok(c) => Ok(c),
        Err(m) => {
            let mut e = "invalid value for --exit: ".to_string();
            push_str(&mut e, m.as_str());
            Err(e)
        },
    }
}

fn parse_duration(value: &str) -> (r: Result<u64, String>)
    ensures
        match r {
            Ok(c) => duration_of(value@) == Ok::<u64, Seq<char>>(c),
            Err(e) => duration_of(value@) == Err::<u64, Seq<char>>(e@),
        },
{
    match parse_u64_text(value) {
        Ok(c) => Ok(c),
        Err(m) => {
            let mut e = "invalid value for --duration-ms: ".to_string();
            push_str(&mut e, m.as_str());
            Err(e)
        },
    }
}

/// A parent process id read from `source` (an option or a variable name).
pub fn parse_parent_pid(value: &str, source: &str) -> (r: Result<u32, String>)
    ensures
        match r {
            Ok(p) => parent_pid_of(value@, source@) == Ok::<u32, Seq<char>>(p),
            Err(e) => parent_pid_of(value@, source@) == Err::<u32, Seq<char>>(e@),
        },
{
    match parse_u32_text(value) {
        Ok(p) => if p == 0 {
            let mut e = copy_str(source);
            push_str(&mut e, " must be greater than 0");
            Err(e)
        } else {
            Ok(p)
        },
        Err(m) => {
            let mut e = "invalid value for ".to_string();
            push_str(&mut e, source);
            push_str(&mut e, ": ");
            push_str(&mut e, m.as_str());
            Err(e)
        },
    }
}

// ---------------------------------------------------------------------------
// `nova prompt`
// ---------------------------------------------------------------------------

/// What `nova prompt` renders.
#[derive(Clone, Debug, PartialEq, Eq)]
pub struct PromptArgs {
    pub cwd: String,
    pub columns: u16,
    pub exit_status: i32,
    pub duration_ms: Option<u64>,
    pub time: Option<String>,
    pub keymap: Keymap,
    pub config_path: Option<String>,
    pub format: PromptFormat,
}

pub struct PromptArgsView {
    pub cwd: Seq<char>,
    pub columns: u16,
    pub exit_status: i32,
    pub duration_ms: Option<u64>,
    pub time: Option<Seq<char>>,
    pub keymap: Keymap,
    pub config_path: Option<Seq<char>>,
    pub format: PromptFormat,
}

impl View for PromptArgs {
    type V = PromptArgsView;

    open spec fn view(&self) -> PromptArgsView {
        PromptArgsView {
            cwd: self.cwd@,
            columns: self.columns,
            exit_status: self.exit_status,
            duration_ms: self.duration_ms,
            time: crate::config::opt_view(self.time),
            keymap: self.keymap,
            config_path: crate::config::opt_view(self.config_path),
            format: self.format,
        }
    }
}

/// The width the terminal reports in `COLUMNS`, when it is a positive number;
/// otherwise 80.
pub open spec fn env_columns(columns: Option<Seq<char>>) -> u16 {
    match columns {
        Some(v) => match parse_unsigned(v, u16::MAX as nat) {
            Some(n) => if n > 0 {
                n as u16
            } else {
                80
            },
            None => 80,
        },
        None => 80,
    }
}

/// What the options from `i` on make of `p`, or the first error they hold.
pub open spec fn prompt_args_from(args: Seq<Seq<char>>, i: int, p: PromptArgsView) -> Result<
    PromptArgsView,
    Seq<char>,
>
    decreases args.len() - i,
{
    if i < 0 || i >= args.len() {
        Ok(p)
    } else {
        let option = args[i];
        if option == "--cwd"@ {
            match value_after(args, i, option) {
                Err(e) => Err(e),
                Ok(v) => prompt_args_from(args, i + 2, PromptArgsView { cwd: v, ..p }),
            }
        } else if option == "--cols"@ {
            match value_after(args, i, option) {
                Err(e) => Err(e),
                Ok(v) => match columns_of(v) {
                    Err(e) => Err(e),
                    Ok(c) => prompt_args_from(args, i + 2, PromptArgsView { columns: c, ..p }),
                },
            }
        } else if option == "--exit"@ {
            match value_after(args, i, option) {
                Err(e) => Err(e),
                Ok(v) => match exit_of(v) {
                    Err(e) => Err(e),
                    Ok(c) => prompt_args_from(args, i + 2, PromptArgsView { exit_status: c, ..p }),
                },
            }
        } else if option == "--duration-ms"@ {
            match value_after(args, i, option) {
                Err(e) => Err(e),
                Ok(v) => match duration_of(v) {
                    Err(e) => Err(e),
                    Ok(c) => prompt_args_from(
                        args,
                        i + 2,
                        PromptArgsView { duration_ms: Some(c), ..p },
                    ),
                },
            }
        } else if option == "--time"@ {
            match value_after(args, i, option) {
                Err(e) => Err(e),
                Ok(v) => prompt_args_from(args, i + 2, PromptArgsView { time: Some(v), ..p }),
            }
        } else if option == "--keymap"@ {
            match value_after(args, i, option) {
                Err(e) => Err(e),
                Ok(v) => prompt_args_from(args, i + 2, PromptArgsView { keymap: keymap_of(v), ..p }),
            }
        } else if option == "--config"@ {
            match value_after(args, i, option) {
                Err(e) => Err(e),
                Ok(v) => prompt_args_from(args, i + 2, PromptArgsView { config_path: Some(v), ..p }),
            }
        } else if option == "--format"@ {
            match value_after(args, i, option) {
                Err(e) => Err(e),
                Ok(v) => match format_of(v) {
                    Err(e) => Err(e),
                    Ok(f) => prompt_args_from(args, i + 2, PromptArgsView { format: f, ..p }),
                },
            }
        } else {
            Err("unknown prompt option `"@ + option + "`"@)
        }
    }
}

/// What `nova prompt` is asked, before its options are read.
pub open spec fn prompt_args_start(cwd: Seq<char>, columns: Option<Seq<char>>) -> PromptArgsView {
    PromptArgsView {
        cwd,
        columns: env_columns(columns),
        exit_status: 0,
        duration_ms: None,
        time: None,
        keymap: Keymap::Main,
        config_path: None,
        format: PromptFormat::Plain,
    }
}

fn env_columns_exec(columns: Option<&str>) -> (r: u16)
    ensures
        r == env_columns(
            match columns {
                Some(c) => Some(c@),
                None => None,
            },
        ),
{
    match columns {
        Some(v) => match parse_u16_text(v) {
            Ok(n) => if n > 0 {
                n
            } else {
                80
            },
            Err(_) => 80,
        },
        None => 80,
    }
}

fn str_result(r: &Result<&String, String>) -> (v: Result<String, String>)
    ensures
        match (*r, v) {
            (Ok(a), Ok(b)) => a@ == b@,
            (Err(a), Err(b)) => a@ == b@,
            _ => false,
        },
{
    match r {
        Ok(a) => Ok(copy_str(a.as_str())),
        Err(e) => Err(copy_str(e.as_str())),
    }
}

impl PromptArgs {
    /// Reads the options of `nova prompt`; `cwd` is the current directory and
    /// `columns` the value of `COLUMNS`, if set.
    pub fn parse(args: &[String], cwd: String, columns: Option<&str>) -> (r: Result<PromptArgs, String>)
        ensures
            match r {
                Ok(p) => prompt_args_from(
                    args_view(args@),
                    0,
                    prompt_args_start(
                        cwd@,
                        match columns {
                            Some(c) => Some(c@),
                            None => None,
                        },
                    ),
                ) == Ok::<PromptArgsView, Seq<char>>(p@),
                Err(e) => prompt_args_from(
                    args_view(args@),
                    0,
                    prompt_args_start(
                        cwd@,
                        match columns {
                            Some(c) => Some(c@),
                            None => None,
                        },
                    ),
                ) == Err::<PromptArgsView, Seq<char>>(e@),
            },
    {
        let ghost av = args_view(args@);
        let ghost first = prompt_args_start(
            cwd@,
            match columns {
                Some(c) => Some(c@),
                None => None,
            },
        );
        let mut parsed = PromptArgs {
            cwd,
            columns: env_columns_exec(columns),
            exit_status: 0,
            duration_ms: None,
            time: None,
            keymap: Keymap::Main,
            config_path: None,
            format: PromptFormat::Plain,
        };
        let ghost start = parsed@;
        assert(start == first);
        let mut index: usize = 0;
        while index < args.len()
            invariant
                av == args_view(args@),
                start == first,
                first == prompt_args_start(
                    cwd@,
                    match columns {
                        Some(c) => Some(c@),
                        None => None,
                    },
                ),
                prompt_args_from(av, 0, start) == prompt_args_from(av, index as int, parsed@),
            decreases args.len() - index,
        {
            let option = args[index].as_str();
            assert(av[index as int] == option@);
            let value = required_value(args, index, option);
            if str_eq(option, "--cwd") {
                match value {
                    Err(e) => return Err(e),
                    Ok(v) => {
                        parsed.cwd = copy_str(v.as_str());
                    },
                }
            } else if str_eq(option, "--cols") {
                match value {
                    Err(e) => return Err(e),
                    Ok(v) => match parse_columns(v.as_str()) {
                        Err(e) => return Err(e),
                        Ok(c) => {
                            parsed.columns = c;
                        },
                    },
                }
            } else if str_eq(option, "--exit") {
                match value {
                    Err(e) => return Err(e),
                    Ok(v) => match parse_exit(v.as_str()) {
                        Err(e) => return Err(e),
                        Ok(c) => {
                            parsed.exit_status = c;
                        },
                    },
                }
            } else if str_eq(option, "--duration-ms") {
                match value {
                    Err(e) => return Err(e),
                    Ok(v) => match parse_duration(v.as_str()) {
                        Err(e) => return Err(e),
                        Ok(c) => {
                            parsed.duration_ms = Some(c);
                        },
                    },
                }
            } else if str_eq(option, "--time") {
                match value {
                    Err(e) => return Err(e),
                    Ok(v) => {
                        parsed.time = Some(copy_str(v.as_str()));
                    },
                }
            } else if str_eq(option, "--keymap") {
                match value {
                    Err(e) => return Err(e),
                    Ok(v) => {
                        parsed.keymap = Keymap::parse(v.as_str());
                    },
                }
            } else if str_eq(option, "--config") {
                match value {
                    Err(e) => return Err(e),
                    Ok(v) => {
                        parsed.config_path = Some(copy_str(v.as_str()));
                    },
                }
            } else if str_eq(option, "--format") {
                match value {
                    Err(e) => return Err(e),
                    Ok(v) => match PromptFormat::parse(v.as_str()) {
                        Err(e) => return Err(e),
                        Ok(f) => {
                            parsed.format = f;
                        },
                    },
                }
            } else {
                let mut e = "unknown prompt option `".to_string();
                push_str(&mut e, option);
                push_str(&mut e, "`");
                return Err(e);
            }
            index += 2;
        }
        Ok(parsed)
    }
}

// ---------------------------------------------------------------------------
// `nova worker`
// ---------------------------------------------------------------------------

/// What `nova worker` is started with.
#[derive(Clone, Debug, PartialEq, Eq)]
pub struct WorkerArgs {
    pub runtime_dir: String,
    pub session_token: String,
    pub parent_pid: Option<u32>,
}

/// A non-empty environment value.
pub open spec fn non_empty(v: Option<Seq<char>>) -> Option<Seq<char>> {
    match v {
        Some(s) => if s.len() > 0 {
            Some(s)
        } else {
            None
        },
        None => None,
    }
}

/// What the options from `i` on make of the directory, token and parent process
/// id gathered so far, or the first error they hold.
pub open spec fn worker_args_from(
    args: Seq<Seq<char>>,
    i: int,
    dir: Option<Seq<char>>,
    token: Option<Seq<char>>,
    pid: Option<u32>,
) -> Result<(Option<Seq<char>>, Option<Seq<char>>, Option<u32>), Seq<char>>
    decreases args.len() - i,
{
    if i < 0 || i >= args.len() {
        Ok((dir, token, pid))
    } else {
        let option = args[i];
        if option == "--dir"@ {
            match value_after(args, i, option) {
                Err(e) => Err(e),
                Ok(v) => worker_args_from(args, i + 2, Some(v), token, pid),
            }
        } else if option == "--session-token"@ {
            match value_after(args, i, option) {
                Err(e) => Err(e),
                Ok(v) => worker_args_from(args, i + 2, dir, Some(v), pid),
            }
        } else if option == "--parent-pid"@ {
            match value_after(args, i, option) {
                Err(e) => Err(e),
                Ok(v) => match parent_pid_of(v, "--parent-pid"@) {
                    Err(e) => Err(e),
                    Ok(p) => worker_args_from(args, i + 2, dir, token, Some(p)),
                },
            }
        } else {
            Err("unknown worker option `"@ + option + "`"@)
        }
    }
}

/// What `nova worker` is started with, given its options and the values of
/// `NOVA_SESSION_TOKEN` and `NOVA_PARENT_PID`.
pub open spec fn worker_args_of(
    args: Seq<Seq<char>>,
    token_env: Option<Seq<char>>,
    pid_env: Option<Seq<char>>,
) -> Result<(Seq<char>, Seq<char>, Option<u32>), Seq<char>> {
    let pid_start: Result<Option<u32>, Seq<char>> = match non_empty(pid_env) {
        Some(v) => match parent_pid_of(v, "NOVA_PARENT_PID"@) {
            Ok(p) => Ok(Some(p)),
            Err(e) => Err(e),
        },
        None => Ok(None),
    };
    match pid_start {
        Err(e) => Err(e),
        Ok(pid) => match worker_args_from(args, 0, None, non_empty(token_env), pid) {
            Err(e) => Err(e),
            Ok((dir, token, pid)) => match dir {
                None => Err("worker requires --dir"@),
                Some(d) => match token {
                    None => Err("worker requires NOVA_SESSION_TOKEN or --session-token"@),
                    Some(t) => Ok((d, t, pid)),
                },
            },
        },
    }
}

fn non_empty_exec(v: Option<&str>) -> (r: Option<String>)
    ensures
        crate::config::opt_view(r) == non_empty(
            match v {
                Some(s) => Some(s@),
                None => None,
            },
        ),
{
    match v {
        Some(s) => if s.unicode_len() > 0 {
            Some(copy_str(s))
        } else {
            None
        },
        None => None,
    }
}

impl WorkerArgs {
    /// Reads the options of `nova worker`, after the values of `NOVA_SESSION_TOKEN`
    /// and `NOVA_PARENT_PID` (each `None` where unset).
    pub fn parse(args: &[String], session_token_env: Option<&str>, parent_pid_env: Option<&str>) -> (r: Result<WorkerArgs, String>)
        ensures
            match r {
                Ok(w) => worker_args_of(
                    args_view(args@),
                    match session_token_env {
                        Some(s) => Some(s@),
                        None => None,
                    },
                    match parent_pid_env {
                        Some(s) => Some(s@),
                        None => None,
                    },
                ) == Ok::<(Seq<char>, Seq<char>, Option<u32>), Seq<char>>(
                    (w.runtime_dir@, w.session_token@, w.parent_pid),
                ),
                Err(e) => worker_args_of(
                    args_view(args@),
                    match session_token_env {
                        Some(s) => Some(s@),
                        None => None,
                    },
                    match parent_pid_env {
                        Some(s) => Some(s@),
                        None => None,
                    },
                ) == Err::<(Seq<char>, Seq<char>, Option<u32>), Seq<char>>(e@),
            },
    {
        let ghost av = args_view(args@);
        let mut runtime_dir: Option<String> = None;
        let mut session_token = non_empty_exec(session_token_env);
        let pid_env = non_empty_exec(parent_pid_env);
        let mut parent_pid: Option<u32> = match pid_env {
            Some(v) => match parse_parent_pid(v.as_str(), "NOVA_PARENT_PID") {
                Ok(p) => Some(p),
                Err(e) => return Err(e),
            },
            None => None,
        };
        let ghost t0 = crate::config::opt_view(session_token);
        let ghost p0 = parent_pid;
        let ghost tenv = match session_token_env {
            Some(s) => Some(s@),
            None => None,
        };
        let ghost penv = match parent_pid_env {
            Some(s) => Some(s@),
            None => None,
        };
        assert(t0 == non_empty(tenv));
        assert(match non_empty(penv) {
            Some(v) => parent_pid_of(v, "NOVA_PARENT_PID"@) == Ok::<u32, Seq<char>>(p0->0),
            None => p0 is None,
        });
        let mut index: usize = 0;
        while index < args.len()
            invariant
                av == args_view(args@),
                t0 == non_empty(tenv),
                tenv == match session_token_env {
                    Some(s) => Some(s@),
                    None => None,
                },
                penv == match parent_pid_env {
                    Some(s) => Some(s@),
                    None => None,
                },
                match non_empty(penv) {
                    Some(v) => parent_pid_of(v, "NOVA_PARENT_PID"@) == Ok::<u32, Seq<char>>(p0->0) && p0 is Some,
                    None => p0 is None,
                },
                worker_args_from(av, 0, None, t0, p0) == worker_args_from(
                    av,
                    index as int,
                    crate::config::opt_view(runtime_dir),
                    crate::config::opt_view(session_token),
                    parent_pid,
                ),
            decreases args.len() - index,
        {
            let option = args[index].as_str();
            assert(av[index as int] == option@);
            let value = required_value(args, index, option);
            if str_eq(option, "--dir") {
                match value {
                    Err(e) => return Err(e),
                    Ok(v) => {
                        runtime_dir = Some(copy_str(v.as_str()));
                    },
                }
            } else if str_eq(option, "--session-token") {
                match value {
                    Err(e) => return Err(e),
                    Ok(v) => {
                        session_token = Some(copy_str(v.as_str()));
                    },
                }
            } else if str_eq(option, "--parent-pid") {
                match value {
                    Err(e) => return Err(e),
                    Ok(v) => match parse_parent_pid(v.as_str(), "--parent-pid") {
                        Err(e) => return Err(e),
                        Ok(p) => {
                            parent_pid = Some(p);
                        },
                    },
                }
            } else {
                let mut e = "unknown worker option `".to_string();
                push_str(&mut e, option);
                push_str(&mut e, "`");
                return Err(e);
            }
            index += 2;
        }
        let runtime_dir = match runtime_dir {
            Some(d) => d,
            None => return Err("worker requires --dir".to_string()),
        };
        let session_token = match session_token {
            Some(t) => t,
            None => return Err("worker requires NOVA_SESSION_TOKEN or --session-token".to_string()),
        };
        Ok(WorkerArgs { runtime_dir, session_token, parent_pid })
    }
}

// ---------------------------------------------------------------------------
// `nova check`
// ---------------------------------------------------------------------------

/// What `nova check` checks.
#[derive(Clone, Debug, PartialEq, Eq)]
pub struct CheckArgs {
    pub config_path: Option<String>,
}

/// The configuration path the options from `i` on name, or the first error.
pub open spec fn check_args_from(args: Seq<Seq<char>>, i: int, path: Option<Seq<char>>) -> Result<
    Option<Seq<char>>,
    Seq<char>,
>
    decreases args.len() - i,
{
    if i < 0 || i >= args.len() {
        Ok(path)
    } else if args[i] == "--config"@ {
        match value_after(args, i, args[i]) {
            Err(e) => Err(e),
            Ok(v) => check_args_from(args, i + 2, Some(v)),
        }
    } else {
        Err("unknown check option `"@ + args[i] + "`"@)
    }
}

impl CheckArgs {
    /// Reads the options of `nova check`.
    pub fn parse(args: &[String]) -> (r: Result<CheckArgs, String>)
        ensures
            match r {
                Ok(c) => check_args_from(args_view(args@), 0, None) == Ok::<
                    Option<Seq<char>>,
                    Seq<char>,
                >(crate::config::opt_view(c.config_path)),
                Err(e) => check_args_from(args_view(args@), 0, None) == Err::<
                    Option<Seq<char>>,
                    Seq<char>,
                >(e@),
            },
    {
        let ghost av = args_view(args@);
        let mut config_path: Option<String> = None;
        let mut index: usize = 0;
        while index < args.len()
            invariant
                av == args_view(args@),
                check_args_from(av, 0, None) == check_args_from(
                    av,
                    index as int,
                    crate::config::opt_view(config_path),
                ),
            decreases args.len() - index,
        {
            let option = args[index].as_str();
            assert(av[index as int] == option@);
            if str_eq(option, "--config") {
                match required_value(args, index, option) {
                    Err(e) => return Err(e),
                    Ok(v) => {
                        config_path = Some(copy_str(v.as_str()));
                    },
                }
            } else {
                let mut e = "unknown check option `".to_string();
                push_str(&mut e, option);
                push_str(&mut e, "`");
                return Err(e);
            }
            index += 2;
        }
        Ok(CheckArgs { config_path })
    }
}

// ---------------------------------------------------------------------------
// Printing a prompt
// ---------------------------------------------------------------------------

/// A prompt with zsh's `%{ %}` markers dropped and `%%` read as `%`.
pub open spec fn preview_of(s: Seq<char>) -> Seq<char> {
    replace_all(replace_all(replace_all(s, "%{"@, ""@), "%}"@, ""@), "%%"@, "%"@)
}

/// What `nova prompt` prints for a rendered prompt.
pub open spec fn prompt_output(format: PromptFormat, output: LoweredPromptView) -> Seq<char> {
    match format {
        PromptFormat::Plain => if output.rprompt.len() == 0 {
            output.prompt + "\n"@
        } else {
            output.prompt + "\n"@ + output.rprompt + "\n"@
        },
        PromptFormat::Preview => if output.rprompt.len() == 0 {
            preview_of(output.prompt) + "\n"@
        } else {
            preview_of(output.prompt) + "\n"@ + preview_of(output.rprompt) + "\n"@
        },
        PromptFormat::Shell => "PROMPT="@ + single_quoted(output.prompt) + "\nRPROMPT="@
            + single_quoted(output.rprompt) + "\n"@,
    }
}

/// The prompt as a terminal shows it: zsh's markers dropped.
pub fn preview_prompt(input: &str) -> (r: String)
    ensures
        r@ == preview_of(input@),
{
    proof {
        reveal_strlit("%{");
        reveal_strlit("%}");
        reveal_strlit("%%");
    }
    let a = crate::zsh_init::replace_text(input, "%{", "");
    let b = crate::zsh_init::replace_text(a.as_str(), "%}", "");
    crate::zsh_init::replace_text(b.as_str(), "%%", "%")
}

/// `input` as a single-quoted zsh word.
pub fn zsh_quote(input: &str) -> (r: String)
    ensures
        r@ == single_quoted(input@),
{
    zsh_single_quote(input)
}

/// What `nova prompt` prints for a rendered prompt in the chosen format.
pub fn format_prompt_output(format: PromptFormat, output: &LoweredPrompt) -> (r: String)
    ensures
        r@ == prompt_output(format, output@),
{
    match format {
        PromptFormat::Plain => {
            let mut s = copy_str(output.prompt.as_str());
            push_str(&mut s, "\n");
            if output.rprompt.unicode_len() > 0 {
                push_str(&mut s, output.rprompt.as_str());
                push_str(&mut s, "\n");
            }
            s
        },
        PromptFormat::Preview => {
            let mut s = preview_prompt(output.prompt.as_str());
            push_str(&mut s, "\n");
            if output.rprompt.unicode_len() > 0 {
                let r = preview_prompt(output.rprompt.as_str());
                push_str(&mut s, r.as_str());
                push_str(&mut s, "\n");
            }
            s
        },
        PromptFormat::Shell => {
            let mut s = "PROMPT=".to_string();
            let p = zsh_quote(output.prompt.as_str());
            push_str(&mut s, p.as_str());
            push_str(&mut s, "\nRPROMPT=");
            let r = zsh_quote(output.rprompt.as_str());
            push_str(&mut s, r.as_str());
            push_str(&mut s, "\n");
            s
        },
    }
}

} // verus!
