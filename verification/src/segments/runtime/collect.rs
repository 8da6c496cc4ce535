//! Collecting runtime versions: the cache keys, and what is made of a version
//! command's outcome. The commands themselves are run by the caller.

use vstd::prelude::*;

use crate::cache::{CacheKey, CacheKeyView};
use crate::config::{opt_view, push_string, strings_view, SegmentConfig, SegmentConfigView};
use crate::config::load::{join_path, join_path_str};
use crate::segments::git::{decode_lossy, utf8_lossy, CommandLine};
use crate::segments::runtime::detect::{
    bun_detection, deno_detection, is_bun_project_dir, is_deno_project_dir, is_node_project_dir,
    is_python_project_dir, node_detection, python_detection,
};
use crate::segments::runtime::{
    bold_fg, bun_icon, deno_icon, node_icon, node_version_of, parse_bun_version,
    parse_deno_version, parse_node_version, parse_python_version, parse_rustc_version,
    python_icon, render_bun_version, render_deno_version, render_node_version,
    render_python_version, render_rust_version, rust_icon, rustc_version_of, second_word,
    trimmed_version, version_content,
};
use crate::segments::workspace::{
    entries_view, find_rust_project_root, first_marked, listing_matches, string_views, DirEntry,
};
use crate::segments::{content_opt, SegmentContent, SegmentContentView};
use crate::text::{copy_str, push_char, push_str};
use crate::worker::{AsyncJobSegment, AsyncSegmentFailure};

verus! {

// ---------------------------------------------------------------------------
// Errors
// ---------------------------------------------------------------------------

/// Why a version command gave nothing. `Spawn` tells whether the command was missing
/// altogether; the texts are what the operating system reported.
#[derive(Clone, Debug, PartialEq, Eq)]
pub enum RuntimeCollectError {
    TimedOut,
    Spawn { missing: bool, reason: String },
    Wait(String),
    ReadOutput(String),
    ReaderPanicked,
    MissingStdout,
}

impl RuntimeCollectError {
    /// The message of this error.
    pub fn message(&self) -> (r: String)
        ensures
            r@ == match self {
                RuntimeCollectError::TimedOut => "runtime collection timed out"@,
                RuntimeCollectError::Spawn { reason, .. } => "failed to spawn runtime command: "@
                    + reason@,
                RuntimeCollectError::Wait(reason) => "failed to wait for runtime command: "@
                    + reason@,
                RuntimeCollectError::ReadOutput(reason) => "failed to read runtime command output: "@
                    + reason@,
                RuntimeCollectError::ReaderPanicked => "runtime command output reader panicked"@,
                RuntimeCollectError::MissingStdout => "failed to capture runtime command output"@,
            },
    {
        let (head, tail) = match self {
            RuntimeCollectError::TimedOut => ("runtime collection timed out", None),
            RuntimeCollectError::Spawn { reason, .. } => (
                "failed to spawn runtime command: ",
                Some(reason),
            ),
            RuntimeCollectError::Wait(reason) => ("failed to wait for runtime command: ", Some(reason)),
            RuntimeCollectError::ReadOutput(reason) => (
                "failed to read runtime command output: ",
                Some(reason),
            ),
            RuntimeCollectError::ReaderPanicked => ("runtime command output reader panicked", None),
            RuntimeCollectError::MissingStdout => ("failed to capture runtime command output", None),
        };
        let mut s = copy_str(head);
        if let Some(t) = tail {
            push_str(&mut s, t.as_str());
        }
        s
    }
}

/// How much time is left before `deadline`; none left is a timeout.
pub fn remaining_time(deadline: u64, now: u64) -> (r: Result<u64, RuntimeCollectError>)
    ensures
        now < deadline ==> r == Ok::<u64, RuntimeCollectError>((deadline - now) as u64),
        deadline <= now ==> r == Err::<u64, RuntimeCollectError>(RuntimeCollectError::TimedOut),
{
    if now < deadline {
        Ok(deadline - now)
    } else {
        Err(RuntimeCollectError::TimedOut)
    }
}

/// A command's output, where a command that is not installed gives nothing rather
/// than an error.
pub fn collect_optional_command_output(outcome: Result<Vec<u8>, RuntimeCollectError>) -> (r: Result<
    Option<Vec<u8>>,
    RuntimeCollectError,
>)
    ensures
        match outcome {
            Ok(out) => r == Ok::<Option<Vec<u8>>, RuntimeCollectError>(Some(out)),
            Err(RuntimeCollectError::Spawn { missing: true, .. }) => r == Ok::<
                Option<Vec<u8>>,
                RuntimeCollectError,
            >(None),
            Err(e) => r == Err::<Option<Vec<u8>>, RuntimeCollectError>(e),
        },
{
    match outcome {
        Ok(out) => Ok(Some(out)),
        Err(RuntimeCollectError::Spawn { missing: true, reason }) => Ok(None),
        Err(e) => Err(e),
    }
}

// ---------------------------------------------------------------------------
// Runtimes
// ---------------------------------------------------------------------------

/// The runtimes whose version is shown.
#[derive(Clone, Copy, Debug, PartialEq, Eq)]
pub enum RuntimeKind {
    Rust,
    Bun,
    Deno,
    Node,
    Python,
}

/// The segment id of a runtime.
pub open spec fn runtime_id(kind: RuntimeKind) -> Seq<char> {
    match kind {
        RuntimeKind::Rust => "rust_version"@,
        RuntimeKind::Bun => "bun_version"@,
        RuntimeKind::Deno => "deno_version"@,
        RuntimeKind::Node => "node_version"@,
        RuntimeKind::Python => "python_version"@,
    }
}

/// The version a runtime's version command printed, if it printed one.
pub open spec fn runtime_version_of(kind: RuntimeKind, output: Seq<char>) -> Option<Seq<char>> {
    match kind {
        RuntimeKind::Rust => rustc_version_of(output),
        RuntimeKind::Bun => trimmed_version(output),
        RuntimeKind::Deno => second_word(output),
        RuntimeKind::Node => node_version_of(output),
        RuntimeKind::Python => second_word(output),
    }
}

/// The segment showing a runtime's version.
pub open spec fn runtime_content(kind: RuntimeKind, version: Seq<char>, config: SegmentConfigView) -> Option<
    SegmentContentView,
> {
    match kind {
        RuntimeKind::Rust => version_content(
            "rust_version"@,
            version,
            config,
            rust_icon(),
            bold_fg("cyan"@),
        ),
        RuntimeKind::Bun => version_content("bun_version"@, version, config, bun_icon(), bold_fg("red"@)),
        RuntimeKind::Deno => version_content(
            "deno_version"@,
            version,
            config,
            deno_icon(),
            bold_fg("green"@),
        ),
        RuntimeKind::Node => version_content(
            "node_version"@,
            version,
            config,
            node_icon(),
            bold_fg("green"@),
        ),
        RuntimeKind::Python => version_content(
            "python_version"@,
            version,
            config,
            python_icon(),
            bold_fg("yellow"@),
        ),
    }
}

impl RuntimeKind {
    /// The segment id of this runtime.
    pub fn id(&self) -> (r: &'static str)
        ensures
            r@ == runtime_id(*self),
    {
        match self {
            RuntimeKind::Rust => "rust_version",
            RuntimeKind::Bun => "bun_version",
            RuntimeKind::Deno => "deno_version",
            RuntimeKind::Node => "node_version",
            RuntimeKind::Python => "python_version",
        }
    }

    /// The version in what this runtime's version command printed.
    pub fn parse(&self, output: &str) -> (r: Option<String>)
        ensures
            opt_view(r) == runtime_version_of(*self, output@),
    {
        match self {
            RuntimeKind::Rust => parse_rustc_version(output),
            RuntimeKind::Bun => parse_bun_version(output),
            RuntimeKind::Deno => parse_deno_version(output),
            RuntimeKind::Node => parse_node_version(output),
            RuntimeKind::Python => parse_python_version(output),
        }
    }

    /// The segment showing `version`.
    pub fn render(&self, version: &str, config: &SegmentConfig) -> (r: Option<SegmentContent>)
        ensures
            content_opt(r) == runtime_content(*self, version@, config@),
    {
        match self {
            RuntimeKind::Rust => render_rust_version(version, config),
            RuntimeKind::Bun => render_bun_version(version, config),
            RuntimeKind::Deno => render_deno_version(version, config),
            RuntimeKind::Node => render_node_version(version, config),
            RuntimeKind::Python => render_python_version(version, config),
        }
    }

    /// The version in the bytes a version command wrote.
    pub fn version_from_output(&self, output: &[u8]) -> (r: Option<String>)
        ensures
            opt_view(r) == runtime_version_of(*self, utf8_lossy(output@)),
    {
        let text = decode_lossy(output);
        self.parse(text.as_str())
    }
}

/// The version a command gave, given what running it gave: nothing where the command
/// is not installed, and an error where running it failed otherwise.
pub fn collect_command_version(kind: RuntimeKind, outcome: Result<Vec<u8>, RuntimeCollectError>) -> (r: Result<
    Option<String>,
    RuntimeCollectError,
>)
    ensures
        match outcome {
            Ok(out) => (r matches Ok(v) && opt_view(v) == runtime_version_of(
                kind,
                utf8_lossy(out@),
            )),
            Err(RuntimeCollectError::Spawn { missing: true, .. }) => (r matches Ok(v) && v is None),
            Err(e) => r == Err::<Option<String>, RuntimeCollectError>(e),
        },
{
    match collect_optional_command_output(outcome) {
        Ok(Some(out)) => Ok(kind.version_from_output(out.as_slice())),
        Ok(None) => Ok(None),
        Err(e) => Err(e),
    }
}

/// One step of trying the Python commands in turn, given what running one gave:
/// `None` to go on with the next command (it is not installed, or printed no
/// version), otherwise the answer.
pub fn python_attempt(outcome: Result<Vec<u8>, RuntimeCollectError>) -> (r: Option<
    Result<Option<String>, RuntimeCollectError>,
>)
    ensures
        match outcome {
            Ok(out) => match runtime_version_of(RuntimeKind::Python, utf8_lossy(out@)) {
                Some(v) => (r matches Some(Ok(Some(s))) && s@ == v),
                None => r is None,
            },
            Err(RuntimeCollectError::Spawn { missing: true, .. }) => r is None,
            Err(e) => r == Some(Err::<Option<String>, RuntimeCollectError>(e)),
        },
{
    match outcome {
        Ok(out) => match RuntimeKind::Python.version_from_output(out.as_slice()) {
            Some(v) => Some(Ok(Some(v))),
            None => None,
        },
        Err(RuntimeCollectError::Spawn { missing: true, reason }) => None,
        Err(e) => Some(Err(e)),
    }
}

/// The Python commands tried in turn: the virtual environment's own first.
pub open spec fn python_commands(virtual_env: Option<Seq<char>>) -> Seq<Seq<char>> {
    let defaults = seq!["python"@, "python3"@, "python2"@];
    match virtual_env {
        Some(v) => seq![join_path(join_path(v, "bin"@), "python"@)] + defaults,
        None => defaults,
    }
}

/// The Python commands tried in turn.
pub fn python_command_paths(virtual_env: Option<&str>) -> (r: Vec<String>)
    ensures
        string_views(r@) == python_commands(
            match virtual_env {
                Some(v) => Some(v@),
                None => None,
            },
        ),
{
    let mut r: Vec<String> = Vec::new();
    if let Some(v) = virtual_env {
        let bin = join_path_str(v, "bin");
        r.push(join_path_str(bin.as_str(), "python"));
    }
    r.push("python".to_string());
    r.push("python3".to_string());
    r.push("python2".to_string());
    proof {
        let vv = match virtual_env {
            Some(v) => Some(v@),
            None => None,
        };
        assert(string_views(r@) =~= python_commands(vv));
    }
    r
}

/// The program that reports a runtime's version (for Python, the first tried).
pub open spec fn runtime_program(kind: RuntimeKind) -> Seq<char> {
    match kind {
        RuntimeKind::Rust => "rustc"@,
        RuntimeKind::Bun => "bun"@,
        RuntimeKind::Deno => "deno"@,
        RuntimeKind::Node => "node"@,
        RuntimeKind::Python => "python"@,
    }
}

/// The arguments a runtime's version is asked with.
pub open spec fn runtime_version_args(kind: RuntimeKind) -> Seq<Seq<char>> {
    match kind {
        RuntimeKind::Deno => seq!["-V"@],
        _ => seq!["--version"@],
    }
}

impl RuntimeKind {
    /// The program that reports this runtime's version.
    pub fn program(&self) -> (r: &'static str)
        ensures
            r@ == runtime_program(*self),
    {
        match self {
            RuntimeKind::Rust => "rustc",
            RuntimeKind::Bun => "bun",
            RuntimeKind::Deno => "deno",
            RuntimeKind::Node => "node",
            RuntimeKind::Python => "python",
        }
    }
}

/// The command that asks `program` for the version of runtime `kind`, run in `dir`
/// with the request's `PATH` when one was sent (an empty one counts as none).
pub fn runtime_command(kind: RuntimeKind, program: &str, dir: &str, path: Option<&str>) -> (r: CommandLine)
    ensures
        r.program@ == program@,
        strings_view(r.args@) == runtime_version_args(kind),
        r.dir@ == dir@,
        opt_view(r.path) == request_path(str_opt(path)),
{
    let mut args: Vec<String> = Vec::new();
    assert(strings_view(args@) =~= Seq::<Seq<char>>::empty());
    match kind {
        RuntimeKind::Deno => push_string(&mut args, "-V".to_string()),
        _ => push_string(&mut args, "--version".to_string()),
    }
    proof {
        reveal_strlit("-V");
        reveal_strlit("--version");
        assert(strings_view(args@) =~= runtime_version_args(kind));
    }
    let path = match path {
        Some(p) => if p.unicode_len() > 0 {
            Some(copy_str(p))
        } else {
            None
        },
        None => None,
    };
    CommandLine { program: copy_str(program), args, dir: copy_str(dir), path }
}

/// What a finished version collection stores: one segment under `key`, showing the
/// version when there is one, nothing when there is none, a failure on error.
pub fn collected_version_segment(
    key: CacheKey,
    result: Result<Option<String>, RuntimeCollectError>,
    kind: RuntimeKind,
    config: &SegmentConfig,
) -> (r: Vec<AsyncJobSegment>)
    ensures
        r@.len() == 1,
        r@[0].key@ == key@,
        match result {
            Ok(Some(v)) => (r@[0].content matches Ok(c) && content_opt(c) == runtime_content(
                kind,
                v@,
                config@,
            )),
            Ok(None) => (r@[0].content matches Ok(c) && c is None),
            Err(_) => r@[0].content == Err::<Option<SegmentContent>, AsyncSegmentFailure>(
                AsyncSegmentFailure::Failed,
            ),
        },
{
    let content = match result {
        Ok(Some(v)) => Ok(kind.render(v.as_str(), config)),
        Ok(None) => Ok(None),
        Err(_) => Err(AsyncSegmentFailure::Failed),
    };
    let mut r: Vec<AsyncJobSegment> = Vec::new();
    r.push(AsyncJobSegment { key, content });
    r
}

// ---------------------------------------------------------------------------
// Cache keys
// ---------------------------------------------------------------------------

/// The digest of a `PATH` value that `DefaultHasher` computes.
pub uninterp spec fn path_digest_of(path: Seq<char>) -> u64;

/// Hashes a `PATH` value with `std`'s `DefaultHasher` (created with `new`, fed the
/// string with `Hash::hash`, read with `finish`), whose keys are fixed, so that the
/// digest depends on the string alone. The contract names the digest and says
/// nothing of its value.
#[verifier::external_body]
fn path_digest(path: &str) -> (r: u64)
    ensures
        r == path_digest_of(path@),
{
    let mut hasher = std::collections::hash_map::DefaultHasher::new();
    std::hash::Hash::hash(path, &mut hasher);
    std::hash::Hasher::finish(&hasher)
}

/// The lowercase hexadecimal digit of `d`.
pub open spec fn hex_char(d: nat) -> char {
    if d < 10 {
        ((('0' as u32) + d) as char)
    } else {
        ((('a' as u32) + d - 10) as char)
    }
}

/// The last `n` hexadecimal digits of `v`, zero-padded.
pub open spec fn hex_digits(v: nat, n: nat) -> Seq<char>
    decreases n,
{
    if n == 0 {
        seq![]
    } else {
        hex_digits(v / 16, (n - 1) as nat).push(hex_char(v % 16))
    }
}

fn hex_char_exec(d: u64) -> (c: char)
    requires
        d < 16,
    ensures
        c == hex_char(d as nat),
{
    let digits = [
        '0', '1', '2', '3', '4', '5', '6', '7', '8', '9', 'a', 'b', 'c', 'd', 'e', 'f',
    ];
    let c = digits[d as usize];
    proof {
        assert(digits@ =~= seq![
            '0', '1', '2', '3', '4', '5', '6', '7', '8', '9', 'a', 'b', 'c', 'd', 'e', 'f',
        ]);
    }
    c
}

fn hex_digits_exec(v: u64, n: usize) -> (r: Vec<char>)
    ensures
        r@ == hex_digits(v as nat, n as nat),
    decreases n,
{
    if n == 0 {
        Vec::new()
    } else {
        let mut r = hex_digits_exec(v / 16, n - 1);
        r.push(hex_char_exec(v % 16));
        r
    }
}

/// The `PATH` a request runs with: none when empty.
pub open spec fn request_path(path: Option<Seq<char>>) -> Option<Seq<char>> {
    match path {
        Some(p) => if p.len() > 0 {
            Some(p)
        } else {
            None
        },
        None => None,
    }
}

/// The cache source of a runtime version: where it was collected and, when a `PATH`
/// was given, the digest of that `PATH` in sixteen hexadecimal digits.
pub open spec fn runtime_source(source: Seq<char>, path: Option<Seq<char>>) -> Seq<char> {
    match request_path(path) {
        Some(p) => source + "|path="@ + hex_digits(path_digest_of(p) as nat, 16),
        None => source,
    }
}

/// An optional string slice, as a value.
pub open spec fn str_opt(o: Option<&str>) -> Option<Seq<char>> {
    match o {
        Some(s) => Some(s@),
        None => None,
    }
}

/// The cache source of a runtime version collected at `source` with `PATH` `path`.
pub fn runtime_cache_source(source: &str, path: Option<&str>) -> (r: String)
    ensures
        r@ == runtime_source(source@, str_opt(path)),
{
    let mut r = copy_str(source);
    if let Some(p) = path {
        if p.unicode_len() > 0 {
            push_str(&mut r, "|path=");
            let digits = hex_digits_exec(path_digest(p), 16);
            let mut i: usize = 0;
            let ghost base = r@;
            while i < digits.len()
                invariant
                    i <= digits.len(),
                    r@ == base + digits@.take(i as int),
                decreases digits.len() - i,
            {
                push_char(&mut r, digits[i]);
                i += 1;
                assert(r@ =~= base + digits@.take(i as int));
            }
            assert(digits@.take(i as int) =~= digits@);
        }
    }
    r
}

/// The cache source of the Python version: the directory and, inside a virtual
/// environment, that environment.
pub open spec fn python_source(cwd: Seq<char>, virtual_env: Option<Seq<char>>) -> Seq<char> {
    match virtual_env {
        Some(v) => cwd + "|venv="@ + v,
        None => cwd,
    }
}

fn python_cache_source(cwd: &str, virtual_env: Option<&str>) -> (r: String)
    ensures
        r@ == python_source(cwd@, str_opt(virtual_env)),
{
    let mut r = copy_str(cwd);
    if let Some(v) = virtual_env {
        push_str(&mut r, "|venv=");
        push_str(&mut r, v);
    }
    r
}

/// The key of a runtime's version collected at `source`.
pub open spec fn runtime_key(kind: RuntimeKind, source: Seq<char>, path: Option<Seq<char>>, config_generation: u64) -> CacheKeyView {
    CacheKeyView {
        segment_id: runtime_id(kind),
        source: runtime_source(source, path),
        config_generation,
    }
}

fn runtime_key_exec(kind: RuntimeKind, source: &str, path: Option<&str>, config_generation: u64) -> (r: CacheKey)
    ensures
        r@ == runtime_key(kind, source@, str_opt(path), config_generation),
{
    let s = runtime_cache_source(source, path);
    CacheKey::new(kind.id(), s.as_str(), config_generation)
}

/// The key of the Bun version in `cwd`, when its listing marks a Bun project.
pub fn bun_cache_key(cwd: &str, entries: &[DirEntry], path: Option<&str>, config_generation: u64) -> (r: Option<CacheKey>)
    ensures
        match r {
            Some(k) => listing_matches(entries_view(entries@), bun_detection()) && k@ == runtime_key(
                RuntimeKind::Bun,
                cwd@,
                str_opt(path),
                config_generation,
            ),
            None => !listing_matches(entries_view(entries@), bun_detection()),
        },
{
    if is_bun_project_dir(entries) {
        Some(runtime_key_exec(RuntimeKind::Bun, cwd, path, config_generation))
    } else {
        None
    }
}

/// The key of the Deno version in `cwd`, when its listing marks a Deno project.
pub fn deno_cache_key(cwd: &str, entries: &[DirEntry], path: Option<&str>, config_generation: u64) -> (r: Option<CacheKey>)
    ensures
        match r {
            Some(k) => listing_matches(entries_view(entries@), deno_detection()) && k@ == runtime_key(
                RuntimeKind::Deno,
                cwd@,
                str_opt(path),
                config_generation,
            ),
            None => !listing_matches(entries_view(entries@), deno_detection()),
        },
{
    if is_deno_project_dir(entries) {
        Some(runtime_key_exec(RuntimeKind::Deno, cwd, path, config_generation))
    } else {
        None
    }
}

/// The key of the Node version in `cwd`, when its listing marks a Node project.
pub fn node_cache_key(cwd: &str, entries: &[DirEntry], path: Option<&str>, config_generation: u64) -> (r: Option<CacheKey>)
    ensures
        match r {
            Some(k) => listing_matches(entries_view(entries@), node_detection()) && k@ == runtime_key(
                RuntimeKind::Node,
                cwd@,
                str_opt(path),
                config_generation,
            ),
            None => !listing_matches(entries_view(entries@), node_detection()),
        },
{
    if is_node_project_dir(entries) {
        Some(runtime_key_exec(RuntimeKind::Node, cwd, path, config_generation))
    } else {
        None
    }
}

/// The key of the Python version in `cwd`, inside a Python project.
pub fn python_cache_key(
    cwd: &str,
    entries: &[DirEntry],
    virtual_env: Option<&str>,
    path: Option<&str>,
    config_generation: u64,
) -> (r: Option<CacheKey>)
    ensures
        match r {
            Some(k) => (virtual_env is Some || listing_matches(
                entries_view(entries@),
                python_detection(),
            )) && k@ == runtime_key(
                RuntimeKind::Python,
                python_source(cwd@, str_opt(virtual_env)),
                str_opt(path),
                config_generation,
            ),
            None => !(virtual_env is Some || listing_matches(
                entries_view(entries@),
                python_detection(),
            )),
        },
{
    if is_python_project_dir(entries, virtual_env) {
        let source = python_cache_source(cwd, virtual_env);
        Some(runtime_key_exec(RuntimeKind::Python, source.as_str(), path, config_generation))
    } else {
        None
    }
}

/// The key of the Rust version: collected at the Rust project root, the nearest of
/// `ancestors` with a marker file, `has_marker` telling which have one.
pub fn rust_cache_key(
    ancestors: &Vec<String>,
    has_marker: &Vec<bool>,
    path: Option<&str>,
    config_generation: u64,
) -> (r: Option<CacheKey>)
    ensures
        match first_marked(string_views(ancestors@), has_marker@) {
            Some(root) => (r matches Some(k) && k@ == runtime_key(
                RuntimeKind::Rust,
                root,
                str_opt(path),
                config_generation,
            )),
            None => r is None,
        },
{
    match find_rust_project_root(ancestors, has_marker) {
        Some(root) => Some(runtime_key_exec(RuntimeKind::Rust, root.as_str(), path, config_generation)),
        None => None,
    }
}

// ---------------------------------------------------------------------------
// Laws
// ---------------------------------------------------------------------------

/// Sixteen to the `n`.
pub open spec fn pow16(n: nat) -> nat
    decreases n,
{
    if n == 0 {
        1
    } else {
        16 * pow16((n - 1) as nat)
    }
}

proof fn lemma_hex_char_injective(a: nat, b: nat)
    requires
        a < 16,
        b < 16,
        hex_char(a) == hex_char(b),
    ensures
        a == b,
{
    assert(hex_char(a) as int == if a < 10 { 48 + a as int } else { 97 + a - 10 });
    assert(hex_char(b) as int == if b < 10 { 48 + b as int } else { 97 + b - 10 });
}

proof fn lemma_hex_digits_injective(v: nat, w: nat, n: nat)
    requires
        v < pow16(n),
        w < pow16(n),
        hex_digits(v, n) == hex_digits(w, n),
    ensures
        v == w,
    decreases n,
{
    if n > 0 {
        let p = pow16((n - 1) as nat);
        assert(hex_digits(v, n).last() == hex_char(v % 16));
        assert(hex_digits(w, n).last() == hex_char(w % 16));
        lemma_hex_char_injective(v % 16, w % 16);
        assert(hex_digits(v, n).drop_last() == hex_digits(v / 16, (n - 1) as nat));
        assert(hex_digits(w, n).drop_last() == hex_digits(w / 16, (n - 1) as nat));
        assert(v / 16 < p) by (nonlinear_arith)
            requires
                v < 16 * p,
        ;
        assert(w / 16 < p) by (nonlinear_arith)
            requires
                w < 16 * p,
        ;
        lemma_hex_digits_injective(v / 16, w / 16, (n - 1) as nat);
    }
}

/// The cache key of a runtime version follows the `PATH` it runs with: an empty
/// `PATH` counts as none; a `PATH` gives another key than none does; and two `PATH`
/// values whose digests differ give different keys. The same `PATH` always gives
/// the same key.
pub proof fn law_runtime_key_follows_path(
    kind: RuntimeKind,
    source: Seq<char>,
    a: Seq<char>,
    b: Seq<char>,
    config_generation: u64,
)
    requires
        a.len() > 0,
        b.len() > 0,
        path_digest_of(a) != path_digest_of(b),
    ensures
        runtime_key(kind, source, Some(Seq::<char>::empty()), config_generation) == runtime_key(
            kind,
            source,
            None,
            config_generation,
        ),
        runtime_key(kind, source, Some(a), config_generation) != runtime_key(
            kind,
            source,
            None,
            config_generation,
        ),
        runtime_key(kind, source, Some(a), config_generation) != runtime_key(
            kind,
            source,
            Some(b),
            config_generation,
        ),
{
    reveal_strlit("|path=");
    let ha = hex_digits(path_digest_of(a) as nat, 16nat);
    let hb = hex_digits(path_digest_of(b) as nat, 16nat);
    lemma_hex_digits_len(path_digest_of(a) as nat, 16nat);
    lemma_hex_digits_len(path_digest_of(b) as nat, 16nat);
    let sa = runtime_source(source, Some(a));
    let sb = runtime_source(source, Some(b));
    assert(sa.len() > source.len());
    if sa == sb {
        assert(sa.skip(source.len() as int + 6) =~= ha);
        assert(sb.skip(source.len() as int + 6) =~= hb);
        reveal_with_fuel(pow16, 17);
        assert(pow16(16) == 0x1_0000_0000_0000_0000nat);
        lemma_hex_digits_injective(path_digest_of(a) as nat, path_digest_of(b) as nat, 16nat);
    }
}

proof fn lemma_hex_digits_len(v: nat, n: nat)
    ensures
        hex_digits(v, n).len() == n,
    decreases n,
{
    if n > 0 {
        lemma_hex_digits_len(v / 16, (n - 1) as nat);
    }
}

} // verus!
