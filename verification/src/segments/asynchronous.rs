//! Segments whose values are collected in the background: git and the runtime
//! versions. Each has its render ids, its primary id (the key a collection runs
//! under), its cache keys, and its default freshness and time limit.

use vstd::prelude::*;

use crate::cache::{CacheKey, CacheKeyView};
use crate::segments::git::{git_branch_key_from_status_key, git_cache_key};
use crate::segments::runtime::collect::{
    bun_cache_key, deno_cache_key, node_cache_key, python_cache_key, python_source, runtime_key,
    rust_cache_key, str_opt, RuntimeKind,
};
use crate::segments::runtime::detect::{bun_detection, deno_detection, node_detection, python_detection};
use crate::segments::workspace::{entries_view, first_marked, listing_matches, string_views, DirEntry};
use crate::state::{PromptState, PromptStateView};
use crate::text::str_eq;

verus! {

/// What the file system says about the prompt's directory, read by the caller: the
/// directory's listing, its ancestors (as `path_ancestors` lists them), and for each
/// ancestor whether it holds `.git` and whether it holds a Rust project marker.
#[derive(Clone, Debug, PartialEq, Eq)]
pub struct WorkspaceProbe {
    pub entries: Vec<DirEntry>,
    pub ancestors: Vec<String>,
    pub has_git: Vec<bool>,
    pub has_rust_marker: Vec<bool>,
}

/// The git branch and status segments, collected together.
#[derive(Clone, Copy, Debug, PartialEq, Eq)]
pub struct GitSegment;

/// The Rust version segment.
#[derive(Clone, Copy, Debug, PartialEq, Eq)]
pub struct RustSegment;

/// The Bun version segment.
#[derive(Clone, Copy, Debug, PartialEq, Eq)]
pub struct BunSegment;

/// The Deno version segment.
#[derive(Clone, Copy, Debug, PartialEq, Eq)]
pub struct DenoSegment;

/// The Node version segment.
#[derive(Clone, Copy, Debug, PartialEq, Eq)]
pub struct NodeSegment;

/// The Python version segment.
#[derive(Clone, Copy, Debug, PartialEq, Eq)]
pub struct PythonSegment;

/// One of the segments collected in the background.
#[derive(Clone, Copy, Debug, PartialEq, Eq)]
pub enum AsyncSegment {
    Git(GitSegment),
    Rust(RustSegment),
    Bun(BunSegment),
    Deno(DenoSegment),
    Node(NodeSegment),
    Python(PythonSegment),
}

/// How long a runtime version stays fresh, in milliseconds.
pub const RUNTIME_REFRESH_TTL_MS: u64 = 300_000;

/// How long a runtime version command may run, in milliseconds.
pub const RUNTIME_TIMEOUT_MS: u64 = 1_000;

/// How long `git status` may run, in milliseconds.
pub const GIT_TIMEOUT_MS: u64 = 1_000;

// ---------------------------------------------------------------------------
// Specification
// ---------------------------------------------------------------------------

/// The ids a segment renders under.
pub open spec fn seg_render_ids(s: AsyncSegment) -> Seq<Seq<char>> {
    match s {
        AsyncSegment::Git(_) => seq!["git_branch"@, "git_status"@],
        AsyncSegment::Rust(_) => seq!["rust_version"@],
        AsyncSegment::Bun(_) => seq!["bun_version"@],
        AsyncSegment::Deno(_) => seq!["deno_version"@],
        AsyncSegment::Node(_) => seq!["node_version"@],
        AsyncSegment::Python(_) => seq!["python_version"@],
    }
}

/// The id a segment's collection runs under.
pub open spec fn seg_primary(s: AsyncSegment) -> Seq<char> {
    match s {
        AsyncSegment::Git(_) => "git_status"@,
        AsyncSegment::Rust(_) => "rust_version"@,
        AsyncSegment::Bun(_) => "bun_version"@,
        AsyncSegment::Deno(_) => "deno_version"@,
        AsyncSegment::Node(_) => "node_version"@,
        AsyncSegment::Python(_) => "python_version"@,
    }
}

/// How long a segment's value stays fresh unless configured: git status is
/// collected again for every prompt.
pub open spec fn seg_ttl(s: AsyncSegment) -> u64 {
    match s {
        AsyncSegment::Git(_) => 0,
        _ => RUNTIME_REFRESH_TTL_MS,
    }
}

/// How long a segment's collection may run unless configured.
pub open spec fn seg_timeout(s: AsyncSegment) -> u64 {
    match s {
        AsyncSegment::Git(_) => GIT_TIMEOUT_MS,
        _ => RUNTIME_TIMEOUT_MS,
    }
}

/// The cache key a segment keeps the value of `render_id` under for the prompt state,
/// if the directory is one the segment applies to.
pub open spec fn seg_key(
    s: AsyncSegment,
    render_id: Seq<char>,
    state: PromptStateView,
    probe: WorkspaceProbe,
    config_generation: u64,
) -> Option<CacheKeyView> {
    let path = state.env.path;
    match s {
        AsyncSegment::Git(_) => match first_marked(string_views(probe.ancestors@), probe.has_git@) {
            Some(root) => if render_id == "git_branch"@ {
                Some(CacheKeyView { segment_id: "git_branch"@, source: root, config_generation })
            } else if render_id == "git_status"@ {
                Some(CacheKeyView { segment_id: "git_status"@, source: root, config_generation })
            } else {
                None
            },
            None => None,
        },
        AsyncSegment::Rust(_) => if render_id == "rust_version"@ {
            match first_marked(string_views(probe.ancestors@), probe.has_rust_marker@) {
                Some(root) => Some(runtime_key(RuntimeKind::Rust, root, path, config_generation)),
                None => None,
            }
        } else {
            None
        },
        AsyncSegment::Bun(_) => if render_id == "bun_version"@ && listing_matches(
            entries_view(probe.entries@),
            bun_detection(),
        ) {
            Some(runtime_key(RuntimeKind::Bun, state.cwd, path, config_generation))
        } else {
            None
        },
        AsyncSegment::Deno(_) => if render_id == "deno_version"@ && listing_matches(
            entries_view(probe.entries@),
            deno_detection(),
        ) {
            Some(runtime_key(RuntimeKind::Deno, state.cwd, path, config_generation))
        } else {
            None
        },
        AsyncSegment::Node(_) => if render_id == "node_version"@ && listing_matches(
            entries_view(probe.entries@),
            node_detection(),
        ) {
            Some(runtime_key(RuntimeKind::Node, state.cwd, path, config_generation))
        } else {
            None
        },
        AsyncSegment::Python(_) => if render_id == "python_version"@ && (
        state.env.virtual_env is Some || listing_matches(
            entries_view(probe.entries@),
            python_detection(),
        )) {
            Some(
                runtime_key(
                    RuntimeKind::Python,
                    python_source(state.cwd, state.env.virtual_env),
                    path,
                    config_generation,
                ),
            )
        } else {
            None
        },
    }
}

/// The async segments, in the order they are looked up and collected.
pub open spec fn all_async_segments() -> Seq<AsyncSegment> {
    seq![
        AsyncSegment::Git(GitSegment),
        AsyncSegment::Rust(RustSegment),
        AsyncSegment::Bun(BunSegment),
        AsyncSegment::Deno(DenoSegment),
        AsyncSegment::Node(NodeSegment),
        AsyncSegment::Python(PythonSegment),
    ]
}

/// The ids of every segment there is.
pub open spec fn all_segment_ids() -> Seq<Seq<char>> {
    seq![
        "aws"@,
        "bun_version"@,
        "deno_version"@,
        "dir"@,
        "duration"@,
        "exit_status"@,
        "git_branch"@,
        "git_status"@,
        "nix_shell"@,
        "node_version"@,
        "prompt_char"@,
        "python_version"@,
        "rust_version"@,
        "ssh"@,
        "time"@,
        "user_host"@,
    ]
}

// ---------------------------------------------------------------------------
// Code
// ---------------------------------------------------------------------------

/// What a background segment is: the ids it renders, the id its collection runs
/// under, its cache keys, and its default freshness and time limit (milliseconds).
pub trait AsyncSegmentSpec {
    fn render_ids(&self) -> Vec<&'static str>;

    fn primary_id(&self) -> &'static str;

    fn cache_key(
        &self,
        render_id: &str,
        state: &PromptState,
        probe: &WorkspaceProbe,
        config_generation: u64,
    ) -> Option<CacheKey>;

    fn default_ttl(&self) -> u64;

    fn default_timeout(&self) -> u64;
}

fn path_of(state: &PromptState) -> (r: Option<&str>)
    ensures
        str_opt(r) == state@.env.path,
{
    match &state.env.path {
        Some(p) => Some(p.as_str()),
        None => None,
    }
}

/// The keys an optional key stands for, as a value.
pub open spec fn key_opt(k: Option<CacheKey>) -> Option<CacheKeyView> {
    match k {
        Some(k) => Some(k@),
        None => None,
    }
}

impl AsyncSegmentSpec for GitSegment {
    fn render_ids(&self) -> (r: Vec<&'static str>)
        ensures
            strs_view_of(r@) == seg_render_ids(AsyncSegment::Git(*self)),
    {
        let r = vec!["git_branch", "git_status"];
        assert(strs_view_of(r@) =~= seg_render_ids(AsyncSegment::Git(*self)));
        r
    }

    fn primary_id(&self) -> (r: &'static str)
        ensures
            r@ == seg_primary(AsyncSegment::Git(*self)),
    {
        "git_status"
    }

    fn cache_key(
        &self,
        render_id: &str,
        state: &PromptState,
        probe: &WorkspaceProbe,
        config_generation: u64,
    ) -> (r: Option<CacheKey>)
        ensures
            key_opt(r) == seg_key(AsyncSegment::Git(*self), render_id@, state@, *probe, config_generation),
    {
        let status_key = match git_cache_key(&probe.ancestors, &probe.has_git, config_generation) {
            Some(k) => k,
            None => return None,
        };
        if str_eq(render_id, "git_branch") {
            Some(git_branch_key_from_status_key(&status_key))
        } else if str_eq(render_id, "git_status") {
            Some(status_key)
        } else {
            None
        }
    }

    fn default_ttl(&self) -> (r: u64)
        ensures
            r == seg_ttl(AsyncSegment::Git(*self)),
    {
        0
    }

    fn default_timeout(&self) -> (r: u64)
        ensures
            r == seg_timeout(AsyncSegment::Git(*self)),
    {
        GIT_TIMEOUT_MS
    }
}

impl AsyncSegmentSpec for RustSegment {
    fn render_ids(&self) -> (r: Vec<&'static str>)
        ensures
            strs_view_of(r@) == seg_render_ids(AsyncSegment::Rust(*self)),
    {
        let r = vec!["rust_version"];
        assert(strs_view_of(r@) =~= seg_render_ids(AsyncSegment::Rust(*self)));
        r
    }

    fn primary_id(&self) -> (r: &'static str)
        ensures
            r@ == seg_primary(AsyncSegment::Rust(*self)),
    {
        "rust_version"
    }

    fn cache_key(
        &self,
        render_id: &str,
        state: &PromptState,
        probe: &WorkspaceProbe,
        config_generation: u64,
    ) -> (r: Option<CacheKey>)
        ensures
            key_opt(r) == seg_key(AsyncSegment::Rust(*self), render_id@, state@, *probe, config_generation),
    {
        if !str_eq(render_id, "rust_version") {
            return None;
        }
        rust_cache_key(&probe.ancestors, &probe.has_rust_marker, path_of(state), config_generation)
    }

    fn default_ttl(&self) -> (r: u64)
        ensures
            r == seg_ttl(AsyncSegment::Rust(*self)),
    {
        RUNTIME_REFRESH_TTL_MS
    }

    fn default_timeout(&self) -> (r: u64)
        ensures
            r == seg_timeout(AsyncSegment::Rust(*self)),
    {
        RUNTIME_TIMEOUT_MS
    }
}

impl AsyncSegmentSpec for BunSegment {
    fn render_ids(&self) -> (r: Vec<&'static str>)
        ensures
            strs_view_of(r@) == seg_render_ids(AsyncSegment::Bun(*self)),
    {
        let r = vec!["bun_version"];
        assert(strs_view_of(r@) =~= seg_render_ids(AsyncSegment::Bun(*self)));
        r
    }

    fn primary_id(&self) -> (r: &'static str)
        ensures
            r@ == seg_primary(AsyncSegment::Bun(*self)),
    {
        "bun_version"
    }

    fn cache_key(
        &self,
        render_id: &str,
        state: &PromptState,
        probe: &WorkspaceProbe,
        config_generation: u64,
    ) -> (r: Option<CacheKey>)
        ensures
            key_opt(r) == seg_key(AsyncSegment::Bun(*self), render_id@, state@, *probe, config_generation),
    {
        if !str_eq(render_id, "bun_version") {
            return None;
        }
        bun_cache_key(state.cwd.as_str(), probe.entries.as_slice(), path_of(state), config_generation)
    }

    fn default_ttl(&self) -> (r: u64)
        ensures
            r == seg_ttl(AsyncSegment::Bun(*self)),
    {
        RUNTIME_REFRESH_TTL_MS
    }

    fn default_timeout(&self) -> (r: u64)
        ensures
            r == seg_timeout(AsyncSegment::Bun(*self)),
    {
        RUNTIME_TIMEOUT_MS
    }
}

impl AsyncSegmentSpec for DenoSegment {
    fn render_ids(&self) -> (r: Vec<&'static str>)
        ensures
            strs_view_of(r@) == seg_render_ids(AsyncSegment::Deno(*self)),
    {
        let r = vec!["deno_version"];
        assert(strs_view_of(r@) =~= seg_render_ids(AsyncSegment::Deno(*self)));
        r
    }

    fn primary_id(&self) -> (r: &'static str)
        ensures
            r@ == seg_primary(AsyncSegment::Deno(*self)),
    {
        "deno_version"
    }

    fn cache_key(
        &self,
        render_id: &str,
        state: &PromptState,
        probe: &WorkspaceProbe,
        config_generation: u64,
    ) -> (r: Option<CacheKey>)
        ensures
            key_opt(r) == seg_key(AsyncSegment::Deno(*self), render_id@, state@, *probe, config_generation),
    {
        if !str_eq(render_id, "deno_version") {
            return None;
        }
        deno_cache_key(state.cwd.as_str(), probe.entries.as_slice(), path_of(state), config_generation)
    }

    fn default_ttl(&self) -> (r: u64)
        ensures
            r == seg_ttl(AsyncSegment::Deno(*self)),
    {
        RUNTIME_REFRESH_TTL_MS
    }

    fn default_timeout(&self) -> (r: u64)
        ensures
            r == seg_timeout(AsyncSegment::Deno(*self)),
    {
        RUNTIME_TIMEOUT_MS
    }
}

impl AsyncSegmentSpec for NodeSegment {
    fn render_ids(&self) -> (r: Vec<&'static str>)
        ensures
            strs_view_of(r@) == seg_render_ids(AsyncSegment::Node(*self)),
    {
        let r = vec!["node_version"];
        assert(strs_view_of(r@) =~= seg_render_ids(AsyncSegment::Node(*self)));
        r
    }

    fn primary_id(&self) -> (r: &'static str)
        ensures
            r@ == seg_primary(AsyncSegment::Node(*self)),
    {
        "node_version"
    }

    fn cache_key(
        &self,
        render_id: &str,
        state: &PromptState,
        probe: &WorkspaceProbe,
        config_generation: u64,
    ) -> (r: Option<CacheKey>)
        ensures
            key_opt(r) == seg_key(AsyncSegment::Node(*self), render_id@, state@, *probe, config_generation),
    {
        if !str_eq(render_id, "node_version") {
            return None;
        }
        node_cache_key(state.cwd.as_str(), probe.entries.as_slice(), path_of(state), config_generation)
    }

    fn default_ttl(&self) -> (r: u64)
        ensures
            r == seg_ttl(AsyncSegment::Node(*self)),
    {
        RUNTIME_REFRESH_TTL_MS
    }

    fn default_timeout(&self) -> (r: u64)
        ensures
            r == seg_timeout(AsyncSegment::Node(*self)),
    {
        RUNTIME_TIMEOUT_MS
    }
}

impl AsyncSegmentSpec for PythonSegment {
    fn render_ids(&self) -> (r: Vec<&'static str>)
        ensures
            strs_view_of(r@) == seg_render_ids(AsyncSegment::Python(*self)),
    {
        let r = vec!["python_version"];
        assert(strs_view_of(r@) =~= seg_render_ids(AsyncSegment::Python(*self)));
        r
    }

    fn primary_id(&self) -> (r: &'static str)
        ensures
            r@ == seg_primary(AsyncSegment::Python(*self)),
    {
        "python_version"
    }

    fn cache_key(
        &self,
        render_id: &str,
        state: &PromptState,
        probe: &WorkspaceProbe,
        config_generation: u64,
    ) -> (r: Option<CacheKey>)
        ensures
            key_opt(r) == seg_key(AsyncSegment::Python(*self), render_id@, state@, *probe, config_generation),
    {
        if !str_eq(render_id, "python_version") {
            return None;
        }
        let venv = match &state.env.virtual_env {
            Some(v) => Some(v.as_str()),
            None => None,
        };
        assert(str_opt(venv) == state@.env.virtual_env);
        python_cache_key(state.cwd.as_str(), probe.entries.as_slice(), venv, path_of(state), config_generation)
    }

    fn default_ttl(&self) -> (r: u64)
        ensures
            r == seg_ttl(AsyncSegment::Python(*self)),
    {
        RUNTIME_REFRESH_TTL_MS
    }

    fn default_timeout(&self) -> (r: u64)
        ensures
            r == seg_timeout(AsyncSegment::Python(*self)),
    {
        RUNTIME_TIMEOUT_MS
    }
}

/// The views of a list of string slices.
pub open spec fn strs_view_of(v: Seq<&str>) -> Seq<Seq<char>> {
    Seq::new(v.len(), |i: int| v[i]@)
}

impl AsyncSegment {
    pub fn render_ids(&self) -> (r: Vec<&'static str>)
        ensures
            strs_view_of(r@) == seg_render_ids(*self),
    {
        match self {
            AsyncSegment::Git(s) => s.render_ids(),
            AsyncSegment::Rust(s) => s.render_ids(),
            AsyncSegment::Bun(s) => s.render_ids(),
            AsyncSegment::Deno(s) => s.render_ids(),
            AsyncSegment::Node(s) => s.render_ids(),
            AsyncSegment::Python(s) => s.render_ids(),
        }
    }

    pub fn primary_id(&self) -> (r: &'static str)
        ensures
            r@ == seg_primary(*self),
    {
        match self {
            AsyncSegment::Git(s) => s.primary_id(),
            AsyncSegment::Rust(s) => s.primary_id(),
            AsyncSegment::Bun(s) => s.primary_id(),
            AsyncSegment::Deno(s) => s.primary_id(),
            AsyncSegment::Node(s) => s.primary_id(),
            AsyncSegment::Python(s) => s.primary_id(),
        }
    }

    pub fn cache_key(
        &self,
        render_id: &str,
        state: &PromptState,
        probe: &WorkspaceProbe,
        config_generation: u64,
    ) -> (r: Option<CacheKey>)
        ensures
            key_opt(r) == seg_key(*self, render_id@, state@, *probe, config_generation),
    {
        match self {
            AsyncSegment::Git(s) => s.cache_key(render_id, state, probe, config_generation),
            AsyncSegment::Rust(s) => s.cache_key(render_id, state, probe, config_generation),
            AsyncSegment::Bun(s) => s.cache_key(render_id, state, probe, config_generation),
            AsyncSegment::Deno(s) => s.cache_key(render_id, state, probe, config_generation),
            AsyncSegment::Node(s) => s.cache_key(render_id, state, probe, config_generation),
            AsyncSegment::Python(s) => s.cache_key(render_id, state, probe, config_generation),
        }
    }

    pub fn default_ttl(&self) -> (r: u64)
        ensures
            r == seg_ttl(*self),
    {
        match self {
            AsyncSegment::Git(s) => s.default_ttl(),
            AsyncSegment::Rust(s) => s.default_ttl(),
            AsyncSegment::Bun(s) => s.default_ttl(),
            AsyncSegment::Deno(s) => s.default_ttl(),
            AsyncSegment::Node(s) => s.default_ttl(),
            AsyncSegment::Python(s) => s.default_ttl(),
        }
    }

    pub fn default_timeout(&self) -> (r: u64)
        ensures
            r == seg_timeout(*self),
    {
        match self {
            AsyncSegment::Git(s) => s.default_timeout(),
            AsyncSegment::Rust(s) => s.default_timeout(),
            AsyncSegment::Bun(s) => s.default_timeout(),
            AsyncSegment::Deno(s) => s.default_timeout(),
            AsyncSegment::Node(s) => s.default_timeout(),
            AsyncSegment::Python(s) => s.default_timeout(),
        }
    }
}

/// The async segments, in the order they are looked up and collected.
pub fn async_segments() -> (r: Vec<AsyncSegment>)
    ensures
        r@ == all_async_segments(),
{
    let r = vec![
        AsyncSegment::Git(GitSegment),
        AsyncSegment::Rust(RustSegment),
        AsyncSegment::Bun(BunSegment),
        AsyncSegment::Deno(DenoSegment),
        AsyncSegment::Node(NodeSegment),
        AsyncSegment::Python(PythonSegment),
    ];
    assert(r@ =~= all_async_segments());
    r
}

/// The ids of every segment there is, for judging a configuration.
pub fn known_segment_ids() -> (r: Vec<&'static str>)
    ensures
        strs_view_of(r@) == all_segment_ids(),
{
    let r = vec![
        "aws",
        "bun_version",
        "deno_version",
        "dir",
        "duration",
        "exit_status",
        "git_branch",
        "git_status",
        "nix_shell",
        "node_version",
        "prompt_char",
        "python_version",
        "rust_version",
        "ssh",
        "time",
        "user_host",
    ];
    assert(strs_view_of(r@) =~= all_segment_ids());
    r
}

} // verus!
