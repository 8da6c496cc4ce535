//! Which runtime projects a directory holds, judged from its listing the way
//! Starship's default conditions judge it.

use vstd::prelude::*;

use crate::segments::workspace::{
    current_dir_matches, entries_view, listing_matches, DetectionSpec, DirEntry, RuntimeDetection,
};

verus! {

pub open spec fn bun_detection() -> DetectionSpec {
    DetectionSpec {
        files: seq!["bun.lock"@, "bun.lockb"@, "bunfig.toml"@],
        excluded_files: seq![],
        folders: seq![],
        excluded_folders: seq![],
        extensions: seq![],
    }
}

pub open spec fn deno_detection() -> DetectionSpec {
    DetectionSpec {
        files: seq![
            "deno.json"@,
            "deno.jsonc"@,
            "deno.lock"@,
            "mod.ts"@,
            "deps.ts"@,
            "mod.js"@,
            "deps.js"@,
        ],
        excluded_files: seq![],
        folders: seq![],
        excluded_folders: seq![],
        extensions: seq![],
    }
}

pub open spec fn node_detection() -> DetectionSpec {
    DetectionSpec {
        files: seq!["package.json"@, ".node-version"@, ".nvmrc"@],
        excluded_files: seq![
            "bunfig.toml"@,
            "bun.lock"@,
            "bun.lockb"@,
            "deno.json"@,
            "deno.jsonc"@,
            "deno.lock"@,
        ],
        folders: seq!["node_modules"@],
        excluded_folders: seq!["esy.lock"@],
        extensions: seq!["js"@, "mjs"@, "cjs"@, "ts"@, "mts"@, "cts"@],
    }
}

pub open spec fn python_detection() -> DetectionSpec {
    DetectionSpec {
        files: seq![
            "requirements.txt"@,
            ".python-version"@,
            "pyproject.toml"@,
            "Pipfile"@,
            "tox.ini"@,
            "setup.py"@,
            "__init__.py"@,
        ],
        excluded_files: seq![],
        folders: seq![],
        excluded_folders: seq![],
        extensions: seq!["py"@, "ipynb"@],
    }
}

/// Whether a directory listing marks a Bun project.
pub fn is_bun_project_dir(entries: &[DirEntry]) -> (r: bool)
    ensures
        r == listing_matches(entries_view(entries@), bun_detection()),
{
    let files = ["bun.lock", "bun.lockb", "bunfig.toml"];
    let none: [&str; 0] = [];
    let detection = RuntimeDetection {
        files: &files,
        excluded_files: &none,
        folders: &none,
        excluded_folders: &none,
        extensions: &none,
    };
    assert(detection.spec() =~= bun_detection());
    current_dir_matches(entries, &detection)
}

/// Whether a directory listing marks a Deno project.
pub fn is_deno_project_dir(entries: &[DirEntry]) -> (r: bool)
    ensures
        r == listing_matches(entries_view(entries@), deno_detection()),
{
    let files = ["deno.json", "deno.jsonc", "deno.lock", "mod.ts", "deps.ts", "mod.js", "deps.js"];
    let none: [&str; 0] = [];
    let detection = RuntimeDetection {
        files: &files,
        excluded_files: &none,
        folders: &none,
        excluded_folders: &none,
        extensions: &none,
    };
    assert(detection.spec() =~= deno_detection());
    current_dir_matches(entries, &detection)
}

/// Whether a directory listing marks a Node project.
pub fn is_node_project_dir(entries: &[DirEntry]) -> (r: bool)
    ensures
        r == listing_matches(entries_view(entries@), node_detection()),
{
    let files = ["package.json", ".node-version", ".nvmrc"];
    let excluded_files = ["bunfig.toml", "bun.lock", "bun.lockb", "deno.json", "deno.jsonc", "deno.lock"];
    let folders = ["node_modules"];
    let excluded_folders = ["esy.lock"];
    let extensions = ["js", "mjs", "cjs", "ts", "mts", "cts"];
    let detection = RuntimeDetection {
        files: &files,
        excluded_files: &excluded_files,
        folders: &folders,
        excluded_folders: &excluded_folders,
        extensions: &extensions,
    };
    assert(detection.spec() =~= node_detection());
    current_dir_matches(entries, &detection)
}

/// Whether the prompt runs in a Python project: a virtual environment is active, or
/// the directory listing marks one.
pub fn is_python_project_dir(entries: &[DirEntry], virtual_env: Option<&str>) -> (r: bool)
    ensures
        r == (virtual_env is Some || listing_matches(entries_view(entries@), python_detection())),
{
    if virtual_env.is_some() {
        return true;
    }
    let files = [
        "requirements.txt",
        ".python-version",
        "pyproject.toml",
        "Pipfile",
        "tox.ini",
        "setup.py",
        "__init__.py",
    ];
    let none: [&str; 0] = [];
    let extensions = ["py", "ipynb"];
    let detection = RuntimeDetection {
        files: &files,
        excluded_files: &none,
        folders: &none,
        excluded_folders: &none,
        extensions: &extensions,
    };
    assert(detection.spec() =~= python_detection());
    current_dir_matches(entries, &detection)
}

} // verus!
