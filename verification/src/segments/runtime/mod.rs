//! Runtime and tool segments: their version parsers and renderers.
//!
//! The version commands themselves run outside this library; what they print is
//! read here.

pub mod aws;
pub mod collect;
pub mod detect;
pub mod nix_shell;

pub use aws::render_aws;
pub use nix_shell::render_nix_shell;

use vstd::prelude::*;

use super::{icon_label, label_with_icon, plain_content, style_or, SegmentContent, SegmentContentView, Style, StyleView};
use crate::config::{SegmentConfig, SegmentConfigView};
use crate::text::{
    chars_of, copy_str, is_ascii_alphanumeric, split_whitespace_n, str_eq, string_of, trim,
    trim_chars, views, words,
};

verus! {

/// The icons of the runtime segments.
pub open spec fn rust_icon() -> Seq<char> {
    seq!['\u{e7a8}']
}

pub open spec fn bun_icon() -> Seq<char> {
    seq!['\u{e76f}']
}

pub open spec fn deno_icon() -> Seq<char> {
    seq!['\u{e7c0}']
}

pub open spec fn node_icon() -> Seq<char> {
    seq!['\u{e718}']
}

pub open spec fn python_icon() -> Seq<char> {
    seq!['\u{e73c}']
}

/// A version segment: nothing for an empty version, else the version behind the
/// icon, in the configured style or the segment's default style.
pub open spec fn version_content(
    id: Seq<char>,
    version: Seq<char>,
    config: SegmentConfigView,
    icon: Seq<char>,
    default_style: StyleView,
) -> Option<SegmentContentView> {
    if version.len() == 0 {
        None
    } else {
        Some(plain_content(id, icon_label(version, config.icon, icon), style_or(config.style, default_style)))
    }
}

pub open spec fn bold_fg(color: Seq<char>) -> StyleView {
    StyleView { fg: Some(color), bg: None, bold: true }
}

fn icon_text(c: char) -> (r: String)
    ensures
        r@ == seq![c],
{
    let mut s = String::new();
    crate::text::push_char(&mut s, c);
    assert(s@ =~= seq![c]);
    s
}

fn render_version(id: &str, version: &str, config: &SegmentConfig, icon: char, color: &str) -> (r: Option<SegmentContent>)
    ensures
        super::content_opt(r) == version_content(id@, version@, config@, seq![icon], bold_fg(color@)),
{
    if version.unicode_len() == 0 {
        return None;
    }
    let icon_s = icon_text(icon);
    let label = label_with_icon(version, config, icon_s.as_str());
    let style = super::style_or_default(config, Style::fg_named(color, true));
    Some(SegmentContent::new(id, label.as_str(), style))
}

/// The version `rustc --version` reports: the word after `rustc`.
pub open spec fn rustc_version_of(output: Seq<char>) -> Option<Seq<char>> {
    let w = words(output);
    if w.len() >= 2 && w[0] == "rustc"@ && w[1].len() > 0 {
        Some(w[1])
    } else {
        None
    }
}

/// The second word of the output.
pub open spec fn second_word(output: Seq<char>) -> Option<Seq<char>> {
    let w = words(output);
    if w.len() >= 2 {
        Some(w[1])
    } else {
        None
    }
}

/// The output without surrounding whitespace, unless nothing is left.
pub open spec fn trimmed_version(output: Seq<char>) -> Option<Seq<char>> {
    if trim(output).len() == 0 {
        None
    } else {
        Some(trim(output))
    }
}

/// `s` without its leading `c`s.
pub open spec fn drop_leading(s: Seq<char>, c: char) -> Seq<char>
    decreases s.len(),
{
    if s.len() > 0 && s[0] == c {
        drop_leading(s.drop_first(), c)
    } else {
        s
    }
}

/// The version `node --version` reports: its first word without leading `v`s.
pub open spec fn node_version_of(output: Seq<char>) -> Option<Seq<char>> {
    let w = words(output);
    if w.len() == 0 {
        None
    } else {
        let v = trim(drop_leading(w[0], 'v'));
        if v.len() == 0 {
            None
        } else {
            Some(v)
        }
    }
}

fn first_words(output: &str, k: usize) -> (r: Vec<String>)
    ensures
        crate::config::strings_view(r@) == words(output@).take(
            if k <= words(output@).len() {
                k as int
            } else {
                words(output@).len() as int
            },
        ),
{
    let chars = chars_of(output);
    let w = split_whitespace_n(chars.as_slice(), k);
    let mut r: Vec<String> = Vec::new();
    let mut i: usize = 0;
    while i < w.len()
        invariant
            i <= w.len(),
            crate::config::strings_view(r@) == views(w@).take(i as int),
        decreases w.len() - i,
    {
        crate::config::push_string(&mut r, string_of(w[i].as_slice()));
        assert(crate::config::strings_view(r@) =~= views(w@).take(i + 1));
        i += 1;
    }
    assert(views(w@).take(i as int) =~= views(w@));
    r
}

/// The version in `rustc --version` output.
pub fn parse_rustc_version(output: &str) -> (r: Option<String>)
    ensures
        crate::config::opt_view(r) == rustc_version_of(output@),
{
    let w = first_words(output, 2);
    proof {
        let ws = words(output@);
        let sv = crate::config::strings_view(w@);
        let m: int = if 2 <= ws.len() { 2 } else { ws.len() as int };
        assert(sv == ws.take(m));
        assert(sv.len() == w.len());
        assert(w.len() == m);
        if m >= 1 {
            assert(ws.take(m)[0] == ws[0]);
        }
        if m >= 2 {
            assert(ws.take(m)[1] == ws[1]);
        }
        if w.len() >= 2 {
            assert(sv[0] == w@[0]@ && sv[1] == w@[1]@);
            assert(ws[0] == sv[0] && ws[1] == sv[1]);
        } else {
            assert(ws.len() < 2);
        }
    }
    if w.len() >= 2 && str_eq(w[0].as_str(), "rustc") && w[1].unicode_len() > 0 {
        Some(copy_str(w[1].as_str()))
    } else {
        None
    }
}

fn second_word_of(output: &str) -> (r: Option<String>)
    ensures
        crate::config::opt_view(r) == second_word(output@),
{
    let w = first_words(output, 2);
    proof {
        let ws = words(output@);
        let sv = crate::config::strings_view(w@);
        let m: int = if 2 <= ws.len() { 2 } else { ws.len() as int };
        assert(sv == ws.take(m));
        assert(sv.len() == w.len());
        assert(w.len() == m);
        if m >= 1 {
            assert(ws.take(m)[0] == ws[0]);
        }
        if m >= 2 {
            assert(ws.take(m)[1] == ws[1]);
        }
        if w.len() >= 2 {
            assert(sv[1] == w@[1]@);
            assert(ws[1] == sv[1]);
        } else {
            assert(ws.len() < 2);
        }
    }
    if w.len() >= 2 {
        Some(copy_str(w[1].as_str()))
    } else {
        None
    }
}

/// The version in `deno --version` output: its second word.
pub fn parse_deno_version(output: &str) -> (r: Option<String>)
    ensures
        crate::config::opt_view(r) == second_word(output@),
{
    second_word_of(output)
}

/// The version in `python --version` output: its second word.
pub fn parse_python_version(output: &str) -> (r: Option<String>)
    ensures
        crate::config::opt_view(r) == second_word(output@),
{
    second_word_of(output)
}

/// The version in `bun --version` output: the whole output, trimmed.
pub fn parse_bun_version(output: &str) -> (r: Option<String>)
    ensures
        crate::config::opt_view(r) == trimmed_version(output@),
{
    let chars = chars_of(output);
    let t = trim_chars(chars.as_slice());
    if t.len() == 0 {
        None
    } else {
        Some(string_of(t.as_slice()))
    }
}

/// The version in `node --version` output.
pub fn parse_node_version(output: &str) -> (r: Option<String>)
    ensures
        crate::config::opt_view(r) == node_version_of(output@),
{
    let w = first_words(output, 1);
    proof {
        let ws = words(output@);
        let sv = crate::config::strings_view(w@);
        let m: int = if 1 <= ws.len() { 1 } else { ws.len() as int };
        assert(sv == ws.take(m));
        assert(sv.len() == w.len());
        assert(w.len() == m);
        if m >= 1 {
            assert(ws.take(m)[0] == ws[0]);
        }
        if m >= 2 {
            assert(ws.take(m)[1] == ws[1]);
        }
        if w.len() >= 1 {
            assert(sv[0] == w@[0]@);
            assert(ws[0] == sv[0]);
        } else {
            assert(ws.len() < 1);
        }
    }
    if w.len() == 0 {
        return None;
    }
    let chars = chars_of(w[0].as_str());
    let mut i: usize = 0;
    assert(chars@.skip(0) =~= chars@);
    while i < chars.len() && chars[i] == 'v'
        invariant
            i <= chars.len(),
            drop_leading(chars@, 'v') == drop_leading(chars@.skip(i as int), 'v'),
        decreases chars.len() - i,
    {
        proof {
            assert(chars@.skip(i as int).drop_first() =~= chars@.skip(i + 1));
        }
        i += 1;
    }
    let rest = crate::text::slice_range(chars.as_slice(), i, chars.len());
    proof {
        assert(rest@ =~= chars@.skip(i as int));
        if i < chars.len() {
            assert(chars@.skip(i as int)[0] == chars@[i as int]);
        }
        assert(drop_leading(chars@, 'v') == rest@);
    }
    let t = trim_chars(rest.as_slice());
    if t.len() == 0 {
        None
    } else {
        Some(string_of(t.as_slice()))
    }
}

/// The Rust version segment.
pub fn render_rust_version(version: &str, config: &SegmentConfig) -> (r: Option<SegmentContent>)
    ensures
        super::content_opt(r) == version_content("rust_version"@, version@, config@, rust_icon(), bold_fg("cyan"@)),
{
    render_version("rust_version", version, config, '\u{e7a8}', "cyan")
}

/// The Bun version segment.
pub fn render_bun_version(version: &str, config: &SegmentConfig) -> (r: Option<SegmentContent>)
    ensures
        super::content_opt(r) == version_content("bun_version"@, version@, config@, bun_icon(), bold_fg("red"@)),
{
    render_version("bun_version", version, config, '\u{e76f}', "red")
}

/// The Deno version segment.
pub fn render_deno_version(version: &str, config: &SegmentConfig) -> (r: Option<SegmentContent>)
    ensures
        super::content_opt(r) == version_content("deno_version"@, version@, config@, deno_icon(), bold_fg("green"@)),
{
    render_version("deno_version", version, config, '\u{e7c0}', "green")
}

/// The Node version segment.
pub fn render_node_version(version: &str, config: &SegmentConfig) -> (r: Option<SegmentContent>)
    ensures
        super::content_opt(r) == version_content("node_version"@, version@, config@, node_icon(), bold_fg("green"@)),
{
    render_version("node_version", version, config, '\u{e718}', "green")
}

/// The Python version segment.
pub fn render_python_version(version: &str, config: &SegmentConfig) -> (r: Option<SegmentContent>)
    ensures
        super::content_opt(r) == version_content("python_version"@, version@, config@, python_icon(), bold_fg("yellow"@)),
{
    render_version("python_version", version, config, '\u{e73c}', "yellow")
}

} // verus!
