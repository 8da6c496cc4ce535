//! Fitting a side of a prompt line into the terminal width.
//!
//! When a side is too wide, its segments are shortened step by step, cheapest
//! first: the directory path is abbreviated, the branch is cut down to a soft
//! floor, git status counts are dropped, runtime segments shrink to their icons,
//! and the directory is cut down to its last component. Each step only ever
//! makes some text narrower. When none applies, the first segment is cut to the
//! width and fitting stops.

use vstd::prelude::*;

use crate::segments::{contents_view, SegmentContent, SegmentContentView};
use crate::text::{
    chars_of, copy_str, is_ascii_digit, is_digit, is_whitespace, is_ws, join_chars, join_with,
    push_char, push_str, slice_range, split_chars, split_on, split_whitespace_n, str_eq, string_of,
    trim_end, trim_end_chars, views, words,
};
use super::width::{
    display_width, text_columns, truncate_end, truncate_middle, truncate_start, truncated_end,
    truncated_middle, truncated_start,
};
use super::{
    drop_invisible, remove_zero_width_segments, set_segment_text, side_width, side_width_of,
    visible, widths_sum, with_text,
};

verus! {

// ---------------------------------------------------------------------------
// Icons
// ---------------------------------------------------------------------------

/// The segments that can shrink to their icon.
pub open spec fn icon_compactable(id: Seq<char>) -> bool {
    id == "rust_version"@ || id == "bun_version"@ || id == "deno_version"@ || id
        == "node_version"@ || id == "python_version"@ || id == "nix_shell"@ || id == "aws"@
}

/// The first word of a text, when the text is more than that word.
pub open spec fn icon_only(text: Seq<char>) -> Option<Seq<char>> {
    let w = words(text);
    if w.len() == 0 || w[0] == text {
        None
    } else {
        Some(w[0])
    }
}

/// Whether a segment can shrink to its icon.
pub fn can_compact_to_icon(id: &str) -> (r: bool)
    ensures
        r == icon_compactable(id@),
{
    str_eq(id, "rust_version") || str_eq(id, "bun_version") || str_eq(id, "deno_version")
        || str_eq(id, "node_version") || str_eq(id, "python_version") || str_eq(id, "nix_shell")
        || str_eq(id, "aws")
}

/// The icon a text starts with: its first word, unless that is all of it.
pub fn icon_only_text(text: &str) -> (r: Option<String>)
    ensures
        crate::config::opt_view(r) == icon_only(text@),
{
    let chars = chars_of(text);
    let first = split_whitespace_n(chars.as_slice(), 1);
    proof {
        let w = words(text@);
        assert(views(first@).len() == first@.len());
        if w.len() > 0 {
            assert(views(first@) =~= w.take(1));
            assert(views(first@)[0] == first@[0]@);
            assert(first@[0]@ == w[0]);
        }
    }
    if first.len() == 0 {
        return None;
    }
    let icon = string_of(first[0].as_slice());
    if str_eq(icon.as_str(), text) {
        None
    } else {
        Some(icon)
    }
}

// ---------------------------------------------------------------------------
// Directory paths
// ---------------------------------------------------------------------------

/// Components that abbreviation keeps whole: the last, empty ones, `~` and `…`.
pub open spec fn preserved_component(c: Seq<char>, index: int, last_index: int) -> bool {
    index == last_index || c.len() == 0 || c == "~"@ || c == seq!['\u{2026}']
}

/// A component cut to its first character, or to two when it starts with a dot.
pub open spec fn abbreviated(c: Seq<char>) -> Seq<char> {
    if c.len() == 0 {
        c
    } else if c[0] == '.' {
        if c.len() >= 2 {
            seq!['.', c[1]]
        } else {
            seq!['.']
        }
    } else {
        seq![c[0]]
    }
}

pub open spec fn compacted_components(comps: Seq<Seq<char>>) -> Seq<Seq<char>> {
    Seq::new(
        comps.len(),
        |i: int|
            if preserved_component(comps[i], i, comps.len() - 1) {
                comps[i]
            } else {
                abbreviated(comps[i])
            },
    )
}

/// A path with every component but the last abbreviated, when that changes it.
pub open spec fn compact_dir_path(text: Seq<char>) -> Option<Seq<char>> {
    let comps = split_on(text, '/');
    if comps.len() <= 1 {
        None
    } else {
        let c = join_with(compacted_components(comps), seq!['/']);
        if c == text {
            None
        } else {
            Some(c)
        }
    }
}

/// The last non-empty component.
pub open spec fn last_nonempty(comps: Seq<Seq<char>>) -> Option<Seq<char>>
    decreases comps.len(),
{
    if comps.len() == 0 {
        None
    } else if comps.last().len() > 0 {
        Some(comps.last())
    } else {
        last_nonempty(comps.drop_last())
    }
}

/// What a path is never cut below: its last non-empty component.
pub open spec fn dir_floor(text: Seq<char>) -> Seq<char> {
    match last_nonempty(split_on(text, '/')) {
        Some(c) => c,
        None => text,
    }
}

/// Whether a path component is kept whole when abbreviating.
pub fn should_preserve_dir_component(component: &str, index: usize, last_index: usize) -> (r: bool)
    ensures
        r == preserved_component(component@, index as int, last_index as int),
{
    if index == last_index || component.unicode_len() == 0 || str_eq(component, "~") {
        return true;
    }
    let chars = chars_of(component);
    let r = chars.len() == 1 && chars[0] == '\u{2026}';
    assert(r ==> chars@ =~= seq!['\u{2026}']);
    r
}

/// A path component cut to its first character (two when it starts with a dot).
pub fn abbreviate_dir_component(component: &str) -> (r: String)
    ensures
        r@ == abbreviated(component@),
{
    let chars = chars_of(component);
    let mut out = String::new();
    if chars.len() == 0 {
        return out;
    }
    if chars[0] == '.' {
        push_char(&mut out, '.');
        if chars.len() >= 2 {
            push_char(&mut out, chars[1]);
            assert(out@ =~= seq!['.', chars@[1]]);
        } else {
            assert(out@ =~= seq!['.']);
        }
    } else {
        push_char(&mut out, chars[0]);
        assert(out@ =~= seq![chars@[0]]);
    }
    out
}

/// The path with every component but the last abbreviated, when that changes it.
pub fn compact_dir_path_text(text: &str) -> (r: Option<String>)
    ensures
        crate::config::opt_view(r) == compact_dir_path(text@),
{
    let chars = chars_of(text);
    let comps = split_chars(chars.as_slice(), '/');
    if comps.len() <= 1 {
        return None;
    }
    let ghost cs = views(comps@);
    let last_index = comps.len() - 1;
    let mut out: Vec<Vec<char>> = Vec::new();
    let mut i: usize = 0;
    while i < comps.len()
        invariant
            i <= comps.len(),
            cs == views(comps@),
            last_index == comps.len() - 1,
            views(out@) == compacted_components(cs).take(i as int),
        decreases comps.len() - i,
    {
        let component = string_of(comps[i].as_slice());
        let piece = if should_preserve_dir_component(component.as_str(), i, last_index) {
            chars_of(component.as_str())
        } else {
            let a = abbreviate_dir_component(component.as_str());
            chars_of(a.as_str())
        };
        let ghost before = views(out@);
        out.push(piece);
        assert(views(out@) =~= before.push(piece@));
        assert(views(out@) =~= compacted_components(cs).take(i + 1));
        i += 1;
    }
    assert(compacted_components(cs).take(i as int) =~= compacted_components(cs));
    let joined = join_chars(&out, &['/']);
    assert(['/']@ =~= seq!['/']);
    let s = string_of(joined.as_slice());
    if str_eq(s.as_str(), text) {
        None
    } else {
        Some(s)
    }
}

/// The last non-empty component of a path, or the path itself.
pub fn dir_floor_text(text: &str) -> (r: String)
    ensures
        r@ == dir_floor(text@),
{
    let chars = chars_of(text);
    let comps = split_chars(chars.as_slice(), '/');
    let ghost cs = views(comps@);
    let mut i = comps.len();
    assert(cs.take(i as int) =~= cs);
    while i > 0
        invariant
            i <= comps.len(),
            cs == views(comps@),
            cs == split_on(text@, '/'),
            last_nonempty(cs) == last_nonempty(cs.take(i as int)),
        decreases i,
    {
        proof {
            assert(cs.take(i as int).drop_last() =~= cs.take(i - 1));
            assert(cs.take(i as int).last() == comps@[i - 1]@);
        }
        if comps[i - 1].len() > 0 {
            assert(cs[i - 1] == comps@[i - 1]@);
            assert(cs.take(i as int).last().len() > 0);
            assert(last_nonempty(cs.take(i as int)) == Some(cs[i - 1]));
            assert(split_on(text@, '/') == cs);
            return string_of(comps[i - 1].as_slice());
        }
        i -= 1;
    }
    assert(cs.take(0) =~= Seq::<Seq<char>>::empty());
    copy_str(text)
}

/// A directory cut to `max_width` columns: abbreviated first, then cut from the
/// start, never below its last component unless that alone is too wide.
pub open spec fn truncated_dir(text: Seq<char>, max: nat) -> Seq<char> {
    if text_columns(text) <= max {
        text
    } else {
        let candidate = match compact_dir_path(text) {
            Some(c) => c,
            None => text,
        };
        if text_columns(candidate) <= max {
            candidate
        } else {
            let floor = dir_floor(candidate);
            let fw = text_columns(floor);
            if max == fw {
                floor
            } else if max < fw {
                truncated_start(floor, max)
            } else {
                truncated_start(candidate, max)
            }
        }
    }
}

/// A directory cut to `max_width` columns.
pub fn truncate_dir_text(text: &str, max_width: usize) -> (r: String)
    ensures
        r@ == truncated_dir(text@, max_width as nat),
{
    if display_width(text) <= max_width {
        return copy_str(text);
    }
    let candidate = match compact_dir_path_text(text) {
        Some(c) => c,
        None => copy_str(text),
    };
    if display_width(candidate.as_str()) <= max_width {
        return candidate;
    }
    let floor = dir_floor_text(candidate.as_str());
    let floor_width = display_width(floor.as_str());
    if max_width == floor_width {
        return floor;
    }
    if max_width < floor_width {
        return truncate_start(floor.as_str(), max_width);
    }
    truncate_start(candidate.as_str(), max_width)
}

// ---------------------------------------------------------------------------
// Labels, prompt characters and status counts
// ---------------------------------------------------------------------------

/// The first index from which `s` is (or is not, as `ws` says) whitespace.
pub open spec fn first_where(s: Seq<char>, ws: bool) -> Option<int>
    decreases s.len(),
{
    if s.len() == 0 {
        None
    } else if is_ws(s[0]) == ws {
        Some(0)
    } else {
        match first_where(s.drop_first(), ws) {
            Some(i) => Some(i + 1),
            None => None,
        }
    }
}

pub proof fn lemma_first_where(s: Seq<char>, ws: bool)
    ensures
        first_where(s, ws) matches Some(i) ==> 0 <= i < s.len() && is_ws(s[i]) == ws && forall|k: int|
            0 <= k < i ==> is_ws(#[trigger] s[k]) != ws,
        first_where(s, ws) is None ==> forall|k: int| 0 <= k < s.len() ==> is_ws(#[trigger] s[k]) != ws,
    decreases s.len(),
{
    if s.len() > 0 && is_ws(s[0]) != ws {
        lemma_first_where(s.drop_first(), ws);
        assert forall|k: int| 1 <= k < s.len() implies s[k] == s.drop_first()[k - 1] by {}
    }
}

/// A label split after the whitespace that follows its leading word: the word
/// and whitespace, and the rest.
pub open spec fn label_split(text: Seq<char>) -> Option<(Seq<char>, Seq<char>)> {
    match first_where(text, true) {
        None => None,
        Some(s) => match first_where(text.skip(s), false) {
            None => None,
            Some(k) => Some((text.take(s + k), text.skip(s + k))),
        },
    }
}

fn first_index_where(s: &Vec<char>, start: usize, ws: bool) -> (r: Option<usize>)
    requires
        start <= s.len(),
    ensures
        r matches Some(i) ==> start <= i < s.len() && first_where(s@.skip(start as int), ws) == Some(
            i - start,
        ),
        r is None ==> first_where(s@.skip(start as int), ws) is None,
{
    let mut i = start;
    while i < s.len()
        invariant
            start <= i <= s.len(),
            forall|k: int| start <= k < i ==> is_ws(#[trigger] s@[k]) != ws,
        decreases s.len() - i,
    {
        if is_whitespace(s[i]) == ws {
            proof {
                let t = s@.skip(start as int);
                lemma_first_where(t, ws);
                assert(t[i - start] == s@[i as int]);
                match first_where(t, ws) {
                    Some(k) => {
                        if k < i - start {
                            assert(t[k] == s@[start + k]);
                        }
                        if k > i - start {
                            assert(is_ws(t[i - start]) != ws);
                        }
                    },
                    None => {
                        assert(is_ws(t[i - start]) != ws);
                    },
                }
            }
            return Some(i);
        }
        i += 1;
    }
    proof {
        let t = s@.skip(start as int);
        lemma_first_where(t, ws);
        if let Some(k) = first_where(t, ws) {
            assert(t[k] == s@[start + k]);
        }
    }
    None
}

/// Splits a label after the whitespace that follows its leading word.
pub fn split_label_prefix(text: &str) -> (r: Option<(String, String)>)
    ensures
        match r {
            Some((p, l)) => label_split(text@) == Some((p@, l@)),
            None => label_split(text@) is None,
        },
{
    let chars = chars_of(text);
    assert(chars@.skip(0) =~= text@);
    let separator_start = match first_index_where(&chars, 0, true) {
        Some(i) => i,
        None => return None,
    };
    assert(first_where(text@, true) == Some(separator_start as int));
    let label_start = match first_index_where(&chars, separator_start, false) {
        Some(i) => i,
        None => {
            assert(first_where(text@.skip(separator_start as int), false) is None);
            return None;
        },
    };
    assert(first_where(text@.skip(separator_start as int), false) == Some(
        label_start - separator_start,
    ));
    let prefix = slice_range(chars.as_slice(), 0, label_start);
    let label = slice_range(chars.as_slice(), label_start, chars.len());
    proof {
        assert(prefix@ =~= text@.take(label_start as int));
        assert(label@ =~= text@.skip(label_start as int));
    }
    Some((string_of(prefix.as_slice()), string_of(label.as_slice())))
}

/// A branch label cut to `max` columns in the middle, keeping its leading word
/// (an icon) when there is room for it.
pub open spec fn truncated_branch(text: Seq<char>, max: nat) -> Seq<char> {
    if text_columns(text) <= max {
        text
    } else {
        match label_split(text) {
            None => truncated_middle(text, max),
            Some((p, l)) => if max <= text_columns(p) {
                truncated_middle(text, max)
            } else {
                p + truncated_middle(l, (max - text_columns(p)) as nat)
            },
        }
    }
}

/// A branch label cut to `max_width` columns.
pub fn truncate_branch_text(text: &str, max_width: usize) -> (r: String)
    ensures
        r@ == truncated_branch(text@, max_width as nat),
{
    if display_width(text) <= max_width {
        return copy_str(text);
    }
    match split_label_prefix(text) {
        None => truncate_middle(text, max_width),
        Some((prefix, label)) => {
            let prefix_width = display_width(prefix.as_str());
            if max_width <= prefix_width {
                return truncate_middle(text, max_width);
            }
            let cut = truncate_middle(label.as_str(), max_width - prefix_width);
            let mut out = prefix;
            push_str(&mut out, cut.as_str());
            out
        },
    }
}

/// A prompt character cut to `max` columns: its trailing gap goes first.
pub open spec fn truncated_prompt_char(text: Seq<char>, max: nat) -> Seq<char> {
    if text_columns(text) <= max {
        text
    } else if text_columns(trim_end(text)) <= max {
        trim_end(text)
    } else {
        truncated_end(text, max)
    }
}

/// A prompt character cut to `max_width` columns.
pub fn truncate_prompt_char_text(text: &str, max_width: usize) -> (r: String)
    ensures
        r@ == truncated_prompt_char(text@, max_width as nat),
{
    if display_width(text) <= max_width {
        return copy_str(text);
    }
    let chars = chars_of(text);
    let trimmed = string_of(trim_end_chars(chars.as_slice()).as_slice());
    if display_width(trimmed.as_str()) <= max_width {
        trimmed
    } else {
        truncate_end(text, max_width)
    }
}

/// A text without its ASCII digits.
pub open spec fn without_digits(s: Seq<char>) -> Seq<char> {
    s.filter(|c: char| !is_digit(c))
}

fn strip_digits(text: &str) -> (r: String)
    ensures
        r@ == without_digits(text@),
{
    let chars = chars_of(text);
    let mut out = String::new();
    let mut i: usize = 0;
    while i < chars.len()
        invariant
            i <= chars.len(),
            chars@ == text@,
            out@ == without_digits(text@.take(i as int)),
        decreases chars.len() - i,
    {
        let c = chars[i];
        proof {
            reveal_with_fuel(Seq::filter, 1);
            assert(text@.take(i + 1).drop_last() =~= text@.take(i as int));
            assert(text@.take(i + 1).last() == c);
        }
        if !is_ascii_digit(c) {
            push_char(&mut out, c);
        }
        i += 1;
    }
    assert(text@.take(i as int) =~= text@);
    out
}

// ---------------------------------------------------------------------------
// Steps on a side
// ---------------------------------------------------------------------------

/// Where the first segment with `id` stands.
pub open spec fn first_id(segs: Seq<SegmentContentView>, id: Seq<char>) -> Option<int>
    decreases segs.len(),
{
    if segs.len() == 0 {
        None
    } else if segs[0].id == id {
        Some(0)
    } else {
        match first_id(segs.drop_first(), id) {
            Some(i) => Some(i + 1),
            None => None,
        }
    }
}

pub proof fn lemma_first_id(segs: Seq<SegmentContentView>, id: Seq<char>)
    ensures
        first_id(segs, id) matches Some(i) ==> 0 <= i < segs.len() && segs[i].id == id && forall|k: int|
            0 <= k < i ==> (#[trigger] segs[k]).id != id,
        first_id(segs, id) is None ==> forall|k: int| 0 <= k < segs.len() ==> (#[trigger] segs[k]).id != id,
    decreases segs.len(),
{
    if segs.len() > 0 && segs[0].id != id {
        lemma_first_id(segs.drop_first(), id);
        assert forall|k: int| 1 <= k < segs.len() implies segs[k] == segs.drop_first()[k - 1] by {}
    }
}

/// Where the first segment with `id` stands.
pub fn position_of(segments: &Vec<SegmentContent>, id: &str) -> (r: Option<usize>)
    ensures
        r matches Some(i) ==> i < segments.len() && first_id(contents_view(segments@), id@) == Some(
            i as int,
        ),
        r is None ==> first_id(contents_view(segments@), id@) is None,
{
    let ghost segs = contents_view(segments@);
    let mut i: usize = 0;
    while i < segments.len()
        invariant
            i <= segments.len(),
            segs == contents_view(segments@),
            forall|k: int| 0 <= k < i ==> (#[trigger] segs[k]).id != id@,
        decreases segments.len() - i,
    {
        if str_eq(segments[i].id.as_str(), id) {
            proof {
                lemma_first_id(segs, id@);
                assert(segs[i as int].id == id@);
                match first_id(segs, id@) {
                    Some(k) => {
                        if k < i {
                            assert(segs[k].id != id@);
                        }
                        if k > i {
                            assert(segs[i as int].id != id@);
                        }
                    },
                    None => {
                        assert(segs[i as int].id != id@);
                    },
                }
            }
            return Some(i);
        }
        assert(segs[i as int].id == segments@[i as int].id@);
        i += 1;
    }
    proof {
        lemma_first_id(segs, id@);
        if let Some(k) = first_id(segs, id@) {
            assert(segs[k].id != id@);
        }
    }
    None
}

/// The segments with the one at `p` given new text.
pub open spec fn replaced(segs: Seq<SegmentContentView>, p: int, text: Seq<char>) -> Seq<
    SegmentContentView,
> {
    segs.update(p, with_text(segs[p], text))
}

fn replace_text(segments: &mut Vec<SegmentContent>, p: usize, text: String)
    requires
        p < old(segments).len(),
    ensures
        contents_view(final(segments)@) == replaced(contents_view(old(segments)@), p as int, text@),
        final(segments).len() == old(segments).len(),
{
    let mut seg = segments[p].copy();
    set_segment_text(&mut seg, text);
    let ghost before = contents_view(segments@);
    segments.set(p, seg);
    assert(contents_view(segments@) =~= replaced(before, p as int, text@));
}

/// Abbreviating the directory, when that makes it narrower.
pub open spec fn compact_dir_step(segs: Seq<SegmentContentView>) -> Option<Seq<SegmentContentView>> {
    match first_id(segs, "dir"@) {
        None => None,
        Some(p) => match compact_dir_path(segs[p].text) {
            None => None,
            Some(t) => if text_columns(t) >= text_columns(segs[p].text) {
                None
            } else {
                Some(replaced(segs, p, t))
            },
        },
    }
}

/// Dropping the digits from the git status, when that makes it narrower.
pub open spec fn strip_counts_step(segs: Seq<SegmentContentView>) -> Option<
    Seq<SegmentContentView>,
> {
    match first_id(segs, "git_status"@) {
        None => None,
        Some(p) => {
            let t = without_digits(segs[p].text);
            if t == segs[p].text || text_columns(t) >= text_columns(segs[p].text) {
                None
            } else {
                Some(replaced(segs, p, t))
            }
        },
    }
}

/// The icon a segment shrinks to, when it can and that makes it narrower.
pub open spec fn icon_compacted(s: SegmentContentView) -> Option<Seq<char>> {
    if !icon_compactable(s.id) {
        None
    } else {
        match icon_only(s.text) {
            None => None,
            Some(ic) => if text_columns(ic) < text_columns(s.text) {
                Some(ic)
            } else {
                None
            },
        }
    }
}

pub open spec fn icons_applied(segs: Seq<SegmentContentView>) -> Seq<SegmentContentView> {
    Seq::new(
        segs.len(),
        |i: int|
            match icon_compacted(segs[i]) {
                Some(ic) => with_text(segs[i], ic),
                None => segs[i],
            },
    )
}

/// Shrinking every runtime segment that can to its icon, when any can.
pub open spec fn compact_icons_step(segs: Seq<SegmentContentView>) -> Option<
    Seq<SegmentContentView>,
> {
    if exists|i: int| 0 <= i < segs.len() && (#[trigger] icon_compacted(segs[i])) is Some {
        Some(icons_applied(segs))
    } else {
        None
    }
}

/// Cutting the first segment with `id` by as much as the side overflows, but
/// not below `min_width`, when that makes it narrower.
pub open spec fn shrink_step(
    segs: Seq<SegmentContentView>,
    id: Seq<char>,
    columns: nat,
    sep: Seq<char>,
    min_width: nat,
    dir: bool,
) -> Option<Seq<SegmentContentView>> {
    let cur = side_width_of(segs, sep);
    if cur <= columns {
        None
    } else {
        match first_id(segs, id) {
            None => None,
            Some(p) => {
                let cw = text_columns(segs[p].text);
                let overflow = (cur - columns) as nat;
                let reduced: nat = if cw >= overflow {
                    (cw - overflow) as nat
                } else {
                    0
                };
                let target = if reduced >= min_width {
                    reduced
                } else {
                    min_width
                };
                if cw == 0 || target >= cw {
                    None
                } else {
                    let next = if dir {
                        truncated_dir(segs[p].text, target)
                    } else {
                        truncated_branch(segs[p].text, target)
                    };
                    if text_columns(next) >= cw {
                        None
                    } else {
                        Some(replaced(segs, p, next))
                    }
                }
            },
        }
    }
}

/// The floor below which shrinking never cuts the directory: the width of its
/// last component, at least 1.
pub open spec fn dir_floor_width(segs: Seq<SegmentContentView>) -> nat {
    match first_id(segs, "dir"@) {
        Some(p) => if text_columns(dir_floor(segs[p].text)) >= 1 {
            text_columns(dir_floor(segs[p].text))
        } else {
            1
        },
        None => 1,
    }
}

/// The width below which shrinking leaves a branch alone.
pub open spec fn branch_soft_min() -> nat {
    10
}

pub open spec fn step_result(
    old: Seq<SegmentContentView>,
    new: Seq<SegmentContentView>,
    step: Option<Seq<SegmentContentView>>,
    r: bool,
) -> bool {
    match step {
        Some(n) => r && new == n,
        None => !r && new == old,
    }
}

/// Abbreviates the directory segment's path when that makes it narrower.
pub fn compact_dir_segment(segments: &mut Vec<SegmentContent>) -> (r: bool)
    ensures
        step_result(
            contents_view(old(segments)@),
            contents_view(final(segments)@),
            compact_dir_step(contents_view(old(segments)@)),
            r,
        ),
{
    let p = match position_of(segments, "dir") {
        Some(p) => p,
        None => return false,
    };
    let ghost segs = contents_view(segments@);
    assert(segs[p as int] == segments@[p as int]@);
    let text = match compact_dir_path_text(segments[p].text.as_str()) {
        Some(t) => t,
        None => return false,
    };
    if display_width(text.as_str()) >= display_width(segments[p].text.as_str()) {
        return false;
    }
    replace_text(segments, p, text);
    true
}

/// Drops the digits from the git status segment when that makes it narrower.
pub fn strip_git_status_counts(segments: &mut Vec<SegmentContent>) -> (r: bool)
    ensures
        step_result(
            contents_view(old(segments)@),
            contents_view(final(segments)@),
            strip_counts_step(contents_view(old(segments)@)),
            r,
        ),
{
    let p = match position_of(segments, "git_status") {
        Some(p) => p,
        None => return false,
    };
    let ghost segs = contents_view(segments@);
    assert(segs[p as int] == segments@[p as int]@);
    let text = strip_digits(segments[p].text.as_str());
    if str_eq(text.as_str(), segments[p].text.as_str()) || display_width(text.as_str())
        >= display_width(segments[p].text.as_str()) {
        return false;
    }
    replace_text(segments, p, text);
    true
}

/// Shrinks every runtime segment that can to its icon.
pub fn compact_icon_segments(segments: &mut Vec<SegmentContent>) -> (r: bool)
    ensures
        step_result(
            contents_view(old(segments)@),
            contents_view(final(segments)@),
            compact_icons_step(contents_view(old(segments)@)),
            r,
        ),
{
    let ghost segs = contents_view(segments@);
    let mut compacted = false;
    let mut i: usize = 0;
    while i < segments.len()
        invariant
            i <= segments.len(),
            segments.len() == segs.len(),
            forall|k: int| 0 <= k < i ==> (#[trigger] contents_view(segments@)[k]) == icons_applied(segs)[k],
            forall|k: int| i <= k < segments.len() ==> (#[trigger] contents_view(segments@)[k]) == segs[k],
            compacted == exists|k: int| 0 <= k < i && (#[trigger] icon_compacted(segs[k])) is Some,
        decreases segments.len() - i,
    {
        assert(contents_view(segments@)[i as int] == segments@[i as int]@);
        let ghost cur = contents_view(segments@);
        if can_compact_to_icon(segments[i].id.as_str()) {
            match icon_only_text(segments[i].text.as_str()) {
                Some(icon) => {
                    if display_width(icon.as_str()) < display_width(segments[i].text.as_str()) {
                        replace_text(segments, i, icon);
                        compacted = true;
                        assert(icon_compacted(segs[i as int]) is Some);
                    }
                },
                None => {},
            }
        }
        proof {
            let now = contents_view(segments@);
            assert forall|k: int| 0 <= k < i + 1 implies (#[trigger] now[k]) == icons_applied(segs)[k] by {
                if k < i {
                    assert(now[k] == cur[k]);
                }
            }
            assert(now.len() == cur.len());
            assert forall|k: int| i + 1 <= k < segments.len() implies (#[trigger] now[k]) == segs[k] by {
                assert(cur[k] == segs[k]);
                assert(now[k] == cur[k]);
            }
            if !compacted {
                assert forall|k: int| 0 <= k < i + 1 implies (#[trigger] icon_compacted(segs[k])) is None by {
                    if k == i {
                    }
                }
            }
        }
        i += 1;
    }
    assert(contents_view(segments@) =~= icons_applied(segs)) by {
        assert forall|k: int| 0 <= k < segs.len() implies contents_view(segments@)[k] == icons_applied(segs)[k] by {
        }
    }
    if !compacted {
        assert(contents_view(segments@) =~= segs) by {
            assert forall|k: int| 0 <= k < segs.len() implies contents_view(segments@)[k] == segs[k] by {
                assert(icon_compacted(segs[k]) is None);
            }
        }
    }
    compacted
}

/// Cuts the first segment with `id` by as much as the side overflows, not
/// below `min_width`, with the directory or the branch rule.
pub fn shrink_segment_to_fit(
    segments: &mut Vec<SegmentContent>,
    id: &str,
    columns: usize,
    separator: &str,
    min_width: usize,
    dir: bool,
) -> (r: bool)
    ensures
        step_result(
            contents_view(old(segments)@),
            contents_view(final(segments)@),
            shrink_step(contents_view(old(segments)@), id@, columns as nat, separator@, min_width as nat, dir),
            r,
        ),
{
    let current_side_width = side_width(segments, separator);
    if current_side_width <= columns {
        return false;
    }
    let p = match position_of(segments, id) {
        Some(p) => p,
        None => return false,
    };
    let ghost segs = contents_view(segments@);
    assert(segs[p as int] == segments@[p as int]@);
    let current_width = display_width(segments[p].text.as_str());
    if current_width == 0 {
        return false;
    }
    let overflow = current_side_width - columns;
    let reduced = if current_width >= overflow {
        current_width - overflow
    } else {
        0
    };
    let target_width = if reduced >= min_width {
        reduced
    } else {
        min_width
    };
    if target_width >= current_width {
        return false;
    }
    let next_text = if dir {
        truncate_dir_text(segments[p].text.as_str(), target_width)
    } else {
        truncate_branch_text(segments[p].text.as_str(), target_width)
    };
    if display_width(next_text.as_str()) >= current_width {
        return false;
    }
    replace_text(segments, p, next_text);
    true
}

/// Cuts the branch by as much as the side overflows, down to `min_width`.
pub fn shrink_branch_segment(
    segments: &mut Vec<SegmentContent>,
    columns: usize,
    separator: &str,
    min_width: usize,
) -> (r: bool)
    ensures
        step_result(
            contents_view(old(segments)@),
            contents_view(final(segments)@),
            shrink_step(contents_view(old(segments)@), "git_branch"@, columns as nat, separator@, min_width as nat, false),
            r,
        ),
{
    shrink_segment_to_fit(segments, "git_branch", columns, separator, min_width, false)
}

/// Cuts the directory by as much as the side overflows, down to `min_width`.
pub fn shrink_dir_segment(
    segments: &mut Vec<SegmentContent>,
    columns: usize,
    separator: &str,
    min_width: usize,
) -> (r: bool)
    ensures
        step_result(
            contents_view(old(segments)@),
            contents_view(final(segments)@),
            shrink_step(contents_view(old(segments)@), "dir"@, columns as nat, separator@, min_width as nat, true),
            r,
        ),
{
    shrink_segment_to_fit(segments, "dir", columns, separator, min_width, true)
}

/// Cuts the directory by as much as the side overflows, never below the width
/// of its last component.
pub fn shrink_dir_segment_preserving_floor(
    segments: &mut Vec<SegmentContent>,
    columns: usize,
    separator: &str,
) -> (r: bool)
    ensures
        step_result(
            contents_view(old(segments)@),
            contents_view(final(segments)@),
            shrink_step(
                contents_view(old(segments)@),
                "dir"@,
                columns as nat,
                separator@,
                dir_floor_width(contents_view(old(segments)@)),
                true,
            ),
            r,
        ),
{
    let min_width = match position_of(segments, "dir") {
        Some(p) => {
            assert(contents_view(segments@)[p as int] == segments@[p as int]@);
            let floor = dir_floor_text(segments[p].text.as_str());
            let w = display_width(floor.as_str());
            if w >= 1 {
                w
            } else {
                1
            }
        },
        None => 1,
    };
    shrink_dir_segment(segments, columns, separator, min_width)
}

// ---------------------------------------------------------------------------
// Fitting a side
// ---------------------------------------------------------------------------

/// A side whose texts are each no wider than another's is no wider in sum, and
/// narrower when one text is narrower.
pub proof fn lemma_widths_sum_pointwise(a: Seq<SegmentContentView>, b: Seq<SegmentContentView>)
    requires
        a.len() == b.len(),
        forall|i: int| 0 <= i < a.len() ==> text_columns(a[i].text) <= text_columns(b[i].text),
    ensures
        widths_sum(a) <= widths_sum(b),
        (exists|i: int| 0 <= i < a.len() && text_columns(a[i].text) < text_columns(b[i].text))
            ==> widths_sum(a) < widths_sum(b),
    decreases a.len(),
{
    if a.len() > 0 {
        let da = a.drop_last();
        let db = b.drop_last();
        assert forall|i: int| 0 <= i < da.len() implies text_columns(da[i].text) <= text_columns(
            db[i].text,
        ) by {
            assert(da[i] == a[i] && db[i] == b[i]);
        }
        lemma_widths_sum_pointwise(da, db);
        assert(a.last() == a[a.len() - 1] && b.last() == b[b.len() - 1]);
        if exists|i: int| 0 <= i < a.len() && text_columns(a[i].text) < text_columns(b[i].text) {
            let i = choose|i: int| 0 <= i < a.len() && text_columns(a[i].text) < text_columns(b[i].text);
            if i < a.len() - 1 {
                assert(da[i] == a[i] && db[i] == b[i]);
            }
        }
    }
}

/// Dropping the segments that show nothing leaves the total width as it is.
pub proof fn lemma_drop_invisible(segs: Seq<SegmentContentView>)
    ensures
        widths_sum(drop_invisible(segs)) == widths_sum(segs),
        drop_invisible(segs).len() <= segs.len(),
        forall|i: int| 0 <= i < drop_invisible(segs).len() ==> visible(#[trigger] drop_invisible(segs)[i]),
    decreases segs.len(),
{
    reveal_with_fuel(Seq::filter, 1);
    if segs.len() > 0 {
        let d = segs.drop_last();
        lemma_drop_invisible(d);
        let fd = drop_invisible(d);
        if visible(segs.last()) {
            assert(drop_invisible(segs) == fd.push(segs.last()));
            assert(fd.push(segs.last()).drop_last() =~= fd);
            assert forall|i: int| 0 <= i < drop_invisible(segs).len() implies visible(
                #[trigger] drop_invisible(segs)[i],
            ) by {
                if i < fd.len() {
                    assert(drop_invisible(segs)[i] == fd[i]);
                }
            }
        }
    }
}

proof fn lemma_replaced_narrower(segs: Seq<SegmentContentView>, p: int, t: Seq<char>)
    requires
        0 <= p < segs.len(),
        text_columns(t) < text_columns(segs[p].text),
    ensures
        widths_sum(replaced(segs, p, t)) < widths_sum(segs),
        replaced(segs, p, t).len() == segs.len(),
{
    let n = replaced(segs, p, t);
    assert forall|i: int| 0 <= i < n.len() implies text_columns(n[i].text) <= text_columns(
        segs[i].text,
    ) by {}
    assert(text_columns(n[p].text) < text_columns(segs[p].text));
    lemma_widths_sum_pointwise(n, segs);
}

/// Every step that applies leaves the side narrower in sum, with as many segments.
pub proof fn lemma_steps_narrow(
    segs: Seq<SegmentContentView>,
    columns: nat,
    sep: Seq<char>,
)
    ensures
        compact_dir_step(segs) matches Some(n) ==> widths_sum(n) < widths_sum(segs) && n.len()
            == segs.len(),
        strip_counts_step(segs) matches Some(n) ==> widths_sum(n) < widths_sum(segs) && n.len()
            == segs.len(),
        compact_icons_step(segs) matches Some(n) ==> widths_sum(n) < widths_sum(segs) && n.len()
            == segs.len(),
        shrink_step(segs, "git_branch"@, columns, sep, branch_soft_min(), false) matches Some(n)
            ==> widths_sum(n) < widths_sum(segs) && n.len() == segs.len(),
        shrink_step(segs, "dir"@, columns, sep, dir_floor_width(segs), true) matches Some(n)
            ==> widths_sum(n) < widths_sum(segs) && n.len() == segs.len(),
{
    lemma_first_id(segs, "dir"@);
    lemma_first_id(segs, "git_status"@);
    lemma_first_id(segs, "git_branch"@);
    if let Some(p) = first_id(segs, "dir"@) {
        if let Some(t) = compact_dir_path(segs[p].text) {
            if text_columns(t) < text_columns(segs[p].text) {
                lemma_replaced_narrower(segs, p, t);
            }
        }
        let floor = dir_floor_width(segs);
        if let Some(n) = shrink_step(segs, "dir"@, columns, sep, floor, true) {
            let cur = side_width_of(segs, sep);
            let cw = text_columns(segs[p].text);
            let overflow = (cur - columns) as nat;
            let reduced: nat = if cw >= overflow { (cw - overflow) as nat } else { 0 };
            let target = if reduced >= floor { reduced } else { floor };
            lemma_replaced_narrower(segs, p, truncated_dir(segs[p].text, target));
        }
    }
    if let Some(p) = first_id(segs, "git_status"@) {
        let t = without_digits(segs[p].text);
        if text_columns(t) < text_columns(segs[p].text) {
            lemma_replaced_narrower(segs, p, t);
        }
    }
    if let Some(p) = first_id(segs, "git_branch"@) {
        if let Some(n) = shrink_step(segs, "git_branch"@, columns, sep, branch_soft_min(), false) {
            let cur = side_width_of(segs, sep);
            let cw = text_columns(segs[p].text);
            let overflow = (cur - columns) as nat;
            let reduced: nat = if cw >= overflow { (cw - overflow) as nat } else { 0 };
            let target = if reduced >= branch_soft_min() { reduced } else { branch_soft_min() };
            lemma_replaced_narrower(segs, p, truncated_branch(segs[p].text, target));
        }
    }
    if let Some(n) = compact_icons_step(segs) {
        let a = icons_applied(segs);
        assert forall|i: int| 0 <= i < a.len() implies text_columns(a[i].text) <= text_columns(
            segs[i].text,
        ) by {}
        let i = choose|i: int| 0 <= i < segs.len() && (#[trigger] icon_compacted(segs[i])) is Some;
        assert(text_columns(a[i].text) < text_columns(segs[i].text));
        lemma_widths_sum_pointwise(a, segs);
    }
}

/// The text the first segment is cut to when no step applies.
pub open spec fn cut_first_text(seg: SegmentContentView, columns: nat) -> Seq<char> {
    if seg.id == "dir"@ {
        truncated_dir(seg.text, columns)
    } else if seg.id == "git_branch"@ {
        truncated_branch(seg.text, columns)
    } else if seg.id == "prompt_char"@ {
        truncated_prompt_char(seg.text, columns)
    } else {
        truncated_end(seg.text, columns)
    }
}

/// The first step that applies to a side that is too wide, in the order the
/// steps are tried.
pub open spec fn first_step(segs: Seq<SegmentContentView>, columns: nat, sep: Seq<char>) -> Option<
    Seq<SegmentContentView>,
> {
    match compact_dir_step(segs) {
        Some(n) => Some(n),
        None => match shrink_step(segs, "git_branch"@, columns, sep, branch_soft_min(), false) {
            Some(n) => Some(n),
            None => match strip_counts_step(segs) {
                Some(n) => Some(n),
                None => match compact_icons_step(segs) {
                    Some(n) => Some(n),
                    None => shrink_step(segs, "dir"@, columns, sep, dir_floor_width(segs), true),
                },
            },
        },
    }
}

/// The side with its first segment cut to `columns`.
pub open spec fn cut_first(segs: Seq<SegmentContentView>, columns: nat) -> Seq<SegmentContentView> {
    if segs.len() > 0 {
        segs.update(0, with_text(segs[0], cut_first_text(segs[0], columns)))
    } else {
        segs
    }
}

/// Fitting a side that shows only visible segments: steps while it is too wide
/// and some step applies, then the first segment cut.
pub open spec fn fit_loop(segs: Seq<SegmentContentView>, columns: nat, sep: Seq<char>) -> Seq<
    SegmentContentView,
>
    decreases widths_sum(segs),
{
    if side_width_of(segs, sep) <= columns {
        segs
    } else {
        match first_step(segs, columns, sep) {
            Some(n) => {
                proof {
                    lemma_steps_narrow(segs, columns, sep);
                    lemma_drop_invisible(n);
                }
                if widths_sum(drop_invisible(n)) < widths_sum(segs) {
                    fit_loop(drop_invisible(n), columns, sep)
                } else {
                    segs
                }
            },
            None => drop_invisible(cut_first(segs, columns)),
        }
    }
}

/// A side fitted into `columns`.
pub open spec fn fitted(segs: Seq<SegmentContentView>, columns: nat, sep: Seq<char>) -> Seq<
    SegmentContentView,
> {
    fit_loop(drop_invisible(segs), columns, sep)
}

proof fn lemma_first_step_narrows(segs: Seq<SegmentContentView>, columns: nat, sep: Seq<char>)
    ensures
        first_step(segs, columns, sep) matches Some(n) ==> widths_sum(drop_invisible(n)) < widths_sum(
            segs,
        ),
{
    lemma_steps_narrow(segs, columns, sep);
    if let Some(n) = first_step(segs, columns, sep) {
        lemma_drop_invisible(n);
    }
}

/// Shortens a side until it fits `columns`, cheapest step first; when no step
/// applies, cuts its first segment to `columns` and stops. Segments that show
/// nothing are dropped throughout.
pub fn fit_side(segments: &mut Vec<SegmentContent>, columns: usize, separator: &str)
    ensures
        contents_view(final(segments)@) == fitted(contents_view(old(segments)@), columns as nat, separator@),
        forall|i: int|
            0 <= i < final(segments).len() ==> visible(#[trigger] contents_view(final(segments)@)[i]),
        side_width_of(drop_invisible(contents_view(old(segments)@)), separator@) <= columns
            ==> contents_view(final(segments)@) == drop_invisible(contents_view(old(segments)@)),
        final(segments).len() <= old(segments).len(),
{
    let ghost n0 = segments.len();
    let ghost target = fitted(contents_view(segments@), columns as nat, separator@);
    proof {
        lemma_drop_invisible(contents_view(segments@));
    }
    remove_zero_width_segments(segments);
    if side_width(segments, separator) <= columns {
        return;
    }
    let mut done = false;
    while !done && side_width(segments, separator) > columns
        invariant
            forall|i: int|
                0 <= i < segments.len() ==> visible(#[trigger] contents_view(segments@)[i]),
            segments.len() <= n0,
            !done ==> fit_loop(contents_view(segments@), columns as nat, separator@) == target,
            done ==> contents_view(segments@) == target,
        decreases (if done {
            0int
        } else {
            1int
        }), widths_sum(contents_view(segments@)),
    {
        let ghost before = contents_view(segments@);
        proof {
            lemma_steps_narrow(before, columns as nat, separator@);
            lemma_first_step_narrows(before, columns as nat, separator@);
        }
        let mut progressed = compact_dir_segment(segments);
        if !progressed {
            progressed = shrink_branch_segment(segments, columns, separator, 10);
        }
        if !progressed {
            progressed = strip_git_status_counts(segments);
        }
        if !progressed {
            progressed = compact_icon_segments(segments);
        }
        if !progressed {
            progressed = shrink_dir_segment_preserving_floor(segments, columns, separator);
        }
        let ghost mid = contents_view(segments@);
        proof {
            lemma_drop_invisible(mid);
            if progressed {
                assert(first_step(before, columns as nat, separator@) == Some(mid));
                assert(widths_sum(mid) < widths_sum(before));
                assert(mid.len() == before.len());
            } else {
                assert(first_step(before, columns as nat, separator@) is None);
                assert(mid == before);
            }
        }
        if !progressed {
            if segments.len() > 0 {
                let mut first = segments[0].copy();
                assert(first@ == before[0]);
                let next_text = if str_eq(first.id.as_str(), "dir") {
                    truncate_dir_text(first.text.as_str(), columns)
                } else if str_eq(first.id.as_str(), "git_branch") {
                    truncate_branch_text(first.text.as_str(), columns)
                } else if str_eq(first.id.as_str(), "prompt_char") {
                    truncate_prompt_char_text(first.text.as_str(), columns)
                } else {
                    truncate_end(first.text.as_str(), columns)
                };
                set_segment_text(&mut first, next_text);
                segments.set(0, first);
            }
            proof {
                assert(contents_view(segments@) =~= cut_first(before, columns as nat));
                lemma_drop_invisible(contents_view(segments@));
            }
            done = true;
        }
        remove_zero_width_segments(segments);
    }
}

/// Fits both sides of a line into `columns`.
pub fn fit_prompt_line(
    left: &mut Vec<SegmentContent>,
    right: &mut Vec<SegmentContent>,
    columns: usize,
    separator: &str,
)
    ensures
        contents_view(final(left)@) == fitted(contents_view(old(left)@), columns as nat, separator@),
        contents_view(final(right)@) == fitted(contents_view(old(right)@), columns as nat, separator@),
        forall|i: int|
            0 <= i < final(left).len() ==> visible(#[trigger] contents_view(final(left)@)[i]),
        forall|i: int|
            0 <= i < final(right).len() ==> visible(#[trigger] contents_view(final(right)@)[i]),
        side_width_of(drop_invisible(contents_view(old(left)@)), separator@) <= columns
            ==> contents_view(final(left)@) == drop_invisible(contents_view(old(left)@)),
        side_width_of(drop_invisible(contents_view(old(right)@)), separator@) <= columns
            ==> contents_view(final(right)@) == drop_invisible(contents_view(old(right)@)),
{
    fit_side(left, columns, separator);
    fit_side(right, columns, separator);
}

// ---------------------------------------------------------------------------
// Cutting a side from the start
// ---------------------------------------------------------------------------

/// The segments kept, from the end, within `max` columns when `used` columns are
/// already taken (`nonempty` when some segment is already kept): whole segments
/// while they fit, then the next one cut at its start, then nothing more.
pub open spec fn keep_from_end(
    segs: Seq<SegmentContentView>,
    max: nat,
    sepw: nat,
    used: nat,
    nonempty: bool,
) -> Seq<SegmentContentView>
    decreases segs.len(),
{
    if segs.len() == 0 {
        segs
    } else {
        let sb: nat = if nonempty {
            sepw
        } else {
            0
        };
        let taken = super::clamp((used + sb) as int);
        let avail: nat = if taken >= max {
            0
        } else {
            (max - taken) as nat
        };
        if avail == 0 {
            Seq::empty()
        } else {
            let s = segs.last();
            let w = text_columns(s.text);
            if w <= avail {
                keep_from_end(segs.drop_last(), max, sepw, (taken + w) as nat, true).push(s)
            } else {
                let t = truncated_start(s.text, avail);
                if t.len() == 0 {
                    Seq::empty()
                } else {
                    seq![with_text(s, t)]
                }
            }
        }
    }
}

/// The segments with the first one made to start with an ellipsis.
pub open spec fn with_leading_ellipsis(segs: Seq<SegmentContentView>) -> Seq<SegmentContentView> {
    if segs.len() == 0 {
        segs
    } else if segs[0].text.len() > 0 && segs[0].text[0] == '\u{2026}' {
        segs
    } else {
        let fw = text_columns(segs[0].text);
        let t = if fw <= 1 {
            seq!['\u{2026}']
        } else {
            truncated_start(segs[0].text, (fw - 1) as nat)
        };
        segs.update(0, with_text(segs[0], t))
    }
}

/// A side cut from the start to `max` columns, marked with a leading ellipsis
/// when anything was cut.
pub open spec fn truncated_start_side(segs: Seq<SegmentContentView>, max: nat, sep: Seq<char>) -> Seq<
    SegmentContentView,
> {
    if max == 0 || segs.len() == 0 {
        Seq::empty()
    } else if side_width_of(segs, sep) <= max {
        segs
    } else {
        with_leading_ellipsis(keep_from_end(segs, max, text_columns(sep), 0, false))
    }
}

fn copy_segments(segments: &Vec<SegmentContent>) -> (r: Vec<SegmentContent>)
    ensures
        contents_view(r@) == contents_view(segments@),
{
    let mut r: Vec<SegmentContent> = Vec::new();
    let mut i: usize = 0;
    while i < segments.len()
        invariant
            i <= segments.len(),
            contents_view(r@) == contents_view(segments@).take(i as int),
        decreases segments.len() - i,
    {
        let ghost before = contents_view(r@);
        r.push(segments[i].copy());
        assert(contents_view(r@) =~= before.push(segments@[i as int]@));
        assert(contents_view(r@) =~= contents_view(segments@).take(i + 1));
        i += 1;
    }
    assert(contents_view(segments@).take(i as int) =~= contents_view(segments@));
    r
}

/// Makes the first segment start with an ellipsis.
pub fn force_leading_ellipsis(segments: &mut Vec<SegmentContent>)
    ensures
        contents_view(final(segments)@) == with_leading_ellipsis(contents_view(old(segments)@)),
{
    if segments.len() == 0 {
        return;
    }
    let ghost segs = contents_view(segments@);
    assert(segs[0] == segments@[0]@);
    let chars = chars_of(segments[0].text.as_str());
    if chars.len() > 0 && chars[0] == '\u{2026}' {
        return;
    }
    let first_width = display_width(segments[0].text.as_str());
    let text = if first_width <= 1 {
        let mut e = String::new();
        push_char(&mut e, '\u{2026}');
        assert(e@ =~= seq!['\u{2026}']);
        e
    } else {
        truncate_start(segments[0].text.as_str(), first_width - 1)
    };
    let mut first = segments[0].copy();
    set_segment_text(&mut first, text);
    segments.set(0, first);
    assert(contents_view(segments@) =~= with_leading_ellipsis(segs));
}

/// A side cut from the start to `max_width` columns.
pub fn truncate_start_side(segments: &Vec<SegmentContent>, max_width: usize, separator: &str) -> (r:
    Vec<SegmentContent>)
    ensures
        contents_view(r@) == truncated_start_side(contents_view(segments@), max_width as nat, separator@),
{
    if max_width == 0 || segments.len() == 0 {
        let r: Vec<SegmentContent> = Vec::new();
        assert(contents_view(r@) =~= Seq::<SegmentContentView>::empty());
        return r;
    }
    if side_width(segments, separator) <= max_width {
        return copy_segments(segments);
    }
    let ghost segs = contents_view(segments@);
    let separator_width = display_width(separator);
    let mut used: usize = 0;
    let mut kept: Vec<SegmentContent> = Vec::new();
    let mut j = segments.len();
    let mut stop = false;
    assert(segs.take(j as int) =~= segs);
    assert(contents_view(kept@) =~= Seq::<SegmentContentView>::empty());
    while j > 0 && !stop
        invariant
            j <= segments.len(),
            segs == contents_view(segments@),
            used <= max_width,
            (kept.len() > 0) || used == 0,
            !stop ==> keep_from_end(segs, max_width as nat, separator_width as nat, 0, false)
                == keep_from_end(segs.take(j as int), max_width as nat, separator_width as nat, used as nat, kept.len() > 0)
                + contents_view(kept@),
            stop ==> keep_from_end(segs, max_width as nat, separator_width as nat, 0, false)
                == contents_view(kept@),
            separator_width == text_columns(separator@),
        decreases j + (if stop { 0int } else { 1int }),
    {
        let ghost rest = segs.take(j as int);
        let ghost ne = kept.len() > 0;
        proof {
            assert(rest.last() == segments@[j - 1]@);
            assert(rest.drop_last() =~= segs.take(j - 1));
        }
        let separator_before = if kept.len() == 0 {
            0
        } else {
            separator_width
        };
        let taken = add_clamped_fit(used, separator_before);
        let available = if taken >= max_width {
            0
        } else {
            max_width - taken
        };
        if available == 0 {
            stop = true;
            assert(contents_view(kept@) =~= Seq::<SegmentContentView>::empty() + contents_view(kept@));
        } else {
            let segment_width = display_width(segments[j - 1].text.as_str());
            if segment_width <= available {
                let ghost before = contents_view(kept@);
                kept.insert(0, segments[j - 1].copy());
                used = taken + segment_width;
                j -= 1;
                proof {
                    assert(contents_view(kept@) =~= seq![segments@[j as int]@] + before);
                    assert(keep_from_end(rest.drop_last(), max_width as nat, separator_width as nat, used as nat, true).push(rest.last()) + before
                        =~= keep_from_end(segs.take(j as int), max_width as nat, separator_width as nat, used as nat, true) + contents_view(kept@));
                }
            } else {
                let text = truncate_start(segments[j - 1].text.as_str(), available);
                let ghost before = contents_view(kept@);
                if text.unicode_len() != 0 {
                    let mut seg = segments[j - 1].copy();
                    set_segment_text(&mut seg, text);
                    kept.insert(0, seg);
                    assert(contents_view(kept@) =~= seq![with_text(rest.last(), text@)] + before);
                } else {
                    assert(contents_view(kept@) =~= Seq::<SegmentContentView>::empty() + before);
                }
                stop = true;
            }
        }
    }
    proof {
        if !stop {
            assert(segs.take(0) =~= Seq::<SegmentContentView>::empty());
            assert(Seq::<SegmentContentView>::empty() + contents_view(kept@) =~= contents_view(kept@));
        }
    }
    force_leading_ellipsis(&mut kept);
    kept
}

fn add_clamped_fit(a: usize, b: usize) -> (r: usize)
    ensures
        r == super::clamp(a + b),
{
    if b > usize::MAX - a {
        usize::MAX
    } else {
        a + b
    }
}

/// The prompt text of a side cut from the start to `max_width` columns.
pub fn lower_truncated_start_side(segments: &Vec<SegmentContent>, max_width: usize, separator: &str) -> (r:
    String)
    ensures
        r@ == super::lowered_side(
            truncated_start_side(contents_view(segments@), max_width as nat, separator@),
            separator@,
        ),
{
    let cut = truncate_start_side(segments, max_width, separator);
    super::lower_side(&cut, separator)
}

} // verus!
