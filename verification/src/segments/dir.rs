//! Current working directory segment.
//!
//! Paths are read as `std::path::Path` reads Unix paths: a leading `/` is the
//! root, repeated separators and `.` components after the first are ignored.

use vstd::prelude::*;

use super::{plain_content, style_or, SegmentContent, SegmentContentView, Style, StyleView, SyncSegment};
use crate::config::{opt_view, push_string, strings_view, SegmentConfig};
use crate::state::PromptState;
use crate::text::{chars_of, copy_str, join_chars, join_with, push_char, push_str, split_chars, split_on, str_eq, string_of, views};

verus! {

/// Whether a path starts at the root.
pub open spec fn has_root(p: Seq<char>) -> bool {
    p.len() > 0 && p[0] == '/'
}

/// Whether a piece between separators is a component: non-empty, and not `.`
/// unless it opens a relative path.
pub open spec fn kept_piece(piece: Seq<char>, index: int, rooted: bool) -> bool {
    piece.len() > 0 && (piece != seq!['.'] || (index == 0 && !rooted))
}

/// The components among `pieces`, the first of which stands at `start`.
pub open spec fn keep_pieces(pieces: Seq<Seq<char>>, start: int, rooted: bool) -> Seq<Seq<char>>
    decreases pieces.len(),
{
    if pieces.len() == 0 {
        Seq::empty()
    } else {
        (if kept_piece(pieces[0], start, rooted) {
            seq![pieces[0]]
        } else {
            Seq::empty()
        }) + keep_pieces(pieces.drop_first(), start + 1, rooted)
    }
}

/// The components of a path other than the root.
pub open spec fn visible_parts(p: Seq<char>) -> Seq<Seq<char>> {
    keep_pieces(split_on(p, '/'), 0, has_root(p))
}

/// All components of a path, the root written as `/`.
pub open spec fn full_components(p: Seq<char>) -> Seq<Seq<char>> {
    (if has_root(p) {
        seq![seq!['/']]
    } else {
        Seq::empty()
    }) + visible_parts(p)
}

/// Whether `home`'s components begin `cwd`'s.
pub open spec fn path_starts_with(cwd: Seq<char>, home: Seq<char>) -> bool {
    let c = full_components(cwd);
    let h = full_components(home);
    h.len() <= c.len() && c.take(h.len() as int) == h
}

/// A component cut to its first character (two when it starts with a dot);
/// `.` and `..` stay as they are.
pub open spec fn abbreviated_component(c: Seq<char>) -> Seq<char> {
    if c == seq!['.'] || c == seq!['.', '.'] {
        c
    } else if c.len() == 0 {
        c
    } else if c[0] == '.' {
        if c.len() >= 2 {
            seq!['.', c[1]]
        } else {
            seq!['.']
        }
    } else {
        seq![c[0]]
    }
}

/// Abbreviating keeps a component recognisable: a dot-directory (other than `..`)
/// keeps its dot and first letter; any other component with characters (other
/// than `.` and `..`) becomes a non-empty prefix of itself, never the bare `.`
/// when it had more than one character; `.` and `..` stay as they are.
pub proof fn law_abbreviation_keeps_a_prefix(c: Seq<char>)
    ensures
        c.len() >= 2 && c[0] == '.' && c != seq!['.', '.'] ==> abbreviated_component(c) == seq![
            '.',
            c[1],
        ],
        c.len() > 0 && c != seq!['.'] && c != seq!['.', '.'] ==> {
            let a = abbreviated_component(c);
            &&& 0 < a.len() <= c.len()
            &&& a == c.take(a.len() as int)
        },
        c.len() > 1 && c != seq!['.', '.'] ==> abbreviated_component(c) != seq!['.'],
        c == seq!['.'] || c == seq!['.', '.'] ==> abbreviated_component(c) == c,
{
    if c.len() >= 2 && c[0] == '.' && c != seq!['.', '.'] {
        assert(c.take(2) =~= seq!['.', c[1]]);
        assert(c != seq!['.']) by {
            if c == seq!['.'] {
                assert(c.len() == 1);
            }
        }
        assert(abbreviated_component(c) == seq!['.', c[1]]);
        assert(seq!['.', c[1]].len() == 2);
    } else if c.len() > 0 && c != seq!['.'] && c != seq!['.', '.'] {
        assert(c.take(1) =~= seq![c[0]]);
        if c[0] == '.' {
            if c.len() == 1 {
                assert(c =~= seq!['.']);
            } else {
                assert(c.len() >= 2);
            }
        }
        assert(abbreviated_component(c) == seq![c[0]]);
        assert(seq![c[0]][0] == c[0]);
    }
}

/// The components shown: all of them when the cap is 0; otherwise the last
/// `max` behind an ellipsis, and, when `abbreviate`, all but the last cut short.
pub open spec fn shortened(comps: Seq<Seq<char>>, max: nat, abbreviate: bool) -> Seq<Seq<char>> {
    if max == 0 {
        comps
    } else {
        let skipped: nat = if comps.len() > max {
            (comps.len() - max) as nat
        } else {
            0
        };
        if skipped == 0 && !abbreviate {
            comps
        } else {
            (if skipped > 0 {
                seq![seq!['\u{2026}']]
            } else {
                Seq::empty()
            }) + shortened_tail(comps, skipped, abbreviate)
        }
    }
}

/// The components from `skipped` on, all but the last cut short when `abbreviate`.
pub open spec fn shortened_tail(comps: Seq<Seq<char>>, skipped: nat, abbreviate: bool) -> Seq<Seq<char>> {
    Seq::new(
        (comps.len() - skipped) as nat,
        |i: int|
            if i + skipped == comps.len() - 1 || !abbreviate {
                comps[i + skipped]
            } else {
                abbreviated_component(comps[i + skipped])
            },
    )
}

/// A path written after a prefix (`~`, `/` or nothing).
pub open spec fn with_prefix(prefix: Seq<char>, comps: Seq<Seq<char>>, max: nat) -> Seq<char> {
    if comps.len() == 0 {
        prefix
    } else {
        let j = join_with(shortened(comps, max, prefix == seq!['~']), seq!['/']);
        if prefix.len() == 0 {
            j
        } else if prefix == seq!['/'] {
            seq!['/'] + j
        } else {
            prefix + seq!['/'] + j
        }
    }
}

/// The components other than the root.
pub open spec fn drop_roots(s: Seq<Seq<char>>) -> Seq<Seq<char>>
    decreases s.len(),
{
    if s.len() == 0 {
        s
    } else {
        drop_roots(s.drop_last()) + if s.last() == seq!['/'] {
            Seq::<Seq<char>>::empty()
        } else {
            seq![s.last()]
        }
    }
}

/// The components that remain of `cwd` after `home`'s.
pub open spec fn relative_parts(cwd: Seq<char>, home: Seq<char>) -> Seq<Seq<char>> {
    drop_roots(full_components(cwd).skip(full_components(home).len() as int))
}

/// How the directory is shown: under `~` when it lies in `home`, else from the
/// root (or as it is, when relative), capped to `max` components.
pub open spec fn display_path_of(cwd: Seq<char>, home: Option<Seq<char>>, max: nat) -> Seq<char> {
    match home {
        Some(h) => if path_starts_with(cwd, h) {
            with_prefix(seq!['~'], relative_parts(cwd, h), max)
        } else {
            with_prefix(if has_root(cwd) { seq!['/'] } else { Seq::empty() }, visible_parts(cwd), max)
        },
        None => with_prefix(if has_root(cwd) { seq!['/'] } else { Seq::empty() }, visible_parts(cwd), max),
    }
}

/// The components of a path other than the root.
pub fn visible_components(path: &str) -> (r: Vec<String>)
    ensures
        strings_view(r@) == visible_parts(path@),
{
    let chars = chars_of(path);
    let rooted = chars.len() > 0 && chars[0] == '/';
    let pieces = split_chars(chars.as_slice(), '/');
    let ghost ps = views(pieces@);
    let mut out: Vec<String> = Vec::new();
    let mut i: usize = 0;
    assert(ps.skip(0) =~= ps);
    assert(strings_view(out@) + keep_pieces(ps, 0, rooted) =~= keep_pieces(ps, 0, rooted));
    while i < pieces.len()
        invariant
            i <= pieces.len(),
            ps == views(pieces@),
            rooted == has_root(path@),
            ps == split_on(path@, '/'),
            strings_view(out@) + keep_pieces(ps.skip(i as int), i as int, rooted)
                == keep_pieces(ps, 0, rooted),
        decreases pieces.len() - i,
    {
        let ghost rest = ps.skip(i as int);
        let ghost before = strings_view(out@);
        assert(rest[0] == pieces@[i as int]@);
        assert(rest.drop_first() =~= ps.skip(i + 1));
        let piece = &pieces[i];
        let is_dot = piece.len() == 1 && piece[0] == '.';
        assert(is_dot == (piece@ == seq!['.'])) by {
            if piece@ == seq!['.'] {
                assert(piece@.len() == 1 && piece@[0] == '.');
            }
            if is_dot {
                assert(piece@ =~= seq!['.']);
            }
        }
        if piece.len() > 0 && (!is_dot || (i == 0 && !rooted)) {
            push_string(&mut out, string_of(piece.as_slice()));
            assert(before.push(piece@) + keep_pieces(ps.skip(i + 1), i + 1, rooted) =~= before + (
            seq![piece@] + keep_pieces(ps.skip(i + 1), i + 1, rooted)));
        } else {
            assert(strings_view(out@) =~= before);
            assert(Seq::<Seq<char>>::empty() + keep_pieces(ps.skip(i + 1), i + 1, rooted) =~= keep_pieces(ps.skip(i + 1), i + 1, rooted));
        }
        i += 1;
    }
    assert(ps.skip(i as int) =~= Seq::<Seq<char>>::empty());
    assert(strings_view(out@) + Seq::<Seq<char>>::empty() =~= strings_view(out@));
    out
}

fn full_components_of(path: &str) -> (r: Vec<String>)
    ensures
        strings_view(r@) == full_components(path@),
{
    let chars = chars_of(path);
    let parts = visible_components(path);
    let mut r: Vec<String> = Vec::new();
    proof {
        reveal_strlit("/");
    }
    assert(strings_view(r@) =~= Seq::<Seq<char>>::empty());
    if chars.len() > 0 && chars[0] == '/' {
        push_string(&mut r, "/".to_string());
        assert("/"@ =~= seq!['/']);
        assert(strings_view(r@) =~= seq![seq!['/']]);
    }
    let ghost head = strings_view(r@);
    let mut i: usize = 0;
    while i < parts.len()
        invariant
            i <= parts.len(),
            strings_view(r@) == head + strings_view(parts@).take(i as int),
        decreases parts.len() - i,
    {
        let ghost before = strings_view(r@);
        push_string(&mut r, copy_str(parts[i].as_str()));
        assert(strings_view(r@) =~= head + strings_view(parts@).take(i + 1));
        i += 1;
    }
    assert(strings_view(parts@).take(i as int) =~= strings_view(parts@));
    assert(head =~= (if has_root(path@) { seq![seq!['/']] } else { Seq::<Seq<char>>::empty() }));
    r
}

/// A path component cut short; `.` and `..` stay as they are.
pub fn abbreviate_component(component: &str) -> (r: String)
    ensures
        r@ == abbreviated_component(component@),
{
    let chars = chars_of(component);
    if (chars.len() == 1 && chars[0] == '.') || (chars.len() == 2 && chars[0] == '.' && chars[1]
        == '.') {
        assert(chars@ =~= seq!['.'] || chars@ =~= seq!['.', '.']);
        return copy_str(component);
    }
    assert(component@ != seq!['.'] && component@ != seq!['.', '.']) by {
        if component@ == seq!['.'] {
            assert(chars@.len() == 1 && chars@[0] == '.');
        }
        if component@ == seq!['.', '.'] {
            assert(chars@.len() == 2 && chars@[0] == '.' && chars@[1] == '.');
        }
    }
    let mut out = String::new();
    if chars.len() == 0 {
        return out;
    }
    if chars[0] == '.' {
        push_char(&mut out, '.');
        if chars.len() >= 2 {
            push_char(&mut out, chars[1]);
            assert(out@ =~= seq!['.', chars@[1]]);
        } else {
            assert(out@ =~= seq!['.']);
        }
    } else {
        push_char(&mut out, chars[0]);
        assert(out@ =~= seq![chars@[0]]);
    }
    out
}

/// The components shown under a component cap.
pub fn shorten_components(components: &Vec<String>, max_components: usize, abbreviate: bool) -> (r: Vec<String>)
    ensures
        strings_view(r@) == shortened(strings_view(components@), max_components as nat, abbreviate),
{
    let ghost comps = strings_view(components@);
    let mut r: Vec<String> = Vec::new();
    let skipped = if components.len() > max_components {
        components.len() - max_components
    } else {
        0
    };
    if max_components == 0 || (skipped == 0 && !abbreviate) {
        let mut i: usize = 0;
        while i < components.len()
            invariant
                i <= components.len(),
                comps == strings_view(components@),
                strings_view(r@) == comps.take(i as int),
            decreases components.len() - i,
        {
            push_string(&mut r, copy_str(components[i].as_str()));
            assert(strings_view(r@) =~= comps.take(i + 1));
            i += 1;
        }
        assert(comps.take(i as int) =~= comps);
        return r;
    }
    if skipped > 0 {
        let mut e = String::new();
        push_char(&mut e, '\u{2026}');
        assert(e@ =~= seq!['\u{2026}']);
        push_string(&mut r, e);
    }
    let ghost head = strings_view(r@);
    let ghost tail = shortened_tail(comps, skipped as nat, abbreviate);
    let mut k = skipped;
    while k < components.len()
        invariant
            skipped <= k <= components.len(),
            comps == strings_view(components@),
            tail == shortened_tail(comps, skipped as nat, abbreviate),
            strings_view(r@) == head + tail.take(k - skipped),
        decreases components.len() - k,
    {
        let piece = if k == components.len() - 1 || !abbreviate {
            copy_str(components[k].as_str())
        } else {
            abbreviate_component(components[k].as_str())
        };
        assert(comps[k as int] == components@[k as int]@);
        assert(piece@ == tail[k - skipped]);
        let ghost before = strings_view(r@);
        push_string(&mut r, piece);
        assert(tail.take(k + 1 - skipped) =~= tail.take(k - skipped).push(tail[k - skipped]));
        assert(strings_view(r@) =~= head + tail.take(k + 1 - skipped));
        k += 1;
    }
    assert(tail.take(k - skipped) =~= tail);
    proof {
        if skipped > 0 {
            assert(head =~= seq![seq!['\u{2026}']]);
        } else {
            assert(head =~= Seq::<Seq<char>>::empty());
        }
    }
    r
}

/// A path written after a prefix.
pub fn format_with_prefix(prefix: &str, components: &Vec<String>, max_components: usize) -> (r: String)
    ensures
        r@ == with_prefix(prefix@, strings_view(components@), max_components as nat),
{
    if components.len() == 0 {
        return copy_str(prefix);
    }
    let pchars = chars_of(prefix);
    let tilde = pchars.len() == 1 && pchars[0] == '~';
    assert(tilde == (prefix@ == seq!['~'])) by {
        if prefix@ == seq!['~'] {
            assert(pchars@.len() == 1 && pchars@[0] == '~');
        }
        if tilde {
            assert(pchars@ =~= seq!['~']);
        }
    }
    let short = shorten_components(components, max_components, tilde);
    let mut pieces: Vec<Vec<char>> = Vec::new();
    let mut i: usize = 0;
    while i < short.len()
        invariant
            i <= short.len(),
            views(pieces@) == strings_view(short@).take(i as int),
        decreases short.len() - i,
    {
        let ghost before = views(pieces@);
        pieces.push(chars_of(short[i].as_str()));
        assert(views(pieces@) =~= before.push(short@[i as int]@));
        assert(views(pieces@) =~= strings_view(short@).take(i + 1));
        i += 1;
    }
    assert(strings_view(short@).take(i as int) =~= strings_view(short@));
    let joined = join_chars(&pieces, &['/']);
    assert(['/']@ =~= seq!['/']);
    let j = string_of(joined.as_slice());
    if pchars.len() == 0 {
        return j;
    }
    let slash = pchars.len() == 1 && pchars[0] == '/';
    assert(slash == (prefix@ == seq!['/'])) by {
        if prefix@ == seq!['/'] {
            assert(pchars@.len() == 1 && pchars@[0] == '/');
        }
        if slash {
            assert(pchars@ =~= seq!['/']);
        }
    }
    let mut out = String::new();
    if slash {
        push_char(&mut out, '/');
    } else {
        push_str(&mut out, prefix);
        push_char(&mut out, '/');
    }
    push_str(&mut out, j.as_str());
    assert(slash ==> out@ =~= seq!['/'] + j@);
    assert(!slash ==> out@ =~= prefix@ + seq!['/'] + j@);
    out
}

fn starts_with_components(c: &Vec<String>, h: &Vec<String>) -> (r: bool)
    ensures
        r == (strings_view(h@).len() <= strings_view(c@).len()
            && strings_view(c@).take(h.len() as int) == strings_view(h@)),
{
    if h.len() > c.len() {
        return false;
    }
    let ghost cv = strings_view(c@);
    let ghost hv = strings_view(h@);
    let mut i: usize = 0;
    while i < h.len()
        invariant
            i <= h.len() <= c.len(),
            cv == strings_view(c@),
            hv == strings_view(h@),
            forall|k: int| 0 <= k < i ==> cv[k] == hv[k],
        decreases h.len() - i,
    {
        if !str_eq(c[i].as_str(), h[i].as_str()) {
            assert(cv.take(h.len() as int)[i as int] != hv[i as int]);
            return false;
        }
        i += 1;
    }
    assert(cv.take(h.len() as int) =~= hv);
    true
}

/// How the directory is shown: under `~` when it lies in `home`, capped to
/// `max_components` components (0 for no cap).
pub fn display_path(cwd: &str, home: Option<&str>, max_components: usize) -> (r: String)
    ensures
        r@ == display_path_of(cwd@, match home {
            Some(h) => Some(h@),
            None => None,
        }, max_components as nat),
{
    let chars = chars_of(cwd);
    let rooted = chars.len() > 0 && chars[0] == '/';
    proof {
        reveal_strlit("~");
        reveal_strlit("/");
        reveal_strlit("");
    }
    if let Some(h) = home {
        let c = full_components_of(cwd);
        let hc = full_components_of(h);
        if starts_with_components(&c, &hc) {
            let ghost cv = strings_view(c@);
            let mut rel: Vec<String> = Vec::new();
            let mut i = hc.len();
            assert(strings_view(rel@) =~= drop_roots(cv.skip(hc.len() as int).take(0))) by {
                assert(cv.skip(hc.len() as int).take(0) =~= Seq::<Seq<char>>::empty());
            }
            while i < c.len()
                invariant
                    hc.len() <= i <= c.len(),
                    cv == strings_view(c@),
                    strings_view(rel@) == drop_roots(cv.skip(hc.len() as int).take(i - hc.len())),
                decreases c.len() - i,
            {
                let ghost before = strings_view(rel@);
                let ghost t = cv.skip(hc.len() as int);
                proof {
                    assert(t.take(i + 1 - hc.len()).drop_last() =~= t.take(i - hc.len()));
                    assert(t.take(i + 1 - hc.len()).last() == c@[i as int]@);
                }
                let cc = chars_of(c[i].as_str());
                let is_root = cc.len() == 1 && cc[0] == '/';
                assert(is_root == (c@[i as int]@ == seq!['/'])) by {
                    if c@[i as int]@ == seq!['/'] {
                        assert(cc@.len() == 1 && cc@[0] == '/');
                    }
                    if is_root {
                        assert(cc@ =~= seq!['/']);
                    }
                }
                if !is_root {
                    push_string(&mut rel, copy_str(c[i].as_str()));
                    assert(strings_view(rel@) =~= before + seq![c@[i as int]@]);
                } else {
                    assert(strings_view(rel@) =~= before + Seq::<Seq<char>>::empty());
                }
                i += 1;
            }
            assert(cv.skip(hc.len() as int).take(i - hc.len()) =~= cv.skip(hc.len() as int));
            assert("~"@ =~= seq!['~']);
            return format_with_prefix("~", &rel, max_components);
        }
    }
    let parts = visible_components(cwd);
    assert("/"@ =~= seq!['/']);
    assert(""@ =~= Seq::<char>::empty());
    if rooted {
        format_with_prefix("/", &parts, max_components)
    } else {
        format_with_prefix("", &parts, max_components)
    }
}

/// The directory's style: the configured one when it sets anything, else green.
pub open spec fn dir_style_of(config: crate::config::SegmentConfigView) -> StyleView {
    style_or(config.style, StyleView { fg: Some("green"@), bg: None, bold: false })
}

pub fn dir_style(config: &SegmentConfig) -> (r: Style)
    ensures
        r@ == dir_style_of(config@),
{
    super::style_or_default(config, Style::fg_named("green", false))
}

/// The home directory the shell sent, or the renderer's own.
pub open spec fn home_of(state: crate::state::PromptStateView) -> Option<Seq<char>> {
    match state.env.home {
        Some(h) => Some(h),
        None => state.env.process.home,
    }
}

/// What the directory segment shows.
pub open spec fn dir_content(state: crate::state::PromptStateView, config: crate::config::SegmentConfigView) -> SegmentContentView {
    plain_content(
        "dir"@,
        display_path_of(
            state.cwd,
            home_of(state),
            match config.max_components {
                Some(m) => m as nat,
                None => 4,
            },
        ),
        dir_style_of(config),
    )
}

pub struct DirSegment;

impl SyncSegment for DirSegment {
    fn id(&self) -> &'static str {
        "dir"
    }

    fn render(&self, state: &PromptState, config: &SegmentConfig) -> (r: Option<SegmentContent>)
        ensures
            super::content_opt(r) == Some(dir_content(state@, config@)),
    {
        let home: Option<&str> = match &state.env.home {
            Some(h) => Some(h.as_str()),
            None => match &state.env.process.home {
                Some(h) => Some(h.as_str()),
                None => None,
            },
        };
        let max_components = match config.max_components {
            Some(m) => m,
            None => 4,
        };
        let text = display_path(state.cwd.as_str(), home, max_components);
        Some(SegmentContent::new("dir", text.as_str(), dir_style(config)))
    }
}

} // verus!
