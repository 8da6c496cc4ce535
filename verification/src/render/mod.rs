//! Prompt composition and lowering.
//!
//! Rendering turns the configured layout into segments; lowering fits each side
//! of a line into the terminal width and writes the zsh prompt strings. Widths
//! are the `unicode-width` widths of the segments' texts; where a sum of widths
//! would exceed `usize`, it stops at `usize::MAX`.

pub mod fit;
pub mod width;
pub mod zsh;

use vstd::prelude::*;

use crate::cache::{AsyncValue, AsyncValueView};
use crate::config::{Config, LineConfig, SegmentConfig, SegmentConfigView};
use crate::segments::{
    content_opt, contents_view, parts_in_use, plain_content, render_sync_segment, style_of,
    sync_content, SegmentContent, SegmentContentView, Style, StyleView,
};
use crate::state::{PromptState, PromptStateView};
use crate::text::{
    chars_of, copy_str, join_chars, join_with, push_char, push_str, split_chars, split_on,
    split_whitespace_n, str_eq, string_of, views, words,
};
use self::width::{display_width, text_columns};
use self::zsh::{escape_prompt_text, escaped, lower_segment, lowered_segment};

verus! {

/// The final `PROMPT` and `RPROMPT` strings.
#[derive(Clone, Debug, PartialEq, Eq)]
pub struct LoweredPrompt {
    pub prompt: String,
    pub rprompt: String,
}

pub struct LoweredPromptView {
    pub prompt: Seq<char>,
    pub rprompt: Seq<char>,
}

impl View for LoweredPrompt {
    type V = LoweredPromptView;

    open spec fn view(&self) -> LoweredPromptView {
        LoweredPromptView { prompt: self.prompt@, rprompt: self.rprompt@ }
    }
}

// ---------------------------------------------------------------------------
// Widths
// ---------------------------------------------------------------------------

/// `n`, or `usize::MAX` when it is larger.
pub open spec fn clamp(n: int) -> nat {
    if n > usize::MAX {
        usize::MAX as nat
    } else if n < 0 {
        0
    } else {
        n as nat
    }
}

/// The sum of the widths of the segments' texts.
pub open spec fn widths_sum(segs: Seq<SegmentContentView>) -> nat
    decreases segs.len(),
{
    if segs.len() == 0 {
        0
    } else {
        widths_sum(segs.drop_last()) + text_columns(segs.last().text)
    }
}

/// The width of the separators between the segments.
pub open spec fn separators_width(n: nat, sep: Seq<char>) -> nat {
    clamp(text_columns(sep) * (if n > 0 { n - 1 } else { 0int }))
}

/// The width a side takes: its texts and the separators between them.
pub open spec fn side_width_of(segs: Seq<SegmentContentView>, sep: Seq<char>) -> nat {
    if segs.len() == 0 {
        0
    } else {
        clamp((widths_sum(segs) + separators_width(segs.len(), sep)) as int)
    }
}

fn add_clamped(a: usize, b: usize) -> (r: usize)
    ensures
        r == clamp(a + b),
{
    if b > usize::MAX - a {
        usize::MAX
    } else {
        a + b
    }
}

/// The width of the separators between `segments`.
pub fn separator_total_width(segments: &Vec<SegmentContent>, separator: &str) -> (r: usize)
    ensures
        r == separators_width(segments.len() as nat, separator@),
{
    let w = display_width(separator);
    let n = if segments.len() > 0 {
        segments.len() - 1
    } else {
        0
    };
    match w.checked_mul(n) {
        Some(v) => v,
        None => usize::MAX,
    }
}

/// The width `segments` take on one line, separators included.
pub fn side_width(segments: &Vec<SegmentContent>, separator: &str) -> (r: usize)
    ensures
        r == side_width_of(contents_view(segments@), separator@),
{
    if segments.len() == 0 {
        return 0;
    }
    let ghost segs = contents_view(segments@);
    let mut total: usize = 0;
    let mut i: usize = 0;
    while i < segments.len()
        invariant
            i <= segments.len(),
            segs == contents_view(segments@),
            total == clamp(widths_sum(segs.take(i as int)) as int),
        decreases segments.len() - i,
    {
        let w = display_width(segments[i].text.as_str());
        proof {
            assert(segs.take(i + 1).drop_last() =~= segs.take(i as int));
            assert(segs.take(i + 1).last() == segments@[i as int]@);
        }
        total = add_clamped(total, w);
        i += 1;
    }
    assert(segs.take(i as int) =~= segs);
    let sep = separator_total_width(segments, separator);
    add_clamped(total, sep)
}

// ---------------------------------------------------------------------------
// Visible width of lowered text
// ---------------------------------------------------------------------------

/// What zsh shows of prompt text: `%{ .. %}` runs dropped, `%%` read as `%`.
/// `inside` says whether a `%{` run is open.
pub open spec fn strip_from(s: Seq<char>, inside: bool) -> Seq<char>
    decreases s.len(),
{
    if s.len() == 0 {
        s
    } else if inside {
        if s.len() >= 2 && s[0] == '%' && s[1] == '}' {
            strip_from(s.skip(2), false)
        } else {
            strip_from(s.skip(1), true)
        }
    } else if s.len() >= 2 && s[0] == '%' && s[1] == '{' {
        strip_from(s.skip(2), true)
    } else if s.len() >= 2 && s[0] == '%' && s[1] == '%' {
        seq!['%'] + strip_from(s.skip(2), false)
    } else {
        seq![s[0]] + strip_from(s.skip(1), false)
    }
}

proof fn lemma_escaped_concat(a: Seq<char>, b: Seq<char>)
    ensures
        escaped(a + b) == escaped(a) + escaped(b),
    decreases b.len(),
{
    if b.len() == 0 {
        assert(a + b =~= a);
        assert(escaped(b) =~= Seq::<char>::empty());
        assert(escaped(a) + escaped(b) =~= escaped(a));
    } else {
        assert((a + b).drop_last() =~= a + b.drop_last());
        assert((a + b).last() == b.last());
        lemma_escaped_concat(a, b.drop_last());
        let t = if b.last() == '%' {
            seq!['%', '%']
        } else {
            seq![b.last()]
        };
        assert(escaped(a) + escaped(b.drop_last()) + t =~= escaped(a) + (escaped(b.drop_last()) + t));
    }
}

/// Escaping round-trips: what zsh shows of escaped text is the text itself, every
/// `%` doubled by escaping read back as one; so escaped text is as wide on screen
/// as the text.
pub proof fn law_escape_round_trip(s: Seq<char>)
    ensures
        stripped(escaped(s)) == s,
        text_columns(stripped(escaped(s))) == text_columns(s),
    decreases s.len(),
{
    if s.len() > 0 {
        let rest = s.skip(1);
        assert(s =~= seq![s[0]] + rest);
        lemma_escaped_concat(seq![s[0]], rest);
        let one = seq![s[0]];
        assert(one.drop_last() =~= Seq::<char>::empty());
        assert(one.last() == s[0]);
        assert(escaped(Seq::<char>::empty()) =~= Seq::<char>::empty());
        law_escape_round_trip(rest);
        let e = escaped(s);
        if s[0] == '%' {
            assert(escaped(one) =~= seq!['%', '%']);
            assert(e =~= seq!['%', '%'] + escaped(rest));
            assert(e.skip(2) =~= escaped(rest));
            assert(strip_from(e, false) == seq!['%'] + strip_from(e.skip(2), false));
        } else {
            assert(escaped(one) =~= seq![s[0]]);
            assert(e =~= seq![s[0]] + escaped(rest));
            assert(e.skip(1) =~= escaped(rest));
            assert(strip_from(e, false) == seq![e[0]] + strip_from(e.skip(1), false));
        }
        assert(seq![s[0]] + rest =~= s);
    } else {
        assert(escaped(s) =~= s);
    }
}

/// The visible text of lowered prompt text.
pub open spec fn stripped(s: Seq<char>) -> Seq<char> {
    strip_from(s, false)
}

/// The visible text of lowered prompt text: non-printing runs dropped and `%%`
/// read back as `%`.
pub fn strip_prompt_markers(input: &str) -> (r: String)
    ensures
        r@ == stripped(input@),
{
    let chars = chars_of(input);
    let n = chars.len();
    let mut out = String::new();
    let mut i: usize = 0;
    let mut inside = false;
    assert(input@.skip(0) =~= input@);
    assert(out@ + strip_from(input@, false) =~= strip_from(input@, false));
    while i < n
        invariant
            n == chars.len(),
            chars@ == input@,
            i <= n,
            out@ + strip_from(input@.skip(i as int), inside) == stripped(input@),
        decreases n - i,
    {
        let ghost rest = input@.skip(i as int);
        let ghost before = out@;
        assert(rest[0] == chars@[i as int]);
        let two = i + 1 < n;
        if two {
            assert(rest[1] == chars@[i + 1]);
        }
        if inside {
            if two && chars[i] == '%' && chars[i + 1] == '}' {
                inside = false;
                assert(rest.skip(2) =~= input@.skip(i + 2));
                i += 2;
            } else {
                assert(rest.skip(1) =~= input@.skip(i + 1));
                i += 1;
            }
        } else if two && chars[i] == '%' && chars[i + 1] == '{' {
            inside = true;
            assert(rest.skip(2) =~= input@.skip(i + 2));
            i += 2;
        } else if two && chars[i] == '%' && chars[i + 1] == '%' {
            push_char(&mut out, '%');
            assert(rest.skip(2) =~= input@.skip(i + 2));
            assert(before + (seq!['%'] + strip_from(input@.skip(i + 2), false)) =~= out@
                + strip_from(input@.skip(i + 2), false));
            i += 2;
        } else {
            let c = chars[i];
            push_char(&mut out, c);
            assert(rest.skip(1) =~= input@.skip(i + 1));
            assert(before + (seq![c] + strip_from(input@.skip(i + 1), false)) =~= out@
                + strip_from(input@.skip(i + 1), false));
            i += 1;
        }
    }
    assert(input@.skip(i as int) =~= Seq::<char>::empty());
    assert(out@ + Seq::<char>::empty() =~= out@);
    out
}

/// The width zsh gives lowered prompt text.
pub fn visible_prompt_width(input: &str) -> (r: usize)
    ensures
        r == text_columns(stripped(input@)),
{
    let visible = strip_prompt_markers(input);
    display_width(visible.as_str())
}

// ---------------------------------------------------------------------------
// Lowering a side
// ---------------------------------------------------------------------------

/// The lowered segments of a side, in order.
pub open spec fn lowered_all(segs: Seq<SegmentContentView>) -> Seq<Seq<char>> {
    Seq::new(segs.len(), |i: int| lowered_segment(segs[i]))
}

/// A side lowered: its segments joined by the escaped separator.
pub open spec fn lowered_side(segs: Seq<SegmentContentView>, sep: Seq<char>) -> Seq<char> {
    join_with(lowered_all(segs), escaped(sep))
}

/// The prompt text of a side.
pub fn lower_side(segments: &Vec<SegmentContent>, separator: &str) -> (r: String)
    ensures
        r@ == lowered_side(contents_view(segments@), separator@),
{
    let sep = escape_prompt_text(separator);
    let sep_chars = chars_of(sep.as_str());
    let mut pieces: Vec<Vec<char>> = Vec::new();
    let mut i: usize = 0;
    while i < segments.len()
        invariant
            i <= segments.len(),
            views(pieces@) == lowered_all(contents_view(segments@)).take(i as int),
        decreases segments.len() - i,
    {
        let lowered = lower_segment(&segments[i]);
        let ghost before = views(pieces@);
        pieces.push(chars_of(lowered.as_str()));
        assert(contents_view(segments@)[i as int] == segments@[i as int]@);
        assert(views(pieces@) =~= before.push(lowered@));
        assert(views(pieces@) =~= lowered_all(contents_view(segments@)).take(i + 1));
        i += 1;
    }
    assert(lowered_all(contents_view(segments@)).take(i as int) =~= lowered_all(
        contents_view(segments@),
    ));
    let joined = join_chars(&pieces, sep_chars.as_slice());
    string_of(joined.as_slice())
}

// ---------------------------------------------------------------------------
// Editing segments
// ---------------------------------------------------------------------------

/// A segment given new text: its parts go, and it keeps the style of its first
/// part when the parts were in use.
pub open spec fn with_text(seg: SegmentContentView, text: Seq<char>) -> SegmentContentView {
    SegmentContentView {
        id: seg.id,
        text,
        style: if parts_in_use(seg) {
            seg.parts[0].style
        } else {
            seg.style
        },
        parts: Seq::empty(),
    }
}

/// Gives a segment new text.
pub fn set_segment_text(segment: &mut SegmentContent, text: String)
    ensures
        final(segment)@ == with_text(old(segment)@, text@),
{
    if segment.uses_parts() {
        let style = segment.parts[0].style.copy();
        segment.style = style;
    }
    segment.text = text;
    segment.parts = Vec::new();
    assert(crate::segments::parts_view(segment.parts@) =~= Seq::empty());
}

/// Whether a segment shows anything.
pub open spec fn visible(seg: SegmentContentView) -> bool {
    text_columns(seg.text) > 0
}

/// The segments that show anything, in order.
pub open spec fn drop_invisible(segs: Seq<SegmentContentView>) -> Seq<SegmentContentView> {
    segs.filter(|s: SegmentContentView| visible(s))
}

/// Drops the segments whose text has no width.
pub fn remove_zero_width_segments(segments: &mut Vec<SegmentContent>)
    ensures
        contents_view(final(segments)@) == drop_invisible(contents_view(old(segments)@)),
{
    let ghost all = contents_view(segments@);
    let mut kept: Vec<SegmentContent> = Vec::new();
    let mut i: usize = 0;
    assert(contents_view(kept@) =~= drop_invisible(all.take(0))) by {
        reveal_with_fuel(Seq::filter, 1);
        assert(all.take(0) =~= Seq::<SegmentContentView>::empty());
    }
    while i < segments.len()
        invariant
            i <= segments.len(),
            all == contents_view(segments@),
            contents_view(kept@) == drop_invisible(all.take(i as int)),
        decreases segments.len() - i,
    {
        let ghost before = contents_view(kept@);
        proof {
            reveal_with_fuel(Seq::filter, 1);
            assert(all.take(i + 1).drop_last() =~= all.take(i as int));
            assert(all.take(i + 1).last() == segments@[i as int]@);
        }
        if display_width(segments[i].text.as_str()) > 0 {
            kept.push(segments[i].copy());
            assert(contents_view(kept@) =~= before.push(segments@[i as int]@));
        }
        i += 1;
    }
    assert(all.take(i as int) =~= all);
    *segments = kept;
}

// ---------------------------------------------------------------------------
// Budgets
// ---------------------------------------------------------------------------

/// Columns kept free for the command line after a prompt as wide as `columns`:
/// half the width, at least 20, but leaving at least 2 for the prompt.
pub open spec fn command_cols(columns: nat) -> nat {
    let desired: nat = if 20 >= columns * 50 / 100 {
        20
    } else {
        columns * 50 / 100
    };
    let max_reserved: nat = if columns >= 2 {
        (columns - 2) as nat
    } else {
        0
    };
    if desired <= max_reserved {
        desired
    } else {
        max_reserved
    }
}

/// The columns reserved for typing a command.
pub fn command_columns(columns: usize) -> (r: usize)
    requires
        columns * 50 <= usize::MAX,
    ensures
        r == command_cols(columns as nat),
{
    let half = columns * 50 / 100;
    let desired = if 20 >= half {
        20
    } else {
        half
    };
    let max_reserved = if columns >= 2 {
        columns - 2
    } else {
        0
    };
    if desired <= max_reserved {
        desired
    } else {
        max_reserved
    }
}

/// The columns the input line's prompt may take.
pub fn prompt_columns_for_input(columns: usize) -> (r: usize)
    requires
        columns * 50 <= usize::MAX,
    ensures
        r == columns - command_cols(columns as nat),
{
    columns - command_columns(columns)
}

// ---------------------------------------------------------------------------
// Lowering lines
// ---------------------------------------------------------------------------

/// The segments of both lines, each side in layout order.
#[derive(Clone, Debug, PartialEq, Eq)]
pub struct RenderedPrompt {
    pub line1_left: Vec<SegmentContent>,
    pub line1_right: Vec<SegmentContent>,
    pub line2_left: Vec<SegmentContent>,
    pub line2_right: Vec<SegmentContent>,
}

/// The prompt of the line the command is typed on, and whether its prompt
/// character was moved to a line of its own.
#[derive(Clone, Debug, PartialEq, Eq)]
pub struct LoweredInputLine {
    pub prompt: String,
    pub wrapped: bool,
}

pub struct LoweredInputLineView {
    pub prompt: Seq<char>,
    pub wrapped: bool,
}

impl View for LoweredInputLine {
    type V = LoweredInputLineView;

    open spec fn view(&self) -> LoweredInputLineView {
        LoweredInputLineView { prompt: self.prompt@, wrapped: self.wrapped }
    }
}

/// Where the last segment with `id` stands.
pub open spec fn last_id(segs: Seq<SegmentContentView>, id: Seq<char>) -> Option<int>
    decreases segs.len(),
{
    if segs.len() == 0 {
        None
    } else if segs.last().id == id {
        Some(segs.len() - 1)
    } else {
        last_id(segs.drop_last(), id)
    }
}

pub open spec fn spaces(n: nat) -> Seq<char> {
    Seq::new(n, |i: int| ' ')
}

/// The input line: the side as it is when it leaves room for the command;
/// otherwise the prompt character on a line of its own below the rest, cut to
/// the width (or the whole side cut to the prompt's budget when there is no
/// prompt character).
pub open spec fn input_line(left: Seq<SegmentContentView>, columns: nat, sep: Seq<char>) -> LoweredInputLineView {
    let budget = (columns - command_cols(columns)) as nat;
    if side_width_of(left, sep) <= budget {
        LoweredInputLineView { prompt: lowered_side(left, sep), wrapped: false }
    } else {
        match last_id(left, "prompt_char"@) {
            None => LoweredInputLineView {
                prompt: lowered_side(self::fit::truncated_start_side(left, budget, sep), sep),
                wrapped: true,
            },
            Some(p) => {
                let info = left.remove(p);
                let pc = lowered_side(seq![left[p]], sep);
                if info.len() == 0 {
                    LoweredInputLineView { prompt: pc, wrapped: false }
                } else {
                    LoweredInputLineView {
                        prompt: lowered_side(self::fit::truncated_start_side(info, columns, sep), sep)
                            + seq!['\n'] + pc,
                        wrapped: true,
                    }
                }
            },
        }
    }
}

fn position_of_last(segments: &Vec<SegmentContent>, id: &str) -> (r: Option<usize>)
    ensures
        r matches Some(i) ==> i < segments.len() && last_id(contents_view(segments@), id@) == Some(
            i as int,
        ),
        r is None ==> last_id(contents_view(segments@), id@) is None,
{
    let ghost segs = contents_view(segments@);
    let mut j = segments.len();
    assert(segs.take(j as int) =~= segs);
    while j > 0
        invariant
            j <= segments.len(),
            segs == contents_view(segments@),
            last_id(segs, id@) == last_id(segs.take(j as int), id@),
        decreases j,
    {
        proof {
            assert(segs.take(j as int).drop_last() =~= segs.take(j - 1));
            assert(segs.take(j as int).last() == segments@[j - 1]@);
        }
        if str_eq(segments[j - 1].id.as_str(), id) {
            return Some(j - 1);
        }
        j -= 1;
    }
    assert(segs.take(0) =~= Seq::<SegmentContentView>::empty());
    None
}

fn without_index(segments: &Vec<SegmentContent>, p: usize) -> (r: Vec<SegmentContent>)
    requires
        p < segments.len(),
    ensures
        contents_view(r@) == contents_view(segments@).remove(p as int),
{
    let mut r: Vec<SegmentContent> = Vec::new();
    let mut i: usize = 0;
    let ghost segs = contents_view(segments@);
    while i < segments.len()
        invariant
            i <= segments.len(),
            p < segments.len(),
            segs == contents_view(segments@),
            i <= p ==> contents_view(r@) == segs.take(i as int),
            i > p ==> contents_view(r@) == segs.take(i as int).remove(p as int),
        decreases segments.len() - i,
    {
        let ghost before = contents_view(r@);
        if i != p {
            r.push(segments[i].copy());
            assert(contents_view(r@) =~= before.push(segments@[i as int]@));
        }
        proof {
            if i < p {
                assert(segs.take(i + 1) =~= segs.take(i as int).push(segs[i as int]));
            } else if i == p {
                assert(segs.take(i + 1).remove(p as int) =~= segs.take(i as int));
            } else {
                assert(segs.take(i + 1).remove(p as int) =~= segs.take(i as int).remove(p as int).push(
                    segs[i as int],
                ));
            }
        }
        i += 1;
    }
    assert(segs.take(i as int) =~= segs);
    r
}

/// The prompt of the input line.
pub fn lower_input_line(left: &Vec<SegmentContent>, columns: usize, separator: &str) -> (r: LoweredInputLine)
    requires
        columns * 50 <= usize::MAX,
    ensures
        r@ == input_line(contents_view(left@), columns as nat, separator@),
{
    let prompt_columns = prompt_columns_for_input(columns);
    if side_width(left, separator) <= prompt_columns {
        return LoweredInputLine { prompt: lower_side(left, separator), wrapped: false };
    }
    let p = match position_of_last(left, "prompt_char") {
        Some(p) => p,
        None => {
            return LoweredInputLine {
                prompt: self::fit::lower_truncated_start_side(left, prompt_columns, separator),
                wrapped: true,
            };
        },
    };
    let info = without_index(left, p);
    let only: Vec<SegmentContent> = vec![left[p].copy()];
    assert(contents_view(only@) =~= seq![contents_view(left@)[p as int]]);
    let prompt_char_line = lower_side(&only, separator);
    if info.len() == 0 {
        return LoweredInputLine { prompt: prompt_char_line, wrapped: false };
    }
    let mut prompt = self::fit::lower_truncated_start_side(&info, columns, separator);
    let ghost head = prompt@;
    push_char(&mut prompt, '\n');
    push_str(&mut prompt, prompt_char_line.as_str());
    assert(prompt@ =~= head + seq!['\n'] + prompt_char_line@);
    LoweredInputLine { prompt, wrapped: true }
}

/// The right prompt of the input line: the right side cut to the width, unless
/// the prompt character wrapped, the right side is empty or shows nothing, or it
/// would meet the left side.
pub open spec fn input_rprompt(
    line: LoweredInputLineView,
    left: Seq<SegmentContentView>,
    right: Seq<SegmentContentView>,
    columns: nat,
    sep: Seq<char>,
) -> Seq<char> {
    if line.wrapped || right.len() == 0 {
        Seq::empty()
    } else {
        let lowered = lowered_side(self::fit::truncated_start_side(right, columns, sep), sep);
        let rw = text_columns(stripped(lowered));
        if rw == 0 || clamp((side_width_of(left, sep) + rw) as int) > columns {
            Seq::empty()
        } else {
            lowered
        }
    }
}

/// The right prompt of the input line.
pub fn lower_input_rprompt(
    input_line: &LoweredInputLine,
    left: &Vec<SegmentContent>,
    right: &Vec<SegmentContent>,
    columns: usize,
    separator: &str,
) -> (r: String)
    ensures
        r@ == input_rprompt(input_line@, contents_view(left@), contents_view(right@), columns as nat, separator@),
{
    if input_line.wrapped || right.len() == 0 {
        return String::new();
    }
    let lowered_right = self::fit::lower_truncated_start_side(right, columns, separator);
    let right_width = visible_prompt_width(lowered_right.as_str());
    if right_width == 0 || add_clamped(side_width(left, separator), right_width) > columns {
        String::new()
    } else {
        lowered_right
    }
}

fn push_spaces(s: &mut String, n: usize)
    ensures
        final(s)@ == old(s)@ + spaces(n as nat),
{
    let mut i: usize = 0;
    while i < n
        invariant
            i <= n,
            s@ == old(s)@ + spaces(i as nat),
        decreases n - i,
    {
        push_char(s, ' ');
        i += 1;
        assert(s@ =~= old(s)@ + spaces(i as nat));
    }
}

/// The first line of a two-line prompt: the left side, padding, then the right
/// side flush with the terminal's edge; the left side is cut from the start
/// when both do not fit.
pub open spec fn first_line(
    left: Seq<SegmentContentView>,
    right: Seq<SegmentContentView>,
    columns: nat,
    sep: Seq<char>,
) -> Seq<char> {
    if right.len() == 0 {
        lowered_side(self::fit::truncated_start_side(left, columns, sep), sep)
    } else {
        let lw = side_width_of(left, sep);
        let rw = side_width_of(right, sep);
        if lw + rw > columns {
            let avail: nat = if columns >= rw {
                (columns - rw) as nat
            } else {
                0
            };
            let ll = lowered_side(self::fit::truncated_start_side(left, avail, sep), sep);
            let used = clamp((text_columns(stripped(ll)) + rw) as int);
            let padding: nat = if columns >= used {
                (columns - used) as nat
            } else {
                0
            };
            ll + spaces(padding) + lowered_side(right, sep)
        } else {
            lowered_side(left, sep) + spaces((columns - (lw + rw)) as nat) + lowered_side(right, sep)
        }
    }
}

/// The first line of a two-line prompt.
pub fn lower_first_line(
    left: &Vec<SegmentContent>,
    right: &Vec<SegmentContent>,
    columns: usize,
    separator: &str,
) -> (r: String)
    ensures
        r@ == first_line(contents_view(left@), contents_view(right@), columns as nat, separator@),
{
    let lowered_left = lower_side(left, separator);
    let lowered_right = lower_side(right, separator);
    if right.len() == 0 {
        return self::fit::lower_truncated_start_side(left, columns, separator);
    }
    let left_width = side_width(left, separator);
    let right_width = side_width(right, separator);
    if left_width as u128 + right_width as u128 > columns as u128 {
        let available_for_left = if columns >= right_width {
            columns - right_width
        } else {
            0
        };
        let mut out = self::fit::lower_truncated_start_side(left, available_for_left, separator);
        let used = add_clamped(visible_prompt_width(out.as_str()), right_width);
        let padding = if columns >= used {
            columns - used
        } else {
            0
        };
        push_spaces(&mut out, padding);
        push_str(&mut out, lowered_right.as_str());
        return out;
    }
    let padding = columns - (left_width + right_width);
    let mut out = lowered_left;
    push_spaces(&mut out, padding);
    push_str(&mut out, lowered_right.as_str());
    out
}

/// The prompt strings of fitted lines: a one-line prompt when the second line
/// is empty, else the first line above the input line.
pub open spec fn lowered_lines(
    l1: Seq<SegmentContentView>,
    r1: Seq<SegmentContentView>,
    l2: Seq<SegmentContentView>,
    r2: Seq<SegmentContentView>,
    columns: nat,
    sep: Seq<char>,
) -> LoweredPromptView {
    if l2.len() == 0 && r2.len() == 0 {
        let line = input_line(l1, columns, sep);
        LoweredPromptView { prompt: line.prompt, rprompt: input_rprompt(line, l1, r1, columns, sep) }
    } else {
        let line = input_line(l2, columns, sep);
        LoweredPromptView {
            prompt: first_line(l1, r1, columns, sep) + seq!['\n'] + line.prompt,
            rprompt: input_rprompt(line, l2, r2, columns, sep),
        }
    }
}

/// What a rendered prompt lowers to in `columns` columns with `sep` between
/// segments: each line's sides fitted, then written out.
pub open spec fn lowered_prompt(r: RenderedPromptView, columns: nat, sep: Seq<char>) -> LoweredPromptView {
    lowered_lines(
        self::fit::fitted(r.line1_left, columns, sep),
        self::fit::fitted(r.line1_right, columns, sep),
        self::fit::fitted(r.line2_left, columns, sep),
        self::fit::fitted(r.line2_right, columns, sep),
        columns,
        sep,
    )
}

pub struct RenderedPromptView {
    pub line1_left: Seq<SegmentContentView>,
    pub line1_right: Seq<SegmentContentView>,
    pub line2_left: Seq<SegmentContentView>,
    pub line2_right: Seq<SegmentContentView>,
}

impl View for RenderedPrompt {
    type V = RenderedPromptView;

    open spec fn view(&self) -> RenderedPromptView {
        RenderedPromptView {
            line1_left: contents_view(self.line1_left@),
            line1_right: contents_view(self.line1_right@),
            line2_left: contents_view(self.line2_left@),
            line2_right: contents_view(self.line2_right@),
        }
    }
}

/// Fits and writes out a rendered prompt with `separator` between segments.
pub fn lower_with_separator(rendered: RenderedPrompt, columns: u16, separator: &str) -> (r: LoweredPrompt)
    ensures
        r@ == lowered_prompt(rendered@, columns as nat, separator@),
{
    let columns = columns as usize;
    let mut line1_left = rendered.line1_left;
    let mut line1_right = rendered.line1_right;
    let mut line2_left = rendered.line2_left;
    let mut line2_right = rendered.line2_right;
    self::fit::fit_prompt_line(&mut line1_left, &mut line1_right, columns, separator);
    self::fit::fit_prompt_line(&mut line2_left, &mut line2_right, columns, separator);
    if line2_left.len() == 0 && line2_right.len() == 0 {
        let input = lower_input_line(&line1_left, columns, separator);
        let rprompt = lower_input_rprompt(&input, &line1_left, &line1_right, columns, separator);
        return LoweredPrompt { prompt: input.prompt, rprompt };
    }
    let mut prompt = lower_first_line(&line1_left, &line1_right, columns, separator);
    let second = lower_input_line(&line2_left, columns, separator);
    let rprompt = lower_input_rprompt(&second, &line2_left, &line2_right, columns, separator);
    let ghost head = prompt@;
    push_char(&mut prompt, '\n');
    push_str(&mut prompt, second.prompt.as_str());
    assert(prompt@ =~= head + seq!['\n'] + second.prompt@);
    LoweredPrompt { prompt, rprompt }
}

/// Fits and writes out a rendered prompt with single spaces between segments.
pub fn lower(rendered: RenderedPrompt, columns: u16) -> (r: LoweredPrompt)
    ensures
        r@ == lowered_prompt(rendered@, columns as nat, " "@),
{
    lower_with_separator(rendered, columns, " ")
}

// ---------------------------------------------------------------------------
// Rendering
// ---------------------------------------------------------------------------

/// The values collected for async segments, by segment id, each id once.
pub type AsyncSegmentValues = Vec<(String, AsyncValue)>;

pub open spec fn values_view(v: Seq<(String, AsyncValue)>) -> Seq<(Seq<char>, AsyncValueView)> {
    Seq::new(v.len(), |i: int| (v[i].0@, v[i].1@))
}

/// The value collected for `id`.
pub open spec fn value_for(v: Seq<(Seq<char>, AsyncValueView)>, id: Seq<char>) -> Option<AsyncValueView>
    decreases v.len(),
{
    if v.len() == 0 {
        None
    } else if v[0].0 == id {
        Some(v[0].1)
    } else {
        value_for(v.drop_first(), id)
    }
}

/// What an async value shows: its content when ready or stale, the configured
/// loading text while loading, nothing after a failure.
pub open spec fn async_content(id: Seq<char>, value: AsyncValueView, config: SegmentConfigView) -> Option<SegmentContentView> {
    match value {
        AsyncValueView::Ready(c) => c,
        AsyncValueView::Stale(c) => c,
        AsyncValueView::Loading => match config.loading {
            Some(l) => Some(plain_content(id, l, style_of(config.style))),
            None => None,
        },
        AsyncValueView::Failed => None,
    }
}

/// A segment: rendered from the prompt state when it can be, else from the
/// values collected for it.
pub open spec fn segment_content(
    id: Seq<char>,
    config: Config,
    state: PromptStateView,
    values: Option<Seq<(Seq<char>, AsyncValueView)>>,
) -> Option<SegmentContentView> {
    match sync_content(id, state, config.segment_view(id)) {
        Some(c) => Some(c),
        None => match values {
            None => None,
            Some(v) => match value_for(v, id) {
                None => None,
                Some(val) => async_content(id, val, config.segment_view(id)),
            },
        },
    }
}

/// The segments of a side, in layout order, those that show nothing left out.
pub open spec fn side_contents(
    ids: Seq<Seq<char>>,
    config: Config,
    state: PromptStateView,
    values: Option<Seq<(Seq<char>, AsyncValueView)>>,
) -> Seq<SegmentContentView>
    decreases ids.len(),
{
    if ids.len() == 0 {
        Seq::empty()
    } else {
        side_contents(ids.drop_last(), config, state, values) + match segment_content(ids.last(), config, state, values) {
            Some(c) => seq![c],
            None => Seq::empty(),
        }
    }
}

/// What the layout renders to: the first line, and the second when the layout
/// has two.
pub open spec fn rendered_of(
    config: Config,
    state: PromptStateView,
    values: Option<Seq<(Seq<char>, AsyncValueView)>>,
) -> RenderedPromptView {
    let l = config.layout;
    RenderedPromptView {
        line1_left: side_contents(crate::config::strings_view(l.line1.left@), config, state, values),
        line1_right: side_contents(crate::config::strings_view(l.line1.right@), config, state, values),
        line2_left: if l.lines == 2 {
            side_contents(crate::config::strings_view(l.line2.left@), config, state, values)
        } else {
            Seq::empty()
        },
        line2_right: if l.lines == 2 {
            side_contents(crate::config::strings_view(l.line2.right@), config, state, values)
        } else {
            Seq::empty()
        },
    }
}

pub open spec fn separator_of(config: Config) -> Seq<char> {
    match config.layout.separator {
        Some(s) => s@,
        None => " "@,
    }
}

fn copy_content(c: &Option<SegmentContent>) -> (r: Option<SegmentContent>)
    ensures
        content_opt(r) == content_opt(*c),
{
    match c {
        Some(x) => Some(x.copy()),
        None => None,
    }
}

/// What an async value shows.
pub fn async_value_content(id: &str, value: &AsyncValue, config: &SegmentConfig) -> (r: Option<SegmentContent>)
    ensures
        content_opt(r) == async_content(id@, value@, config@),
{
    match value {
        AsyncValue::Ready(c) => copy_content(c),
        AsyncValue::Stale(c) => copy_content(c),
        AsyncValue::Loading => match &config.loading {
            Some(l) => Some(SegmentContent::new(id, l.as_str(), Style::from_config(&config.style))),
            None => None,
        },
        AsyncValue::Failed => None,
    }
}

fn find_value<'a>(values: &'a AsyncSegmentValues, id: &str) -> (r: Option<&'a AsyncValue>)
    ensures
        match r {
            Some(v) => value_for(values_view(values@), id@) == Some(v@),
            None => value_for(values_view(values@), id@) is None,
        },
{
    let ghost vs = values_view(values@);
    let mut i: usize = 0;
    assert(vs.skip(0) =~= vs);
    while i < values.len()
        invariant
            i <= values.len(),
            vs == values_view(values@),
            value_for(vs, id@) == value_for(vs.skip(i as int), id@),
        decreases values.len() - i,
    {
        let ghost rest = vs.skip(i as int);
        assert(rest[0] == (values@[i as int].0@, values@[i as int].1@));
        assert(rest.drop_first() =~= vs.skip(i + 1));
        if str_eq(values[i].0.as_str(), id) {
            return Some(&values[i].1);
        }
        i += 1;
    }
    None
}

/// One segment of the layout.
pub fn render_segment(id: &str, config: &Config, state: &PromptState, async_values: Option<&AsyncSegmentValues>) -> (r: Option<SegmentContent>)
    ensures
        content_opt(r) == segment_content(id@, *config, state@, match async_values {
            Some(v) => Some(values_view(v@)),
            None => None,
        }),
{
    let seg_config = config.segment(id);
    match render_sync_segment(id, state, &seg_config) {
        Some(c) => Some(c),
        None => match async_values {
            None => None,
            Some(values) => match find_value(values, id) {
                None => None,
                Some(value) => async_value_content(id, value, &seg_config),
            },
        },
    }
}

/// The segments of a side.
pub fn render_side(ids: &Vec<String>, config: &Config, state: &PromptState, async_values: Option<&AsyncSegmentValues>) -> (r: Vec<SegmentContent>)
    ensures
        contents_view(r@) == side_contents(crate::config::strings_view(ids@), *config, state@, match async_values {
            Some(v) => Some(values_view(v@)),
            None => None,
        }),
{
    let ghost vals = match async_values {
        Some(v) => Some(values_view(v@)),
        None => None,
    };
    let ghost idv = crate::config::strings_view(ids@);
    let mut out: Vec<SegmentContent> = Vec::new();
    let mut i: usize = 0;
    assert(idv.take(0) =~= Seq::<Seq<char>>::empty());
    assert(contents_view(out@) =~= Seq::<SegmentContentView>::empty());
    while i < ids.len()
        invariant
            i <= ids.len(),
            idv == crate::config::strings_view(ids@),
            vals == match async_values {
                Some(v) => Some(values_view(v@)),
                None => None,
            },
            contents_view(out@) == side_contents(idv.take(i as int), *config, state@, vals),
        decreases ids.len() - i,
    {
        proof {
            assert(idv.take(i + 1).drop_last() =~= idv.take(i as int));
            assert(idv.take(i + 1).last() == ids@[i as int]@);
        }
        let ghost before = contents_view(out@);
        match render_segment(ids[i].as_str(), config, state, async_values) {
            Some(c) => {
                out.push(c);
                assert(contents_view(out@) =~= before + seq![out@[out.len() - 1]@]);
            },
            None => {
                assert(contents_view(out@) =~= before + Seq::<SegmentContentView>::empty());
            },
        }
        i += 1;
    }
    assert(idv.take(i as int) =~= idv);
    out
}

fn render_structured_inner(config: &Config, state: &PromptState, async_values: Option<&AsyncSegmentValues>) -> (r: RenderedPrompt)
    ensures
        r@ == rendered_of(*config, state@, match async_values {
            Some(v) => Some(values_view(v@)),
            None => None,
        }),
{
    let line1_left = render_side(&config.layout.line1.left, config, state, async_values);
    let line1_right = render_side(&config.layout.line1.right, config, state, async_values);
    let (line2_left, line2_right) = if config.layout.lines == 2 {
        (
            render_side(&config.layout.line2.left, config, state, async_values),
            render_side(&config.layout.line2.right, config, state, async_values),
        )
    } else {
        let a: Vec<SegmentContent> = Vec::new();
        let b: Vec<SegmentContent> = Vec::new();
        assert(contents_view(a@) =~= Seq::<SegmentContentView>::empty());
        assert(contents_view(b@) =~= Seq::<SegmentContentView>::empty());
        (a, b)
    };
    RenderedPrompt { line1_left, line1_right, line2_left, line2_right }
}

/// The segments of the layout, from the prompt state alone.
pub fn render_structured(config: &Config, state: &PromptState) -> (r: RenderedPrompt)
    ensures
        r@ == rendered_of(*config, state@, None),
{
    render_structured_inner(config, state, None)
}

/// The segments of the layout, async ones from the collected values.
pub fn render_structured_with_async(config: &Config, state: &PromptState, async_values: &AsyncSegmentValues) -> (r: RenderedPrompt)
    ensures
        r@ == rendered_of(*config, state@, Some(values_view(async_values@))),
{
    render_structured_inner(config, state, Some(async_values))
}

/// The prompt for a state, from the prompt state alone.
pub fn render(config: &Config, state: &PromptState) -> (r: LoweredPrompt)
    ensures
        r@ == lowered_prompt(rendered_of(*config, state@, None), state.columns as nat, separator_of(*config)),
{
    let rendered = render_structured(config, state);
    lower_with_separator(rendered, state.columns, config.layout.separator())
}

/// The prompt for a state, async segments from the collected values.
pub fn render_with_async(config: &Config, state: &PromptState, async_values: &AsyncSegmentValues) -> (r: LoweredPrompt)
    ensures
        r@ == lowered_prompt(rendered_of(*config, state@, Some(values_view(async_values@))), state.columns as nat, separator_of(*config)),
{
    let rendered = render_structured_with_async(config, state, async_values);
    lower_with_separator(rendered, state.columns, config.layout.separator())
}

} // verus!
