//! Display width and truncation helpers.
//!
//! Widths come from the `unicode-width` crate. A string's width is not always the
//! sum of its characters' widths (some sequences form ligatures), so the
//! truncation helpers, which walk characters one at a time, are stated over the
//! sum of character widths, and the string width is used only where the code
//! asks for it.

use unicode_width::{UnicodeWidthChar, UnicodeWidthStr};
use vstd::prelude::*;

use crate::text::{chars_of, push_char, slice_range, string_of};

verus! {

/// The column width `UnicodeWidthStr::width` gives a string.
pub uninterp spec fn text_columns(s: Seq<char>) -> nat;

/// The column width `UnicodeWidthChar::width` gives a character, `None` for a
/// control character.
pub uninterp spec fn char_columns(c: char) -> Option<nat>;

/// A character between space and tilde.
pub open spec fn is_printable_ascii(c: char) -> bool {
    0x20 <= (c as u32) && (c as u32) < 0x7f
}

pub open spec fn opt_usize_nat(o: Option<usize>) -> Option<nat> {
    match o {
        Some(w) => Some(w as nat),
        None => None,
    }
}

/// The displayed width of a string, as `unicode-width` measures it.
///
/// Calls `UnicodeWidthStr::width`. Its result is named `text_columns`; beyond
/// the name, the contract states what the crate's documentation gives plainly:
/// the empty string is 0 wide, and a string of printable ASCII characters is as
/// wide as it is long (no ligature rule involves only such characters). How
/// other strings are measured is left unsaid.
#[verifier::external_body]
pub fn display_width(input: &str) -> (r: usize)
    ensures
        r as nat == text_columns(input@),
        input@.len() == 0 ==> r == 0,
        (forall|k: int| 0 <= k < input@.len() ==> is_printable_ascii(#[trigger] input@[k])) ==> r
            == input@.len(),
{
    UnicodeWidthStr::width(input)
}

/// The displayed width of one character.
///
/// Calls `UnicodeWidthChar::width`. Its result is named `char_columns`; the
/// contract adds what the crate's source shows for the first code points:
/// printable ASCII is 1 wide, the C0 and C1 control characters have no width,
/// and every character from U+00A0 on has one. The widths of those characters
/// are left unsaid.
#[verifier::external_body]
fn char_width(c: char) -> (r: Option<usize>)
    ensures
        opt_usize_nat(r) == char_columns(c),
        is_printable_ascii(c) ==> r == Some(1usize),
        ((c as u32) < 0x20 || (0x7f <= (c as u32) && (c as u32) < 0xa0)) ==> r is None,
        (c as u32) >= 0xa0 ==> r is Some,
{
    UnicodeWidthChar::width(c)
}

/// The width a character counts for when text is cut: control characters count 0.
pub open spec fn char_cols(c: char) -> nat {
    match char_columns(c) {
        Some(w) => w,
        None => 0,
    }
}

/// The sum of the character widths of `s`.
pub open spec fn chars_width(s: Seq<char>) -> nat
    decreases s.len(),
{
    if s.len() == 0 {
        0
    } else {
        chars_width(s.drop_last()) + char_cols(s.last())
    }
}

/// The longest prefix of `s` whose character widths sum to at most `w`.
pub open spec fn prefix_within(s: Seq<char>, w: nat) -> Seq<char>
    decreases s.len(),
{
    if s.len() == 0 {
        s
    } else if char_cols(s[0]) > w {
        Seq::empty()
    } else {
        seq![s[0]] + prefix_within(s.drop_first(), (w - char_cols(s[0])) as nat)
    }
}

/// The longest suffix of `s` whose character widths sum to at most `w`.
pub open spec fn suffix_within(s: Seq<char>, w: nat) -> Seq<char>
    decreases s.len(),
{
    if s.len() == 0 {
        s
    } else if char_cols(s.last()) > w {
        Seq::empty()
    } else {
        suffix_within(s.drop_last(), (w - char_cols(s.last())) as nat).push(s.last())
    }
}

/// The ellipsis that marks cut text.
pub open spec fn ellipsis() -> char {
    '\u{2026}'
}

/// `s` cut at the end to `max` columns, an ellipsis marking the cut.
pub open spec fn truncated_end(s: Seq<char>, max: nat) -> Seq<char> {
    if text_columns(s) <= max {
        s
    } else if max == 0 {
        Seq::empty()
    } else if max == 1 {
        seq![ellipsis()]
    } else {
        prefix_within(s, (max - 1) as nat).push(ellipsis())
    }
}

/// `s` cut at the start to `max` columns, an ellipsis marking the cut.
pub open spec fn truncated_start(s: Seq<char>, max: nat) -> Seq<char> {
    if text_columns(s) <= max {
        s
    } else if max == 0 {
        Seq::empty()
    } else if max == 1 {
        seq![ellipsis()]
    } else {
        seq![ellipsis()] + suffix_within(s, (max - 1) as nat)
    }
}

/// `s` cut in the middle to `max` columns: the first half of the room before the
/// ellipsis, the rest after it.
pub open spec fn truncated_middle(s: Seq<char>, max: nat) -> Seq<char> {
    if text_columns(s) <= max {
        s
    } else if max == 0 {
        Seq::empty()
    } else if max == 1 {
        seq![ellipsis()]
    } else {
        let content = (max - 1) as nat;
        let prefix = prefix_within(s, content / 2);
        let rest = if text_columns(prefix) <= content {
            (content - text_columns(prefix)) as nat
        } else {
            0nat
        };
        prefix.push(ellipsis()) + suffix_within(s, rest)
    }
}

fn cols_of(c: char) -> (r: usize)
    ensures
        r as nat == char_cols(c),
{
    match char_width(c) {
        Some(w) => w,
        None => 0,
    }
}

/// The longest prefix of `input` whose characters fit in `max_width` columns.
pub fn take_prefix(input: &str, max_width: usize) -> (r: String)
    ensures
        r@ == prefix_within(input@, max_width as nat),
{
    let chars = chars_of(input);
    let mut width: usize = 0;
    let mut i: usize = 0;
    let mut output = String::new();
    assert(input@.skip(0) =~= input@);
    assert(output@ + prefix_within(input@, max_width as nat) =~= prefix_within(input@, max_width as nat));
    while i < chars.len()
        invariant
            i <= chars.len(),
            chars@ == input@,
            width <= max_width,
            output@ + prefix_within(input@.skip(i as int), (max_width - width) as nat)
                == prefix_within(input@, max_width as nat),
        decreases chars.len() - i,
    {
        let c = chars[i];
        let w = cols_of(c);
        let ghost rest = input@.skip(i as int);
        assert(rest[0] == c);
        assert(rest.drop_first() =~= input@.skip(i + 1));
        if w > max_width - width {
            assert(output@ =~= output@ + Seq::<char>::empty());
            return output;
        }
        let ghost old_out = output@;
        push_char(&mut output, c);
        width = width + w;
        i += 1;
        proof {
            let tail = prefix_within(input@.skip(i as int), (max_width - width) as nat);
            assert(old_out + (seq![c] + tail) =~= output@ + tail);
        }
    }
    assert(input@.skip(i as int) =~= Seq::<char>::empty());
    assert(output@ =~= output@ + Seq::<char>::empty());
    output
}

/// The longest suffix of `input` whose characters fit in `max_width` columns.
pub fn take_suffix(input: &str, max_width: usize) -> (r: String)
    ensures
        r@ == suffix_within(input@, max_width as nat),
{
    let chars = chars_of(input);
    let mut width: usize = 0;
    let mut i: usize = chars.len();
    let mut done = false;
    assert(input@.take(i as int) =~= input@);
    assert(input@.skip(i as int) =~= Seq::<char>::empty());
    assert(suffix_within(input@, max_width as nat) + Seq::<char>::empty() =~= suffix_within(input@, max_width as nat));
    while i > 0 && !done
        invariant
            i <= chars.len(),
            chars@ == input@,
            width <= max_width,
            done ==> suffix_within(input@.take(i as int), (max_width - width) as nat) == Seq::<char>::empty(),
            suffix_within(input@.take(i as int), (max_width - width) as nat) + input@.skip(
                i as int,
            ) == suffix_within(input@, max_width as nat),
        decreases i + (if done { 0int } else { 1int }),
    {
        let c = chars[i - 1];
        let w = cols_of(c);
        let ghost head = input@.take(i as int);
        assert(head.last() == c);
        assert(head.drop_last() =~= input@.take(i - 1));
        if w > max_width - width {
            done = true;
        } else {
        width = width + w;
        i -= 1;
        assert(input@.skip(i as int) =~= seq![c] + input@.skip(i + 1));
        assert(suffix_within(input@.take(i as int), (max_width - width) as nat).push(c)
            + input@.skip(i + 1) =~= suffix_within(input@.take(i as int), (max_width - width) as nat)
            + input@.skip(i as int));
        }
    }
    let r = slice_range(chars.as_slice(), i, chars.len());
    proof {
        if !done {
            assert(input@.take(0) =~= Seq::<char>::empty());
        }
        assert(Seq::<char>::empty() + input@.skip(i as int) =~= input@.skip(i as int));
        assert(r@ =~= input@.skip(i as int));
    }
    string_of(r.as_slice())
}

fn ellipsis_string() -> (r: String)
    ensures
        r@ == seq![ellipsis()],
{
    let mut s = String::new();
    push_char(&mut s, '\u{2026}');
    assert(s@ =~= seq![ellipsis()]);
    s
}

/// `input` cut at the end to `max_width` columns.
pub fn truncate_end(input: &str, max_width: usize) -> (r: String)
    ensures
        r@ == truncated_end(input@, max_width as nat),
{
    if display_width(input) <= max_width {
        return crate::text::copy_str(input);
    }
    if max_width == 0 {
        return String::new();
    }
    if max_width == 1 {
        return ellipsis_string();
    }
    let mut prefix = take_prefix(input, max_width - 1);
    push_char(&mut prefix, '\u{2026}');
    prefix
}

/// `input` cut at the start to `max_width` columns.
pub fn truncate_start(input: &str, max_width: usize) -> (r: String)
    ensures
        r@ == truncated_start(input@, max_width as nat),
{
    if display_width(input) <= max_width {
        return crate::text::copy_str(input);
    }
    if max_width == 0 {
        return String::new();
    }
    if max_width == 1 {
        return ellipsis_string();
    }
    let suffix = take_suffix(input, max_width - 1);
    let mut r = ellipsis_string();
    crate::text::push_str(&mut r, suffix.as_str());
    r
}

/// `input` cut in the middle to `max_width` columns.
pub fn truncate_middle(input: &str, max_width: usize) -> (r: String)
    ensures
        r@ == truncated_middle(input@, max_width as nat),
{
    if display_width(input) <= max_width {
        return crate::text::copy_str(input);
    }
    if max_width == 0 {
        return String::new();
    }
    if max_width == 1 {
        return ellipsis_string();
    }
    let content_width = max_width - 1;
    let prefix_width = content_width / 2;
    let mut prefix = take_prefix(input, prefix_width);
    let used = display_width(prefix.as_str());
    let suffix_width = if used <= content_width {
        content_width - used
    } else {
        0
    };
    let suffix = take_suffix(input, suffix_width);
    push_char(&mut prefix, '\u{2026}');
    crate::text::push_str(&mut prefix, suffix.as_str());
    prefix
}

// ---------------------------------------------------------------------------
// Laws
// ---------------------------------------------------------------------------

/// Appending a character adds its width.
pub proof fn lemma_chars_width_push(s: Seq<char>, c: char)
    ensures
        chars_width(s.push(c)) == chars_width(s) + char_cols(c),
{
    assert(s.push(c).drop_last() =~= s);
    assert(s.push(c).last() == c);
}

/// Character widths add up over concatenation.
pub proof fn lemma_chars_width_concat(a: Seq<char>, b: Seq<char>)
    ensures
        chars_width(a + b) == chars_width(a) + chars_width(b),
    decreases b.len(),
{
    if b.len() == 0 {
        assert(a + b =~= a);
    } else {
        lemma_chars_width_concat(a, b.drop_last());
        assert((a + b).drop_last() =~= a + b.drop_last());
        assert((a + b).last() == b.last());
    }
}

/// What `prefix_within` keeps is a prefix of the text and fits in the width.
pub proof fn law_prefix_within_fits(s: Seq<char>, w: nat)
    ensures
        prefix_within(s, w).len() <= s.len(),
        prefix_within(s, w) == s.take(prefix_within(s, w).len() as int),
        chars_width(prefix_within(s, w)) <= w,
    decreases s.len(),
{
    if s.len() > 0 && char_cols(s[0]) <= w {
        let rest = (w - char_cols(s[0])) as nat;
        law_prefix_within_fits(s.drop_first(), rest);
        let p = prefix_within(s.drop_first(), rest);
        lemma_chars_width_concat(seq![s[0]], p);
        lemma_chars_width_push(Seq::<char>::empty(), s[0]);
        assert(Seq::<char>::empty().push(s[0]) =~= seq![s[0]]);
        assert(seq![s[0]] + p =~= s.take(p.len() as int + 1));
    } else if s.len() > 0 {
        assert(s.take(0) =~= Seq::<char>::empty());
    }
}

/// What `suffix_within` keeps is a suffix of the text and fits in the width.
pub proof fn law_suffix_within_fits(s: Seq<char>, w: nat)
    ensures
        suffix_within(s, w).len() <= s.len(),
        suffix_within(s, w) == s.skip(s.len() - suffix_within(s, w).len()),
        chars_width(suffix_within(s, w)) <= w,
    decreases s.len(),
{
    if s.len() > 0 && char_cols(s.last()) <= w {
        let rest = (w - char_cols(s.last())) as nat;
        law_suffix_within_fits(s.drop_last(), rest);
        let p = suffix_within(s.drop_last(), rest);
        lemma_chars_width_push(p, s.last());
        assert(p.push(s.last()) =~= s.skip(s.len() - (p.len() + 1)));
    } else {
        assert(s.skip(s.len() as int) =~= Seq::<char>::empty());
    }
}

/// A cut text fits its width: when the string width agrees with the sum of
/// character widths on the result and the ellipsis is one column wide, cutting
/// at the end never yields more than `max` columns.
pub proof fn law_truncated_end_fits(s: Seq<char>, max: nat)
    requires
        text_columns(truncated_end(s, max)) == chars_width(truncated_end(s, max)),
        char_cols(ellipsis()) == 1,
    ensures
        text_columns(truncated_end(s, max)) <= max,
{
    if text_columns(s) > max && max > 1 {
        let p = prefix_within(s, (max - 1) as nat);
        law_prefix_within_fits(s, (max - 1) as nat);
        lemma_chars_width_push(p, ellipsis());
    } else if text_columns(s) > max && max == 1 {
        lemma_chars_width_push(Seq::<char>::empty(), ellipsis());
        assert(Seq::<char>::empty().push(ellipsis()) =~= seq![ellipsis()]);
    }
}

/// The same bound for cutting at the start.
pub proof fn law_truncated_start_fits(s: Seq<char>, max: nat)
    requires
        text_columns(truncated_start(s, max)) == chars_width(truncated_start(s, max)),
        char_cols(ellipsis()) == 1,
    ensures
        text_columns(truncated_start(s, max)) <= max,
{
    lemma_chars_width_push(Seq::<char>::empty(), ellipsis());
    assert(Seq::<char>::empty().push(ellipsis()) =~= seq![ellipsis()]);
    if text_columns(s) > max && max > 1 {
        let p = suffix_within(s, (max - 1) as nat);
        law_suffix_within_fits(s, (max - 1) as nat);
        lemma_chars_width_concat(seq![ellipsis()], p);
    }
}

/// The same bound for cutting in the middle, when the prefix's string width also
/// agrees with its character widths.
pub proof fn law_truncated_middle_fits(s: Seq<char>, max: nat)
    requires
        text_columns(truncated_middle(s, max)) == chars_width(truncated_middle(s, max)),
        text_columns(prefix_within(s, (max - 1) as nat / 2)) == chars_width(
            prefix_within(s, (max - 1) as nat / 2),
        ),
        char_cols(ellipsis()) == 1,
    ensures
        text_columns(truncated_middle(s, max)) <= max,
{
    lemma_chars_width_push(Seq::<char>::empty(), ellipsis());
    assert(Seq::<char>::empty().push(ellipsis()) =~= seq![ellipsis()]);
    if text_columns(s) > max && max > 1 {
        let content = (max - 1) as nat;
        let p = prefix_within(s, content / 2);
        law_prefix_within_fits(s, content / 2);
        let rest = (content - text_columns(p)) as nat;
        let q = suffix_within(s, rest);
        law_suffix_within_fits(s, rest);
        lemma_chars_width_push(p, ellipsis());
        lemma_chars_width_concat(p.push(ellipsis()), q);
    }
}

} // verus!
