//! Command duration segment.

use vstd::prelude::*;

use super::{
    parts_text, plain_style, sets_style, strip_cc, style_of, SegmentContent, SegmentContentView,
    SegmentPart, SegmentPartView, Style, StyleView, SyncSegment,
};
use crate::config::{SegmentConfig, SegmentConfigView};
use crate::state::{PromptState, PromptStateView};
use crate::text::{copy_str, decimal, format_u64, push_char, push_str, string_of};

verus! {

/// A duration as people read it: milliseconds below a second, else seconds
/// rounded to a tenth, without a trailing `.0`.
pub open spec fn duration_value(ms: u64) -> Seq<char> {
    if ms < 1000 {
        decimal(ms as nat) + seq!['m', 's']
    } else {
        let tenths = ((ms as nat) + 50) / 100;
        if tenths % 10 == 0 {
            decimal(tenths / 10) + seq!['s']
        } else {
            decimal(tenths / 10) + seq!['.'] + decimal(tenths % 10) + seq!['s']
        }
    }
}

/// The parts of a duration: the prefix (unless empty) in the prefix style, or
/// the value style when no prefix style is set, then the value.
pub open spec fn duration_parts_of(prefix: Seq<char>, value: Seq<char>, config: SegmentConfigView) -> Seq<SegmentPartView> {
    let value_style = style_of(config.style);
    let prefix_style = if sets_style(config.prefix_style) {
        style_of(config.prefix_style)
    } else {
        value_style
    };
    (if prefix.len() > 0 {
        seq![SegmentPartView { text: strip_cc(prefix), style: prefix_style }]
    } else {
        Seq::empty()
    }) + seq![SegmentPartView { text: strip_cc(value), style: value_style }]
}

/// The duration of the last command, when it took at least `min_ms` (2s by default).
pub open spec fn duration_content(state: PromptStateView, config: SegmentConfigView) -> Option<
    SegmentContentView,
> {
    match state.duration_ms {
        None => None,
        Some(ms) => {
            let min = match config.min_ms {
                Some(m) => m,
                None => 2000,
            };
            if ms < min {
                None
            } else {
                let prefix = match config.prefix {
                    Some(p) => p,
                    None => "+"@,
                };
                let parts = duration_parts_of(prefix, duration_value(ms), config);
                Some(SegmentContentView { id: "duration"@, text: parts_text(parts), style: plain_style(), parts })
            }
        },
    }
}

fn push_chars(s: &mut String, v: &Vec<char>)
    ensures
        final(s)@ == old(s)@ + v@,
{
    let t = string_of(v.as_slice());
    push_str(s, t.as_str());
}

/// A duration as people read it.
pub fn format_duration_value(duration_ms: u64) -> (r: String)
    ensures
        r@ == duration_value(duration_ms),
{
    let mut out = String::new();
    if duration_ms < 1000 {
        push_chars(&mut out, &format_u64(duration_ms));
        push_char(&mut out, 'm');
        push_char(&mut out, 's');
        assert(out@ =~= decimal(duration_ms as nat) + seq!['m', 's']);
        return out;
    }
    let tenths: u64 = ((duration_ms as u128 + 50) / 100) as u64;
    assert(tenths == ((duration_ms as nat) + 50) / 100);
    push_chars(&mut out, &format_u64(tenths / 10));
    if tenths % 10 == 0 {
        push_char(&mut out, 's');
        assert(out@ =~= decimal(tenths as nat / 10) + seq!['s']);
    } else {
        let ghost head = out@;
        push_char(&mut out, '.');
        push_chars(&mut out, &format_u64(tenths % 10));
        push_char(&mut out, 's');
        assert(out@ =~= decimal(tenths as nat / 10) + seq!['.'] + decimal(tenths as nat % 10) + seq!['s']);
    }
    out
}

/// A duration with a `+` in front.
pub fn format_duration(duration_ms: u64) -> (r: String)
    ensures
        r@ == seq!['+'] + duration_value(duration_ms),
{
    let mut out = String::new();
    push_char(&mut out, '+');
    let v = format_duration_value(duration_ms);
    push_str(&mut out, v.as_str());
    assert(out@ =~= seq!['+'] + duration_value(duration_ms));
    out
}

/// The parts of a duration.
pub fn duration_parts(prefix: &str, value: &str, config: &SegmentConfig) -> (r: Vec<SegmentPart>)
    ensures
        super::parts_view(r@) == duration_parts_of(prefix@, value@, config@),
{
    let value_style = Style::from_config(&config.style);
    let prefix_style = if super::has_style(&config.prefix_style) {
        Style::from_config(&config.prefix_style)
    } else {
        value_style.copy()
    };
    let mut parts: Vec<SegmentPart> = Vec::new();
    if prefix.unicode_len() != 0 {
        parts.push(SegmentPart::new(prefix, prefix_style));
    }
    let ghost before = super::parts_view(parts@);
    parts.push(SegmentPart::new(value, value_style));
    assert(super::parts_view(parts@) =~= duration_parts_of(prefix@, value@, config@));
    parts
}

pub struct DurationSegment;

impl SyncSegment for DurationSegment {
    fn id(&self) -> &'static str {
        "duration"
    }

    fn render(&self, state: &PromptState, config: &SegmentConfig) -> (r: Option<SegmentContent>)
        ensures
            super::content_opt(r) == duration_content(state@, config@),
    {
        let duration_ms = match state.duration_ms {
            Some(d) => d,
            None => return None,
        };
        let min_ms = match config.min_ms {
            Some(m) => m,
            None => 2000,
        };
        if duration_ms < min_ms {
            return None;
        }
        let prefix = match &config.prefix {
            Some(p) => copy_str(p.as_str()),
            None => "+".to_string(),
        };
        let value = format_duration_value(duration_ms);
        let parts = duration_parts(prefix.as_str(), value.as_str(), config);
        Some(SegmentContent::from_parts("duration", parts))
    }
}

} // verus!
