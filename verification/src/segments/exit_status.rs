//! Last command exit status segment.

use vstd::prelude::*;

use super::{plain_content, style_or, SegmentContent, SegmentContentView, Style, StyleView, SyncSegment};
use crate::config::{SegmentConfig, SegmentConfigView};
use crate::state::{PromptState, PromptStateView};
use crate::text::{format_i32, push_char, signed_decimal};

verus! {

/// The exit status style: the configured one when it sets anything, else bold red.
pub open spec fn exit_status_style_of(config: SegmentConfigView) -> StyleView {
    style_or(config.style, StyleView { fg: Some("red"@), bg: None, bold: true })
}

/// A failed status in brackets; nothing after success.
pub open spec fn exit_status_content(state: PromptStateView, config: SegmentConfigView) -> Option<
    SegmentContentView,
> {
    if state.exit_status == 0 {
        None
    } else {
        Some(
            plain_content(
                "exit_status"@,
                seq!['['] + signed_decimal(state.exit_status as int) + seq![']'],
                exit_status_style_of(config),
            ),
        )
    }
}

pub fn exit_status_style(config: &SegmentConfig) -> (r: Style)
    ensures
        r@ == exit_status_style_of(config@),
{
    super::style_or_default(config, Style::fg_named("red", true))
}

pub struct ExitStatusSegment;

impl SyncSegment for ExitStatusSegment {
    fn id(&self) -> &'static str {
        "exit_status"
    }

    fn render(&self, state: &PromptState, config: &SegmentConfig) -> (r: Option<SegmentContent>)
        ensures
            super::content_opt(r) == exit_status_content(state@, config@),
    {
        if state.exit_status == 0 {
            return None;
        }
        let digits = format_i32(state.exit_status);
        let mut text = String::new();
        push_char(&mut text, '[');
        let mut i: usize = 0;
        while i < digits.len()
            invariant
                i <= digits.len(),
                text@ == seq!['['] + digits@.take(i as int),
            decreases digits.len() - i,
        {
            push_char(&mut text, digits[i]);
            i += 1;
            assert(text@ =~= seq!['['] + digits@.take(i as int));
        }
        push_char(&mut text, ']');
        assert(digits@.take(i as int) =~= digits@);
        assert(text@ =~= seq!['['] + signed_decimal(state.exit_status as int) + seq![']']);
        Some(SegmentContent::new("exit_status", text.as_str(), exit_status_style(config)))
    }
}

} // verus!
