//! Local user and host context segment.

use vstd::prelude::*;

use super::{
    parts_text, plain_style, strip_cc, style_or, SegmentContent, SegmentContentView, SegmentPart,
    SegmentPartView, Style, StyleView, SyncSegment,
};
use crate::config::{SegmentConfig, SegmentConfigView};
use crate::state::{PromptState, PromptStateView};
use crate::text::{push_char, push_str};

verus! {

/// The user's style: the configured one when it sets anything, else green.
pub open spec fn user_style_of(config: SegmentConfigView) -> StyleView {
    style_or(config.style, StyleView { fg: Some("green"@), bg: None, bold: false })
}

/// `user` in the user style, then `@host` plain.
pub open spec fn user_at_host(id: Seq<char>, user: Seq<char>, host: Seq<char>, config: SegmentConfigView) -> SegmentContentView {
    let parts = seq![
        SegmentPartView { text: strip_cc(user), style: user_style_of(config) },
        SegmentPartView { text: strip_cc(seq!['@'] + host), style: plain_style() },
    ];
    SegmentContentView { id, text: parts_text(parts), style: plain_style(), parts }
}

/// The user and host the shell sent; nothing unless it sent both.
pub open spec fn user_host_content(state: PromptStateView, config: SegmentConfigView) -> Option<
    SegmentContentView,
> {
    match (state.env.user, state.env.host) {
        (Some(u), Some(h)) => Some(user_at_host("user_host"@, u, h, config)),
        _ => None,
    }
}

pub fn user_style(config: &SegmentConfig) -> (r: Style)
    ensures
        r@ == user_style_of(config@),
{
    super::style_or_default(config, Style::fg_named("green", false))
}

/// The two parts `user` and `@host`.
pub fn user_at_host_segment(id: &str, user: &str, host: &str, config: &SegmentConfig) -> (r: SegmentContent)
    ensures
        r@ == user_at_host(id@, user@, host@, config@),
{
    let mut at = String::new();
    push_char(&mut at, '@');
    push_str(&mut at, host);
    assert(at@ =~= seq!['@'] + host@);
    let parts = vec![SegmentPart::new(user, user_style(config)), SegmentPart::new(at.as_str(), Style::plain())];
    let r = SegmentContent::from_parts(id, parts);
    assert(super::parts_view(parts@) =~= seq![
        SegmentPartView { text: strip_cc(user@), style: user_style_of(config@) },
        SegmentPartView { text: strip_cc(seq!['@'] + host@), style: plain_style() },
    ]);
    r
}

pub struct UserHostSegment;

impl SyncSegment for UserHostSegment {
    fn id(&self) -> &'static str {
        "user_host"
    }

    fn render(&self, state: &PromptState, config: &SegmentConfig) -> (r: Option<SegmentContent>)
        ensures
            super::content_opt(r) == user_host_content(state@, config@),
    {
        match (&state.env.user, &state.env.host) {
            (Some(u), Some(h)) => Some(user_at_host_segment("user_host", u.as_str(), h.as_str(), config)),
            _ => None,
        }
    }
}

} // verus!
