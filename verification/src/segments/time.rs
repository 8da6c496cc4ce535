//! Prompt render time segment.

use vstd::prelude::*;

use super::{plain_content, style_of, SegmentContent, SegmentContentView, Style, SyncSegment};
use crate::config::{SegmentConfig, SegmentConfigView};
use crate::state::{PromptState, PromptStateView};

verus! {

/// The time the shell sent, in the configured style; nothing without one.
pub open spec fn time_content(state: PromptStateView, config: SegmentConfigView) -> Option<
    SegmentContentView,
> {
    match state.time {
        Some(t) => Some(plain_content("time"@, t, style_of(config.style))),
        None => None,
    }
}

pub struct TimeSegment;

impl SyncSegment for TimeSegment {
    fn id(&self) -> &'static str {
        "time"
    }

    fn render(&self, state: &PromptState, config: &SegmentConfig) -> (r: Option<SegmentContent>)
        ensures
            super::content_opt(r) == time_content(state@, config@),
    {
        match &state.time {
            Some(t) => Some(SegmentContent::new("time", t.as_str(), Style::from_config(&config.style))),
            None => None,
        }
    }
}

} // verus!
