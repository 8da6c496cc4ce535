//! SSH context segment.

use vstd::prelude::*;

use super::user_host::{user_at_host, user_at_host_segment};
use super::{SegmentContent, SegmentContentView, SyncSegment};
use crate::config::{SegmentConfig, SegmentConfigView};
use crate::state::{PromptState, PromptStateView};

verus! {

/// The user: the one the shell sent, else the renderer's `USER`, else `unknown`.
pub open spec fn ssh_user(state: PromptStateView) -> Seq<char> {
    match state.env.user {
        Some(u) => u,
        None => match state.env.process.user {
            Some(u) => u,
            None => "unknown"@,
        },
    }
}

/// The host: the one the shell sent, else `HOST`, else `HOSTNAME`, else `host`.
pub open spec fn ssh_host(state: PromptStateView) -> Seq<char> {
    match state.env.host {
        Some(h) => h,
        None => match state.env.process.host {
            Some(h) => h,
            None => match state.env.process.hostname {
                Some(h) => h,
                None => "host"@,
            },
        },
    }
}

/// `user@host` when the session runs over SSH; nothing otherwise.
pub open spec fn ssh_content(state: PromptStateView, config: SegmentConfigView) -> Option<
    SegmentContentView,
> {
    if !state.env.process.ssh_connection {
        None
    } else {
        Some(user_at_host("ssh"@, ssh_user(state), ssh_host(state), config))
    }
}

pub struct SshSegment;

impl SyncSegment for SshSegment {
    fn id(&self) -> &'static str {
        "ssh"
    }

    fn render(&self, state: &PromptState, config: &SegmentConfig) -> (r: Option<SegmentContent>)
        ensures
            super::content_opt(r) == ssh_content(state@, config@),
    {
        if !state.env.process.ssh_connection {
            return None;
        }
        let p = &state.env.process;
        let user: &str = match &state.env.user {
            Some(u) => u.as_str(),
            None => match &p.user {
                Some(u) => u.as_str(),
                None => "unknown",
            },
        };
        let host: &str = match &state.env.host {
            Some(h) => h.as_str(),
            None => match &p.host {
                Some(h) => h.as_str(),
                None => match &p.hostname {
                    Some(h) => h.as_str(),
                    None => "host",
                },
            },
        };
        Some(user_at_host_segment("ssh", user, host, config))
    }
}

} // verus!
