//! Configuration diagnostics.

use vstd::prelude::*;

use crate::text::{format_u64, push_char, push_str, string_of};

verus! {

/// Why a configuration could not be had. The reasons of a failed read or parse are
/// the messages of the underlying errors.
#[derive(Clone, Debug, PartialEq, Eq)]
pub enum ConfigError {
    Read { path: String, reason: String },
    Parse { path: String, reason: String },
    InvalidLayoutLines { lines: u8 },
}

impl ConfigError {
    /// The message for this error.
    pub fn message(&self) -> (r: String)
        ensures
            r@ == match self {
                ConfigError::Read { path, reason } => "failed to read config "@ + quoted(path@) + ": "@
                    + reason@,
                ConfigError::Parse { path, reason } => "failed to parse config "@ + quoted(path@)
                    + ": "@ + reason@,
                ConfigError::InvalidLayoutLines { lines } => "invalid config: layout.lines must be 1 or 2, got "@
                    + crate::text::decimal(*lines as nat),
            },
    {
        match self {
            ConfigError::Read { path, reason } => {
                let mut s = "failed to read config ".to_string();
                push_quoted(&mut s, path.as_str());
                push_str(&mut s, ": ");
                push_str(&mut s, reason.as_str());
                s
            },
            ConfigError::Parse { path, reason } => {
                let mut s = "failed to parse config ".to_string();
                push_quoted(&mut s, path.as_str());
                push_str(&mut s, ": ");
                push_str(&mut s, reason.as_str());
                s
            },
            ConfigError::InvalidLayoutLines { lines } => {
                let mut s = "invalid config: layout.lines must be 1 or 2, got ".to_string();
                let d = format_u64(*lines as u64);
                let t = string_of(d.as_slice());
                push_str(&mut s, t.as_str());
                s
            },
        }
    }
}

/// Something in a configuration that is accepted but probably a mistake.
#[derive(Clone, Debug, PartialEq, Eq, PartialOrd, Ord)]
pub enum ConfigWarning {
    UnknownKey { location: String },
    UnknownSegmentTable { segment: String },
    UnknownLayoutSegment { location: String, segment: String },
    InvalidColor { location: String, color: String },
}

pub enum ConfigWarningView {
    UnknownKey { location: Seq<char> },
    UnknownSegmentTable { segment: Seq<char> },
    UnknownLayoutSegment { location: Seq<char>, segment: Seq<char> },
    InvalidColor { location: Seq<char>, color: Seq<char> },
}

impl View for ConfigWarning {
    type V = ConfigWarningView;

    open spec fn view(&self) -> ConfigWarningView {
        match self {
            ConfigWarning::UnknownKey { location } => ConfigWarningView::UnknownKey { location: location@ },
            ConfigWarning::UnknownSegmentTable { segment } => ConfigWarningView::UnknownSegmentTable { segment: segment@ },
            ConfigWarning::UnknownLayoutSegment { location, segment } => ConfigWarningView::UnknownLayoutSegment {
                location: location@,
                segment: segment@,
            },
            ConfigWarning::InvalidColor { location, color } => ConfigWarningView::InvalidColor {
                location: location@,
                color: color@,
            },
        }
    }
}

pub open spec fn quoted(s: Seq<char>) -> Seq<char> {
    seq!['`'] + s + seq!['`']
}

/// The message a warning is shown with.
pub open spec fn warning_message(w: ConfigWarningView) -> Seq<char> {
    match w {
        ConfigWarningView::UnknownKey { location } => "unknown config key "@ + quoted(location),
        ConfigWarningView::UnknownSegmentTable { segment } => "unknown segment table "@ + quoted("segments."@ + segment),
        ConfigWarningView::UnknownLayoutSegment { location, segment } => "unknown segment "@ + quoted(segment) + " in "@
            + quoted(location),
        ConfigWarningView::InvalidColor { location, color } => "invalid color "@ + quoted(color) + " in "@ + quoted(location),
    }
}

pub fn push_quoted(s: &mut String, t: &str)
    ensures
        final(s)@ == old(s)@ + quoted(t@),
{
    push_char(s, '`');
    push_str(s, t);
    push_char(s, '`');
    assert(s@ =~= old(s)@ + quoted(t@));
}

impl ConfigWarning {
    /// The message this warning is shown with.
    pub fn message(&self) -> (r: String)
        ensures
            r@ == warning_message(self@),
    {
        match self {
            ConfigWarning::UnknownKey { location } => {
                let mut s = "unknown config key ".to_string();
                push_quoted(&mut s, location.as_str());
                s
            },
            ConfigWarning::UnknownSegmentTable { segment } => {
                let mut s = "unknown segment table ".to_string();
                let mut t = "segments.".to_string();
                push_str(&mut t, segment.as_str());
                push_quoted(&mut s, t.as_str());
                s
            },
            ConfigWarning::UnknownLayoutSegment { location, segment } => {
                let mut s = "unknown segment ".to_string();
                push_quoted(&mut s, segment.as_str());
                push_str(&mut s, " in ");
                push_quoted(&mut s, location.as_str());
                s
            },
            ConfigWarning::InvalidColor { location, color } => {
                let mut s = "invalid color ".to_string();
                push_quoted(&mut s, color.as_str());
                push_str(&mut s, " in ");
                push_quoted(&mut s, location.as_str());
                s
            },
        }
    }
}

} // verus!
