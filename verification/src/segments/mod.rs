//! Segment content model and the synchronous segments.

pub mod asynchronous;
pub mod dir;
pub mod duration;
pub mod exit_status;
pub mod git;
pub mod prompt_char;
pub mod runtime;
pub mod ssh;
pub mod time;
pub mod user_host;
pub mod workspace;

use vstd::prelude::*;

use crate::config::{opt_view, SegmentConfig, SegmentConfigView, StyleConfig, StyleConfigView};
use crate::state::{PromptState, PromptStateView};
use crate::text::{chars_of, copy_str, is_cc, is_control, push_char, push_str, str_eq};

verus! {

/// A segment that renders from the prompt state alone.
pub trait SyncSegment {
    fn id(&self) -> &'static str;

    fn render(&self, state: &PromptState, config: &SegmentConfig) -> Option<SegmentContent>;
}

/// The rendered text of one segment, with its style.
///
/// When `parts` is non-empty and their texts concatenate to `text`, each part is
/// drawn with its own style; otherwise `text` is drawn with `style`.
#[derive(Clone, Debug, PartialEq, Eq)]
pub struct SegmentContent {
    pub id: String,
    pub text: String,
    pub style: Style,
    pub parts: Vec<SegmentPart>,
}

/// A separately styled piece of a segment.
#[derive(Clone, Debug, PartialEq, Eq)]
pub struct SegmentPart {
    pub text: String,
    pub style: Style,
}

/// Foreground and background colours and boldness.
#[derive(Clone, Debug, Default, PartialEq, Eq)]
pub struct Style {
    pub fg: Option<String>,
    pub bg: Option<String>,
    pub bold: bool,
}

pub struct StyleView {
    pub fg: Option<Seq<char>>,
    pub bg: Option<Seq<char>>,
    pub bold: bool,
}

pub struct SegmentPartView {
    pub text: Seq<char>,
    pub style: StyleView,
}

pub struct SegmentContentView {
    pub id: Seq<char>,
    pub text: Seq<char>,
    pub style: StyleView,
    pub parts: Seq<SegmentPartView>,
}

impl View for Style {
    type V = StyleView;

    open spec fn view(&self) -> StyleView {
        StyleView { fg: opt_view(self.fg), bg: opt_view(self.bg), bold: self.bold }
    }
}

impl View for SegmentPart {
    type V = SegmentPartView;

    open spec fn view(&self) -> SegmentPartView {
        SegmentPartView { text: self.text@, style: self.style@ }
    }
}

pub open spec fn parts_view(parts: Seq<SegmentPart>) -> Seq<SegmentPartView> {
    Seq::new(parts.len(), |i: int| parts[i]@)
}

impl View for SegmentContent {
    type V = SegmentContentView;

    open spec fn view(&self) -> SegmentContentView {
        SegmentContentView {
            id: self.id@,
            text: self.text@,
            style: self.style@,
            parts: parts_view(self.parts@),
        }
    }
}

/// The views of a list of segments.
pub open spec fn contents_view(v: Seq<SegmentContent>) -> Seq<SegmentContentView> {
    Seq::new(v.len(), |i: int| v[i]@)
}

/// The view of an optional segment.
pub open spec fn content_opt(o: Option<SegmentContent>) -> Option<SegmentContentView> {
    match o {
        Some(c) => Some(c@),
        None => None,
    }
}

/// The style a style configuration describes.
pub open spec fn style_of(c: StyleConfigView) -> StyleView {
    StyleView { fg: c.fg, bg: c.bg, bold: c.bold }
}

pub open spec fn plain_style() -> StyleView {
    StyleView { fg: None, bg: None, bold: false }
}

/// Whether a style configuration sets anything.
pub open spec fn sets_style(c: StyleConfigView) -> bool {
    c.fg is Some || c.bg is Some || c.bold
}

/// The configured style when it sets anything, else `default`.
pub open spec fn style_or(c: StyleConfigView, default: StyleView) -> StyleView {
    if sets_style(c) {
        style_of(c)
    } else {
        default
    }
}

/// `s` without its control characters.
pub open spec fn strip_cc(s: Seq<char>) -> Seq<char> {
    s.filter(|c: char| !is_cc(c))
}

/// The texts of the parts, one after another.
pub open spec fn parts_text(parts: Seq<SegmentPartView>) -> Seq<char>
    decreases parts.len(),
{
    if parts.len() == 0 {
        Seq::empty()
    } else {
        parts_text(parts.drop_last()) + parts.last().text
    }
}

/// Whether the parts, rather than the text, say how the segment is drawn.
pub open spec fn parts_in_use(c: SegmentContentView) -> bool {
    c.parts.len() > 0 && c.text == parts_text(c.parts)
}

/// A segment with one text and one style.
pub open spec fn plain_content(id: Seq<char>, text: Seq<char>, style: StyleView) -> SegmentContentView {
    SegmentContentView { id, text: strip_cc(text), style, parts: Seq::empty() }
}

impl Style {
    /// A style with nothing set.
    pub fn plain() -> (r: Style)
        ensures
            r@ == plain_style(),
    {
        Style { fg: None, bg: None, bold: false }
    }

    /// A style with the given foreground colour and boldness.
    pub fn fg_named(color: &str, bold: bool) -> (r: Style)
        ensures
            r@ == (StyleView { fg: Some(color@), bg: None, bold }),
    {
        Style { fg: Some(copy_str(color)), bg: None, bold }
    }

    /// A copy of this style.
    pub fn copy(&self) -> (r: Style)
        ensures
            r@ == self@,
    {
        Style { fg: crate::config::copy_opt(&self.fg), bg: crate::config::copy_opt(&self.bg), bold: self.bold }
    }

    /// The style a style configuration describes.
    pub fn from_config(config: &StyleConfig) -> (r: Style)
        ensures
            r@ == style_of(config@),
    {
        Style {
            fg: crate::config::copy_opt(&config.fg),
            bg: crate::config::copy_opt(&config.bg),
            bold: config.bold,
        }
    }
}

impl<'a> From<&'a StyleConfig> for Style {
    fn from(config: &'a StyleConfig) -> (r: Style) {
        Style { fg: config.fg.clone(), bg: config.bg.clone(), bold: config.bold }
    }
}

impl<'a> vstd::std_specs::convert::FromSpecImpl<&'a StyleConfig> for Style {
    open spec fn obeys_from_spec() -> bool {
        true
    }

    open spec fn from_spec(config: &'a StyleConfig) -> Style {
        Style { fg: config.fg, bg: config.bg, bold: config.bold }
    }
}

/// Whether a style configuration sets anything.
pub fn has_style(config: &StyleConfig) -> (r: bool)
    ensures
        r == sets_style(config@),
{
    config.fg.is_some() || config.bg.is_some() || config.bold
}

/// The configured style when it sets anything, else `default`.
pub fn style_or_default(config: &SegmentConfig, default: Style) -> (r: Style)
    ensures
        r@ == style_or(config@.style, default@),
{
    if has_style(&config.style) {
        Style::from_config(&config.style)
    } else {
        default
    }
}

/// `input` without its control characters.
pub fn strip_control_chars(input: &str) -> (r: String)
    ensures
        r@ == strip_cc(input@),
{
    let chars = chars_of(input);
    let mut out = String::new();
    let mut i: usize = 0;
    while i < chars.len()
        invariant
            i <= chars.len(),
            chars@ == input@,
            out@ == strip_cc(input@.take(i as int)),
        decreases chars.len() - i,
    {
        let c = chars[i];
        proof {
            assert(input@.take(i + 1) =~= input@.take(i as int).push(c));
            reveal_with_fuel(Seq::filter, 2);
            assert(input@.take(i + 1).drop_last() =~= input@.take(i as int));
        }
        if !is_control(c) {
            push_char(&mut out, c);
        }
        i += 1;
    }
    assert(input@.take(i as int) =~= input@);
    out
}

impl SegmentContent {
    /// A segment drawn in one style; control characters are dropped from the text.
    pub fn new(id: &str, text: &str, style: Style) -> (r: SegmentContent)
        ensures
            r@ == plain_content(id@, text@, style@),
    {
        let r = SegmentContent {
            id: copy_str(id),
            text: strip_control_chars(text),
            style,
            parts: Vec::new(),
        };
        assert(parts_view(r.parts@) =~= Seq::empty());
        r
    }

    /// A segment drawn part by part; its text is the parts' texts in order.
    pub fn from_parts(id: &str, parts: Vec<SegmentPart>) -> (r: SegmentContent)
        ensures
            r@ == (SegmentContentView {
                id: id@,
                text: parts_text(parts_view(parts@)),
                style: plain_style(),
                parts: parts_view(parts@),
            }),
    {
        let mut text = String::new();
        let mut i: usize = 0;
        while i < parts.len()
            invariant
                i <= parts.len(),
                text@ == parts_text(parts_view(parts@).take(i as int)),
            decreases parts.len() - i,
        {
            push_str(&mut text, parts[i].text.as_str());
            proof {
                let pv = parts_view(parts@);
                assert(pv.take(i + 1).drop_last() =~= pv.take(i as int));
            }
            i += 1;
        }
        assert(parts_view(parts@).take(i as int) =~= parts_view(parts@));
        SegmentContent { id: copy_str(id), text, style: Style::plain(), parts }
    }

    /// Whether the parts, rather than the text, say how the segment is drawn.
    pub fn uses_parts(&self) -> (r: bool)
        ensures
            r == parts_in_use(self@),
    {
        if self.parts.len() == 0 {
            return false;
        }
        let mut joined = String::new();
        let mut i: usize = 0;
        while i < self.parts.len()
            invariant
                i <= self.parts.len(),
                joined@ == parts_text(parts_view(self.parts@).take(i as int)),
            decreases self.parts.len() - i,
        {
            push_str(&mut joined, self.parts[i].text.as_str());
            proof {
                let pv = parts_view(self.parts@);
                assert(pv.take(i + 1).drop_last() =~= pv.take(i as int));
            }
            i += 1;
        }
        assert(parts_view(self.parts@).take(i as int) =~= parts_view(self.parts@));
        str_eq(self.text.as_str(), joined.as_str())
    }

    /// A copy of this segment.
    pub fn copy(&self) -> (r: SegmentContent)
        ensures
            r@ == self@,
    {
        let mut parts: Vec<SegmentPart> = Vec::new();
        let mut i: usize = 0;
        while i < self.parts.len()
            invariant
                i <= self.parts.len(),
                parts_view(parts@) == parts_view(self.parts@).take(i as int),
            decreases self.parts.len() - i,
        {
            let p = SegmentPart { text: copy_str(self.parts[i].text.as_str()), style: self.parts[i].style.copy() };
            let ghost before = parts@;
            parts.push(p);
            assert(parts_view(parts@) =~= parts_view(before).push(p@));
            i += 1;
            assert(parts_view(parts@) =~= parts_view(self.parts@).take(i as int));
        }
        assert(parts_view(self.parts@).take(i as int) =~= parts_view(self.parts@));
        SegmentContent {
            id: copy_str(self.id.as_str()),
            text: copy_str(self.text.as_str()),
            style: self.style.copy(),
            parts,
        }
    }
}

impl SegmentPart {
    /// A piece of a segment; control characters are dropped from the text.
    pub fn new(text: &str, style: Style) -> (r: SegmentPart)
        ensures
            r@ == (SegmentPartView { text: strip_cc(text@), style: style@ }),
    {
        SegmentPart { text: strip_control_chars(text), style }
    }
}

/// The label of an icon-prefixed segment: the text alone when the icon is
/// configured empty, else the configured (or default) icon, a space and the text.
pub open spec fn icon_label(text: Seq<char>, icon: Option<Seq<char>>, default_icon: Seq<char>) -> Seq<char> {
    match icon {
        Some(i) => if i.len() == 0 {
            text
        } else {
            i + " "@ + text
        },
        None => default_icon + " "@ + text,
    }
}

/// `text` with the configured icon, or `default_icon`, in front of it.
pub fn label_with_icon(text: &str, config: &SegmentConfig, default_icon: &str) -> (r: String)
    ensures
        r@ == icon_label(text@, config@.icon, default_icon@),
{
    match &config.icon {
        Some(icon) => {
            if icon.unicode_len() == 0 {
                copy_str(text)
            } else {
                let mut r = copy_str(icon.as_str());
                push_str(&mut r, " ");
                push_str(&mut r, text);
                r
            }
        },
        None => {
            let mut r = copy_str(default_icon);
            push_str(&mut r, " ");
            push_str(&mut r, text);
            r
        },
    }
}

/// What a segment that renders from the prompt state alone shows; `None` for
/// other ids.
pub open spec fn sync_content(id: Seq<char>, state: PromptStateView, config: SegmentConfigView) -> Option<SegmentContentView> {
    if id == "dir"@ {
        Some(dir::dir_content(state, config))
    } else if id == "duration"@ {
        duration::duration_content(state, config)
    } else if id == "exit_status"@ {
        exit_status::exit_status_content(state, config)
    } else if id == "aws"@ {
        runtime::aws::aws_content(state.env, config)
    } else if id == "nix_shell"@ {
        runtime::nix_shell::nix_shell_content(state.env, config)
    } else if id == "prompt_char"@ {
        Some(prompt_char::prompt_char_content(state, config))
    } else if id == "ssh"@ {
        ssh::ssh_content(state, config)
    } else if id == "time"@ {
        time::time_content(state, config)
    } else if id == "user_host"@ {
        user_host::user_host_content(state, config)
    } else {
        None
    }
}

/// Renders the segment `id` from the prompt state, when it is one that needs
/// nothing else.
pub fn render_sync_segment(id: &str, state: &PromptState, config: &SegmentConfig) -> (r: Option<SegmentContent>)
    ensures
        content_opt(r) == sync_content(id@, state@, config@),
{
    if str_eq(id, "dir") {
        dir::DirSegment.render(state, config)
    } else if str_eq(id, "duration") {
        duration::DurationSegment.render(state, config)
    } else if str_eq(id, "exit_status") {
        exit_status::ExitStatusSegment.render(state, config)
    } else if str_eq(id, "aws") {
        runtime::render_aws(&state.env, config)
    } else if str_eq(id, "nix_shell") {
        runtime::render_nix_shell(&state.env, config)
    } else if str_eq(id, "prompt_char") {
        prompt_char::PromptCharSegment.render(state, config)
    } else if str_eq(id, "ssh") {
        ssh::SshSegment.render(state, config)
    } else if str_eq(id, "time") {
        time::TimeSegment.render(state, config)
    } else if str_eq(id, "user_host") {
        user_host::UserHostSegment.render(state, config)
    } else {
        None
    }
}

} // verus!
