//! Nix shell segment.

use vstd::prelude::*;

use crate::config::{SegmentConfig, SegmentConfigView};
use crate::segments::{
    content_opt, icon_label, label_with_icon, plain_content, style_or, SegmentContent,
    SegmentContentView, Style, StyleView, SyncSegment,
};
use crate::state::{PromptEnv, PromptEnvView, PromptState};
use crate::text::{copy_str, push_char, push_str, str_eq};

verus! {

pub open spec fn nix_icon() -> Seq<char> {
    seq!['\u{f313}']
}

/// The Nix shell kind and, when known, its name in parentheses.
pub open spec fn nix_label(kind: Seq<char>, name: Option<Seq<char>>) -> Seq<char> {
    match name {
        Some(n) => kind + " ("@ + n + seq![')'],
        None => kind,
    }
}

/// The Nix shell segment: shown inside a `pure` or `impure` shell only.
pub open spec fn nix_shell_content(env: PromptEnvView, config: SegmentConfigView) -> Option<SegmentContentView> {
    match env.in_nix_shell {
        Some(kind) => if kind == "pure"@ || kind == "impure"@ {
            Some(
                plain_content(
                    "nix_shell"@,
                    icon_label(nix_label(kind, env.nix_shell_name), config.icon, nix_icon()),
                    style_or(config.style, StyleView { fg: Some("blue"@), bg: None, bold: true }),
                ),
            )
        } else {
            None
        },
        None => None,
    }
}

/// The Nix shell segment for an environment.
pub fn render_nix_shell(env: &PromptEnv, config: &SegmentConfig) -> (r: Option<SegmentContent>)
    ensures
        content_opt(r) == nix_shell_content(env@, config@),
{
    let kind = match &env.in_nix_shell {
        Some(k) => k,
        None => return None,
    };
    if !str_eq(kind.as_str(), "pure") && !str_eq(kind.as_str(), "impure") {
        return None;
    }
    let mut label = copy_str(kind.as_str());
    if let Some(name) = &env.nix_shell_name {
        push_str(&mut label, " (");
        push_str(&mut label, name.as_str());
        push_char(&mut label, ')');
        assert(label@ =~= kind@ + " ("@ + name@ + seq![')']);
    }
    assert(label@ == nix_label(kind@, env@.nix_shell_name));
    let mut icon = String::new();
    push_char(&mut icon, '\u{f313}');
    assert(icon@ =~= nix_icon());
    let text = label_with_icon(label.as_str(), config, icon.as_str());
    let style = crate::segments::style_or_default(config, Style::fg_named("blue", true));
    Some(SegmentContent::new("nix_shell", text.as_str(), style))
}

pub struct NixShellSegment;

impl SyncSegment for NixShellSegment {
    fn id(&self) -> &'static str {
        "nix_shell"
    }

    fn render(&self, state: &PromptState, config: &SegmentConfig) -> (r: Option<SegmentContent>)
        ensures
            content_opt(r) == nix_shell_content(state@.env, config@),
    {
        render_nix_shell(&state.env, config)
    }
}

} // verus!
