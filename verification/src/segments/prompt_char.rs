//! Prompt character segment.

use vstd::prelude::*;

use super::{plain_content, plain_style, sets_style, style_of, SegmentContent, SegmentContentView, Style, StyleView, SyncSegment};
use crate::config::{lookup_pair, lookup_pairs, SegmentConfig, SegmentConfigView};
use crate::state::{Keymap, PromptState, PromptStateView};
use crate::text::{copy_str, push_char};

verus! {

/// The first of the options that is present.
pub open spec fn or_else(a: Option<Seq<char>>, b: Option<Seq<char>>) -> Option<Seq<char>> {
    match a {
        Some(x) => Some(x),
        None => b,
    }
}

/// The prompt symbol: the configured character for the keymap, else the
/// configured character, else `❯` (`❮` in vi command mode).
pub open spec fn prompt_symbol_of(keymap: Keymap, config: SegmentConfigView) -> Seq<char> {
    match keymap {
        Keymap::Main => match or_else(lookup_pairs(config.characters, "main"@), config.character) {
            Some(s) => s,
            None => seq!['\u{276f}'],
        },
        Keymap::ViCommand => match or_else(
            or_else(lookup_pairs(config.characters, "vi_command"@), lookup_pairs(config.characters, "vicmd"@)),
            config.character,
        ) {
            Some(s) => s,
            None => seq!['\u{276e}'],
        },
    }
}

/// The prompt style: the error style after a failure when it is set, else the
/// configured style when set, else bold red after a failure, else plain.
pub open spec fn prompt_style_of(state: PromptStateView, config: SegmentConfigView) -> StyleView {
    if state.exit_status != 0 && sets_style(config.error_style) {
        style_of(config.error_style)
    } else if sets_style(config.style) {
        style_of(config.style)
    } else if state.exit_status != 0 {
        StyleView { fg: Some("red"@), bg: None, bold: true }
    } else {
        plain_style()
    }
}

/// The prompt symbol followed by a space.
pub open spec fn prompt_char_content(state: PromptStateView, config: SegmentConfigView) -> SegmentContentView {
    plain_content(
        "prompt_char"@,
        prompt_symbol_of(state.keymap, config) + seq![' '],
        prompt_style_of(state, config),
    )
}

fn opt_ref_view(o: Option<&String>) -> (r: Option<String>)
    ensures
        crate::config::opt_view(r) == crate::config::opt_view(
            match o {
                Some(v) => Some(*v),
                None => None,
            },
        ),
{
    match o {
        Some(v) => Some(copy_str(v.as_str())),
        None => None,
    }
}

/// The prompt symbol for a keymap.
pub fn prompt_symbol(keymap: Keymap, config: &SegmentConfig) -> (r: String)
    ensures
        r@ == prompt_symbol_of(keymap, config@),
{
    let found = match keymap {
        Keymap::Main => opt_ref_view(lookup_pair(&config.characters, "main")),
        Keymap::ViCommand => match opt_ref_view(lookup_pair(&config.characters, "vi_command")) {
            Some(c) => Some(c),
            None => opt_ref_view(lookup_pair(&config.characters, "vicmd")),
        },
    };
    let chosen = match found {
        Some(c) => Some(c),
        None => crate::config::copy_opt(&config.character),
    };
    match chosen {
        Some(c) => c,
        None => {
            let mut s = String::new();
            match keymap {
                Keymap::Main => push_char(&mut s, '\u{276f}'),
                Keymap::ViCommand => push_char(&mut s, '\u{276e}'),
            }
            assert(s@ =~= seq!['\u{276f}'] || s@ =~= seq!['\u{276e}']);
            s
        },
    }
}

/// The prompt style for the last exit status.
pub fn prompt_style(state: &PromptState, config: &SegmentConfig) -> (r: Style)
    ensures
        r@ == prompt_style_of(state@, config@),
{
    if state.exit_status != 0 && super::has_style(&config.error_style) {
        return Style::from_config(&config.error_style);
    }
    if super::has_style(&config.style) {
        return Style::from_config(&config.style);
    }
    if state.exit_status != 0 {
        return Style::fg_named("red", true);
    }
    Style::plain()
}

pub struct PromptCharSegment;

impl SyncSegment for PromptCharSegment {
    fn id(&self) -> &'static str {
        "prompt_char"
    }

    fn render(&self, state: &PromptState, config: &SegmentConfig) -> (r: Option<SegmentContent>)
        ensures
            super::content_opt(r) == Some(prompt_char_content(state@, config@)),
    {
        let style = prompt_style(state, config);
        let mut text = prompt_symbol(state.keymap, config);
        let ghost sym = text@;
        push_char(&mut text, ' ');
        assert(text@ =~= sym + seq![' ']);
        Some(SegmentContent::new("prompt_char", text.as_str(), style))
    }
}

} // verus!
