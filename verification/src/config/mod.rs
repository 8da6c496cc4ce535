//! User configuration model and validation.
//!
//! The TOML text itself is read by the caller; this module holds what it denotes
//! and decides what is wrong with it.

pub mod error;
pub mod load;
pub mod warnings;

use vstd::prelude::*;

use crate::text::{copy_str, str_eq};

verus! {

pub const DEFAULT_INITIAL_WAIT_MS: u64 = 0;

pub const DEFAULT_MIN_LOADING_MS: u64 = 50;

/// The whole configuration.
#[derive(Clone, Debug, PartialEq, Eq)]
pub struct Config {
    pub async_config: AsyncConfig,
    pub layout: LayoutConfig,
    /// Segment tables in key order, each key once.
    pub segments: Vec<(String, SegmentConfig)>,
    /// Dotted locations of keys the schema does not know, in key order.
    pub unknown_keys: Vec<String>,
}

#[derive(Clone, Debug, Default, PartialEq, Eq)]
pub struct AsyncConfig {
    pub initial_wait_ms: Option<u64>,
    pub min_loading_ms: Option<u64>,
}

#[derive(Clone, Debug, PartialEq, Eq)]
pub struct LayoutConfig {
    pub lines: u8,
    pub separator: Option<String>,
    pub line1: LineConfig,
    pub line2: LineConfig,
}

#[derive(Clone, Debug, Default, PartialEq, Eq)]
pub struct LineConfig {
    pub left: Vec<String>,
    pub right: Vec<String>,
}

#[derive(Clone, Debug, Default, PartialEq, Eq)]
pub struct SegmentConfig {
    pub character: Option<String>,
    /// Per-keymap prompt characters, in key order, each key once.
    pub characters: Vec<(String, String)>,
    pub icon: Option<String>,
    /// Named indicator icons, in key order, each key once.
    pub icons: Vec<(String, String)>,
    pub loading: Option<String>,
    pub max_components: Option<usize>,
    pub min_ms: Option<u64>,
    pub min_loading_ms: Option<u64>,
    pub force_display: Option<bool>,
    pub format: Option<String>,
    pub prefix: Option<String>,
    pub separator: Option<String>,
    pub show_counts: Option<bool>,
    pub ttl_ms: Option<u64>,
    pub timeout_ms: Option<u64>,
    pub style: StyleConfig,
    pub error_style: StyleConfig,
    pub prefix_style: StyleConfig,
}

#[derive(Clone, Debug, Default, PartialEq, Eq)]
pub struct StyleConfig {
    pub fg: Option<String>,
    pub bg: Option<String>,
    pub bold: bool,
}

// ---------------------------------------------------------------------------
// Views
// ---------------------------------------------------------------------------

/// The characters of an optional string.
pub open spec fn opt_view(o: Option<String>) -> Option<Seq<char>> {
    match o {
        Some(s) => Some(s@),
        None => None,
    }
}

/// The characters of each string of a list.
pub open spec fn strings_view(v: Seq<String>) -> Seq<Seq<char>> {
    Seq::new(v.len(), |i: int| v[i]@)
}

/// The characters of each key and value of a list of pairs.
pub open spec fn pairs_view(v: Seq<(String, String)>) -> Seq<(Seq<char>, Seq<char>)> {
    Seq::new(v.len(), |i: int| (v[i].0@, v[i].1@))
}

pub struct StyleConfigView {
    pub fg: Option<Seq<char>>,
    pub bg: Option<Seq<char>>,
    pub bold: bool,
}

impl View for StyleConfig {
    type V = StyleConfigView;

    open spec fn view(&self) -> StyleConfigView {
        StyleConfigView { fg: opt_view(self.fg), bg: opt_view(self.bg), bold: self.bold }
    }
}

pub struct SegmentConfigView {
    pub character: Option<Seq<char>>,
    pub characters: Seq<(Seq<char>, Seq<char>)>,
    pub icon: Option<Seq<char>>,
    pub icons: Seq<(Seq<char>, Seq<char>)>,
    pub loading: Option<Seq<char>>,
    pub max_components: Option<usize>,
    pub min_ms: Option<u64>,
    pub min_loading_ms: Option<u64>,
    pub force_display: Option<bool>,
    pub format: Option<Seq<char>>,
    pub prefix: Option<Seq<char>>,
    pub separator: Option<Seq<char>>,
    pub show_counts: Option<bool>,
    pub ttl_ms: Option<u64>,
    pub timeout_ms: Option<u64>,
    pub style: StyleConfigView,
    pub error_style: StyleConfigView,
    pub prefix_style: StyleConfigView,
}

impl View for SegmentConfig {
    type V = SegmentConfigView;

    open spec fn view(&self) -> SegmentConfigView {
        SegmentConfigView {
            character: opt_view(self.character),
            characters: pairs_view(self.characters@),
            icon: opt_view(self.icon),
            icons: pairs_view(self.icons@),
            loading: opt_view(self.loading),
            max_components: self.max_components,
            min_ms: self.min_ms,
            min_loading_ms: self.min_loading_ms,
            force_display: self.force_display,
            format: opt_view(self.format),
            prefix: opt_view(self.prefix),
            separator: opt_view(self.separator),
            show_counts: self.show_counts,
            ttl_ms: self.ttl_ms,
            timeout_ms: self.timeout_ms,
            style: self.style@,
            error_style: self.error_style@,
            prefix_style: self.prefix_style@,
        }
    }
}

/// The configuration a segment gets when it has no table of its own.
pub open spec fn default_style_view() -> StyleConfigView {
    StyleConfigView { fg: None, bg: None, bold: false }
}

pub open spec fn default_segment_view() -> SegmentConfigView {
    SegmentConfigView {
        character: None,
        characters: Seq::empty(),
        icon: None,
        icons: Seq::empty(),
        loading: None,
        max_components: None,
        min_ms: None,
        min_loading_ms: None,
        force_display: None,
        format: None,
        prefix: None,
        separator: None,
        show_counts: None,
        ttl_ms: None,
        timeout_ms: None,
        style: default_style_view(),
        error_style: default_style_view(),
        prefix_style: default_style_view(),
    }
}

/// Index of the first pair whose key is `key`.
pub open spec fn find_key<V>(entries: Seq<(String, V)>, key: Seq<char>) -> Option<int>
    decreases entries.len(),
{
    if entries.len() == 0 {
        None
    } else if entries[0].0@ == key {
        Some(0)
    } else {
        match find_key(entries.drop_first(), key) {
            Some(i) => Some(i + 1),
            None => None,
        }
    }
}

pub proof fn lemma_find_key<V>(entries: Seq<(String, V)>, key: Seq<char>)
    ensures
        find_key(entries, key) matches Some(i) ==> 0 <= i < entries.len() && entries[i].0@
            == key && forall|k: int| 0 <= k < i ==> #[trigger] entries[k].0@ != key,
        find_key(entries, key) is None ==> forall|k: int|
            0 <= k < entries.len() ==> #[trigger] entries[k].0@ != key,
    decreases entries.len(),
{
    if entries.len() > 0 && entries[0].0@ != key {
        let rest = entries.drop_first();
        lemma_find_key(rest, key);
        assert forall|k: int| 0 < k < entries.len() implies #[trigger] entries[k] == rest[k - 1] by {}
    }
}

/// The value of the first pair keyed `key`.
pub open spec fn lookup_pairs(entries: Seq<(Seq<char>, Seq<char>)>, key: Seq<char>) -> Option<
    Seq<char>,
>
    decreases entries.len(),
{
    if entries.len() == 0 {
        None
    } else if entries[0].0 == key {
        Some(entries[0].1)
    } else {
        lookup_pairs(entries.drop_first(), key)
    }
}

/// The value stored under `key` in a list of string pairs.
pub fn lookup_pair<'a>(entries: &'a Vec<(String, String)>, key: &str) -> (r: Option<&'a String>)
    ensures
        opt_view(match r {
            Some(v) => Some(*v),
            None => None,
        }) == lookup_pairs(pairs_view(entries@), key@),
{
    let mut i: usize = 0;
    assert(pairs_view(entries@).skip(0) =~= pairs_view(entries@));
    while i < entries.len()
        invariant
            i <= entries.len(),
            lookup_pairs(pairs_view(entries@), key@) == lookup_pairs(
                pairs_view(entries@).skip(i as int),
                key@,
            ),
        decreases entries.len() - i,
    {
        let ghost rest = pairs_view(entries@).skip(i as int);
        if str_eq(entries[i].0.as_str(), key) {
            proof {
                assert(rest[0] == (entries@[i as int].0@, entries@[i as int].1@));
            }
            return Some(&entries[i].1);
        }
        proof {
            assert(rest[0] == (entries@[i as int].0@, entries@[i as int].1@));
            assert(rest.drop_first() =~= pairs_view(entries@).skip(i + 1));
        }
        i += 1;
    }
    None
}

// ---------------------------------------------------------------------------
// Copies and defaults
// ---------------------------------------------------------------------------

pub fn copy_opt(o: &Option<String>) -> (r: Option<String>)
    ensures
        opt_view(r) == opt_view(*o),
{
    match o {
        Some(s) => Some(copy_str(s.as_str())),
        None => None,
    }
}

fn copy_pairs(v: &Vec<(String, String)>) -> (r: Vec<(String, String)>)
    ensures
        pairs_view(r@) == pairs_view(v@),
{
    let mut r: Vec<(String, String)> = Vec::new();
    let mut i: usize = 0;
    while i < v.len()
        invariant
            i <= v.len(),
            pairs_view(r@) == pairs_view(v@).take(i as int),
        decreases v.len() - i,
    {
        let k = copy_str(v[i].0.as_str());
        let w = copy_str(v[i].1.as_str());
        let ghost before = r@;
        r.push((k, w));
        assert(r@ == before.push((k, w)));
        assert(pairs_view(r@) =~= pairs_view(before).push((k@, w@)));
        assert((k@, w@) == pairs_view(v@)[i as int]);
        i += 1;
        assert(pairs_view(r@) =~= pairs_view(v@).take(i as int));
    }
    assert(pairs_view(v@).take(i as int) =~= pairs_view(v@));
    r
}

impl StyleConfig {
    /// A copy of this style.
    pub fn copy(&self) -> (r: StyleConfig)
        ensures
            r@ == self@,
    {
        StyleConfig { fg: copy_opt(&self.fg), bg: copy_opt(&self.bg), bold: self.bold }
    }

    /// The style with nothing set.
    pub fn empty() -> (r: StyleConfig)
        ensures
            r@ == default_style_view(),
    {
        StyleConfig { fg: None, bg: None, bold: false }
    }
}

impl SegmentConfig {
    /// A copy of this segment configuration.
    pub fn copy(&self) -> (r: SegmentConfig)
        ensures
            r@ == self@,
    {
        SegmentConfig {
            character: copy_opt(&self.character),
            characters: copy_pairs(&self.characters),
            icon: copy_opt(&self.icon),
            icons: copy_pairs(&self.icons),
            loading: copy_opt(&self.loading),
            max_components: self.max_components,
            min_ms: self.min_ms,
            min_loading_ms: self.min_loading_ms,
            force_display: self.force_display,
            format: copy_opt(&self.format),
            prefix: copy_opt(&self.prefix),
            separator: copy_opt(&self.separator),
            show_counts: self.show_counts,
            ttl_ms: self.ttl_ms,
            timeout_ms: self.timeout_ms,
            style: self.style.copy(),
            error_style: self.error_style.copy(),
            prefix_style: self.prefix_style.copy(),
        }
    }

    /// The configuration of a segment without a table of its own.
    pub fn empty() -> (r: SegmentConfig)
        ensures
            r@ == default_segment_view(),
    {
        let r = SegmentConfig {
            character: None,
            characters: Vec::new(),
            icon: None,
            icons: Vec::new(),
            loading: None,
            max_components: None,
            min_ms: None,
            min_loading_ms: None,
            force_display: None,
            format: None,
            prefix: None,
            separator: None,
            show_counts: None,
            ttl_ms: None,
            timeout_ms: None,
            style: StyleConfig::empty(),
            error_style: StyleConfig::empty(),
            prefix_style: StyleConfig::empty(),
        };
        assert(pairs_view(r.characters@) =~= Seq::empty());
        assert(pairs_view(r.icons@) =~= Seq::empty());
        r
    }
}

// ---------------------------------------------------------------------------
// The default layout
// ---------------------------------------------------------------------------

/// The segment ids of the built-in first line, left side.
pub open spec fn default_line1_left() -> Seq<Seq<char>> {
    seq![
        "ssh"@,
        "dir"@,
        "git_branch"@,
        "git_status"@,
        "rust_version"@,
        "bun_version"@,
        "deno_version"@,
        "node_version"@,
        "python_version"@,
        "nix_shell"@,
        "aws"@,
        "duration"@,
    ]
}

/// Appends a string to a list of strings.
pub fn push_string(v: &mut Vec<String>, s: String)
    ensures
        strings_view(final(v)@) == strings_view(old(v)@).push(s@),
{
    let ghost x = s@;
    v.push(s);
    assert(strings_view(v@) =~= strings_view(old(v)@).push(x));
}

fn push_id(v: &mut Vec<String>, id: &str)
    ensures
        strings_view(final(v)@) == strings_view(old(v)@).push(id@),
{
    v.push(copy_str(id));
    assert(strings_view(v@) =~= strings_view(old(v)@).push(id@));
}

impl LayoutConfig {
    /// The built-in two-line layout.
    pub fn default_layout() -> (r: LayoutConfig)
        ensures
            r.lines == 2,
            r.separator is None,
            strings_view(r.line1.left@) == default_line1_left(),
            strings_view(r.line1.right@) == seq!["time"@],
            strings_view(r.line2.left@) == seq!["exit_status"@, "prompt_char"@],
            r.line2.right@.len() == 0,
    {
        let mut left: Vec<String> = Vec::new();
        assert(strings_view(left@) =~= Seq::empty());
        push_id(&mut left, "ssh");
        push_id(&mut left, "dir");
        push_id(&mut left, "git_branch");
        push_id(&mut left, "git_status");
        push_id(&mut left, "rust_version");
        push_id(&mut left, "bun_version");
        push_id(&mut left, "deno_version");
        push_id(&mut left, "node_version");
        push_id(&mut left, "python_version");
        push_id(&mut left, "nix_shell");
        push_id(&mut left, "aws");
        push_id(&mut left, "duration");
        let mut right: Vec<String> = Vec::new();
        assert(strings_view(right@) =~= Seq::empty());
        push_id(&mut right, "time");
        let mut left2: Vec<String> = Vec::new();
        assert(strings_view(left2@) =~= Seq::empty());
        push_id(&mut left2, "exit_status");
        push_id(&mut left2, "prompt_char");
        LayoutConfig {
            lines: 2,
            separator: None,
            line1: LineConfig { left, right },
            line2: LineConfig { left: left2, right: Vec::new() },
        }
    }

    /// The text placed between neighbouring segments: the configured one, else a space.
    pub fn separator(&self) -> (r: &str)
        ensures
            r@ == match self.separator {
                Some(s) => s@,
                None => " "@,
            },
    {
        match &self.separator {
            Some(s) => s.as_str(),
            None => " ",
        }
    }
}

impl Default for LayoutConfig {
    fn default() -> (r: LayoutConfig)
        ensures
            r.lines == 2,
            r.separator is None,
            strings_view(r.line1.left@) == default_line1_left(),
            strings_view(r.line1.right@) == seq!["time"@],
            strings_view(r.line2.left@) == seq!["exit_status"@, "prompt_char"@],
            r.line2.right@.len() == 0,
    {
        LayoutConfig::default_layout()
    }
}

/// Whether text `a` sorts before text `b`, character by character (as `String`'s
/// order sorts them).
pub open spec fn text_less(a: Seq<char>, b: Seq<char>) -> bool
    decreases a.len(),
{
    if b.len() == 0 {
        false
    } else if a.len() == 0 {
        true
    } else if a[0] != b[0] {
        (a[0] as u32) < (b[0] as u32)
    } else {
        text_less(a.skip(1), b.skip(1))
    }
}

/// Keyed entries in strictly increasing key order, as a sorted map holds them.
pub open spec fn keys_in_order<V>(entries: Seq<(String, V)>) -> bool {
    forall|i: int, j: int|
        0 <= i < j < entries.len() ==> text_less(#[trigger] entries[i].0@, #[trigger] entries[j].0@)
}

/// Texts in strictly increasing order, as a sorted set holds them.
pub open spec fn texts_in_order(v: Seq<String>) -> bool {
    forall|i: int, j: int| 0 <= i < j < v.len() ==> text_less(#[trigger] v[i]@, #[trigger] v[j]@)
}

/// No text sorts before itself.
pub proof fn lemma_text_less_irreflexive(a: Seq<char>)
    ensures
        !text_less(a, a),
    decreases a.len(),
{
    if a.len() > 0 {
        lemma_text_less_irreflexive(a.skip(1));
    }
}

/// In keyed entries kept in key order, each key stands once: the entry that
/// `find_key` finds is the only one under its key.
pub proof fn lemma_keys_in_order_unique<V>(entries: Seq<(String, V)>)
    requires
        keys_in_order(entries),
    ensures
        forall|i: int, j: int|
            0 <= i < entries.len() && 0 <= j < entries.len() && i != j ==> #[trigger] entries[i].0@
                != #[trigger] entries[j].0@,
{
    assert forall|i: int, j: int|
        0 <= i < entries.len() && 0 <= j < entries.len() && i != j implies #[trigger] entries[i].0@
            != #[trigger] entries[j].0@ by {
        if entries[i].0@ == entries[j].0@ {
            lemma_text_less_irreflexive(entries[i].0@);
            if i < j {
                assert(text_less(entries[i].0@, entries[j].0@));
            } else {
                assert(text_less(entries[j].0@, entries[i].0@));
            }
        }
    }
}

impl Config {
    /// What a configuration read from a file holds as the file's tables did: its
    /// unknown keys, its segment tables, and each table's keymap characters and
    /// icons, in key order, each key once.
    pub open spec fn wf(&self) -> bool {
        &&& texts_in_order(self.unknown_keys@)
        &&& keys_in_order(self.segments@)
        &&& forall|i: int|
            0 <= i < self.segments@.len() ==> keys_in_order(#[trigger] self.segments@[i].1.characters@)
                && keys_in_order(self.segments@[i].1.icons@)
    }
}

impl Default for Config {
    fn default() -> (r: Config)
        ensures
            r.async_config.initial_wait_ms is None,
            r.async_config.min_loading_ms is None,
            r.layout.lines == 2,
            r.layout.separator is None,
            strings_view(r.layout.line1.left@) == default_line1_left(),
            strings_view(r.layout.line1.right@) == seq!["time"@],
            strings_view(r.layout.line2.left@) == seq!["exit_status"@, "prompt_char"@],
            r.layout.line2.right@.len() == 0,
            r.segments@.len() == 0,
            r.unknown_keys@.len() == 0,
            r.wf(),
    {
        Config {
            async_config: AsyncConfig { initial_wait_ms: None, min_loading_ms: None },
            layout: LayoutConfig::default_layout(),
            segments: Vec::new(),
            unknown_keys: Vec::new(),
        }
    }
}

impl Config {
    /// The configuration of segment `id`: its table, or the empty configuration.
    pub open spec fn segment_view(&self, id: Seq<char>) -> SegmentConfigView {
        match find_key(self.segments@, id) {
            Some(i) => self.segments@[i].1@,
            None => default_segment_view(),
        }
    }

    /// The configuration of segment `id`.
    pub fn segment(&self, id: &str) -> (r: SegmentConfig)
        ensures
            r@ == self.segment_view(id@),
    {
        let mut i: usize = 0;
        proof {
            lemma_find_key(self.segments@, id@);
        }
        while i < self.segments.len()
            invariant
                i <= self.segments.len(),
                forall|k: int| 0 <= k < i ==> #[trigger] self.segments@[k].0@ != id@,
            decreases self.segments.len() - i,
        {
            if str_eq(self.segments[i].0.as_str(), id) {
                proof {
                    lemma_find_key(self.segments@, id@);
                    if let Some(j) = find_key(self.segments@, id@) {
                        if j < i {
                            assert(self.segments@[j].0@ != id@);
                        }
                        if j > i {
                            assert(self.segments@[i as int].0@ != id@);
                        }
                    }
                }
                return self.segments[i].1.copy();
            }
            i += 1;
        }
        SegmentConfig::empty()
    }
}

} // verus!
