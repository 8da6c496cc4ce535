//! What is accepted in a configuration but probably a mistake, and what is refused.

use vstd::prelude::*;

use crate::config::error::{ConfigError, ConfigWarning, ConfigWarningView};
use crate::config::{pairs_view, strings_view, Config, LayoutConfig, SegmentConfig, StyleConfig, StyleConfigView};
use crate::text::{
    chars_of, copy_str, is_ascii_hexdigit, is_hex_digit, parse_unsigned, parse_unsigned_chars,
    push_str, str_eq,
};

verus! {

// ---------------------------------------------------------------------------
// Specification
// ---------------------------------------------------------------------------

/// The warnings of a list, as values.
pub open spec fn warnings_view(v: Seq<ConfigWarning>) -> Seq<ConfigWarningView> {
    Seq::new(v.len(), |i: int| v[i]@)
}

/// Whether `id` is one of the known segment ids.
pub open spec fn known_has(known: Seq<&str>, id: Seq<char>) -> bool {
    exists|i: int| 0 <= i < known.len() && #[trigger] known[i]@ == id
}

/// Each id of a list, tagged with the place it was found.
pub open spec fn tagged(location: Seq<char>, ids: Seq<Seq<char>>) -> Seq<(Seq<char>, Seq<char>)> {
    Seq::new(ids.len(), |i: int| (location, ids[i]))
}

/// Every segment the layout names, with the list it stands in, in layout order.
pub open spec fn layout_entries(layout: LayoutConfig) -> Seq<(Seq<char>, Seq<char>)> {
    tagged("layout.line1.left"@, strings_view(layout.line1.left@)) + tagged(
        "layout.line1.right"@,
        strings_view(layout.line1.right@),
    ) + tagged("layout.line2.left"@, strings_view(layout.line2.left@)) + tagged(
        "layout.line2.right"@,
        strings_view(layout.line2.right@),
    )
}

/// A warning for each unknown segment of the layout, once per place and segment.
pub open spec fn layout_warnings(entries: Seq<(Seq<char>, Seq<char>)>, known: Seq<&str>) -> Seq<
    ConfigWarningView,
>
    decreases entries.len(),
{
    if entries.len() == 0 {
        seq![]
    } else {
        let prev = entries.drop_last();
        let e = entries.last();
        let w = layout_warnings(prev, known);
        if !known_has(known, e.1) && !prev.contains(e) {
            w.push(ConfigWarningView::UnknownLayoutSegment { location: e.0, segment: e.1 })
        } else {
            w
        }
    }
}

/// The ids of the segment tables, in order.
pub open spec fn table_ids(segments: Seq<(String, SegmentConfig)>) -> Seq<Seq<char>> {
    Seq::new(segments.len(), |i: int| segments[i].0@)
}

/// A warning for each segment table whose id is unknown.
pub open spec fn table_warnings(ids: Seq<Seq<char>>, known: Seq<&str>) -> Seq<ConfigWarningView>
    decreases ids.len(),
{
    if ids.len() == 0 {
        seq![]
    } else {
        let w = table_warnings(ids.drop_last(), known);
        if known_has(known, ids.last()) {
            w
        } else {
            w.push(ConfigWarningView::UnknownSegmentTable { segment: ids.last() })
        }
    }
}

/// One of the sixteen color names.
pub open spec fn named_color(c: Seq<char>) -> bool {
    ||| c == "black"@
    ||| c == "red"@
    ||| c == "green"@
    ||| c == "yellow"@
    ||| c == "blue"@
    ||| c == "magenta"@
    ||| c == "cyan"@
    ||| c == "white"@
    ||| c == "bright_black"@
    ||| c == "bright_red"@
    ||| c == "bright_green"@
    ||| c == "bright_yellow"@
    ||| c == "bright_blue"@
    ||| c == "bright_magenta"@
    ||| c == "bright_cyan"@
    ||| c == "bright_white"@
}

/// `#` and six hexadecimal digits.
pub open spec fn truecolor(c: Seq<char>) -> bool {
    c.len() == 7 && c[0] == '#' && forall|k: int| 1 <= k < 7 ==> is_hex_digit(#[trigger] c[k])
}

/// A color name, a palette index that `u8` parsing accepts, or a `#rrggbb` color.
pub open spec fn supported_color(c: Seq<char>) -> bool {
    named_color(c) || parse_unsigned(c, 255) is Some || truecolor(c)
}

/// The warning for one color field, if its value is not a color.
pub open spec fn color_warning(location: Seq<char>, color: Option<Seq<char>>) -> Seq<
    ConfigWarningView,
> {
    match color {
        Some(c) => if supported_color(c) {
            seq![]
        } else {
            seq![ConfigWarningView::InvalidColor { location: location, color: c }]
        },
        None => seq![],
    }
}

/// The warnings for the two colors of a style, foreground first.
pub open spec fn style_warnings(location: Seq<char>, style: StyleConfigView) -> Seq<
    ConfigWarningView,
> {
    color_warning(location + ".fg"@, style.fg) + color_warning(location + ".bg"@, style.bg)
}

/// The color warnings of one segment table.
pub open spec fn segment_color_warnings(id: Seq<char>, segment: SegmentConfig) -> Seq<
    ConfigWarningView,
> {
    let base = "segments."@ + id;
    style_warnings(base + ".style"@, segment.style@) + style_warnings(
        base + ".error_style"@,
        segment.error_style@,
    ) + style_warnings(base + ".prefix_style"@, segment.prefix_style@)
}

/// The color warnings of all segment tables, in order.
pub open spec fn color_warnings(segments: Seq<(String, SegmentConfig)>) -> Seq<ConfigWarningView>
    decreases segments.len(),
{
    if segments.len() == 0 {
        seq![]
    } else {
        color_warnings(segments.drop_last()) + segment_color_warnings(
            segments.last().0@,
            segments.last().1,
        )
    }
}

/// Every warning of a configuration: unknown keys, unknown layout segments, unknown
/// segment tables, then invalid colors.
pub open spec fn config_warnings(config: Config, known: Seq<&str>) -> Seq<ConfigWarningView> {
    Seq::new(
        config.unknown_keys@.len(),
        |i: int| ConfigWarningView::UnknownKey { location: config.unknown_keys@[i]@ },
    ) + layout_warnings(layout_entries(config.layout), known) + table_warnings(
        table_ids(config.segments@),
        known,
    ) + color_warnings(config.segments@)
}

// ---------------------------------------------------------------------------
// Code
// ---------------------------------------------------------------------------

fn push_warning(v: &mut Vec<ConfigWarning>, w: ConfigWarning)
    ensures
        warnings_view(final(v)@) == warnings_view(old(v)@).push(w@),
{
    v.push(w);
    assert(warnings_view(v@) =~= warnings_view(old(v)@).push(w@));
}

fn is_known(known: &[&str], id: &str) -> (r: bool)
    ensures
        r == known_has(known@, id@),
{
    let mut i: usize = 0;
    while i < known.len()
        invariant
            i <= known.len(),
            forall|k: int| 0 <= k < i ==> #[trigger] known@[k]@ != id@,
        decreases known.len() - i,
    {
        if str_eq(known[i], id) {
            return true;
        }
        i += 1;
    }
    false
}

fn push_tagged(entries: &mut Vec<(String, String)>, location: &str, ids: &Vec<String>)
    ensures
        pairs_view(final(entries)@) == pairs_view(old(entries)@) + tagged(
            location@,
            strings_view(ids@),
        ),
{
    let mut i: usize = 0;
    while i < ids.len()
        invariant
            i <= ids.len(),
            pairs_view(entries@) == pairs_view(old(entries)@) + tagged(
                location@,
                strings_view(ids@).take(i as int),
            ),
        decreases ids.len() - i,
    {
        let a = copy_str(location);
        let b = copy_str(ids[i].as_str());
        let ghost prev = entries@;
        entries.push((a, b));
        proof {
            assert(entries@ =~= prev.push((a, b)));
            assert(pairs_view(entries@) =~= pairs_view(prev).push((location@, ids@[i as int]@)));
            assert(strings_view(ids@).take(i + 1) =~= strings_view(ids@).take(i as int).push(
                ids@[i as int]@,
            ));
        }
        i += 1;
        assert(pairs_view(entries@) =~= pairs_view(old(entries)@) + tagged(
            location@,
            strings_view(ids@).take(i as int),
        ));
    }
    assert(strings_view(ids@).take(i as int) =~= strings_view(ids@));
}

/// Whether the entry at `i` already occurs before it.
fn occurs_before(entries: &Vec<(String, String)>, i: usize) -> (r: bool)
    requires
        i < entries.len(),
    ensures
        r == pairs_view(entries@).take(i as int).contains(pairs_view(entries@)[i as int]),
{
    let ghost all = pairs_view(entries@);
    let mut j: usize = 0;
    while j < i
        invariant
            i < entries.len(),
            j <= i,
            all == pairs_view(entries@),
            forall|k: int| 0 <= k < j ==> #[trigger] all[k] != all[i as int],
        decreases i - j,
    {
        if str_eq(entries[j].0.as_str(), entries[i].0.as_str()) && str_eq(
            entries[j].1.as_str(),
            entries[i].1.as_str(),
        ) {
            proof {
                assert(all.take(i as int)[j as int] == all[i as int]);
            }
            return true;
        }
        assert(all[j as int] != all[i as int]);
        j += 1;
    }
    proof {
        if all.take(i as int).contains(all[i as int]) {
            let k = choose|k: int| 0 <= k < i && all.take(i as int)[k] == all[i as int];
            assert(all[k] != all[i as int]);
        }
    }
    false
}

fn is_named_color(c: &str) -> (r: bool)
    ensures
        r == named_color(c@),
{
    str_eq(c, "black") || str_eq(c, "red") || str_eq(c, "green") || str_eq(c, "yellow")
        || str_eq(c, "blue") || str_eq(c, "magenta") || str_eq(c, "cyan") || str_eq(c, "white")
        || str_eq(c, "bright_black") || str_eq(c, "bright_red") || str_eq(c, "bright_green")
        || str_eq(c, "bright_yellow") || str_eq(c, "bright_blue") || str_eq(c, "bright_magenta")
        || str_eq(c, "bright_cyan") || str_eq(c, "bright_white")
}

fn is_truecolor(c: &str) -> (r: bool)
    ensures
        r == truecolor(c@),
{
    let chars = chars_of(c);
    if chars.len() != 7 || chars[0] != '#' {
        return false;
    }
    let mut k: usize = 1;
    while k < 7
        invariant
            chars@ == c@,
            chars.len() == 7,
            1 <= k <= 7,
            forall|j: int| 1 <= j < k ==> is_hex_digit(#[trigger] c@[j]),
        decreases 7 - k,
    {
        if !is_ascii_hexdigit(chars[k]) {
            return false;
        }
        k += 1;
    }
    true
}

/// Whether a style color is one the renderer understands.
pub fn is_supported_color(c: &str) -> (r: bool)
    ensures
        r == supported_color(c@),
{
    if is_named_color(c) {
        return true;
    }
    let chars = chars_of(c);
    if parse_unsigned_chars(chars.as_slice(), 255).is_some() {
        return true;
    }
    is_truecolor(c)
}

fn push_color_warning(
    warnings: &mut Vec<ConfigWarning>,
    location: &str,
    field: &str,
    color: &Option<String>,
)
    ensures
        warnings_view(final(warnings)@) == warnings_view(old(warnings)@) + color_warning(
            location@ + field@,
            crate::config::opt_view(*color),
        ),
{
    if let Some(c) = color {
        if !is_supported_color(c.as_str()) {
            let mut at = copy_str(location);
            push_str(&mut at, field);
            push_warning(
                warnings,
                ConfigWarning::InvalidColor { location: at, color: copy_str(c.as_str()) },
            );
            return ;
        }
    }
    assert(warnings_view(warnings@) =~= warnings_view(old(warnings)@) + seq![]);
}

/// Appends the warnings for the colors of `style`, found at `location`.
pub fn push_style_warnings(warnings: &mut Vec<ConfigWarning>, location: &str, style: &StyleConfig)
    ensures
        warnings_view(final(warnings)@) == warnings_view(old(warnings)@) + style_warnings(
            location@,
            style@,
        ),
{
    push_color_warning(warnings, location, ".fg", &style.fg);
    push_color_warning(warnings, location, ".bg", &style.bg);
    assert(warnings_view(warnings@) =~= warnings_view(old(warnings)@) + style_warnings(
        location@,
        style@,
    ));
}

fn push_segment_color_warnings(warnings: &mut Vec<ConfigWarning>, id: &str, segment: &SegmentConfig)
    ensures
        warnings_view(final(warnings)@) == warnings_view(old(warnings)@) + segment_color_warnings(
            id@,
            *segment,
        ),
{
    let mut base = "segments.".to_string();
    push_str(&mut base, id);
    let mut at = copy_str(base.as_str());
    push_str(&mut at, ".style");
    push_style_warnings(warnings, at.as_str(), &segment.style);
    let mut at = copy_str(base.as_str());
    push_str(&mut at, ".error_style");
    push_style_warnings(warnings, at.as_str(), &segment.error_style);
    let mut at = copy_str(base.as_str());
    push_str(&mut at, ".prefix_style");
    push_style_warnings(warnings, at.as_str(), &segment.prefix_style);
    assert(warnings_view(warnings@) =~= warnings_view(old(warnings)@) + segment_color_warnings(
        id@,
        *segment,
    ));
}

impl Config {
    /// Everything in this configuration that is accepted but probably a mistake, judged
    /// against the ids of the segments that exist.
    pub fn warnings(&self, known_segment_ids: &[&str]) -> (r: Vec<ConfigWarning>)
        ensures
            warnings_view(r@) == config_warnings(*self, known_segment_ids@),
    {
        let known = known_segment_ids;
        let mut warnings: Vec<ConfigWarning> = Vec::new();
        let mut i: usize = 0;
        while i < self.unknown_keys.len()
            invariant
                i <= self.unknown_keys.len(),
                warnings_view(warnings@) == Seq::new(
                    i as nat,
                    |k: int| ConfigWarningView::UnknownKey { location: self.unknown_keys@[k]@ },
                ),
            decreases self.unknown_keys.len() - i,
        {
            push_warning(
                &mut warnings,
                ConfigWarning::UnknownKey { location: copy_str(self.unknown_keys[i].as_str()) },
            );
            i += 1;
            assert(warnings_view(warnings@) =~= Seq::new(
                i as nat,
                |k: int| ConfigWarningView::UnknownKey { location: self.unknown_keys@[k]@ },
            ));
        }
        let ghost head = warnings_view(warnings@);
        let mut entries: Vec<(String, String)> = Vec::new();
        push_tagged(&mut entries, "layout.line1.left", &self.layout.line1.left);
        push_tagged(&mut entries, "layout.line1.right", &self.layout.line1.right);
        push_tagged(&mut entries, "layout.line2.left", &self.layout.line2.left);
        push_tagged(&mut entries, "layout.line2.right", &self.layout.line2.right);
        let ghost all = pairs_view(entries@);
        assert(all =~= layout_entries(self.layout));
        let mut i: usize = 0;
        while i < entries.len()
            invariant
                i <= entries.len(),
                all == pairs_view(entries@),
                warnings_view(warnings@) == head + layout_warnings(all.take(i as int), known@),
            decreases entries.len() - i,
        {
            let ghost before = warnings_view(warnings@);
            proof {
                assert(all.take(i + 1).drop_last() =~= all.take(i as int));
                assert(all.take(i + 1).last() == all[i as int]);
            }
            if !is_known(known, entries[i].1.as_str()) && !occurs_before(&entries, i) {
                let w = ConfigWarning::UnknownLayoutSegment {
                    location: copy_str(entries[i].0.as_str()),
                    segment: copy_str(entries[i].1.as_str()),
                };
                push_warning(&mut warnings, w);
            }
            i += 1;
            assert(warnings_view(warnings@) =~= head + layout_warnings(all.take(i as int), known@));
        }
        assert(all.take(i as int) =~= all);
        let ghost mid = warnings_view(warnings@);
        let ghost ids = table_ids(self.segments@);
        let mut i: usize = 0;
        while i < self.segments.len()
            invariant
                i <= self.segments.len(),
                ids == table_ids(self.segments@),
                warnings_view(warnings@) == mid + table_warnings(ids.take(i as int), known@),
            decreases self.segments.len() - i,
        {
            proof {
                assert(ids.take(i + 1).drop_last() =~= ids.take(i as int));
                assert(ids.take(i + 1).last() == self.segments@[i as int].0@);
            }
            if !is_known(known, self.segments[i].0.as_str()) {
                push_warning(
                    &mut warnings,
                    ConfigWarning::UnknownSegmentTable {
                        segment: copy_str(self.segments[i].0.as_str()),
                    },
                );
            }
            i += 1;
            assert(warnings_view(warnings@) =~= mid + table_warnings(ids.take(i as int), known@));
        }
        assert(ids.take(i as int) =~= ids);
        let ghost tail = warnings_view(warnings@);
        let mut i: usize = 0;
        while i < self.segments.len()
            invariant
                i <= self.segments.len(),
                warnings_view(warnings@) == tail + color_warnings(
                    self.segments@.take(i as int),
                ),
            decreases self.segments.len() - i,
        {
            proof {
                assert(self.segments@.take(i + 1).drop_last() =~= self.segments@.take(i as int));
            }
            push_segment_color_warnings(
                &mut warnings,
                self.segments[i].0.as_str(),
                &self.segments[i].1,
            );
            i += 1;
            assert(warnings_view(warnings@) =~= tail + color_warnings(
                self.segments@.take(i as int),
            ));
        }
        assert(self.segments@.take(i as int) =~= self.segments@);
        warnings
    }

    /// The configuration itself when its layout has one or two lines; otherwise the error.
    pub fn validate(self) -> (r: Result<Config, ConfigError>)
        ensures
            self.layout.lines == 1 || self.layout.lines == 2 ==> r == Ok::<Config, ConfigError>(
                self,
            ),
            !(self.layout.lines == 1 || self.layout.lines == 2) ==> r == Err::<
                Config,
                ConfigError,
            >(ConfigError::InvalidLayoutLines { lines: self.layout.lines }),
    {
        let lines = self.layout.lines;
        if lines == 1 || lines == 2 {
            Ok(self)
        } else {
            Err(ConfigError::InvalidLayoutLines { lines })
        }
    }
}

} // verus!
