//! AWS profile and region segment.
//!
//! The AWS config and credentials files are read by the caller; their text
//! arrives in the renderer's process environment and is parsed here as INI.

use vstd::prelude::*;

use crate::config::{opt_view, SegmentConfig, SegmentConfigView};
use crate::segments::{
    content_opt, icon_label, label_with_icon, plain_content, style_or, SegmentContent,
    SegmentContentView, Style, StyleView, SyncSegment,
};
use crate::state::{AwsEnvView, PromptEnv, PromptEnvView, PromptState};
use crate::text::{
    chars_of, copy_str, find_char, is_ascii_alphanumeric, is_ascii_alnum, push_char, push_str,
    slice_range, split_chars, split_on, str_eq, string_of, trim, trim_chars, views,
};

verus! {

pub open spec fn aws_icon() -> Seq<char> {
    seq!['\u{e33d}']
}

// ---------------------------------------------------------------------------
// INI files
// ---------------------------------------------------------------------------

/// What an INI file says: the section headers in order, and every assignment
/// (section, key, value) in order; a later assignment of a key wins.
pub struct IniView {
    pub headers: Seq<Seq<char>>,
    pub entries: Seq<(Seq<char>, Seq<char>, Seq<char>)>,
}

/// A parsed INI file.
#[derive(Clone, Debug, Default, PartialEq, Eq)]
pub struct IniFile {
    headers: Vec<String>,
    entries: Vec<(String, String, String)>,
}

impl View for IniFile {
    type V = IniView;

    closed spec fn view(&self) -> IniView {
        IniView {
            headers: crate::config::strings_view(self.headers@),
            entries: Seq::new(
                self.entries@.len(),
                |i: int| (self.entries@[i].0@, self.entries@[i].1@, self.entries@[i].2@),
            ),
        }
    }
}

/// The lines of a text, as `str::lines` yields them: split at `\n`, a trailing
/// `\r` dropped from each, and no empty last line after a final `\n`.
pub open spec fn lines_of(s: Seq<char>) -> Seq<Seq<char>> {
    let pieces = split_on(s, '\n');
    let kept = if pieces.last().len() == 0 {
        pieces.drop_last()
    } else {
        pieces
    };
    Seq::new(kept.len(), |i: int| drop_cr(kept[i]))
}

pub open spec fn drop_cr(line: Seq<char>) -> Seq<char> {
    if line.len() > 0 && line.last() == '\r' {
        line.drop_last()
    } else {
        line
    }
}

/// Whether a trimmed line is a comment or blank.
pub open spec fn ini_skipped(line: Seq<char>) -> bool {
    line.len() == 0 || line[0] == '#' || line[0] == ';'
}

/// The section a trimmed line opens, if it is a non-empty `[name]`.
pub open spec fn ini_header(line: Seq<char>) -> Option<Seq<char>> {
    if line.len() >= 2 && line[0] == '[' && line.last() == ']' && trim(
        line.subrange(1, line.len() - 1),
    ).len() > 0 {
        Some(trim(line.subrange(1, line.len() - 1)))
    } else {
        None
    }
}

/// The key and value a trimmed line assigns, if it holds `=` after a non-empty key.
pub open spec fn ini_assignment(line: Seq<char>) -> Option<(Seq<char>, Seq<char>)> {
    match find_char(line, '=') {
        None => None,
        Some(i) => if trim(line.take(i)).len() == 0 {
            None
        } else {
            Some((trim(line.take(i)), trim(line.skip(i + 1))))
        },
    }
}

/// Reading one more line, in the section `current`.
pub open spec fn ini_step(f: IniView, current: Option<Seq<char>>, raw: Seq<char>) -> (IniView, Option<Seq<char>>) {
    let line = trim(raw);
    if ini_skipped(line) {
        (f, current)
    } else {
        match ini_header(line) {
            Some(sec) => (IniView { headers: f.headers.push(sec), entries: f.entries }, Some(sec)),
            None => match current {
                None => (f, current),
                Some(sec) => match ini_assignment(line) {
                    None => (f, current),
                    Some((k, v)) => (IniView { headers: f.headers, entries: f.entries.push((sec, k, v)) }, current),
                },
            },
        }
    }
}

/// Reading the lines in order.
pub open spec fn ini_fold(lines: Seq<Seq<char>>) -> (IniView, Option<Seq<char>>)
    decreases lines.len(),
{
    if lines.len() == 0 {
        (IniView { headers: Seq::empty(), entries: Seq::empty() }, None)
    } else {
        let (f, cur) = ini_fold(lines.drop_last());
        ini_step(f, cur, lines.last())
    }
}

/// What an INI text says.
pub open spec fn parsed_ini(input: Seq<char>) -> IniView {
    ini_fold(lines_of(input)).0
}

/// The last value assigned to `key` in `section`.
pub open spec fn entry_value(entries: Seq<(Seq<char>, Seq<char>, Seq<char>)>, section: Seq<char>, key: Seq<char>) -> Option<Seq<char>>
    decreases entries.len(),
{
    if entries.len() == 0 {
        None
    } else if entries.last().0 == section && entries.last().1 == key {
        Some(entries.last().2)
    } else {
        entry_value(entries.drop_last(), section, key)
    }
}

/// The lines of a text.
pub fn text_lines(input: &str) -> (r: Vec<Vec<char>>)
    ensures
        views(r@) == lines_of(input@),
{
    let chars = chars_of(input);
    let pieces = split_chars(chars.as_slice(), '\n');
    proof {
        crate::text::lemma_split_on_nonempty(input@, '\n');
    }
    let n = if pieces[pieces.len() - 1].len() == 0 {
        pieces.len() - 1
    } else {
        pieces.len()
    };
    let ghost kept = if views(pieces@).last().len() == 0 {
        views(pieces@).drop_last()
    } else {
        views(pieces@)
    };
    assert(views(pieces@).last() == pieces@[pieces.len() - 1]@);
    assert(kept.len() == n);
    let mut r: Vec<Vec<char>> = Vec::new();
    let mut i: usize = 0;
    while i < n
        invariant
            i <= n <= pieces.len(),
            kept.len() == n,
            forall|k: int| 0 <= k < n ==> kept[k] == #[trigger] pieces@[k]@,
            views(r@) == Seq::new(i as nat, |k: int| drop_cr(kept[k])),
        decreases n - i,
    {
        let p = &pieces[i];
        let line = if p.len() > 0 && p[p.len() - 1] == '\r' {
            slice_range(p.as_slice(), 0, p.len() - 1)
        } else {
            slice_range(p.as_slice(), 0, p.len())
        };
        proof {
            assert(kept[i as int] == p@);
            if p@.len() > 0 && p@.last() == '\r' {
                assert(line@ =~= p@.drop_last());
            } else {
                assert(line@ =~= p@);
            }
        }
        let ghost before = views(r@);
        assert(line@ == drop_cr(kept[i as int]));
        r.push(line);
        assert(views(r@) =~= before.push(drop_cr(kept[i as int])));
        assert(views(r@) =~= Seq::new((i + 1) as nat, |k: int| drop_cr(kept[k])));
        i += 1;
    }
    r
}

impl IniFile {
    /// Whether a section header named `name` appeared.
    pub fn has_section(&self, name: &str) -> (r: bool)
        ensures
            r == self@.headers.contains(name@),
    {
        let mut i: usize = 0;
        while i < self.headers.len()
            invariant
                i <= self.headers.len(),
                forall|k: int| 0 <= k < i ==> self@.headers[k] != name@,
            decreases self.headers.len() - i,
        {
            if str_eq(self.headers[i].as_str(), name) {
                assert(self@.headers[i as int] == name@);
                return true;
            }
            assert(self@.headers[i as int] == self.headers@[i as int]@);
            i += 1;
        }
        false
    }

    /// The value last assigned to `key` in `section`.
    pub fn get(&self, section: &str, key: &str) -> (r: Option<String>)
        ensures
            opt_view(r) == entry_value(self@.entries, section@, key@),
    {
        let ghost es = self@.entries;
        let mut i = self.entries.len();
        assert(es.take(i as int) =~= es);
        while i > 0
            invariant
                i <= self.entries.len(),
                es == self@.entries,
                entry_value(es, section@, key@) == entry_value(es.take(i as int), section@, key@),
            decreases i,
        {
            proof {
                assert(es.take(i as int).drop_last() =~= es.take(i - 1));
                assert(es.take(i as int).last() == es[i - 1]);
            }
            if str_eq(self.entries[i - 1].0.as_str(), section) && str_eq(self.entries[i - 1].1.as_str(), key) {
                return Some(copy_str(self.entries[i - 1].2.as_str()));
            }
            i -= 1;
        }
        assert(es.take(0) =~= Seq::<(Seq<char>, Seq<char>, Seq<char>)>::empty());
        None
    }
}

/// The header a trimmed line opens.
fn header_of(line: &Vec<char>) -> (r: Option<String>)
    ensures
        opt_view(r) == ini_header(line@),
{
    if line.len() >= 2 && line[0] == '[' && line[line.len() - 1] == ']' {
        let inner = slice_range(line.as_slice(), 1, line.len() - 1);
        let t = trim_chars(inner.as_slice());
        if t.len() > 0 {
            return Some(string_of(t.as_slice()));
        }
    }
    None
}

/// The key and value a trimmed line assigns.
fn assignment_of(line: &Vec<char>) -> (r: Option<(String, String)>)
    ensures
        match r {
            Some((k, v)) => ini_assignment(line@) == Some((k@, v@)),
            None => ini_assignment(line@) is None,
        },
{
    let mut i: usize = 0;
    while i < line.len() && line[i] != '='
        invariant
            i <= line.len(),
            forall|k: int| 0 <= k < i ==> #[trigger] line@[k] != '=',
        decreases line.len() - i,
    {
        i += 1;
    }
    proof {
        if i < line.len() {
            crate::text::lemma_find_char_at(line@, '=', i as int);
        } else {
            crate::text::lemma_find_char_none(line@, '=');
        }
    }
    if i == line.len() {
        return None;
    }
    let key = trim_chars(slice_range(line.as_slice(), 0, i).as_slice());
    if key.len() == 0 {
        assert(line@.subrange(0, i as int) =~= line@.take(i as int));
        return None;
    }
    let value = trim_chars(slice_range(line.as_slice(), i + 1, line.len()).as_slice());
    proof {
        assert(line@.subrange(0, i as int) =~= line@.take(i as int));
        assert(line@.subrange(i + 1, line.len() as int) =~= line@.skip(i + 1));
    }
    Some((string_of(key.as_slice()), string_of(value.as_slice())))
}

/// Parses INI text: `[section]` headers, `key = value` lines inside sections;
/// blank lines, `#` and `;` comments and stray lines are skipped.
pub fn parse_ini(input: &str) -> (r: IniFile)
    ensures
        r@ == parsed_ini(input@),
{
    let lines = text_lines(input);
    let ghost ls = views(lines@);
    let mut file = IniFile { headers: Vec::new(), entries: Vec::new() };
    let mut current: Option<String> = None;
    let mut i: usize = 0;
    proof {
        assert(ls.take(0) =~= Seq::<Seq<char>>::empty());
        assert(file@.headers =~= Seq::<Seq<char>>::empty());
        assert(file@.entries =~= Seq::<(Seq<char>, Seq<char>, Seq<char>)>::empty());
    }
    while i < lines.len()
        invariant
            i <= lines.len(),
            ls == views(lines@),
            ls == lines_of(input@),
            ini_fold(ls.take(i as int)) == (file@, opt_view(current)),
        decreases lines.len() - i,
    {
        proof {
            assert(ls.take(i + 1).drop_last() =~= ls.take(i as int));
            assert(ls.take(i + 1).last() == lines@[i as int]@);
        }
        let line = trim_chars(lines[i].as_slice());
        let skipped = line.len() == 0 || line[0] == '#' || line[0] == ';';
        if !skipped {
            match header_of(&line) {
                Some(sec) => {
                    let ghost before = file@;
                    file.headers.push(copy_str(sec.as_str()));
                    current = Some(sec);
                    assert(file@.headers =~= before.headers.push(opt_view(current).unwrap()));
                    assert(file@.entries =~= before.entries);
                },
                None => {
                    if let Some(sec) = &current {
                        match assignment_of(&line) {
                            Some((k, v)) => {
                                let ghost before = file@;
                                file.entries.push((copy_str(sec.as_str()), k, v));
                                assert(file@.headers =~= before.headers);
                                assert(file@.entries =~= before.entries.push((sec@, ini_assignment(line@).unwrap().0, ini_assignment(line@).unwrap().1)));
                            },
                            None => {},
                        }
                    }
                },
            }
        }
        i += 1;
    }
    assert(ls.take(i as int) =~= ls);
    file
}

// ---------------------------------------------------------------------------
// Resolving the AWS context
// ---------------------------------------------------------------------------

pub open spec fn first_of(a: Option<Seq<char>>, b: Option<Seq<char>>) -> Option<Seq<char>> {
    match a {
        Some(x) => Some(x),
        None => b,
    }
}

/// The profile, by the precedence AWS tools use: awsu, aws-vault, awsume, then
/// `AWS_PROFILE`, then `AWS_SSO_PROFILE`.
pub open spec fn aws_profile_of(a: AwsEnvView) -> Option<Seq<char>> {
    first_of(a.awsu_profile, first_of(a.aws_vault, first_of(a.awsume_profile, first_of(a.aws_profile, a.aws_sso_profile))))
}

/// The config file section of a profile.
pub open spec fn config_section_name(profile: Option<Seq<char>>) -> Seq<char> {
    match profile {
        Some(p) => "profile "@ + p,
        None => "default"@,
    }
}

/// The credentials file section of a profile.
pub open spec fn credentials_section_name(profile: Option<Seq<char>>) -> Seq<char> {
    match profile {
        Some(p) => p,
        None => "default"@,
    }
}

/// The value of `key` in a section of an optional file.
pub open spec fn file_value(file: Option<IniView>, section: Seq<char>, key: Seq<char>) -> Option<Seq<char>> {
    match file {
        Some(f) => entry_value(f.entries, section, key),
        None => None,
    }
}

pub open spec fn file_has(file: Option<IniView>, section: Seq<char>, key: Seq<char>) -> bool {
    file_value(file, section, key) is Some
}

/// The region: `AWS_REGION`, then `AWS_DEFAULT_REGION`, then the profile's config.
pub open spec fn aws_region_of(a: AwsEnvView, profile: Option<Seq<char>>, config: Option<IniView>) -> Option<Seq<char>> {
    first_of(a.aws_region, first_of(a.aws_default_region, file_value(config, config_section_name(profile), "region"@)))
}

/// Whether the profile gets credentials from a process or from SSO.
pub open spec fn has_process_or_sso(config: Option<IniView>, creds: Option<IniView>, profile: Option<Seq<char>>) -> bool {
    let cs = config_section_name(profile);
    let ks = credentials_section_name(profile);
    file_has(config, cs, "credential_process"@) || file_has(config, cs, "sso_session"@) || file_has(config, cs, "sso_start_url"@)
        || file_has(creds, ks, "credential_process"@) || file_has(creds, ks, "sso_start_url"@)
}

/// Whether the credentials file holds keys for the profile.
pub open spec fn has_keys_for(creds: Option<IniView>, profile: Option<Seq<char>>) -> bool {
    file_has(creds, credentials_section_name(profile), "aws_access_key_id"@)
}

/// Whether the profile takes its credentials from a source profile that has some.
pub open spec fn has_source(config: Option<IniView>, creds: Option<IniView>, profile: Option<Seq<char>>) -> bool {
    match file_value(config, config_section_name(profile), "source_profile"@) {
        None => false,
        Some(sp) => has_process_or_sso(config, creds, Some(sp)) || has_keys_for(creds, Some(sp)),
    }
}

/// Whether credentials are set in the environment or stored for the profile.
pub open spec fn has_defined(a: AwsEnvView, creds: Option<IniView>, profile: Option<Seq<char>>) -> bool {
    a.aws_access_key_id_present || a.aws_secret_access_key_present || a.aws_session_token_present
        || has_keys_for(creds, profile)
}

pub open spec fn ini_opt(text: Option<Seq<char>>) -> Option<IniView> {
    match text {
        Some(t) => Some(parsed_ini(t)),
        None => None,
    }
}

/// The profile and region to show: none when neither is known, or, unless
/// `force_display`, when no credentials can be found for the profile.
pub open spec fn aws_context_of(env: PromptEnvView, force_display: bool) -> Option<(Option<Seq<char>>, Option<Seq<char>>)> {
    let config = ini_opt(env.process.aws_config);
    let creds = ini_opt(env.process.aws_credentials);
    let profile = aws_profile_of(env.aws);
    let region = aws_region_of(env.aws, profile, config);
    if profile is None && region is None {
        None
    } else if !force_display && !has_process_or_sso(config, creds, profile) && !has_source(config, creds, profile)
        && !has_defined(env.aws, creds, profile) {
        None
    } else {
        Some((profile, region))
    }
}

/// Where the region shown comes from: `AWS_REGION` whenever it is set, whatever
/// the config file says; else `AWS_DEFAULT_REGION`; the region in the profile's
/// config section only when neither variable is set. With credentials in the
/// environment (or when display is forced), the context is shown, with the
/// profile the AWS tools pick.
pub proof fn law_aws_region_precedence(env: PromptEnvView, force_display: bool)
    ensures
        aws_context_of(env, force_display) matches Some((p, r)) ==> {
            &&& p == aws_profile_of(env.aws)
            &&& env.aws.aws_region is Some ==> r == env.aws.aws_region
            &&& env.aws.aws_region is None && env.aws.aws_default_region is Some ==> r
                == env.aws.aws_default_region
            &&& env.aws.aws_region is None && env.aws.aws_default_region is None ==> r
                == file_value(
                ini_opt(env.process.aws_config),
                config_section_name(aws_profile_of(env.aws)),
                "region"@,
            )
        },
        env.aws.aws_region is Some && (force_display || env.aws.aws_access_key_id_present)
            ==> aws_context_of(env, force_display) == Some(
            (aws_profile_of(env.aws), env.aws.aws_region),
        ),
        env.aws.aws_region is None && env.aws.aws_default_region is Some && (force_display
            || env.aws.aws_access_key_id_present) ==> aws_context_of(env, force_display) == Some(
            (aws_profile_of(env.aws), env.aws.aws_default_region),
        ),
{
}

/// `profile (region)`, or whichever of them is known.
pub open spec fn aws_label(profile: Option<Seq<char>>, region: Option<Seq<char>>) -> Seq<char> {
    match (profile, region) {
        (Some(p), Some(r)) => p + " ("@ + r + seq![')'],
        (Some(p), None) => p,
        (None, Some(r)) => seq!['('] + r + seq![')'],
        (None, None) => Seq::empty(),
    }
}

fn opt_value(file: &Option<IniFile>, section: &str, key: &str) -> (r: Option<String>)
    ensures
        opt_view(r) == file_value(match file { Some(f) => Some(f@), None => None }, section@, key@),
{
    match file {
        Some(f) => f.get(section, key),
        None => None,
    }
}

fn config_section(profile: &Option<String>) -> (r: String)
    ensures
        r@ == config_section_name(opt_view(*profile)),
{
    match profile {
        Some(p) => {
            let mut s = "profile ".to_string();
            push_str(&mut s, p.as_str());
            s
        },
        None => "default".to_string(),
    }
}

fn credentials_section(profile: &Option<String>) -> (r: String)
    ensures
        r@ == credentials_section_name(opt_view(*profile)),
{
    match profile {
        Some(p) => copy_str(p.as_str()),
        None => "default".to_string(),
    }
}

pub open spec fn ini_file_view(file: Option<IniFile>) -> Option<IniView> {
    match file {
        Some(f) => Some(f@),
        None => None,
    }
}

fn process_or_sso(config: &Option<IniFile>, creds: &Option<IniFile>, profile: &Option<String>) -> (r: bool)
    ensures
        r == has_process_or_sso(ini_file_view(*config), ini_file_view(*creds), opt_view(*profile)),
{
    let cs = config_section(profile);
    let ks = credentials_section(profile);
    opt_value(config, cs.as_str(), "credential_process").is_some() || opt_value(config, cs.as_str(), "sso_session").is_some()
        || opt_value(config, cs.as_str(), "sso_start_url").is_some() || opt_value(creds, ks.as_str(), "credential_process").is_some()
        || opt_value(creds, ks.as_str(), "sso_start_url").is_some()
}

fn keys_for(creds: &Option<IniFile>, profile: &Option<String>) -> (r: bool)
    ensures
        r == has_keys_for(ini_file_view(*creds), opt_view(*profile)),
{
    let ks = credentials_section(profile);
    opt_value(creds, ks.as_str(), "aws_access_key_id").is_some()
}

fn parse_opt(text: &Option<String>) -> (r: Option<IniFile>)
    ensures
        ini_file_view(r) == ini_opt(opt_view(*text)),
{
    match text {
        Some(t) => Some(parse_ini(t.as_str())),
        None => None,
    }
}

fn or_copy(a: &Option<String>, b: Option<String>) -> (r: Option<String>)
    ensures
        opt_view(r) == first_of(opt_view(*a), opt_view(b)),
{
    match a {
        Some(x) => Some(copy_str(x.as_str())),
        None => b,
    }
}

/// The profile and region to show.
pub fn resolve_aws_context(env: &PromptEnv, force_display: bool) -> (r: Option<(Option<String>, Option<String>)>)
    ensures
        match r {
            Some((p, g)) => aws_context_of(env@, force_display) == Some((opt_view(p), opt_view(g))),
            None => aws_context_of(env@, force_display) is None,
        },
{
    let config = parse_opt(&env.process.aws_config);
    let creds = parse_opt(&env.process.aws_credentials);
    let a = &env.aws;
    let profile = or_copy(&a.awsu_profile, or_copy(&a.aws_vault, or_copy(&a.awsume_profile, or_copy(&a.aws_profile, crate::config::copy_opt(&a.aws_sso_profile)))));
    let cs = config_section(&profile);
    let region = or_copy(&a.aws_region, or_copy(&a.aws_default_region, opt_value(&config, cs.as_str(), "region")));
    if profile.is_none() && region.is_none() {
        return None;
    }
    if !force_display && !process_or_sso(&config, &creds, &profile) {
        let source = match opt_value(&config, cs.as_str(), "source_profile") {
            None => false,
            Some(sp) => {
                let spo = Some(sp);
                process_or_sso(&config, &creds, &spo) || keys_for(&creds, &spo)
            },
        };
        if !source && !(a.aws_access_key_id_present || a.aws_secret_access_key_present || a.aws_session_token_present
            || keys_for(&creds, &profile)) {
            return None;
        }
    }
    Some((profile, region))
}

/// The built-in label of a context.
pub fn aws_context_label(profile: &Option<String>, region: &Option<String>) -> (r: String)
    ensures
        r@ == aws_label(opt_view(*profile), opt_view(*region)),
{
    match (profile, region) {
        (Some(p), Some(g)) => {
            let mut s = copy_str(p.as_str());
            push_str(&mut s, " (");
            push_str(&mut s, g.as_str());
            push_char(&mut s, ')');
            assert(s@ =~= p@ + " ("@ + g@ + seq![')']);
            s
        },
        (Some(p), None) => copy_str(p.as_str()),
        (None, Some(g)) => {
            let mut s = String::new();
            push_char(&mut s, '(');
            push_str(&mut s, g.as_str());
            push_char(&mut s, ')');
            assert(s@ =~= seq!['('] + g@ + seq![')']);
            s
        },
        (None, None) => String::new(),
    }
}

// ---------------------------------------------------------------------------
// Format strings
// ---------------------------------------------------------------------------

/// The values a format string can name.
pub struct FormatVars {
    pub symbol: Seq<char>,
    pub profile: Option<Seq<char>>,
    pub region: Option<Seq<char>>,
}

/// What `$name` stands for; unknown names stand for nothing.
pub open spec fn format_value(name: Seq<char>, v: FormatVars) -> Option<Seq<char>> {
    if name == "symbol"@ {
        Some(v.symbol)
    } else if name == "profile"@ {
        Some(match v.profile { Some(p) => p, None => Seq::empty() })
    } else if name == "region"@ {
        Some(match v.region { Some(r) => r, None => Seq::empty() })
    } else if name == "duration"@ {
        Some(Seq::empty())
    } else {
        None
    }
}

pub open spec fn is_var_char(c: char) -> bool {
    is_ascii_alnum(c) || c == '_'
}

/// The length of the run of name characters that `s` starts with.
pub open spec fn var_len(s: Seq<char>) -> nat
    decreases s.len(),
{
    if s.len() > 0 && is_var_char(s[0]) {
        1 + var_len(s.drop_first())
    } else {
        0
    }
}

pub proof fn lemma_var_len(s: Seq<char>)
    ensures
        var_len(s) <= s.len(),
        forall|k: int| 0 <= k < var_len(s) ==> is_var_char(#[trigger] s[k]),
        var_len(s) < s.len() ==> !is_var_char(s[var_len(s) as int]),
    decreases s.len(),
{
    if s.len() > 0 && is_var_char(s[0]) {
        lemma_var_len(s.drop_first());
        assert forall|k: int| 0 <= k < var_len(s) implies is_var_char(#[trigger] s[k]) by {
            if k > 0 {
                assert(s[k] == s.drop_first()[k - 1]);
            }
        }
        if var_len(s) < s.len() {
            assert(s[var_len(s) as int] == s.drop_first()[var_len(s) - 1]);
        }
    }
}

/// A piece of a format string with its variables filled in, and whether any
/// known variable in it had a non-empty value.
pub open spec fn format_part(s: Seq<char>, v: FormatVars) -> (Seq<char>, bool)
    decreases s.len(),
{
    if s.len() == 0 {
        (Seq::empty(), false)
    } else if s[0] != '$' {
        let (t, h) = format_part(s.drop_first(), v);
        (seq![s[0]] + t, h)
    } else {
        let n = var_len(s.drop_first());
        if n == 0 || n + 1 > s.len() {
            let (t, h) = format_part(s.drop_first(), v);
            (seq!['$'] + t, h)
        } else {
            let name = s.subrange(1, n as int + 1);
            let (t, h) = format_part(s.skip(n as int + 1), v);
            match format_value(name, v) {
                Some(val) => (val + t, h || val.len() > 0),
                None => (seq!['$'] + name + t, h),
            }
        }
    }
}

/// A format string filled in: `[..]` groups (up to the next `]`) show only when
/// a variable in them has a value; `plain` is the text read since the last group.
pub open spec fn format_template(s: Seq<char>, plain: Seq<char>, v: FormatVars) -> Seq<char>
    decreases s.len(),
{
    if s.len() == 0 {
        format_part(plain, v).0
    } else if s[0] == '[' && find_char(s.drop_first(), ']') is Some {
        let j = find_char(s.drop_first(), ']').unwrap();
        if 0 <= j && j + 2 <= s.len() {
            let inner = s.subrange(1, j + 1);
            let r = format_part(inner, v);
            format_part(plain, v).0 + (if r.1 {
                r.0
            } else {
                Seq::empty()
            }) + format_template(s.skip(j + 2), Seq::empty(), v)
        } else {
            Seq::empty()
        }
    } else {
        format_template(s.drop_first(), plain.push(s[0]), v)
    }
}

/// What `$symbol` stands for: the icon and a space, or nothing when the icon is
/// configured empty.
pub open spec fn aws_symbol_of(config: SegmentConfigView) -> Seq<char> {
    match config.icon {
        Some(i) => if i.len() == 0 {
            Seq::empty()
        } else {
            i + seq![' ']
        },
        None => aws_icon() + seq![' '],
    }
}

/// The exec form of the format variables.
pub struct AwsFormatVariables {
    pub symbol: String,
    pub profile: Option<String>,
    pub region: Option<String>,
}

impl View for AwsFormatVariables {
    type V = FormatVars;

    open spec fn view(&self) -> FormatVars {
        FormatVars { symbol: self.symbol@, profile: opt_view(self.profile), region: opt_view(self.region) }
    }
}

/// What a variable name stands for.
pub fn aws_format_value(name: &str, variables: &AwsFormatVariables) -> (r: Option<String>)
    ensures
        opt_view(r) == format_value(name@, variables@),
{
    if str_eq(name, "symbol") {
        Some(copy_str(variables.symbol.as_str()))
    } else if str_eq(name, "profile") {
        Some(match &variables.profile { Some(p) => copy_str(p.as_str()), None => String::new() })
    } else if str_eq(name, "region") {
        Some(match &variables.region { Some(p) => copy_str(p.as_str()), None => String::new() })
    } else if str_eq(name, "duration") {
        Some(String::new())
    } else {
        None
    }
}

/// Whether a character may stand in a variable name.
pub fn is_format_variable_char(c: char) -> (r: bool)
    ensures
        r == is_var_char(c),
{
    is_ascii_alphanumeric(c) || c == '_'
}

/// A piece of a format string filled in.
pub fn render_aws_format_part(input: &Vec<char>, variables: &AwsFormatVariables) -> (r: (String, bool))
    ensures
        (r.0@, r.1) == format_part(input@, variables@),
{
    let n = input.len();
    let mut out = String::new();
    let mut has = false;
    let mut i: usize = 0;
    assert(input@.skip(0) =~= input@);
    assert(out@ + format_part(input@, variables@).0 =~= format_part(input@, variables@).0);
    while i < n
        invariant
            n == input.len(),
            i <= n,
            out@ + format_part(input@.skip(i as int), variables@).0 == format_part(input@, variables@).0,
            (has || format_part(input@.skip(i as int), variables@).1) == format_part(input@, variables@).1,
        decreases n - i,
    {
        let ghost rest = input@.skip(i as int);
        let ghost before = out@;
        assert(rest[0] == input@[i as int]);
        assert(rest.drop_first() =~= input@.skip(i + 1));
        if input[i] != '$' {
            push_char(&mut out, input[i]);
            assert(before + (seq![input@[i as int]] + format_part(input@.skip(i + 1), variables@).0) =~= out@ + format_part(input@.skip(i + 1), variables@).0);
            i += 1;
        } else {
            let start = i + 1;
            let mut end = start;
            while end < n && is_format_variable_char(input[end])
                invariant
                    start <= end <= n,
                    n == input.len(),
                    forall|k: int| start <= k < end ==> is_var_char(#[trigger] input@[k]),
                decreases n - end,
            {
                end += 1;
            }
            proof {
                let t = rest.drop_first();
                lemma_var_len(t);
                assert(t =~= input@.skip(start as int));
                let vl = var_len(t);
                if vl < end - start {
                    assert(!is_var_char(t[vl as int]));
                    assert(t[vl as int] == input@[start + vl]);
                }
                if vl > end - start {
                    assert(is_var_char(t[end - start]));
                    assert(t[end - start] == input@[end as int]);
                }
                assert(vl == end - start);
            }
            if start == end {
                push_char(&mut out, '$');
                assert(before + (seq!['$'] + format_part(input@.skip(i + 1), variables@).0) =~= out@ + format_part(input@.skip(i + 1), variables@).0);
                i += 1;
            } else {
                let name_chars = slice_range(input.as_slice(), start, end);
                let name = string_of(name_chars.as_slice());
                proof {
                    assert(name@ =~= rest.subrange(1, (end - start) + 1));
                    assert(rest.skip((end - start) + 1) =~= input@.skip(end as int));
                }
                match aws_format_value(name.as_str(), variables) {
                    Some(value) => {
                        if value.unicode_len() > 0 {
                            has = true;
                        }
                        push_str(&mut out, value.as_str());
                        assert(before + (value@ + format_part(input@.skip(end as int), variables@).0) =~= out@ + format_part(input@.skip(end as int), variables@).0);
                    },
                    None => {
                        push_char(&mut out, '$');
                        push_str(&mut out, name.as_str());
                        assert(before + (seq!['$'] + name@ + format_part(input@.skip(end as int), variables@).0) =~= out@ + format_part(input@.skip(end as int), variables@).0);
                    },
                }
                i = end;
            }
        }
    }
    assert(input@.skip(i as int) =~= Seq::<char>::empty());
    assert(out@ + Seq::<char>::empty() =~= out@);
    (out, has)
}

fn closing_bracket(chars: &Vec<char>, start: usize) -> (r: Option<usize>)
    requires
        start <= chars.len(),
    ensures
        r matches Some(j) ==> start <= j < chars.len() && find_char(chars@.skip(start as int), ']') == Some(j - start),
        r is None ==> find_char(chars@.skip(start as int), ']') is None,
{
    let mut j = start;
    while j < chars.len()
        invariant
            start <= j <= chars.len(),
            forall|k: int| start <= k < j ==> #[trigger] chars@[k] != ']',
        decreases chars.len() - j,
    {
        if chars[j] == ']' {
            proof {
                let t = chars@.skip(start as int);
                assert forall|k: int| 0 <= k < j - start implies #[trigger] t[k] != ']' by {
                    assert(t[k] == chars@[start + k]);
                }
                crate::text::lemma_find_char_at(t, ']', j - start);
            }
            return Some(j);
        }
        j += 1;
    }
    proof {
        let t = chars@.skip(start as int);
        assert forall|k: int| 0 <= k < t.len() implies #[trigger] t[k] != ']' by {
            assert(t[k] == chars@[start + k]);
        }
        crate::text::lemma_find_char_none(t, ']');
    }
    None
}

/// A format string filled in.
pub fn render_aws_format_template(format: &str, variables: &AwsFormatVariables) -> (r: String)
    ensures
        r@ == format_template(format@, Seq::empty(), variables@),
{
    let chars = chars_of(format);
    let n = chars.len();
    let mut out = String::new();
    let mut plain: Vec<char> = Vec::new();
    let mut i: usize = 0;
    assert(format@.skip(0) =~= format@);
    assert(out@ + format_template(format@, Seq::empty(), variables@) =~= format_template(format@, Seq::empty(), variables@));
    while i < n
        invariant
            n == chars.len(),
            chars@ == format@,
            i <= n,
            out@ + format_template(format@.skip(i as int), plain@, variables@) == format_template(format@, Seq::empty(), variables@),
        decreases n - i,
    {
        let ghost rest = format@.skip(i as int);
        let ghost before = out@;
        assert(rest[0] == chars@[i as int]);
        assert(rest.drop_first() =~= format@.skip(i + 1));
        let group = if chars[i] == '[' {
            closing_bracket(&chars, i + 1)
        } else {
            None
        };
        match group {
            Some(end) => {
                proof {
                    assert(chars@.skip(i + 1) =~= rest.drop_first());
                }
                let (head, _) = render_aws_format_part(&plain, variables);
                push_str(&mut out, head.as_str());
                let inner = slice_range(chars.as_slice(), i + 1, end);
                let (text, has) = render_aws_format_part(&inner, variables);
                if has {
                    push_str(&mut out, text.as_str());
                }
                proof {
                    let j = end - (i + 1);
                    assert(inner@ =~= rest.subrange(1, j + 1));
                    assert(rest.skip(j + 2) =~= format@.skip(end + 1));
                }
                plain = Vec::new();
                proof {
                    assert(plain@ =~= Seq::<char>::empty());
                    if has {
                        assert(before + (head@ + text@ + format_template(format@.skip(end + 1), Seq::empty(), variables@)) =~= out@ + format_template(format@.skip(end + 1), plain@, variables@));
                    } else {
                        assert(before + (head@ + Seq::<char>::empty() + format_template(format@.skip(end + 1), Seq::empty(), variables@)) =~= out@ + format_template(format@.skip(end + 1), plain@, variables@));
                    }
                }
                i = end + 1;
            },
            None => {
                plain.push(chars[i]);
                i += 1;
            },
        }
    }
    assert(format@.skip(i as int) =~= Seq::<char>::empty());
    let (tail, _) = render_aws_format_part(&plain, variables);
    push_str(&mut out, tail.as_str());
    out
}

/// What `$symbol` stands for.
pub fn aws_symbol(config: &SegmentConfig) -> (r: String)
    ensures
        r@ == aws_symbol_of(config@),
{
    match &config.icon {
        Some(i) => {
            if i.unicode_len() == 0 {
                String::new()
            } else {
                let mut s = copy_str(i.as_str());
                push_char(&mut s, ' ');
                s
            }
        },
        None => {
            let mut s = String::new();
            push_char(&mut s, '\u{e33d}');
            push_char(&mut s, ' ');
            assert(s@ =~= aws_icon() + seq![' ']);
            s
        },
    }
}

// ---------------------------------------------------------------------------
// The segment
// ---------------------------------------------------------------------------

/// The AWS segment: the context's label, or the configured format filled in,
/// behind the icon; nothing when there is no context or the text is empty.
pub open spec fn aws_content(env: PromptEnvView, config: SegmentConfigView) -> Option<SegmentContentView> {
    let force = match config.force_display {
        Some(f) => f,
        None => true,
    };
    match aws_context_of(env, force) {
        None => None,
        Some((profile, region)) => {
            let text = match config.format {
                Some(f) => format_template(f, Seq::empty(), FormatVars { symbol: aws_symbol_of(config), profile, region }),
                None => icon_label(aws_label(profile, region), config.icon, aws_icon()),
            };
            if text.len() == 0 {
                None
            } else {
                Some(plain_content("aws"@, text, style_or(config.style, StyleView { fg: Some("yellow"@), bg: None, bold: true })))
            }
        },
    }
}

/// The AWS segment for an environment.
pub fn render_aws(env: &PromptEnv, config: &SegmentConfig) -> (r: Option<SegmentContent>)
    ensures
        content_opt(r) == aws_content(env@, config@),
{
    let force_display = match config.force_display {
        Some(f) => f,
        None => true,
    };
    let (profile, region) = match resolve_aws_context(env, force_display) {
        Some(c) => c,
        None => return None,
    };
    let text = match &config.format {
        Some(format) => {
            let variables = AwsFormatVariables { symbol: aws_symbol(config), profile, region };
            render_aws_format_template(format.as_str(), &variables)
        },
        None => {
            let label = aws_context_label(&profile, &region);
            let mut icon = String::new();
            push_char(&mut icon, '\u{e33d}');
            assert(icon@ =~= aws_icon());
            label_with_icon(label.as_str(), config, icon.as_str())
        },
    };
    if text.unicode_len() == 0 {
        return None;
    }
    let style = crate::segments::style_or_default(config, Style::fg_named("yellow", true));
    Some(SegmentContent::new("aws", text.as_str(), style))
}

/// Where the AWS config file lies: `AWS_CONFIG_FILE`, else `.aws/config` joined onto
/// the home directory.
pub fn aws_config_file_path(env: &PromptEnv) -> (r: Option<String>)
    ensures
        opt_view(r) == match env@.aws.aws_config_file {
            Some(p) => Some(p),
            None => match env@.home {
                Some(h) => Some(crate::config::load::join_path(h, ".aws/config"@)),
                None => None,
            },
        },
{
    match &env.aws.aws_config_file {
        Some(p) => Some(copy_str(p.as_str())),
        None => match &env.home {
            Some(h) => Some(crate::config::load::join_path_str(h.as_str(), ".aws/config")),
            None => None,
        },
    }
}

/// Where the AWS credentials file lies: `AWS_SHARED_CREDENTIALS_FILE`, else
/// `AWS_CREDENTIALS_FILE`, else `.aws/credentials` joined onto the home directory.
pub fn aws_credentials_file_path(env: &PromptEnv) -> (r: Option<String>)
    ensures
        opt_view(r) == match env@.aws.aws_shared_credentials_file {
            Some(p) => Some(p),
            None => match env@.aws.aws_credentials_file {
                Some(p) => Some(p),
                None => match env@.home {
                    Some(h) => Some(crate::config::load::join_path(h, ".aws/credentials"@)),
                    None => None,
                },
            },
        },
{
    match &env.aws.aws_shared_credentials_file {
        Some(p) => Some(copy_str(p.as_str())),
        None => match &env.aws.aws_credentials_file {
            Some(p) => Some(copy_str(p.as_str())),
            None => match &env.home {
                Some(h) => Some(crate::config::load::join_path_str(h.as_str(), ".aws/credentials")),
                None => None,
            },
        },
    }
}

pub struct AwsSegment;

impl SyncSegment for AwsSegment {
    fn id(&self) -> &'static str {
        "aws"
    }

    fn render(&self, state: &PromptState, config: &SegmentConfig) -> (r: Option<SegmentContent>)
        ensures
            content_opt(r) == aws_content(state@.env, config@),
    {
        render_aws(&state.env, config)
    }
}

} // verus!
