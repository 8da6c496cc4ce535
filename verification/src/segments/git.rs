//! Git branch and status segments.
//!
//! `git status --porcelain=v2 --branch --show-stash -z` runs outside this
//! library; its output is read here.

use vstd::prelude::*;

use crate::cache::{CacheKey, CacheKeyView};
use crate::config::{
    lookup_pair, lookup_pairs, opt_view, push_string, strings_view, SegmentConfig, SegmentConfigView,
};
use crate::segments::{
    content_opt, icon_label, label_with_icon, plain_content, style_or, SegmentContent,
    SegmentContentView, Style, StyleView,
};
use crate::text::{
    chars_of, copy_str, decimal, format_u64, has_prefix, join_chars, join_with, parse_unsigned,
    parse_unsigned_chars, push_char, push_str, slice_range, split_whitespace_n, starts_with,
    str_eq, string_of, trim, trim_chars, views, words,
};

verus! {

/// What `git status` reported.
#[derive(Clone, Debug, Default, PartialEq, Eq)]
pub struct GitStatus {
    pub branch: Option<String>,
    pub head_oid: Option<String>,
    pub staged: usize,
    pub modified: usize,
    pub untracked: usize,
    pub conflicted: usize,
    pub stashed: usize,
    pub ahead: usize,
    pub behind: usize,
}

pub struct GitStatusView {
    pub branch: Option<Seq<char>>,
    pub head_oid: Option<Seq<char>>,
    pub staged: usize,
    pub modified: usize,
    pub untracked: usize,
    pub conflicted: usize,
    pub stashed: usize,
    pub ahead: usize,
    pub behind: usize,
}

impl View for GitStatus {
    type V = GitStatusView;

    open spec fn view(&self) -> GitStatusView {
        GitStatusView {
            branch: opt_view(self.branch),
            head_oid: opt_view(self.head_oid),
            staged: self.staged,
            modified: self.modified,
            untracked: self.untracked,
            conflicted: self.conflicted,
            stashed: self.stashed,
            ahead: self.ahead,
            behind: self.behind,
        }
    }
}

pub open spec fn empty_status() -> GitStatusView {
    GitStatusView {
        branch: None,
        head_oid: None,
        staged: 0,
        modified: 0,
        untracked: 0,
        conflicted: 0,
        stashed: 0,
        ahead: 0,
        behind: 0,
    }
}

/// Whether anything is staged, modified, untracked, conflicted, stashed, or
/// ahead of or behind the upstream.
pub open spec fn changed(s: GitStatusView) -> bool {
    s.staged > 0 || s.modified > 0 || s.untracked > 0 || s.conflicted > 0 || s.stashed > 0
        || s.ahead > 0 || s.behind > 0
}

impl GitStatus {
    /// A status with nothing reported.
    pub fn empty() -> (r: GitStatus)
        ensures
            r@ == empty_status(),
    {
        GitStatus {
            branch: None,
            head_oid: None,
            staged: 0,
            modified: 0,
            untracked: 0,
            conflicted: 0,
            stashed: 0,
            ahead: 0,
            behind: 0,
        }
    }

    /// Whether the repository has anything to show in the status segment.
    pub fn has_changes(&self) -> (r: bool)
        ensures
            r == changed(self@),
    {
        self.staged > 0 || self.modified > 0 || self.untracked > 0 || self.conflicted > 0
            || self.stashed > 0 || self.ahead > 0 || self.behind > 0
    }
}

// ---------------------------------------------------------------------------
// Reading the porcelain output
// ---------------------------------------------------------------------------

/// The text `String::from_utf8_lossy` makes of some bytes.
pub uninterp spec fn utf8_lossy(bytes: Seq<u8>) -> Seq<char>;

/// Decodes bytes as UTF-8, replacing what is not.
///
/// Calls `String::from_utf8_lossy`. Its result is named `utf8_lossy`; beyond the
/// name, the contract states what std documents plainly: valid UTF-8, and so
/// ASCII, is read as it is. How invalid sequences are replaced is left unsaid.
#[verifier::external_body]
pub(crate) fn decode_lossy(bytes: &[u8]) -> (r: String)
    ensures
        r@ == utf8_lossy(bytes@),
        (forall|k: int| 0 <= k < bytes@.len() ==> #[trigger] bytes@[k] < 128) ==> r@ == Seq::new(
            bytes@.len(),
            |i: int| (bytes@[i] as u32) as char,
        ),
{
    String::from_utf8_lossy(bytes).into_owned()
}

/// `+1` that stops at the largest count.
pub open spec fn bump(n: usize) -> usize {
    if n < usize::MAX {
        (n + 1) as usize
    } else {
        n
    }
}

/// A trimmed value, unless nothing is left.
pub open spec fn non_empty_value(s: Seq<char>) -> Option<Seq<char>> {
    if trim(s).len() == 0 {
        None
    } else {
        Some(trim(s))
    }
}

/// The branch a `# branch.head` line names; `(detached)` names none.
pub open spec fn branch_of(s: Seq<char>) -> Option<Seq<char>> {
    let t = trim(s);
    if t.len() == 0 || t == "(detached)"@ {
        None
    } else {
        Some(t)
    }
}

/// A count, or 0 when it does not read as one.
pub open spec fn count_of(s: Seq<char>) -> usize {
    match parse_unsigned(s, usize::MAX as nat) {
        Some(n) => n as usize,
        None => 0,
    }
}

/// Reading the words of a `# branch.ab` line: `+n` sets ahead, `-n` behind.
pub open spec fn ahead_behind(ws: Seq<Seq<char>>, st: GitStatusView) -> GitStatusView
    decreases ws.len(),
{
    if ws.len() == 0 {
        st
    } else {
        let w = ws.last();
        let prev = ahead_behind(ws.drop_last(), st);
        if w.len() > 0 && w[0] == '+' {
            GitStatusView { ahead: count_of(w.drop_first()), ..prev }
        } else if w.len() > 0 && w[0] == '-' {
            GitStatusView { behind: count_of(w.drop_first()), ..prev }
        } else {
            prev
        }
    }
}

/// Reading a `1` or `2` entry: its second word is the XY status; a staged change
/// shows in X, a worktree change in Y.
pub open spec fn changed_entry(r: Seq<char>, st: GitStatusView) -> GitStatusView {
    let ws = words(r);
    if ws.len() < 2 {
        st
    } else {
        let xy = ws[1];
        GitStatusView {
            staged: if xy.len() >= 1 && xy[0] != '.' { bump(st.staged) } else { st.staged },
            modified: if xy.len() >= 2 && xy[1] != '.' { bump(st.modified) } else { st.modified },
            ..st
        }
    }
}

/// Reading one record.
pub open spec fn record_step(r: Seq<char>, st: GitStatusView) -> GitStatusView {
    if starts_with(r, "# branch.oid "@) {
        GitStatusView { head_oid: non_empty_value(r.skip(13)), ..st }
    } else if starts_with(r, "# branch.head "@) {
        GitStatusView { branch: branch_of(r.skip(14)), ..st }
    } else if starts_with(r, "# branch.ab "@) {
        ahead_behind(words(r.skip(12)), st)
    } else if starts_with(r, "# stash "@) {
        GitStatusView { stashed: count_of(trim(r.skip(8))), ..st }
    } else if starts_with(r, "1 "@) || starts_with(r, "2 "@) {
        changed_entry(r, st)
    } else if starts_with(r, "u "@) {
        GitStatusView { conflicted: bump(st.conflicted), ..st }
    } else if starts_with(r, "? "@) {
        GitStatusView { untracked: bump(st.untracked), ..st }
    } else {
        st
    }
}

/// Reading the NUL-separated records of the output; `current` holds the bytes
/// of the record being read.
pub open spec fn scan_records(bytes: Seq<u8>, current: Seq<u8>, st: GitStatusView) -> GitStatusView
    decreases bytes.len(),
{
    if bytes.len() == 0 {
        apply_record(current, st)
    } else if bytes[0] == 0 {
        scan_records(bytes.drop_first(), Seq::empty(), apply_record(current, st))
    } else {
        scan_records(bytes.drop_first(), current.push(bytes[0]), st)
    }
}

pub open spec fn apply_record(rec: Seq<u8>, st: GitStatusView) -> GitStatusView {
    if rec.len() == 0 {
        st
    } else {
        record_step(utf8_lossy(rec), st)
    }
}

/// What the porcelain output reports.
pub open spec fn porcelain_status(output: Seq<u8>) -> GitStatusView {
    scan_records(output, Seq::empty(), empty_status())
}

/// An untracked (`? `) record adds one to the untracked count (short of the largest
/// count) and leaves everything else as it was.
pub proof fn law_untracked_record_counts_one(r: Seq<char>, st: GitStatusView)
    requires
        starts_with(r, "? "@),
    ensures
        st.untracked < usize::MAX ==> record_step(r, st).untracked == st.untracked + 1,
        record_step(r, st).staged == st.staged,
        record_step(r, st).modified == st.modified,
        record_step(r, st).conflicted == st.conflicted,
        record_step(r, st).stashed == st.stashed,
        record_step(r, st).ahead == st.ahead,
        record_step(r, st).behind == st.behind,
        record_step(r, st).branch == st.branch,
        record_step(r, st).head_oid == st.head_oid,
{
    reveal_strlit("? ");
    reveal_strlit("# branch.oid ");
    reveal_strlit("# branch.head ");
    reveal_strlit("# branch.ab ");
    reveal_strlit("# stash ");
    reveal_strlit("1 ");
    reveal_strlit("2 ");
    reveal_strlit("u ");
    assert(r[0] == '?') by {
        assert(r.subrange(0, 2)[0] == r[0]);
    }
    assert(!starts_with(r, "# branch.oid "@)) by {
        if starts_with(r, "# branch.oid "@) {
            assert(r.subrange(0, 13)[0] == r[0]);
        }
    }
    assert(!starts_with(r, "# branch.head "@)) by {
        if starts_with(r, "# branch.head "@) {
            assert(r.subrange(0, 14)[0] == r[0]);
        }
    }
    assert(!starts_with(r, "# branch.ab "@)) by {
        if starts_with(r, "# branch.ab "@) {
            assert(r.subrange(0, 12)[0] == r[0]);
        }
    }
    assert(!starts_with(r, "# stash "@)) by {
        if starts_with(r, "# stash "@) {
            assert(r.subrange(0, 8)[0] == r[0]);
        }
    }
    assert(!starts_with(r, "1 "@) && !starts_with(r, "2 "@) && !starts_with(r, "u "@)) by {
        if starts_with(r, "1 "@) || starts_with(r, "2 "@) || starts_with(r, "u "@) {
            assert(r.subrange(0, 2)[0] == r[0]);
        }
    }
}

proof fn lemma_scan_concat(bytes: Seq<u8>, tail: Seq<u8>, cur: Seq<u8>, st: GitStatusView)
    requires
        bytes.len() > 0,
        bytes.last() == 0,
    ensures
        scan_records(bytes + tail, cur, st) == scan_records(tail, Seq::empty(), scan_records(bytes, cur, st)),
    decreases bytes.len(),
{
    let bt = bytes + tail;
    assert(bt[0] == bytes[0]);
    assert(bt.drop_first() =~= bytes.drop_first() + tail);
    if bytes.len() == 1 {
        assert(bytes.drop_first() =~= Seq::<u8>::empty());
        assert(bytes.drop_first() + tail =~= tail);
    } else {
        assert(bytes.drop_first().last() == bytes.last());
        if bytes[0] == 0 {
            lemma_scan_concat(bytes.drop_first(), tail, Seq::empty(), apply_record(cur, st));
        } else {
            lemma_scan_concat(bytes.drop_first(), tail, cur.push(bytes[0]), st);
        }
    }
}

proof fn lemma_scan_record(rec: Seq<u8>, cur: Seq<u8>, st: GitStatusView)
    requires
        forall|i: int| 0 <= i < rec.len() ==> rec[i] != 0,
    ensures
        scan_records(rec.push(0), cur, st) == apply_record(cur + rec, st),
    decreases rec.len(),
{
    let x = rec.push(0);
    if rec.len() == 0 {
        assert(x.drop_first() =~= Seq::<u8>::empty());
        assert(cur + rec =~= cur);
        assert(x[0] == 0);
        let inner = apply_record(cur, st);
        assert(scan_records(Seq::<u8>::empty(), Seq::<u8>::empty(), inner) == apply_record(
            Seq::<u8>::empty(),
            inner,
        ));
        assert(scan_records(x, cur, st) == scan_records(x.drop_first(), Seq::<u8>::empty(), inner));
    } else {
        assert(x[0] == rec[0]);
        assert(x.len() > 0);
        assert(x[0] != 0);
        assert(x.drop_first() =~= rec.drop_first().push(0));
        lemma_scan_record(rec.drop_first(), cur.push(rec[0]), st);
        assert(cur.push(rec[0]) + rec.drop_first() =~= cur + rec);
    }
}

/// Appending one untracked record to the output (after whole records) adds one to
/// the untracked count, short of the largest count, and changes no other count.
pub proof fn law_untracked_record_adds_one(out: Seq<u8>, rec: Seq<u8>)
    requires
        out.len() == 0 || out.last() == 0,
        rec.len() > 0,
        forall|i: int| 0 <= i < rec.len() ==> rec[i] != 0,
        starts_with(utf8_lossy(rec), "? "@),
        porcelain_status(out).untracked < usize::MAX,
    ensures
        porcelain_status(out + rec.push(0)).untracked == porcelain_status(out).untracked + 1,
        porcelain_status(out + rec.push(0)).staged == porcelain_status(out).staged,
        porcelain_status(out + rec.push(0)).modified == porcelain_status(out).modified,
        porcelain_status(out + rec.push(0)).conflicted == porcelain_status(out).conflicted,
        porcelain_status(out + rec.push(0)).stashed == porcelain_status(out).stashed,
        porcelain_status(out + rec.push(0)).branch == porcelain_status(out).branch,
{
    let x = rec.push(0);
    lemma_scan_record(rec, Seq::empty(), empty_status());
    assert(Seq::<u8>::empty() + rec =~= rec);
    if out.len() == 0 {
        assert(out + x =~= x);
        assert(porcelain_status(out) == empty_status());
        lemma_scan_record(rec, Seq::empty(), porcelain_status(out));
    } else {
        lemma_scan_concat(out, x, Seq::empty(), empty_status());
        lemma_scan_record(rec, Seq::empty(), porcelain_status(out));
    }
    law_untracked_record_counts_one(utf8_lossy(rec), porcelain_status(out));
}

/// The output made of `recs`, each ended by NUL.
pub open spec fn nul_terminated(recs: Seq<Seq<u8>>) -> Seq<u8>
    decreases recs.len(),
{
    if recs.len() == 0 {
        Seq::empty()
    } else {
        nul_terminated(recs.drop_last()) + recs.last().push(0)
    }
}

/// Output holding `n` untracked records and nothing else reports `n` untracked
/// files and nothing else changed.
pub proof fn law_untracked_records_count(recs: Seq<Seq<u8>>)
    requires
        recs.len() < usize::MAX,
        forall|k: int|
            0 <= k < recs.len() ==> #[trigger] recs[k].len() > 0 && starts_with(utf8_lossy(recs[k]), "? "@)
                && forall|i: int| 0 <= i < recs[k].len() ==> recs[k][i] != 0,
    ensures
        porcelain_status(nul_terminated(recs)).untracked == recs.len(),
        porcelain_status(nul_terminated(recs)).staged == 0,
        porcelain_status(nul_terminated(recs)).modified == 0,
        porcelain_status(nul_terminated(recs)).conflicted == 0,
    decreases recs.len(),
{
    if recs.len() == 0 {
        assert(nul_terminated(recs) == Seq::<u8>::empty());
        assert(porcelain_status(Seq::<u8>::empty()) == empty_status());
    } else {
        let d = recs.drop_last();
        assert forall|k: int| 0 <= k < d.len() implies #[trigger] d[k].len() > 0 && starts_with(utf8_lossy(d[k]), "? "@)
            && forall|i: int| 0 <= i < d[k].len() ==> d[k][i] != 0 by {
            assert(d[k] == recs[k]);
        }
        law_untracked_records_count(d);
        let out = nul_terminated(d);
        let last = recs.last();
        assert(last == recs[recs.len() - 1]);
        if d.len() > 0 {
            assert(out == nul_terminated(d.drop_last()) + d.last().push(0));
            assert(out.last() == 0);
        } else {
            assert(out == Seq::<u8>::empty());
        }
        law_untracked_record_adds_one(out, last);
    }
}

fn bump_count(n: usize) -> (r: usize)
    ensures
        r == bump(n),
{
    if n < usize::MAX {
        n + 1
    } else {
        n
    }
}

fn parse_count(s: &Vec<char>) -> (r: usize)
    ensures
        r == count_of(s@),
{
    match parse_unsigned_chars(s.as_slice(), usize::MAX as u64) {
        Some(n) => n as usize,
        None => 0,
    }
}

fn literal(s: &str) -> (r: Vec<char>)
    ensures
        r@ == s@,
{
    chars_of(s)
}

/// Reads the words of a `# branch.ab` line.
fn parse_ahead_behind(counts: &Vec<char>, status: &mut GitStatus)
    ensures
        final(status)@ == ahead_behind(words(counts@), old(status)@),
{
    let ws = split_whitespace_n(counts.as_slice(), usize::MAX);
    let ghost all = words(counts@);
    proof {
        crate::text::lemma_words_len(counts@);
        assert(counts@.len() == counts.len());
        assert(all.take(all.len() as int) =~= all);
        if (usize::MAX as int) <= all.len() {
            assert(all.len() == usize::MAX);
        }
    }
    assert(views(ws@) =~= all);
    let mut i: usize = 0;
    assert(all.take(0) =~= Seq::<Seq<char>>::empty());
    while i < ws.len()
        invariant
            i <= ws.len(),
            views(ws@) == all,
            status@ == ahead_behind(all.take(i as int), old(status)@),
        decreases ws.len() - i,
    {
        proof {
            assert(all.take(i + 1).drop_last() =~= all.take(i as int));
            assert(all.take(i + 1).last() == ws@[i as int]@);
        }
        let w = &ws[i];
        if w.len() > 0 && w[0] == '+' {
            let rest = slice_range(w.as_slice(), 1, w.len());
            assert(rest@ =~= w@.drop_first());
            status.ahead = parse_count(&rest);
        } else if w.len() > 0 && w[0] == '-' {
            let rest = slice_range(w.as_slice(), 1, w.len());
            assert(rest@ =~= w@.drop_first());
            status.behind = parse_count(&rest);
        }
        i += 1;
    }
    assert(all.take(i as int) =~= all);
}

/// Reads a `1` or `2` entry.
fn parse_changed_entry(record: &Vec<char>, status: &mut GitStatus)
    ensures
        final(status)@ == changed_entry(record@, old(status)@),
{
    let ws = split_whitespace_n(record.as_slice(), 2);
    proof {
        let all = words(record@);
        let m: int = if 2 <= all.len() { 2 } else { all.len() as int };
        assert(views(ws@) == all.take(m));
        assert(views(ws@).len() == ws.len());
        if m >= 2 {
            assert(all.take(m)[1] == all[1]);
            assert(views(ws@)[1] == ws@[1]@);
        }
    }
    if ws.len() < 2 {
        return;
    }
    let xy = &ws[1];
    if xy.len() >= 1 && xy[0] != '.' {
        status.staged = bump_count(status.staged);
    }
    if xy.len() >= 2 && xy[1] != '.' {
        status.modified = bump_count(status.modified);
    }
}

/// Reads one record.
pub fn parse_record(record: &str, status: &mut GitStatus)
    ensures
        final(status)@ == record_step(record@, old(status)@),
{
    let r = chars_of(record);
    let oid_p = literal("# branch.oid ");
    let head_p = literal("# branch.head ");
    let ab_p = literal("# branch.ab ");
    let stash_p = literal("# stash ");
    proof {
        reveal_strlit("# branch.oid ");
        reveal_strlit("# branch.head ");
        reveal_strlit("# branch.ab ");
        reveal_strlit("# stash ");
    }
    if has_prefix(r.as_slice(), oid_p.as_slice()) {
        let rest = slice_range(r.as_slice(), 13, r.len());
        let t = trim_chars(rest.as_slice());
        assert(rest@ =~= record@.skip(13));
        status.head_oid = if t.len() == 0 {
            None
        } else {
            Some(string_of(t.as_slice()))
        };
    } else if has_prefix(r.as_slice(), head_p.as_slice()) {
        let rest = slice_range(r.as_slice(), 14, r.len());
        let t = trim_chars(rest.as_slice());
        assert(rest@ =~= record@.skip(14));
        let ts = string_of(t.as_slice());
        status.branch = if t.len() == 0 || str_eq(ts.as_str(), "(detached)") {
            None
        } else {
            Some(ts)
        };
    } else if has_prefix(r.as_slice(), ab_p.as_slice()) {
        let rest = slice_range(r.as_slice(), 12, r.len());
        assert(rest@ =~= record@.skip(12));
        parse_ahead_behind(&rest, status);
    } else if has_prefix(r.as_slice(), stash_p.as_slice()) {
        let rest = slice_range(r.as_slice(), 8, r.len());
        assert(rest@ =~= record@.skip(8));
        let t = trim_chars(rest.as_slice());
        status.stashed = parse_count(&t);
    } else if has_prefix(r.as_slice(), literal("1 ").as_slice()) || has_prefix(r.as_slice(), literal("2 ").as_slice()) {
        parse_changed_entry(&r, status);
    } else if has_prefix(r.as_slice(), literal("u ").as_slice()) {
        status.conflicted = bump_count(status.conflicted);
    } else if has_prefix(r.as_slice(), literal("? ").as_slice()) {
        status.untracked = bump_count(status.untracked);
    }
}

fn apply_bytes(current: &Vec<u8>, status: &mut GitStatus)
    ensures
        final(status)@ == apply_record(current@, old(status)@),
{
    if current.len() == 0 {
        return;
    }
    let text = decode_lossy(current.as_slice());
    parse_record(text.as_str(), status);
}

/// What the porcelain v2 output of `git status` reports.
pub fn parse_porcelain_v2_z(output: &[u8]) -> (r: GitStatus)
    ensures
        r@ == porcelain_status(output@),
{
    let mut status = GitStatus::empty();
    let mut current: Vec<u8> = Vec::new();
    let mut i: usize = 0;
    assert(output@.skip(0) =~= output@);
    while i < output.len()
        invariant
            i <= output.len(),
            scan_records(output@.skip(i as int), current@, status@) == porcelain_status(output@),
        decreases output.len() - i,
    {
        let ghost rest = output@.skip(i as int);
        assert(rest[0] == output@[i as int]);
        assert(rest.drop_first() =~= output@.skip(i + 1));
        if output[i] == 0 {
            apply_bytes(&current, &mut status);
            current = Vec::new();
            assert(current@ =~= Seq::<u8>::empty());
        } else {
            current.push(output[i]);
        }
        i += 1;
    }
    apply_bytes(&current, &mut status);
    assert(output@.skip(i as int) =~= Seq::<u8>::empty());
    status
}

// ---------------------------------------------------------------------------
// Branch
// ---------------------------------------------------------------------------

pub open spec fn git_branch_icon() -> Seq<char> {
    seq!['\u{f418}']
}

/// How many bytes a character takes in UTF-8.
pub open spec fn utf8_len(c: char) -> nat {
    if (c as u32) < 0x80 {
        1
    } else if (c as u32) < 0x800 {
        2
    } else if (c as u32) < 0x10000 {
        3
    } else {
        4
    }
}

/// The UTF-8 length of the longest prefix of `s` within `max` bytes, and that prefix.
pub open spec fn bytes_prefix(s: Seq<char>, max: nat) -> Seq<char>
    decreases s.len(),
{
    if s.len() == 0 || utf8_len(s[0]) > max {
        Seq::empty()
    } else {
        seq![s[0]] + bytes_prefix(s.drop_first(), (max - utf8_len(s[0])) as nat)
    }
}

pub open spec fn utf8_total(s: Seq<char>) -> nat
    decreases s.len(),
{
    if s.len() == 0 {
        0
    } else {
        utf8_len(s[0]) + utf8_total(s.drop_first())
    }
}

/// Whether the first seven bytes of an object id end on a character boundary
/// (always so for the hexadecimal ids git prints).
pub open spec fn short_oid_ok(oid: Seq<char>) -> bool {
    utf8_total(oid) <= 7 || utf8_total(bytes_prefix(oid, 7)) == 7
}

/// A detached head: `HEAD` and the first seven bytes of the object id.
pub open spec fn detached_label(oid: Seq<char>) -> Seq<char> {
    "HEAD "@ + bytes_prefix(oid, 7)
}

/// The branch, or the detached head, behind the branch icon.
pub open spec fn git_branch_content(status: GitStatusView, config: SegmentConfigView) -> Option<SegmentContentView> {
    let label = match status.branch {
        Some(b) => Some(b),
        None => match status.head_oid {
            Some(o) => Some(detached_label(o)),
            None => None,
        },
    };
    match label {
        None => None,
        Some(l) => Some(
            plain_content(
                "git_branch"@,
                icon_label(l, config.icon, git_branch_icon()),
                style_or(config.style, StyleView { fg: Some("magenta"@), bg: None, bold: true }),
            ),
        ),
    }
}

fn char_utf8_len(c: char) -> (r: usize)
    ensures
        r == utf8_len(c),
{
    let u = c as u32;
    if u < 0x80 {
        1
    } else if u < 0x800 {
        2
    } else if u < 0x10000 {
        3
    } else {
        4
    }
}

/// The first seven bytes of an object id.
pub fn short_oid(oid: &str) -> (r: String)
    requires
        short_oid_ok(oid@),
    ensures
        r@ == bytes_prefix(oid@, 7),
{
    let chars = chars_of(oid);
    let mut used: usize = 0;
    let mut i: usize = 0;
    let mut out = String::new();
    assert(oid@.skip(0) =~= oid@);
    assert(out@ + bytes_prefix(oid@, 7) =~= bytes_prefix(oid@, 7));
    while i < chars.len()
        invariant
            i <= chars.len(),
            chars@ == oid@,
            used <= 7,
            out@ + bytes_prefix(oid@.skip(i as int), (7 - used) as nat) == bytes_prefix(oid@, 7),
        decreases chars.len() - i,
    {
        let c = chars[i];
        let w = char_utf8_len(c);
        let ghost rest = oid@.skip(i as int);
        assert(rest[0] == c);
        assert(rest.drop_first() =~= oid@.skip(i + 1));
        if w > 7 - used {
            assert(out@ + Seq::<char>::empty() =~= out@);
            return out;
        }
        let ghost before = out@;
        push_char(&mut out, c);
        used = used + w;
        i += 1;
        assert(before + (seq![c] + bytes_prefix(oid@.skip(i as int), (7 - used) as nat)) =~= out@ + bytes_prefix(oid@.skip(i as int), (7 - used) as nat));
    }
    assert(oid@.skip(i as int) =~= Seq::<char>::empty());
    assert(out@ + Seq::<char>::empty() =~= out@);
    out
}

/// The label of a detached head.
pub fn detached_head_label(oid: &str) -> (r: String)
    requires
        short_oid_ok(oid@),
    ensures
        r@ == detached_label(oid@),
{
    let mut s = "HEAD ".to_string();
    let short = short_oid(oid);
    push_str(&mut s, short.as_str());
    s
}

/// The branch segment.
pub fn render_git_branch(status: &GitStatus, config: &SegmentConfig) -> (r: Option<SegmentContent>)
    requires
        status@.branch is None ==> (status@.head_oid matches Some(o) ==> short_oid_ok(o)),
    ensures
        content_opt(r) == git_branch_content(status@, config@),
{
    let label = match &status.branch {
        Some(b) => copy_str(b.as_str()),
        None => match &status.head_oid {
            Some(o) => detached_head_label(o.as_str()),
            None => return None,
        },
    };
    let mut icon = String::new();
    push_char(&mut icon, '\u{f418}');
    assert(icon@ =~= git_branch_icon());
    let text = label_with_icon(label.as_str(), config, icon.as_str());
    let style = crate::segments::style_or_default(config, Style::fg_named("magenta", true));
    Some(SegmentContent::new("git_branch", text.as_str(), style))
}

// ---------------------------------------------------------------------------
// Status
// ---------------------------------------------------------------------------

/// The symbol an indicator uses: the configured icon (none when configured
/// empty), else the default.
pub open spec fn indicator_icon(config: SegmentConfigView, name: Seq<char>, default: Seq<char>) -> Option<Seq<char>> {
    match lookup_pairs(config.icons, name) {
        Some(i) => if i.len() == 0 {
            None
        } else {
            Some(i)
        },
        None => Some(default),
    }
}

/// An indicator: the symbol and the count, shown when the count is positive.
pub open spec fn indicator(config: SegmentConfigView, name: Seq<char>, default: Seq<char>, count: usize) -> Seq<Seq<char>> {
    match indicator_icon(config, name, default) {
        Some(sym) => if count > 0 {
            seq![sym + decimal(count as nat)]
        } else {
            Seq::empty()
        },
        None => Seq::empty(),
    }
}

/// The indicators in their fixed order: conflicted, modified, staged, untracked,
/// stash, ahead, behind.
pub open spec fn indicators(s: GitStatusView, c: SegmentConfigView) -> Seq<Seq<char>> {
    indicator(c, "conflicted"@, "="@, s.conflicted) + indicator(c, "modified"@, "!"@, s.modified)
        + indicator(c, "staged"@, "+"@, s.staged) + indicator(c, "untracked"@, "?"@, s.untracked)
        + indicator(c, "stash"@, "$"@, s.stashed) + indicator(c, "ahead"@, seq!['\u{21e1}'], s.ahead)
        + indicator(c, "behind"@, seq!['\u{21e3}'], s.behind)
}

/// The indicators in brackets, separated by spaces; none when there are none.
pub open spec fn git_indicators(s: GitStatusView, c: SegmentConfigView) -> Option<Seq<char>> {
    let list = indicators(s, c);
    if list.len() == 0 {
        None
    } else {
        Some(seq!['['] + join_with(list, seq![' ']) + seq![']'])
    }
}

/// The status segment.
pub open spec fn git_status_content(status: GitStatusView, config: SegmentConfigView) -> Option<SegmentContentView> {
    match git_indicators(status, config) {
        None => None,
        Some(t) => Some(
            plain_content(
                "git_status"@,
                t,
                style_or(config.style, StyleView { fg: Some("red"@), bg: None, bold: true }),
            ),
        ),
    }
}

fn git_status_icon(config: &SegmentConfig, name: &str, default: &str) -> (r: Option<String>)
    ensures
        opt_view(r) == indicator_icon(config@, name@, default@),
{
    match lookup_pair(&config.icons, name) {
        Some(i) => {
            if i.unicode_len() == 0 {
                None
            } else {
                Some(copy_str(i.as_str()))
            }
        },
        None => Some(copy_str(default)),
    }
}

fn push_indicator(indicators: &mut Vec<Vec<char>>, symbol: Option<String>, count: usize, ghost_config: Ghost<(SegmentConfigView, Seq<char>, Seq<char>)>)
    requires
        opt_view(symbol) == indicator_icon(ghost_config@.0, ghost_config@.1, ghost_config@.2),
    ensures
        views(final(indicators)@) == views(old(indicators)@) + indicator(ghost_config@.0, ghost_config@.1, ghost_config@.2, count),
{
    if count > 0 {
        if let Some(sym) = symbol {
            let mut item = chars_of(sym.as_str());
            let digits = format_u64(count as u64);
            crate::text::extend_chars(&mut item, digits.as_slice());
            let ghost before = views(indicators@);
            indicators.push(item);
            assert(views(indicators@) =~= before + indicator(ghost_config@.0, ghost_config@.1, ghost_config@.2, count));
            return;
        }
    }
    assert(views(indicators@) =~= views(old(indicators)@) + indicator(ghost_config@.0, ghost_config@.1, ghost_config@.2, count));
}

/// The status indicators, in brackets.
pub fn format_git_indicators(status: &GitStatus, config: &SegmentConfig) -> (r: Option<String>)
    ensures
        opt_view(r) == git_indicators(status@, config@),
{
    let mut list: Vec<Vec<char>> = Vec::new();
    let ghost c = config@;
    assert(views(list@) =~= Seq::<Seq<char>>::empty());
    push_indicator(&mut list, git_status_icon(config, "conflicted", "="), status.conflicted, Ghost((c, "conflicted"@, "="@)));
    push_indicator(&mut list, git_status_icon(config, "modified", "!"), status.modified, Ghost((c, "modified"@, "!"@)));
    push_indicator(&mut list, git_status_icon(config, "staged", "+"), status.staged, Ghost((c, "staged"@, "+"@)));
    push_indicator(&mut list, git_status_icon(config, "untracked", "?"), status.untracked, Ghost((c, "untracked"@, "?"@)));
    push_indicator(&mut list, git_status_icon(config, "stash", "$"), status.stashed, Ghost((c, "stash"@, "$"@)));
    let mut up = String::new();
    push_char(&mut up, '\u{21e1}');
    assert(up@ =~= seq!['\u{21e1}']);
    push_indicator(&mut list, git_status_icon(config, "ahead", up.as_str()), status.ahead, Ghost((c, "ahead"@, seq!['\u{21e1}'])));
    let mut down = String::new();
    push_char(&mut down, '\u{21e3}');
    assert(down@ =~= seq!['\u{21e3}']);
    push_indicator(&mut list, git_status_icon(config, "behind", down.as_str()), status.behind, Ghost((c, "behind"@, seq!['\u{21e3}'])));
    assert(views(list@) =~= indicators(status@, config@));
    if list.len() == 0 {
        return None;
    }
    let joined = join_chars(&list, &[' ']);
    assert([' ']@ =~= seq![' ']);
    let mut out = String::new();
    push_char(&mut out, '[');
    let j = string_of(joined.as_slice());
    push_str(&mut out, j.as_str());
    push_char(&mut out, ']');
    assert(out@ =~= seq!['['] + join_with(indicators(status@, config@), seq![' ']) + seq![']']);
    Some(out)
}

/// The status segment.
pub fn render_git_status(status: &GitStatus, config: &SegmentConfig) -> (r: Option<SegmentContent>)
    ensures
        content_opt(r) == git_status_content(status@, config@),
{
    let text = match format_git_indicators(status, config) {
        Some(t) => t,
        None => return None,
    };
    let style = crate::segments::style_or_default(config, Style::fg_named("red", true));
    Some(SegmentContent::new("git_status", text.as_str(), style))
}

// ---------------------------------------------------------------------------
// Cache keys
// ---------------------------------------------------------------------------

/// The status key of a repository root.
pub fn git_cache_key_for_root(root: &str, config_generation: u64) -> (r: CacheKey)
    ensures
        r@ == (CacheKeyView { segment_id: "git_status"@, source: root@, config_generation }),
{
    CacheKey::new("git_status", root, config_generation)
}

/// The branch key that goes with a status key: same source and generation.
pub fn git_branch_key_from_status_key(status_key: &CacheKey) -> (r: CacheKey)
    ensures
        r@ == (CacheKeyView {
            segment_id: "git_branch"@,
            source: status_key@.source,
            config_generation: status_key@.config_generation,
        }),
{
    CacheKey::new("git_branch", status_key.source.as_str(), status_key.config_generation)
}

/// Whether `oid` satisfies `short_oid_ok` when `used` bytes were already taken.
pub open spec fn oid_ok_from(s: Seq<char>, used: nat) -> bool {
    utf8_total(s) + used <= 7 || used + utf8_total(bytes_prefix(s, (7 - used) as nat)) == 7
}

/// Whether the first seven bytes of an object id end on a character boundary, so
/// that a detached head can be labelled with them.
pub fn is_short_oid_ok(oid: &str) -> (r: bool)
    ensures
        r == short_oid_ok(oid@),
{
    let chars = chars_of(oid);
    let mut used: usize = 0;
    let mut i: usize = 0;
    assert(oid@.skip(0) =~= oid@);
    while i < chars.len()
        invariant
            i <= chars.len(),
            chars@ == oid@,
            used <= 7,
            short_oid_ok(oid@) == oid_ok_from(oid@.skip(i as int), used as nat),
        decreases chars.len() - i,
    {
        let c = chars[i];
        let w = char_utf8_len(c);
        let ghost rest = oid@.skip(i as int);
        assert(rest[0] == c);
        assert(rest.drop_first() =~= oid@.skip(i + 1));
        if w > 7 - used {
            return used == 7;
        }
        proof {
            let tail = rest.drop_first();
            let pre = bytes_prefix(tail, (7 - used - w) as nat);
            assert(utf8_total(rest) == w + utf8_total(tail));
            assert(bytes_prefix(rest, (7 - used) as nat) == seq![c] + pre);
            let joined = seq![c] + pre;
            assert(joined[0] == c);
            assert(joined.drop_first() =~= pre);
            assert(utf8_total(joined) == w + utf8_total(pre));
        }
        used = used + w;
        i += 1;
    }
    assert(oid@.skip(i as int) =~= Seq::<char>::empty());
    true
}

// ---------------------------------------------------------------------------
// Collection
// ---------------------------------------------------------------------------

/// Why `git status` gave nothing; the texts are what the operating system reported.
#[derive(Clone, Debug, PartialEq, Eq)]
pub enum GitCollectError {
    TimedOut,
    Spawn(String),
    Wait(String),
    ReadOutput(String),
    ReaderPanicked,
    MissingStdout,
    NonZeroExit,
}

impl GitCollectError {
    /// The message of this error.
    pub fn message(&self) -> (r: String)
        ensures
            r@ == match self {
                GitCollectError::TimedOut => "git status timed out"@,
                GitCollectError::Spawn(e) => "failed to spawn git status: "@ + e@,
                GitCollectError::Wait(e) => "failed to wait for git status: "@ + e@,
                GitCollectError::ReadOutput(e) => "failed to read git status output: "@ + e@,
                GitCollectError::ReaderPanicked => "git status output reader panicked"@,
                GitCollectError::MissingStdout => "failed to capture git status output"@,
                GitCollectError::NonZeroExit => "git status exited unsuccessfully"@,
            },
    {
        let (head, tail) = match self {
            GitCollectError::TimedOut => ("git status timed out", None),
            GitCollectError::Spawn(e) => ("failed to spawn git status: ", Some(e)),
            GitCollectError::Wait(e) => ("failed to wait for git status: ", Some(e)),
            GitCollectError::ReadOutput(e) => ("failed to read git status output: ", Some(e)),
            GitCollectError::ReaderPanicked => ("git status output reader panicked", None),
            GitCollectError::MissingStdout => ("failed to capture git status output", None),
            GitCollectError::NonZeroExit => ("git status exited unsuccessfully", None),
        };
        let mut s = copy_str(head);
        if let Some(t) = tail {
            push_str(&mut s, t.as_str());
        }
        s
    }
}

/// A command to run: the program, its arguments, the directory it runs in, and
/// the `PATH` it runs with (`None`: the caller's own).
#[derive(Clone, Debug, PartialEq, Eq)]
pub struct CommandLine {
    pub program: String,
    pub args: Vec<String>,
    pub dir: String,
    pub path: Option<String>,
}

/// The arguments `git` reports the status with: without optional locks, in
/// porcelain v2 with the branch and stash headers, NUL-terminated.
pub open spec fn git_status_arguments() -> Seq<Seq<char>> {
    seq![
        "--no-optional-locks"@,
        "status"@,
        "--porcelain=v2"@,
        "--branch"@,
        "--show-stash"@,
        "-z"@,
    ]
}

/// The `git status` command that collects the repository's status, run in the
/// prompt's directory `cwd` with the caller's own `PATH`.
pub fn git_status_command(cwd: &str) -> (r: CommandLine)
    ensures
        r.program@ == "git"@,
        strings_view(r.args@) == git_status_arguments(),
        r.dir@ == cwd@,
        r.path is None,
{
    let mut args: Vec<String> = Vec::new();
    assert(strings_view(args@) =~= Seq::<Seq<char>>::empty());
    push_string(&mut args, "--no-optional-locks".to_string());
    push_string(&mut args, "status".to_string());
    push_string(&mut args, "--porcelain=v2".to_string());
    push_string(&mut args, "--branch".to_string());
    push_string(&mut args, "--show-stash".to_string());
    push_string(&mut args, "-z".to_string());
    proof {
        reveal_strlit("--no-optional-locks");
        reveal_strlit("status");
        reveal_strlit("--porcelain=v2");
        reveal_strlit("--branch");
        reveal_strlit("--show-stash");
        reveal_strlit("-z");
        assert(strings_view(args@) =~= git_status_arguments());
    }
    proof {
        reveal_strlit("git");
    }
    CommandLine { program: "git".to_string(), args, dir: copy_str(cwd), path: None }
}

/// What a finished command reported: whether it exited successfully, and what it
/// wrote to its standard output.
#[derive(Clone, Debug, PartialEq, Eq)]
pub struct CommandOutput {
    pub success: bool,
    pub stdout: Vec<u8>,
}

/// The status of the repository at the prompt, given whether a repository root was
/// found and, if so, what running `git status` gave: nothing outside a repository,
/// an error where the command failed or exited unsuccessfully, else what it printed.
pub fn collect_git_status(in_repository: bool, outcome: Result<CommandOutput, GitCollectError>) -> (r: Result<
    Option<GitStatus>,
    GitCollectError,
>)
    ensures
        !in_repository ==> (r matches Ok(s) && s is None),
        in_repository ==> match outcome {
            Ok(out) => if out.success {
                r matches Ok(Some(s)) && s@ == porcelain_status(out.stdout@)
            } else {
                r == Err::<Option<GitStatus>, GitCollectError>(GitCollectError::NonZeroExit)
            },
            Err(e) => r == Err::<Option<GitStatus>, GitCollectError>(e),
        },
{
    if !in_repository {
        return Ok(None);
    }
    match outcome {
        Ok(out) => if out.success {
            Ok(Some(parse_porcelain_v2_z(out.stdout.as_slice())))
        } else {
            Err(GitCollectError::NonZeroExit)
        },
        Err(e) => Err(e),
    }
}

/// The status key of the repository holding the prompt's directory: its root is the
/// nearest of `ancestors` holding `.git`, `has_git` telling which do.
pub fn git_cache_key(ancestors: &Vec<String>, has_git: &Vec<bool>, config_generation: u64) -> (r: Option<CacheKey>)
    ensures
        match crate::segments::workspace::first_marked(
            crate::segments::workspace::string_views(ancestors@),
            has_git@,
        ) {
            Some(root) => (r matches Some(k) && k@ == (CacheKeyView {
                segment_id: "git_status"@,
                source: root,
                config_generation,
            })),
            None => r is None,
        },
{
    match crate::segments::workspace::find_repository_root(ancestors, has_git) {
        Some(root) => Some(git_cache_key_for_root(root.as_str(), config_generation)),
        None => None,
    }
}

/// Whether a collected status can be shown: a detached head's object id can be
/// shortened.
pub open spec fn showable_status(s: GitStatusView) -> bool {
    s.branch is None ==> (s.head_oid matches Some(o) ==> short_oid_ok(o))
}

/// What a finished `git status` collection stores: the branch segment under the
/// branch key and the status segment under `status_key`; both empty outside a
/// repository, both failed on error.
pub fn git_job_segments(
    status_key: CacheKey,
    result: Result<Option<GitStatus>, GitCollectError>,
    branch_config: &SegmentConfig,
    status_config: &SegmentConfig,
) -> (r: Vec<crate::worker::AsyncJobSegment>)
    requires
        result matches Ok(Some(s)) ==> showable_status(s@),
    ensures
        r@.len() == 2,
        r@[0].key@ == (CacheKeyView {
            segment_id: "git_branch"@,
            source: status_key@.source,
            config_generation: status_key@.config_generation,
        }),
        r@[1].key@ == status_key@,
        match result {
            Ok(Some(s)) => (r@[0].content matches Ok(b) && content_opt(b) == git_branch_content(
                s@,
                branch_config@,
            )) && (r@[1].content matches Ok(t) && content_opt(t) == git_status_content(
                s@,
                status_config@,
            )),
            Ok(None) => (r@[0].content matches Ok(b) && b is None) && (r@[1].content matches Ok(
                t,
            ) && t is None),
            Err(_) => r@[0].content == Err::<
                Option<SegmentContent>,
                crate::worker::AsyncSegmentFailure,
            >(crate::worker::AsyncSegmentFailure::Failed) && r@[1].content == Err::<
                Option<SegmentContent>,
                crate::worker::AsyncSegmentFailure,
            >(crate::worker::AsyncSegmentFailure::Failed),
        },
{
    let branch_key = git_branch_key_from_status_key(&status_key);
    let (branch, status) = match result {
        Ok(Some(s)) => (Ok(render_git_branch(&s, branch_config)), Ok(render_git_status(&s, status_config))),
        Ok(None) => (Ok(None), Ok(None)),
        Err(_) => (Err(crate::worker::AsyncSegmentFailure::Failed), Err(crate::worker::AsyncSegmentFailure::Failed)),
    };
    let mut r: Vec<crate::worker::AsyncJobSegment> = Vec::new();
    r.push(crate::worker::AsyncJobSegment { key: branch_key, content: branch });
    r.push(crate::worker::AsyncJobSegment { key: status_key, content: status });
    r
}

} // verus!
