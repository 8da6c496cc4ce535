//! What the prompt's directory tells the async segments: which projects it holds,
//! and which of its ancestors is a repository or project root.
//!
//! The directory is listed, and the ancestors probed for marker files, by the
//! caller; the ancestors themselves are computed here, as `Path::parent` computes
//! them for Unix paths.

use vstd::prelude::*;

use crate::text::{chars_of, copy_str, str_eq, string_of};

verus! {

// ---------------------------------------------------------------------------
// Ancestors
// ---------------------------------------------------------------------------

/// Whether a path starts at the root.
pub open spec fn rooted(p: Seq<char>) -> bool {
    p.len() > 0 && p[0] == '/'
}

/// Whether a relative path opens with a `.` component.
pub open spec fn opens_with_cur_dir(p: Seq<char>) -> bool {
    !rooted(p) && p.len() > 0 && p[0] == '.' && (p.len() == 1 || p[1] == '/')
}

/// How many characters come before the first component: the root, or an opening `.`.
pub open spec fn before_body(p: Seq<char>) -> int {
    if rooted(p) || opens_with_cur_dir(p) {
        1
    } else {
        0
    }
}

/// The last separator in `p[b..end]`.
pub open spec fn last_sep(p: Seq<char>, b: int, end: int) -> Option<int>
    decreases end - b,
{
    if end <= b {
        None
    } else if p[end - 1] == '/' {
        Some(end - 1)
    } else {
        last_sep(p, b, end - 1)
    }
}

/// Where the last piece of `p[b..end]` starts.
pub open spec fn piece_start(p: Seq<char>, b: int, end: int) -> int {
    match last_sep(p, b, end) {
        Some(i) => i + 1,
        None => b,
    }
}

/// Where `p[b..end]` ends once its piece has been taken off, separator included.
pub open spec fn before_piece(p: Seq<char>, b: int, end: int) -> int {
    match last_sep(p, b, end) {
        Some(i) => i,
        None => b,
    }
}

/// The end of `p[..end]` once trailing separators and `.` pieces are taken off, down
/// to `b`.
pub open spec fn trim_back(p: Seq<char>, b: int, end: int) -> int
    decreases end - b,
{
    if end <= b {
        end
    } else {
        let piece = p.subrange(piece_start(p, b, end), end);
        if piece.len() == 0 || piece == seq!['.'] {
            if b <= before_piece(p, b, end) < end {
                trim_back(p, b, before_piece(p, b, end))
            } else {
                end
            }
        } else {
            end
        }
    }
}

/// The parent of a path, as `Path::parent` gives it: `None` for the root and the
/// empty path.
pub open spec fn path_parent(p: Seq<char>) -> Option<Seq<char>> {
    let b = before_body(p);
    let end = trim_back(p, b, p.len() as int);
    if end <= b {
        if opens_with_cur_dir(p) {
            Some(seq![])
        } else {
            None
        }
    } else {
        Some(p.subrange(0, trim_back(p, b, before_piece(p, b, end))))
    }
}

/// A path and each of its ancestors, nearest first.
pub open spec fn ancestors(p: Seq<char>) -> Seq<Seq<char>>
    decreases p.len(),
{
    match path_parent(p) {
        Some(q) => if q.len() < p.len() {
            seq![p] + ancestors(q)
        } else {
            seq![p]
        },
        None => seq![p],
    }
}

proof fn lemma_last_sep(p: Seq<char>, b: int, end: int)
    requires
        0 <= b,
        end <= p.len(),
    ensures
        last_sep(p, b, end) matches Some(i) ==> b <= i < end && p[i] == '/' && forall|k: int|
            i < k < end ==> #[trigger] p[k] != '/',
        last_sep(p, b, end) is None ==> forall|k: int| b <= k < end ==> #[trigger] p[k] != '/',
    decreases end - b,
{
    if end > b && p[end - 1] != '/' {
        lemma_last_sep(p, b, end - 1);
    }
}

proof fn lemma_trim_back(p: Seq<char>, b: int, end: int)
    requires
        0 <= b <= end <= p.len(),
    ensures
        b <= trim_back(p, b, end) <= end,
    decreases end - b,
{
    lemma_last_sep(p, b, end);
    if end > b {
        if b <= before_piece(p, b, end) < end {
            lemma_trim_back(p, b, before_piece(p, b, end));
        }
    }
}

fn last_sep_exec(p: &Vec<char>, b: usize, end: usize) -> (r: Option<usize>)
    requires
        b <= end <= p.len(),
    ensures
        match r {
            Some(i) => last_sep(p@, b as int, end as int) == Some(i as int),
            None => last_sep(p@, b as int, end as int) is None,
        },
    decreases end - b,
{
    if end <= b {
        None
    } else if p[end - 1] == '/' {
        Some(end - 1)
    } else {
        last_sep_exec(p, b, end - 1)
    }
}

fn trim_back_exec(p: &Vec<char>, b: usize, end: usize) -> (r: usize)
    requires
        b <= end <= p.len(),
    ensures
        r == trim_back(p@, b as int, end as int),
    decreases end - b,
{
    if end <= b {
        return end;
    }
    proof {
        lemma_last_sep(p@, b as int, end as int);
    }
    let (start, before) = match last_sep_exec(p, b, end) {
        Some(i) => (i + 1, i),
        None => (b, b),
    };
    let is_dot = end - start == 1 && p[start] == '.';
    if start == end || is_dot {
        proof {
            let piece = p@.subrange(start as int, end as int);
            if is_dot {
                assert(piece =~= seq!['.']);
            }
        }
        if b <= before && before < end {
            trim_back_exec(p, b, before)
        } else {
            end
        }
    } else {
        proof {
            let piece = p@.subrange(start as int, end as int);
            assert(piece.len() > 0);
            if piece == seq!['.'] {
                assert(piece[0] == p@[start as int]);
            }
        }
        end
    }
}

/// The parent of `path`, as `Path::parent` gives it.
pub fn path_parent_of(path: &str) -> (r: Option<String>)
    ensures
        match r {
            Some(s) => path_parent(path@) == Some(s@),
            None => path_parent(path@) is None,
        },
{
    let p = chars_of(path);
    let n = p.len();
    let rooted_p = n > 0 && p[0] == '/';
    let cur = !rooted_p && n > 0 && p[0] == '.' && (n == 1 || p[1] == '/');
    let b: usize = if rooted_p || cur {
        1
    } else {
        0
    };
    assert(b as int == before_body(path@));
    let end = trim_back_exec(&p, b, n);
    proof {
        lemma_trim_back(p@, b as int, n as int);
    }
    if end <= b {
        if cur {
            return Some(String::new());
        } else {
            return None;
        }
    }
    proof {
        lemma_last_sep(p@, b as int, end as int);
    }
    let before = match last_sep_exec(&p, b, end) {
        Some(i) => i,
        None => b,
    };
    let stop = trim_back_exec(&p, b, before);
    proof {
        lemma_trim_back(p@, b as int, before as int);
    }
    let mut kept: Vec<char> = Vec::new();
    let mut i: usize = 0;
    while i < stop
        invariant
            i <= stop <= p.len(),
            kept@ == p@.subrange(0, i as int),
        decreases stop - i,
    {
        kept.push(p[i]);
        i += 1;
        assert(kept@ =~= p@.subrange(0, i as int));
    }
    Some(string_of(kept.as_slice()))
}

/// `path` and each of its ancestors, nearest first: the directories searched for a
/// repository or project root.
pub fn path_ancestors(path: &str) -> (r: Vec<String>)
    ensures
        r@.len() == ancestors(path@).len(),
        forall|i: int| 0 <= i < r@.len() ==> #[trigger] r@[i]@ == ancestors(path@)[i],
    decreases path@.len(),
{
    let mut r: Vec<String> = Vec::new();
    r.push(copy_str(path));
    match path_parent_of(path) {
        Some(q) => {
            if q.unicode_len() < path.unicode_len() {
                let rest = path_ancestors(q.as_str());
                let ghost head = r@;
                let mut i: usize = 0;
                while i < rest.len()
                    invariant
                        i <= rest.len(),
                        r@.len() == 1 + i,
                        r@[0]@ == path@,
                        forall|k: int| 0 <= k < i ==> #[trigger] r@[k + 1]@ == rest@[k]@,
                    decreases rest.len() - i,
                {
                    r.push(copy_str(rest[i].as_str()));
                    i += 1;
                }
                proof {
                    let a = ancestors(path@);
                    assert(a == seq![path@] + ancestors(q@));
                    assert forall|k: int| 0 <= k < r@.len() implies #[trigger] r@[k]@ == a[k] by {
                        if k > 0 {
                            assert(r@[(k - 1) + 1]@ == rest@[k - 1]@);
                        }
                    }
                }
            }
        },
        None => {},
    }
    r
}

/// The first of `dirs` whose marker was found, `marked` telling for each whether it was.
pub open spec fn first_marked(dirs: Seq<Seq<char>>, marked: Seq<bool>) -> Option<Seq<char>>
    decreases dirs.len(),
{
    if dirs.len() == 0 || marked.len() == 0 {
        None
    } else if marked[0] {
        Some(dirs[0])
    } else {
        first_marked(dirs.drop_first(), marked.drop_first())
    }
}

/// A directory that is not itself marked (holds no `.git`, no project marker) has
/// the nearest marked ancestor its parent has: so every directory inside one
/// repository finds the same root, and the same cache key.
pub proof fn law_root_inherited_from_parent(p: Seq<char>, q: Seq<char>, marked: Seq<bool>)
    requires
        path_parent(p) == Some(q),
        q.len() < p.len(),
        marked.len() > 0,
        !marked[0],
    ensures
        first_marked(ancestors(p), marked) == first_marked(ancestors(q), marked.drop_first()),
{
    assert(ancestors(p) == seq![p] + ancestors(q));
    assert((seq![p] + ancestors(q)).drop_first() =~= ancestors(q));
    assert(ancestors(p).len() > 0);
}

/// The views of a list of strings.
pub open spec fn string_views(v: Seq<String>) -> Seq<Seq<char>> {
    Seq::new(v.len(), |i: int| v[i]@)
}

fn find_marked(dirs: &Vec<String>, marked: &Vec<bool>) -> (r: Option<String>)
    ensures
        match r {
            Some(s) => first_marked(string_views(dirs@), marked@) == Some(s@),
            None => first_marked(string_views(dirs@), marked@) is None,
        },
{
    let mut i: usize = 0;
    proof {
        assert(string_views(dirs@).skip(0) =~= string_views(dirs@));
        assert(marked@.skip(0) =~= marked@);
    }
    while i < dirs.len() && i < marked.len()
        invariant
            i <= dirs.len(),
            i <= marked.len(),
            first_marked(string_views(dirs@), marked@) == first_marked(
                string_views(dirs@).skip(i as int),
                marked@.skip(i as int),
            ),
        decreases dirs.len() - i,
    {
        if marked[i] {
            proof {
                assert(string_views(dirs@).skip(i as int)[0] == dirs@[i as int]@);
            }
            return Some(copy_str(dirs[i].as_str()));
        }
        proof {
            assert(string_views(dirs@).skip(i as int).drop_first() =~= string_views(dirs@).skip(
                i + 1,
            ));
            assert(marked@.skip(i as int).drop_first() =~= marked@.skip(i + 1));
        }
        i += 1;
    }
    None
}

/// The repository root: the nearest of `ancestors` (as `path_ancestors` lists them)
/// holding a `.git` directory or file, `has_git` telling for each whether it does.
pub fn find_repository_root(ancestors: &Vec<String>, has_git: &Vec<bool>) -> (r: Option<String>)
    ensures
        match r {
            Some(s) => first_marked(string_views(ancestors@), has_git@) == Some(s@),
            None => first_marked(string_views(ancestors@), has_git@) is None,
        },
{
    find_marked(ancestors, has_git)
}

/// The Rust project root: the nearest of `ancestors` holding `Cargo.toml`,
/// `rust-toolchain` or `rust-toolchain.toml`, `has_marker` telling for each whether it
/// does.
pub fn find_rust_project_root(ancestors: &Vec<String>, has_marker: &Vec<bool>) -> (r: Option<
    String,
>)
    ensures
        match r {
            Some(s) => first_marked(string_views(ancestors@), has_marker@) == Some(s@),
            None => first_marked(string_views(ancestors@), has_marker@) is None,
        },
{
    find_marked(ancestors, has_marker)
}

// ---------------------------------------------------------------------------
// Project detection
// ---------------------------------------------------------------------------

/// One entry of a directory listing: its name (one path component) and whether it
/// is a directory.
#[derive(Clone, Debug, PartialEq, Eq)]
pub struct DirEntry {
    pub name: String,
    pub is_dir: bool,
}

/// The names and kinds of a listing.
pub open spec fn entries_view(v: Seq<DirEntry>) -> Seq<(Seq<char>, bool)> {
    Seq::new(v.len(), |i: int| (v[i].name@, v[i].is_dir))
}

/// The views of a list of string slices.
pub open spec fn strs_view(v: Seq<&str>) -> Seq<Seq<char>> {
    Seq::new(v.len(), |i: int| v[i]@)
}

/// What marks a directory as a project of some kind.
#[verifier::ext_equal]
pub struct DetectionSpec {
    pub files: Seq<Seq<char>>,
    pub excluded_files: Seq<Seq<char>>,
    pub folders: Seq<Seq<char>>,
    pub excluded_folders: Seq<Seq<char>>,
    pub extensions: Seq<Seq<char>>,
}

/// The same, as the lists the code holds.
pub struct RuntimeDetection<'a> {
    pub files: &'a [&'a str],
    pub excluded_files: &'a [&'a str],
    pub folders: &'a [&'a str],
    pub excluded_folders: &'a [&'a str],
    pub extensions: &'a [&'a str],
}

impl<'a> RuntimeDetection<'a> {
    pub open spec fn spec(&self) -> DetectionSpec {
        DetectionSpec {
            files: strs_view(self.files@),
            excluded_files: strs_view(self.excluded_files@),
            folders: strs_view(self.folders@),
            excluded_folders: strs_view(self.excluded_folders@),
            extensions: strs_view(self.extensions@),
        }
    }
}

/// Index of the last `c` in `s`.
pub open spec fn last_index_of(s: Seq<char>, c: char) -> Option<int>
    decreases s.len(),
{
    if s.len() == 0 {
        None
    } else if s.last() == c {
        Some(s.len() - 1)
    } else {
        last_index_of(s.drop_last(), c)
    }
}

/// Whether a file name ends in one of `extensions`: either what follows its last dot
/// (the extension `Path` gives a name that does not start with a dot) or what follows
/// its first dot. Names starting with a dot have none.
pub open spec fn has_any_extension(name: Seq<char>, extensions: Seq<Seq<char>>) -> bool {
    &&& extensions.len() > 0
    &&& !(name.len() > 0 && name[0] == '.')
    &&& {
        ||| (last_index_of(name, '.') matches Some(i) && extensions.contains(name.skip(i + 1)))
        ||| (crate::text::find_char(name, '.') matches Some(i) && extensions.contains(
            name.skip(i + 1),
        ))
    }
}

/// Whether an entry rules the project kind out.
pub open spec fn entry_excludes(e: (Seq<char>, bool), d: DetectionSpec) -> bool {
    if e.1 {
        d.excluded_folders.contains(e.0)
    } else {
        d.excluded_files.contains(e.0)
    }
}

/// Whether an entry marks the project kind.
pub open spec fn entry_marks(e: (Seq<char>, bool), d: DetectionSpec) -> bool {
    if e.1 {
        d.folders.contains(e.0)
    } else {
        d.files.contains(e.0) || has_any_extension(e.0, d.extensions)
    }
}

/// Whether a listing marks the project kind: some entry marks it and none rules it out.
pub open spec fn listing_matches(entries: Seq<(Seq<char>, bool)>, d: DetectionSpec) -> bool {
    &&& forall|i: int| 0 <= i < entries.len() ==> !entry_excludes(#[trigger] entries[i], d)
    &&& exists|i: int| 0 <= i < entries.len() && entry_marks(#[trigger] entries[i], d)
}

fn list_has(list: &[&str], name: &str) -> (r: bool)
    ensures
        r == strs_view(list@).contains(name@),
{
    let mut i: usize = 0;
    while i < list.len()
        invariant
            i <= list.len(),
            forall|k: int| 0 <= k < i ==> #[trigger] list@[k]@ != name@,
        decreases list.len() - i,
    {
        if str_eq(list[i], name) {
            proof {
                assert(strs_view(list@)[i as int] == name@);
            }
            return true;
        }
        i += 1;
    }
    proof {
        if strs_view(list@).contains(name@) {
            let k = choose|k: int| 0 <= k < list@.len() && strs_view(list@)[k] == name@;
            assert(list@[k]@ != name@);
        }
    }
    false
}

fn list_has_chars(list: &[&str], name: &[char]) -> (r: bool)
    ensures
        r == strs_view(list@).contains(name@),
{
    let s = string_of(name);
    list_has(list, s.as_str())
}

proof fn lemma_last_index_of(s: Seq<char>, c: char)
    ensures
        last_index_of(s, c) matches Some(i) ==> 0 <= i < s.len() && s[i] == c && forall|k: int|
            i < k < s.len() ==> #[trigger] s[k] != c,
        last_index_of(s, c) is None ==> forall|k: int| 0 <= k < s.len() ==> #[trigger] s[k] != c,
    decreases s.len(),
{
    if s.len() > 0 && s.last() != c {
        let t = s.drop_last();
        lemma_last_index_of(t, c);
        assert forall|k: int| 0 <= k < t.len() implies #[trigger] s[k] == t[k] by {}
        if let Some(i) = last_index_of(s, c) {
            assert(t[i] == c);
            assert forall|k: int| i < k < s.len() implies #[trigger] s[k] != c by {
                if k < t.len() {
                    assert(t[k] != c);
                }
            }
        } else {
            assert forall|k: int| 0 <= k < s.len() implies #[trigger] s[k] != c by {
                if k < t.len() {
                    assert(t[k] != c);
                }
            }
        }
    }
}

/// Whether `name` ends in one of `extensions`.
fn file_has_any_extension(name: &str, extensions: &[&str]) -> (r: bool)
    ensures
        r == has_any_extension(name@, strs_view(extensions@)),
{
    let chars = chars_of(name);
    if extensions.len() == 0 || (chars.len() > 0 && chars[0] == '.') {
        return false;
    }
    proof {
        lemma_last_index_of(name@, '.');
        crate::text::lemma_find_char(name@, '.');
    }
    let n = chars.len();
    let mut last: usize = n;
    let mut k: usize = n;
    while k > 0
        invariant
            chars@ == name@,
            n == chars.len(),
            k <= n,
            last == n || (k <= last < n && chars@[last as int] == '.'),
            last == n ==> forall|j: int| k <= j < n ==> #[trigger] chars@[j] != '.',
            last < n ==> forall|j: int| last < j < n ==> #[trigger] chars@[j] != '.',
        decreases k,
    {
        k -= 1;
        if last == n && chars[k] == '.' {
            last = k;
        }
    }
    let mut first: usize = n;
    let mut j: usize = 0;
    while j < n
        invariant
            chars@ == name@,
            n == chars.len(),
            j <= n,
            first <= n,
            first == n ==> forall|m: int| 0 <= m < j ==> #[trigger] chars@[m] != '.',
            first < n ==> chars@[first as int] == '.' && forall|m: int|
                0 <= m < first ==> #[trigger] chars@[m] != '.',
        decreases n - j,
    {
        if first == n && chars[j] == '.' {
            first = j;
        }
        j += 1;
    }
    proof {
        lemma_last_index_of(name@, '.');
        crate::text::lemma_find_char(name@, '.');
        if last < n {
            if let Some(i) = last_index_of(name@, '.') {
                if i < last {
                    assert(chars@[last as int] == '.');
                }
                if i > last {
                    assert(chars@[i] == '.');
                }
            }
        } else {
            if let Some(i) = last_index_of(name@, '.') {
                assert(chars@[i] == '.');
            }
        }
        if first < n {
            if let Some(i) = crate::text::find_char(name@, '.') {
                if i < first {
                    assert(chars@[i] == '.');
                }
                if i > first {
                    assert(chars@[first as int] == '.');
                }
            }
        } else {
            if let Some(i) = crate::text::find_char(name@, '.') {
                assert(chars@[i] == '.');
            }
        }
    }
    let by_last = last < n && list_has_chars(
        extensions,
        crate::text::slice_range(chars.as_slice(), last + 1, n).as_slice(),
    );
    let by_first = first < n && list_has_chars(
        extensions,
        crate::text::slice_range(chars.as_slice(), first + 1, n).as_slice(),
    );
    proof {
        if last < n {
            assert(last_index_of(name@, '.') == Some(last as int));
            assert(chars@.subrange(last + 1, n as int) =~= name@.skip(last + 1));
        } else {
            assert(last_index_of(name@, '.') is None);
        }
        if first < n {
            assert(crate::text::find_char(name@, '.') == Some(first as int));
            assert(chars@.subrange(first + 1, n as int) =~= name@.skip(first + 1));
        } else {
            assert forall|m: int| 0 <= m < name@.len() implies #[trigger] name@[m] != '.' by {
                assert(chars@[m] != '.');
            }
            crate::text::lemma_find_char_none(name@, '.');
        }
    }
    by_last || by_first
}

/// Whether a directory listing marks the project kind `detection` describes.
pub fn current_dir_matches(entries: &[DirEntry], detection: &RuntimeDetection) -> (r: bool)
    ensures
        r == listing_matches(entries_view(entries@), detection.spec()),
{
    let ghost es = entries_view(entries@);
    let ghost d = detection.spec();
    let mut found = false;
    let mut i: usize = 0;
    while i < entries.len()
        invariant
            i <= entries.len(),
            es == entries_view(entries@),
            d == detection.spec(),
            forall|k: int| 0 <= k < i ==> !entry_excludes(#[trigger] es[k], d),
            found == exists|k: int| 0 <= k < i && entry_marks(#[trigger] es[k], d),
        decreases entries.len() - i,
    {
        let e = &entries[i];
        assert(es[i as int] == (e.name@, e.is_dir));
        if e.is_dir {
            if list_has(detection.excluded_folders, e.name.as_str()) {
                return false;
            }
            if list_has(detection.folders, e.name.as_str()) {
                found = true;
            }
        } else {
            if list_has(detection.excluded_files, e.name.as_str()) {
                return false;
            }
            if list_has(detection.files, e.name.as_str()) || file_has_any_extension(
                e.name.as_str(),
                detection.extensions,
            ) {
                found = true;
            }
        }
        proof {
            if found {
                if entry_marks(es[i as int], d) {
                } else {
                    let k = choose|k: int| 0 <= k < i && entry_marks(#[trigger] es[k], d);
                    assert(0 <= k < i + 1 && entry_marks(es[k], d));
                }
            } else {
                assert forall|k: int| 0 <= k < i + 1 implies !entry_marks(#[trigger] es[k], d) by {
                    if k < i {
                    }
                }
            }
        }
        i += 1;
    }
    found
}

} // verus!
