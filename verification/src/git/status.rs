//! `git status --porcelain=v2 --branch -z` output.

use vstd::prelude::*;

use crate::chars::{
    chars_eq, is_whitespace, lit, parse_usize, starts_with, str_to_chars, sub_string, sub_vec,
    utf8_lossy,
};
use crate::chars;

verus! {

#[derive(Debug, Clone, Copy, PartialEq, Eq, Structural)]
pub enum GitFileKind {
    Added,
    Modified,
    Deleted,
    Renamed,
    Copied,
    TypeChanged,
    Unmerged,
    Untracked,
}

#[derive(Debug, Clone, PartialEq, Eq)]
pub struct GitFileChange {
    pub path: String,
    pub original_path: Option<String>,
    pub kind: GitFileKind,
    pub index_status: char,
    pub worktree_status: char,
    pub staged: bool,
    pub unstaged: bool,
    pub conflicted: bool,
    pub untracked: bool,
}

#[derive(Debug, Clone, Default, PartialEq, Eq)]
pub struct GitStatus {
    pub branch: Option<String>,
    pub detached: bool,
    pub upstream: Option<String>,
    pub ahead: usize,
    pub behind: usize,
    pub files: Vec<GitFileChange>,
}

/// A file change with its texts as char sequences.
pub struct ChangeModel {
    pub path: Seq<char>,
    pub original_path: Option<Seq<char>>,
    pub kind: GitFileKind,
    pub index_status: char,
    pub worktree_status: char,
    pub staged: bool,
    pub unstaged: bool,
    pub conflicted: bool,
    pub untracked: bool,
}

/// A status with its texts as char sequences.
pub struct StatusModel {
    pub branch: Option<Seq<char>>,
    pub detached: bool,
    pub upstream: Option<Seq<char>>,
    pub ahead: usize,
    pub behind: usize,
    pub files: Seq<ChangeModel>,
}

pub open spec fn opt_view(o: Option<String>) -> Option<Seq<char>> {
    match o {
        Some(s) => Some(s@),
        None => None,
    }
}

impl GitFileChange {
    pub open spec fn model(self) -> ChangeModel {
        ChangeModel {
            path: self.path@,
            original_path: opt_view(self.original_path),
            kind: self.kind,
            index_status: self.index_status,
            worktree_status: self.worktree_status,
            staged: self.staged,
            unstaged: self.unstaged,
            conflicted: self.conflicted,
            untracked: self.untracked,
        }
    }
}

pub open spec fn models(files: Seq<GitFileChange>) -> Seq<ChangeModel> {
    files.map_values(|f: GitFileChange| f.model())
}

impl GitStatus {
    pub open spec fn model(self) -> StatusModel {
        StatusModel {
            branch: opt_view(self.branch),
            detached: self.detached,
            upstream: opt_view(self.upstream),
            ahead: self.ahead,
            behind: self.behind,
            files: models(self.files@),
        }
    }
}

/// Single-character status marker for a file: `!` for conflicts whatever the
/// kind, `U` for untracked files, otherwise a letter for the kind.
pub open spec fn spec_status_symbol(change: ChangeModel) -> char {
    if change.conflicted {
        '!'
    } else if change.untracked {
        'U'
    } else {
        match change.kind {
            GitFileKind::Added => 'A',
            GitFileKind::Modified => 'M',
            GitFileKind::Deleted => 'D',
            GitFileKind::Renamed => 'R',
            GitFileKind::Copied => 'C',
            GitFileKind::TypeChanged => 'T',
            GitFileKind::Unmerged => '!',
            GitFileKind::Untracked => 'U',
        }
    }
}

pub fn status_symbol(change: &GitFileChange) -> (c: char)
    ensures
        c == spec_status_symbol(change.model()),
{
    if change.conflicted {
        return '!';
    }
    if change.untracked {
        return 'U';
    }
    match change.kind {
        GitFileKind::Added => 'A',
        GitFileKind::Modified => 'M',
        GitFileKind::Deleted => 'D',
        GitFileKind::Renamed => 'R',
        GitFileKind::Copied => 'C',
        GitFileKind::TypeChanged => 'T',
        GitFileKind::Unmerged => '!',
        GitFileKind::Untracked => 'U',
    }
}

/// The kind a two-letter status code names: the worktree letter unless it is
/// `.`, then the index letter.
pub open spec fn spec_kind_from_codes(index: char, worktree: char) -> GitFileKind {
    let code = if worktree != '.' { worktree } else { index };
    if code == 'A' {
        GitFileKind::Added
    } else if code == 'D' {
        GitFileKind::Deleted
    } else if code == 'R' {
        GitFileKind::Renamed
    } else if code == 'C' {
        GitFileKind::Copied
    } else if code == 'T' {
        GitFileKind::TypeChanged
    } else {
        GitFileKind::Modified
    }
}

fn kind_from_codes(index: char, worktree: char) -> (k: GitFileKind)
    ensures
        k == spec_kind_from_codes(index, worktree),
{
    let code = if worktree != '.' { worktree } else { index };
    match code {
        'A' => GitFileKind::Added,
        'D' => GitFileKind::Deleted,
        'R' => GitFileKind::Renamed,
        'C' => GitFileKind::Copied,
        'T' => GitFileKind::TypeChanged,
        _ => GitFileKind::Modified,
    }
}

/// A change from its `XY` status code: `U` on either side, `AA` and `DD` are
/// conflicts; `.` means no change on that side.
pub open spec fn spec_change_from_xy(path: Seq<char>, original: Option<Seq<char>>, xy: Seq<char>) -> Option<ChangeModel> {
    if xy.len() < 2 {
        None
    } else {
        let i = xy[0];
        let w = xy[1];
        let conflicted = i == 'U' || w == 'U' || (i == 'A' && w == 'A') || (i == 'D' && w == 'D');
        Some(ChangeModel {
            path,
            original_path: original,
            kind: if conflicted { GitFileKind::Unmerged } else { spec_kind_from_codes(i, w) },
            index_status: i,
            worktree_status: w,
            staged: i != '.',
            unstaged: w != '.',
            conflicted,
            untracked: false,
        })
    }
}

fn change_from_xy(path: String, original_path: Option<String>, xy: &Vec<char>) -> (r: Option<GitFileChange>)
    ensures
        match r {
            Some(c) => spec_change_from_xy(path@, opt_view(original_path), xy@) == Some(c.model()),
            None => spec_change_from_xy(path@, opt_view(original_path), xy@) is None,
        },
{
    if xy.len() < 2 {
        return None;
    }
    let index_status = xy[0];
    let worktree_status = xy[1];
    let conflicted = index_status == 'U' || worktree_status == 'U' || (index_status == 'A'
        && worktree_status == 'A') || (index_status == 'D' && worktree_status == 'D');
    let kind = if conflicted {
        GitFileKind::Unmerged
    } else {
        kind_from_codes(index_status, worktree_status)
    };
    Some(GitFileChange {
        path,
        original_path,
        kind,
        index_status,
        worktree_status,
        staged: index_status != '.',
        unstaged: worktree_status != '.',
        conflicted,
        untracked: false,
    })
}

/// Offset of the `k`-th space (counting from 0) in `s`.
pub open spec fn nth_space(s: Seq<char>, k: nat) -> Option<int>
    decreases s.len(),
{
    if s.len() == 0 {
        None
    } else if s[0] == ' ' {
        if k == 0 {
            Some(0)
        } else {
            match nth_space(s.drop_first(), (k - 1) as nat) {
                Some(p) => Some(p + 1),
                None => None,
            }
        }
    } else {
        match nth_space(s.drop_first(), k) {
            Some(p) => Some(p + 1),
            None => None,
        }
    }
}

proof fn lemma_nth_space_facts(s: Seq<char>, k: nat)
    ensures
        nth_space(s, k) matches Some(p) ==> 0 <= p < s.len() && s[p] == ' ',
        k > 0 && nth_space(s, k) is Some ==> nth_space(s, (k - 1) as nat) is Some
            && nth_space(s, (k - 1) as nat)->0 < nth_space(s, k)->0,
    decreases s.len(),
{
    if s.len() > 0 {
        if s[0] == ' ' {
            if k > 0 {
                lemma_nth_space_facts(s.drop_first(), (k - 1) as nat);
            }
        } else {
            lemma_nth_space_facts(s.drop_first(), k);
        }
    }
}

pub open spec fn shift(o: Option<int>, by: int) -> Option<int> {
    match o {
        Some(p) => Some(p + by),
        None => None,
    }
}

/// Finds the `k`-th space of `s`.
fn find_nth_space(s: &Vec<char>, k: usize) -> (r: Option<usize>)
    ensures
        match r {
            Some(p) => nth_space(s@, k as nat) == Some(p as int),
            None => nth_space(s@, k as nat) is None,
        },
{
    let n = s.len();
    let mut i: usize = 0;
    let mut count: usize = 0;
    assert(s@.skip(0) =~= s@);
    while i < n
        invariant
            i <= n == s@.len(),
            count <= k,
            nth_space(s@, k as nat) == shift(nth_space(s@.skip(i as int), (k - count) as nat), i as int),
        decreases n - i,
    {
        assert(s@.skip(i as int).drop_first() =~= s@.skip(i + 1));
        if s[i] == ' ' {
            if count == k {
                return Some(i);
            }
            count = count + 1;
        }
        i = i + 1;
    }
    None
}

/// The space-separated field `k` of `s` split into at most `n` fields (the
/// last field is the rest of `s`), as `str::splitn(n, ' ')` gives it, if
/// there are that many. Fields are named here by the spaces around them.
pub open spec fn field_between(s: Seq<char>, a: nat, b: nat) -> Option<Seq<char>> {
    match (nth_space(s, a), nth_space(s, b)) {
        (Some(p), Some(q)) => Some(s.subrange(p + 1, q)),
        _ => None,
    }
}

/// The rest of `s` after its `k`-th space.
pub open spec fn field_after(s: Seq<char>, k: nat) -> Option<Seq<char>> {
    match nth_space(s, k) {
        Some(p) => Some(s.skip(p + 1)),
        None => None,
    }
}

/// An ordinary entry: `1 XY sub mH mI mW hH hI path` (9 fields).
pub open spec fn spec_parse_ordinary(record: Seq<char>) -> Option<ChangeModel> {
    if !chars::has_prefix(record, seq!['1', ' ']) {
        None
    } else {
        match (field_between(record, 0, 1), field_after(record, 7)) {
            (Some(xy), Some(path)) => spec_change_from_xy(path, None, xy),
            _ => None,
        }
    }
}

/// A renamed or copied entry: `2 XY sub mH mI mW hH hI Xscore path` (10
/// fields), followed by a record with the original path.
pub open spec fn spec_parse_renamed(record: Seq<char>, original: Option<Seq<char>>) -> Option<ChangeModel> {
    match (field_between(record, 0, 1), field_after(record, 8)) {
        (Some(xy), Some(path)) => spec_change_from_xy(path, original, xy),
        _ => None,
    }
}

/// An unmerged entry: `u XY sub m1 m2 m3 mW h1 h2 h3 path` (11 fields).
pub open spec fn spec_parse_unmerged(record: Seq<char>) -> Option<ChangeModel> {
    match (field_between(record, 0, 1), field_after(record, 9)) {
        (Some(xy), Some(path)) => match spec_change_from_xy(path, None, xy) {
            Some(c) => Some(ChangeModel { kind: GitFileKind::Unmerged, conflicted: true, ..c }),
            None => None,
        },
        _ => None,
    }
}

/// The letter a change shows: the worktree letter, or the index letter
/// where the worktree has none.
pub open spec fn effective_letter(c: ChangeModel) -> char {
    if c.worktree_status != '.' { c.worktree_status } else { c.index_status }
}

/// A change read from a status code that is not a conflict has the kind its
/// effective letter names (`A`, `D`, `R`, `C`, `T`, `M`), and its status
/// symbol is that letter.
pub proof fn lemma_change_kind_follows_letter(path: Seq<char>, original: Option<Seq<char>>, xy: Seq<char>)
    requires
        spec_change_from_xy(path, original, xy) is Some,
        !spec_change_from_xy(path, original, xy)->0.conflicted,
    ensures
        ({
            let c = spec_change_from_xy(path, original, xy)->0;
            let l = effective_letter(c);
            &&& c.index_status == xy[0] && c.worktree_status == xy[1]
            &&& (l == 'A' ==> c.kind == GitFileKind::Added)
            &&& (l == 'D' ==> c.kind == GitFileKind::Deleted)
            &&& (l == 'R' ==> c.kind == GitFileKind::Renamed)
            &&& (l == 'C' ==> c.kind == GitFileKind::Copied)
            &&& (l == 'T' ==> c.kind == GitFileKind::TypeChanged)
            &&& (l == 'M' ==> c.kind == GitFileKind::Modified)
            &&& ((l == 'A' || l == 'D' || l == 'R' || l == 'C' || l == 'T' || l == 'M') ==> spec_status_symbol(c) == l)
        }),
{
}

/// A status code with `U` on either side, `AA` or `DD` is a conflict: an
/// unmerged change shown as `!`. Either way a change is staged when its
/// index letter is not `.`, and unstaged when its worktree letter is not.
pub proof fn lemma_conflict_codes(path: Seq<char>, original: Option<Seq<char>>, xy: Seq<char>)
    requires
        xy.len() >= 2,
    ensures
        ({
            let c = spec_change_from_xy(path, original, xy)->0;
            let i = xy[0];
            let w = xy[1];
            &&& spec_change_from_xy(path, original, xy) is Some
            &&& c.path == path && c.original_path == original
            &&& c.staged == (i != '.') && c.unstaged == (w != '.')
            &&& ((i == 'U' || w == 'U' || (i == 'A' && w == 'A') || (i == 'D' && w == 'D')) ==> c.conflicted
                && c.kind == GitFileKind::Unmerged && spec_status_symbol(c) == '!')
            &&& (!(i == 'U' || w == 'U' || (i == 'A' && w == 'A') || (i == 'D' && w == 'D')) ==> !c.conflicted)
        }),
{
}

/// An ordinary status record that is not a conflict parses to the kind its
/// effective letter names, and shows that letter: a file deleted in the
/// worktree (`.D`) is a deletion shown as `D`.
pub proof fn lemma_ordinary_record_kind(record: Seq<char>)
    requires
        spec_parse_ordinary(record) is Some,
        !spec_parse_ordinary(record)->0.conflicted,
    ensures
        ({
            let c = spec_parse_ordinary(record)->0;
            let l = effective_letter(c);
            &&& (l == 'A' ==> c.kind == GitFileKind::Added)
            &&& (l == 'D' ==> c.kind == GitFileKind::Deleted)
            &&& (l == 'R' ==> c.kind == GitFileKind::Renamed)
            &&& (l == 'C' ==> c.kind == GitFileKind::Copied)
            &&& (l == 'T' ==> c.kind == GitFileKind::TypeChanged)
            &&& (l == 'M' ==> c.kind == GitFileKind::Modified)
            &&& ((l == 'A' || l == 'D' || l == 'R' || l == 'C' || l == 'T' || l == 'M') ==> spec_status_symbol(c) == l)
        }),
{
    let xy = field_between(record, 0, 1)->0;
    let path = field_after(record, 7)->0;
    lemma_change_kind_follows_letter(path, None, xy);
}

/// `field_between` and `field_after`, found once.
fn fields(record: &Vec<char>, last: usize) -> (r: Option<(Vec<char>, String)>)
    requires
        last >= 1,
    ensures
        match r {
            Some((xy, path)) => field_between(record@, 0, 1) == Some(xy@) && field_after(record@, last as nat) == Some(path@),
            None => field_between(record@, 0, 1) is None || field_after(record@, last as nat) is None,
        },
{
    let p0 = find_nth_space(record, 0);
    let p1 = find_nth_space(record, 1);
    let pl = find_nth_space(record, last);
    proof {
        lemma_nth_space_facts(record@, 0);
        lemma_nth_space_facts(record@, 1);
        lemma_nth_space_facts(record@, last as nat);
    }
    match (p0, p1, pl) {
        (Some(a), Some(b), Some(c)) => {
            proof {
                lemma_nth_space_facts(record@, 1);
                lemma_nth_space_facts(record@, last as nat);
                assert(nth_space(record@, last as nat) == Some(c as int));
                assert(c < record@.len());
                assert(nth_space(record@, 0) == Some(a as int));
                assert(a < b);
            }
            let xy = sub_vec(record, a + 1, b);
            let n = record.len();
            let path = sub_string(record, c + 1, n);
            assert(record@.subrange(c + 1, record@.len() as int) =~= record@.skip(c + 1));
            Some((xy, path))
        },
        _ => None,
    }
}

fn parse_ordinary(record: &Vec<char>) -> (r: Option<GitFileChange>)
    ensures
        match r {
            Some(c) => spec_parse_ordinary(record@) == Some(c.model()),
            None => spec_parse_ordinary(record@) is None,
        },
{
    let prefix = lit("1 ");
    proof { reveal_strlit("1 "); assert(prefix@ =~= seq!['1', ' ']); }
    if !starts_with(record, &prefix) {
        return None;
    }
    match fields(record, 7) {
        Some((xy, path)) => change_from_xy(path, None, &xy),
        None => None,
    }
}

fn parse_renamed(record: &Vec<char>, original_path: Option<String>) -> (r: Option<GitFileChange>)
    ensures
        match r {
            Some(c) => spec_parse_renamed(record@, opt_view(original_path)) == Some(c.model()),
            None => spec_parse_renamed(record@, opt_view(original_path)) is None,
        },
{
    match fields(record, 8) {
        Some((xy, path)) => change_from_xy(path, original_path, &xy),
        None => None,
    }
}

fn parse_unmerged(record: &Vec<char>) -> (r: Option<GitFileChange>)
    ensures
        match r {
            Some(c) => spec_parse_unmerged(record@) == Some(c.model()),
            None => spec_parse_unmerged(record@) is None,
        },
{
    match fields(record, 9) {
        Some((xy, path)) => match change_from_xy(path, None, &xy) {
            Some(mut change) => {
                change.kind = GitFileKind::Unmerged;
                change.conflicted = true;
                Some(change)
            },
            None => None,
        },
        None => None,
    }
}


/// The non-empty NUL-separated records of `b`, `cur` being the record read so
/// far.
pub open spec fn records_from(b: Seq<u8>, cur: Seq<u8>) -> Seq<Seq<u8>>
    decreases b.len(),
{
    if b.len() == 0 {
        if cur.len() > 0 { seq![cur] } else { Seq::empty() }
    } else if b[0] == 0 {
        (if cur.len() > 0 { seq![cur] } else { Seq::empty() }) + records_from(b.drop_first(), Seq::empty())
    } else {
        records_from(b.drop_first(), cur.push(b[0]))
    }
}

/// `bytes.split(|b| *b == 0)` without the empty pieces.
pub open spec fn nul_records(b: Seq<u8>) -> Seq<Seq<u8>> {
    records_from(b, Seq::empty())
}

fn split_records(bytes: &[u8]) -> (r: Vec<Vec<u8>>)
    ensures
        r@.map_values(|v: Vec<u8>| v@) == nul_records(bytes@),
{
    let mut out: Vec<Vec<u8>> = Vec::new();
    let mut cur: Vec<u8> = Vec::new();
    let mut i: usize = 0;
    let n = bytes.len();
    assert(bytes@.skip(0) =~= bytes@);
    while i < n
        invariant
            i <= n == bytes@.len(),
            out@.map_values(|v: Vec<u8>| v@) + records_from(bytes@.skip(i as int), cur@) == nul_records(bytes@),
        decreases n - i,
    {
        let ghost before = out@.map_values(|v: Vec<u8>| v@);
        assert(bytes@.skip(i as int).drop_first() =~= bytes@.skip(i + 1));
        if bytes[i] == 0 {
            if cur.len() > 0 {
                let done = cur;
                cur = Vec::new();
                out.push(done);
                assert(out@.map_values(|v: Vec<u8>| v@) =~= before + seq![done@]);
            } else {
                assert(out@.map_values(|v: Vec<u8>| v@) =~= before);
            }
            assert(cur@ =~= Seq::<u8>::empty());
        } else {
            cur.push(bytes[i]);
        }
        i = i + 1;
    }
    let ghost before = out@.map_values(|v: Vec<u8>| v@);
    if cur.len() > 0 {
        out.push(cur);
        assert(out@.map_values(|v: Vec<u8>| v@) =~= before + records_from(bytes@.skip(i as int), cur@));
    } else {
        assert(out@.map_values(|v: Vec<u8>| v@) =~= before + records_from(bytes@.skip(i as int), cur@));
    }
    out
}

/// Length of the leading run of non-whitespace chars.
pub open spec fn word_len(s: Seq<char>) -> nat
    decreases s.len(),
{
    if s.len() > 0 && !chars::is_ws(s[0]) { 1 + word_len(s.drop_first()) } else { 0 }
}

/// `str::split_whitespace`.
pub open spec fn words(s: Seq<char>) -> Seq<Seq<char>>
    decreases s.len(),
{
    if s.len() == 0 {
        Seq::empty()
    } else if chars::is_ws(s[0]) {
        words(s.drop_first())
    } else {
        proof { lemma_word_len(s); }
        seq![s.take(word_len(s) as int)] + words(s.skip(word_len(s) as int))
    }
}

pub proof fn lemma_word_len(s: Seq<char>)
    ensures
        word_len(s) <= s.len(),
        s.len() > 0 && !chars::is_ws(s[0]) ==> word_len(s) >= 1,
    decreases s.len(),
{
    if s.len() > 0 {
        lemma_word_len(s.drop_first());
    }
}

/// `branch.ab`: `+N` sets ahead, `-N` sets behind.
pub open spec fn apply_ab(st: StatusModel, toks: Seq<Seq<char>>) -> StatusModel
    decreases toks.len(),
{
    if toks.len() == 0 {
        st
    } else {
        let t = toks[0];
        let next = if t.len() > 0 && t[0] == '+' && chars::spec_parse_usize(t.drop_first()) is Some {
            StatusModel { ahead: chars::spec_parse_usize(t.drop_first())->0, ..st }
        } else if t.len() > 0 && t[0] == '-' && chars::spec_parse_usize(t.drop_first()) is Some {
            StatusModel { behind: chars::spec_parse_usize(t.drop_first())->0, ..st }
        } else {
            st
        };
        apply_ab(next, toks.drop_first())
    }
}

pub open spec fn untracked_change(path: Seq<char>) -> ChangeModel {
    ChangeModel {
        path,
        original_path: None,
        kind: GitFileKind::Untracked,
        index_status: '?',
        worktree_status: '?',
        staged: false,
        unstaged: true,
        conflicted: false,
        untracked: true,
    }
}

/// One record of porcelain v2 output applied to the status read so far;
/// also the index of the next record (a rename consumes the record after
/// it, the original path).
pub open spec fn step_record(st: StatusModel, recs: Seq<Seq<char>>, i: int) -> (StatusModel, int) {
    let r = recs[i];
    if chars::has_prefix(r, "# branch.head "@) {
        let rest = r.skip("# branch.head "@.len() as int);
        let detached = rest == "(detached)"@;
        (StatusModel { detached, branch: if detached { None } else { Some(rest) }, ..st }, i + 1)
    } else if chars::has_prefix(r, "# branch.upstream "@) {
        (StatusModel { upstream: Some(r.skip("# branch.upstream "@.len() as int)), ..st }, i + 1)
    } else if chars::has_prefix(r, "# branch.ab "@) {
        (apply_ab(st, words(r.skip("# branch.ab "@.len() as int))), i + 1)
    } else if spec_parse_ordinary(r) is Some {
        (StatusModel { files: st.files.push(spec_parse_ordinary(r)->0), ..st }, i + 1)
    } else if chars::has_prefix(r, "2 "@) {
        let original = if i + 1 < recs.len() { Some(recs[i + 1]) } else { None };
        match spec_parse_renamed(r, original) {
            Some(c) => (StatusModel { files: st.files.push(c), ..st }, i + 2),
            None => (st, i + 2),
        }
    } else if chars::has_prefix(r, "? "@) {
        (StatusModel { files: st.files.push(untracked_change(r.skip(2))), ..st }, i + 1)
    } else if chars::has_prefix(r, "u "@) && spec_parse_unmerged(r) is Some {
        (StatusModel { files: st.files.push(spec_parse_unmerged(r)->0), ..st }, i + 1)
    } else {
        (st, i + 1)
    }
}

/// The records from index `i` on, applied to `st` in order.
pub open spec fn parse_records(st: StatusModel, recs: Seq<Seq<char>>, i: int) -> StatusModel
    decreases recs.len() - i,
{
    if i < 0 || i >= recs.len() {
        st
    } else {
        let (next, j) = step_record(st, recs, i);
        if j <= i {
            st
        } else {
            parse_records(next, recs, if j > recs.len() { recs.len() as int } else { j })
        }
    }
}

/// `a` sorts before `b` as a path: component by component.
pub open spec fn path_lt(a: Seq<char>, b: Seq<char>) -> bool {
    crate::paths::path_order(a, b) < 0
}

fn path_less(a: &Vec<char>, b: &Vec<char>) -> (r: bool)
    ensures
        r == path_lt(a@, b@),
{
    crate::paths::compare_paths(a, b) < 0
}

/// Index at which a stable insertion puts `x`: before the first element that
/// sorts after it.
pub open spec fn insert_index(sorted: Seq<ChangeModel>, x: ChangeModel) -> int
    decreases sorted.len(),
{
    if sorted.len() == 0 {
        0
    } else if path_lt(x.path, sorted.last().path) {
        insert_index(sorted.drop_last(), x)
    } else {
        sorted.len() as int
    }
}

/// The files sorted by path, equal paths keeping their order (a stable sort).
pub open spec fn sort_by_path(s: Seq<ChangeModel>) -> Seq<ChangeModel>
    decreases s.len(),
{
    if s.len() == 0 {
        s
    } else {
        let sorted = sort_by_path(s.drop_last());
        sorted.insert(insert_index(sorted, s.last()), s.last())
    }
}

/// What `parse_porcelain_v2` yields for some output.
pub open spec fn spec_parse_porcelain_v2(bytes: Seq<u8>) -> StatusModel {
    let recs = nul_records(bytes).map_values(|r: Seq<u8>| chars::lossy_utf8(r));
    let empty = StatusModel { branch: None, detached: false, upstream: None, ahead: 0, behind: 0, files: Seq::empty() };
    let parsed = parse_records(empty, recs, 0);
    StatusModel { files: sort_by_path(parsed.files), ..parsed }
}

fn insert_by_path(sorted: &mut Vec<GitFileChange>, x: GitFileChange)
    ensures
        models(final(sorted)@) == models(old(sorted)@).insert(insert_index(models(old(sorted)@), x.model()), x.model()),
{
    let ghost s0 = models(sorted@);
    let key = str_to_chars(x.path.as_str());
    let mut p = sorted.len();
    assert(s0.take(p as int) =~= s0);
    while p > 0 && path_less(&key, &str_to_chars(sorted[p - 1].path.as_str()))
        invariant
            p <= sorted@.len(),
            sorted@ == old(sorted)@,
            s0 == models(sorted@),
            key@ == x.model().path,
            insert_index(s0, x.model()) == insert_index(s0.take(p as int), x.model()),
        decreases p,
    {
        assert(s0.take(p as int).last() == s0[p - 1]);
        assert(s0[p - 1] == sorted@[p - 1].model());
        assert(s0.take(p as int).drop_last() =~= s0.take(p - 1));
        p = p - 1;
    }
    assert(insert_index(s0.take(p as int), x.model()) == p) by {
        if p > 0 {
            assert(s0.take(p as int).last() == s0[p - 1]);
            assert(s0[p - 1] == sorted@[p - 1].model());
        }
    }
    sorted.insert(p, x);
    assert(models(sorted@) =~= s0.insert(p as int, x.model()));
}

fn sort_files(files: Vec<GitFileChange>) -> (r: Vec<GitFileChange>)
    ensures
        models(r@) == sort_by_path(models(files@)),
{
    let ghost orig = models(files@);
    let n = files.len();
    let mut files = files;
    let mut rev: Vec<GitFileChange> = Vec::new();
    while files.len() > 0
        invariant
            files@.len() + rev@.len() == n == orig.len(),
            forall|k: int| 0 <= k < files@.len() ==> (#[trigger] files@[k]).model() == orig[k],
            forall|k: int| 0 <= k < rev@.len() ==> (#[trigger] rev@[k]).model() == orig[n - 1 - k],
        decreases files.len(),
    {
        match files.pop() {
            Some(x) => rev.push(x),
            None => {},
        }
    }
    let mut sorted: Vec<GitFileChange> = Vec::new();
    let mut i: usize = 0;
    assert(orig.take(0) =~= Seq::<ChangeModel>::empty());
    while i < n
        invariant
            i <= n == orig.len(),
            rev@.len() == n - i,
            forall|k: int| 0 <= k < rev@.len() ==> (#[trigger] rev@[k]).model() == orig[n - 1 - k],
            models(sorted@) == sort_by_path(orig.take(i as int)),
        decreases n - i,
    {
        match rev.pop() {
            Some(x) => {
                assert(x.model() == orig[i as int]);
                assert(orig.take(i + 1).drop_last() =~= orig.take(i as int));
                insert_by_path(&mut sorted, x);
            },
            None => {},
        }
        i = i + 1;
    }
    assert(orig.take(n as int) =~= orig);
    sorted
}

/// Parses `git status --porcelain=v2 --branch -z`. Files come sorted by
/// path.
pub fn parse_porcelain_v2(bytes: &[u8]) -> (status: GitStatus)
    ensures
        status.model() == spec_parse_porcelain_v2(bytes@),
{
    let raw = split_records(bytes);
    let ghost recs_spec = nul_records(bytes@).map_values(|r: Seq<u8>| chars::lossy_utf8(r));
    let mut recs: Vec<Vec<char>> = Vec::new();
    let mut k: usize = 0;
    while k < raw.len()
        invariant
            k <= raw@.len(),
            raw@.map_values(|v: Vec<u8>| v@) == nul_records(bytes@),
            recs_spec == nul_records(bytes@).map_values(|r: Seq<u8>| chars::lossy_utf8(r)),
            recs_spec.len() == raw@.len(),
            recs@.len() == k,
            forall|m: int| 0 <= m < k ==> (#[trigger] recs@[m])@ == recs_spec[m],
        decreases raw.len() - k,
    {
        let decoded = utf8_lossy(raw[k].as_slice());
        assert(raw@.map_values(|v: Vec<u8>| v@)[k as int] == raw@[k as int]@);
        assert(recs_spec[k as int] == chars::lossy_utf8(raw@[k as int]@));
        recs.push(str_to_chars(decoded.as_str()));
        k = k + 1;
    }
    let ghost rv = recs@.map_values(|v: Vec<char>| v@);
    assert(rv =~= recs_spec);
    let mut status = GitStatus {
        branch: None,
        detached: false,
        upstream: None,
        ahead: 0,
        behind: 0,
        files: Vec::new(),
    };
    let ghost empty = status.model();
    assert(empty.files =~= Seq::<ChangeModel>::empty());
    let head_prefix = lit("# branch.head ");
    let upstream_prefix = lit("# branch.upstream ");
    let ab_prefix = lit("# branch.ab ");
    let renamed_prefix = lit("2 ");
    let untracked_prefix = lit("? ");
    let unmerged_prefix = lit("u ");
    let detached_name = lit("(detached)");
    let mut index: usize = 0;
    while index < recs.len()
        invariant
            index <= recs@.len(),
            rv == recs@.map_values(|v: Vec<char>| v@),
            head_prefix@ == "# branch.head "@,
            upstream_prefix@ == "# branch.upstream "@,
            ab_prefix@ == "# branch.ab "@,
            renamed_prefix@ == "2 "@,
            untracked_prefix@ == "? "@,
            unmerged_prefix@ == "u "@,
            detached_name@ == "(detached)"@,
            parse_records(status.model(), rv, index as int) == parse_records(empty, rv, 0),
        decreases recs.len() - index,
    {
        let record = &recs[index];
        let ghost before = status.model();
        assert(rv[index as int] == record@);
        let mut next = index + 1;
        if starts_with(record, &head_prefix) {
            let rest = sub_vec(record, head_prefix.len(), record.len());
            assert(rest@ =~= record@.skip(head_prefix@.len() as int));
            status.detached = chars_eq(&rest, &detached_name);
            status.branch = if status.detached { None } else { Some(chars::chars_to_string(rest.as_slice())) };
        } else if starts_with(record, &upstream_prefix) {
            status.upstream = Some(sub_string(record, upstream_prefix.len(), record.len()));
            assert(record@.subrange(upstream_prefix@.len() as int, record@.len() as int) =~= record@.skip(upstream_prefix@.len() as int));
        } else if starts_with(record, &ab_prefix) {
            let rest = sub_vec(record, ab_prefix.len(), record.len());
            assert(rest@ =~= record@.skip(ab_prefix@.len() as int));
            apply_ab_exec(&mut status, &rest);
        } else if let Some(change) = parse_ordinary(record) {
            status.files.push(change);
            assert(models(status.files@) =~= before.files.push(spec_parse_ordinary(record@)->0));
        } else if starts_with(record, &renamed_prefix) {
            let original = if index + 1 < recs.len() {
                Some(chars::chars_to_string(recs[index + 1].as_slice()))
            } else {
                None
            };
            assert(opt_view(original) == (if index + 1 < rv.len() { Some(rv[index + 1]) } else { None::<Seq<char>> }));
            if let Some(change) = parse_renamed(record, original) {
                status.files.push(change);
                assert(models(status.files@) =~= before.files.push(change.model()));
            }
            next = if index + 1 < recs.len() { index + 2 } else { recs.len() };
        } else if starts_with(record, &untracked_prefix) {
            proof { reveal_strlit("? "); }
            assert(untracked_prefix@.len() == 2);
            let path = sub_string(record, 2, record.len());
            assert(path@ =~= record@.skip(2));
            status.files.push(GitFileChange {
                path,
                original_path: None,
                kind: GitFileKind::Untracked,
                index_status: '?',
                worktree_status: '?',
                staged: false,
                unstaged: true,
                conflicted: false,
                untracked: true,
            });
            assert(models(status.files@) =~= before.files.push(untracked_change(record@.skip(2))));
        } else if starts_with(record, &unmerged_prefix) {
            if let Some(change) = parse_unmerged(record) {
                status.files.push(change);
                assert(models(status.files@) =~= before.files.push(change.model()));
            }
        }
        proof {
            let st = step_record(before, rv, index as int);
            assert(st.0 == status.model());
            assert((if st.1 > rv.len() { rv.len() as int } else { st.1 }) == next);
            assert(st.1 > index);
        }
        index = next;
    }
    let sorted = sort_files(status.files);
    GitStatus {
        branch: status.branch,
        detached: status.detached,
        upstream: status.upstream,
        ahead: status.ahead,
        behind: status.behind,
        files: sorted,
    }
}

/// Applies the words of a `# branch.ab` record.
fn apply_ab_exec(status: &mut GitStatus, rest: &Vec<char>)
    ensures
        final(status).model() == apply_ab(old(status).model(), words(rest@)),
{
    let n = rest.len();
    let mut i: usize = 0;
    assert(rest@.skip(0) =~= rest@);
    while i < n
        invariant
            i <= n == rest@.len(),
            apply_ab(status.model(), words(rest@.skip(i as int))) == apply_ab(old(status).model(), words(rest@)),
        decreases n - i,
    {
        let ghost t = rest@.skip(i as int);
        if is_whitespace(rest[i]) {
            assert(t.drop_first() =~= rest@.skip(i + 1));
            i = i + 1;
        } else {
            let mut j = i;
            while j < n && !is_whitespace(rest[j])
                invariant
                    i <= j <= n == rest@.len(),
                    t == rest@.skip(i as int),
                    word_len(t) == (j - i) + word_len(rest@.skip(j as int)),
                decreases n - j,
            {
                assert(rest@.skip(j as int).drop_first() =~= rest@.skip(j + 1));
                j = j + 1;
            }
            assert(word_len(rest@.skip(j as int)) == 0);
            proof { lemma_word_len(t); }
            assert(t.take(word_len(t) as int) =~= rest@.subrange(i as int, j as int));
            assert(t.skip(word_len(t) as int) =~= rest@.skip(j as int));
            let ghost before = status.model();
            let ghost tok = rest@.subrange(i as int, j as int);
            assert(words(t) == seq![tok] + words(rest@.skip(j as int)));
            assert((seq![tok] + words(rest@.skip(j as int)))[0] == tok);
            assert((seq![tok] + words(rest@.skip(j as int))).drop_first() =~= words(rest@.skip(j as int)));
            if rest[i] == '+' {
                if let Some(v) = parse_usize(rest, i + 1, j) {
                    status.ahead = v;
                }
            } else if rest[i] == '-' {
                if let Some(v) = parse_usize(rest, i + 1, j) {
                    status.behind = v;
                }
            }
            assert(rest@.subrange(i as int, j as int).drop_first() =~= rest@.subrange(i + 1, j as int));
            i = j;
        }
    }
    assert(rest@.skip(n as int) =~= Seq::<char>::empty());
}
} // verus!
