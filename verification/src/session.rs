//! Crash-recovery journals and the saved session of a workspace: where
//! they live, and what is restored from them.

use vstd::prelude::*;

use std::hash::{Hash, Hasher};

use crate::app::SidebarView;
use crate::buffer::text_buffer::LineEnding;
use crate::chars::{chars_to_string, lit, parse_usize, str_to_chars};
use crate::paths::{join_path_str, path_components, CompKind};

verus! {

/// Unsaved text of a buffer found in a journal.
#[derive(Debug, Clone)]
pub struct RecoveryBuffer {
    pub path: Option<String>,
    pub text: String,
    pub cursor_char: usize,
    pub expected_disk_hash: Option<u64>,
    pub has_bom: bool,
    pub line_ending: LineEnding,
}

/// The buffers to recover, and the journals they came from.
#[derive(Debug)]
pub struct RecoverySet {
    pub buffers: Vec<RecoveryBuffer>,
    pub journal_paths: Vec<String>,
}

/// A tab of a restored session.
#[derive(Debug, Clone, PartialEq, Eq)]
pub struct RestoredBuffer {
    pub path: String,
    pub cursor_char: usize,
    pub pinned: bool,
}

/// A session as saved at the last clean shutdown.
#[derive(Debug)]
pub struct RestoredSession {
    pub buffers: Vec<RestoredBuffer>,
    pub active_path: Option<String>,
    pub sidebar_visible: bool,
    pub sidebar_view: SidebarView,
    pub bottom_panel_visible: bool,
    pub sidebar_width: u16,
    pub bottom_panel_height: u16,
}

/// Why session state could not be read or written.
#[derive(Debug)]
pub enum SessionError {
    MissingStateHome,
    Io { path: String, message: String },
    Invalid { path: String, message: String },
}

impl SessionError {
    /// The error's message.
    pub fn message(&self) -> (r: String)
        ensures
            r@ == match self {
                SessionError::MissingStateHome => "cannot determine XDG state directory"@,
                SessionError::Io { path, message } => "session I/O failed for "@ + path@ + ": "@ + message@,
                SessionError::Invalid { path, message } => "invalid session data in "@ + path@ + ": "@ + message@,
            },
    {
        match self {
            SessionError::MissingStateHome => chars_to_string(lit("cannot determine XDG state directory").as_slice()),
            SessionError::Io { path, message } => {
                let mut out = lit("session I/O failed for ");
                crate::chars::push_all(&mut out, &str_to_chars(path.as_str()));
                crate::chars::push_all(&mut out, &lit(": "));
                crate::chars::push_all(&mut out, &str_to_chars(message.as_str()));
                chars_to_string(out.as_slice())
            },
            SessionError::Invalid { path, message } => {
                let mut out = lit("invalid session data in ");
                crate::chars::push_all(&mut out, &str_to_chars(path.as_str()));
                crate::chars::push_all(&mut out, &lit(": "));
                crate::chars::push_all(&mut out, &str_to_chars(message.as_str()));
                chars_to_string(out.as_slice())
            },
        }
    }
}

/// The hash that names a workspace's state directory: `Path::hash` of the
/// workspace into a `DefaultHasher::new()`.
pub uninterp spec fn workspace_hash_value(workspace: Seq<char>) -> u64;

/// `DefaultHasher::new()` fed with the workspace path; the hasher starts
/// from fixed keys, so the hash depends on the path alone.
#[verifier::external_body]
fn workspace_hash(workspace: &str) -> (h: u64)
    ensures
        h == workspace_hash_value(workspace@),
{
    let mut hasher = std::collections::hash_map::DefaultHasher::new();
    Hash::hash(std::path::Path::new(workspace), &mut hasher);
    Hasher::finish(&hasher)
}

/// A lower-case hex digit.
pub open spec fn hex_char(n: u64) -> char {
    if n < 10 { (0x30 + n) as char } else { (0x61 + n - 10) as char }
}

/// `{:016x}`: the 16 hex digits of a `u64`, most significant first.
pub open spec fn hex16(h: u64) -> Seq<char> {
    Seq::new(16, |i: int| hex_char(((h as int / pow16(15 - i)) % 16) as u64))
}

pub open spec fn pow16(k: int) -> int
    decreases k,
{
    if k <= 0 { 1 } else { 16 * pow16(k - 1) }
}

/// The journal file name of a process.
pub open spec fn journal_name(pid: u32) -> Seq<char> {
    "journal-"@ + crate::chars::decimal_text(pid as nat) + ".json"@
}

/// Where a workspace's session state lives, under a state directory.
#[derive(Debug, Clone)]
pub struct SessionStore {
    directory: String,
    current_journal: String,
    session_file: String,
    workspace: String,
}

impl SessionStore {
    pub closed spec fn directory_view(&self) -> Seq<char> {
        self.directory@
    }

    pub closed spec fn journal_view(&self) -> Seq<char> {
        self.current_journal@
    }

    pub closed spec fn session_file_view(&self) -> Seq<char> {
        self.session_file@
    }

    pub closed spec fn workspace_view(&self) -> Seq<char> {
        self.workspace@
    }

    /// The layout for a workspace: the directory
    /// `<state home>/mica/workspaces/<hash as 16 hex digits>`, holding this
    /// process's journal `journal-<pid>.json` and `session.json`.
    pub fn layout(workspace: &str, state_home: &str, pid: u32) -> (s: SessionStore)
        ensures
            s.directory_view() == crate::paths::join_path(
                crate::paths::join_path(state_home@, "mica/workspaces"@),
                hex16(workspace_hash_value(workspace@)),
            ),
            s.journal_view() == crate::paths::join_path(s.directory_view(), journal_name(pid)),
            s.session_file_view() == crate::paths::join_path(s.directory_view(), "session.json"@),
            s.workspace_view() == workspace@,
    {
        let h = workspace_hash(workspace);
        let base = join_path_str(state_home, "mica/workspaces");
        let name = hex_digits16(h);
        let directory = join_path_str(base.as_str(), name.as_str());
        let mut jn = lit("journal-");
        let digits = crate::chars::decimal_string(pid as u64);
        crate::chars::push_all(&mut jn, &str_to_chars(digits.as_str()));
        crate::chars::push_all(&mut jn, &lit(".json"));
        let jname = chars_to_string(jn.as_slice());
        let current_journal = join_path_str(directory.as_str(), jname.as_str());
        let session_file = join_path_str(directory.as_str(), "session.json");
        SessionStore {
            directory,
            current_journal,
            session_file,
            workspace: chars_to_string(str_to_chars(workspace).as_slice()),
        }
    }

    /// The directory holding the journals and the session file.
    pub fn directory(&self) -> (r: &str)
        ensures
            r@ == self.directory_view(),
    {
        self.directory.as_str()
    }

    /// This process's journal.
    pub fn current_journal(&self) -> (r: &str)
        ensures
            r@ == self.journal_view(),
    {
        self.current_journal.as_str()
    }

    /// The saved session.
    pub fn session_file(&self) -> (r: &str)
        ensures
            r@ == self.session_file_view(),
    {
        self.session_file.as_str()
    }

    /// The workspace the store belongs to.
    pub fn workspace(&self) -> (r: &str)
        ensures
            r@ == self.workspace_view(),
    {
        self.workspace.as_str()
    }
}

fn hex_digits16(h: u64) -> (s: String)
    ensures
        s@ == hex16(h),
{
    let mut out: Vec<char> = Vec::new();
    let mut i: usize = 0;
    while i < 16
        invariant
            i <= 16,
            out@ == hex16(h).take(i as int),
        decreases 16 - i,
    {
        let shift: u64 = (60 - 4 * i) as u64;
        let nibble = (h >> shift) & 15;
        proof { lemma_nibble(h, i as int); }
        let c = if nibble < 10 { (0x30 + nibble) as u8 as char } else { (0x61 + nibble - 10) as u8 as char };
        assert(c == hex_char(nibble));
        out.push(c);
        i = i + 1;
        assert(out@ =~= hex16(h).take(i as int));
    }
    assert(hex16(h).take(16) =~= hex16(h));
    chars_to_string(out.as_slice())
}

pub proof fn lemma_pow16(k: int)
    requires
        0 <= k <= 15,
    ensures
        pow16(k) == vstd::arithmetic::power2::pow2((4 * k) as nat),
    decreases k,
{
    vstd::arithmetic::power2::lemma2_to64();
    if k > 0 {
        lemma_pow16(k - 1);
        vstd::arithmetic::power2::lemma_pow2_adds((4 * (k - 1)) as nat, 4);
    }
}

pub proof fn lemma_nibble(h: u64, i: int)
    requires
        0 <= i < 16,
    ensures
        (h >> ((60 - 4 * i) as u64)) & 15 == ((h as int / pow16(15 - i)) % 16) as u64,
{
    lemma_pow16(15 - i);
    let s = (60 - 4 * i) as u64;
    vstd::bits::lemma_u64_shr_is_div(h, s);
    vstd::bits::lemma_u64_low_bits_mask_is_mod(h >> s, 4);
    vstd::arithmetic::power2::lemma2_to64();
    assert(vstd::bits::low_bits_mask(4) == 15) by {
        vstd::bits::lemma_low_bits_mask_values();
    }
}

/// The last component of a path, where it is a normal one
/// (`Path::file_name`).
pub open spec fn file_name(s: Seq<char>) -> Option<Seq<char>> {
    let cs = crate::paths::components(s);
    if cs.len() > 0 && cs.last().0 == CompKind::Normal {
        Some(cs.last().1)
    } else {
        None
    }
}

/// The process id in a journal file name `journal-<pid>.json`.
pub open spec fn spec_journal_pid(path: Seq<char>) -> Option<u32> {
    match file_name(path) {
        Some(name) => if name.len() >= 13 && name.take(8) == "journal-"@ && name.skip(name.len() - 5)
            == ".json"@ {
            match crate::chars::spec_parse_usize(name.subrange(8, name.len() - 5)) {
                Some(v) => if v <= u32::MAX { Some(v as u32) } else { None },
                None => None,
            }
        } else {
            None
        },
        None => None,
    }
}

/// The process id a journal belongs to, from its file name.
pub fn journal_pid(path: &str) -> (r: Option<u32>)
    ensures
        r == spec_journal_pid(path@),
{
    let s = str_to_chars(path);
    let cs = path_components(&s);
    let ghost model = crate::paths::components(s@);
    let n = cs.len();
    if n == 0 || cs[n - 1].0 != CompKind::Normal {
        return None;
    }
    let name = &cs[n - 1].1;
    assert(name@ == model.last().1);
    let m = name.len();
    if m < 13 {
        return None;
    }
    let prefix = lit("journal-");
    let suffix = lit(".json");
    let mut ok = true;
    let mut k: usize = 0;
    proof { reveal_strlit("journal-"); }
    assert(name@.take(0) =~= prefix@.take(0));
    while k < 8
        invariant
            k <= 8 <= 13 <= m == name@.len(),
            prefix@ == "journal-"@,
            prefix@.len() == 8,
            ok == (name@.take(k as int) == prefix@.take(k as int)),
        decreases 8 - k,
    {
        proof { reveal_strlit("journal-"); }
        let same = name[k] == prefix[k];
        proof {
            if ok && same {
                assert(name@.take(k + 1) =~= prefix@.take(k + 1));
            }
            if !same {
                assert(name@.take(k + 1)[k as int] != prefix@.take(k + 1)[k as int]);
            }
            if !ok {
                assert(name@.take(k as int) != prefix@.take(k as int));
                assert(name@.take(k + 1) != prefix@.take(k + 1)) by {
                    if name@.take(k + 1) == prefix@.take(k + 1) {
                        assert(name@.take(k as int) =~= name@.take(k + 1).take(k as int));
                        assert(prefix@.take(k as int) =~= prefix@.take(k + 1).take(k as int));
                    }
                }
            }
        }
        ok = ok && same;
        k = k + 1;
    }
    proof { reveal_strlit("journal-"); reveal_strlit(".json"); }
    assert(prefix@.take(8) =~= prefix@);
    let mut j: usize = 0;
    assert(name@.subrange(m - 5, m - 5) =~= suffix@.take(0));
    while j < 5
        invariant
            j <= 5,
            13 <= m == name@.len(),
            suffix@ == ".json"@,
            suffix@.len() == 5,
            ok == (name@.take(8) == "journal-"@ && name@.subrange(m - 5, m - 5 + j) == suffix@.take(j as int)),
        decreases 5 - j,
    {
        proof { reveal_strlit(".json"); }
        let same = name[m - 5 + j] == suffix[j];
        proof {
            let a = name@.subrange(m - 5, m - 5 + j);
            let b = name@.subrange(m - 5, m - 5 + j + 1);
            if same && a == suffix@.take(j as int) {
                assert(b =~= suffix@.take(j + 1));
            }
            if !same {
                assert(b[j as int] != suffix@.take(j + 1)[j as int]);
            }
            if a != suffix@.take(j as int) {
                assert(b != suffix@.take(j + 1)) by {
                    if b == suffix@.take(j + 1) {
                        assert(a =~= b.take(j as int));
                        assert(suffix@.take(j as int) =~= suffix@.take(j + 1).take(j as int));
                    }
                }
            }
        }
        ok = ok && same;
        j = j + 1;
    }
    assert(suffix@.take(5) =~= suffix@);
    assert(name@.subrange(m - 5, m as int) =~= name@.skip(m - 5));
    if !ok {
        return None;
    }
    match parse_usize(name, 8, m - 5) {
        Some(v) => {
            if v <= 0xffff_ffff {
                Some(v as u32)
            } else {
                None
            }
        },
        None => None,
    }
}


/// The version of the journal and session file format.
pub const SESSION_VERSION: u32 = 1;

/// A buffer of an editing session, as the editor hands it to be saved.
#[derive(Debug, Clone)]
pub struct SessionBufferSnapshot {
    pub path: Option<String>,
    pub text: String,
    pub dirty: bool,
    pub cursor_char: usize,
    pub expected_disk_hash: Option<u64>,
    pub has_bom: bool,
    pub line_ending: LineEnding,
    pub pinned: bool,
}

/// An editing session, as the editor hands it to be saved.
#[derive(Debug, Clone)]
pub struct SessionSnapshot {
    pub workspace: String,
    pub buffers: Vec<SessionBufferSnapshot>,
    pub active_tab: Option<usize>,
    pub sidebar_visible: bool,
    pub sidebar_view: SidebarView,
    pub bottom_panel_visible: bool,
    pub sidebar_width: u16,
    pub bottom_panel_height: u16,
}

/// A buffer as a journal or session file stores it: its text only where
/// it has unsaved changes.
#[derive(Debug, Clone)]
pub struct StoredBuffer {
    pub path: Option<String>,
    pub unsaved_text: Option<String>,
    pub cursor_char: usize,
    pub expected_disk_hash: Option<u64>,
    pub has_bom: bool,
    pub line_ending: LineEnding,
    pub pinned: bool,
}

/// What a journal or session file stores.
#[derive(Debug, Clone)]
pub struct StoredSession {
    pub version: u32,
    pub workspace: String,
    pub buffers: Vec<StoredBuffer>,
    pub active_tab: Option<usize>,
    pub sidebar_visible: bool,
    pub sidebar_view: SidebarView,
    pub bottom_panel_visible: bool,
    pub sidebar_width: u16,
    pub bottom_panel_height: u16,
}

pub open spec fn opt_view(o: Option<String>) -> Option<Seq<char>> {
    match o {
        Some(s) => Some(s@),
        None => None,
    }
}

/// A stored buffer as plain values.
pub open spec fn stored_buffer_view(b: StoredBuffer) -> (Option<Seq<char>>, Option<Seq<char>>, usize, Option<u64>, bool, LineEnding, bool) {
    (opt_view(b.path), opt_view(b.unsaved_text), b.cursor_char, b.expected_disk_hash, b.has_bom, b.line_ending, b.pinned)
}

/// How a buffer of a snapshot is stored.
pub open spec fn stored_from(b: SessionBufferSnapshot) -> (Option<Seq<char>>, Option<Seq<char>>, usize, Option<u64>, bool, LineEnding, bool) {
    (
        opt_view(b.path),
        if b.dirty { Some(b.text@) } else { None },
        b.cursor_char,
        b.expected_disk_hash,
        b.has_bom,
        b.line_ending,
        b.pinned,
    )
}

fn copy_text(s: &String) -> (r: String)
    ensures
        r@ == s@,
{
    chars_to_string(str_to_chars(s.as_str()).as_slice())
}

fn copy_opt(s: &Option<String>) -> (r: Option<String>)
    ensures
        opt_view(r) == opt_view(*s),
{
    match s {
        Some(t) => Some(copy_text(t)),
        None => None,
    }
}

/// What a session snapshot writes: this format version, and each buffer
/// with its text only where it is dirty.
pub fn stored_session(snapshot: &SessionSnapshot) -> (r: StoredSession)
    ensures
        r.version == SESSION_VERSION,
        r.workspace@ == snapshot.workspace@,
        r.buffers@.len() == snapshot.buffers@.len(),
        forall|k: int| 0 <= k < r.buffers@.len() ==> stored_buffer_view(#[trigger] r.buffers@[k]) == stored_from(
            snapshot.buffers@[k],
        ),
        r.active_tab == snapshot.active_tab,
        r.sidebar_visible == snapshot.sidebar_visible,
        r.sidebar_view == snapshot.sidebar_view,
        r.bottom_panel_visible == snapshot.bottom_panel_visible,
        r.sidebar_width == snapshot.sidebar_width,
        r.bottom_panel_height == snapshot.bottom_panel_height,
{
    let mut buffers: Vec<StoredBuffer> = Vec::new();
    let mut k: usize = 0;
    while k < snapshot.buffers.len()
        invariant
            k <= snapshot.buffers@.len(),
            buffers@.len() == k,
            forall|j: int| 0 <= j < k ==> stored_buffer_view(#[trigger] buffers@[j]) == stored_from(snapshot.buffers@[j]),
        decreases snapshot.buffers.len() - k,
    {
        let b = &snapshot.buffers[k];
        buffers.push(
            StoredBuffer {
                path: copy_opt(&b.path),
                unsaved_text: if b.dirty { Some(copy_text(&b.text)) } else { None },
                cursor_char: b.cursor_char,
                expected_disk_hash: b.expected_disk_hash,
                has_bom: b.has_bom,
                line_ending: b.line_ending,
                pinned: b.pinned,
            },
        );
        k = k + 1;
    }
    StoredSession {
        version: SESSION_VERSION,
        workspace: copy_text(&snapshot.workspace),
        buffers,
        active_tab: snapshot.active_tab,
        sidebar_visible: snapshot.sidebar_visible,
        sidebar_view: snapshot.sidebar_view,
        bottom_panel_visible: snapshot.bottom_panel_visible,
        sidebar_width: snapshot.sidebar_width,
        bottom_panel_height: snapshot.bottom_panel_height,
    }
}

/// A stored session belongs to a workspace: the same format version and
/// the same path (component by component).
pub open spec fn belongs(stored: StoredSession, workspace: Seq<char>) -> bool {
    stored.version == SESSION_VERSION && crate::paths::path_order(stored.workspace@, workspace) == 0
}

fn belongs_exec(stored: &StoredSession, workspace: &str) -> (r: bool)
    ensures
        r == belongs(*stored, workspace@),
{
    if stored.version != SESSION_VERSION {
        return false;
    }
    crate::paths::compare_paths(&str_to_chars(stored.workspace.as_str()), &str_to_chars(workspace)) == 0
}

/// The tabs of a stored session that have a path.
pub open spec fn restored_tabs(bs: Seq<StoredBuffer>) -> Seq<(Seq<char>, usize, bool)>
    decreases bs.len(),
{
    if bs.len() == 0 {
        Seq::empty()
    } else {
        let rest = restored_tabs(bs.drop_last());
        match bs.last().path {
            Some(p) => rest.push((p@, bs.last().cursor_char, bs.last().pinned)),
            None => rest,
        }
    }
}

pub open spec fn restored_view(b: RestoredBuffer) -> (Seq<char>, usize, bool) {
    (b.path@, b.cursor_char, b.pinned)
}

/// The path of the active tab, where it is in range and has one.
pub open spec fn active_path_of(stored: StoredSession) -> Option<Seq<char>> {
    match stored.active_tab {
        Some(i) => if i < stored.buffers@.len() { opt_view(stored.buffers@[i as int].path) } else { None },
        None => None,
    }
}

/// What a saved session restores: nothing for another format version or
/// workspace; otherwise its tabs with a path, the active tab's path and
/// the panel layout.
pub fn restored_session(stored: &StoredSession, workspace: &str) -> (r: Option<RestoredSession>)
    ensures
        r is Some <==> belongs(*stored, workspace@),
        r matches Some(s) ==> {
            &&& s.buffers@.map_values(|b: RestoredBuffer| restored_view(b)) == restored_tabs(stored.buffers@)
            &&& opt_view(s.active_path) == active_path_of(*stored)
            &&& s.sidebar_visible == stored.sidebar_visible
            &&& s.sidebar_view == stored.sidebar_view
            &&& s.bottom_panel_visible == stored.bottom_panel_visible
            &&& s.sidebar_width == stored.sidebar_width
            &&& s.bottom_panel_height == stored.bottom_panel_height
        },
{
    if !belongs_exec(stored, workspace) {
        return None;
    }
    let active_path = match stored.active_tab {
        Some(i) => if i < stored.buffers.len() { copy_opt(&stored.buffers[i].path) } else { None },
        None => None,
    };
    let mut buffers: Vec<RestoredBuffer> = Vec::new();
    let mut k: usize = 0;
    assert(stored.buffers@.take(0) =~= Seq::<StoredBuffer>::empty());
    while k < stored.buffers.len()
        invariant
            k <= stored.buffers@.len(),
            buffers@.map_values(|b: RestoredBuffer| restored_view(b)) == restored_tabs(stored.buffers@.take(k as int)),
        decreases stored.buffers.len() - k,
    {
        let b = &stored.buffers[k];
        assert(stored.buffers@.take(k + 1).drop_last() =~= stored.buffers@.take(k as int));
        assert(stored.buffers@.take(k + 1).last() == *b);
        match &b.path {
            Some(p) => {
                let ghost before = buffers@;
                buffers.push(RestoredBuffer { path: copy_text(p), cursor_char: b.cursor_char, pinned: b.pinned });
                assert(buffers@.map_values(|b: RestoredBuffer| restored_view(b)) =~= before.map_values(
                    |b: RestoredBuffer| restored_view(b),
                ).push((p@, b.cursor_char, b.pinned)));
            },
            None => {},
        }
        k = k + 1;
    }
    assert(stored.buffers@.take(k as int) =~= stored.buffers@);
    Some(
        RestoredSession {
            buffers,
            active_path,
            sidebar_visible: stored.sidebar_visible,
            sidebar_view: stored.sidebar_view,
            bottom_panel_visible: stored.bottom_panel_visible,
            sidebar_width: stored.sidebar_width,
            bottom_panel_height: stored.bottom_panel_height,
        },
    )
}

/// The unsaved buffers a journal holds, in order.
pub open spec fn unsaved_buffers(bs: Seq<StoredBuffer>) -> Seq<(Option<Seq<char>>, Seq<char>, usize, Option<u64>, bool, LineEnding)>
    decreases bs.len(),
{
    if bs.len() == 0 {
        Seq::empty()
    } else {
        let rest = unsaved_buffers(bs.drop_last());
        let b = bs.last();
        match b.unsaved_text {
            Some(t) => rest.push((opt_view(b.path), t@, b.cursor_char, b.expected_disk_hash, b.has_bom, b.line_ending)),
            None => rest,
        }
    }
}

pub open spec fn recovery_view(b: RecoveryBuffer) -> (Option<Seq<char>>, Seq<char>, usize, Option<u64>, bool, LineEnding) {
    (opt_view(b.path), b.text@, b.cursor_char, b.expected_disk_hash, b.has_bom, b.line_ending)
}

/// What a journal of this workspace gives to recover: its buffers with
/// unsaved text; nothing from another format version or workspace.
pub fn journal_recovery(stored: &StoredSession, workspace: &str) -> (r: Option<Vec<RecoveryBuffer>>)
    ensures
        r is Some <==> belongs(*stored, workspace@),
        r matches Some(v) ==> v@.map_values(|b: RecoveryBuffer| recovery_view(b)) == unsaved_buffers(stored.buffers@),
{
    if !belongs_exec(stored, workspace) {
        return None;
    }
    let mut out: Vec<RecoveryBuffer> = Vec::new();
    let mut k: usize = 0;
    assert(stored.buffers@.take(0) =~= Seq::<StoredBuffer>::empty());
    while k < stored.buffers.len()
        invariant
            k <= stored.buffers@.len(),
            out@.map_values(|b: RecoveryBuffer| recovery_view(b)) == unsaved_buffers(stored.buffers@.take(k as int)),
        decreases stored.buffers.len() - k,
    {
        let b = &stored.buffers[k];
        assert(stored.buffers@.take(k + 1).drop_last() =~= stored.buffers@.take(k as int));
        assert(stored.buffers@.take(k + 1).last() == *b);
        match &b.unsaved_text {
            Some(t) => {
                let ghost before = out@;
                let item = RecoveryBuffer {
                    path: copy_opt(&b.path),
                    text: copy_text(t),
                    cursor_char: b.cursor_char,
                    expected_disk_hash: b.expected_disk_hash,
                    has_bom: b.has_bom,
                    line_ending: b.line_ending,
                };
                out.push(item);
                assert(out@.map_values(|b: RecoveryBuffer| recovery_view(b)) =~= before.map_values(
                    |b: RecoveryBuffer| recovery_view(b),
                ).push(recovery_view(item)));
            },
            None => {},
        }
        k = k + 1;
    }
    assert(stored.buffers@.take(k as int) =~= stored.buffers@);
    Some(out)
}

/// A journal is recovered when it is this process's own or its process is
/// gone; a live editor keeps its journal.
pub fn journal_recoverable(pid: u32, own_pid: u32, alive: bool) -> (r: bool)
    ensures
        r == (pid == own_pid || !alive),
{
    pid == own_pid || !alive
}


/// The tabs of a snapshot that have a path.
pub open spec fn snapshot_tabs(bs: Seq<SessionBufferSnapshot>) -> Seq<(Seq<char>, usize, bool)>
    decreases bs.len(),
{
    if bs.len() == 0 {
        Seq::empty()
    } else {
        let rest = snapshot_tabs(bs.drop_last());
        match bs.last().path {
            Some(p) => rest.push((p@, bs.last().cursor_char, bs.last().pinned)),
            None => rest,
        }
    }
}

/// The dirty buffers of a snapshot, with their text.
pub open spec fn dirty_buffers(bs: Seq<SessionBufferSnapshot>) -> Seq<(Option<Seq<char>>, Seq<char>, usize, Option<u64>, bool, LineEnding)>
    decreases bs.len(),
{
    if bs.len() == 0 {
        Seq::empty()
    } else {
        let rest = dirty_buffers(bs.drop_last());
        let b = bs.last();
        if b.dirty {
            rest.push((opt_view(b.path), b.text@, b.cursor_char, b.expected_disk_hash, b.has_bom, b.line_ending))
        } else {
            rest
        }
    }
}

proof fn lemma_stored_buffers(sb: Seq<StoredBuffer>, ss: Seq<SessionBufferSnapshot>)
    requires
        sb.len() == ss.len(),
        forall|k: int| 0 <= k < sb.len() ==> stored_buffer_view(#[trigger] sb[k]) == stored_from(ss[k]),
    ensures
        restored_tabs(sb) == snapshot_tabs(ss),
        unsaved_buffers(sb) == dirty_buffers(ss),
    decreases sb.len(),
{
    if sb.len() > 0 {
        let n = sb.len() - 1;
        assert(stored_buffer_view(sb[n]) == stored_from(ss[n]));
        assert forall|k: int| 0 <= k < sb.drop_last().len() implies stored_buffer_view(
            #[trigger] sb.drop_last()[k],
        ) == stored_from(ss.drop_last()[k]) by {
            assert(sb.drop_last()[k] == sb[k]);
            assert(ss.drop_last()[k] == ss[k]);
        }
        lemma_stored_buffers(sb.drop_last(), ss.drop_last());
        assert(opt_view(sb[n].path) == opt_view(ss[n].path));
        assert(sb[n].path is Some <==> ss[n].path is Some);
        assert(sb[n].unsaved_text is Some <==> ss[n].dirty);
    }
}

/// What a snapshot stores is restored: the stored form belongs to the
/// snapshot's workspace, brings back its tabs that have a path (in order,
/// with cursor and pin), and recovers exactly its dirty buffers' text.
pub proof fn lemma_snapshot_round_trip(snapshot: SessionSnapshot, stored: StoredSession)
    requires
        stored.version == SESSION_VERSION,
        stored.workspace@ == snapshot.workspace@,
        stored.buffers@.len() == snapshot.buffers@.len(),
        forall|k: int| 0 <= k < stored.buffers@.len() ==> stored_buffer_view(#[trigger] stored.buffers@[k]) == stored_from(
            snapshot.buffers@[k],
        ),
    ensures
        belongs(stored, snapshot.workspace@),
        restored_tabs(stored.buffers@) == snapshot_tabs(snapshot.buffers@),
        unsaved_buffers(stored.buffers@) == dirty_buffers(snapshot.buffers@),
{
    crate::paths::lemma_path_order_zero(stored.workspace@, snapshot.workspace@);
    lemma_stored_buffers(stored.buffers@, snapshot.buffers@);
}

} // verus!
