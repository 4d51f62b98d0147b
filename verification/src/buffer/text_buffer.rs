//! Text and edit history shared by every view of one file.

use ropey::Rope;
use vstd::prelude::*;

use super::history::{Edit, History};
use super::persistence::{disk_content_hash, hash_text, SaveError};
use super::rope::{
    rope_char_to_line, rope_from_str, rope_get_char, rope_insert, rope_len_chars,
    rope_len_lines, rope_line_to_char, rope_new, rope_remove, rope_slice_string, rope_to_string,
};
use super::{history, persistence, rope};
use super::selection::{CharOffset, Selection};
use crate::chars::{chars_to_string, push_all, push_range, str_to_chars};

verus! {

#[derive(Debug, Clone, Copy, PartialEq, Eq, Structural)]
pub enum LineEnding {
    Lf,
    CrLf,
    Mixed,
}

#[derive(Debug, Clone, Copy, PartialEq, Eq, Structural)]
pub enum DiskState {
    Present,
    ModifiedExternally,
    Deleted,
}

#[derive(Debug, Clone, Copy, PartialEq, Eq, Structural)]
pub enum ExternalChangeOutcome {
    Unchanged,
    Reloaded,
    Conflict,
    Deleted,
}

#[derive(Debug)]
pub enum BufferError {
    Read { path: String, message: String },
    NoPath,
    ReadOnly,
    Save(SaveError),
}

impl BufferError {
    /// The text the editor shows for the error.
    pub open spec fn spec_message(self) -> Seq<char> {
        match self {
            BufferError::Read { path, message } => "failed to read "@ + path@ + ": "@ + message@,
            BufferError::NoPath => "buffer has no file path"@,
            BufferError::ReadOnly => "buffer is read-only"@,
            BufferError::Save(SaveError::MissingParent(p)) => "cannot determine parent directory for "@ + p@,
            BufferError::Save(SaveError::Io { path, message }) => "failed to save "@ + path@ + ": "@ + message@,
            BufferError::Save(SaveError::ExternalConflict(p)) => "refusing to overwrite externally changed file: "@ + p@,
        }
    }

    pub fn message(&self) -> (r: String)
        ensures
            r@ == self.spec_message(),
    {
        let mut out: Vec<char>;
        match self {
            BufferError::Read { path, message } => {
                out = str_to_chars("failed to read ");
                push_all(&mut out, &str_to_chars(path.as_str()));
                push_all(&mut out, &str_to_chars(": "));
                push_all(&mut out, &str_to_chars(message.as_str()));
            },
            BufferError::NoPath => {
                out = str_to_chars("buffer has no file path");
            },
            BufferError::ReadOnly => {
                out = str_to_chars("buffer is read-only");
            },
            BufferError::Save(SaveError::MissingParent(p)) => {
                out = str_to_chars("cannot determine parent directory for ");
                push_all(&mut out, &str_to_chars(p.as_str()));
            },
            BufferError::Save(SaveError::Io { path, message }) => {
                out = str_to_chars("failed to save ");
                push_all(&mut out, &str_to_chars(path.as_str()));
                push_all(&mut out, &str_to_chars(": "));
                push_all(&mut out, &str_to_chars(message.as_str()));
            },
            BufferError::Save(SaveError::ExternalConflict(p)) => {
                out = str_to_chars("refusing to overwrite externally changed file: ");
                push_all(&mut out, &str_to_chars(p.as_str()));
            },
        }
        chars_to_string(out.as_slice())
    }
}

/// What a save writes, and the hashes the buffer takes on once it is written.
#[derive(Debug, Clone)]
pub struct SaveSnapshot {
    pub path: String,
    pub bytes: Vec<u8>,
    pub generation: u64,
    pub content_hash: u64,
    pub disk_hash: u64,
    pub expected_disk_hash: Option<u64>,
}

/// The UTF-8 byte-order mark.
pub open spec fn bom() -> Seq<u8> {
    seq![0xEFu8, 0xBBu8, 0xBFu8]
}

/// Number of CRLF pairs in `s`.
pub open spec fn count_crlf(s: Seq<char>) -> nat
    decreases s.len(),
{
    if s.len() < 2 {
        0
    } else {
        (if s[0] == '\r' && s[1] == '\n' { 1nat } else { 0nat }) + count_crlf(s.drop_first())
    }
}

/// No CRLF means LF; every LF in a CRLF means CRLF; otherwise mixed.
pub open spec fn spec_line_ending(s: Seq<char>) -> LineEnding {
    if count_crlf(s) == 0 {
        LineEnding::Lf
    } else if rope::count_lf(s) == count_crlf(s) {
        LineEnding::CrLf
    } else {
        LineEnding::Mixed
    }
}

/// `std::str::from_utf8`, owned.
#[verifier::external_body]
fn utf8_decode(bytes: &[u8]) -> (r: Option<String>)
    ensures
        r is Some <==> vstd::utf8::valid_utf8(bytes@),
        r matches Some(s) ==> s@ == vstd::utf8::decode_utf8(bytes@),
{
    std::str::from_utf8(bytes).ok().map(str::to_owned)
}

/// The text a file's bytes decode to: valid UTF-8 is decoded exactly, and
/// anything else lossily.
pub open spec fn decoded_text(content: Seq<u8>) -> Seq<char> {
    if vstd::utf8::valid_utf8(content) {
        vstd::utf8::decode_utf8(content)
    } else {
        crate::chars::lossy_utf8(content)
    }
}

/// The bytes after a leading byte-order mark, if there is one.
pub open spec fn strip_bom(bytes: Seq<u8>) -> Seq<u8> {
    if bytes.len() >= 3 && bytes.take(3) == bom() {
        bytes.skip(3)
    } else {
        bytes
    }
}

pub open spec fn has_bom_prefix(bytes: Seq<u8>) -> bool {
    bytes.len() >= 3 && bytes.take(3) == bom()
}

/// Counts the LFs and CRLF pairs of a text.
pub fn detect_line_ending(text: &Vec<char>) -> (r: LineEnding)
    ensures
        r == spec_line_ending(text@),
{
    let n = text.len();
    let mut crlf: usize = 0;
    let mut lf: usize = 0;
    let mut i = n;
    proof {
        assert(text@.skip(n as int) =~= Seq::<char>::empty());
    }
    while i > 0
        invariant
            i <= n == text@.len(),
            crlf == count_crlf(text@.skip(i as int)),
            lf == rope::count_lf(text@.skip(i as int)),
            lf <= n - i,
            crlf <= n - i,
        decreases i,
    {
        i = i - 1;
        let ghost rest = text@.skip(i as int);
        assert(rest.drop_first() =~= text@.skip(i + 1));
        if text[i] == '\n' {
            lf = lf + 1;
        }
        if text[i] == '\r' && i + 1 < n && text[i + 1] == '\n' {
            crlf = crlf + 1;
        }
    }
    assert(text@.skip(0) =~= text@);
    if crlf == 0 {
        LineEnding::Lf
    } else if lf == crlf {
        LineEnding::CrLf
    } else {
        LineEnding::Mixed
    }
}

pub open spec fn min_usize(a: usize, b: usize) -> usize {
    if a <= b { a } else { b }
}

/// `g + 1`, saturating at `u64::MAX`.
pub open spec fn sat_inc(g: u64) -> u64 {
    if g < u64::MAX { (g + 1) as u64 } else { u64::MAX }
}

/// `after` is `before` with `before.chars()[start..end]` replaced by
/// `value`, recorded as one new undo entry; the redo stack is empty.
pub open spec fn edit_recorded(before: TextBuffer, after: TextBuffer, start: int, end: int, value: Seq<char>) -> bool {
    &&& after.chars() == before.chars().take(start) + value + before.chars().skip(end)
    &&& after.undo_stack().len() == before.undo_stack().len() + 1
    &&& after.undo_stack().drop_last() == before.undo_stack()
    &&& after.undo_stack().last().start_char == start
    &&& after.undo_stack().last().deleted@ == before.chars().subrange(start, end)
    &&& after.undo_stack().last().inserted@ == value
    &&& after.redo_stack() == Seq::<Edit>::empty()
    &&& after.spec_generation() == sat_inc(before.spec_generation())
    &&& after.same_meta(before)
}

/// `after` is `before` with its selection replaced by `value` as one undoable
/// edit, and a caret after the inserted text.
pub open spec fn replaced(before: TextBuffer, after: TextBuffer, value: Seq<char>) -> bool {
    &&& edit_recorded(before, after, before.sel().start() as int, before.sel().end() as int, value)
    &&& after.sel() == Selection::caret_spec((before.sel().start() + value.len()) as usize)
}

/// `after` is `before` with its newest undo entry undone and moved to the
/// redo stack, and a caret after the restored text.
pub open spec fn undone(before: TextBuffer, after: TextBuffer) -> bool {
    let e = before.undo_stack().last();
    &&& after.chars() == history::apply_reverse(before.chars(), e)
    &&& after.sel() == Selection::caret_spec((e.start_char + e.deleted@.len()) as usize)
    &&& after.undo_stack() == before.undo_stack().drop_last()
    &&& after.redo_stack() == before.redo_stack().push(e)
    &&& after.spec_generation() == sat_inc(before.spec_generation())
    &&& after.same_meta(before)
}

/// `after` is `before` with its newest redo entry applied again and moved to
/// the undo stack, and a caret after the inserted text.
pub open spec fn redone(before: TextBuffer, after: TextBuffer) -> bool {
    let e = before.redo_stack().last();
    &&& after.chars() == history::apply_forward(before.chars(), e)
    &&& after.sel() == Selection::caret_spec((e.start_char + e.inserted@.len()) as usize)
    &&& after.redo_stack() == before.redo_stack().drop_last()
    &&& after.undo_stack() == before.undo_stack().push(e)
    &&& after.spec_generation() == sat_inc(before.spec_generation())
    &&& after.same_meta(before)
}

/// Last line touched by the selection `start..end`: a non-empty selection
/// that ends at the start of a line does not include that line.
pub open spec fn block_last_line(t: Seq<char>, start: int, end: int) -> nat {
    let end_line = rope::line_of(t, end);
    if end > start && rope::line_start(t, end_line) == end && end_line > 0 {
        (end_line - 1) as nat
    } else {
        end_line
    }
}

/// Start of the first line touched by the selection.
pub open spec fn block_start(t: Seq<char>, start: int) -> int {
    rope::line_start(t, rope::line_of(t, start))
}

/// End of the last line touched by the selection (after its LF, if any).
pub open spec fn block_end(t: Seq<char>, start: int, end: int) -> int {
    let last = block_last_line(t, start, end);
    if last + 1 < rope::line_count(t) {
        rope::line_start(t, last + 1)
    } else {
        t.len() as int
    }
}

/// Length of the leading run of spaces and tabs.
pub open spec fn blank_prefix_len(s: Seq<char>) -> nat
    decreases s.len(),
{
    if s.len() > 0 && (s[0] == ' ' || s[0] == '\t') {
        1 + blank_prefix_len(s.drop_first())
    } else {
        0
    }
}

/// The line break a buffer inserts.
pub open spec fn newline_for(le: LineEnding) -> Seq<char> {
    if le == LineEnding::CrLf { seq!['\r', '\n'] } else { seq!['\n'] }
}

/// The last grapheme cluster of a non-empty text.
pub open spec fn last_cluster(s: Seq<char>) -> Seq<char> {
    crate::unicode::grapheme_clusters(s).last()
}

/// Undoing an edit gives back the text from before it: whatever edit
/// `edit_recorded` describes, an `undo` right after it restores the text.
pub proof fn lemma_undo_restores_text(before: TextBuffer, mid: TextBuffer, after: TextBuffer, start: int, end: int, value: Seq<char>)
    requires
        0 <= start <= end <= before.chars().len(),
        edit_recorded(before, mid, start, end, value),
        undone(mid, after),
    ensures
        after.chars() == before.chars(),
        after.undo_stack() == before.undo_stack(),
{
    let t = before.chars();
    let e = mid.undo_stack().last();
    assert(history::forward_applies(t, e));
    assert(mid.chars() =~= history::apply_forward(t, e));
    history::lemma_reverse_undoes_forward(t, e);
}

/// Redoing an undone edit gives back the text from before the undo.
pub proof fn lemma_redo_restores_text(before: TextBuffer, mid: TextBuffer, after: TextBuffer)
    requires
        before.wf(),
        before.undo_stack().len() > 0,
        undone(before, mid),
        redone(mid, after),
    ensures
        after.chars() == before.chars(),
        after.undo_stack() == before.undo_stack(),
        after.redo_stack() == before.redo_stack(),
{
    let e = before.undo_stack().last();
    reveal_undo_top(before);
    history::lemma_forward_redoes_reverse(before.chars(), e);
    assert(mid.redo_stack().last() == e);
    assert(after.undo_stack() =~= before.undo_stack());
    assert(after.redo_stack() =~= before.redo_stack());
}

/// The newest undo entry of a well-formed buffer can be undone.
pub proof fn reveal_undo_top(b: TextBuffer)
    requires
        b.wf(),
        b.undo_stack().len() > 0,
    ensures
        history::reverse_applies(b.chars(), b.undo_stack().last()),
{
}

/// First line touched by the selection.
pub open spec fn block_first_line(t: Seq<char>, start: int) -> nat {
    rope::line_of(t, start)
}

/// End of the line after the selected block (the whole text if that is the
/// last line).
pub open spec fn next_block_end(t: Seq<char>, start: int, end: int) -> int {
    let last = block_last_line(t, start, end);
    if last + 2 < rope::line_count(t) {
        rope::line_start(t, last + 2)
    } else {
        t.len() as int
    }
}

/// The outcome of reading a buffer's file from disk again.
#[derive(Debug, Clone)]
pub enum DiskRead {
    Bytes(Vec<u8>),
    NotFound,
    Failed(String),
}

/// What a save writes: the byte-order mark if the file had one, then the
/// text as UTF-8.
pub open spec fn saved_bytes(has_bom: bool, text: Seq<char>) -> Seq<u8> {
    (if has_bom { bom() } else { Seq::empty() }) + vstd::utf8::encode_utf8(text)
}

/// Text and edit history shared by every view of one file.
#[derive(Debug)]
pub struct TextBuffer {
    path: Option<String>,
    text: Rope,
    selections: Vec<Selection>,
    history: History,
    generation: u64,
    saved_hash: u64,
    disk_hash: Option<u64>,
    has_bom: bool,
    line_ending: LineEnding,
    read_only: bool,
    invalid_utf8: bool,
    disk_state: DiskState,
}

impl TextBuffer {
    /// The text the buffer holds.
    pub closed spec fn chars(self) -> Seq<char> {
        rope::rope_chars(self.text)
    }

    /// The primary selection.
    pub closed spec fn sel(self) -> Selection {
        self.selections@[0]
    }

    pub closed spec fn undo_stack(self) -> Seq<Edit> {
        self.history.undo_stack()
    }

    pub closed spec fn redo_stack(self) -> Seq<Edit> {
        self.history.redo_stack()
    }

    pub closed spec fn spec_path(self) -> Option<String> {
        self.path
    }

    pub closed spec fn spec_generation(self) -> u64 {
        self.generation
    }

    pub closed spec fn spec_saved_hash(self) -> u64 {
        self.saved_hash
    }

    pub closed spec fn spec_disk_hash(self) -> Option<u64> {
        self.disk_hash
    }

    pub closed spec fn spec_has_bom(self) -> bool {
        self.has_bom
    }

    pub closed spec fn spec_line_ending(self) -> LineEnding {
        self.line_ending
    }

    pub closed spec fn spec_read_only(self) -> bool {
        self.read_only
    }

    pub closed spec fn spec_invalid_utf8(self) -> bool {
        self.invalid_utf8
    }

    pub closed spec fn spec_disk_state(self) -> DiskState {
        self.disk_state
    }

    /// The text differs from the one last saved (by content hash).
    pub open spec fn spec_dirty(self) -> bool {
        persistence::text_hash(self.chars()) != self.spec_saved_hash()
    }

    /// Everything but the text, the selection and the history is the same.
    pub open spec fn same_meta(self, other: TextBuffer) -> bool {
        &&& self.spec_path() == other.spec_path()
        &&& self.spec_saved_hash() == other.spec_saved_hash()
        &&& self.spec_disk_hash() == other.spec_disk_hash()
        &&& self.spec_has_bom() == other.spec_has_bom()
        &&& self.spec_line_ending() == other.spec_line_ending()
        &&& self.spec_read_only() == other.spec_read_only()
        &&& self.spec_invalid_utf8() == other.spec_invalid_utf8()
        &&& self.spec_disk_state() == other.spec_disk_state()
    }

    /// One selection inside the text, and undo/redo stacks that replay.
    pub closed spec fn wf(self) -> bool {
        &&& self.selections@.len() == 1
        &&& rope::rope_chars(self.text).len() <= usize::MAX
        &&& self.selections@[0].anchor.0 <= rope::rope_chars(self.text).len()
        &&& self.selections@[0].head.0 <= rope::rope_chars(self.text).len()
        &&& history::undo_chain(rope::rope_chars(self.text), self.history.undo_stack())
        &&& history::redo_chain(rope::rope_chars(self.text), self.history.redo_stack())
    }

    /// The selection of a well-formed buffer lies inside its text.
    pub proof fn lemma_selection_in_text(self)
        requires
            self.wf(),
        ensures
            self.sel().start() <= self.sel().end() <= self.chars().len(),
    {
    }

    pub fn empty(path: Option<String>, read_only: bool) -> (b: Self)
        ensures
            b.wf(),
            b.chars() == Seq::<char>::empty(),
            b.sel() == Selection::caret_spec(0),
            b.undo_stack().len() == 0,
            b.redo_stack().len() == 0,
            b.spec_path() == path,
            b.spec_read_only() == read_only,
            b.spec_generation() == 0,
            b.spec_saved_hash() == persistence::text_hash(Seq::<char>::empty()),
            b.spec_disk_hash() is None,
            !b.spec_has_bom(),
            b.spec_line_ending() == LineEnding::Lf,
            !b.spec_invalid_utf8(),
            b.spec_disk_state() == DiskState::Present,
    {
        let text = rope_new();
        let content = rope_to_string(&text);
        let _ = rope_len_chars(&text);
        let hash = hash_text(content.as_str());
        TextBuffer {
            path,
            text,
            selections: vec![Selection::caret(CharOffset(0))],
            history: History::new(),
            generation: 0,
            saved_hash: hash,
            disk_hash: None,
            has_bom: false,
            line_ending: LineEnding::Lf,
            read_only,
            invalid_utf8: false,
            disk_state: DiskState::Present,
        }
    }

    /// A buffer restored from a crash journal: it holds `content`, which was
    /// never saved, so it is dirty.
    pub fn recovered(
        path: Option<String>,
        content: &str,
        expected_disk_hash: Option<u64>,
        has_bom: bool,
        line_ending: LineEnding,
        read_only: bool,
    ) -> (b: Self)
        ensures
            b.wf(),
            b.chars() == content@,
            b.sel() == Selection::caret_spec(0),
            b.undo_stack().len() == 0,
            b.redo_stack().len() == 0,
            b.spec_path() == path,
            b.spec_generation() == 1,
            b.spec_saved_hash() == persistence::text_hash(content@) ^ u64::MAX,
            b.spec_dirty(),
            b.spec_disk_hash() == expected_disk_hash,
            b.spec_has_bom() == has_bom,
            b.spec_line_ending() == line_ending,
            b.spec_read_only() == read_only,
            !b.spec_invalid_utf8(),
            b.spec_disk_state() == DiskState::Present,
    {
        let text = rope_from_str(content);
        let whole = rope_to_string(&text);
        let _ = rope_len_chars(&text);
        let content_hash = hash_text(whole.as_str());
        assert(content_hash ^ u64::MAX != content_hash) by (bit_vector);
        TextBuffer {
            path,
            text,
            selections: vec![Selection::caret(CharOffset(0))],
            history: History::new(),
            generation: 1,
            saved_hash: content_hash ^ u64::MAX,
            disk_hash: expected_disk_hash,
            has_bom,
            line_ending,
            read_only,
            invalid_utf8: false,
            disk_state: DiskState::Present,
        }
    }

    /// A buffer for a file whose bytes were read from disk. A leading
    /// byte-order mark is remembered and left out of the text; bytes that are
    /// not UTF-8 are decoded lossily and make the buffer read-only.
    pub fn from_disk_bytes(
        path: String,
        bytes: &[u8],
        force_read_only: bool,
        metadata_read_only: bool,
    ) -> (b: Self)
        ensures
            b.wf(),
            b.chars() == decoded_text(strip_bom(bytes@)),
            b.sel() == Selection::caret_spec(0),
            b.undo_stack().len() == 0,
            b.redo_stack().len() == 0,
            b.spec_path() == Some(path),
            b.spec_generation() == 0,
            b.spec_saved_hash() == persistence::text_hash(b.chars()),
            !b.spec_dirty(),
            b.spec_disk_hash() == Some(persistence::bytes_hash(bytes@)),
            b.spec_has_bom() == has_bom_prefix(bytes@),
            b.spec_line_ending() == spec_line_ending(b.chars()),
            b.spec_invalid_utf8() == !vstd::utf8::valid_utf8(strip_bom(bytes@)),
            b.spec_read_only() == (force_read_only || metadata_read_only
                || b.spec_invalid_utf8()),
            b.spec_disk_state() == DiskState::Present,
    {
        let disk_hash = disk_content_hash(bytes);
        let has_bom = bytes.len() >= 3 && bytes[0] == 0xEF && bytes[1] == 0xBB && bytes[2] == 0xBF;
        let mut content: Vec<u8> = Vec::new();
        let start: usize = if has_bom { 3 } else { 0 };
        let mut i = start;
        while i < bytes.len()
            invariant
                start <= i <= bytes@.len(),
                content@ == bytes@.subrange(start as int, i as int),
            decreases bytes.len() - i,
        {
            content.push(bytes[i]);
            assert(bytes@.subrange(start as int, i + 1) =~= bytes@.subrange(start as int, i as int).push(bytes@[i as int]));
            i = i + 1;
        }
        proof {
            if has_bom {
                assert(bytes@.take(3) =~= bom());
                assert(content@ =~= bytes@.skip(3));
            } else {
                assert(!(bytes@.len() >= 3 && bytes@.take(3) == bom())) by {
                    if bytes@.len() >= 3 && bytes@.take(3) == bom() {
                        assert(bytes@[0] == bytes@.take(3)[0]);
                        assert(bytes@[1] == bytes@.take(3)[1]);
                        assert(bytes@[2] == bytes@.take(3)[2]);
                    }
                }
                assert(content@ =~= bytes@);
            }
        }
        let (decoded, invalid_utf8) = match utf8_decode(content.as_slice()) {
            Some(text) => (text, false),
            None => (crate::chars::utf8_lossy(content.as_slice()), true),
        };
        let decoded_chars = str_to_chars(decoded.as_str());
        let line_ending = detect_line_ending(&decoded_chars);
        let text = rope_from_str(decoded.as_str());
        let whole = rope_to_string(&text);
        let _ = rope_len_chars(&text);
        let saved_hash = hash_text(whole.as_str());
        TextBuffer {
            path: Some(path),
            text,
            selections: vec![Selection::caret(CharOffset(0))],
            history: History::new(),
            generation: 0,
            saved_hash,
            disk_hash: Some(disk_hash),
            has_bom,
            line_ending,
            read_only: force_read_only || metadata_read_only || invalid_utf8,
            invalid_utf8,
            disk_state: DiskState::Present,
        }
    }

    pub fn path(&self) -> (p: &Option<String>)
        ensures
            *p == self.spec_path(),
    {
        &self.path
    }

    pub fn text(&self) -> (t: &Rope)
        ensures
            rope::rope_chars(*t) == self.chars(),
    {
        &self.text
    }

    pub fn text_string(&self) -> (s: String)
        ensures
            s@ == self.chars(),
    {
        rope_to_string(&self.text)
    }

    /// Number of chars in the text.
    pub fn len_chars(&self) -> (n: usize)
        ensures
            n == self.chars().len(),
    {
        rope_len_chars(&self.text)
    }

    pub fn selection(&self) -> (s: Selection)
        requires
            self.wf(),
        ensures
            s == self.sel(),
            s.start() <= s.end() <= self.chars().len(),
    {
        self.selections[0]
    }

    /// The selected text, unless the selection is a caret.
    pub fn selected_text(&self) -> (r: Option<String>)
        requires
            self.wf(),
        ensures
            self.sel().start() == self.sel().end() ==> r is None,
            self.sel().start() != self.sel().end() ==> (r matches Some(t) && t@
                == self.chars().subrange(self.sel().start() as int, self.sel().end() as int)),
    {
        let range = self.selection().range();
        if range.start != range.end {
            Some(rope_slice_string(&self.text, range.start, range.end))
        } else {
            None
        }
    }

    /// Moves the selection, clamping both ends to the text.
    pub fn set_selection(&mut self, selection: Selection)
        requires
            old(self).wf(),
        ensures
            final(self).wf(),
            final(self).chars() == old(self).chars(),
            final(self).sel().anchor.0 == min_usize(selection.anchor.0, old(self).chars().len() as usize),
            final(self).sel().head.0 == min_usize(selection.head.0, old(self).chars().len() as usize),
            final(self).undo_stack() == old(self).undo_stack(),
            final(self).redo_stack() == old(self).redo_stack(),
            final(self).spec_generation() == old(self).spec_generation(),
            final(self).same_meta(*old(self)),
    {
        let max = rope_len_chars(&self.text);
        let anchor = if selection.anchor.0 < max { selection.anchor.0 } else { max };
        let head = if selection.head.0 < max { selection.head.0 } else { max };
        self.selections.set(0, Selection { anchor: CharOffset(anchor), head: CharOffset(head) });
    }

    pub fn generation(&self) -> (g: u64)
        ensures
            g == self.spec_generation(),
    {
        self.generation
    }

    /// The text differs from the text last saved (compared by content hash).
    pub fn is_dirty(&self) -> (d: bool)
        ensures
            d == self.spec_dirty(),
    {
        let whole = rope_to_string(&self.text);
        hash_text(whole.as_str()) != self.saved_hash
    }

    pub fn is_read_only(&self) -> (r: bool)
        ensures
            r == self.spec_read_only(),
    {
        self.read_only
    }

    pub fn has_invalid_utf8(&self) -> (r: bool)
        ensures
            r == self.spec_invalid_utf8(),
    {
        self.invalid_utf8
    }

    pub fn line_ending(&self) -> (r: LineEnding)
        ensures
            r == self.spec_line_ending(),
    {
        self.line_ending
    }

    pub fn has_bom(&self) -> (r: bool)
        ensures
            r == self.spec_has_bom(),
    {
        self.has_bom
    }

    pub fn disk_state(&self) -> (r: DiskState)
        ensures
            r == self.spec_disk_state(),
    {
        self.disk_state
    }

    pub fn disk_hash(&self) -> (r: Option<u64>)
        ensures
            r == self.spec_disk_hash(),
    {
        self.disk_hash
    }

    pub fn set_path(&mut self, path: String)
        requires
            old(self).wf(),
        ensures
            final(self).wf(),
            final(self).spec_path() == Some(path),
            final(self).chars() == old(self).chars(),
            final(self).sel() == old(self).sel(),
            final(self).undo_stack() == old(self).undo_stack(),
            final(self).redo_stack() == old(self).redo_stack(),
            final(self).spec_generation() == old(self).spec_generation(),
            final(self).spec_saved_hash() == old(self).spec_saved_hash(),
            final(self).spec_disk_hash() == old(self).spec_disk_hash(),
            final(self).spec_has_bom() == old(self).spec_has_bom(),
            final(self).spec_line_ending() == old(self).spec_line_ending(),
            final(self).spec_read_only() == old(self).spec_read_only(),
            final(self).spec_invalid_utf8() == old(self).spec_invalid_utf8(),
            final(self).spec_disk_state() == old(self).spec_disk_state(),
    {
        self.path = Some(path);
    }

    fn apply_forward(&mut self, edit: &Edit)
        requires
            history::forward_applies(old(self).chars(), *edit),
        ensures
            final(self).chars() == history::apply_forward(old(self).chars(), *edit),
            final(self).chars().len() <= usize::MAX,
            final(self).selections == old(self).selections,
            final(self).history == old(self).history,
            final(self).spec_generation() == sat_inc(old(self).spec_generation()),
            final(self).same_meta(*old(self)),
    {
        let _ = rope_len_chars(&self.text);
        let start = edit.start_char;
        let old_end = start + edit.deleted.as_str().unicode_len();
        let ghost t = self.chars();
        rope_remove(&mut self.text, start, old_end);
        rope_insert(&mut self.text, start, edit.inserted.as_str());
        assert(self.chars() =~= history::apply_forward(t, *edit));
        self.generation = if self.generation < u64::MAX { self.generation + 1 } else { u64::MAX };
    }

    fn apply_reverse(&mut self, edit: &Edit)
        requires
            history::reverse_applies(old(self).chars(), *edit),
        ensures
            final(self).chars() == history::apply_reverse(old(self).chars(), *edit),
            final(self).chars().len() <= usize::MAX,
            final(self).selections == old(self).selections,
            final(self).history == old(self).history,
            final(self).spec_generation() == sat_inc(old(self).spec_generation()),
            final(self).same_meta(*old(self)),
    {
        let _ = rope_len_chars(&self.text);
        let start = edit.start_char;
        let new_end = start + edit.inserted.as_str().unicode_len();
        let ghost t = self.chars();
        rope_remove(&mut self.text, start, new_end);
        rope_insert(&mut self.text, start, edit.deleted.as_str());
        assert(self.chars() =~= history::apply_reverse(t, *edit));
        self.generation = if self.generation < u64::MAX { self.generation + 1 } else { u64::MAX };
    }

    /// Replaces the selection with `value` as one undoable edit and leaves a
    /// caret after it. The redo stack is cleared.
    pub fn insert(&mut self, value: &str) -> (r: Result<(), BufferError>)
        requires
            old(self).wf(),
        ensures
            final(self).wf(),
            old(self).spec_read_only() ==> (r matches Err(BufferError::ReadOnly)) && *final(self) == *old(self),
            !old(self).spec_read_only() ==> r is Ok && replaced(*old(self), *final(self), value@),
    {
        if self.read_only {
            return Err(BufferError::ReadOnly);
        }
        self.replace_selection(value);
        Ok(())
    }

    /// The edit of `insert`, on a buffer known to be writable.
    fn replace_selection(&mut self, value: &str)
        requires
            old(self).wf(),
        ensures
            final(self).wf(),
            replaced(*old(self), *final(self), value@),
    {
        let selection = self.selections[0];
        let range = selection.range();
        let deleted = rope_slice_string(&self.text, range.start, range.end);
        let edit = Edit { start_char: range.start, deleted, inserted: value.to_owned() };
        let ghost t = self.chars();
        proof {
            assert(history::forward_applies(t, edit));
            history::lemma_reverse_undoes_forward(t, edit);
        }
        self.apply_forward(&edit);
        let _ = rope_len_chars(&self.text);
        let head = range.start + value.unicode_len();
        self.selections.set(0, Selection::caret(CharOffset(head)));
        self.history.record(edit);
        proof {
            let u = self.undo_stack();
            assert(u.drop_last() =~= old(self).undo_stack());
            assert(self.chars() =~= t.take(range.start as int) + value@ + t.skip(range.end as int));
        }
    }

    /// Pops the newest undo entry and restores the text it replaced, leaving
    /// a caret after the restored text. Returns whether there was one.
    pub fn undo(&mut self) -> (r: Result<bool, BufferError>)
        requires
            old(self).wf(),
        ensures
            final(self).wf(),
            old(self).spec_read_only() ==> (r matches Err(BufferError::ReadOnly)) && *final(self) == *old(self),
            !old(self).spec_read_only() && old(self).undo_stack().len() == 0 ==> r == Ok::<bool, BufferError>(false)
                && *final(self) == *old(self),
            !old(self).spec_read_only() && old(self).undo_stack().len() > 0 ==> r == Ok::<bool, BufferError>(true)
                && undone(*old(self), *final(self)),
    {
        if self.read_only {
            return Err(BufferError::ReadOnly);
        }
        if !self.history.can_undo() {
            return Ok(false);
        }
        let popped = self.history.pop_undo();
        match popped {
            None => Ok(false),
            Some(edit) => {
                let ghost t = self.chars();
                proof {
                    history::lemma_forward_redoes_reverse(t, edit);
                }
                self.apply_reverse(&edit);
                let _ = rope_len_chars(&self.text);
                let head = edit.start_char + edit.deleted.as_str().unicode_len();
                self.selections.set(0, Selection::caret(CharOffset(head)));
                self.history.push_redo(edit);
                proof {
                    assert(self.redo_stack().drop_last() =~= old(self).redo_stack());
                }
                Ok(true)
            },
        }
    }

    /// Pops the newest redo entry and applies it again, leaving a caret after
    /// the inserted text. Returns whether there was one.
    pub fn redo(&mut self) -> (r: Result<bool, BufferError>)
        requires
            old(self).wf(),
        ensures
            final(self).wf(),
            old(self).spec_read_only() ==> (r matches Err(BufferError::ReadOnly)) && *final(self) == *old(self),
            !old(self).spec_read_only() && old(self).redo_stack().len() == 0 ==> r == Ok::<bool, BufferError>(false)
                && *final(self) == *old(self),
            !old(self).spec_read_only() && old(self).redo_stack().len() > 0 ==> r == Ok::<bool, BufferError>(true)
                && redone(*old(self), *final(self)),
    {
        if self.read_only {
            return Err(BufferError::ReadOnly);
        }
        if !self.history.can_redo() {
            return Ok(false);
        }
        let popped = self.history.pop_redo();
        match popped {
            None => Ok(false),
            Some(edit) => {
                let ghost t = self.chars();
                proof {
                    history::lemma_reverse_undoes_forward(t, edit);
                }
                self.apply_forward(&edit);
                let _ = rope_len_chars(&self.text);
                let head = edit.start_char + edit.inserted.as_str().unicode_len();
                self.selections.set(0, Selection::caret(CharOffset(head)));
                self.history.push_undo(edit);
                proof {
                    assert(self.undo_stack().drop_last() =~= old(self).undo_stack());
                }
                Ok(true)
            },
        }
    }

    /// Deletes the selection, if it is not a caret.
    pub fn delete_selection(&mut self) -> (r: Result<bool, BufferError>)
        requires
            old(self).wf(),
        ensures
            final(self).wf(),
            old(self).sel().anchor == old(self).sel().head ==> r == Ok::<bool, BufferError>(false) && *final(self) == *old(self),
            old(self).sel().anchor != old(self).sel().head && old(self).spec_read_only() ==> (r matches Err(BufferError::ReadOnly)) && *final(self) == *old(self),
            old(self).sel().anchor != old(self).sel().head && !old(self).spec_read_only() ==> r == Ok::<bool, BufferError>(true) && replaced(*old(self), *final(self), Seq::empty()),
    {
        if self.selection().is_caret() {
            return Ok(false);
        }
        proof { reveal_strlit(""); assert(""@ =~= Seq::<char>::empty()); }
        match self.insert("") {
            Ok(()) => Ok(true),
            Err(e) => Err(e),
        }
    }

    /// Deletes the chars `start_char..end_char`, both clamped to the text, as
    /// one undoable edit leaving a caret at the start.
    pub fn delete_range(&mut self, start_char: usize, end_char: usize) -> (r: Result<(), BufferError>)
        requires
            old(self).wf(),
        ensures
            final(self).wf(),
            ({
                let len = old(self).chars().len() as usize;
                let s = min_usize(start_char, len);
                let e = if min_usize(end_char, len) < s { s } else { min_usize(end_char, len) };
                &&& old(self).spec_read_only() ==> (r matches Err(BufferError::ReadOnly)) && *final(self) == *old(self)
                &&& !old(self).spec_read_only() && s == e ==> r is Ok && *final(self) == *old(self)
                &&& !old(self).spec_read_only() && s != e ==> r is Ok
                    && edit_recorded(*old(self), *final(self), s as int, e as int, Seq::empty())
                    && final(self).sel() == Selection::caret_spec(s)
            }),
    {
        if self.read_only {
            return Err(BufferError::ReadOnly);
        }
        let len = rope_len_chars(&self.text);
        let start = if start_char < len { start_char } else { len };
        let end0 = if end_char < len { end_char } else { len };
        let end = if end0 < start { start } else { end0 };
        if start == end {
            return Ok(());
        }
        self.set_selection(Selection { anchor: CharOffset(start), head: CharOffset(end) });
        proof { reveal_strlit(""); assert(""@ =~= Seq::<char>::empty()); }
        self.replace_selection("");
        Ok(())
    }

    /// Selects the whole text.
    pub fn select_all(&mut self)
        requires
            old(self).wf(),
        ensures
            final(self).wf(),
            final(self).chars() == old(self).chars(),
            final(self).sel() == (Selection { anchor: CharOffset(0), head: CharOffset(old(self).chars().len() as usize) }),
            final(self).undo_stack() == old(self).undo_stack(),
            final(self).redo_stack() == old(self).redo_stack(),
            final(self).spec_generation() == old(self).spec_generation(),
            final(self).same_meta(*old(self)),
    {
        let len = rope_len_chars(&self.text);
        self.set_selection(Selection { anchor: CharOffset(0), head: CharOffset(len) });
    }

    /// Steps over `closing` when the caret sits right before it.
    pub fn skip_matching_closer(&mut self, closing: char) -> (moved: bool)
        requires
            old(self).wf(),
        ensures
            final(self).wf(),
            moved == (old(self).sel().anchor == old(self).sel().head
                && old(self).sel().head.0 < old(self).chars().len()
                && old(self).chars()[old(self).sel().head.0 as int] == closing),
            moved ==> final(self).sel() == Selection::caret_spec((old(self).sel().head.0 + 1) as usize),
            !moved ==> final(self).sel() == old(self).sel(),
            final(self).chars() == old(self).chars(),
            final(self).undo_stack() == old(self).undo_stack(),
            final(self).redo_stack() == old(self).redo_stack(),
            final(self).spec_generation() == old(self).spec_generation(),
            final(self).same_meta(*old(self)),
    {
        let selection = self.selection();
        let _ = rope_len_chars(&self.text);
        if !selection.is_caret() {
            return false;
        }
        let next = rope_get_char(&self.text, selection.head.0);
        if next == Some(closing) {
            self.set_selection(Selection::caret(CharOffset(selection.head.0 + 1)));
            true
        } else {
            false
        }
    }

    /// Surrounds the selection with `opening` and `closing` as one edit. A
    /// caret ends up between the pair; a selection stays on the same text.
    pub fn insert_auto_pair(&mut self, opening: char, closing: char) -> (r: Result<(), BufferError>)
        requires
            old(self).wf(),
        ensures
            final(self).wf(),
            old(self).spec_read_only() ==> (r matches Err(BufferError::ReadOnly)) && *final(self) == *old(self),
            !old(self).spec_read_only() ==> r is Ok && ({
                let s = old(self).sel().start();
                let e = old(self).sel().end();
                let inner = old(self).chars().subrange(s as int, e as int);
                &&& edit_recorded(*old(self), *final(self), s as int, e as int, seq![opening] + inner + seq![closing])
                &&& final(self).sel() == (Selection { anchor: CharOffset((s + 1) as usize), head: CharOffset((s + 1 + inner.len()) as usize) })
            }),
    {
        if self.read_only {
            return Err(BufferError::ReadOnly);
        }
        let selection = self.selection();
        let range = selection.range();
        let selected = rope_slice_string(&self.text, range.start, range.end);
        let selected_chars = str_to_chars(selected.as_str());
        let mut value: Vec<char> = Vec::new();
        value.push(opening);
        push_all(&mut value, &selected_chars);
        value.push(closing);
        let value_string = chars_to_string(value.as_slice());
        assert(value_string@ =~= seq![opening] + selected@ + seq![closing]);
        self.replace_selection(value_string.as_str());
        let _ = rope_len_chars(&self.text);
        let n = selected_chars.len();
        self.set_selection(Selection { anchor: CharOffset(range.start + 1), head: CharOffset(range.start + 1 + n) });
        Ok(())
    }

    /// Deletes the selection, or else the grapheme cluster before the caret,
    /// as one undoable edit.
    pub fn delete_backward(&mut self) -> (r: Result<(), BufferError>)
        requires
            old(self).wf(),
        ensures
            final(self).wf(),
            old(self).spec_read_only() ==> (r matches Err(BufferError::ReadOnly)) && *final(self) == *old(self),
            !old(self).spec_read_only() && old(self).sel().anchor != old(self).sel().head ==> r is Ok && replaced(*old(self), *final(self), Seq::empty()),
            !old(self).spec_read_only() && old(self).sel().anchor == old(self).sel().head && old(self).sel().head.0 == 0 ==> r is Ok && *final(self) == *old(self),
            !old(self).spec_read_only() && old(self).sel().anchor == old(self).sel().head && old(self).sel().head.0 > 0 ==> r is Ok && ({
                let h = old(self).sel().head.0 as int;
                let k = last_cluster(old(self).chars().take(h)).len() as int;
                &&& 0 < k <= h
                &&& edit_recorded(*old(self), *final(self), h - k, h, Seq::empty())
                &&& final(self).sel() == Selection::caret_spec((h - k) as usize)
            }),
    {
        if self.read_only {
            return Err(BufferError::ReadOnly);
        }
        let selection = self.selection();
        proof { reveal_strlit(""); assert(""@ =~= Seq::<char>::empty()); }
        if !selection.is_caret() {
            self.replace_selection("");
            return Ok(());
        }
        if selection.head.0 == 0 {
            return Ok(());
        }
        let head = selection.head.0;
        let before = rope_slice_string(&self.text, 0, head);
        let clusters = crate::unicode::graphemes(before.as_str());
        let ghost parts = crate::unicode::views(clusters@);
        if clusters.len() == 0 {
            assert(parts =~= Seq::<Seq<char>>::empty());
            assert(crate::unicode::concat(parts).len() == 0);
            assert(before@.len() == head);
            assert(false);
            return Ok(());
        }
        let deleted = clusters[clusters.len() - 1].clone();
        let k = deleted.as_str().unicode_len();
        proof {
            assert(parts.last() == deleted@);
            assert(clusters@[clusters@.len() - 1]@.len() > 0);
            assert(k > 0);
            assert(crate::unicode::concat(parts) == crate::unicode::concat(parts.drop_last()) + parts.last());
            assert(k <= head);
            assert(before@ =~= self.chars().take(head as int));
            let pre = crate::unicode::concat(parts.drop_last());
            assert(before@ == pre + deleted@);
            assert(before@.skip(head - k) =~= deleted@);
            assert(deleted@ =~= self.chars().subrange(head - k, head as int));
            assert(last_cluster(self.chars().take(head as int)) == deleted@);
        }
        let ghost before_edit = *self;
        self.set_selection(Selection { anchor: CharOffset(head - k), head: CharOffset(head) });
        let ghost mid = *self;
        assert(mid.sel().start() == head - k);
        assert(mid.sel().end() == head);
        self.replace_selection("");
        assert(edit_recorded(mid, *self, (head - k) as int, head as int, Seq::empty()));
        assert(edit_recorded(before_edit, *self, (head - k) as int, head as int, Seq::empty()));
        Ok(())
    }

    /// The char range of the whole lines the selection touches.
    fn selected_line_block(&self) -> (r: (usize, usize))
        requires
            self.wf(),
        ensures
            r.0 == block_start(self.chars(), self.sel().start() as int),
            r.1 == block_end(self.chars(), self.sel().start() as int, self.sel().end() as int),
            r.0 <= self.sel().start() <= self.sel().end() <= self.chars().len(),
            r.0 <= r.1 <= self.chars().len(),
    {
        let range = self.selection().range();
        let ghost t = self.chars();
        let start_line = rope_char_to_line(&self.text, range.start);
        let mut end_line = rope_char_to_line(&self.text, range.end);
        proof {
            rope::lemma_line_of_monotonic(t, range.start as int, range.end as int);
            rope::lemma_line_of_start(t, range.start as int);
            rope::lemma_line_of_start(t, range.end as int);
        }
        let end_line_start = rope_line_to_char(&self.text, end_line);
        if range.end > range.start && end_line_start == range.end && end_line > 0 {
            end_line = end_line - 1;
            proof {
                if end_line < start_line {
                    assert(start_line == end_line + 1);
                    assert(false);
                }
            }
        }
        let start = rope_line_to_char(&self.text, start_line);
        let lines = rope_len_lines(&self.text);
        let end = if end_line + 1 < lines {
            rope_line_to_char(&self.text, end_line + 1)
        } else {
            rope_len_chars(&self.text)
        };
        proof {
            rope::lemma_line_start_bounds(t, (end_line + 1) as nat);
            rope::lemma_line_start_monotonic(t, start_line as nat, (end_line + 1) as nat);
            rope::lemma_line_start_bounds(t, start_line as nat);
        }
        (start, end)
    }

    /// Inserts a line break followed by the blanks that start the current
    /// line before the caret, as one undoable edit.
    pub fn insert_newline_with_indent(&mut self) -> (r: Result<(), BufferError>)
        requires
            old(self).wf(),
        ensures
            final(self).wf(),
            old(self).spec_read_only() ==> (r matches Err(BufferError::ReadOnly)) && *final(self) == *old(self),
            !old(self).spec_read_only() ==> r is Ok && ({
                let t = old(self).chars();
                let c = old(self).sel().start() as int;
                let ls = block_start(t, c);
                replaced(*old(self), *final(self), newline_for(old(self).spec_line_ending())
                    + t.subrange(ls, ls + blank_prefix_len(t.subrange(ls, c))))
            }),
    {
        if self.read_only {
            return Err(BufferError::ReadOnly);
        }
        let cursor = self.selection().range().start;
        let ghost t = self.chars();
        let line_index = rope_char_to_line(&self.text, cursor);
        proof {
            rope::lemma_line_of_start(t, cursor as int);
            rope::lemma_line_of_monotonic(t, cursor as int, cursor as int);
        }
        let line_start = rope_line_to_char(&self.text, line_index);
        let before = rope_slice_string(&self.text, line_start, cursor);
        let before_chars = str_to_chars(before.as_str());
        let mut value: Vec<char> = Vec::new();
        if self.line_ending == LineEnding::CrLf {
            value.push('\r');
        }
        value.push('\n');
        let ghost nl = value@;
        assert(nl =~= newline_for(self.line_ending));
        let mut i: usize = 0;
        assert(before_chars@.skip(0) =~= before_chars@);
        while i < before_chars.len() && (before_chars[i] == ' ' || before_chars[i] == '\t')
            invariant
                i <= before_chars@.len(),
                value@ == nl + before_chars@.take(i as int),
                blank_prefix_len(before_chars@) == i + blank_prefix_len(before_chars@.skip(i as int)),
            decreases before_chars.len() - i,
        {
            assert(before_chars@.skip(i as int).drop_first() =~= before_chars@.skip(i + 1));
            value.push(before_chars[i]);
            assert(before_chars@.take(i + 1) =~= before_chars@.take(i as int).push(before_chars@[i as int]));
            i = i + 1;
        }
        proof {
            assert(before_chars@.skip(0) =~= before_chars@);
            assert(blank_prefix_len(before_chars@.skip(i as int)) == 0);
            assert(before_chars@.take(i as int) =~= t.subrange(line_start as int, line_start + i));
        }
        let value_string = chars_to_string(value.as_slice());
        self.replace_selection(value_string.as_str());
        Ok(())
    }

    /// Duplicates the whole lines the selection touches, as one edit, and
    /// selects the copy.
    pub fn duplicate_selected_lines(&mut self) -> (r: Result<(), BufferError>)
        requires
            old(self).wf(),
        ensures
            final(self).wf(),
            ({
                let t = old(self).chars();
                let bs = block_start(t, old(self).sel().start() as int);
                let be = block_end(t, old(self).sel().start() as int, old(self).sel().end() as int);
                let b = t.subrange(bs, be);
                &&& old(self).spec_read_only() ==> (r matches Err(BufferError::ReadOnly))
                    && final(self).chars() == t
                    && final(self).sel() == (Selection { anchor: CharOffset(bs as usize), head: CharOffset(be as usize) })
                    && final(self).undo_stack() == old(self).undo_stack()
                    && final(self).redo_stack() == old(self).redo_stack()
                    && final(self).spec_generation() == old(self).spec_generation()
                    && final(self).same_meta(*old(self))
                &&& !old(self).spec_read_only() ==> r is Ok
                    && edit_recorded(*old(self), *final(self), bs, be, b + b)
                    && final(self).sel() == (Selection { anchor: CharOffset((bs + b.len()) as usize), head: CharOffset((bs + 2 * b.len()) as usize) })
            }),
    {
        let (start, end) = self.selected_line_block();
        let block = rope_slice_string(&self.text, start, end);
        let block_chars = str_to_chars(block.as_str());
        self.set_selection(Selection { anchor: CharOffset(start), head: CharOffset(end) });
        if self.read_only {
            return Err(BufferError::ReadOnly);
        }
        let mut doubled: Vec<char> = Vec::new();
        push_all(&mut doubled, &block_chars);
        push_all(&mut doubled, &block_chars);
        let value = chars_to_string(doubled.as_slice());
        self.replace_selection(value.as_str());
        let _ = rope_len_chars(&self.text);
        let n = block_chars.len();
        self.set_selection(Selection { anchor: CharOffset(start + n), head: CharOffset(start + 2 * n) });
        Ok(())
    }

    /// Swaps the whole lines the selection touches with the line below
    /// (`down`) or above, as one edit, keeping the moved lines selected. At
    /// the last (first) line nothing changes.
    #[verifier::rlimit(60)]
    #[verifier::spinoff_prover]
    pub fn move_selected_lines(&mut self, down: bool) -> (r: Result<(), BufferError>)
        requires
            old(self).wf(),
        ensures
            final(self).wf(),
            ({
                let t = old(self).chars();
                let s = old(self).sel().start() as int;
                let e = old(self).sel().end() as int;
                let bs = block_start(t, s);
                let be = block_end(t, s, e);
                let b = t.subrange(bs, be);
                let first = block_first_line(t, s);
                let last = block_last_line(t, s, e);
                &&& old(self).spec_read_only() ==> (r matches Err(BufferError::ReadOnly)) && *final(self) == *old(self)
                &&& !old(self).spec_read_only() && down && last + 1 >= rope::line_count(t) ==> r is Ok && *final(self) == *old(self)
                &&& !old(self).spec_read_only() && down && last + 1 < rope::line_count(t) ==> r is Ok && ({
                    let ne = next_block_end(t, s, e);
                    let next = t.subrange(be, ne);
                    &&& edit_recorded(*old(self), *final(self), bs, ne, next + b)
                    &&& final(self).sel() == (Selection { anchor: CharOffset((bs + next.len()) as usize), head: CharOffset((bs + next.len() + b.len()) as usize) })
                })
                &&& !old(self).spec_read_only() && !down && first == 0 ==> r is Ok && *final(self) == *old(self)
                &&& !old(self).spec_read_only() && !down && first > 0 ==> r is Ok && ({
                    let ps = rope::line_start(t, (first - 1) as nat);
                    let previous = t.subrange(ps, bs);
                    &&& edit_recorded(*old(self), *final(self), ps, be, b + previous)
                    &&& final(self).sel() == (Selection { anchor: CharOffset(ps as usize), head: CharOffset((ps + b.len()) as usize) })
                })
            }),
    {
        if self.read_only {
            return Err(BufferError::ReadOnly);
        }
        let ghost t = self.chars();
        let range = self.selection().range();
        let start_line = rope_char_to_line(&self.text, range.start);
        let mut end_line = rope_char_to_line(&self.text, range.end);
        proof {
            rope::lemma_line_of_monotonic(t, range.start as int, range.end as int);
            rope::lemma_line_of_start(t, range.start as int);
        }
        let end_line_start = rope_line_to_char(&self.text, end_line);
        if range.end > range.start && end_line_start == range.end && end_line > 0 {
            end_line = end_line - 1;
        }
        let (block_start, block_end) = self.selected_line_block();
        let block = rope_slice_string(&self.text, block_start, block_end);
        let block_chars = str_to_chars(block.as_str());
        let lines = rope_len_lines(&self.text);
        if down {
            if end_line + 1 >= lines {
                return Ok(());
            }
            let next_end = if end_line + 2 < lines {
                rope_line_to_char(&self.text, end_line + 2)
            } else {
                rope_len_chars(&self.text)
            };
            proof {
                rope::lemma_line_start_monotonic(t, (end_line + 1) as nat, (end_line + 2) as nat);
                rope::lemma_line_start_bounds(t, (end_line + 2) as nat);
            }
            let next = rope_slice_string(&self.text, block_end, next_end);
            let next_chars = str_to_chars(next.as_str());
            self.set_selection(Selection { anchor: CharOffset(block_start), head: CharOffset(next_end) });
            let mut value: Vec<char> = Vec::new();
            push_all(&mut value, &next_chars);
            push_all(&mut value, &block_chars);
            let value_string = chars_to_string(value.as_slice());
            self.replace_selection(value_string.as_str());
            let _ = rope_len_chars(&self.text);
            let n = next_chars.len();
            let b = block_chars.len();
            self.set_selection(Selection { anchor: CharOffset(block_start + n), head: CharOffset(block_start + n + b) });
        } else {
            if start_line == 0 {
                return Ok(());
            }
            let previous_start = rope_line_to_char(&self.text, start_line - 1);
            proof {
                rope::lemma_line_start_monotonic(t, (start_line - 1) as nat, start_line as nat);
            }
            let previous = rope_slice_string(&self.text, previous_start, block_start);
            let previous_chars = str_to_chars(previous.as_str());
            self.set_selection(Selection { anchor: CharOffset(previous_start), head: CharOffset(block_end) });
            let mut value: Vec<char> = Vec::new();
            push_all(&mut value, &block_chars);
            push_all(&mut value, &previous_chars);
            let value_string = chars_to_string(value.as_slice());
            self.replace_selection(value_string.as_str());
            let _ = rope_len_chars(&self.text);
            let b = block_chars.len();
            self.set_selection(Selection { anchor: CharOffset(previous_start), head: CharOffset(previous_start + b) });
        }
        Ok(())
    }

    /// Deletes the whole lines the selection touches, with one adjacent line
    /// break, as one edit.
    pub fn delete_selected_lines(&mut self) -> (r: Result<(), BufferError>)
        requires
            old(self).wf(),
        ensures
            final(self).wf(),
            ({
                let t = old(self).chars();
                let bs0 = block_start(t, old(self).sel().start() as int);
                let be0 = block_end(t, old(self).sel().start() as int, old(self).sel().end() as int);
                let bs = if be0 == t.len() && bs0 > 0 { bs0 - 1 } else { bs0 };
                let be = if !(be0 == t.len() && bs0 > 0) && be0 == bs0 && be0 < t.len() { be0 + 1 } else { be0 };
                &&& old(self).spec_read_only() ==> (r matches Err(BufferError::ReadOnly)) && *final(self) == *old(self)
                &&& !old(self).spec_read_only() && bs == be ==> r is Ok && *final(self) == *old(self)
                &&& !old(self).spec_read_only() && bs != be ==> r is Ok
                    && edit_recorded(*old(self), *final(self), bs, be, Seq::empty())
                    && final(self).sel() == Selection::caret_spec(bs as usize)
            }),
    {
        let (mut start, mut end) = self.selected_line_block();
        let len = rope_len_chars(&self.text);
        if end == len && start > 0 {
            start = start - 1;
        } else if end == start && end < len {
            end = end + 1;
        }
        self.delete_range(start, end)
    }

    /// Reconciles a fresh read of the file with the buffer. Dirty text is
    /// never replaced; a clean buffer is reloaded when `auto_reload_unmodified`
    /// allows it, keeping its selection (clamped to the new text). A deleted
    /// file stays open and forgets the disk content it expected, so that it
    /// can be saved again.
    pub fn reconcile_external(&mut self, fresh: Option<TextBuffer>, auto_reload_unmodified: bool) -> (outcome: ExternalChangeOutcome)
        requires
            old(self).wf(),
            fresh is Some ==> (fresh->0).wf(),
        ensures
            final(self).wf(),
            fresh is None ==> outcome == ExternalChangeOutcome::Deleted
                && final(self).spec_disk_state() == DiskState::Deleted
                && final(self).spec_disk_hash() is None
                && final(self).chars() == old(self).chars(),
            fresh is Some && (fresh->0).spec_disk_hash() == old(self).spec_disk_hash() ==> outcome == ExternalChangeOutcome::Unchanged
                && final(self).spec_disk_state() == DiskState::Present
                && final(self).chars() == old(self).chars(),
            fresh is Some && (fresh->0).spec_disk_hash() != old(self).spec_disk_hash() && (old(self).spec_dirty() || !auto_reload_unmodified) ==> outcome == ExternalChangeOutcome::Conflict
                && final(self).spec_disk_state() == DiskState::ModifiedExternally
                && final(self).chars() == old(self).chars(),
            fresh is Some && (fresh->0).spec_disk_hash() != old(self).spec_disk_hash() && !old(self).spec_dirty() && auto_reload_unmodified ==> outcome == ExternalChangeOutcome::Reloaded
                && final(self).chars() == (fresh->0).chars()
                && final(self).sel().anchor.0 == min_usize(old(self).sel().anchor.0, (fresh->0).chars().len() as usize)
                && final(self).sel().head.0 == min_usize(old(self).sel().head.0, (fresh->0).chars().len() as usize)
                && final(self).undo_stack() == (fresh->0).undo_stack()
                && final(self).redo_stack() == (fresh->0).redo_stack()
                && final(self).spec_generation() == sat_inc(old(self).spec_generation())
                && final(self).same_meta(fresh->0),
            outcome != ExternalChangeOutcome::Reloaded ==> final(self).sel() == old(self).sel()
                && final(self).undo_stack() == old(self).undo_stack()
                && final(self).redo_stack() == old(self).redo_stack()
                && final(self).spec_generation() == old(self).spec_generation()
                && final(self).spec_path() == old(self).spec_path()
                && final(self).spec_saved_hash() == old(self).spec_saved_hash()
                && final(self).spec_read_only() == old(self).spec_read_only(),
            outcome != ExternalChangeOutcome::Reloaded && outcome != ExternalChangeOutcome::Deleted
                ==> final(self).spec_disk_hash() == old(self).spec_disk_hash(),
    {
        match fresh {
            None => {
                self.disk_state = DiskState::Deleted;
                self.disk_hash = None;
                ExternalChangeOutcome::Deleted
            },
            Some(mut fresh) => {
                if fresh.disk_hash == self.disk_hash {
                    self.disk_state = DiskState::Present;
                    return ExternalChangeOutcome::Unchanged;
                }
                if self.is_dirty() || !auto_reload_unmodified {
                    self.disk_state = DiskState::ModifiedExternally;
                    return ExternalChangeOutcome::Conflict;
                }
                let selection = self.selections[0];
                let next_generation = if self.generation < u64::MAX { self.generation + 1 } else { u64::MAX };
                fresh.set_selection(selection);
                fresh.generation = next_generation;
                *self = fresh;
                ExternalChangeOutcome::Reloaded
            },
        }
    }

    /// The bytes and hashes a save of this buffer writes.
    pub fn prepare_save(&self) -> (r: Result<SaveSnapshot, BufferError>)
        requires
            self.wf(),
        ensures
            self.spec_read_only() ==> r matches Err(BufferError::ReadOnly),
            !self.spec_read_only() && self.spec_path() is None ==> r matches Err(BufferError::NoPath),
            !self.spec_read_only() && self.spec_path() is Some ==> (r matches Ok(snap)
                && Some(snap.path) == self.spec_path()
                && snap.bytes@ == saved_bytes(self.spec_has_bom(), self.chars())
                && snap.content_hash == persistence::text_hash(self.chars())
                && snap.disk_hash == persistence::bytes_hash(snap.bytes@)
                && snap.expected_disk_hash == self.spec_disk_hash()
                && snap.generation == self.spec_generation()),
    {
        if self.read_only {
            return Err(BufferError::ReadOnly);
        }
        let path = match &self.path {
            Some(p) => p.clone(),
            None => { return Err(BufferError::NoPath); },
        };
        let whole = rope_to_string(&self.text);
        let encoded = whole.as_str().as_bytes();
        let mut bytes: Vec<u8> = Vec::new();
        if self.has_bom {
            bytes.push(0xEF);
            bytes.push(0xBB);
            bytes.push(0xBF);
        }
        let ghost prefix = bytes@;
        assert(prefix =~= (if self.has_bom { bom() } else { Seq::<u8>::empty() }));
        let mut i: usize = 0;
        while i < encoded.len()
            invariant
                i <= encoded@.len(),
                bytes@ == prefix + encoded@.take(i as int),
            decreases encoded.len() - i,
        {
            bytes.push(encoded[i]);
            assert(encoded@.take(i + 1) =~= encoded@.take(i as int).push(encoded@[i as int]));
            i = i + 1;
        }
        assert(encoded@.take(i as int) =~= encoded@);
        let content_hash = hash_text(whole.as_str());
        let disk_hash = disk_content_hash(bytes.as_slice());
        Ok(SaveSnapshot {
            path,
            content_hash,
            disk_hash,
            expected_disk_hash: self.disk_hash,
            generation: self.generation,
            bytes,
        })
    }

    /// Takes on the hashes of a save that was written.
    pub fn complete_save(&mut self, snapshot: &SaveSnapshot)
        requires
            old(self).wf(),
        ensures
            final(self).wf(),
            final(self).spec_saved_hash() == snapshot.content_hash,
            final(self).spec_disk_hash() == Some(snapshot.disk_hash),
            final(self).spec_disk_state() == DiskState::Present,
            final(self).chars() == old(self).chars(),
            final(self).sel() == old(self).sel(),
            final(self).undo_stack() == old(self).undo_stack(),
            final(self).redo_stack() == old(self).redo_stack(),
            final(self).spec_generation() == old(self).spec_generation(),
            final(self).spec_path() == old(self).spec_path(),
            final(self).spec_read_only() == old(self).spec_read_only(),
    {
        self.saved_hash = snapshot.content_hash;
        self.disk_hash = Some(snapshot.disk_hash);
        self.disk_state = DiskState::Present;
    }

    /// Re-checks the disk state from a fresh read of the file, without ever
    /// touching the text. A buffer without a path keeps its state; one whose
    /// file is gone forgets the disk content it expected, so that it can be
    /// saved again.
    pub fn refresh_disk_state(&mut self, read: DiskRead) -> (r: Result<DiskState, BufferError>)
        requires
            old(self).wf(),
        ensures
            final(self).wf(),
            final(self).chars() == old(self).chars(),
            final(self).sel() == old(self).sel(),
            old(self).spec_path() is Some && read is NotFound ==> final(self).spec_disk_hash() is None,
            !(old(self).spec_path() is Some && read is NotFound) ==> final(self).spec_disk_hash() == old(self).spec_disk_hash(),
            old(self).spec_path() is None ==> r == Ok::<DiskState, BufferError>(old(self).spec_disk_state())
                && final(self).spec_disk_state() == old(self).spec_disk_state(),
            old(self).spec_path() is Some ==> match read {
                DiskRead::NotFound => r == Ok::<DiskState, BufferError>(DiskState::Deleted)
                    && final(self).spec_disk_state() == DiskState::Deleted,
                DiskRead::Failed(_) => (r matches Err(BufferError::Read { .. }))
                    && final(self).spec_disk_state() == old(self).spec_disk_state(),
                DiskRead::Bytes(b) => {
                    let st = if Some(persistence::bytes_hash(b@)) == old(self).spec_disk_hash() {
                        DiskState::Present
                    } else {
                        DiskState::ModifiedExternally
                    };
                    r == Ok::<DiskState, BufferError>(st) && final(self).spec_disk_state() == st
                },
            },
    {
        let path = match &self.path {
            Some(p) => p.clone(),
            None => { return Ok(self.disk_state); },
        };
        match read {
            DiskRead::NotFound => {
                self.disk_state = DiskState::Deleted;
                self.disk_hash = None;
                Ok(DiskState::Deleted)
            },
            DiskRead::Failed(message) => Err(BufferError::Read { path, message }),
            DiskRead::Bytes(bytes) => {
                let h = disk_content_hash(bytes.as_slice());
                let same = match self.disk_hash {
                    Some(d) => d == h,
                    None => false,
                };
                self.disk_state = if same { DiskState::Present } else { DiskState::ModifiedExternally };
                Ok(self.disk_state)
            },
        }
    }

    /// Replaces the whole lines the selection touches with `value` as one
    /// edit, selecting the new lines.
    fn replace_block(&mut self, start: usize, end: usize, value: &Vec<char>)
        requires
            old(self).wf(),
            !old(self).spec_read_only(),
            start <= end <= old(self).chars().len(),
        ensures
            final(self).wf(),
            edit_recorded(*old(self), *final(self), start as int, end as int, value@),
            final(self).sel() == (Selection { anchor: CharOffset(start), head: CharOffset((start + value@.len()) as usize) }),
    {
        self.set_selection(Selection { anchor: CharOffset(start), head: CharOffset(end) });
        let ghost mid = *self;
        let text = chars_to_string(value.as_slice());
        self.replace_selection(text.as_str());
        let _ = rope_len_chars(&self.text);
        assert(edit_recorded(mid, *self, start as int, end as int, value@));
        self.set_selection(Selection { anchor: CharOffset(start), head: CharOffset(start + value.len()) });
    }

    /// Indents (or outdents) the whole lines the selection touches, as one
    /// edit, selecting them; nothing happens where no line changes.
    pub fn change_selected_line_indent(&mut self, indent: &str, outdent: bool) -> (r: Result<(), BufferError>)
        requires
            old(self).wf(),
        ensures
            final(self).wf(),
            ({
                let t = old(self).chars();
                let bs = block_start(t, old(self).sel().start() as int);
                let be = block_end(t, old(self).sel().start() as int, old(self).sel().end() as int);
                let rep = crate::buffer::lines::shifted_block(t.subrange(bs, be), indent@, outdent);
                &&& old(self).spec_read_only() ==> (r matches Err(BufferError::ReadOnly)) && *final(self) == *old(self)
                &&& !old(self).spec_read_only() && rep == t.subrange(bs, be) ==> r is Ok && *final(self) == *old(self)
                &&& !old(self).spec_read_only() && rep != t.subrange(bs, be) ==> r is Ok
                    && edit_recorded(*old(self), *final(self), bs, be, rep)
                    && final(self).sel() == (Selection { anchor: CharOffset(bs as usize), head: CharOffset((bs + rep.len()) as usize) })
            }),
    {
        if self.read_only {
            return Err(BufferError::ReadOnly);
        }
        let (start, end) = self.selected_line_block();
        let block = str_to_chars(rope_slice_string(&self.text, start, end).as_str());
        let rep = crate::buffer::lines::shift_block(&block, &str_to_chars(indent), outdent);
        if crate::chars::chars_eq(&rep, &block) {
            return Ok(());
        }
        let ghost b0 = *self;
        self.replace_block(start, end, &rep);
        Ok(())
    }

    /// Toggles line comments on the whole lines the selection touches, as
    /// one edit, selecting them: removed where every non-blank line has
    /// one, added otherwise.
    pub fn toggle_selected_line_comment(&mut self, prefix: &str, suffix: Option<&str>) -> (r: Result<(), BufferError>)
        requires
            old(self).wf(),
        ensures
            final(self).wf(),
            ({
                let t = old(self).chars();
                let bs = block_start(t, old(self).sel().start() as int);
                let be = block_end(t, old(self).sel().start() as int, old(self).sel().end() as int);
                let sf = match suffix {
                    Some(x) => Some(x@),
                    None => None,
                };
                let rep = crate::buffer::lines::toggled_block(t.subrange(bs, be), prefix@, sf);
                &&& old(self).spec_read_only() ==> (r matches Err(BufferError::ReadOnly)) && *final(self) == *old(self)
                &&& !old(self).spec_read_only() ==> r is Ok
                    && edit_recorded(*old(self), *final(self), bs, be, rep)
                    && final(self).sel() == (Selection { anchor: CharOffset(bs as usize), head: CharOffset((bs + rep.len()) as usize) })
            }),
    {
        if self.read_only {
            return Err(BufferError::ReadOnly);
        }
        let (start, end) = self.selected_line_block();
        let block = str_to_chars(rope_slice_string(&self.text, start, end).as_str());
        let rep = crate::buffer::lines::toggle_block(&block, prefix, suffix);
        self.replace_block(start, end, &rep);
        Ok(())
    }

    /// Formats the text for saving (trailing blanks trimmed, a final line
    /// break in the buffer's style added) as one edit, keeping the
    /// selection (clamped); returns whether the text changed.
    pub fn apply_save_formatting(&mut self, trim_trailing_whitespace: bool, insert_final_newline: bool) -> (r: Result<bool, BufferError>)
        requires
            old(self).wf(),
        ensures
            final(self).wf(),
            ({
                let t = old(self).chars();
                let f = crate::buffer::lines::save_formatted(t, trim_trailing_whitespace, insert_final_newline, old(self).spec_line_ending() == LineEnding::CrLf);
                &&& old(self).spec_read_only() ==> (r matches Err(BufferError::ReadOnly)) && *final(self) == *old(self)
                &&& !old(self).spec_read_only() && f == t ==> r == Ok::<bool, BufferError>(false) && *final(self) == *old(self)
                &&& !old(self).spec_read_only() && f != t ==> r == Ok::<bool, BufferError>(true)
                    && edit_recorded(*old(self), *final(self), 0, t.len() as int, f)
                    && final(self).sel().anchor.0 == min_usize(old(self).sel().anchor.0, f.len() as usize)
                    && final(self).sel().head.0 == min_usize(old(self).sel().head.0, f.len() as usize)
            }),
    {
        if self.read_only {
            return Err(BufferError::ReadOnly);
        }
        if !trim_trailing_whitespace && !insert_final_newline {
            let _ = rope_len_chars(&self.text);
            proof {
                let t = self.chars();
                assert(crate::buffer::lines::save_formatted(t, false, false, self.spec_line_ending() == LineEnding::CrLf) == t);
            }
            return Ok(false);
        }
        let original = str_to_chars(rope_to_string(&self.text).as_str());
        let formatted = crate::buffer::lines::format_for_save(&original, trim_trailing_whitespace, insert_final_newline, self.line_ending == LineEnding::CrLf);
        if crate::chars::chars_eq(&formatted, &original) {
            return Ok(false);
        }
        let selection = self.selection();
        let len = original.len();
        self.replace_block(0, len, &formatted);
        let _ = rope_len_chars(&self.text);
        let ghost mid = *self;
        self.set_selection(selection);
        assert(edit_recorded(*old(self), *self, 0, len as int, formatted@));
        Ok(true)
    }

    /// Replaces each of `ranges` (clamped to the text) with `replacement`,
    /// left to right, as one edit, skipping a range that overlaps the one
    /// before it; returns how many ranges were given.
    pub fn replace_all_ranges(&mut self, ranges: &[std::ops::Range<usize>], replacement: &str) -> (r: Result<usize, BufferError>)
        requires
            old(self).wf(),
        ensures
            final(self).wf(),
            ({
                let t = old(self).chars();
                let rs = ranges@.map_values(|x: std::ops::Range<usize>| (x.start as int, x.end as int));
                let out = crate::buffer::lines::replaced_ranges(t, rs, 0, 0, Seq::empty(), replacement@);
                &&& old(self).spec_read_only() ==> (r matches Err(BufferError::ReadOnly)) && *final(self) == *old(self)
                &&& !old(self).spec_read_only() && ranges@.len() == 0 ==> r == Ok::<usize, BufferError>(0) && *final(self) == *old(self)
                &&& !old(self).spec_read_only() && ranges@.len() > 0 ==> r == Ok::<usize, BufferError>(ranges@.len() as usize)
                    && edit_recorded(*old(self), *final(self), 0, t.len() as int, out)
                    && final(self).sel() == Selection::caret_spec(out.len() as usize)
            }),
    {
        if self.read_only {
            return Err(BufferError::ReadOnly);
        }
        if ranges.len() == 0 {
            return Ok(0);
        }
        let t = str_to_chars(rope_to_string(&self.text).as_str());
        let rep = str_to_chars(replacement);
        let len = t.len();
        let ghost rs = ranges@.map_values(|x: std::ops::Range<usize>| (x.start as int, x.end as int));
        let mut out: Vec<char> = Vec::new();
        let mut cursor: usize = 0;
        let mut i: usize = 0;
        while i < ranges.len()
            invariant
                i <= ranges@.len(),
                cursor <= len == t@.len(),
                rep@ == replacement@,
                rs == ranges@.map_values(|x: std::ops::Range<usize>| (x.start as int, x.end as int)),
                crate::buffer::lines::replaced_ranges(t@, rs, 0, 0, Seq::empty(), rep@)
                    == crate::buffer::lines::replaced_ranges(t@, rs, i as int, cursor as int, out@, rep@),
            decreases ranges.len() - i,
        {
            let start = if ranges[i].start < len { ranges[i].start } else { len };
            let end = if ranges[i].end < len { ranges[i].end } else { len };
            assert(rs[i as int] == (ranges@[i as int].start as int, ranges@[i as int].end as int));
            if !(start < cursor || start > end) {
                let ghost before = out@;
                push_range(&mut out, &t, cursor, start);
                push_all(&mut out, &rep);
                assert(out@ =~= before + t@.subrange(cursor as int, start as int) + rep@);
                cursor = end;
            }
            i = i + 1;
        }
        let ghost before = out@;
        push_range(&mut out, &t, cursor, len);
        assert(out@ =~= before + t@.subrange(cursor as int, len as int));
        let n = ranges.len();
        let _ = rope_len_chars(&self.text);
        self.select_all();
        let ghost mid = *self;
        let text = chars_to_string(out.as_slice());
        self.replace_selection(text.as_str());
        assert(edit_recorded(mid, *self, 0, len as int, out@));
        Ok(n)
    }

    /// Applies edits (ranges clamped to the text, each with its
    /// replacement) in order of their ranges as one edit, skipping an edit
    /// that overlaps the one before it; returns how many were applied,
    /// changing nothing where none was.
    pub fn apply_text_edits(&mut self, edits: Vec<(std::ops::Range<usize>, String)>) -> (r: Result<usize, BufferError>)
        requires
            old(self).wf(),
        ensures
            final(self).wf(),
            ({
                let t = old(self).chars();
                let es = crate::buffer::lines::sort_edits(edits@.map_values(|x: (std::ops::Range<usize>, String)| (x.0.start as int, x.0.end as int, x.1@)));
                let (out, n) = crate::buffer::lines::applied_edits(t, es, 0, 0, Seq::empty(), 0);
                &&& old(self).spec_read_only() ==> (r matches Err(BufferError::ReadOnly)) && *final(self) == *old(self)
                &&& !old(self).spec_read_only() && n == 0 ==> r == Ok::<usize, BufferError>(0) && *final(self) == *old(self)
                &&& !old(self).spec_read_only() && n > 0 ==> r == Ok::<usize, BufferError>(n as usize)
                    && edit_recorded(*old(self), *final(self), 0, t.len() as int, out)
                    && final(self).sel() == Selection::caret_spec(out.len() as usize)
            }),
    {
        if self.read_only {
            return Err(BufferError::ReadOnly);
        }
        let ghost view = edits@.map_values(|x: (std::ops::Range<usize>, String)| (x.0.start as int, x.0.end as int, x.1@));
        let sorted = sort_text_edits(edits);
        let ghost es = crate::buffer::lines::sort_edits(view);
        let t = str_to_chars(rope_to_string(&self.text).as_str());
        let len = t.len();
        let mut out: Vec<char> = Vec::new();
        let mut cursor: usize = 0;
        let mut applied: usize = 0;
        let mut i: usize = 0;
        while i < sorted.len()
            invariant
                i <= sorted@.len() == es.len(),
                cursor <= len == t@.len(),
                applied <= i,
                forall|k: int| 0 <= k < sorted@.len() ==> (#[trigger] sorted@[k]).0 == es[k].0 && sorted@[k].1 == es[k].1 && sorted@[k].2@ == es[k].2,
                crate::buffer::lines::applied_edits(t@, es, 0, 0, Seq::empty(), 0)
                    == crate::buffer::lines::applied_edits(t@, es, i as int, cursor as int, out@, applied as nat),
            decreases sorted.len() - i,
        {
            let start = if sorted[i].0 < len { sorted[i].0 } else { len };
            let end = if sorted[i].1 < len { sorted[i].1 } else { len };
            if !(start < cursor || start > end) {
                let ghost before = out@;
                push_range(&mut out, &t, cursor, start);
                push_all(&mut out, &str_to_chars(sorted[i].2.as_str()));
                assert(out@ =~= before + t@.subrange(cursor as int, start as int) + es[i as int].2);
                cursor = end;
                applied = applied + 1;
            }
            i = i + 1;
        }
        if applied == 0 {
            return Ok(0);
        }
        let ghost before = out@;
        push_range(&mut out, &t, cursor, len);
        assert(out@ =~= before + t@.subrange(cursor as int, len as int));
        let _ = rope_len_chars(&self.text);
        self.select_all();
        let ghost mid = *self;
        let text = chars_to_string(out.as_slice());
        self.replace_selection(text.as_str());
        assert(edit_recorded(mid, *self, 0, len as int, out@));
        Ok(applied)
    }
}

/// Edits as (start, end, replacement), sorted by start and end, equal ones
/// keeping their order.
fn sort_text_edits(edits: Vec<(std::ops::Range<usize>, String)>) -> (r: Vec<(usize, usize, String)>)
    ensures
        r@.len() == crate::buffer::lines::sort_edits(edits@.map_values(|x: (std::ops::Range<usize>, String)| (x.0.start as int, x.0.end as int, x.1@))).len(),
        forall|k: int| 0 <= k < r@.len() ==> (#[trigger] r@[k]).0 == crate::buffer::lines::sort_edits(edits@.map_values(|x: (std::ops::Range<usize>, String)| (x.0.start as int, x.0.end as int, x.1@)))[k].0
            && r@[k].1 == crate::buffer::lines::sort_edits(edits@.map_values(|x: (std::ops::Range<usize>, String)| (x.0.start as int, x.0.end as int, x.1@)))[k].1
            && r@[k].2@ == crate::buffer::lines::sort_edits(edits@.map_values(|x: (std::ops::Range<usize>, String)| (x.0.start as int, x.0.end as int, x.1@)))[k].2,
{
    let ghost view = edits@.map_values(|x: (std::ops::Range<usize>, String)| (x.0.start as int, x.0.end as int, x.1@));
    let mut sorted: Vec<(usize, usize, String)> = Vec::new();
    let mut i: usize = 0;
    assert(view.take(0) =~= Seq::<(int, int, Seq<char>)>::empty());
    while i < edits.len()
        invariant
            i <= edits@.len() == view.len(),
            view == edits@.map_values(|x: (std::ops::Range<usize>, String)| (x.0.start as int, x.0.end as int, x.1@)),
            sorted@.len() == crate::buffer::lines::sort_edits(view.take(i as int)).len(),
            forall|k: int| 0 <= k < sorted@.len() ==> (#[trigger] sorted@[k]).0 == crate::buffer::lines::sort_edits(view.take(i as int))[k].0
                && sorted@[k].1 == crate::buffer::lines::sort_edits(view.take(i as int))[k].1
                && sorted@[k].2@ == crate::buffer::lines::sort_edits(view.take(i as int))[k].2,
        decreases edits.len() - i,
    {
        let x = (edits[i].0.start, edits[i].0.end, edits[i].1.clone());
        let ghost xv = (x.0 as int, x.1 as int, x.2@);
        assert(xv == view[i as int]);
        let ghost s0 = crate::buffer::lines::sort_edits(view.take(i as int));
        assert(view.take(i + 1).drop_last() =~= view.take(i as int));
        let mut p = sorted.len();
        assert(s0.take(p as int) =~= s0);
        while p > 0 && (x.0 < sorted[p - 1].0 || (x.0 == sorted[p - 1].0 && x.1 < sorted[p - 1].1))
            invariant
                p <= sorted@.len() == s0.len(),
                forall|k: int| 0 <= k < sorted@.len() ==> (#[trigger] sorted@[k]).0 == s0[k].0 && sorted@[k].1 == s0[k].1 && sorted@[k].2@ == s0[k].2,
                crate::buffer::lines::edit_insert_index(s0, xv) == crate::buffer::lines::edit_insert_index(s0.take(p as int), xv),
                xv == (x.0 as int, x.1 as int, x.2@),
            decreases p,
        {
            assert(s0.take(p as int).last() == s0[p - 1]);
            assert(s0.take(p as int).drop_last() =~= s0.take(p - 1));
            p = p - 1;
        }
        assert(crate::buffer::lines::edit_insert_index(s0.take(p as int), xv) == p) by {
            if p > 0 {
                assert(s0.take(p as int).last() == s0[p - 1]);
            }
        }
        let ghost before = sorted@;
        sorted.insert(p, x);
        let ghost s1 = s0.insert(p as int, xv);
        assert(crate::buffer::lines::sort_edits(view.take(i + 1)) == s1);
        assert forall|k: int| 0 <= k < sorted@.len() implies (#[trigger] sorted@[k]).0 == s1[k].0 && sorted@[k].1 == s1[k].1 && sorted@[k].2@ == s1[k].2 by {
            if k < p {
                assert(sorted@[k] == before[k]);
            } else if k == p {
            } else {
                assert(sorted@[k] == before[k - 1]);
            }
        }
        i = i + 1;
    }
    assert(view.take(i as int) =~= view);
    sorted
}

} // verus!
