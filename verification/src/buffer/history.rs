//! Reversible edits and the undo/redo stacks.

use vstd::prelude::*;

verus! {

/// A reversible text edit, expressed in Unicode scalar-value offsets.
#[derive(Debug, Clone, PartialEq, Eq)]
pub struct Edit {
    pub start_char: usize,
    pub deleted: String,
    pub inserted: String,
}

/// `t` with `e` applied: `e.deleted` at `e.start_char` replaced by `e.inserted`.
pub open spec fn apply_forward(t: Seq<char>, e: Edit) -> Seq<char> {
    t.take(e.start_char as int) + e.inserted@ + t.skip(e.start_char + e.deleted@.len())
}

/// `t` with `e` undone: `e.inserted` at `e.start_char` replaced by `e.deleted`.
pub open spec fn apply_reverse(t: Seq<char>, e: Edit) -> Seq<char> {
    t.take(e.start_char as int) + e.deleted@ + t.skip(e.start_char + e.inserted@.len())
}

/// `t` holds `e.deleted` where `e` starts, so `e` can be applied.
pub open spec fn forward_applies(t: Seq<char>, e: Edit) -> bool {
    &&& e.start_char + e.deleted@.len() <= t.len()
    &&& t.subrange(e.start_char as int, e.start_char + e.deleted@.len()) == e.deleted@
}

/// `t` holds `e.inserted` where `e` starts, so `e` can be undone.
pub open spec fn reverse_applies(t: Seq<char>, e: Edit) -> bool {
    &&& e.start_char + e.inserted@.len() <= t.len()
    &&& t.subrange(e.start_char as int, e.start_char + e.inserted@.len()) == e.inserted@
}

/// Every edit of an undo stack can be undone in turn, newest first.
pub open spec fn undo_chain(t: Seq<char>, stack: Seq<Edit>) -> bool
    decreases stack.len(),
{
    if stack.len() == 0 {
        true
    } else {
        reverse_applies(t, stack.last()) && undo_chain(
            apply_reverse(t, stack.last()),
            stack.drop_last(),
        )
    }
}

/// Every edit of a redo stack can be redone in turn, newest first.
pub open spec fn redo_chain(t: Seq<char>, stack: Seq<Edit>) -> bool
    decreases stack.len(),
{
    if stack.len() == 0 {
        true
    } else {
        forward_applies(t, stack.last()) && redo_chain(
            apply_forward(t, stack.last()),
            stack.drop_last(),
        )
    }
}

/// Undoing an edit gives back the text it was applied to.
pub proof fn lemma_reverse_undoes_forward(t: Seq<char>, e: Edit)
    requires
        forward_applies(t, e),
    ensures
        reverse_applies(apply_forward(t, e), e),
        apply_reverse(apply_forward(t, e), e) == t,
{
    let f = apply_forward(t, e);
    let s = e.start_char as int;
    assert(f.subrange(s, s + e.inserted@.len()) =~= e.inserted@);
    assert(f.skip(s + e.inserted@.len()) =~= t.skip(s + e.deleted@.len()));
    assert(t =~= t.take(s) + e.deleted@ + t.skip(s + e.deleted@.len()));
}

/// Redoing an edit gives back the text it was undone from.
pub proof fn lemma_forward_redoes_reverse(t: Seq<char>, e: Edit)
    requires
        reverse_applies(t, e),
    ensures
        forward_applies(apply_reverse(t, e), e),
        apply_forward(apply_reverse(t, e), e) == t,
{
    let r = apply_reverse(t, e);
    let s = e.start_char as int;
    assert(r.subrange(s, s + e.deleted@.len()) =~= e.deleted@);
    assert(r.skip(s + e.deleted@.len()) =~= t.skip(s + e.inserted@.len()));
    assert(t =~= t.take(s) + e.inserted@ + t.skip(s + e.inserted@.len()));
}

/// The undo and redo stacks of one buffer.
#[derive(Debug, Default)]
pub struct History {
    undo: Vec<Edit>,
    redo: Vec<Edit>,
}

impl History {
    pub closed spec fn undo_stack(self) -> Seq<Edit> {
        self.undo@
    }

    pub closed spec fn redo_stack(self) -> Seq<Edit> {
        self.redo@
    }

    pub fn new() -> (h: Self)
        ensures
            h.undo_stack() == Seq::<Edit>::empty(),
            h.redo_stack() == Seq::<Edit>::empty(),
    {
        History { undo: Vec::new(), redo: Vec::new() }
    }

    /// Records a fresh edit: it becomes the newest undo entry and the redo
    /// stack is cleared.
    pub fn record(&mut self, edit: Edit)
        ensures
            final(self).undo_stack() == old(self).undo_stack().push(edit),
            final(self).redo_stack() == Seq::<Edit>::empty(),
    {
        self.undo.push(edit);
        self.redo.clear();
    }

    pub fn can_undo(&self) -> (b: bool)
        ensures
            b == (self.undo_stack().len() > 0),
    {
        self.undo.len() > 0
    }

    pub fn can_redo(&self) -> (b: bool)
        ensures
            b == (self.redo_stack().len() > 0),
    {
        self.redo.len() > 0
    }

    pub fn pop_undo(&mut self) -> (e: Option<Edit>)
        ensures
            old(self).undo_stack().len() == 0 ==> e is None && final(self).undo_stack()
                == old(self).undo_stack(),
            old(self).undo_stack().len() > 0 ==> e == Some(old(self).undo_stack().last())
                && final(self).undo_stack() == old(self).undo_stack().drop_last(),
            final(self).redo_stack() == old(self).redo_stack(),
    {
        self.undo.pop()
    }

    pub fn push_redo(&mut self, edit: Edit)
        ensures
            final(self).redo_stack() == old(self).redo_stack().push(edit),
            final(self).undo_stack() == old(self).undo_stack(),
    {
        self.redo.push(edit);
    }

    pub fn pop_redo(&mut self) -> (e: Option<Edit>)
        ensures
            old(self).redo_stack().len() == 0 ==> e is None && final(self).redo_stack()
                == old(self).redo_stack(),
            old(self).redo_stack().len() > 0 ==> e == Some(old(self).redo_stack().last())
                && final(self).redo_stack() == old(self).redo_stack().drop_last(),
            final(self).undo_stack() == old(self).undo_stack(),
    {
        self.redo.pop()
    }

    pub fn push_undo(&mut self, edit: Edit)
        ensures
            final(self).undo_stack() == old(self).undo_stack().push(edit),
            final(self).redo_stack() == old(self).redo_stack(),
    {
        self.undo.push(edit);
    }
}

} // verus!
