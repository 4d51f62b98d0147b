//! Per-tab view state.

use vstd::prelude::*;

use std::ops::Range;

verus! {

/// The state of an incremental search in one buffer.
#[derive(Debug, Clone)]
pub struct BufferSearchState {
    pub query: String,
    pub matches: Vec<Range<usize>>,
    pub current: usize,
    pub generation: u64,
}

impl Default for BufferSearchState {
    fn default() -> (s: Self)
        ensures
            s.query@ == Seq::<char>::empty(),
            s.matches@.len() == 0,
            s.current == 0,
            s.generation == 0,
    {
        BufferSearchState { query: String::new(), matches: Vec::new(), current: 0, generation: 0 }
    }
}

/// The match a step through the matches lands on: the next (wrapping to
/// the first), the previous (wrapping to the last), or the current one
/// kept within range.
pub open spec fn next_match_index(current: int, count: int, direction: int) -> int {
    if direction > 0 {
        (current + 1) % count
    } else if direction < 0 {
        if current == 0 { count - 1 } else { current - 1 }
    } else if current < count - 1 {
        current
    } else {
        count - 1
    }
}

impl BufferSearchState {
    /// Starts a new search: the query and generation it runs under, and no
    /// matches yet.
    pub fn restart(&mut self, query: String, generation: u64)
        ensures
            final(self).query@ == query@,
            final(self).generation == generation,
            final(self).matches@.len() == 0,
            final(self).current == 0,
    {
        self.generation = generation;
        self.query = query;
        self.matches.clear();
        self.current = 0;
    }

    /// Steps to the next (`direction > 0`) or previous (`< 0`) match, or
    /// stays (`0`); the char range of the match to select, none when there
    /// are no matches. Stepping back needs the current index to be at most
    /// the number of matches.
    pub fn select_search_match(&mut self, direction: isize) -> (r: Option<(usize, usize)>)
        requires
            direction < 0 ==> old(self).current <= old(self).matches@.len(),
        ensures
            final(self).matches@ == old(self).matches@,
            final(self).query@ == old(self).query@,
            final(self).generation == old(self).generation,
            old(self).matches@.len() == 0 ==> r is None && final(self).current == old(self).current,
            old(self).matches@.len() > 0 ==> {
                &&& final(self).current as int == next_match_index(
                    old(self).current as int,
                    old(self).matches@.len() as int,
                    direction as int,
                )
                &&& r == Some(
                    (
                        final(self).matches@[final(self).current as int].start,
                        final(self).matches@[final(self).current as int].end,
                    ),
                )
            },
    {
        let count = self.matches.len();
        if count == 0 {
            return None;
        }
        let current = self.current;
        self.current = if direction > 0 {
            proof {
                vstd::arithmetic::div_mod::lemma_mod_pos_bound(current as int, count as int);
            }
            let next = current % count + 1;
            proof {
                vstd::arithmetic::div_mod::lemma_add_mod_noop_right(1, current as int, count as int);
                vstd::arithmetic::div_mod::lemma_mod_pos_bound(next as int, count as int);
            }
            next % count
        } else if direction < 0 {
            if current == 0 { count - 1 } else { current - 1 }
        } else if current < count - 1 {
            current
        } else {
            count - 1
        };
        let m = &self.matches[self.current];
        Some((m.start, m.end))
    }
}

/// Scroll position, remembered column and search of one editor tab.
#[derive(Debug, Clone)]
pub struct EditorView {
    pub scroll_line: usize,
    pub scroll_column: usize,
    pub preferred_display_column: Option<usize>,
    pub search: BufferSearchState,
}

impl Default for EditorView {
    fn default() -> (v: Self)
        ensures
            v.scroll_line == 0,
            v.scroll_column == 0,
            v.preferred_display_column is None,
            v.search.query@ == Seq::<char>::empty(),
            v.search.matches@.len() == 0,
            v.search.current == 0,
            v.search.generation == 0,
    {
        EditorView {
            scroll_line: 0,
            scroll_column: 0,
            preferred_display_column: None,
            search: BufferSearchState::default(),
        }
    }
}

} // verus!
