//! Navigation history: where the cursor was before each jump, so that the
//! editor can go back to it and forward again.

use ropey::Rope;
use vstd::prelude::*;

use crate::app::{ColumnHint, NavigationLocation};
use crate::buffer::rope::{rope_char_to_line, rope_len_chars, rope_line_to_char};
use crate::chars::{chars_to_string, lit, str_to_chars};

verus! {

/// How many earlier locations the history keeps.
pub const NAVIGATION_HISTORY_LIMIT: usize = 100;

pub open spec fn location_view(l: NavigationLocation) -> (Seq<char>, usize, ColumnHint) {
    (l.path@, l.line, l.column)
}

pub open spec fn locations_view(v: Seq<NavigationLocation>) -> Seq<(Seq<char>, usize, ColumnHint)> {
    v.map_values(|l: NavigationLocation| location_view(l))
}

/// The locations to go back to and forward to, the latest last.
#[derive(Debug)]
pub struct NavigationHistory {
    back: Vec<NavigationLocation>,
    forward: Vec<NavigationLocation>,
}

pub type HistoryView = (Seq<(Seq<char>, usize, ColumnHint)>, Seq<(Seq<char>, usize, ColumnHint)>);

/// Recording a jump's origin: it goes last on the back list (the oldest
/// dropped beyond the limit), and the forward list empties.
pub open spec fn spec_record(h: HistoryView, origin: Option<(Seq<char>, usize, ColumnHint)>) -> HistoryView {
    match origin {
        Some(l) => {
            let pushed = h.0.push(l);
            (if pushed.len() > NAVIGATION_HISTORY_LIMIT { pushed.drop_first() } else { pushed }, Seq::empty())
        },
        None => h,
    }
}

/// Going back (or forward): the latest location of that list is the
/// target, and the current location goes last on the other list.
pub open spec fn spec_navigate(h: HistoryView, back: bool, current: Option<(Seq<char>, usize, ColumnHint)>) -> (
    HistoryView,
    Option<(Seq<char>, usize, ColumnHint)>,
) {
    let from = if back { h.0 } else { h.1 };
    if from.len() == 0 {
        (h, None)
    } else {
        let target = from.last();
        let rest = from.drop_last();
        let (b, f) = if back { (rest, h.1) } else { (h.0, rest) };
        let (b2, f2) = match current {
            Some(c) => if back { (b, f.push(c)) } else { (b.push(c), f) },
            None => (b, f),
        };
        ((b2, f2), Some(target))
    }
}

pub open spec fn opt_location_view(o: Option<NavigationLocation>) -> Option<(Seq<char>, usize, ColumnHint)> {
    match o {
        Some(l) => Some(location_view(l)),
        None => None,
    }
}

impl NavigationHistory {
    pub closed spec fn view_history(&self) -> HistoryView {
        (locations_view(self.back@), locations_view(self.forward@))
    }

    /// An empty history.
    pub fn new() -> (h: Self)
        ensures
            h.view_history() == (Seq::<(Seq<char>, usize, ColumnHint)>::empty(), Seq::<(Seq<char>, usize, ColumnHint)>::empty()),
    {
        let h = NavigationHistory { back: Vec::new(), forward: Vec::new() };
        assert(locations_view(h.back@) =~= Seq::empty());
        assert(locations_view(h.forward@) =~= Seq::empty());
        h
    }

    /// Records where a jump starts, if the cursor is in a file.
    pub fn record_navigation_origin(&mut self, origin: Option<NavigationLocation>)
        ensures
            final(self).view_history() == spec_record(old(self).view_history(), opt_location_view(origin)),
    {
        match origin {
            Some(location) => {
                let ghost before = locations_view(self.back@);
                let ghost l = location_view(location);
                self.back.push(location);
                assert(locations_view(self.back@) =~= before.push(l));
                if self.back.len() > NAVIGATION_HISTORY_LIMIT {
                    let ghost pushed = locations_view(self.back@);
                    self.back.remove(0);
                    assert(locations_view(self.back@) =~= pushed.drop_first());
                }
                self.forward.clear();
                assert(locations_view(self.forward@) =~= Seq::empty());
            },
            None => {},
        }
    }

    /// Goes back (or forward): the location to open, the current one going
    /// on the other list; with nothing there, the message to show.
    pub fn navigate_history(&mut self, back: bool, current: Option<NavigationLocation>) -> (r: Result<NavigationLocation, String>)
        ensures
            ({
                let (h, target) = spec_navigate(old(self).view_history(), back, opt_location_view(current));
                &&& final(self).view_history() == h
                &&& match r {
                    Ok(t) => target == Some(location_view(t)),
                    Err(m) => target is None && m@ == (if back {
                        "No previous navigation location"@
                    } else {
                        "No forward navigation location"@
                    }),
                }
            }),
    {
        let ghost b0 = locations_view(self.back@);
        let ghost f0 = locations_view(self.forward@);
        let target = if back { self.back.pop() } else { self.forward.pop() };
        let target = match target {
            Some(t) => t,
            None => {
                let message = if back {
                    chars_to_string(lit("No previous navigation location").as_slice())
                } else {
                    chars_to_string(lit("No forward navigation location").as_slice())
                };
                assert(back ==> b0.len() == 0);
                assert(!back ==> f0.len() == 0);
                return Err(message);
            },
        };
        proof {
            if back {
                assert(locations_view(self.back@) =~= b0.drop_last());
                assert(b0.last() == location_view(target));
            } else {
                assert(locations_view(self.forward@) =~= f0.drop_last());
                assert(f0.last() == location_view(target));
            }
        }
        match current {
            Some(c) => {
                let ghost cv = location_view(c);
                if back {
                    let ghost before = locations_view(self.forward@);
                    self.forward.push(c);
                    assert(locations_view(self.forward@) =~= before.push(cv));
                } else {
                    let ghost before = locations_view(self.back@);
                    self.back.push(c);
                    assert(locations_view(self.back@) =~= before.push(cv));
                }
            },
            None => {},
        }
        Ok(target)
    }
}

/// The location of a cursor in a file, line and column counted from 1.
pub open spec fn spec_current_location(path: Option<Seq<char>>, text: Seq<char>, head: int) -> Option<(Seq<char>, usize, ColumnHint)> {
    match path {
        Some(p) => {
            let cursor = if head < text.len() { head } else { text.len() as int };
            let line = crate::buffer::rope::line_of(text, cursor);
            Some((p, (line + 1) as usize, ColumnHint::Chars((cursor - crate::buffer::rope::line_start(text, line) + 1) as usize)))
        },
        None => None,
    }
}

/// Where the cursor of a file's buffer is, for the history. The text has
/// fewer chars than `usize::MAX`, so its lines and columns can be counted
/// from 1.
pub fn current_navigation_location(path: Option<&str>, text: &Rope, head: usize) -> (r: Option<NavigationLocation>)
    requires
        crate::buffer::rope::rope_chars(*text).len() < usize::MAX,
    ensures
        opt_location_view(r) == spec_current_location(
            match path {
                Some(p) => Some(p@),
                None => None,
            },
            crate::buffer::rope::rope_chars(*text),
            head as int,
        ),
{
    let path = match path {
        Some(p) => p,
        None => return None,
    };
    let ghost s = crate::buffer::rope::rope_chars(*text);
    let len = rope_len_chars(text);
    let cursor = if head < len { head } else { len };
    let line_index = rope_char_to_line(text, cursor);
    proof {
        crate::buffer::rope::lemma_line_of_monotonic(s, cursor as int, len as int);
        crate::buffer::rope::lemma_count_lf_bound(s);
        crate::buffer::rope::lemma_line_of_start(s, cursor as int);
    }
    let start = rope_line_to_char(text, line_index);
    Some(
        NavigationLocation {
            path: chars_to_string(str_to_chars(path).as_slice()),
            line: line_index + 1,
            column: ColumnHint::Chars(cursor - start + 1),
        },
    )
}

/// Going back and then forward again returns to where the cursor was and
/// leaves both lists as they were.
pub proof fn lemma_back_then_forward(h: HistoryView, current: (Seq<char>, usize, ColumnHint))
    requires
        h.0.len() > 0,
    ensures
        ({
            let (h1, target) = spec_navigate(h, true, Some(current));
            &&& target == Some(h.0.last())
            &&& spec_navigate(h1, false, target) == (h, Some(current))
        }),
{
    let (h1, target) = spec_navigate(h, true, Some(current));
    assert(h1.1.drop_last() =~= h.1);
    assert(h1.0.push(h.0.last()) =~= h.0);
}

} // verus!
