//! Key chords (`ctrl-shift-s`) and the key map from chords to commands.

use vstd::prelude::*;

use crate::chars::{chars_to_string, lit, push_all, str_to_chars, to_ascii_lower};
use crate::terminal::input::{KeyCode, KeyInput, KeyModifiers};

verus! {

/// A key with its modifiers, as bound in the key map.
#[derive(Debug, Clone, Copy, PartialEq, Eq, Structural)]
pub struct KeyChord {
    pub code: KeyCode,
    pub modifiers: KeyModifiers,
}

#[derive(Debug, Clone, PartialEq, Eq)]
pub enum KeymapError {
    InvalidChord(String),
}

impl KeymapError {
    /// The error's message.
    pub fn message(&self) -> (r: String)
        ensures
            r@ == match self {
                KeymapError::InvalidChord(v) => "invalid key chord: "@ + v@,
            },
    {
        match self {
            KeymapError::InvalidChord(v) => {
                let mut out = lit("invalid key chord: ");
                push_all(&mut out, &str_to_chars(v.as_str()));
                chars_to_string(out.as_slice())
            },
        }
    }
}

/// Position of the first `-`.
pub open spec fn first_dash(s: Seq<char>) -> Option<int>
    decreases s.len(),
{
    if s.len() == 0 {
        None
    } else if s[0] == '-' {
        Some(0)
    } else {
        match first_dash(s.drop_first()) {
            Some(i) => Some(i + 1),
            None => None,
        }
    }
}

/// The parts of `s` between `-` separators (`str::split('-')`).
pub open spec fn dash_parts(s: Seq<char>) -> Seq<Seq<char>>
    decreases s.len(),
{
    match first_dash(s) {
        Some(i) => if 0 <= i < s.len() {
            seq![s.take(i)] + dash_parts(s.skip(i + 1))
        } else {
            seq![s]
        },
        None => seq![s],
    }
}

/// A chord being read: the modifiers so far and the key, if any.
pub struct ChordState {
    pub control: bool,
    pub alt: bool,
    pub shift: bool,
    pub code: Option<KeyCode>,
}

/// One part of a chord applied; `None` for a part that means nothing.
pub open spec fn apply_part(st: ChordState, p: Seq<char>) -> Option<ChordState> {
    if p == "ctrl"@ || p == "control"@ {
        Some(ChordState { control: true, ..st })
    } else if p == "shift"@ {
        Some(ChordState { shift: true, ..st })
    } else if p == "alt"@ {
        Some(ChordState { alt: true, ..st })
    } else if p == "enter"@ {
        Some(ChordState { code: Some(KeyCode::Enter), ..st })
    } else if p == "esc"@ || p == "escape"@ {
        Some(ChordState { code: Some(KeyCode::Esc), ..st })
    } else if p == "tab"@ {
        Some(ChordState { code: Some(KeyCode::Tab), ..st })
    } else if p == "backspace"@ {
        Some(ChordState { code: Some(KeyCode::Backspace), ..st })
    } else if p == "delete"@ {
        Some(ChordState { code: Some(KeyCode::Delete), ..st })
    } else if p == "up"@ {
        Some(ChordState { code: Some(KeyCode::Up), ..st })
    } else if p == "down"@ {
        Some(ChordState { code: Some(KeyCode::Down), ..st })
    } else if p == "left"@ {
        Some(ChordState { code: Some(KeyCode::Left), ..st })
    } else if p == "right"@ {
        Some(ChordState { code: Some(KeyCode::Right), ..st })
    } else if p == "space"@ {
        Some(ChordState { code: Some(KeyCode::Char(' ')), ..st })
    } else if p.len() == 1 {
        Some(ChordState { code: Some(KeyCode::Char(p[0])), ..st })
    } else {
        None
    }
}

pub open spec fn apply_parts(st: ChordState, parts: Seq<Seq<char>>) -> Option<ChordState>
    decreases parts.len(),
{
    if parts.len() == 0 {
        Some(st)
    } else {
        match apply_part(st, parts[0]) {
            Some(next) => apply_parts(next, parts.drop_first()),
            None => None,
        }
    }
}

/// The chord a text names (case-insensitively): modifiers and one key,
/// separated by `-`; `None` where a part means nothing or no key is named.
pub open spec fn spec_parse_chord(value: Seq<char>) -> Option<KeyChord> {
    let start = ChordState { control: false, alt: false, shift: false, code: None };
    match apply_parts(start, dash_parts(crate::chars::ascii_lower(value))) {
        Some(st) => match st.code {
            Some(code) => Some(
                KeyChord { code, modifiers: KeyModifiers { control: st.control, alt: st.alt, shift: st.shift } },
            ),
            None => None,
        },
        None => None,
    }
}

/// Each modifier word sets its own modifier and nothing else.
pub proof fn lemma_modifier_words(st: ChordState)
    ensures
        apply_part(st, "ctrl"@) == Some(ChordState { control: true, ..st }),
        apply_part(st, "control"@) == Some(ChordState { control: true, ..st }),
        apply_part(st, "alt"@) == Some(ChordState { alt: true, ..st }),
        apply_part(st, "shift"@) == Some(ChordState { shift: true, ..st }),
{
    reveal_strlit("ctrl");
    reveal_strlit("control");
    reveal_strlit("alt");
    reveal_strlit("shift");
    assert("alt"@ != "ctrl"@);
    assert("alt"@ != "control"@);
    assert("alt"@ != "shift"@);
    assert("shift"@ != "ctrl"@);
    assert("shift"@ != "control"@);
}

/// Each key name sets the key it names and keeps the modifiers.
pub proof fn lemma_key_names(st: ChordState)
    ensures
        apply_part(st, "enter"@) == Some(ChordState { code: Some(KeyCode::Enter), ..st }),
        apply_part(st, "esc"@) == Some(ChordState { code: Some(KeyCode::Esc), ..st }),
        apply_part(st, "escape"@) == Some(ChordState { code: Some(KeyCode::Esc), ..st }),
        apply_part(st, "tab"@) == Some(ChordState { code: Some(KeyCode::Tab), ..st }),
        apply_part(st, "backspace"@) == Some(ChordState { code: Some(KeyCode::Backspace), ..st }),
        apply_part(st, "delete"@) == Some(ChordState { code: Some(KeyCode::Delete), ..st }),
        apply_part(st, "up"@) == Some(ChordState { code: Some(KeyCode::Up), ..st }),
        apply_part(st, "down"@) == Some(ChordState { code: Some(KeyCode::Down), ..st }),
        apply_part(st, "left"@) == Some(ChordState { code: Some(KeyCode::Left), ..st }),
        apply_part(st, "right"@) == Some(ChordState { code: Some(KeyCode::Right), ..st }),
        apply_part(st, "space"@) == Some(ChordState { code: Some(KeyCode::Char(' ')), ..st }),
{
    reveal_strlit("ctrl");
    reveal_strlit("control");
    reveal_strlit("shift");
    reveal_strlit("alt");
    reveal_strlit("enter");
    reveal_strlit("esc");
    reveal_strlit("escape");
    reveal_strlit("tab");
    reveal_strlit("backspace");
    reveal_strlit("delete");
    reveal_strlit("up");
    reveal_strlit("down");
    reveal_strlit("left");
    reveal_strlit("right");
    reveal_strlit("space");
    assert("ctrl"@.len() == 4);
    assert("control"@.len() == 7);
    assert("shift"@.len() == 5);
    assert("alt"@.len() == 3);
    assert("enter"@.len() == 5);
    assert("esc"@.len() == 3);
    assert("escape"@.len() == 6);
    assert("tab"@.len() == 3);
    assert("backspace"@.len() == 9);
    assert("delete"@.len() == 6);
    assert("up"@.len() == 2);
    assert("down"@.len() == 4);
    assert("left"@.len() == 4);
    assert("right"@.len() == 5);
    assert("space"@.len() == 5);
    assert("enter"@[0] != "shift"@[0]);
    assert("esc"@[0] != "alt"@[0]);
    assert("tab"@[0] != "alt"@[0]);
    assert("tab"@[0] != "esc"@[0]);
    assert("delete"@[0] != "escape"@[0]);
    assert("down"@[0] != "ctrl"@[0]);
    assert("left"@[0] != "ctrl"@[0]);
    assert("left"@[0] != "down"@[0]);
    assert("right"@[0] != "shift"@[0]);
    assert("right"@[0] != "enter"@[0]);
    assert("space"@[1] != "shift"@[1]);
    assert("space"@[0] != "enter"@[0]);
    assert("space"@[0] != "right"@[0]);
}

proof fn lemma_first_dash_after(w: Seq<char>, rest: Seq<char>)
    requires
        forall|k: int| 0 <= k < w.len() ==> w[k] != '-',
    ensures
        first_dash(w + seq!['-'] + rest) == Some(w.len() as int),
    decreases w.len(),
{
    if w.len() > 0 {
        assert((w + seq!['-'] + rest).drop_first() =~= w.drop_first() + seq!['-'] + rest);
        lemma_first_dash_after(w.drop_first(), rest);
    } else {
        assert((w + seq!['-'] + rest)[0] == '-');
    }
}

/// `w-c`, for a word `w` without dashes and a key `c` other than a dash,
/// splits into `w` and `c`.
proof fn lemma_two_parts(w: Seq<char>, c: char)
    requires
        forall|k: int| 0 <= k < w.len() ==> w[k] != '-',
        c != '-',
    ensures
        dash_parts(w + seq!['-', c]) == seq![w, seq![c]],
{
    let s = w + seq!['-', c];
    assert(s =~= w + seq!['-'] + seq![c]);
    lemma_first_dash_after(w, seq![c]);
    assert(s.take(w.len() as int) =~= w);
    assert(s.skip(w.len() as int + 1) =~= seq![c]);
    assert(seq![c].drop_first() =~= Seq::<char>::empty());
    reveal_with_fuel(first_dash, 2);
    assert(first_dash(seq![c]) is None);
    assert(dash_parts(seq![c]) == seq![seq![c]]);
    assert(dash_parts(s) == seq![s.take(w.len() as int)] + dash_parts(s.skip(w.len() as int + 1)));
    assert(seq![w] + seq![seq![c]] =~= seq![w, seq![c]]);
}

/// A modifier word, a dash and a key that is not an ASCII capital or a
/// dash read as that key with exactly that modifier: `alt-1` is Alt+1,
/// `ctrl-x` is Ctrl+X, `shift-x` is Shift+X.
pub proof fn lemma_modifier_chord(c: char)
    requires
        c != '-',
        !('A' <= c && c <= 'Z'),
    ensures
        spec_parse_chord("alt-"@ + seq![c]) == Some(KeyChord {
            code: KeyCode::Char(c),
            modifiers: KeyModifiers { control: false, alt: true, shift: false },
        }),
        spec_parse_chord("ctrl-"@ + seq![c]) == Some(KeyChord {
            code: KeyCode::Char(c),
            modifiers: KeyModifiers { control: true, alt: false, shift: false },
        }),
        spec_parse_chord("shift-"@ + seq![c]) == Some(KeyChord {
            code: KeyCode::Char(c),
            modifiers: KeyModifiers { control: false, alt: false, shift: true },
        }),
{
    reveal_strlit("alt-");
    reveal_strlit("ctrl-");
    reveal_strlit("shift-");
    reveal_strlit("alt");
    reveal_strlit("ctrl");
    reveal_strlit("shift");
    let start = ChordState { control: false, alt: false, shift: false, code: None };
    lemma_modifier_words(start);
    let words = seq!["alt"@, "ctrl"@, "shift"@];
    assert forall|j: int| 0 <= j < 3 implies ({
        let w = #[trigger] words[j];
        let text = w + seq!['-', c];
        &&& crate::chars::ascii_lower(text) == text
        &&& dash_parts(text) == seq![w, seq![c]]
    }) by {
        let w = words[j];
        let text = w + seq!['-', c];
        assert(crate::chars::ascii_lower(text) =~= text);
        lemma_two_parts(w, c);
    }
    assert("alt-"@ + seq![c] =~= words[0] + seq!['-', c]);
    assert("ctrl-"@ + seq![c] =~= words[1] + seq!['-', c]);
    assert("shift-"@ + seq![c] =~= words[2] + seq!['-', c]);
    assert(seq![c].len() == 1);
    assert(seq![c] != "ctrl"@ && seq![c] != "control"@ && seq![c] != "shift"@ && seq![c] != "alt"@) by {
        reveal_strlit("control");
    }
    assert(apply_part(ChordState { alt: true, ..start }, seq![c]) == Some(ChordState { alt: true, code: Some(KeyCode::Char(c)), ..start })) by {
        reveal_strlit("enter"); reveal_strlit("esc"); reveal_strlit("escape"); reveal_strlit("tab");
        reveal_strlit("backspace"); reveal_strlit("delete"); reveal_strlit("up"); reveal_strlit("down");
        reveal_strlit("left"); reveal_strlit("right"); reveal_strlit("space"); reveal_strlit("control");
    }
    assert(apply_part(ChordState { control: true, ..start }, seq![c]) == Some(ChordState { control: true, code: Some(KeyCode::Char(c)), ..start })) by {
        reveal_strlit("enter"); reveal_strlit("esc"); reveal_strlit("escape"); reveal_strlit("tab");
        reveal_strlit("backspace"); reveal_strlit("delete"); reveal_strlit("up"); reveal_strlit("down");
        reveal_strlit("left"); reveal_strlit("right"); reveal_strlit("space"); reveal_strlit("control");
    }
    assert(apply_part(ChordState { shift: true, ..start }, seq![c]) == Some(ChordState { shift: true, code: Some(KeyCode::Char(c)), ..start })) by {
        reveal_strlit("enter"); reveal_strlit("esc"); reveal_strlit("escape"); reveal_strlit("tab");
        reveal_strlit("backspace"); reveal_strlit("delete"); reveal_strlit("up"); reveal_strlit("down");
        reveal_strlit("left"); reveal_strlit("right"); reveal_strlit("space"); reveal_strlit("control");
    }
    reveal_with_fuel(apply_parts, 3);
    assert(seq![words[0], seq![c]].drop_first() =~= seq![seq![c]]);
    assert(seq![words[1], seq![c]].drop_first() =~= seq![seq![c]]);
    assert(seq![words[2], seq![c]].drop_first() =~= seq![seq![c]]);
    assert(seq![seq![c]].drop_first() =~= Seq::<Seq<char>>::empty());
}

proof fn lemma_bind_all_keeps(map: Map<KeyChord, Seq<char>>, bs: Seq<(Seq<char>, Seq<char>)>, chord: KeyChord)
    requires
        forall|j: int| 0 <= j < bs.len() ==> spec_parse_chord(#[trigger] bs[j].0) != Some(chord),
    ensures
        bind_all(map, bs).dom().contains(chord) == map.dom().contains(chord),
        map.dom().contains(chord) ==> bind_all(map, bs)[chord] == map[chord],
    decreases bs.len(),
{
    if bs.len() > 0 {
        let next = match spec_parse_chord(bs[0].0) {
            Some(c) => map.insert(c, bs[0].1),
            None => map,
        };
        assert forall|j: int| 0 <= j < bs.drop_first().len() implies spec_parse_chord(#[trigger] bs.drop_first()[j].0) != Some(chord) by {
            assert(bs.drop_first()[j] == bs[j + 1]);
        }
        lemma_bind_all_keeps(next, bs.drop_first(), chord);
    }
}

/// The last binding of a chord is the one that stays.
proof fn lemma_bind_all_last(map: Map<KeyChord, Seq<char>>, bs: Seq<(Seq<char>, Seq<char>)>, k: int, chord: KeyChord)
    requires
        0 <= k < bs.len(),
        spec_parse_chord(bs[k].0) == Some(chord),
        forall|j: int| k < j < bs.len() ==> spec_parse_chord(#[trigger] bs[j].0) != Some(chord),
    ensures
        bind_all(map, bs).dom().contains(chord),
        bind_all(map, bs)[chord] == bs[k].1,
    decreases bs.len(),
{
    let next = match spec_parse_chord(bs[0].0) {
        Some(c) => map.insert(c, bs[0].1),
        None => map,
    };
    if k == 0 {
        assert forall|j: int| 0 <= j < bs.drop_first().len() implies spec_parse_chord(#[trigger] bs.drop_first()[j].0) != Some(chord) by {
            assert(bs.drop_first()[j] == bs[j + 1]);
        }
        lemma_bind_all_keeps(next, bs.drop_first(), chord);
    } else {
        assert forall|j: int| k - 1 < j < bs.drop_first().len() implies spec_parse_chord(#[trigger] bs.drop_first()[j].0) != Some(chord) by {
            assert(bs.drop_first()[j] == bs[j + 1]);
        }
        assert(bs.drop_first()[k - 1] == bs[k]);
        lemma_bind_all_last(next, bs.drop_first(), k - 1, chord);
    }
}

/// Chords read the same in any letter case.
pub proof fn lemma_parse_ignores_case(value: Seq<char>)
    ensures
        spec_parse_chord(crate::chars::ascii_lower(value)) == spec_parse_chord(value),
{
    assert(crate::chars::ascii_lower(crate::chars::ascii_lower(value)) =~= crate::chars::ascii_lower(value));
}

/// A binding added after others wins for its chord: an override replaces
/// the default binding of the same chord.
pub proof fn lemma_later_binding_wins(map: Map<KeyChord, Seq<char>>, bs: Seq<(Seq<char>, Seq<char>)>, text: Seq<char>, command: Seq<char>)
    requires
        spec_parse_chord(text) is Some,
    ensures
        bind_all(map, bs.push((text, command))).dom().contains(spec_parse_chord(text)->0),
        bind_all(map, bs.push((text, command)))[spec_parse_chord(text)->0] == command,
{
    let all = bs.push((text, command));
    assert(all[bs.len() as int] == (text, command));
    lemma_bind_all_last(map, all, bs.len() as int, spec_parse_chord(text)->0);
}

pub open spec fn alt_chord(c: char) -> KeyChord {
    KeyChord { code: KeyCode::Char(c), modifiers: KeyModifiers { control: false, alt: true, shift: false } }
}

/// The default key map binds Alt+1, Alt+2 and Alt+3 to the explorer, source
/// control and search views.
pub proof fn lemma_default_alt_views()
    ensures
        bind_all(Map::empty(), default_bindings()).dom().contains(alt_chord('1')),
        bind_all(Map::empty(), default_bindings())[alt_chord('1')] == "view.explorer"@,
        bind_all(Map::empty(), default_bindings()).dom().contains(alt_chord('2')),
        bind_all(Map::empty(), default_bindings())[alt_chord('2')] == "view.source_control"@,
        bind_all(Map::empty(), default_bindings()).dom().contains(alt_chord('3')),
        bind_all(Map::empty(), default_bindings())[alt_chord('3')] == "view.search"@,
{
    let d = default_bindings();
    reveal_strlit("alt-");
    reveal_strlit("ctrl-");
    reveal_strlit("alt-1");
    reveal_strlit("alt-2");
    reveal_strlit("alt-3");
    reveal_strlit("ctrl-q");
    assert(d[14].0 =~= "alt-"@ + seq!['1']);
    assert(d[15].0 =~= "alt-"@ + seq!['2']);
    assert(d[16].0 =~= "alt-"@ + seq!['3']);
    assert(d[17].0 =~= "ctrl-"@ + seq!['q']);
    lemma_modifier_chord('1');
    lemma_modifier_chord('2');
    lemma_modifier_chord('3');
    lemma_modifier_chord('q');
    assert(d.len() == 18);
    lemma_bind_all_last(Map::empty(), d, 14, alt_chord('1'));
    lemma_bind_all_last(Map::empty(), d, 15, alt_chord('2'));
    lemma_bind_all_last(Map::empty(), d, 16, alt_chord('3'));
}

fn is(p: &Vec<char>, l: &str) -> (b: bool)
    ensures
        b == (p@ == l@),
{
    crate::chars::chars_eq(p, &lit(l))
}

fn apply_one(st: (bool, bool, bool, Option<KeyCode>), p: &Vec<char>) -> (r: Option<(bool, bool, bool, Option<KeyCode>)>)
    ensures
        match r {
            Some(n) => apply_part(ChordState { control: st.0, alt: st.1, shift: st.2, code: st.3 }, p@)
                == Some(ChordState { control: n.0, alt: n.1, shift: n.2, code: n.3 }),
            None => apply_part(ChordState { control: st.0, alt: st.1, shift: st.2, code: st.3 }, p@) is None,
        },
{
    let (c, a, s, code) = st;
    if is(p, "ctrl") || is(p, "control") {
        Some((true, a, s, code))
    } else if is(p, "shift") {
        Some((c, a, true, code))
    } else if is(p, "alt") {
        Some((c, true, s, code))
    } else if is(p, "enter") {
        Some((c, a, s, Some(KeyCode::Enter)))
    } else if is(p, "esc") || is(p, "escape") {
        Some((c, a, s, Some(KeyCode::Esc)))
    } else if is(p, "tab") {
        Some((c, a, s, Some(KeyCode::Tab)))
    } else if is(p, "backspace") {
        Some((c, a, s, Some(KeyCode::Backspace)))
    } else if is(p, "delete") {
        Some((c, a, s, Some(KeyCode::Delete)))
    } else if is(p, "up") {
        Some((c, a, s, Some(KeyCode::Up)))
    } else if is(p, "down") {
        Some((c, a, s, Some(KeyCode::Down)))
    } else if is(p, "left") {
        Some((c, a, s, Some(KeyCode::Left)))
    } else if is(p, "right") {
        Some((c, a, s, Some(KeyCode::Right)))
    } else if is(p, "space") {
        Some((c, a, s, Some(KeyCode::Char(' '))))
    } else if p.len() == 1 {
        Some((c, a, s, Some(KeyCode::Char(p[0]))))
    } else {
        None
    }
}

impl KeyChord {
    /// Reads a chord such as `ctrl-shift-p`; letters may be in any case.
    pub fn parse(value: &str) -> (r: Result<KeyChord, KeymapError>)
        ensures
            match r {
                Ok(chord) => spec_parse_chord(value@) == Some(chord),
                Err(KeymapError::InvalidChord(v)) => spec_parse_chord(value@) is None && v@ == value@,
            },
    {
        let lower = to_ascii_lower(&str_to_chars(value));
        let n = lower.len();
        let mut st: (bool, bool, bool, Option<KeyCode>) = (false, false, false, None);
        let mut start: usize = 0;
        let ghost s0 = ChordState { control: false, alt: false, shift: false, code: None };
        let ghost whole = apply_parts(s0, dash_parts(lower@));
        assert(lower@.skip(0) =~= lower@);
        loop
            invariant_except_break
                start <= n == lower@.len(),
                s0 == (ChordState { control: false, alt: false, shift: false, code: None }),
                whole == apply_parts(s0, dash_parts(lower@)),
                whole == apply_parts(
                    ChordState { control: st.0, alt: st.1, shift: st.2, code: st.3 },
                    dash_parts(lower@.skip(start as int)),
                ),
                lower@ == crate::chars::ascii_lower(value@),
            ensures
                s0 == (ChordState { control: false, alt: false, shift: false, code: None }),
                whole == Some(ChordState { control: st.0, alt: st.1, shift: st.2, code: st.3 }),
                whole == apply_parts(s0, dash_parts(lower@)),
                lower@ == crate::chars::ascii_lower(value@),
            decreases n - start,
        {
            let mut end = start;
            while end < n && lower[end] != '-'
                invariant
                    start <= end <= n == lower@.len(),
                    first_dash(lower@.skip(start as int)) == match first_dash(lower@.skip(end as int)) {
                        Some(i) => Some(i + (end - start)),
                        None => None::<int>,
                    },
                    forall|k: int| start <= k < end ==> lower@[k] != '-',
                decreases n - end,
            {
                assert(lower@.skip(end as int).drop_first() =~= lower@.skip(end + 1));
                assert(lower@.skip(end as int)[0] == lower@[end as int]);
                end = end + 1;
            }
            proof {
                if end < n {
                    assert(lower@.skip(end as int)[0] == lower@[end as int]);
                }
            }
            let part = crate::chars::sub_vec(&lower, start, end);
            let ghost rest = lower@.skip(start as int);
            let ghost prev = ChordState { control: st.0, alt: st.1, shift: st.2, code: st.3 };
            assert(part@ =~= rest.take(end - start));
            match apply_one(st, &part) {
                Some(next) => {
                    st = next;
                },
                None => {
                    proof {
                        let stc = ChordState { control: st.0, alt: st.1, shift: st.2, code: st.3 };
                        if end < n {
                            assert(lower@.skip(end as int)[0] == '-');
                            assert(first_dash(lower@.skip(end as int)) == Some(0int));
                            assert(first_dash(rest) == Some(end - start));
                            assert(dash_parts(rest)[0] == rest.take(end - start));
                        } else {
                            assert(lower@.skip(end as int) =~= Seq::<char>::empty());
                            assert(first_dash(rest) is None);
                            assert(rest.take(end - start) =~= rest);
                            assert(dash_parts(rest) == seq![rest]);
                        }
                        assert(dash_parts(rest).len() > 0);
                        assert(apply_part(stc, dash_parts(rest)[0]) is None);
                        assert(apply_parts(stc, dash_parts(rest)) is None);
                        assert(whole is None);
                        assert(spec_parse_chord(value@) is None);
                    }
                    return Err(KeymapError::InvalidChord(chars_to_string(str_to_chars(value).as_slice())));
                },
            }
            if end >= n {
                proof {
                    let nx = ChordState { control: st.0, alt: st.1, shift: st.2, code: st.3 };
                    assert(lower@.skip(end as int) =~= Seq::<char>::empty());
                    assert(first_dash(rest) is None);
                    assert(rest.take(end - start) =~= rest);
                    assert(dash_parts(rest) =~= seq![rest]);
                    assert(dash_parts(rest).drop_first() =~= Seq::<Seq<char>>::empty());
                    assert(apply_part(prev, rest) == Some(nx));
                    assert(apply_parts(nx, Seq::<Seq<char>>::empty()) == Some(nx));
                    assert(apply_parts(prev, dash_parts(rest)) == Some(nx));
                }
                break;
            }
            proof {
                assert(lower@.skip(end as int)[0] == '-');
                assert(first_dash(lower@.skip(end as int)) == Some(0int));
                assert(first_dash(rest) == Some(end - start));
            }
            assert(rest.skip(end - start + 1) =~= lower@.skip(end + 1));
            assert(dash_parts(rest).drop_first() =~= dash_parts(lower@.skip(end + 1)));
            start = end + 1;
        }
        match st.3 {
            Some(code) => Ok(KeyChord { code, modifiers: KeyModifiers { control: st.0, alt: st.1, shift: st.2 } }),
            None => Err(KeymapError::InvalidChord(chars_to_string(str_to_chars(value).as_slice()))),
        }
    }
}

impl std::str::FromStr for KeyChord {
    type Err = KeymapError;

    /// Reads a chord as `KeyChord::parse` does.
    fn from_str(value: &str) -> (r: Result<Self, Self::Err>)
        ensures
            match r {
                Ok(chord) => spec_parse_chord(value@) == Some(chord),
                Err(KeymapError::InvalidChord(v)) => spec_parse_chord(value@) is None && v@ == value@,
            },
    {
        KeyChord::parse(value)
    }
}

/// The default bindings, in order.
pub open spec fn default_bindings() -> Seq<(Seq<char>, Seq<char>)> {
    seq![
        ("ctrl-s"@, "editor.save"@),
        ("ctrl-shift-s"@, "editor.save_as"@),
        ("ctrl-w"@, "editor.close"@),
        ("ctrl-c"@, "editor.copy"@),
        ("ctrl-x"@, "editor.cut"@),
        ("ctrl-v"@, "editor.paste"@),
        ("ctrl-f"@, "editor.find"@),
        ("ctrl-z"@, "editor.undo"@),
        ("ctrl-y"@, "editor.redo"@),
        ("ctrl-p"@, "workspace.open_file"@),
        ("ctrl-shift-p"@, "command_palette.open"@),
        ("ctrl-b"@, "view.toggle_sidebar"@),
        ("ctrl-j"@, "view.toggle_bottom_panel"@),
        ("ctrl-`"@, "terminal.toggle"@),
        ("alt-1"@, "view.explorer"@),
        ("alt-2"@, "view.source_control"@),
        ("alt-3"@, "view.search"@),
        ("ctrl-q"@, "app.quit"@),
    ]
}

/// Bindings applied in order to a map: a chord that reads is bound to its
/// command, replacing an earlier binding of it.
pub open spec fn bind_all(map: Map<KeyChord, Seq<char>>, bindings: Seq<(Seq<char>, Seq<char>)>) -> Map<KeyChord, Seq<char>>
    decreases bindings.len(),
{
    if bindings.len() == 0 {
        map
    } else {
        let next = match spec_parse_chord(bindings[0].0) {
            Some(chord) => map.insert(chord, bindings[0].1),
            None => map,
        };
        bind_all(next, bindings.drop_first())
    }
}

/// The chords of bindings that do not read, in order.
pub open spec fn chord_warnings(bindings: Seq<(Seq<char>, Seq<char>)>) -> Seq<Seq<char>>
    decreases bindings.len(),
{
    if bindings.len() == 0 {
        Seq::empty()
    } else {
        let rest = chord_warnings(bindings.drop_first());
        if spec_parse_chord(bindings[0].0) is None {
            seq!["invalid key chord: "@ + bindings[0].0] + rest
        } else {
            rest
        }
    }
}

/// Key bindings: each chord is bound to at most one command.
#[derive(Debug, Clone)]
pub struct Keymap {
    bindings: Vec<(KeyChord, String)>,
}

impl Keymap {
    /// The bindings as a map from chords to command identifiers.
    pub closed spec fn bound(&self) -> Map<KeyChord, Seq<char>> {
        Map::new(
            |c: KeyChord| exists|i: int| 0 <= i < self.bindings@.len() && self.bindings@[i].0 == c,
            |c: KeyChord| self.bindings@[choose|i: int| 0 <= i < self.bindings@.len() && self.bindings@[i].0 == c].1@,
        )
    }

    pub closed spec fn wf(&self) -> bool {
        forall|i: int, j: int|
            0 <= i < j < self.bindings@.len() ==> self.bindings@[i].0 != self.bindings@[j].0
    }

    /// An empty key map.
    fn empty() -> (k: Keymap)
        ensures
            k.wf(),
            k.bound() == Map::<KeyChord, Seq<char>>::empty(),
    {
        let k = Keymap { bindings: Vec::new() };
        assert(k.bound() =~= Map::<KeyChord, Seq<char>>::empty());
        k
    }

    /// Binds a chord, replacing its earlier binding.
    fn bind(&mut self, chord: KeyChord, command: String)
        requires
            old(self).wf(),
        ensures
            final(self).wf(),
            final(self).bound() == old(self).bound().insert(chord, command@),
    {
        let ghost b0 = self.bindings@;
        let mut i: usize = 0;
        while i < self.bindings.len()
            invariant
                i <= self.bindings@.len(),
                self.bindings@ == b0,
                b0 == old(self).bindings@,
                forall|a: int, b: int| 0 <= a < b < b0.len() ==> b0[a].0 != b0[b].0,
                forall|k: int| 0 <= k < i ==> self.bindings@[k].0 != chord,
            decreases self.bindings.len() - i,
        {
            if self.bindings[i].0 == chord {
                let ghost before = self.bindings@;
                self.bindings.set(i, (chord, command));
                assert forall|a: int, b: int| 0 <= a < b < self.bindings@.len() implies self.bindings@[a].0 != self.bindings@[b].0 by {
                    assert(before[a].0 != before[b].0);
                }
                assert(self.bound() =~= old(self).bound().insert(chord, command@)) by {
                    assert forall|c: KeyChord| #![auto] self.bound().dom().contains(c) == old(self).bound().insert(chord, command@).dom().contains(c) by {
                        if c != chord {
                            if old(self).bound().dom().contains(c) {
                                let w = choose|k: int| 0 <= k < b0.len() && b0[k].0 == c;
                                assert(self.bindings@[w].0 == c);
                            }
                        } else {
                            assert(self.bindings@[i as int].0 == c);
                        }
                    }
                    assert forall|c: KeyChord| #![auto] self.bound().dom().contains(c) implies self.bound()[c] == old(self).bound().insert(chord, command@)[c] by {
                        let w = choose|k: int| 0 <= k < self.bindings@.len() && self.bindings@[k].0 == c;
                        if c == chord {
                            assert(w == i);
                        } else {
                            let w0 = choose|k: int| 0 <= k < b0.len() && b0[k].0 == c;
                            assert(w == w0);
                        }
                    }
                }
                return;
            }
            i = i + 1;
        }
        self.bindings.push((chord, command));
        assert(self.bound() =~= old(self).bound().insert(chord, command@)) by {
            let n = b0.len() as int;
            assert forall|c: KeyChord| #![auto] self.bound().dom().contains(c) == old(self).bound().insert(chord, command@).dom().contains(c) by {
                if c != chord && old(self).bound().dom().contains(c) {
                    let w = choose|k: int| 0 <= k < b0.len() && b0[k].0 == c;
                    assert(self.bindings@[w].0 == c);
                }
                if c == chord {
                    assert(self.bindings@[n].0 == c);
                }
            }
            assert forall|c: KeyChord| #![auto] self.bound().dom().contains(c) implies self.bound()[c] == old(self).bound().insert(chord, command@)[c] by {
                let w = choose|k: int| 0 <= k < self.bindings@.len() && self.bindings@[k].0 == c;
                if c == chord {
                    assert(w == n);
                } else {
                    let w0 = choose|k: int| 0 <= k < b0.len() && b0[k].0 == c;
                    assert(w == w0);
                }
            }
        }
    }

    /// Applies bindings in order: chords that read are bound, the others
    /// give warnings.
    fn bind_texts(&mut self, bindings: &Vec<(String, String)>, warnings: &mut Vec<String>)
        requires
            old(self).wf(),
        ensures
            final(self).wf(),
            final(self).bound() == bind_all(
                old(self).bound(),
                bindings@.map_values(|b: (String, String)| (b.0@, b.1@)),
            ),
            final(warnings)@.map_values(|w: String| w@) == old(warnings)@.map_values(|w: String| w@)
                + chord_warnings(bindings@.map_values(|b: (String, String)| (b.0@, b.1@))),
    {
        let ghost all = bindings@.map_values(|b: (String, String)| (b.0@, b.1@));
        let ghost w0 = warnings@.map_values(|w: String| w@);
        let mut i: usize = 0;
        assert(all.skip(0) =~= all);
        while i < bindings.len()
            invariant
                i <= bindings@.len(),
                all == bindings@.map_values(|b: (String, String)| (b.0@, b.1@)),
                self.wf(),
                bind_all(old(self).bound(), all) == bind_all(self.bound(), all.skip(i as int)),
                w0 + chord_warnings(all) == warnings@.map_values(|w: String| w@) + chord_warnings(all.skip(i as int)),
            decreases bindings.len() - i,
        {
            let ghost rest = all.skip(i as int);
            assert(rest[0] == (bindings@[i as int].0@, bindings@[i as int].1@));
            assert(rest.drop_first() =~= all.skip(i + 1));
            match KeyChord::parse(bindings[i].0.as_str()) {
                Ok(chord) => {
                    self.bind(chord, bindings[i].1.clone());
                },
                Err(e) => {
                    let ghost before = warnings@.map_values(|w: String| w@);
                    warnings.push(e.message());
                    assert(warnings@.map_values(|w: String| w@) =~= before.push("invalid key chord: "@ + rest[0].0));
                    assert(before.push("invalid key chord: "@ + rest[0].0) + chord_warnings(all.skip(i + 1)) =~= before + chord_warnings(rest));
                },
            }
            i = i + 1;
        }
        assert(all.skip(i as int) =~= Seq::<(Seq<char>, Seq<char>)>::empty());
        assert(warnings@.map_values(|w: String| w@) + Seq::<Seq<char>>::empty() =~= warnings@.map_values(|w: String| w@));
    }

    /// The default key map.
    pub fn defaults() -> (k: Keymap)
        ensures
            k.wf(),
            k.bound() == bind_all(Map::empty(), default_bindings()),
    {
        let mut texts: Vec<(String, String)> = Vec::new();
        texts.push((chars_to_string(lit("ctrl-s").as_slice()), chars_to_string(lit("editor.save").as_slice())));
        texts.push((chars_to_string(lit("ctrl-shift-s").as_slice()), chars_to_string(lit("editor.save_as").as_slice())));
        texts.push((chars_to_string(lit("ctrl-w").as_slice()), chars_to_string(lit("editor.close").as_slice())));
        texts.push((chars_to_string(lit("ctrl-c").as_slice()), chars_to_string(lit("editor.copy").as_slice())));
        texts.push((chars_to_string(lit("ctrl-x").as_slice()), chars_to_string(lit("editor.cut").as_slice())));
        texts.push((chars_to_string(lit("ctrl-v").as_slice()), chars_to_string(lit("editor.paste").as_slice())));
        texts.push((chars_to_string(lit("ctrl-f").as_slice()), chars_to_string(lit("editor.find").as_slice())));
        texts.push((chars_to_string(lit("ctrl-z").as_slice()), chars_to_string(lit("editor.undo").as_slice())));
        texts.push((chars_to_string(lit("ctrl-y").as_slice()), chars_to_string(lit("editor.redo").as_slice())));
        texts.push((chars_to_string(lit("ctrl-p").as_slice()), chars_to_string(lit("workspace.open_file").as_slice())));
        texts.push((chars_to_string(lit("ctrl-shift-p").as_slice()), chars_to_string(lit("command_palette.open").as_slice())));
        texts.push((chars_to_string(lit("ctrl-b").as_slice()), chars_to_string(lit("view.toggle_sidebar").as_slice())));
        texts.push((chars_to_string(lit("ctrl-j").as_slice()), chars_to_string(lit("view.toggle_bottom_panel").as_slice())));
        texts.push((chars_to_string(lit("ctrl-`").as_slice()), chars_to_string(lit("terminal.toggle").as_slice())));
        texts.push((chars_to_string(lit("alt-1").as_slice()), chars_to_string(lit("view.explorer").as_slice())));
        texts.push((chars_to_string(lit("alt-2").as_slice()), chars_to_string(lit("view.source_control").as_slice())));
        texts.push((chars_to_string(lit("alt-3").as_slice()), chars_to_string(lit("view.search").as_slice())));
        texts.push((chars_to_string(lit("ctrl-q").as_slice()), chars_to_string(lit("app.quit").as_slice())));
        assert(texts@.map_values(|b: (String, String)| (b.0@, b.1@)) =~= default_bindings());
        let mut k = Keymap::empty();
        let mut warnings: Vec<String> = Vec::new();
        k.bind_texts(&texts, &mut warnings);
        k
    }

    /// The default key map with overrides applied in order; overrides whose
    /// chord does not read give warnings instead.
    pub fn from_overrides(overrides: &Vec<(String, String)>) -> (r: (Keymap, Vec<String>))
        ensures
            r.0.wf(),
            r.0.bound() == bind_all(
                bind_all(Map::empty(), default_bindings()),
                overrides@.map_values(|b: (String, String)| (b.0@, b.1@)),
            ),
            r.1@.map_values(|w: String| w@) == chord_warnings(
                overrides@.map_values(|b: (String, String)| (b.0@, b.1@)),
            ),
    {
        let mut k = Keymap::defaults();
        let mut warnings: Vec<String> = Vec::new();
        assert(warnings@.map_values(|w: String| w@) =~= Seq::<Seq<char>>::empty());
        k.bind_texts(overrides, &mut warnings);
        assert(Seq::<Seq<char>>::empty() + chord_warnings(overrides@.map_values(|b: (String, String)| (b.0@, b.1@))) =~= chord_warnings(overrides@.map_values(|b: (String, String)| (b.0@, b.1@))));
        (k, warnings)
    }

    /// The command bound to a key press, if any.
    pub fn resolve(&self, event: KeyInput) -> (r: Option<&str>)
        requires
            self.wf(),
        ensures
            match r {
                Some(c) => self.bound().dom().contains(KeyChord { code: event.code, modifiers: event.modifiers })
                    && c@ == self.bound()[KeyChord { code: event.code, modifiers: event.modifiers }],
                None => !self.bound().dom().contains(KeyChord { code: event.code, modifiers: event.modifiers }),
            },
    {
        let chord = KeyChord { code: event.code, modifiers: event.modifiers };
        let mut i: usize = 0;
        while i < self.bindings.len()
            invariant
                i <= self.bindings@.len(),
                self.wf(),
                chord == (KeyChord { code: event.code, modifiers: event.modifiers }),
                forall|k: int| 0 <= k < i ==> self.bindings@[k].0 != chord,
            decreases self.bindings.len() - i,
        {
            if self.bindings[i].0 == chord {
                let ghost w = choose|k: int| 0 <= k < self.bindings@.len() && self.bindings@[k].0 == chord;
                assert(self.bindings@[i as int].0 == chord);
                assert(self.bound().dom().contains(chord));
                assert(w == i);
                assert(self.bound()[chord] == self.bindings@[i as int].1@);
                let c = self.bindings[i].1.as_str();
                assert(c@ == self.bound()[KeyChord { code: event.code, modifiers: event.modifiers }]);
                return Some(c);
            }
            i = i + 1;
        }
        None
    }
}

impl Default for Keymap {
    fn default() -> (k: Self)
        ensures
            k.wf(),
            k.bound() == bind_all(Map::empty(), default_bindings()),
    {
        Keymap::defaults()
    }
}

} // verus!
