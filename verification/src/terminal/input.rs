//! Encoding keys and pastes as the bytes a terminal program reads.

use vstd::prelude::*;

use crate::chars::{chars_to_string, str_to_chars};

verus! {

/// A key, as the terminal needs it.
#[derive(Debug, Clone, Copy, PartialEq, Eq, Structural)]
pub enum KeyCode {
    Char(char),
    Enter,
    Backspace,
    Tab,
    Esc,
    Up,
    Down,
    Right,
    Left,
    Home,
    End,
    Insert,
    Delete,
    PageUp,
    PageDown,
    F(u8),
    /// Any other key; the terminal gets nothing for it.
    Other,
}

/// The modifiers held with a key.
#[derive(Debug, Clone, Copy, PartialEq, Eq, Structural)]
pub struct KeyModifiers {
    pub control: bool,
    pub alt: bool,
    pub shift: bool,
}

/// A key press.
#[derive(Debug, Clone, Copy, PartialEq, Eq, Structural)]
pub struct KeyInput {
    pub code: KeyCode,
    pub modifiers: KeyModifiers,
}

/// ESC, then `O` in application cursor mode or `[`, then the final byte.
pub open spec fn spec_cursor_sequence(final_byte: u8, application_cursor: bool) -> Seq<u8> {
    seq![0x1bu8, if application_cursor { 0x4fu8 } else { 0x5bu8 }, final_byte]
}

/// An arrow key's sequence.
pub fn cursor_sequence(final_byte: u8, application_cursor: bool) -> (r: Vec<u8>)
    ensures
        r@ == spec_cursor_sequence(final_byte, application_cursor),
{
    let mut v: Vec<u8> = Vec::new();
    v.push(0x1b);
    v.push(if application_cursor { 0x4f } else { 0x5b });
    v.push(final_byte);
    assert(v@ =~= spec_cursor_sequence(final_byte, application_cursor));
    v
}

/// The byte a control-modified char sends, if any.
pub open spec fn control_byte(c: char) -> Option<u8> {
    let lower = if 'A' <= c && c <= 'Z' { ((c as u32) + 32) as char } else { c };
    if 'a' <= lower && lower <= 'z' {
        Some(((lower as u32) - 0x61 + 1) as u8)
    } else if c == ' ' || c == '@' {
        Some(0u8)
    } else if c == '[' {
        Some(0x1bu8)
    } else if c == '\\' {
        Some(0x1cu8)
    } else if c == ']' {
        Some(0x1du8)
    } else if c == '^' {
        Some(0x1eu8)
    } else if c == '_' {
        Some(0x1fu8)
    } else if c == '?' {
        Some(0x7fu8)
    } else {
        None
    }
}

/// The `~` code of function keys F5 to F12.
pub open spec fn function_key_code(n: u8) -> int {
    if n == 5 {
        15
    } else if n == 6 {
        17
    } else if n == 7 {
        18
    } else if n == 8 {
        19
    } else if n == 9 {
        20
    } else if n == 10 {
        21
    } else if n == 11 {
        23
    } else {
        24
    }
}

/// The bytes of a key without the Alt prefix.
pub open spec fn key_bytes(code: KeyCode, m: KeyModifiers, application_cursor: bool) -> Option<Seq<u8>> {
    match code {
        KeyCode::Char(c) => if m.control {
            match control_byte(c) {
                Some(b) => Some(seq![b]),
                None => None,
            }
        } else {
            Some(vstd::utf8::encode_utf8(seq![c]))
        },
        KeyCode::Enter => Some(seq![0x0du8]),
        KeyCode::Backspace => Some(seq![0x7fu8]),
        KeyCode::Tab => if m.shift { Some(seq![0x1bu8, 0x5bu8, 0x5au8]) } else { Some(seq![0x09u8]) },
        KeyCode::Esc => Some(seq![0x1bu8]),
        KeyCode::Up => Some(spec_cursor_sequence(0x41, application_cursor)),
        KeyCode::Down => Some(spec_cursor_sequence(0x42, application_cursor)),
        KeyCode::Right => Some(spec_cursor_sequence(0x43, application_cursor)),
        KeyCode::Left => Some(spec_cursor_sequence(0x44, application_cursor)),
        KeyCode::Home => Some(seq![0x1bu8, 0x5bu8, 0x48u8]),
        KeyCode::End => Some(seq![0x1bu8, 0x5bu8, 0x46u8]),
        KeyCode::Insert => Some(seq![0x1bu8, 0x5bu8, 0x32u8, 0x7eu8]),
        KeyCode::Delete => Some(seq![0x1bu8, 0x5bu8, 0x33u8, 0x7eu8]),
        KeyCode::PageUp => Some(seq![0x1bu8, 0x5bu8, 0x35u8, 0x7eu8]),
        KeyCode::PageDown => Some(seq![0x1bu8, 0x5bu8, 0x36u8, 0x7eu8]),
        KeyCode::F(n) => if 1 <= n <= 4 {
            Some(seq![0x1bu8, 0x4fu8, (0x50 + n - 1) as u8])
        } else if 5 <= n <= 12 {
            let v = function_key_code(n);
            Some(seq![0x1bu8, 0x5bu8, (0x30 + v / 10) as u8, (0x30 + v % 10) as u8, 0x7eu8])
        } else {
            None
        },
        KeyCode::Other => None,
    }
}

/// The bytes a key press sends: Alt adds a leading ESC, except to a
/// control-modified char.
pub open spec fn spec_encode_key(event: KeyInput, application_cursor: bool) -> Option<Seq<u8>> {
    match key_bytes(event.code, event.modifiers, application_cursor) {
        Some(b) => if event.modifiers.alt && !(event.code is Char && event.modifiers.control) {
            Some(seq![0x1bu8] + b)
        } else {
            Some(b)
        },
        None => None,
    }
}

fn bytes_of(s: &[u8]) -> (v: Vec<u8>)
    ensures
        v@ == s@,
{
    let mut v: Vec<u8> = Vec::new();
    let mut i: usize = 0;
    while i < s.len()
        invariant
            i <= s@.len(),
            v@ == s@.take(i as int),
        decreases s.len() - i,
    {
        v.push(s[i]);
        i = i + 1;
        assert(v@ =~= s@.take(i as int));
    }
    assert(s@.take(i as int) =~= s@);
    v
}

fn control_byte_of(c: char) -> (r: Option<u8>)
    ensures
        r == control_byte(c),
{
    let lower = if 'A' <= c && c <= 'Z' { ((c as u32) + 32) as u8 as char } else { c };
    proof {
        if 'A' <= c && c <= 'Z' {
            assert(((c as u32) + 32) as u8 as char == ((c as u32) + 32) as char);
        }
    }
    if 'a' <= lower && lower <= 'z' {
        Some(((lower as u32) - 0x61 + 1) as u8)
    } else if c == ' ' || c == '@' {
        Some(0)
    } else if c == '[' {
        Some(0x1b)
    } else if c == '\\' {
        Some(0x1c)
    } else if c == ']' {
        Some(0x1d)
    } else if c == '^' {
        Some(0x1e)
    } else if c == '_' {
        Some(0x1f)
    } else if c == '?' {
        Some(0x7f)
    } else {
        None
    }
}

fn seq_of(bytes: &[u8]) -> (v: Vec<u8>)
    ensures
        v@ == bytes@,
{
    bytes_of(bytes)
}

fn key_bytes_of(code: KeyCode, m: KeyModifiers, application_cursor: bool) -> (r: Option<Vec<u8>>)
    ensures
        match r {
            Some(v) => key_bytes(code, m, application_cursor) == Some(v@),
            None => key_bytes(code, m, application_cursor) is None,
        },
{
    match code {
        KeyCode::Char(c) => {
            if m.control {
                match control_byte_of(c) {
                    Some(b) => {
                        let mut v: Vec<u8> = Vec::new();
                        v.push(b);
                        assert(v@ =~= seq![b]);
                        Some(v)
                    },
                    None => None,
                }
            } else {
                let mut one: Vec<char> = Vec::new();
                one.push(c);
                let s = chars_to_string(one.as_slice());
                assert(one@ =~= seq![c]);
                Some(bytes_of(s.as_str().as_bytes()))
            }
        },
        KeyCode::Enter => Some(seq_of(&[0x0d])),
        KeyCode::Backspace => Some(seq_of(&[0x7f])),
        KeyCode::Tab => if m.shift { Some(seq_of(&[0x1b, 0x5b, 0x5a])) } else { Some(seq_of(&[0x09])) },
        KeyCode::Esc => Some(seq_of(&[0x1b])),
        KeyCode::Up => Some(cursor_sequence(0x41, application_cursor)),
        KeyCode::Down => Some(cursor_sequence(0x42, application_cursor)),
        KeyCode::Right => Some(cursor_sequence(0x43, application_cursor)),
        KeyCode::Left => Some(cursor_sequence(0x44, application_cursor)),
        KeyCode::Home => Some(seq_of(&[0x1b, 0x5b, 0x48])),
        KeyCode::End => Some(seq_of(&[0x1b, 0x5b, 0x46])),
        KeyCode::Insert => Some(seq_of(&[0x1b, 0x5b, 0x32, 0x7e])),
        KeyCode::Delete => Some(seq_of(&[0x1b, 0x5b, 0x33, 0x7e])),
        KeyCode::PageUp => Some(seq_of(&[0x1b, 0x5b, 0x35, 0x7e])),
        KeyCode::PageDown => Some(seq_of(&[0x1b, 0x5b, 0x36, 0x7e])),
        KeyCode::F(n) => {
            if 1 <= n && n <= 4 {
                let mut v: Vec<u8> = Vec::new();
                v.push(0x1b);
                v.push(0x4f);
                v.push(0x50 + n - 1);
                assert(v@ =~= seq![0x1bu8, 0x4fu8, (0x50 + n - 1) as u8]);
                Some(v)
            } else if 5 <= n && n <= 12 {
                let value: u8 = if n == 5 {
                    15
                } else if n == 6 {
                    17
                } else if n == 7 {
                    18
                } else if n == 8 {
                    19
                } else if n == 9 {
                    20
                } else if n == 10 {
                    21
                } else if n == 11 {
                    23
                } else {
                    24
                };
                let mut v: Vec<u8> = Vec::new();
                v.push(0x1b);
                v.push(0x5b);
                v.push(0x30 + value / 10);
                v.push(0x30 + value % 10);
                v.push(0x7e);
                assert(v@ =~= seq![0x1bu8, 0x5bu8, (0x30 + value / 10) as u8, (0x30 + value % 10) as u8, 0x7eu8]);
                Some(v)
            } else {
                None
            }
        },
        KeyCode::Other => None,
    }
}

/// The bytes a key press sends to the terminal program; `None` for keys it
/// has no encoding for.
pub fn encode_key(event: KeyInput, application_cursor: bool) -> (r: Option<Vec<u8>>)
    ensures
        match r {
            Some(v) => spec_encode_key(event, application_cursor) == Some(v@),
            None => spec_encode_key(event, application_cursor) is None,
        },
{
    match key_bytes_of(event.code, event.modifiers, application_cursor) {
        Some(code) => {
            let is_control_char = match event.code {
                KeyCode::Char(_) => event.modifiers.control,
                _ => false,
            };
            if event.modifiers.alt && !is_control_char {
                let mut escaped: Vec<u8> = Vec::new();
                escaped.push(0x1b);
                let mut i: usize = 0;
                while i < code.len()
                    invariant
                        i <= code@.len(),
                        escaped@ == seq![0x1bu8] + code@.take(i as int),
                    decreases code.len() - i,
                {
                    escaped.push(code[i]);
                    i = i + 1;
                    assert(escaped@ =~= seq![0x1bu8] + code@.take(i as int));
                }
                assert(code@.take(i as int) =~= code@);
                Some(escaped)
            } else {
                Some(code)
            }
        },
        None => None,
    }
}

/// The end-of-paste marker of bracketed paste.
pub open spec fn paste_end() -> Seq<char> {
    seq!['\u{1b}', '[', '2', '0', '1', '~']
}

/// `s` with every occurrence of a non-empty `p` removed, left to right
/// (`str::replace` with an empty replacement).
pub open spec fn remove_all(s: Seq<char>, p: Seq<char>) -> Seq<char>
    decreases s.len(),
{
    if p.len() == 0 || s.len() < p.len() {
        s
    } else if s.take(p.len() as int) == p {
        remove_all(s.skip(p.len() as int), p)
    } else {
        seq![s[0]] + remove_all(s.drop_first(), p)
    }
}

/// What a paste sends: in bracketed mode between the start and end markers,
/// with end markers in the text removed; otherwise the text itself.
pub open spec fn spec_encode_paste(text: Seq<char>, bracketed: bool) -> Seq<u8> {
    if bracketed {
        seq![0x1bu8, 0x5bu8, 0x32u8, 0x30u8, 0x30u8, 0x7eu8] + vstd::utf8::encode_utf8(
            remove_all(text, paste_end()),
        ) + seq![0x1bu8, 0x5bu8, 0x32u8, 0x30u8, 0x31u8, 0x7eu8]
    } else {
        vstd::utf8::encode_utf8(text)
    }
}

fn marker_at(s: &Vec<char>, i: usize) -> (b: bool)
    requires
        i <= s@.len(),
    ensures
        b == (s@.len() - i >= 6 && s@.subrange(i as int, i + 6) == paste_end()),
{
    if s.len() - i < 6 {
        return false;
    }
    let b = s[i] == '\u{1b}' && s[i + 1] == '[' && s[i + 2] == '2' && s[i + 3] == '0' && s[i + 4]
        == '1' && s[i + 5] == '~';
    proof {
        if b {
            assert(s@.subrange(i as int, i + 6) =~= paste_end());
        } else {
            assert(s@.subrange(i as int, i + 6) != paste_end()) by {
                if s@.subrange(i as int, i + 6) == paste_end() {
                    assert(s@.subrange(i as int, i + 6)[0] == s@[i as int]);
                    assert(s@.subrange(i as int, i + 6)[1] == s@[i + 1]);
                    assert(s@.subrange(i as int, i + 6)[2] == s@[i + 2]);
                    assert(s@.subrange(i as int, i + 6)[3] == s@[i + 3]);
                    assert(s@.subrange(i as int, i + 6)[4] == s@[i + 4]);
                    assert(s@.subrange(i as int, i + 6)[5] == s@[i + 5]);
                }
            }
        }
    }
    b
}

/// The bytes a paste sends to the terminal program.
pub fn encode_paste(text: &str, bracketed: bool) -> (r: Vec<u8>)
    ensures
        r@ == spec_encode_paste(text@, bracketed),
{
    if !bracketed {
        return bytes_of(text.as_bytes());
    }
    let s = str_to_chars(text);
    let mut kept: Vec<char> = Vec::new();
    let mut i: usize = 0;
    assert(s@.skip(0) =~= s@);
    while i < s.len()
        invariant
            i <= s@.len(),
            remove_all(s@, paste_end()) == kept@ + remove_all(s@.skip(i as int), paste_end()),
        decreases s.len() - i,
    {
        let ghost t = s@.skip(i as int);
        if marker_at(&s, i) {
            assert(t.take(6) =~= s@.subrange(i as int, i + 6));
            assert(t.skip(6) =~= s@.skip(i + 6));
            i = i + 6;
        } else {
            proof {
                if t.len() >= 6 {
                    assert(t.take(6) =~= s@.subrange(i as int, i + 6));
                }
            }
            assert(t.drop_first() =~= s@.skip(i + 1));
            assert(t[0] == s@[i as int]);
            let ghost before = kept@;
            kept.push(s[i]);
            assert(before + (seq![t[0]] + remove_all(t.drop_first(), paste_end())) =~= kept@ + remove_all(s@.skip(i + 1), paste_end()));
            i = i + 1;
        }
    }
    assert(s@.skip(i as int) =~= Seq::<char>::empty());
    assert(kept@ + Seq::<char>::empty() =~= kept@);
    let body = chars_to_string(kept.as_slice());
    let mut out: Vec<u8> = Vec::new();
    out.push(0x1b);
    out.push(0x5b);
    out.push(0x32);
    out.push(0x30);
    out.push(0x30);
    out.push(0x7e);
    let middle = bytes_of(body.as_str().as_bytes());
    let mut k: usize = 0;
    let ghost head = out@;
    while k < middle.len()
        invariant
            k <= middle@.len(),
            out@ == head + middle@.take(k as int),
        decreases middle.len() - k,
    {
        out.push(middle[k]);
        k = k + 1;
        assert(out@ =~= head + middle@.take(k as int));
    }
    assert(middle@.take(k as int) =~= middle@);
    out.push(0x1b);
    out.push(0x5b);
    out.push(0x32);
    out.push(0x30);
    out.push(0x31);
    out.push(0x7e);
    assert(out@ =~= spec_encode_paste(text@, bracketed));
    out
}

} // verus!
