//! Expansion of LSP completion snippets (`$1`, `${2:default}`, `\$`).

use vstd::prelude::*;

use crate::chars::{chars_to_string, parse_usize, str_to_chars};

verus! {

/// End of the run of ASCII digits that starts at `i`.
pub open spec fn digit_run_end(s: Seq<char>, i: int) -> int
    decreases s.len() - i,
{
    if 0 <= i < s.len() && crate::chars::is_digit(s[i]) {
        digit_run_end(s, i + 1)
    } else {
        i
    }
}

/// Position of the first `}` at or after `i`, or the end of `s`.
pub open spec fn brace_end(s: Seq<char>, i: int) -> int
    decreases s.len() - i,
{
    if 0 <= i < s.len() && s[i] != '}' {
        brace_end(s, i + 1)
    } else {
        i
    }
}

/// A tab stop's number: its digits as `usize`, or 0 where they overflow.
pub open spec fn stop_number(s: Seq<char>, start: int, end: int) -> usize {
    match crate::chars::spec_parse_usize(s.subrange(start, end)) {
        Some(n) => n,
        None => 0,
    }
}

/// One step of the expansion at the start of `s`: how many chars it reads,
/// the text it writes, and the tab stop it records there, if any.
pub open spec fn snippet_token(s: Seq<char>) -> (int, Seq<char>, Option<usize>)
    recommends
        s.len() > 0,
{
    if s[0] == '\\' && 1 < s.len() {
        (2, seq![s[1]], None)
    } else if s[0] != '$' || s.len() < 2 {
        (1, seq![s[0]], None)
    } else if crate::chars::is_digit(s[1]) {
        let end = digit_run_end(s, 1);
        (end, Seq::empty(), Some(stop_number(s, 1, end)))
    } else if s[1] == '{' {
        let end = digit_run_end(s, 2);
        if end == 2 {
            (1, seq!['$'], None)
        } else if end < s.len() && s[end] == ':' {
            let close = brace_end(s, end + 1);
            let default = s.subrange(end + 1, close);
            if close < s.len() {
                (close + 1, default, Some(stop_number(s, 2, end)))
            } else {
                (1, default.push('$'), None)
            }
        } else if end < s.len() && s[end] == '}' {
            (end + 1, Seq::empty(), Some(stop_number(s, 2, end)))
        } else {
            (1, seq!['$'], None)
        }
    } else {
        (1, seq!['$'], None)
    }
}

pub proof fn lemma_digit_run_end(s: Seq<char>, i: int)
    requires
        0 <= i <= s.len(),
    ensures
        i <= digit_run_end(s, i) <= s.len(),
        forall|j: int| i <= j < digit_run_end(s, i) ==> crate::chars::is_digit(#[trigger] s[j]),
        digit_run_end(s, i) < s.len() ==> !crate::chars::is_digit(s[digit_run_end(s, i)]),
    decreases s.len() - i,
{
    if i < s.len() && crate::chars::is_digit(s[i]) {
        lemma_digit_run_end(s, i + 1);
    }
}

pub proof fn lemma_brace_end(s: Seq<char>, i: int)
    requires
        0 <= i <= s.len(),
    ensures
        i <= brace_end(s, i) <= s.len(),
        brace_end(s, i) < s.len() ==> s[brace_end(s, i)] == '}',
    decreases s.len() - i,
{
    if i < s.len() && s[i] != '}' {
        lemma_brace_end(s, i + 1);
    }
}

/// Every step reads at least one char and no more than there are.
pub proof fn lemma_token_progress(s: Seq<char>)
    requires
        s.len() > 0,
    ensures
        1 <= snippet_token(s).0 <= s.len(),
{
    if s[0] == '$' && s.len() >= 2 && s[0] != '\\' {
        if crate::chars::is_digit(s[1]) {
            lemma_digit_run_end(s, 1);
        } else if s[1] == '{' {
            lemma_digit_run_end(s, 2);
            let end = digit_run_end(s, 2);
            if end != 2 && end < s.len() && s[end] == ':' {
                lemma_brace_end(s, end + 1);
            }
        }
    }
}

/// Expansion of the rest `s`, after `out` was written and `stops` recorded
/// (each stop as its number and the char offset in the output where it
/// stands).
pub open spec fn expand_from(s: Seq<char>, out: Seq<char>, stops: Seq<(usize, usize)>) -> (
    Seq<char>,
    Seq<(usize, usize)>,
)
    decreases s.len(),
{
    if s.len() == 0 {
        (out, stops)
    } else {
        let (k, text, stop) = snippet_token(s);
        if 1 <= k <= s.len() {
            let stops2 = match stop {
                Some(n) => stops.push((n, out.len() as usize)),
                None => stops,
            };
            expand_from(s.skip(k), out + text, stops2)
        } else {
            (out, stops)
        }
    }
}

/// The first stop with the least number among those above 0.
pub open spec fn least_positive_stop(stops: Seq<(usize, usize)>) -> Option<(usize, usize)>
    decreases stops.len(),
{
    if stops.len() == 0 {
        None
    } else {
        let rest = least_positive_stop(stops.drop_first());
        let p = stops[0];
        let better = match rest {
            Some(q) => p.0 <= q.0,
            None => true,
        };
        if p.0 > 0 && better {
            Some(p)
        } else {
            rest
        }
    }
}

/// The first stop numbered 0.
pub open spec fn first_final_stop(stops: Seq<(usize, usize)>) -> Option<(usize, usize)>
    decreases stops.len(),
{
    if stops.len() == 0 {
        None
    } else if stops[0].0 == 0 {
        Some(stops[0])
    } else {
        first_final_stop(stops.drop_first())
    }
}

/// Where the cursor goes: the first of the lowest positive stops, else the
/// final stop `$0`.
pub open spec fn cursor_stop(stops: Seq<(usize, usize)>) -> Option<usize> {
    match least_positive_stop(stops) {
        Some(p) => Some(p.1),
        None => match first_final_stop(stops) {
            Some(p) => Some(p.1),
            None => None,
        },
    }
}

/// The text a snippet expands to and the char offset of its cursor.
pub open spec fn spec_expand_snippet(s: Seq<char>) -> (Seq<char>, Option<usize>) {
    let (out, stops) = expand_from(s, Seq::empty(), Seq::empty());
    (out, cursor_stop(stops))
}

fn digit_end(chars: &Vec<char>, start: usize) -> (end: usize)
    requires
        start <= chars@.len(),
    ensures
        end == digit_run_end(chars@, start as int),
{
    proof { lemma_digit_run_end(chars@, start as int); }
    let mut end = start;
    while end < chars.len() && '0' <= chars[end] && chars[end] <= '9'
        invariant
            start <= end <= chars@.len(),
            digit_run_end(chars@, start as int) == digit_run_end(chars@, end as int),
        decreases chars@.len() - end,
    {
        end = end + 1;
    }
    end
}

fn cursor_of(stops: &Vec<(usize, usize)>) -> (r: Option<usize>)
    ensures
        r == cursor_stop(stops@),
{
    let mut best: Option<(usize, usize)> = None;
    let mut zero: Option<(usize, usize)> = None;
    let mut i = stops.len();
    while i > 0
        invariant
            i <= stops@.len(),
            best == least_positive_stop(stops@.skip(i as int)),
            zero == first_final_stop(stops@.skip(i as int)),
        decreases i,
    {
        i = i - 1;
        let p = stops[i];
        assert(stops@.skip(i as int).drop_first() =~= stops@.skip(i + 1));
        let take = match best {
            None => p.0 > 0,
            Some(q) => p.0 > 0 && p.0 <= q.0,
        };
        if take {
            best = Some(p);
        }
        if p.0 == 0 {
            zero = Some(p);
        }
    }
    assert(stops@.skip(0) =~= stops@);
    match best {
        Some(p) => Some(p.1),
        None => match zero {
            Some(p) => Some(p.1),
            None => None,
        },
    }
}

/// Expands a completion snippet: escapes lose their backslash, tab stops
/// `$N` and `${N}` vanish, `${N:text}` leaves its text, and the cursor goes
/// to the lowest positive stop (the first of them), else to `$0`.
pub fn expand_lsp_snippet(snippet: &str) -> (r: (String, Option<usize>))
    ensures
        r.0@ == spec_expand_snippet(snippet@).0,
        r.1 == spec_expand_snippet(snippet@).1,
{
    let chars = str_to_chars(snippet);
    let n = chars.len();
    let mut output: Vec<char> = Vec::new();
    let mut stops: Vec<(usize, usize)> = Vec::new();
    let mut index: usize = 0;
    assert(chars@.skip(0) =~= chars@);
    assert(output@ =~= Seq::<char>::empty());
    assert(stops@ =~= Seq::<(usize, usize)>::empty());
    while index < n
        invariant
            index <= n == chars@.len(),
            expand_from(chars@, Seq::empty(), Seq::empty()) == expand_from(
                chars@.skip(index as int),
                output@,
                stops@,
            ),
        decreases n - index,
    {
        let ghost rest = chars@.skip(index as int);
        let ghost before_out = output@;
        let ghost before_stops = stops@;
        proof { lemma_token_progress(rest); }
        let ghost tok = snippet_token(rest);
        let c = chars[index];
        let mut step: usize = 1;
        if c == '\\' && n - index > 1 {
            output.push(chars[index + 1]);
            step = 2;
        } else if c != '$' || n - index < 2 {
            output.push(c);
        } else if '0' <= chars[index + 1] && chars[index + 1] <= '9' {
            let end = digit_end(&chars, index + 1);
            proof {
                lemma_digit_run_end(chars@, index + 1);
                lemma_run_shift(chars@, index as int, 1);
            }
            let number = match parse_usize(&chars, index + 1, end) {
                Some(v) => v,
                None => 0,
            };
            assert(chars@.subrange(index + 1, end as int) =~= rest.subrange(1, end - index));
            stops.push((number, output.len()));
            step = end - index;
        } else if chars[index + 1] == '{' {
            let end = digit_end(&chars, index + 2);
            proof {
                lemma_digit_run_end(chars@, index + 2);
                lemma_run_shift(chars@, index as int, 2);
            }
            if end == index + 2 {
                output.push('$');
            } else {
                let number = match parse_usize(&chars, index + 2, end) {
                    Some(v) => v,
                    None => 0,
                };
                assert(chars@.subrange(index + 2, end as int) =~= rest.subrange(2, end - index));
                if end < n && chars[end] == ':' {
                    let start_offset = output.len();
                    let mut close = end + 1;
                    proof { lemma_brace_shift(chars@, index as int, end + 1 - index); }
                    while close < n && chars[close] != '}'
                        invariant
                            end < close <= n == chars@.len(),
                            brace_end(chars@, end + 1) == brace_end(chars@, close as int),
                            output@ == before_out + chars@.subrange(end + 1, close as int),
                        decreases n - close,
                    {
                        output.push(chars[close]);
                        close = close + 1;
                    }
                    proof { lemma_brace_end(chars@, end + 1); }
                    assert(chars@.subrange(end + 1, close as int) =~= rest.subrange(
                        end + 1 - index,
                        close - index,
                    ));
                    if close < n {
                        stops.push((number, start_offset));
                        step = close + 1 - index;
                    } else {
                        output.push('$');
                    }
                } else if end < n && chars[end] == '}' {
                    stops.push((number, output.len()));
                    step = end + 1 - index;
                } else {
                    output.push('$');
                }
            }
        } else {
            output.push('$');
        }
        assert(step == tok.0);
        assert(output@ =~= before_out + tok.1);
        assert(chars@.skip(index as int).skip(step as int) =~= chars@.skip(index + step));
        index = index + step;
    }
    assert(chars@.skip(index as int) =~= Seq::<char>::empty());
    let cursor = cursor_of(&stops);
    (chars_to_string(output.as_slice()), cursor)
}

/// A digit run in `s` starting at `base + i` ends where the run in
/// `s.skip(base)` starting at `i` ends, shifted by `base`.
pub proof fn lemma_run_shift(s: Seq<char>, base: int, i: int)
    requires
        0 <= base,
        0 <= i,
        base + i <= s.len(),
    ensures
        digit_run_end(s, base + i) == base + digit_run_end(s.skip(base), i),
    decreases s.len() - base - i,
{
    if base + i < s.len() && crate::chars::is_digit(s[base + i]) {
        lemma_run_shift(s, base, i + 1);
    }
}

/// The same shift for the search of a closing brace.
pub proof fn lemma_brace_shift(s: Seq<char>, base: int, i: int)
    requires
        0 <= base,
        0 <= i,
        base + i <= s.len(),
    ensures
        brace_end(s, base + i) == base + brace_end(s.skip(base), i),
    decreases s.len() - base - i,
{
    if base + i < s.len() && s[base + i] != '}' {
        lemma_brace_shift(s, base, i + 1);
    }
}

} // verus!
