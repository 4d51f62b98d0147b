//! Character-sequence helpers shared by the parsers and the buffer logic.

use vstd::prelude::*;

verus! {

/// An ASCII decimal digit.
pub open spec fn is_digit(c: char) -> bool {
    '0' <= c && c <= '9'
}

/// Value of a non-empty run of ASCII digits, most significant first.
pub open spec fn digits_value(s: Seq<char>) -> nat
    decreases s.len(),
{
    if s.len() == 0 {
        0
    } else {
        digits_value(s.drop_last()) * 10 + ((s.last() as int) - ('0' as int)) as nat
    }
}

pub open spec fn all_digits(s: Seq<char>) -> bool {
    forall|i: int| 0 <= i < s.len() ==> is_digit(#[trigger] s[i])
}

/// What `usize::from_str` accepts: an optional `+`, then one or more ASCII
/// digits whose value fits in `usize`.
pub open spec fn spec_parse_usize(s: Seq<char>) -> Option<usize> {
    let d = if s.len() > 0 && s[0] == '+' { s.drop_first() } else { s };
    if d.len() > 0 && all_digits(d) && digits_value(d) <= usize::MAX {
        Some(digits_value(d) as usize)
    } else {
        None
    }
}

pub proof fn lemma_digits_value_prefix(s: Seq<char>, k: int)
    requires
        0 <= k <= s.len(),
        all_digits(s),
    ensures
        digits_value(s.take(k)) <= digits_value(s),
    decreases s.len(),
{
    if k < s.len() {
        assert(s.drop_last().take(k) =~= s.take(k));
        lemma_digits_value_prefix(s.drop_last(), k);
    } else {
        assert(s.take(k) =~= s);
    }
}

/// Parses `s[start..end]` the way `usize::from_str` does.
pub fn parse_usize(s: &Vec<char>, start: usize, end: usize) -> (r: Option<usize>)
    requires
        start <= end <= s@.len(),
    ensures
        r == spec_parse_usize(s@.subrange(start as int, end as int)),
{
    let ghost t = s@.subrange(start as int, end as int);
    let mut i = start;
    if i < end && s[i] == '+' {
        i = i + 1;
    }
    let ghost d = s@.subrange(i as int, end as int);
    assert(d =~= (if t.len() > 0 && t[0] == '+' { t.drop_first() } else { t }));
    if i == end {
        return None;
    }
    let mut value: usize = 0;
    let mut j = i;
    while j < end
        invariant
            start <= i <= j <= end <= s@.len(),
            d == s@.subrange(i as int, end as int),
            t == s@.subrange(start as int, end as int),
            d == (if t.len() > 0 && t[0] == '+' { t.drop_first() } else { t }),
            d.len() > 0,
            all_digits(d.take(j - i)),
            value == digits_value(d.take(j - i)),
        decreases end - j,
    {
        let c = s[j];
        if !('0' <= c && c <= '9') {
            assert(d[j - i] == c);
            return None;
        }
        let digit = (c as u32 - '0' as u32) as usize;
        assert(d.take(j - i + 1).drop_last() =~= d.take(j - i));
        if value > (usize::MAX - digit) / 10 {
            assert(digits_value(d.take(j - i + 1)) > usize::MAX) by {
                assert(value * 10 + digit > usize::MAX) by (nonlinear_arith)
                    requires value > (usize::MAX - digit) / 10, digit <= 9;
            }
            proof {
                assert forall|k: int| 0 <= k < j - i + 1 implies is_digit(#[trigger] d.take(j - i + 1)[k]) by {
                    if k < j - i { assert(d.take(j - i + 1)[k] == d.take(j - i)[k]); }
                }
            }
            if all_digits_in(s, j + 1, end) {
                proof {
                    assert forall|k: int| 0 <= k < d.len() implies is_digit(#[trigger] d[k]) by {
                        if k < j - i + 1 { assert(d[k] == d.take(j - i + 1)[k]); }
                        else {
                            assert(d[k] == s@[i + k]);
                            assert(s@.subrange(j + 1, end as int)[k - (j - i + 1)] == s@[i + k]);
                        }
                    }
                    lemma_digits_value_prefix(d, j - i + 1);
                }
            } else {
                proof {
                    if all_digits(d) {
                        let u = s@.subrange(j + 1, end as int);
                        assert forall|m: int| 0 <= m < u.len() implies is_digit(#[trigger] u[m]) by {
                            assert(u[m] == d[m + (j - i + 1)]);
                        }
                    }
                }
            }
            return None;
        }
        value = value * 10 + digit;
        proof {
            assert forall|k: int| 0 <= k < j - i + 1 implies is_digit(#[trigger] d.take(j - i + 1)[k]) by {
                if k < j - i { assert(d.take(j - i + 1)[k] == d.take(j - i)[k]); }
            }
        }
        j = j + 1;
    }
    assert(d.take(j - i) =~= d);
    Some(value)
}

/// Whether every char of `s[start..end]` is an ASCII digit.
pub fn all_digits_in(s: &Vec<char>, start: usize, end: usize) -> (r: bool)
    requires
        start <= end <= s@.len(),
    ensures
        r == all_digits(s@.subrange(start as int, end as int)),
{
    let mut k = start;
    while k < end
        invariant
            start <= k <= end <= s@.len(),
            forall|m: int| start <= m < k ==> is_digit(#[trigger] s@[m]),
        decreases end - k,
    {
        if !('0' <= s[k] && s[k] <= '9') {
            assert(s@.subrange(start as int, end as int)[k - start] == s@[k as int]);
            return false;
        }
        k = k + 1;
    }
    proof {
        let t = s@.subrange(start as int, end as int);
        assert forall|m: int| 0 <= m < t.len() implies is_digit(#[trigger] t[m]) by {
            assert(t[m] == s@[start + m]);
        }
    }
    true
}

/// The chars of a string slice (`str::chars` collected).
#[verifier::external_body]
pub(crate) fn str_to_chars(s: &str) -> (v: Vec<char>)
    ensures
        v@ == s@,
{
    s.chars().collect()
}

/// A string made of the given chars (`String: FromIterator<char>`).
#[verifier::external_body]
pub(crate) fn chars_to_string(v: &[char]) -> (s: String)
    ensures
        s@ == v@,
{
    v.iter().collect()
}

/// Appends `s[start..end]` to `out`.
pub fn push_range(out: &mut Vec<char>, s: &Vec<char>, start: usize, end: usize)
    requires
        start <= end <= s@.len(),
    ensures
        final(out)@ == old(out)@ + s@.subrange(start as int, end as int),
{
    let mut i = start;
    while i < end
        invariant
            start <= i <= end <= s@.len(),
            out@ == old(out)@ + s@.subrange(start as int, i as int),
        decreases end - i,
    {
        out.push(s[i]);
        assert(s@.subrange(start as int, i + 1) =~= s@.subrange(start as int, i as int).push(s@[i as int]));
        i = i + 1;
    }
}

/// Appends all of `s` to `out`.
pub fn push_all(out: &mut Vec<char>, s: &Vec<char>)
    ensures
        final(out)@ == old(out)@ + s@,
{
    push_range(out, s, 0, s.len());
    assert(s@.subrange(0, s@.len() as int) =~= s@);
}

/// Unicode `White_Space`, which `char::is_whitespace` tests.
pub open spec fn is_ws(c: char) -> bool {
    ('\u{9}' <= c && c <= '\u{d}') || c == ' ' || c == '\u{85}' || c == '\u{a0}'
        || c == '\u{1680}' || ('\u{2000}' <= c && c <= '\u{200a}') || c == '\u{2028}'
        || c == '\u{2029}' || c == '\u{202f}' || c == '\u{205f}' || c == '\u{3000}'
}

pub fn is_whitespace(c: char) -> (b: bool)
    ensures
        b == is_ws(c),
{
    ('\u{9}' <= c && c <= '\u{d}') || c == ' ' || c == '\u{85}' || c == '\u{a0}'
        || c == '\u{1680}' || ('\u{2000}' <= c && c <= '\u{200a}') || c == '\u{2028}'
        || c == '\u{2029}' || c == '\u{202f}' || c == '\u{205f}' || c == '\u{3000}'
}

/// `p` is a prefix of `s`.
pub open spec fn has_prefix(s: Seq<char>, p: Seq<char>) -> bool {
    p.len() <= s.len() && s.take(p.len() as int) == p
}

/// Whether `s` starts with `p`.
pub fn starts_with(s: &Vec<char>, p: &Vec<char>) -> (b: bool)
    ensures
        b == has_prefix(s@, p@),
{
    if p.len() > s.len() {
        return false;
    }
    let mut i: usize = 0;
    while i < p.len()
        invariant
            p@.len() <= s@.len(),
            i <= p@.len(),
            forall|k: int| 0 <= k < i ==> s@[k] == p@[k],
        decreases p.len() - i,
    {
        if s[i] != p[i] {
            assert(s@.take(p@.len() as int)[i as int] != p@[i as int]);
            return false;
        }
        i = i + 1;
    }
    assert(s@.take(p@.len() as int) =~= p@);
    true
}

/// Whether the chars of `s` equal the chars of `t`.
pub fn chars_eq(s: &Vec<char>, t: &Vec<char>) -> (b: bool)
    ensures
        b == (s@ == t@),
{
    if s.len() != t.len() {
        return false;
    }
    let r = starts_with(s, t);
    proof {
        assert(s@.take(t@.len() as int) =~= s@);
    }
    r
}

/// A copy of `s[start..end]`.
pub fn sub_vec(s: &Vec<char>, start: usize, end: usize) -> (v: Vec<char>)
    requires
        start <= end <= s@.len(),
    ensures
        v@ == s@.subrange(start as int, end as int),
{
    let mut v: Vec<char> = Vec::new();
    push_range(&mut v, s, start, end);
    v
}

/// A string of `s[start..end]`.
pub fn sub_string(s: &Vec<char>, start: usize, end: usize) -> (r: String)
    requires
        start <= end <= s@.len(),
    ensures
        r@ == s@.subrange(start as int, end as int),
{
    let v = sub_vec(s, start, end);
    chars_to_string(v.as_slice())
}

/// The chars of a string literal or slice, for comparisons.
pub fn lit(s: &str) -> (v: Vec<char>)
    ensures
        v@ == s@,
{
    str_to_chars(s)
}

/// The name of what `String::from_utf8_lossy` decodes a byte string to.
pub uninterp spec fn lossy_utf8(bytes: Seq<u8>) -> Seq<char>;

/// `String::from_utf8_lossy`, owned: valid UTF-8 comes back decoded
/// unchanged, as std documents; other bytes decode to the named result.
#[verifier::external_body]
pub(crate) fn utf8_lossy(bytes: &[u8]) -> (s: String)
    ensures
        s@ == lossy_utf8(bytes@),
        vstd::utf8::valid_utf8(bytes@) ==> s@ == vstd::utf8::decode_utf8(bytes@),
{
    String::from_utf8_lossy(bytes).into_owned()
}

/// Offset of the first occurrence of `p` in `s`.
pub open spec fn spec_find(s: Seq<char>, p: Seq<char>) -> Option<int>
    decreases s.len(),
{
    if has_prefix(s, p) {
        Some(0)
    } else if s.len() == 0 {
        None
    } else {
        match spec_find(s.drop_first(), p) {
            Some(i) => Some(i + 1),
            None => None,
        }
    }
}

pub proof fn lemma_find_facts(s: Seq<char>, p: Seq<char>)
    ensures
        spec_find(s, p) matches Some(i) ==> 0 <= i && i + p.len() <= s.len() && s.subrange(i, i + p.len()) == p,
    decreases s.len(),
{
    if has_prefix(s, p) {
        assert(s.subrange(0, p.len() as int) =~= s.take(p.len() as int));
    } else if s.len() > 0 {
        lemma_find_facts(s.drop_first(), p);
        if let Some(i) = spec_find(s.drop_first(), p) {
            assert(s.subrange(i + 1, i + 1 + p.len()) =~= s.drop_first().subrange(i, i + p.len()));
        }
    }
}

/// First occurrence of `p` in `s`.
pub fn find(s: &Vec<char>, p: &Vec<char>) -> (r: Option<usize>)
    ensures
        match r {
            Some(i) => spec_find(s@, p@) == Some(i as int),
            None => spec_find(s@, p@) is None,
        },
{
    let n = s.len();
    let mut i: usize = 0;
    assert(s@.skip(0) =~= s@);
    while i < n
        invariant
            i <= n == s@.len(),
            spec_find(s@, p@) == match spec_find(s@.skip(i as int), p@) {
                Some(k) => Some(k + i),
                None => None::<int>,
            },
        decreases n - i,
    {
        let rest = sub_vec(s, i, n);
        assert(rest@ =~= s@.skip(i as int));
        if starts_with(&rest, p) {
            return Some(i);
        }
        assert(s@.skip(i as int).drop_first() =~= s@.skip(i + 1));
        i = i + 1;
    }
    assert(s@.skip(n as int).len() == 0);
    if p.len() == 0 {
        assert(s@.skip(n as int).take(0) =~= p@);
        Some(n)
    } else {
        None
    }
}

/// `str::split_once`: the parts before and after the first `p`.
pub open spec fn spec_split_once(s: Seq<char>, p: Seq<char>) -> Option<(Seq<char>, Seq<char>)> {
    match spec_find(s, p) {
        Some(i) => Some((s.take(i), s.skip(i + p.len()))),
        None => None,
    }
}

pub fn split_once(s: &Vec<char>, p: &Vec<char>) -> (r: Option<(Vec<char>, Vec<char>)>)
    ensures
        match r {
            Some((a, b)) => spec_split_once(s@, p@) == Some((a@, b@)),
            None => spec_split_once(s@, p@) is None,
        },
{
    proof { lemma_find_facts(s@, p@); }
    match find(s, p) {
        Some(i) => {
            assert(spec_find(s@, p@) == Some(i as int));
            let a = sub_vec(s, 0, i);
            let n = s.len();
            let b = sub_vec(s, i + p.len(), n);
            assert(a@ =~= s@.take(i as int));
            assert(b@ =~= s@.skip(i + p@.len()));
            Some((a, b))
        },
        None => None,
    }
}

/// Length of the leading whitespace run.
pub open spec fn lead_ws(s: Seq<char>) -> nat
    decreases s.len(),
{
    if s.len() > 0 && is_ws(s[0]) { 1 + lead_ws(s.drop_first()) } else { 0 }
}

/// Length of the trailing whitespace run.
pub open spec fn trail_ws(s: Seq<char>) -> nat
    decreases s.len(),
{
    if s.len() > 0 && is_ws(s.last()) { 1 + trail_ws(s.drop_last()) } else { 0 }
}

proof fn lemma_ws_bounds(s: Seq<char>)
    ensures
        lead_ws(s) <= s.len(),
        trail_ws(s) <= s.len(),
        lead_ws(s) == s.len() ==> trail_ws(s) == s.len(),
    decreases s.len(),
{
    if s.len() > 0 {
        lemma_ws_bounds(s.drop_first());
        lemma_ws_bounds(s.drop_last());
        if lead_ws(s) == s.len() {
            assert forall|k: int| 0 <= k < s.len() implies is_ws(s[k]) by {
                lemma_lead_ws_all(s, k);
            }
            lemma_all_ws_trail(s);
        }
    }
}

proof fn lemma_lead_ws_all(s: Seq<char>, k: int)
    requires
        0 <= k < lead_ws(s),
    ensures
        k < s.len() && is_ws(s[k]),
    decreases s.len(),
{
    if k > 0 {
        lemma_lead_ws_all(s.drop_first(), k - 1);
    }
}

proof fn lemma_all_ws_trail(s: Seq<char>)
    requires
        forall|k: int| 0 <= k < s.len() ==> is_ws(s[k]),
    ensures
        trail_ws(s) == s.len(),
    decreases s.len(),
{
    if s.len() > 0 {
        assert forall|k: int| 0 <= k < s.drop_last().len() implies is_ws(s.drop_last()[k]) by {
            assert(s.drop_last()[k] == s[k]);
        }
        lemma_all_ws_trail(s.drop_last());
    }
}

/// `str::trim`: without leading and trailing whitespace.
pub open spec fn spec_trim(s: Seq<char>) -> Seq<char> {
    if lead_ws(s) == s.len() {
        Seq::empty()
    } else {
        s.subrange(lead_ws(s) as int, s.len() - trail_ws(s))
    }
}

/// Bounds of `str::trim` within `s`.
pub fn trim_bounds(s: &Vec<char>) -> (r: (usize, usize))
    ensures
        r.0 <= r.1 <= s@.len(),
        s@.subrange(r.0 as int, r.1 as int) == spec_trim(s@),
{
    proof { lemma_ws_bounds(s@); }
    let n = s.len();
    let mut a: usize = 0;
    assert(s@.skip(0) =~= s@);
    while a < n && is_whitespace(s[a])
        invariant
            a <= n == s@.len(),
            lead_ws(s@) == a + lead_ws(s@.skip(a as int)),
        decreases n - a,
    {
        assert(s@.skip(a as int).drop_first() =~= s@.skip(a + 1));
        a = a + 1;
    }
    if a == n {
        return (n, n);
    }
    assert(s@.skip(a as int)[0] == s@[a as int]);
    let mut b: usize = n;
    assert(s@.take(n as int) =~= s@);
    while b > a && is_whitespace(s[b - 1])
        invariant
            a < n == s@.len(),
            a <= b <= n,
            lead_ws(s@) == a,
            !is_ws(s@[a as int]),
            forall|k: int| b <= k < n ==> is_ws(s@[k]),
            trail_ws(s@) == (n - b) + trail_ws(s@.take(b as int)),
        decreases b,
    {
        assert(s@.take(b as int).drop_last() =~= s@.take(b - 1));
        b = b - 1;
    }
    proof {
        if b == a {
            assert(is_ws(s@[a as int]));
        }
        assert(trail_ws(s@.take(b as int)) == 0);
    }
    (a, b)
}

/// The line that `s` starts with, with its LF, or all of `s` if it has none.
pub open spec fn first_line_len(s: Seq<char>) -> nat
    decreases s.len(),
{
    if s.len() == 0 {
        0
    } else if s[0] == '\n' {
        1
    } else {
        1 + first_line_len(s.drop_first())
    }
}

pub proof fn lemma_first_line_len(s: Seq<char>)
    ensures
        first_line_len(s) <= s.len(),
        s.len() > 0 ==> first_line_len(s) >= 1,
    decreases s.len(),
{
    if s.len() > 0 {
        lemma_first_line_len(s.drop_first());
    }
}

/// A line without its line ending: `\n`, or `\r\n`.
pub open spec fn strip_ending(line: Seq<char>) -> Seq<char> {
    if line.len() > 0 && line.last() == '\n' {
        let l = line.drop_last();
        if l.len() > 0 && l.last() == '\r' { l.drop_last() } else { l }
    } else {
        line
    }
}

/// `str::lines`.
pub open spec fn text_lines(s: Seq<char>) -> Seq<Seq<char>>
    decreases s.len(),
{
    if s.len() == 0 {
        Seq::empty()
    } else {
        proof { lemma_first_line_len(s); }
        let l = first_line_len(s) as int;
        seq![strip_ending(s.take(l))] + text_lines(s.skip(l))
    }
}

/// No line of a text is longer than the text.
pub proof fn lemma_text_lines_bound(s: Seq<char>)
    ensures
        forall|k: int| 0 <= k < text_lines(s).len() ==> #[trigger] text_lines(s)[k].len() <= s.len(),
    decreases s.len(),
{
    if s.len() > 0 {
        lemma_first_line_len(s);
        let l = first_line_len(s) as int;
        lemma_text_lines_bound(s.skip(l));
        let rest = text_lines(s.skip(l));
        assert(text_lines(s) == seq![strip_ending(s.take(l))] + rest);
        assert forall|k: int| 0 <= k < text_lines(s).len() implies #[trigger] text_lines(s)[k].len() <= s.len() by {
            if k > 0 {
                assert(text_lines(s)[k] == rest[k - 1]);
            }
        }
    }
}

pub fn lines(s: &Vec<char>) -> (r: Vec<Vec<char>>)
    ensures
        r@.map_values(|v: Vec<char>| v@) == text_lines(s@),
{
    let n = s.len();
    let mut out: Vec<Vec<char>> = Vec::new();
    let mut i: usize = 0;
    assert(s@.skip(0) =~= s@);
    while i < n
        invariant
            i <= n == s@.len(),
            out@.map_values(|v: Vec<char>| v@) + text_lines(s@.skip(i as int)) == text_lines(s@),
        decreases n - i,
    {
        let ghost t = s@.skip(i as int);
        let mut j = i;
        while j < n && s[j] != '\n'
            invariant
                i <= j <= n == s@.len(),
                t == s@.skip(i as int),
                first_line_len(t) == (j - i) + first_line_len(s@.skip(j as int)),
                forall|k: int| i <= k < j ==> s@[k] != '\n',
            decreases n - j,
        {
            assert(s@.skip(j as int).drop_first() =~= s@.skip(j + 1));
            j = j + 1;
        }
        let end = if j < n { j + 1 } else { j };
        assert(first_line_len(t) == end - i) by {
            if j < n {
                assert(s@.skip(j as int)[0] == '\n');
            }
        }
        let mut line_end = end;
        if j < n {
            line_end = j;
            if line_end > i && s[line_end - 1] == '\r' {
                line_end = line_end - 1;
            }
        }
        let line = sub_vec(s, i, line_end);
        proof {
            let tl = t.take(end - i);
            if j < n {
                assert(tl.last() == '\n');
                assert(tl.drop_last() =~= s@.subrange(i as int, j as int));
                if j > i && s@[j - 1] == '\r' {
                    assert(tl.drop_last().drop_last() =~= s@.subrange(i as int, j - 1));
                }
            } else {
                assert(tl =~= s@.subrange(i as int, j as int));
                if tl.len() > 0 {
                    assert(tl.last() == s@[j - 1]);
                }
            }
        }
        assert(line@ =~= strip_ending(t.take(end - i)));
        let ghost before = out@.map_values(|v: Vec<char>| v@);
        out.push(line);
        assert(out@.map_values(|v: Vec<char>| v@) =~= before + seq![line@]);
        assert(t.skip(end - i) =~= s@.skip(end as int));
        assert(text_lines(t) == seq![strip_ending(t.take(end - i))] + text_lines(s@.skip(end as int)));
        i = end;
    }
    assert(s@.skip(n as int) =~= Seq::<char>::empty());
    out
}

/// ASCII letters lowered, everything else kept (`str::to_ascii_lowercase`).
pub open spec fn ascii_lower(s: Seq<char>) -> Seq<char> {
    s.map_values(|c: char| if 'A' <= c && c <= 'Z' { ((c as u32) + 32) as char } else { c })
}

pub fn to_ascii_lower(s: &Vec<char>) -> (r: Vec<char>)
    ensures
        r@ == ascii_lower(s@),
{
    let mut out: Vec<char> = Vec::new();
    let mut i: usize = 0;
    while i < s.len()
        invariant
            i <= s@.len(),
            out@ == ascii_lower(s@.take(i as int)),
        decreases s.len() - i,
    {
        let c = s[i];
        let l = if 'A' <= c && c <= 'Z' { ((c as u32) + 32) as u8 as char } else { c };
        proof {
            if 'A' <= c && c <= 'Z' {
                assert(((c as u32) + 32) as u8 as char == ((c as u32) + 32) as char);
            }
        }
        out.push(l);
        assert(ascii_lower(s@.take(i + 1)) =~= ascii_lower(s@.take(i as int)).push(l));
        i = i + 1;
    }
    assert(s@.take(i as int) =~= s@);
    out
}

/// `p` occurs in `s`.
pub open spec fn contains(s: Seq<char>, p: Seq<char>) -> bool {
    spec_find(s, p) is Some
}

pub fn contains_chars(s: &Vec<char>, p: &str) -> (b: bool)
    ensures
        b == contains(s@, p@),
{
    let pc = str_to_chars(p);
    find(s, &pc).is_some()
}

/// What `str::to_lowercase` makes of a text (full Unicode case mapping).
pub uninterp spec fn lowercase(s: Seq<char>) -> Seq<char>;

/// `str::to_lowercase`.
#[verifier::external_body]
pub(crate) fn to_lowercase(s: &str) -> (r: String)
    ensures
        r@ == lowercase(s@),
{
    s.to_lowercase()
}

/// A decimal digit.
pub open spec fn digit_char(d: nat) -> char {
    ((0x30 + d) as u32) as char
}

/// The decimal text of a number, most significant digit first.
pub open spec fn decimal_text(n: nat) -> Seq<char>
    decreases n,
{
    if n < 10 {
        seq![digit_char(n)]
    } else {
        decimal_text(n / 10).push(digit_char(n % 10))
    }
}

/// The decimal text of a signed number (its `Display`).
pub open spec fn signed_text(v: int) -> Seq<char> {
    if v < 0 { seq!['-'] + decimal_text((-v) as nat) } else { decimal_text(v as nat) }
}

/// Appends the decimal digits of `n`.
pub fn push_decimal(out: &mut Vec<char>, n: u64)
    ensures
        final(out)@ == old(out)@ + decimal_text(n as nat),
    decreases n,
{
    if n >= 10 {
        push_decimal(out, n / 10);
    }
    let d = (n % 10) as u8;
    let c = (0x30u8 + d) as char;
    assert(c == digit_char((n % 10) as nat));
    out.push(c);
}

/// The decimal text of `n`.
pub fn decimal_string(n: u64) -> (s: String)
    ensures
        s@ == decimal_text(n as nat),
{
    let mut out: Vec<char> = Vec::new();
    push_decimal(&mut out, n);
    assert(out@ =~= decimal_text(n as nat));
    chars_to_string(out.as_slice())
}

/// The decimal text of an `i32`, with a leading `-` when negative.
pub fn signed_string(v: i32) -> (s: String)
    ensures
        s@ == signed_text(v as int),
{
    let mut out: Vec<char> = Vec::new();
    if v < 0 {
        out.push('-');
        let magnitude: u64 = if v == i32::MIN { 2147483648 } else { (-v) as u64 };
        push_decimal(&mut out, magnitude);
    } else {
        push_decimal(&mut out, v as u64);
    }
    assert(out@ =~= signed_text(v as int));
    chars_to_string(out.as_slice())
}


/// Bytes of a char in UTF-8 (`char::len_utf8`).
pub open spec fn utf8_width(c: char) -> nat {
    if (c as u32) < 0x80 {
        1
    } else if (c as u32) < 0x800 {
        2
    } else if (c as u32) < 0x10000 {
        3
    } else {
        4
    }
}

pub fn char_utf8_width(c: char) -> (w: usize)
    ensures
        w == utf8_width(c),
{
    let n = c as u32;
    if n < 0x80 {
        1
    } else if n < 0x800 {
        2
    } else if n < 0x10000 {
        3
    } else {
        4
    }
}

/// Chars from index `i` on that start less than `rem` bytes after the start
/// of char `i`.
pub open spec fn chars_within(s: Seq<char>, i: int, rem: int) -> nat
    decreases s.len() - i,
{
    if i < 0 || i >= s.len() || rem <= 0 {
        0
    } else {
        1 + chars_within(s, i + 1, rem - utf8_width(s[i]))
    }
}

/// The number of chars of `s` that start before byte `byte` of its UTF-8
/// text: at a char boundary, the char index of that byte.
pub open spec fn chars_before_byte(s: Seq<char>, byte: int) -> nat {
    chars_within(s, 0, byte)
}

pub proof fn lemma_chars_within_bound(s: Seq<char>, i: int, rem: int)
    requires
        0 <= i <= s.len(),
    ensures
        chars_within(s, i, rem) <= s.len() - i,
    decreases s.len() - i,
{
    if i < s.len() && rem > 0 {
        lemma_chars_within_bound(s, i + 1, rem - utf8_width(s[i]));
    }
}

pub proof fn lemma_chars_within_monotonic(s: Seq<char>, i: int, a: int, b: int)
    requires
        0 <= i <= s.len(),
        a <= b,
    ensures
        chars_within(s, i, a) <= chars_within(s, i, b),
    decreases s.len() - i,
{
    if i < s.len() && a > 0 {
        lemma_chars_within_monotonic(s, i + 1, a - utf8_width(s[i]), b - utf8_width(s[i]));
    }
}

/// The char index of a byte offset of `s`'s UTF-8 text (the chars that
/// start before it).
pub fn char_index_of_byte(s: &Vec<char>, byte: usize) -> (r: usize)
    ensures
        r == chars_before_byte(s@, byte as int),
        r <= s@.len(),
{
    let mut i: usize = 0;
    let mut rem: usize = byte;
    proof {
        lemma_chars_within_bound(s@, 0, byte as int);
    }
    while i < s.len() && rem > 0
        invariant
            i <= s@.len(),
            chars_before_byte(s@, byte as int) == i + chars_within(s@, i as int, rem as int),
        decreases s.len() - i,
    {
        let w = char_utf8_width(s[i]);
        assert(chars_within(s@, i as int, rem as int) == 1 + chars_within(s@, i + 1, rem - w));
        i = i + 1;
        rem = if w >= rem { 0 } else { rem - w };
    }
    i
}

/// The chars of the UTF-8 byte span `start..end` of `s`'s text.
pub open spec fn byte_span_chars(s: Seq<char>, start: int, end: int) -> Seq<char> {
    let a = chars_before_byte(s, start) as int;
    let b = chars_before_byte(s, end) as int;
    if a <= b { s.subrange(a, b) } else { Seq::empty() }
}

pub fn byte_span(s: &Vec<char>, start: usize, end: usize) -> (r: Vec<char>)
    ensures
        r@ == byte_span_chars(s@, start as int, end as int),
{
    let a = char_index_of_byte(s, start);
    let b = char_index_of_byte(s, end);
    if a <= b {
        sub_vec(s, a, b)
    } else {
        Vec::new()
    }
}


/// The bytes of a text made of ASCII chars, one per char.
pub open spec fn ascii_bytes(s: Seq<char>) -> Seq<u8> {
    s.map_values(|c: char| (c as u32) as u8)
}

pub fn ascii_to_bytes(s: &Vec<char>) -> (r: Vec<u8>)
    ensures
        r@ == ascii_bytes(s@),
{
    let mut out: Vec<u8> = Vec::new();
    let mut i: usize = 0;
    while i < s.len()
        invariant
            i <= s@.len(),
            out@ == ascii_bytes(s@.take(i as int)),
        decreases s.len() - i,
    {
        let c = s[i];
        out.push((c as u32) as u8);
        assert(s@.take(i + 1) =~= s@.take(i as int).push(c));
        assert(ascii_bytes(s@.take(i + 1)) =~= ascii_bytes(s@.take(i as int)).push((c as u32) as u8));
        i = i + 1;
    }
    assert(s@.take(i as int) =~= s@);
    out
}

} // verus!
