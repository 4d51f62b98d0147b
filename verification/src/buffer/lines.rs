//! Line-by-line rewrites of a block of text: indenting, commenting, and the
//! formatting applied on save.

use vstd::prelude::*;

use crate::chars::{chars_to_string, has_prefix, push_all, push_range, str_to_chars, trim_bounds};

verus! {

/// The lines of `s`, each with its LF (`str::split_inclusive('\n')`).
pub open spec fn lines_inclusive(s: Seq<char>) -> Seq<Seq<char>>
    decreases s.len(),
{
    if s.len() == 0 {
        Seq::empty()
    } else {
        let k = crate::chars::first_line_len(s);
        if 1 <= k <= s.len() {
            seq![s.take(k as int)] + lines_inclusive(s.skip(k as int))
        } else {
            seq![s]
        }
    }
}

/// Texts joined end to end.
pub open spec fn joined(parts: Seq<Seq<char>>) -> Seq<char>
    decreases parts.len(),
{
    if parts.len() == 0 {
        Seq::empty()
    } else {
        parts[0] + joined(parts.drop_first())
    }
}

/// Number of leading spaces.
pub open spec fn leading_spaces(s: Seq<char>) -> nat
    decreases s.len(),
{
    if s.len() > 0 && s[0] == ' ' { 1 + leading_spaces(s.drop_first()) } else { 0 }
}

/// A line indented by `indent`, or outdented: one leading tab removed, or
/// else as many leading spaces as `indent` has chars (at most).
pub open spec fn shift_line(line: Seq<char>, indent: Seq<char>, outdent: bool) -> Seq<char> {
    if outdent {
        if line.len() > 0 && line[0] == '\t' {
            line.drop_first()
        } else {
            let n = if leading_spaces(line) < indent.len() { leading_spaces(line) } else { indent.len() };
            line.skip(n as int)
        }
    } else {
        indent + line
    }
}

pub open spec fn shift_lines(lines: Seq<Seq<char>>, indent: Seq<char>, outdent: bool) -> Seq<Seq<char>> {
    lines.map_values(|l: Seq<char>| shift_line(l, indent, outdent))
}

/// A block with each line indented or outdented.
pub open spec fn shifted_block(s: Seq<char>, indent: Seq<char>, outdent: bool) -> Seq<char> {
    joined(shift_lines(lines_inclusive(s), indent, outdent))
}

/// A line without its trailing `\r` and `\n` characters, then without its
/// leading spaces and tabs: where a comment token would be.
pub open spec fn spec_comment_body(line: Seq<char>) -> Seq<char> {
    let content = crate::editor::wrap::trim_line_end(line);
    content.skip(crate::buffer::text_buffer::blank_prefix_len(content) as int)
}

pub open spec fn has_suffix(s: Seq<char>, p: Seq<char>) -> bool {
    p.len() <= s.len() && s.skip(s.len() - p.len()) == p
}

/// A line commented with `prefix` (and `suffix`), or uncommented: blank
/// lines stay; indentation and the line ending are kept.
pub open spec fn spec_transform_commented_line(line: Seq<char>, prefix: Seq<char>, suffix: Option<Seq<char>>, uncomment: bool) -> Seq<char> {
    let content = crate::editor::wrap::trim_line_end(line);
    let ending = line.skip(content.len() as int);
    if crate::chars::spec_trim(content).len() == 0 {
        line
    } else {
        let il = crate::buffer::text_buffer::blank_prefix_len(content) as int;
        let indent = content.take(il);
        let body = content.skip(il);
        if uncomment {
            if !has_prefix(body, prefix) {
                line
            } else {
                indent + uncommented(body, prefix, suffix) + ending
            }
        } else {
            indent + commented(body, prefix, suffix) + ending
        }
    }
}

/// A line body without its comment: the prefix and one space after it go,
/// and the suffix and one space before it.
pub open spec fn uncommented(body: Seq<char>, prefix: Seq<char>, suffix: Option<Seq<char>>) -> Seq<char> {
    let b1 = body.skip(prefix.len() as int);
    let b2 = if has_prefix(b1, seq![' ']) { b1.drop_first() } else { b1 };
    match suffix {
        Some(sf) => {
            let x = if has_suffix(b2, sf) { b2.take(b2.len() - sf.len()) } else { b2 };
            if has_suffix(x, seq![' ']) { x.drop_last() } else { x }
        },
        None => b2,
    }
}

/// A line body commented: `prefix body` or `prefix body suffix`.
pub open spec fn commented(body: Seq<char>, prefix: Seq<char>, suffix: Option<Seq<char>>) -> Seq<char> {
    match suffix {
        Some(sf) => prefix + seq![' '] + body + seq![' '] + sf,
        None => prefix + seq![' '] + body,
    }
}

/// Whether every non-blank line is already commented with `prefix`.
pub open spec fn all_commented(lines: Seq<Seq<char>>, prefix: Seq<char>) -> bool {
    forall|i: int|
        0 <= i < lines.len() && crate::chars::spec_trim(#[trigger] lines[i]).len() > 0 ==> has_prefix(
            spec_comment_body(lines[i]),
            prefix,
        )
}

/// A block with line comments toggled: removed where every non-blank line
/// has one, added otherwise.
pub open spec fn toggled_block(s: Seq<char>, prefix: Seq<char>, suffix: Option<Seq<char>>) -> Seq<char> {
    let ls = lines_inclusive(s);
    let u = all_commented(ls, prefix);
    joined(ls.map_values(|l: Seq<char>| spec_transform_commented_line(l, prefix, suffix, u)))
}

/// A line with trailing spaces and tabs removed before its line ending.
pub open spec fn trimmed_line(line: Seq<char>) -> Seq<char> {
    let lf = line.len() > 0 && line.last() == '\n';
    let without_lf = if lf { line.drop_last() } else { line };
    let cr = without_lf.len() > 0 && without_lf.last() == '\r';
    let content = if cr { without_lf.drop_last() } else { without_lf };
    strip_trailing_blanks(content) + (if cr { seq!['\r'] } else { Seq::empty() }) + (if lf { seq!['\n'] } else { Seq::empty() })
}

/// Without trailing spaces and tabs.
pub open spec fn strip_trailing_blanks(s: Seq<char>) -> Seq<char>
    decreases s.len(),
{
    if s.len() > 0 && (s.last() == ' ' || s.last() == '\t') {
        strip_trailing_blanks(s.drop_last())
    } else {
        s
    }
}

/// The text a save writes after formatting: trailing blanks trimmed from
/// every line, and a final line break added to a non-empty text that lacks
/// one.
pub open spec fn save_formatted(s: Seq<char>, trim: bool, final_newline: bool, crlf: bool) -> Seq<char> {
    let t = if trim { joined(lines_inclusive(s).map_values(|l: Seq<char>| trimmed_line(l))) } else { s };
    if final_newline && t.len() > 0 && t.last() != '\n' {
        t + (if crlf { seq!['\r', '\n'] } else { seq!['\n'] })
    } else {
        t
    }
}

pub proof fn lemma_joined_push(parts: Seq<Seq<char>>, p: Seq<char>)
    ensures
        joined(parts.push(p)) == joined(parts) + p,
    decreases parts.len(),
{
    if parts.len() == 0 {
        assert(parts.push(p) =~= seq![p]);
        assert(seq![p].drop_first() =~= Seq::<Seq<char>>::empty());
        assert(joined(seq![p].drop_first()) == Seq::<char>::empty());
        assert(joined(seq![p]) == p + Seq::<char>::empty());
        assert(p + Seq::<char>::empty() =~= p);
        assert(joined(parts) == Seq::<char>::empty());
        assert(Seq::<char>::empty() + p =~= p);
    } else {
        lemma_joined_push(parts.drop_first(), p);
        assert(parts.push(p).drop_first() =~= parts.drop_first().push(p));
        assert(joined(parts.push(p)) =~= joined(parts) + p);
    }
}

/// Splitting at the first line: the lines of `s` are its first line and
/// the lines of the rest.
pub proof fn lemma_lines_step(s: Seq<char>, k: int)
    requires
        s.len() > 0,
        k == crate::chars::first_line_len(s),
    ensures
        1 <= k <= s.len(),
        lines_inclusive(s) == seq![s.take(k)] + lines_inclusive(s.skip(k)),
{
    crate::chars::lemma_first_line_len(s);
}

/// Where the line starting at `i` ends (after its LF, or at the end).
fn line_end_at(s: &Vec<char>, i: usize) -> (e: usize)
    requires
        i < s@.len(),
    ensures
        i < e <= s@.len(),
        e - i == crate::chars::first_line_len(s@.skip(i as int)),
{
    let mut e = i;
    proof { crate::chars::lemma_first_line_len(s@.skip(i as int)); }
    while e < s.len() && s[e] != '\n'
        invariant
            i <= e <= s@.len(),
            crate::chars::first_line_len(s@.skip(i as int)) == (e - i) + crate::chars::first_line_len(s@.skip(e as int)),
        decreases s.len() - e,
    {
        assert(s@.skip(e as int).drop_first() =~= s@.skip(e + 1));
        assert(s@.skip(e as int)[0] == s@[e as int]);
        e = e + 1;
    }
    if e < s.len() {
        assert(s@.skip(e as int)[0] == s@[e as int]);
        e = e + 1;
    } else {
        assert(s@.skip(e as int) =~= Seq::<char>::empty());
    }
    e
}

fn shift_line_exec(line: &Vec<char>, indent: &Vec<char>, outdent: bool) -> (r: Vec<char>)
    ensures
        r@ == shift_line(line@, indent@, outdent),
{
    let mut out: Vec<char> = Vec::new();
    if outdent {
        if line.len() > 0 && line[0] == '\t' {
            push_range(&mut out, line, 1, line.len());
            assert(out@ =~= line@.drop_first());
        } else {
            let mut k: usize = 0;
            assert(line@.skip(0) =~= line@);
            while k < line.len() && line[k] == ' '
                invariant
                    k <= line@.len(),
                    leading_spaces(line@) == k + leading_spaces(line@.skip(k as int)),
                decreases line.len() - k,
            {
                assert(line@.skip(k as int).drop_first() =~= line@.skip(k + 1));
                k = k + 1;
            }
            proof {
                if k < line@.len() {
                    assert(line@.skip(k as int)[0] == line@[k as int]);
                }
            }
            let n = if k < indent.len() { k } else { indent.len() };
            push_range(&mut out, line, n, line.len());
            assert(out@ =~= line@.skip(n as int));
        }
    } else {
        push_all(&mut out, indent);
        push_all(&mut out, line);
    }
    out
}

/// Indents (or outdents) every line of a block.
pub fn shift_block(block: &Vec<char>, indent: &Vec<char>, outdent: bool) -> (r: Vec<char>)
    ensures
        r@ == shifted_block(block@, indent@, outdent),
{
    let mut out: Vec<char> = Vec::new();
    let mut i: usize = 0;
    let ghost all = lines_inclusive(block@);
    let ghost mut done: Seq<Seq<char>> = Seq::empty();
    assert(block@.skip(0) =~= block@);
    while i < block.len()
        invariant
            i <= block@.len(),
            all == lines_inclusive(block@),
            all == done + lines_inclusive(block@.skip(i as int)),
            out@ == joined(shift_lines(done, indent@, outdent)),
        decreases block.len() - i,
    {
        let e = line_end_at(block, i);
        let ghost rest = block@.skip(i as int);
        proof { lemma_lines_step(rest, e - i); }
        let line = crate::chars::sub_vec(block, i, e);
        assert(line@ =~= rest.take(e - i));
        let shifted = shift_line_exec(&line, indent, outdent);
        push_all(&mut out, &shifted);
        proof {
            assert(shift_lines(done.push(line@), indent@, outdent) =~= shift_lines(done, indent@, outdent).push(shifted@));
            lemma_joined_push(shift_lines(done, indent@, outdent), shifted@);
            assert(rest.skip(e - i) =~= block@.skip(e as int));
            assert(done + (seq![line@] + lines_inclusive(block@.skip(e as int))) =~= done.push(line@) + lines_inclusive(block@.skip(e as int)));
            done = done.push(line@);
        }
        i = e;
    }
    assert(block@.skip(i as int) =~= Seq::<char>::empty());
    assert(done =~= all);
    out
}

fn trim_line_end_len(s: &Vec<char>) -> (n: usize)
    ensures
        n <= s@.len(),
        s@.take(n as int) == crate::editor::wrap::trim_line_end(s@),
{
    let mut n = s.len();
    assert(s@.take(n as int) =~= s@);
    while n > 0 && (s[n - 1] == '\r' || s[n - 1] == '\n')
        invariant
            n <= s@.len(),
            crate::editor::wrap::trim_line_end(s@) == crate::editor::wrap::trim_line_end(s@.take(n as int)),
        decreases n,
    {
        assert(s@.take(n as int).drop_last() =~= s@.take(n - 1));
        assert(s@.take(n as int).last() == s@[n - 1]);
        n = n - 1;
    }
    proof {
        if n > 0 {
            assert(s@.take(n as int).last() == s@[n - 1]);
        }
    }
    n
}

fn blank_prefix(s: &Vec<char>, from: usize, to: usize) -> (k: usize)
    requires
        from <= to <= s@.len(),
    ensures
        from <= k <= to,
        k - from == crate::buffer::text_buffer::blank_prefix_len(s@.subrange(from as int, to as int)),
{
    let mut k = from;
    while k < to && (s[k] == ' ' || s[k] == '\t')
        invariant
            from <= k <= to <= s@.len(),
            crate::buffer::text_buffer::blank_prefix_len(s@.subrange(from as int, to as int)) == (k - from)
                + crate::buffer::text_buffer::blank_prefix_len(s@.subrange(k as int, to as int)),
        decreases to - k,
    {
        assert(s@.subrange(k as int, to as int).drop_first() =~= s@.subrange(k + 1, to as int));
        assert(s@.subrange(k as int, to as int)[0] == s@[k as int]);
        k = k + 1;
    }
    proof {
        if k < to {
            assert(s@.subrange(k as int, to as int)[0] == s@[k as int]);
        }
    }
    k
}

/// Where a comment token would be on a line: after leading blanks, before
/// the line ending.
pub fn line_comment_body(line: &str) -> (r: String)
    ensures
        r@ == spec_comment_body(line@),
{
    let s = str_to_chars(line);
    let n = trim_line_end_len(&s);
    let k = blank_prefix(&s, 0, n);
    let mut out: Vec<char> = Vec::new();
    push_range(&mut out, &s, k, n);
    assert(s@.subrange(0, n as int) =~= s@.take(n as int));
    assert(out@ =~= s@.take(n as int).skip(k as int));
    chars_to_string(out.as_slice())
}

fn chars_has_prefix(s: &Vec<char>, from: usize, to: usize, p: &Vec<char>) -> (b: bool)
    requires
        from <= to <= s@.len(),
    ensures
        b == has_prefix(s@.subrange(from as int, to as int), p@),
{
    let part = crate::chars::sub_vec(s, from, to);
    crate::chars::starts_with(&part, p)
}

fn chars_has_suffix(s: &Vec<char>, from: usize, to: usize, p: &Vec<char>) -> (b: bool)
    requires
        from <= to <= s@.len(),
    ensures
        b == has_suffix(s@.subrange(from as int, to as int), p@),
{
    let len = to - from;
    if p.len() > len {
        return false;
    }
    let tail = crate::chars::sub_vec(s, to - p.len(), to);
    assert(tail@ =~= s@.subrange(from as int, to as int).skip(len - p@.len()));
    crate::chars::chars_eq(&tail, p)
}

/// Bounds of the body left once its comment is removed.
fn strip_comment(content: &Vec<char>, from: usize, to: usize, p: &Vec<char>, sf: &Option<Vec<char>>) -> (r: (usize, usize))
    requires
        from <= to <= content@.len(),
        has_prefix(content@.subrange(from as int, to as int), p@),
    ensures
        r.0 <= r.1 <= to,
        content@.subrange(r.0 as int, r.1 as int) == uncommented(
            content@.subrange(from as int, to as int),
            p@,
            match sf {
                Some(x) => Some(x@),
                None => None::<Seq<char>>,
            },
        ),
{
    let ghost body = content@.subrange(from as int, to as int);
    let mut b = from + p.len();
    let e0 = to;
    assert(body.skip(p@.len() as int) =~= content@.subrange(b as int, to as int));
    if b < e0 && content[b] == ' ' {
        proof {
            assert(content@.subrange(b as int, e0 as int)[0] == content@[b as int]);
            assert(content@.subrange(b as int, e0 as int).take(1) =~= seq![' ']);
            assert(content@.subrange(b as int, e0 as int).drop_first() =~= content@.subrange(b + 1, e0 as int));
        }
        b = b + 1;
    } else {
        proof {
            if has_prefix(content@.subrange(b as int, e0 as int), seq![' ']) {
                assert(content@.subrange(b as int, e0 as int).take(1)[0] == content@[b as int]);
            }
        }
    }
    let ghost b2 = content@.subrange(b as int, e0 as int);
    let mut e = e0;
    match sf {
        Some(x) => {
            if chars_has_suffix(content, b, e, x) {
                e = e - x.len();
                assert(content@.subrange(b as int, e as int) =~= b2.take(b2.len() - x@.len()));
            }
            let ghost x2 = content@.subrange(b as int, e as int);
            if e > b && content[e - 1] == ' ' {
                assert(x2.skip(x2.len() - 1) =~= seq![' ']);
                e = e - 1;
                assert(content@.subrange(b as int, e as int) =~= x2.drop_last());
            } else {
                proof {
                    if has_suffix(x2, seq![' ']) {
                        assert(x2.skip(x2.len() - 1)[0] == x2[x2.len() - 1]);
                    }
                }
            }
        },
        None => {},
    }
    (b, e)
}

/// Comments (or uncomments) one line, keeping its indentation and line
/// ending; blank lines, and lines without the comment when uncommenting,
/// stay as they are.
pub fn transform_commented_line(line: &str, prefix: &str, suffix: Option<&str>, uncomment: bool) -> (r: String)
    ensures
        r@ == spec_transform_commented_line(line@, prefix@, match suffix {
            Some(x) => Some(x@),
            None => None,
        }, uncomment),
{
    let s = str_to_chars(line);
    let p = str_to_chars(prefix);
    let sf: Option<Vec<char>> = match suffix {
        Some(x) => Some(str_to_chars(x)),
        None => None,
    };
    let ghost sfv = match suffix {
        Some(x) => Some(x@),
        None => None::<Seq<char>>,
    };
    assert(sfv == match sf {
        Some(x) => Some(x@),
        None => None::<Seq<char>>,
    });
    let n = trim_line_end_len(&s);
    let content = crate::chars::sub_vec(&s, 0, n);
    assert(content@ =~= s@.take(n as int));
    let (ta, tb) = trim_bounds(&content);
    if ta == tb {
        return chars_to_string(s.as_slice());
    }
    let il = blank_prefix(&content, 0, n);
    assert(content@.subrange(0, n as int) =~= content@);
    let ghost indent = content@.take(il as int);
    let ghost body = content@.skip(il as int);
    let ghost ending = s@.skip(n as int);
    assert(body =~= content@.subrange(il as int, n as int));
    assert(ending =~= s@.subrange(n as int, s@.len() as int));
    let mut out: Vec<char> = Vec::new();
    push_range(&mut out, &content, 0, il);
    assert(out@ =~= indent);
    if uncomment {
        if !chars_has_prefix(&content, il, n, &p) {
            return chars_to_string(s.as_slice());
        }
        let (b, e) = strip_comment(&content, il, n, &p, &sf);
        push_range(&mut out, &content, b, e);
        push_range(&mut out, &s, n, s.len());
        assert(out@ =~= indent + uncommented(body, p@, sfv) + ending);
    } else {
        push_all(&mut out, &p);
        out.push(' ');
        push_range(&mut out, &content, il, n);
        match &sf {
            Some(x) => {
                out.push(' ');
                push_all(&mut out, x);
            },
            None => {},
        }
        push_range(&mut out, &s, n, s.len());
        assert(out@ =~= indent + commented(body, p@, sfv) + ending);
    }
    chars_to_string(out.as_slice())
}

/// Splits a block into its lines, each with its LF.
fn block_lines(block: &Vec<char>) -> (r: Vec<Vec<char>>)
    ensures
        r@.map_values(|v: Vec<char>| v@) == lines_inclusive(block@),
{
    let mut out: Vec<Vec<char>> = Vec::new();
    let mut i: usize = 0;
    assert(block@.skip(0) =~= block@);
    while i < block.len()
        invariant
            i <= block@.len(),
            lines_inclusive(block@) == out@.map_values(|v: Vec<char>| v@) + lines_inclusive(block@.skip(i as int)),
        decreases block.len() - i,
    {
        let e = line_end_at(block, i);
        let ghost rest = block@.skip(i as int);
        proof { lemma_lines_step(rest, e - i); }
        let line = crate::chars::sub_vec(block, i, e);
        assert(line@ =~= rest.take(e - i));
        let ghost before = out@;
        out.push(line);
        assert(out@.map_values(|v: Vec<char>| v@) =~= before.map_values(|v: Vec<char>| v@).push(line@));
        assert(rest.skip(e - i) =~= block@.skip(e as int));
        i = e;
    }
    assert(block@.skip(i as int) =~= Seq::<char>::empty());
    assert(out@.map_values(|v: Vec<char>| v@) + Seq::<Seq<char>>::empty() =~= out@.map_values(|v: Vec<char>| v@));
    out
}

/// Toggles line comments on a block: removed where every non-blank line
/// has one, added otherwise.
pub fn toggle_block(block: &Vec<char>, prefix: &str, suffix: Option<&str>) -> (r: Vec<char>)
    ensures
        r@ == toggled_block(block@, prefix@, match suffix {
            Some(x) => Some(x@),
            None => None,
        }),
{
    let ls = block_lines(block);
    let ghost lv = ls@.map_values(|v: Vec<char>| v@);
    let p = str_to_chars(prefix);
    let mut uncomment = true;
    let mut i: usize = 0;
    while i < ls.len()
        invariant
            i <= ls@.len(),
            lv == ls@.map_values(|v: Vec<char>| v@),
            p@ == prefix@,
            uncomment == all_commented(lv.take(i as int), prefix@),
        decreases ls.len() - i,
    {
        let line = &ls[i];
        assert(lv[i as int] == line@);
        let (a, b) = trim_bounds(line);
        let body = str_to_chars(line_comment_body(chars_to_string(line.as_slice()).as_str()).as_str());
        let ok = a == b || crate::chars::starts_with(&body, &p);
        proof {
            let t = lv.take(i + 1);
            if uncomment && ok {
                assert forall|k: int| 0 <= k < t.len() && crate::chars::spec_trim(#[trigger] t[k]).len() > 0 implies has_prefix(spec_comment_body(t[k]), prefix@) by {
                    if k < i {
                        assert(t[k] == lv.take(i as int)[k]);
                    }
                }
            }
            if !ok {
                assert(t[i as int] == line@);
                assert(crate::chars::spec_trim(t[i as int]).len() > 0);
            }
            if !uncomment {
                let k = choose|k: int| 0 <= k < lv.take(i as int).len() && crate::chars::spec_trim(#[trigger] lv.take(i as int)[k]).len() > 0 && !has_prefix(spec_comment_body(lv.take(i as int)[k]), prefix@);
                assert(t[k] == lv.take(i as int)[k]);
            }
        }
        uncomment = uncomment && ok;
        i = i + 1;
    }
    assert(lv.take(i as int) =~= lv);
    let mut out: Vec<char> = Vec::new();
    let ghost sfv = match suffix {
        Some(x) => Some(x@),
        None => None::<Seq<char>>,
    };
    let ghost mapped = lv.map_values(|l: Seq<char>| spec_transform_commented_line(l, prefix@, sfv, uncomment));
    let mut j: usize = 0;
    while j < ls.len()
        invariant
            j <= ls@.len(),
            lv == ls@.map_values(|v: Vec<char>| v@),
            mapped == lv.map_values(|l: Seq<char>| spec_transform_commented_line(l, prefix@, sfv, uncomment)),
            sfv == match suffix {
                Some(x) => Some(x@),
                None => None::<Seq<char>>,
            },
            out@ == joined(mapped.take(j as int)),
        decreases ls.len() - j,
    {
        let t = transform_commented_line(chars_to_string(ls[j].as_slice()).as_str(), prefix, suffix, uncomment);
        assert(t@ == mapped[j as int]);
        let tc = str_to_chars(t.as_str());
        push_all(&mut out, &tc);
        proof {
            assert(mapped.take(j + 1) =~= mapped.take(j as int).push(mapped[j as int]));
            lemma_joined_push(mapped.take(j as int), mapped[j as int]);
        }
        j = j + 1;
    }
    assert(mapped.take(j as int) =~= mapped);
    out
}

fn strip_blanks_end(s: &Vec<char>, from: usize, to: usize) -> (e: usize)
    requires
        from <= to <= s@.len(),
    ensures
        from <= e <= to,
        s@.subrange(from as int, e as int) == strip_trailing_blanks(s@.subrange(from as int, to as int)),
{
    let mut e = to;
    while e > from && (s[e - 1] == ' ' || s[e - 1] == '\t')
        invariant
            from <= e <= to <= s@.len(),
            strip_trailing_blanks(s@.subrange(from as int, to as int)) == strip_trailing_blanks(s@.subrange(from as int, e as int)),
        decreases e,
    {
        assert(s@.subrange(from as int, e as int).drop_last() =~= s@.subrange(from as int, e - 1));
        assert(s@.subrange(from as int, e as int).last() == s@[e - 1]);
        e = e - 1;
    }
    proof {
        if e > from {
            assert(s@.subrange(from as int, e as int).last() == s@[e - 1]);
        }
    }
    e
}

/// The text a save writes after the formatting asked for.
pub fn format_for_save(text: &Vec<char>, trim: bool, final_newline: bool, crlf: bool) -> (r: Vec<char>)
    ensures
        r@ == save_formatted(text@, trim, final_newline, crlf),
{
    let mut out: Vec<char> = Vec::new();
    if trim {
        let ls = block_lines(text);
        let ghost lv = ls@.map_values(|v: Vec<char>| v@);
        let ghost mapped = lv.map_values(|l: Seq<char>| trimmed_line(l));
        let mut j: usize = 0;
        while j < ls.len()
            invariant
                j <= ls@.len(),
                lv == ls@.map_values(|v: Vec<char>| v@),
                mapped == lv.map_values(|l: Seq<char>| trimmed_line(l)),
                out@ == joined(mapped.take(j as int)),
            decreases ls.len() - j,
        {
            let line = &ls[j];
            assert(lv[j as int] == line@);
            let n = line.len();
            let lf = n > 0 && line[n - 1] == '\n';
            let m = if lf { n - 1 } else { n };
            let cr = m > 0 && line[m - 1] == '\r';
            let c = if cr { m - 1 } else { m };
            let e = strip_blanks_end(line, 0, c);
            let ghost before = out@;
            push_range(&mut out, line, 0, e);
            if cr {
                out.push('\r');
            }
            if lf {
                out.push('\n');
            }
            proof {
                let l = line@;
                let without_lf = if lf { l.drop_last() } else { l };
                assert(without_lf =~= l.subrange(0, m as int));
                let content = if cr { without_lf.drop_last() } else { without_lf };
                assert(content =~= l.subrange(0, c as int));
                if lf {
                    assert(l.last() == '\n');
                }
                if cr {
                    assert(without_lf.last() == '\r');
                }
                assert(out@ =~= before + trimmed_line(l));
                assert(mapped.take(j + 1) =~= mapped.take(j as int).push(mapped[j as int]));
                lemma_joined_push(mapped.take(j as int), mapped[j as int]);
            }
            j = j + 1;
        }
        assert(mapped.take(j as int) =~= mapped);
    } else {
        push_all(&mut out, text);
    }
    let ghost t = out@;
    if final_newline && out.len() > 0 && out[out.len() - 1] != '\n' {
        if crlf {
            out.push('\r');
        }
        out.push('\n');
        assert(out@ =~= t + (if crlf { seq!['\r', '\n'] } else { seq!['\n'] }));
    }
    out
}

/// Each range clamped to the text, then replaced, left to right; a range
/// that starts before the end of the one replaced before it, or ends before
/// it starts, is skipped.
pub open spec fn replaced_ranges(t: Seq<char>, ranges: Seq<(int, int)>, i: int, cursor: int, out: Seq<char>, rep: Seq<char>) -> Seq<char>
    decreases ranges.len() - i,
{
    if i < 0 || i >= ranges.len() {
        out + t.subrange(cursor, t.len() as int)
    } else {
        let s = if ranges[i].0 < t.len() { ranges[i].0 } else { t.len() as int };
        let e = if ranges[i].1 < t.len() { ranges[i].1 } else { t.len() as int };
        if s < cursor || s > e {
            replaced_ranges(t, ranges, i + 1, cursor, out, rep)
        } else {
            replaced_ranges(t, ranges, i + 1, e, out + t.subrange(cursor, s) + rep, rep)
        }
    }
}

/// Edits clamped to the text and applied left to right: the text with them
/// applied, and how many were; an edit that starts before the end of the one
/// applied before it, or ends before it starts, is skipped.
pub open spec fn applied_edits(t: Seq<char>, edits: Seq<(int, int, Seq<char>)>, i: int, cursor: int, out: Seq<char>, applied: nat) -> (Seq<char>, nat)
    decreases edits.len() - i,
{
    if i < 0 || i >= edits.len() {
        (out + t.subrange(cursor, t.len() as int), applied)
    } else {
        let s = if edits[i].0 < t.len() { edits[i].0 } else { t.len() as int };
        let e = if edits[i].1 < t.len() { edits[i].1 } else { t.len() as int };
        if s < cursor || s > e {
            applied_edits(t, edits, i + 1, cursor, out, applied)
        } else {
            applied_edits(t, edits, i + 1, e, out + t.subrange(cursor, s) + edits[i].2, applied + 1)
        }
    }
}

/// `a` sorts before `b`: by start, then end.
pub open spec fn edit_before(a: (int, int, Seq<char>), b: (int, int, Seq<char>)) -> bool {
    a.0 < b.0 || (a.0 == b.0 && a.1 < b.1)
}

pub open spec fn edit_insert_index(sorted: Seq<(int, int, Seq<char>)>, x: (int, int, Seq<char>)) -> int
    decreases sorted.len(),
{
    if sorted.len() == 0 {
        0
    } else if edit_before(x, sorted.last()) {
        edit_insert_index(sorted.drop_last(), x)
    } else {
        sorted.len() as int
    }
}

/// Edits sorted by start and end, equal ones keeping their order.
pub open spec fn sort_edits(s: Seq<(int, int, Seq<char>)>) -> Seq<(int, int, Seq<char>)>
    decreases s.len(),
{
    if s.len() == 0 {
        s
    } else {
        let sorted = sort_edits(s.drop_last());
        sorted.insert(edit_insert_index(sorted, s.last()), s.last())
    }
}

} // verus!
