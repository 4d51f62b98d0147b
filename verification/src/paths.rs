//! Unix paths as their components: how they compare, and their lexical
//! normal form.

use vstd::prelude::*;

verus! {

/// The kinds of path component, in the order in which they sort.
#[derive(Debug, Clone, Copy, PartialEq, Eq, Structural)]
pub enum CompKind {
    RootDir,
    CurDir,
    ParentDir,
    Normal,
}

pub open spec fn kind_rank(k: CompKind) -> int {
    match k {
        CompKind::RootDir => 0,
        CompKind::CurDir => 1,
        CompKind::ParentDir => 2,
        CompKind::Normal => 3,
    }
}

/// A component: its kind, and its name where it is a normal one.
pub type Comp = (CompKind, Seq<char>);

/// The piece of `s` from `i` up to the next `/` (or the end).
pub open spec fn piece_end(s: Seq<char>, i: int) -> int
    decreases s.len() - i,
{
    if 0 <= i < s.len() && s[i] != '/' {
        piece_end(s, i + 1)
    } else {
        i
    }
}

/// The components of the pieces from `i` on; `first` says whether the piece
/// at `i` is the first of a relative path, where `.` counts.
pub open spec fn comps_from(s: Seq<char>, i: int, first: bool) -> Seq<Comp>
    decreases s.len() - i,
{
    if i < 0 || i > s.len() {
        Seq::empty()
    } else {
        let e = piece_end(s, i);
        let piece = s.subrange(i, e);
        let here: Seq<Comp> = if piece.len() == 0 {
            Seq::empty()
        } else if piece == seq!['.'] {
            if first { seq![(CompKind::CurDir, Seq::empty())] } else { Seq::empty() }
        } else if piece == seq!['.', '.'] {
            seq![(CompKind::ParentDir, Seq::empty())]
        } else {
            seq![(CompKind::Normal, piece)]
        };
        if e < s.len() {
            proof { lemma_piece_end(s, i); }
            here + comps_from(s, e + 1, false)
        } else {
            here
        }
    }
}

/// The components of a path, as `Path::components` yields them on Unix.
pub open spec fn components(s: Seq<char>) -> Seq<Comp> {
    if s.len() > 0 && s[0] == '/' {
        seq![(CompKind::RootDir, Seq::<char>::empty())] + comps_from(s, 1, false)
    } else {
        comps_from(s, 0, true)
    }
}

/// Three-way comparison of names, char by char (the order of their UTF-8
/// bytes): -1, 0 or 1.
pub open spec fn name_order(a: Seq<char>, b: Seq<char>) -> int
    decreases a.len(),
{
    if a.len() == 0 {
        if b.len() == 0 { 0 } else { -1 }
    } else if b.len() == 0 {
        1
    } else if a[0] != b[0] {
        if (a[0] as u32) < (b[0] as u32) { -1 } else { 1 }
    } else {
        name_order(a.drop_first(), b.drop_first())
    }
}

pub open spec fn comp_order(a: Comp, b: Comp) -> int {
    if kind_rank(a.0) != kind_rank(b.0) {
        if kind_rank(a.0) < kind_rank(b.0) { -1 } else { 1 }
    } else {
        name_order(a.1, b.1)
    }
}

pub open spec fn comps_order(a: Seq<Comp>, b: Seq<Comp>) -> int
    decreases a.len(),
{
    if a.len() == 0 {
        if b.len() == 0 { 0 } else { -1 }
    } else if b.len() == 0 {
        1
    } else if comp_order(a[0], b[0]) != 0 {
        comp_order(a[0], b[0])
    } else {
        comps_order(a.drop_first(), b.drop_first())
    }
}

/// How two paths compare (`Ord for Path`): component by component.
pub open spec fn path_order(a: Seq<char>, b: Seq<char>) -> int {
    comps_order(components(a), components(b))
}

pub proof fn lemma_piece_end(s: Seq<char>, i: int)
    requires
        0 <= i <= s.len(),
    ensures
        i <= piece_end(s, i) <= s.len(),
        forall|j: int| i <= j < piece_end(s, i) ==> s[j] != '/',
        piece_end(s, i) < s.len() ==> s[piece_end(s, i)] == '/',
    decreases s.len() - i,
{
    if i < s.len() && s[i] != '/' {
        lemma_piece_end(s, i + 1);
    }
}

fn piece_end_at(s: &Vec<char>, i: usize) -> (e: usize)
    requires
        i <= s@.len(),
    ensures
        e == piece_end(s@, i as int),
{
    proof { lemma_piece_end(s@, i as int); }
    let mut e = i;
    while e < s.len() && s[e] != '/'
        invariant
            i <= e <= s@.len(),
            piece_end(s@, i as int) == piece_end(s@, e as int),
        decreases s.len() - e,
    {
        e = e + 1;
    }
    e
}

/// The components of a path, each as its kind and its name.
pub fn path_components(s: &Vec<char>) -> (r: Vec<(CompKind, Vec<char>)>)
    ensures
        r@.len() == components(s@).len(),
        forall|k: int|
            0 <= k < r@.len() ==> (#[trigger] r@[k]).0 == components(s@)[k].0 && r@[k].1@
                == components(s@)[k].1,
{
    let n = s.len();
    let mut out: Vec<(CompKind, Vec<char>)> = Vec::new();
    let mut i: usize = 0;
    let mut first = true;
    let ghost mut done: Seq<Comp> = Seq::empty();
    if n > 0 && s[0] == '/' {
        out.push((CompKind::RootDir, Vec::new()));
        proof { done = seq![(CompKind::RootDir, Seq::<char>::empty())]; }
        i = 1;
        first = false;
    }
    assert(components(s@) == done + comps_from(s@, i as int, first));
    loop
        invariant
            i <= n == s@.len(),
            components(s@) == done + comps_from(s@, i as int, first),
            first ==> i == 0,
            out@.len() == done.len(),
            forall|k: int|
                0 <= k < out@.len() ==> (#[trigger] out@[k]).0 == done[k].0 && out@[k].1@
                    == done[k].1,
        decreases n - i,
    {
        let e = piece_end_at(s, i);
        proof { lemma_piece_end(s@, i as int); }
        let ghost piece = s@.subrange(i as int, e as int);
        let ghost here: Seq<Comp> = if piece.len() == 0 {
            Seq::empty()
        } else if piece == seq!['.'] {
            if first { seq![(CompKind::CurDir, Seq::empty())] } else { Seq::empty() }
        } else if piece == seq!['.', '.'] {
            seq![(CompKind::ParentDir, Seq::empty())]
        } else {
            seq![(CompKind::Normal, piece)]
        };
        let len = e - i;
        if len == 0 {
        } else if len == 1 && s[i] == '.' {
            assert(piece =~= seq!['.']);
            if first {
                out.push((CompKind::CurDir, Vec::new()));
            }
        } else if len == 2 && s[i] == '.' && s[i + 1] == '.' {
            assert(piece =~= seq!['.', '.']);
            out.push((CompKind::ParentDir, Vec::new()));
        } else {
            assert(piece != seq!['.']) by {
                if len == 1 {
                    assert(piece[0] == s@[i as int]);
                }
            }
            assert(piece != seq!['.', '.']) by {
                if len == 2 {
                    assert(piece[0] == s@[i as int]);
                    assert(piece[1] == s@[i + 1]);
                }
            }
            let mut name: Vec<char> = Vec::new();
            let mut j = i;
            while j < e
                invariant
                    i <= j <= e <= n == s@.len(),
                    name@ == s@.subrange(i as int, j as int),
                decreases e - j,
            {
                name.push(s[j]);
                j = j + 1;
            }
            out.push((CompKind::Normal, name));
        }
        proof {
            done = done + here;
        }
        if e >= n {
            assert(components(s@) == done);
            return out;
        }
        i = e + 1;
        first = false;
    }
}

fn kind_rank_of(k: CompKind) -> (r: u8)
    ensures
        r as int == kind_rank(k),
{
    match k {
        CompKind::RootDir => 0,
        CompKind::CurDir => 1,
        CompKind::ParentDir => 2,
        CompKind::Normal => 3,
    }
}

fn name_compare(a: &Vec<char>, b: &Vec<char>) -> (r: i8)
    ensures
        r as int == name_order(a@, b@),
{
    let mut i: usize = 0;
    assert(a@.skip(0) =~= a@);
    assert(b@.skip(0) =~= b@);
    while i < a.len() && i < b.len()
        invariant
            i <= a@.len(),
            i <= b@.len(),
            name_order(a@, b@) == name_order(a@.skip(i as int), b@.skip(i as int)),
        decreases a.len() - i,
    {
        assert(a@.skip(i as int).drop_first() =~= a@.skip(i + 1));
        assert(b@.skip(i as int).drop_first() =~= b@.skip(i + 1));
        let x = a[i];
        let y = b[i];
        assert(a@.skip(i as int)[0] == x);
        assert(b@.skip(i as int)[0] == y);
        if x != y {
            return if (x as u32) < (y as u32) { -1 } else { 1 };
        }
        i = i + 1;
    }
    if i == a.len() {
        if i == b.len() { 0 } else { -1 }
    } else {
        1
    }
}

/// Compares two paths component by component: -1, 0 or 1, as
/// `Path::cmp` orders them.
pub fn compare_paths(a: &Vec<char>, b: &Vec<char>) -> (r: i8)
    ensures
        r as int == path_order(a@, b@),
{
    let ca = path_components(a);
    let cb = path_components(b);
    let ghost sa = components(a@);
    let ghost sb = components(b@);
    let mut i: usize = 0;
    assert(sa.skip(0) =~= sa);
    assert(sb.skip(0) =~= sb);
    while i < ca.len() && i < cb.len()
        invariant
            i <= ca@.len() == sa.len(),
            i <= cb@.len() == sb.len(),
            forall|k: int|
                0 <= k < ca@.len() ==> (#[trigger] ca@[k]).0 == sa[k].0 && ca@[k].1@ == sa[k].1,
            forall|k: int|
                0 <= k < cb@.len() ==> (#[trigger] cb@[k]).0 == sb[k].0 && cb@[k].1@ == sb[k].1,
            path_order(a@, b@) == comps_order(sa.skip(i as int), sb.skip(i as int)),
        decreases ca.len() - i,
    {
        assert(sa.skip(i as int).drop_first() =~= sa.skip(i + 1));
        assert(sb.skip(i as int).drop_first() =~= sb.skip(i + 1));
        assert(sa.skip(i as int)[0] == sa[i as int]);
        assert(sb.skip(i as int)[0] == sb[i as int]);
        let ra = kind_rank_of(ca[i].0);
        let rb = kind_rank_of(cb[i].0);
        let c: i8 = if ra != rb {
            if ra < rb { -1 } else { 1 }
        } else {
            name_compare(&ca[i].1, &cb[i].1)
        };
        assert(c as int == comp_order(sa[i as int], sb[i as int]));
        if c != 0 {
            return c;
        }
        i = i + 1;
    }
    if i == ca.len() {
        if i == cb.len() { 0 } else { -1 }
    } else {
        1
    }
}

/// Lexical normalisation of components: `.` dropped, `..` taking away the
/// normal component before it (and kept where there is none).
pub open spec fn normalize_comps(cs: Seq<Comp>) -> Seq<Comp>
    decreases cs.len(),
{
    if cs.len() == 0 {
        Seq::empty()
    } else {
        let acc = normalize_comps(cs.drop_last());
        let c = cs.last();
        match c.0 {
            CompKind::CurDir => acc,
            CompKind::ParentDir => if acc.len() > 0 && acc.last().0 == CompKind::Normal {
                acc.drop_last()
            } else {
                acc.push(c)
            },
            _ => acc.push(c),
        }
    }
}

/// The text of a component after the root.
pub open spec fn comp_text(c: Comp) -> Seq<char> {
    match c.0 {
        CompKind::Normal => c.1,
        CompKind::ParentDir => seq!['.', '.'],
        CompKind::CurDir => seq!['.'],
        CompKind::RootDir => Seq::empty(),
    }
}

/// Component texts joined by `/`.
pub open spec fn join_comps(cs: Seq<Comp>) -> Seq<char>
    decreases cs.len(),
{
    if cs.len() == 0 {
        Seq::empty()
    } else if cs.len() == 1 {
        comp_text(cs[0])
    } else {
        join_comps(cs.drop_last()).push('/') + comp_text(cs.last())
    }
}

/// A path built from components, as `PathBuf::push` builds it.
pub open spec fn render(cs: Seq<Comp>) -> Seq<char> {
    if cs.len() > 0 && cs[0].0 == CompKind::RootDir {
        seq!['/'] + join_comps(cs.drop_first())
    } else {
        join_comps(cs)
    }
}

/// The lexical normal form of a path.
pub open spec fn normal_form(s: Seq<char>) -> Seq<char> {
    render(normalize_comps(components(s)))
}

/// Normalises a path without touching the file system: `.` components go,
/// and `..` removes the normal component before it.
pub fn normalize_lexically(path: &Vec<char>) -> (r: Vec<char>)
    ensures
        r@ == normal_form(path@),
{
    let comps = path_components(path);
    let ghost cs = components(path@);
    let mut stack: Vec<(CompKind, Vec<char>)> = Vec::new();
    let ghost mut st: Seq<Comp> = Seq::empty();
    let mut i: usize = 0;
    while i < comps.len()
        invariant
            i <= comps@.len() == cs.len(),
            cs == components(path@),
            forall|k: int|
                0 <= k < comps@.len() ==> (#[trigger] comps@[k]).0 == cs[k].0 && comps@[k].1@
                    == cs[k].1,
            st == normalize_comps(cs.take(i as int)),
            stack@.len() == st.len(),
            forall|k: int|
                0 <= k < stack@.len() ==> (#[trigger] stack@[k]).0 == st[k].0 && stack@[k].1@
                    == st[k].1,
        decreases comps.len() - i,
    {
        assert(cs.take(i + 1).drop_last() =~= cs.take(i as int));
        assert(cs.take(i + 1).last() == cs[i as int]);
        let kind = comps[i].0;
        match kind {
            CompKind::CurDir => {},
            CompKind::ParentDir => {
                let n = stack.len();
                if n > 0 && stack[n - 1].0 == CompKind::Normal {
                    stack.pop();
                    proof { st = st.drop_last(); }
                } else {
                    stack.push((CompKind::ParentDir, Vec::new()));
                    proof { st = st.push(cs[i as int]); }
                    assert(cs[i as int].1 =~= Seq::<char>::empty()) by {
                        assert(comps@[i as int].1@ == cs[i as int].1);
                        lemma_parent_name_empty(path@, i as int);
                    }
                }
            },
            _ => {
                let mut name: Vec<char> = Vec::new();
                let mut j: usize = 0;
                while j < comps[i].1.len()
                    invariant
                        i < comps@.len(),
                        j <= comps@[i as int].1@.len(),
                        name@ == comps@[i as int].1@.take(j as int),
                    decreases comps@[i as int].1@.len() - j,
                {
                    name.push(comps[i].1[j]);
                    j = j + 1;
                }
                assert(comps@[i as int].1@.take(j as int) =~= comps@[i as int].1@);
                stack.push((kind, name));
                proof { st = st.push(cs[i as int]); }
            },
        }
        i = i + 1;
    }
    assert(cs.take(i as int) =~= cs);
    let mut out: Vec<char> = Vec::new();
    let mut k: usize = 0;
    let root = stack.len() > 0 && stack[0].0 == CompKind::RootDir;
    if root {
        out.push('/');
        k = 1;
    }
    let ghost body = if root { st.drop_first() } else { st };
    let ghost start = out@;
    assert(body.take(0) =~= Seq::<Comp>::empty());
    while k < stack.len()
        invariant
            root ==> 1 <= k,
            k <= stack@.len() == st.len(),
            body == if root { st.drop_first() } else { st },
            forall|m: int|
                0 <= m < stack@.len() ==> (#[trigger] stack@[m]).0 == st[m].0 && stack@[m].1@
                    == st[m].1,
            out@ == start + join_comps(body.take(k - (if root { 1int } else { 0int }))),
        decreases stack.len() - k,
    {
        let ghost b = if root { 1int } else { 0int };
        let ghost before = out@;
        assert(body.take(k - b + 1).drop_last() =~= body.take(k - b));
        assert(body[k - b] == st[k as int]);
        if k > (if root { 1 } else { 0 }) {
            out.push('/');
        }
        let kind = stack[k].0;
        match kind {
            CompKind::Normal => {
                let mut j: usize = 0;
                let ghost mid = out@;
                while j < stack[k].1.len()
                    invariant
                        k < stack@.len(),
                        j <= stack@[k as int].1@.len(),
                        out@ == mid + stack@[k as int].1@.take(j as int),
                    decreases stack@[k as int].1@.len() - j,
                {
                    out.push(stack[k].1[j]);
                    j = j + 1;
                }
                assert(stack@[k as int].1@.take(j as int) =~= stack@[k as int].1@);
            },
            CompKind::ParentDir => {
                out.push('.');
                out.push('.');
            },
            CompKind::CurDir => {
                out.push('.');
            },
            CompKind::RootDir => {},
        }
        assert(out@ =~= start + join_comps(body.take(k - b + 1)));
        k = k + 1;
    }
    assert(body.take(k - (if root { 1int } else { 0int })) =~= body);
    assert(out@ =~= render(st));
    out
}

/// A `..` component has no name.
pub proof fn lemma_parent_name_empty(s: Seq<char>, k: int)
    requires
        0 <= k < components(s).len(),
        components(s)[k].0 == CompKind::ParentDir,
    ensures
        components(s)[k].1 == Seq::<char>::empty(),
{
    lemma_comps_names(s);
}

/// Only normal components carry a name.
pub proof fn lemma_comps_names(s: Seq<char>)
    ensures
        forall|k: int|
            0 <= k < components(s).len() && (#[trigger] components(s)[k]).0 != CompKind::Normal
                ==> components(s)[k].1 == Seq::<char>::empty(),
{
    if s.len() > 0 && s[0] == '/' {
        lemma_comps_from_names(s, 1, false);
    } else {
        lemma_comps_from_names(s, 0, true);
    }
}

pub proof fn lemma_comps_from_names(s: Seq<char>, i: int, first: bool)
    ensures
        forall|k: int|
            0 <= k < comps_from(s, i, first).len() && (#[trigger] comps_from(s, i, first)[k]).0
                != CompKind::Normal ==> comps_from(s, i, first)[k].1 == Seq::<char>::empty(),
    decreases s.len() - i,
{
    if 0 <= i <= s.len() {
        let e = piece_end(s, i);
        lemma_piece_end(s, i);
        if e < s.len() {
            lemma_comps_from_names(s, e + 1, false);
        }
    }
}

pub proof fn lemma_name_order_zero(a: Seq<char>, b: Seq<char>)
    ensures
        (name_order(a, b) == 0) == (a == b),
    decreases a.len(),
{
    if a.len() > 0 && b.len() > 0 && a[0] == b[0] {
        lemma_name_order_zero(a.drop_first(), b.drop_first());
        if a.drop_first() == b.drop_first() {
            assert(a =~= seq![a[0]] + a.drop_first());
            assert(b =~= seq![b[0]] + b.drop_first());
        }
    } else if a.len() == 0 && b.len() == 0 {
        assert(a =~= b);
    }
}

pub proof fn lemma_comps_order_zero(a: Seq<Comp>, b: Seq<Comp>)
    ensures
        (comps_order(a, b) == 0) == (a == b),
    decreases a.len(),
{
    if a.len() > 0 && b.len() > 0 {
        lemma_name_order_zero(a[0].1, b[0].1);
        if comp_order(a[0], b[0]) == 0 {
            assert(a[0].0 == b[0].0) by {
                assert(kind_rank(a[0].0) == kind_rank(b[0].0));
            }
            assert(a[0] == b[0]);
            lemma_comps_order_zero(a.drop_first(), b.drop_first());
            if a.drop_first() == b.drop_first() {
                assert(a =~= seq![a[0]] + a.drop_first());
                assert(b =~= seq![b[0]] + b.drop_first());
            }
        }
    } else if a.len() == 0 && b.len() == 0 {
        assert(a =~= b);
    }
}

/// Two paths compare equal exactly when they have the same components.
pub proof fn lemma_path_order_zero(a: Seq<char>, b: Seq<char>)
    ensures
        (path_order(a, b) == 0) == (components(a) == components(b)),
{
    lemma_comps_order_zero(components(a), components(b));
}

pub proof fn lemma_name_order_antisymmetric(a: Seq<char>, b: Seq<char>)
    ensures
        name_order(a, b) == -name_order(b, a),
        -1 <= name_order(a, b) <= 1,
    decreases a.len(),
{
    if a.len() > 0 && b.len() > 0 {
        if a[0] == b[0] {
            lemma_name_order_antisymmetric(a.drop_first(), b.drop_first());
        } else {
            lemma_char_u32_distinct(a[0], b[0]);
        }
    }
}

proof fn lemma_char_u32_distinct(x: char, y: char)
    requires
        x != y,
    ensures
        (x as u32) != (y as u32),
{
    vstd::utf8::char_u32_cast(x, x as u32);
    vstd::utf8::char_u32_cast(y, y as u32);
}

proof fn lemma_comp_order_facts(a: Comp, b: Comp, c: Comp)
    ensures
        comp_order(a, b) == -comp_order(b, a),
        -1 <= comp_order(a, b) <= 1,
        (comp_order(a, b) == 0) == (a == b),
        comp_order(a, b) <= 0 && comp_order(b, c) <= 0 ==> comp_order(a, c) <= 0,
{
    lemma_name_order_antisymmetric(a.1, b.1);
    lemma_name_order_zero(a.1, b.1);
    if kind_rank(a.0) == kind_rank(b.0) {
        assert(a.0 == b.0);
    }
    if comp_order(a, b) <= 0 && comp_order(b, c) <= 0 && kind_rank(a.0) == kind_rank(b.0) && kind_rank(b.0)
        == kind_rank(c.0) {
        lemma_name_order_transitive(a.1, b.1, c.1);
    }
}

pub proof fn lemma_name_order_transitive(a: Seq<char>, b: Seq<char>, c: Seq<char>)
    requires
        name_order(a, b) <= 0,
        name_order(b, c) <= 0,
    ensures
        name_order(a, c) <= 0,
    decreases a.len(),
{
    if a.len() > 0 && b.len() > 0 && c.len() > 0 {
        if a[0] == b[0] && b[0] == c[0] {
            lemma_name_order_transitive(a.drop_first(), b.drop_first(), c.drop_first());
        }
    }
}

pub proof fn lemma_comps_order_antisymmetric(a: Seq<Comp>, b: Seq<Comp>)
    ensures
        comps_order(a, b) == -comps_order(b, a),
        -1 <= comps_order(a, b) <= 1,
    decreases a.len(),
{
    if a.len() > 0 && b.len() > 0 {
        lemma_comp_order_facts(a[0], b[0], b[0]);
        if comp_order(a[0], b[0]) == 0 {
            lemma_comps_order_antisymmetric(a.drop_first(), b.drop_first());
        }
    }
}

pub proof fn lemma_comps_order_transitive(a: Seq<Comp>, b: Seq<Comp>, c: Seq<Comp>)
    requires
        comps_order(a, b) <= 0,
        comps_order(b, c) <= 0,
    ensures
        comps_order(a, c) <= 0,
    decreases a.len(),
{
    if a.len() > 0 && b.len() > 0 && c.len() > 0 {
        lemma_comp_order_facts(a[0], b[0], c[0]);
        lemma_comp_order_facts(b[0], c[0], a[0]);
        lemma_comp_order_facts(a[0], c[0], b[0]);
        if comp_order(a[0], b[0]) == 0 && comp_order(b[0], c[0]) == 0 {
            lemma_comps_order_transitive(a.drop_first(), b.drop_first(), c.drop_first());
        }
    }
}

/// Paths compare as a total order on their components: the order is
/// antisymmetric and transitive.
pub proof fn lemma_path_order_total(a: Seq<char>, b: Seq<char>, c: Seq<char>)
    ensures
        path_order(a, b) == -path_order(b, a),
        -1 <= path_order(a, b) <= 1,
        path_order(a, b) <= 0 && path_order(b, c) <= 0 ==> path_order(a, c) <= 0,
        (path_order(a, b) == 0) == (components(a) == components(b)),
{
    lemma_comps_order_antisymmetric(components(a), components(b));
    lemma_path_order_zero(a, b);
    if path_order(a, b) <= 0 && path_order(b, c) <= 0 {
        lemma_comps_order_transitive(components(a), components(b), components(c));
    }
}

/// `root.join(name)`: an absolute name stands alone; otherwise a `/` goes
/// between them unless the root is empty or ends in one.
pub open spec fn join_path(root: Seq<char>, name: Seq<char>) -> Seq<char> {
    if name.len() > 0 && name[0] == '/' {
        name
    } else if root.len() == 0 || root.last() == '/' {
        root + name
    } else {
        root.push('/') + name
    }
}

pub fn join_path_str(root: &str, name: &str) -> (r: String)
    ensures
        r@ == join_path(root@, name@),
{
    let r = crate::chars::str_to_chars(root);
    let n = crate::chars::str_to_chars(name);
    let mut out: Vec<char> = Vec::new();
    if n.len() > 0 && n[0] == '/' {
        return crate::chars::chars_to_string(n.as_slice());
    }
    crate::chars::push_all(&mut out, &r);
    if r.len() > 0 && r[r.len() - 1] != '/' {
        out.push('/');
    }
    crate::chars::push_all(&mut out, &n);
    crate::chars::chars_to_string(out.as_slice())
}

} // verus!
