//! Branches as `git for-each-ref` lists them.

use vstd::prelude::*;

use crate::chars::{chars_eq, chars_to_string, lit, starts_with, str_to_chars, sub_vec};
use crate::chars;

verus! {

#[derive(Debug, Clone, PartialEq, Eq)]
pub struct GitBranch {
    pub name: String,
    pub current: bool,
    pub remote: bool,
    pub upstream: Option<String>,
}

/// Offset of the `k`-th NUL char (counting from 0) in `s`.
pub open spec fn nth_nul(s: Seq<char>, k: nat) -> Option<int>
    decreases s.len(),
{
    if s.len() == 0 {
        None
    } else if s[0] == '\0' {
        if k == 0 {
            Some(0)
        } else {
            match nth_nul(s.drop_first(), (k - 1) as nat) {
                Some(p) => Some(p + 1),
                None => None,
            }
        }
    } else {
        match nth_nul(s.drop_first(), k) {
            Some(p) => Some(p + 1),
            None => None,
        }
    }
}

pub proof fn lemma_nth_nul(s: Seq<char>, k: nat)
    ensures
        nth_nul(s, k) matches Some(p) ==> 0 <= p < s.len(),
        k > 0 && nth_nul(s, k) is Some ==> nth_nul(s, (k - 1) as nat) is Some
            && nth_nul(s, (k - 1) as nat)->0 < nth_nul(s, k)->0,
    decreases s.len(),
{
    if s.len() > 0 {
        if s[0] == '\0' {
            if k > 0 {
                lemma_nth_nul(s.drop_first(), (k - 1) as nat);
            }
        } else {
            lemma_nth_nul(s.drop_first(), k);
        }
    }
}

/// Field `k` of `s` split at NULs (`str::split('\0')`), if there is one.
pub open spec fn nul_field(s: Seq<char>, k: nat) -> Option<Seq<char>> {
    let start = if k == 0 { Some(0int) } else {
        match nth_nul(s, (k - 1) as nat) {
            Some(p) => Some(p + 1),
            None => None,
        }
    };
    match start {
        None => None,
        Some(a) => match nth_nul(s, k) {
            Some(b) => Some(s.subrange(a, b)),
            None => Some(s.skip(a)),
        },
    }
}

pub struct BranchModel {
    pub name: Seq<char>,
    pub current: bool,
    pub remote: bool,
    pub upstream: Option<Seq<char>>,
}

impl GitBranch {
    pub open spec fn model(self) -> BranchModel {
        BranchModel {
            name: self.name@,
            current: self.current,
            remote: self.remote,
            upstream: match self.upstream {
                Some(u) => Some(u@),
                None => None,
            },
        }
    }
}

/// One line of `%(refname:short)%00%(HEAD)%00%(upstream:short)%00%(refname)`:
/// the four fields must be there; `*` marks the current branch, an empty
/// upstream means none, and a full name under `refs/remotes/` a remote one.
pub open spec fn spec_parse_branch(line: Seq<char>) -> Option<BranchModel> {
    match (nul_field(line, 0), nul_field(line, 1), nul_field(line, 2), nul_field(line, 3)) {
        (Some(name), Some(head), Some(up), Some(full)) => Some(BranchModel {
            name,
            current: head == "*"@,
            remote: chars::has_prefix(full, "refs/remotes/"@),
            upstream: if up.len() > 0 { Some(up) } else { None },
        }),
        _ => None,
    }
}

fn find_nth_nul(s: &Vec<char>, k: usize) -> (r: Option<usize>)
    ensures
        match r {
            Some(p) => nth_nul(s@, k as nat) == Some(p as int),
            None => nth_nul(s@, k as nat) is None,
        },
{
    let n = s.len();
    let mut i: usize = 0;
    let mut count: usize = 0;
    assert(s@.skip(0) =~= s@);
    while i < n
        invariant
            i <= n == s@.len(),
            count <= k,
            nth_nul(s@, k as nat) == match nth_nul(s@.skip(i as int), (k - count) as nat) {
                Some(p) => Some(p + i),
                None => None::<int>,
            },
        decreases n - i,
    {
        assert(s@.skip(i as int).drop_first() =~= s@.skip(i + 1));
        if s[i] == '\0' {
            if count == k {
                return Some(i);
            }
            count = count + 1;
        }
        i = i + 1;
    }
    None
}

fn field(s: &Vec<char>, k: usize) -> (r: Option<Vec<char>>)
    ensures
        match r {
            Some(f) => nul_field(s@, k as nat) == Some(f@),
            None => nul_field(s@, k as nat) is None,
        },
{
    let n = s.len();
    proof {
        if k > 0 { lemma_nth_nul(s@, (k - 1) as nat); }
    }
    let start = if k == 0 {
        0
    } else {
        match find_nth_nul(s, k - 1) {
            Some(p) => { assert(p < n); p + 1 },
            None => { return None; },
        }
    };
    proof {
        lemma_nth_nul(s@, k as nat);
        if k > 0 { lemma_nth_nul(s@, (k - 1) as nat); }
    }
    match find_nth_nul(s, k) {
        Some(b) => {
            proof {
                if k > 0 {
                    assert(nth_nul(s@, (k - 1) as nat)->0 < b);
                }
            }
            Some(sub_vec(s, start, b))
        },
        None => {
            let f = sub_vec(s, start, n);
            assert(f@ =~= s@.skip(start as int));
            Some(f)
        },
    }
}

pub fn parse_branch(line: &Vec<char>) -> (r: Option<GitBranch>)
    ensures
        match r {
            Some(b) => spec_parse_branch(line@) == Some(b.model()),
            None => spec_parse_branch(line@) is None,
        },
{
    let name = field(line, 0);
    let head = field(line, 1);
    let up = field(line, 2);
    let full = field(line, 3);
    match (name, head, up, full) {
        (Some(name), Some(head), Some(up), Some(full)) => {
            let star = lit("*");
            let remotes = lit("refs/remotes/");
            let upstream = if up.len() > 0 { Some(chars_to_string(up.as_slice())) } else { None };
            Some(GitBranch {
                name: chars_to_string(name.as_slice()),
                current: chars_eq(&head, &star),
                remote: starts_with(&full, &remotes),
                upstream,
            })
        },
        _ => None,
    }
}

} // verus!
