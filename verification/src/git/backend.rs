//! The git command lines the editor runs, and what it makes of their
//! results. Running the processes is left to the caller.

use vstd::prelude::*;

use crate::chars::{chars_to_string, is_whitespace, lit, push_all, str_to_chars, trim_bounds, sub_vec};
use crate::chars;
use super::branch::{parse_branch, GitBranch};
use super::branch;
use super::diff::{DiffTarget, FileDiff};
use super::status::GitStatus;
use vstd::utf8::encode_utf8;

verus! {

#[derive(Debug, Clone, PartialEq, Eq)]
pub struct GitError {
    pub args: Vec<String>,
    pub exit_code: Option<i32>,
    pub stderr: String,
}

pub open spec fn views(v: Seq<String>) -> Seq<Seq<char>> {
    v.map_values(|s: String| s@)
}

/// Texts joined with single spaces.
pub open spec fn join_spaces(parts: Seq<Seq<char>>) -> Seq<char>
    decreases parts.len(),
{
    if parts.len() == 0 {
        Seq::empty()
    } else if parts.len() == 1 {
        parts[0]
    } else {
        join_spaces(parts.drop_last()) + seq![' '] + parts.last()
    }
}

/// How a failed git command is reported: the command, its exit status (or
/// that it could not start) and git's trimmed error output, if any.
pub open spec fn spec_error_message(args: Seq<Seq<char>>, exit_code: Option<i32>, stderr: Seq<char>) -> Seq<char> {
    let detail = chars::spec_trim(stderr);
    let command = if args.len() == 0 { "git"@ } else { "git "@ + join_spaces(args) };
    let exit = match exit_code {
        Some(code) => "exit "@ + chars::signed_text(code as int),
        None => "could not start"@,
    };
    if detail.len() == 0 {
        command + " failed ("@ + exit + ")"@
    } else {
        command + " failed ("@ + exit + "): "@ + detail
    }
}

impl GitError {
    /// The error as one line of text.
    pub fn message(&self) -> (m: String)
        ensures
            m@ == spec_error_message(views(self.args@), self.exit_code, self.stderr@),
    {
        let stderr = str_to_chars(self.stderr.as_str());
        let (a, b) = trim_bounds(&stderr);
        let detail = sub_vec(&stderr, a, b);
        let mut out: Vec<char> = Vec::new();
        let git = lit("git");
        push_all(&mut out, &git);
        let mut i: usize = 0;
        while i < self.args.len()
            invariant
                i <= self.args@.len(),
                git@ == "git"@,
                out@ == (if i == 0 { "git"@ } else { "git "@ + join_spaces(views(self.args@).take(i as int)) }),
            decreases self.args.len() - i,
        {
            let arg = str_to_chars(self.args[i].as_str());
            let ghost prev = views(self.args@).take(i as int);
            let ghost next = views(self.args@).take(i + 1);
            assert(next.drop_last() =~= prev);
            assert(next.last() == self.args@[i as int]@);
            proof { reveal_strlit("git"); reveal_strlit("git "); }
            out.push(' ');
            push_all(&mut out, &arg);
            proof {
                if i == 0 {
                    assert(next.len() == 1);
                    assert(out@ =~= "git "@ + join_spaces(next));
                } else {
                    assert(out@ =~= "git "@ + join_spaces(next));
                }
            }
            i = i + 1;
        }
        assert(views(self.args@).take(i as int) =~= views(self.args@));
        let failed = lit(" failed (");
        push_all(&mut out, &failed);
        match self.exit_code {
            Some(code) => {
                let exit = lit("exit ");
                push_all(&mut out, &exit);
                let digits = str_to_chars(chars::signed_string(code).as_str());
                push_all(&mut out, &digits);
            },
            None => {
                let cannot = lit("could not start");
                push_all(&mut out, &cannot);
            },
        }
        if detail.len() == 0 {
            let close = lit(")");
            push_all(&mut out, &close);
        } else {
            let close = lit("): ");
            push_all(&mut out, &close);
            push_all(&mut out, &detail);
        }
        assert(out@ =~= spec_error_message(views(self.args@), self.exit_code, self.stderr@));
        chars_to_string(out.as_slice())
    }
}

/// Runs git in one repository.
#[derive(Debug, Clone)]
pub struct GitCliBackend {
    root: String,
}

impl GitCliBackend {
    pub closed spec fn spec_root(self) -> Seq<char> {
        self.root@
    }

    pub fn new(root: String) -> (b: Self)
        ensures
            b.spec_root() == root@,
    {
        GitCliBackend { root }
    }

    /// The directory git runs in.
    pub fn root(&self) -> (r: &String)
        ensures
            r@ == self.spec_root(),
    {
        &self.root
    }

    /// Arguments of `git diff` for one path: `--cached` for the staged side.
    pub fn diff_args(target: DiffTarget, path: &String) -> (args: Vec<String>)
        ensures
            views(args@) == (if target == DiffTarget::Staged {
                seq!["diff"@, "--no-ext-diff"@, "--no-color"@, "--cached"@, "--"@, path@]
            } else {
                seq!["diff"@, "--no-ext-diff"@, "--no-color"@, "--"@, path@]
            }),
    {
        let mut args: Vec<String> = Vec::new();
        args.push("diff".to_owned());
        args.push("--no-ext-diff".to_owned());
        args.push("--no-color".to_owned());
        if target == DiffTarget::Staged {
            args.push("--cached".to_owned());
        }
        args.push("--".to_owned());
        args.push(path.clone());
        let ghost v = views(args@);
        assert(v =~= (if target == DiffTarget::Staged {
                seq!["diff"@, "--no-ext-diff"@, "--no-color"@, "--cached"@, "--"@, path@]
            } else {
                seq!["diff"@, "--no-ext-diff"@, "--no-color"@, "--"@, path@]
            }));
        args
    }

    /// Arguments of `git apply` for one hunk's patch, read from stdin:
    /// `--cached` applies it to the index, `--reverse` undoes it.
    pub fn apply_args(cached: bool, reverse: bool) -> (args: Vec<String>)
        ensures
            views(args@) == seq!["apply"@, "--unidiff-zero"@]
                + (if cached { seq!["--cached"@] } else { Seq::empty() })
                + (if reverse { seq!["--reverse"@] } else { Seq::empty() })
                + seq!["-"@],
    {
        let mut args: Vec<String> = Vec::new();
        args.push("apply".to_owned());
        args.push("--unidiff-zero".to_owned());
        let ghost a0 = views(args@);
        if cached {
            args.push("--cached".to_owned());
        }
        let ghost a1 = views(args@);
        if reverse {
            args.push("--reverse".to_owned());
        }
        let ghost a2 = views(args@);
        args.push("-".to_owned());
        assert(views(args@) =~= seq!["apply"@, "--unidiff-zero"@]
                + (if cached { seq!["--cached"@] } else { Seq::empty() })
                + (if reverse { seq!["--reverse"@] } else { Seq::empty() })
                + seq!["-"@]);
        args
    }

    /// A commit needs a message with something other than whitespace; an
    /// empty one is refused before git runs.
    pub fn check_commit_message(message: &str) -> (r: Result<(), GitError>)
        ensures
            r is Ok <==> chars::spec_trim(message@).len() > 0,
            r matches Err(e) ==> views(e.args@) == seq!["commit"@] && e.exit_code is None
                && e.stderr@ == "commit message cannot be empty"@,
    {
        let text = str_to_chars(message);
        let (a, b) = trim_bounds(&text);
        if a == b {
            let mut args: Vec<String> = Vec::new();
            args.push("commit".to_owned());
            return Err(GitError {
                args,
                exit_code: None,
                stderr: "commit message cannot be empty".to_owned(),
            });
        }
        Ok(())
    }
}

/// One run of git: its arguments, and the bytes it reads on stdin.
#[derive(Debug, Clone, PartialEq, Eq)]
pub struct GitInvocation {
    pub args: Vec<String>,
    pub input: Option<Vec<u8>>,
}

impl GitCliBackend {
    /// The git run that commits `message`, which git reads on stdin. An
    /// empty message is refused before git runs, with the error of
    /// `check_commit_message`.
    pub fn commit_invocation(message: &str) -> (r: Result<GitInvocation, GitError>)
        ensures
            r is Ok <==> chars::spec_trim(message@).len() > 0,
            r matches Err(e) ==> views(e.args@) == seq!["commit"@] && e.exit_code is None
                && e.stderr@ == "commit message cannot be empty"@,
            r matches Ok(run) ==> views(run.args@) == seq!["commit"@, "-F"@, "-"@]
                && (run.input matches Some(bytes) && bytes@ == encode_utf8(message@)),
    {
        GitCliBackend::check_commit_message(message)?;
        let mut args: Vec<String> = Vec::new();
        args.push("commit".to_owned());
        args.push("-F".to_owned());
        args.push("-".to_owned());
        let encoded = message.as_bytes();
        let mut bytes: Vec<u8> = Vec::new();
        let mut i: usize = 0;
        while i < encoded.len()
            invariant
                i <= encoded@.len(),
                bytes@ == encoded@.take(i as int),
            decreases encoded.len() - i,
        {
            bytes.push(encoded[i]);
            assert(encoded@.take(i + 1) =~= encoded@.take(i as int).push(encoded@[i as int]));
            i = i + 1;
        }
        assert(encoded@.take(i as int) =~= encoded@);
        proof {
            reveal_strlit("commit");
            reveal_strlit("-F");
            reveal_strlit("-");
            assert(views(args@) =~= seq!["commit"@, "-F"@, "-"@]);
        }
        Ok(GitInvocation { args, input: Some(bytes) })
    }
}


/// Code-point order of texts (what `String`'s `Ord` gives for valid text).
pub open spec fn text_lt(a: Seq<char>, b: Seq<char>) -> bool
    decreases a.len(),
{
    if a.len() == 0 {
        b.len() > 0
    } else if b.len() == 0 {
        false
    } else if (a[0] as u32) != (b[0] as u32) {
        (a[0] as u32) < (b[0] as u32)
    } else {
        text_lt(a.drop_first(), b.drop_first())
    }
}

fn text_less(a: &Vec<char>, b: &Vec<char>) -> (r: bool)
    ensures
        r == text_lt(a@, b@),
{
    let mut i: usize = 0;
    assert(a@.skip(0) =~= a@);
    assert(b@.skip(0) =~= b@);
    while i < a.len() && i < b.len()
        invariant
            i <= a@.len(),
            i <= b@.len(),
            text_lt(a@, b@) == text_lt(a@.skip(i as int), b@.skip(i as int)),
        decreases a.len() - i,
    {
        assert(a@.skip(i as int).drop_first() =~= a@.skip(i + 1));
        assert(b@.skip(i as int).drop_first() =~= b@.skip(i + 1));
        assert(a@.skip(i as int)[0] == a@[i as int]);
        assert(b@.skip(i as int)[0] == b@[i as int]);
        let x = a[i] as u32;
        let y = b[i] as u32;
        if x != y {
            return x < y;
        }
        i = i + 1;
    }
    i == a.len() && i < b.len()
}

/// Branch list order: the current branch first, local before remote, then
/// by name.
pub open spec fn branch_lt(a: branch::BranchModel, b: branch::BranchModel) -> bool {
    if a.current != b.current {
        a.current
    } else if a.remote != b.remote {
        !a.remote
    } else {
        text_lt(a.name, b.name)
    }
}

pub open spec fn branch_models(v: Seq<GitBranch>) -> Seq<branch::BranchModel> {
    v.map_values(|b: GitBranch| b.model())
}

pub open spec fn branch_insert_index(sorted: Seq<branch::BranchModel>, x: branch::BranchModel) -> int
    decreases sorted.len(),
{
    if sorted.len() == 0 {
        0
    } else if branch_lt(x, sorted.last()) {
        branch_insert_index(sorted.drop_last(), x)
    } else {
        sorted.len() as int
    }
}

/// The branches in list order, equal ones keeping their order.
pub open spec fn sort_branches(s: Seq<branch::BranchModel>) -> Seq<branch::BranchModel>
    decreases s.len(),
{
    if s.len() == 0 {
        s
    } else {
        let sorted = sort_branches(s.drop_last());
        sorted.insert(branch_insert_index(sorted, s.last()), s.last())
    }
}

/// The lines of the output that parse as branches.
pub open spec fn parsed_branches(ls: Seq<Seq<char>>) -> Seq<branch::BranchModel>
    decreases ls.len(),
{
    if ls.len() == 0 {
        Seq::empty()
    } else {
        let rest = parsed_branches(ls.drop_last());
        match branch::spec_parse_branch(ls.last()) {
            Some(b) => rest.push(b),
            None => rest,
        }
    }
}

fn branch_less(a: &GitBranch, b: &GitBranch) -> (r: bool)
    ensures
        r == branch_lt(a.model(), b.model()),
{
    if a.current != b.current {
        a.current
    } else if a.remote != b.remote {
        !a.remote
    } else {
        text_less(&str_to_chars(a.name.as_str()), &str_to_chars(b.name.as_str()))
    }
}

fn insert_branch(sorted: &mut Vec<GitBranch>, x: GitBranch)
    ensures
        branch_models(final(sorted)@) == branch_models(old(sorted)@).insert(
            branch_insert_index(branch_models(old(sorted)@), x.model()), x.model()),
{
    let ghost s0 = branch_models(sorted@);
    let mut p = sorted.len();
    assert(s0.take(p as int) =~= s0);
    while p > 0 && branch_less(&x, &sorted[p - 1])
        invariant
            p <= sorted@.len(),
            sorted@ == old(sorted)@,
            s0 == branch_models(sorted@),
            branch_insert_index(s0, x.model()) == branch_insert_index(s0.take(p as int), x.model()),
        decreases p,
    {
        assert(s0.take(p as int).last() == s0[p - 1]);
        assert(s0.take(p as int).drop_last() =~= s0.take(p - 1));
        p = p - 1;
    }
    assert(branch_insert_index(s0.take(p as int), x.model()) == p) by {
        if p > 0 {
            assert(s0.take(p as int).last() == s0[p - 1]);
        }
    }
    sorted.insert(p, x);
    assert(branch_models(sorted@) =~= s0.insert(p as int, x.model()));
}

/// The branches `git for-each-ref` listed, in list order.
pub fn parse_branches(stdout: &[u8]) -> (r: Vec<GitBranch>)
    ensures
        branch_models(r@) == sort_branches(parsed_branches(chars::text_lines(chars::lossy_utf8(stdout@)))),
{
    let text = chars::utf8_lossy(stdout);
    let text_chars = str_to_chars(text.as_str());
    let ls = chars::lines(&text_chars);
    let ghost lv = ls@.map_values(|v: Vec<char>| v@);
    let mut sorted: Vec<GitBranch> = Vec::new();
    let mut i: usize = 0;
    assert(lv.take(0) =~= Seq::<Seq<char>>::empty());
    while i < ls.len()
        invariant
            i <= ls@.len(),
            lv == ls@.map_values(|v: Vec<char>| v@),
            branch_models(sorted@) == sort_branches(parsed_branches(lv.take(i as int))),
        decreases ls.len() - i,
    {
        assert(lv.take(i + 1).drop_last() =~= lv.take(i as int));
        assert(lv.take(i + 1).last() == ls@[i as int]@);
        match parse_branch(&ls[i]) {
            Some(b) => {
                proof {
                    let prev = parsed_branches(lv.take(i as int));
                    assert(parsed_branches(lv.take(i + 1)) == prev.push(b.model()));
                    assert(prev.push(b.model()).drop_last() =~= prev);
                }
                insert_branch(&mut sorted, b);
            },
            None => {},
        }
        i = i + 1;
    }
    assert(lv.take(i as int) =~= lv);
    sorted
}
/// A way to run git for the source-control views. Paths are text.
pub trait GitBackend {
    fn repository_root(&self) -> Result<String, GitError>;

    fn status(&self) -> Result<GitStatus, GitError>;

    fn diff(&self, path: &str, target: DiffTarget) -> Result<FileDiff, GitError>;

    fn stage_file(&self, path: &str) -> Result<(), GitError>;

    fn unstage_file(&self, path: &str) -> Result<(), GitError>;

    fn restore_file(&self, path: &str) -> Result<(), GitError>;

    fn stage_hunk(&self, patch: &str) -> Result<(), GitError>;

    fn unstage_hunk(&self, patch: &str) -> Result<(), GitError>;

    fn restore_hunk(&self, patch: &str) -> Result<(), GitError>;

    fn commit(&self, message: &str) -> Result<(), GitError>;

    fn branches(&self) -> Result<Vec<GitBranch>, GitError>;

    fn switch_branch(&self, branch: &str) -> Result<(), GitError>;

    fn create_branch(&self, branch: &str) -> Result<(), GitError>;

    fn fetch(&self) -> Result<(), GitError>;

    fn pull(&self) -> Result<(), GitError>;

    fn push(&self) -> Result<(), GitError>;
}

} // verus!
