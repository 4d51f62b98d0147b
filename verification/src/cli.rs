//! The command line: what to open, and where.

use vstd::prelude::*;

use crate::chars::{chars_to_string, parse_usize, str_to_chars};
use crate::paths::{join_path_str, path_components, CompKind};

verus! {

#[derive(Debug, Clone, Copy, PartialEq, Eq, Structural)]
pub enum CliLocale {
    En,
    Ja,
}

/// The command-line options. Paths are text.
#[derive(Debug, Clone)]
pub struct Cli {
    pub path: String,
    pub line: Option<usize>,
    pub column: Option<usize>,
    pub readonly: bool,
    pub no_mouse: bool,
    pub config: Option<String>,
    pub log_file: Option<String>,
    pub log_level: String,
    pub locale: Option<CliLocale>,
    pub safe_mode: bool,
}

/// The workspace to open, and the file and position within it, if any.
#[derive(Debug, Clone)]
pub struct LaunchTarget {
    pub workspace: String,
    pub file: Option<String>,
    pub line: Option<usize>,
    pub column: Option<usize>,
}

/// Why the target could not be resolved.
#[derive(Debug, Clone, PartialEq, Eq)]
pub enum CliError {
    InvalidPath(String),
    Resolve { path: String, message: String },
}

/// What the file system says of the paths the target depends on: whether
/// the path as given exists, whether the path (its position suffix
/// removed) is a directory, whether its parent is one, and the canonical
/// form of the directory that becomes the workspace (or why there is none).
#[derive(Debug)]
pub struct PathFacts {
    pub supplied_exists: bool,
    pub path_is_dir: bool,
    pub parent_is_dir: bool,
    pub workspace: Result<String, String>,
}

/// Index of the last `:` in `s`.
pub open spec fn last_colon(s: Seq<char>) -> Option<int>
    decreases s.len(),
{
    if s.len() == 0 {
        None
    } else if s.last() == ':' {
        Some(s.len() - 1)
    } else {
        last_colon(s.drop_last())
    }
}

/// `path:line` or `path:line:column` split off a path that does not exist
/// as given.
pub open spec fn spec_split_position_suffix(s: Seq<char>, exists: bool) -> (Seq<char>, Option<usize>, Option<usize>) {
    if exists {
        (s, None, None)
    } else {
        match last_colon(s) {
            None => (s, None, None),
            Some(i) => {
                let head = s.take(i);
                let last = crate::chars::spec_parse_usize(s.skip(i + 1));
                let three = match last_colon(head) {
                    Some(j) => match (crate::chars::spec_parse_usize(head.skip(j + 1)), last) {
                        (Some(line), Some(column)) => Some((head.take(j), line, column)),
                        _ => None,
                    },
                    None => None,
                };
                match three {
                    Some((file, line, column)) => (file, Some(line), Some(column)),
                    None => match last {
                        Some(line) => (head, Some(line), None),
                        None => (s, None, None),
                    },
                }
            },
        }
    }
}

fn last_colon_in(s: &Vec<char>, end: usize) -> (r: Option<usize>)
    requires
        end <= s@.len(),
    ensures
        match r {
            Some(i) => last_colon(s@.take(end as int)) == Some(i as int) && i < end,
            None => last_colon(s@.take(end as int)) is None,
        },
{
    let mut k = end;
    while k > 0
        invariant
            k <= end <= s@.len(),
            last_colon(s@.take(end as int)) == last_colon(s@.take(k as int)),
        decreases k,
    {
        assert(s@.take(k as int).last() == s@[k - 1]);
        if s[k - 1] == ':' {
            return Some(k - 1);
        }
        assert(s@.take(k as int).drop_last() =~= s@.take(k - 1));
        k = k - 1;
    }
    None
}

/// Splits a `:line` or `:line:column` suffix off a path that does not
/// exist as given.
pub fn split_position_suffix(path: &str, exists: bool) -> (r: (String, Option<usize>, Option<usize>))
    ensures
        (r.0@, r.1, r.2) == spec_split_position_suffix(path@, exists),
{
    let s = str_to_chars(path);
    if exists {
        return (chars_to_string(s.as_slice()), None, None);
    }
    let n = s.len();
    assert(s@.take(n as int) =~= s@);
    match last_colon_in(&s, n) {
        None => (chars_to_string(s.as_slice()), None, None),
        Some(i) => {
            let last = parse_usize(&s, i + 1, n);
            assert(s@.subrange(i + 1, n as int) =~= s@.skip(i + 1));
            let head = crate::chars::sub_vec(&s, 0, i);
            assert(head@ =~= s@.take(i as int));
            match last_colon_in(&head, i) {
                Some(j) => {
                    assert(head@.take(i as int) =~= head@);
                    let second = parse_usize(&head, j + 1, i);
                    assert(head@.subrange(j + 1, i as int) =~= head@.skip(j + 1));
                    match (second, last) {
                        (Some(line), Some(column)) => {
                            let file = crate::chars::sub_vec(&head, 0, j);
                            assert(file@ =~= head@.take(j as int));
                            return (chars_to_string(file.as_slice()), Some(line), Some(column));
                        },
                        _ => {},
                    }
                },
                None => {
                    assert(head@.take(i as int) =~= head@);
                },
            }
            match last {
                Some(line) => (chars_to_string(head.as_slice()), Some(line), None),
                None => (chars_to_string(s.as_slice()), None, None),
            }
        },
    }
}

/// The parent of a path (`Path::parent`), built from its components: none
/// for the root or an empty path.
pub open spec fn spec_parent_path(s: Seq<char>) -> Option<Seq<char>> {
    let cs = crate::paths::components(s);
    if cs.len() == 0 || cs.last().0 == CompKind::RootDir {
        None
    } else {
        Some(crate::paths::render(cs.drop_last()))
    }
}

fn render_components(cs: &Vec<(CompKind, Vec<char>)>, upto: usize) -> (r: Vec<char>)
    requires
        upto <= cs@.len(),
    ensures
        r@ == crate::paths::render(cs@.take(upto as int).map_values(|c: (CompKind, Vec<char>)| (c.0, c.1@))),
{
    let ghost view = cs@.take(upto as int).map_values(|c: (CompKind, Vec<char>)| (c.0, c.1@));
    let mut out: Vec<char> = Vec::new();
    let root = upto > 0 && cs[0].0 == CompKind::RootDir;
    let mut k: usize = 0;
    if root {
        out.push('/');
        k = 1;
    }
    let ghost body = if root { view.drop_first() } else { view };
    let ghost start = out@;
    let ghost b = if root { 1int } else { 0int };
    assert(body.take(0) =~= Seq::<crate::paths::Comp>::empty());
    while k < upto
        invariant
            root ==> 1 <= k,
            b == (if root { 1int } else { 0int }),
            k <= upto <= cs@.len(),
            view == cs@.take(upto as int).map_values(|c: (CompKind, Vec<char>)| (c.0, c.1@)),
            body == if root { view.drop_first() } else { view },
            out@ == start + crate::paths::join_comps(body.take(k - b)),
        decreases upto - k,
    {
        assert(body.take(k - b + 1).drop_last() =~= body.take(k - b));
        assert(body[k - b] == view[k as int]);
        assert(view[k as int] == (cs@[k as int].0, cs@[k as int].1@));
        if k > (if root { 1 } else { 0 }) {
            out.push('/');
        }
        match cs[k].0 {
            CompKind::Normal => {
                let mut j: usize = 0;
                let ghost mid = out@;
                while j < cs[k].1.len()
                    invariant
                        k < cs@.len(),
                        j <= cs@[k as int].1@.len(),
                        out@ == mid + cs@[k as int].1@.take(j as int),
                    decreases cs@[k as int].1@.len() - j,
                {
                    out.push(cs[k].1[j]);
                    j = j + 1;
                }
                assert(cs@[k as int].1@.take(j as int) =~= cs@[k as int].1@);
            },
            CompKind::ParentDir => {
                out.push('.');
                out.push('.');
            },
            CompKind::CurDir => {
                out.push('.');
            },
            CompKind::RootDir => {},
        }
        assert(out@ =~= start + crate::paths::join_comps(body.take(k - b + 1)));
        k = k + 1;
    }
    assert(body.take(k - b) =~= body);
    assert(out@ =~= crate::paths::render(view));
    out
}

/// The parent of a path; `None` for the root or an empty path.
pub fn parent_path(path: &str) -> (r: Option<String>)
    ensures
        match r {
            Some(p) => spec_parent_path(path@) == Some(p@),
            None => spec_parent_path(path@) is None,
        },
{
    let s = str_to_chars(path);
    let cs = path_components(&s);
    let ghost model = crate::paths::components(s@);
    let n = cs.len();
    if n == 0 || cs[n - 1].0 == CompKind::RootDir {
        return None;
    }
    let r = render_components(&cs, n - 1);
    assert(cs@.take(n - 1).map_values(|c: (CompKind, Vec<char>)| (c.0, c.1@)) =~= model.drop_last());
    Some(chars_to_string(r.as_slice()))
}

/// A path is absolute when it starts at the root.
pub open spec fn is_absolute(s: Seq<char>) -> bool {
    s.len() > 0 && s[0] == '/'
}

pub open spec fn or_else(a: Option<usize>, b: Option<usize>) -> Option<usize> {
    if a is Some { a } else { b }
}

pub open spec fn opt_text(o: Option<String>) -> Option<Seq<char>> {
    match o {
        Some(s) => Some(s@),
        None => None,
    }
}

/// What `resolve_target` yields: the workspace with no file where the path
/// is a directory; else the file, and its parent as workspace where that
/// is a directory; an error otherwise, or where the workspace has no
/// canonical form.
pub open spec fn spec_resolve_target(cli_path: Seq<char>, line: Option<usize>, column: Option<usize>, current_dir: Seq<char>, facts: PathFacts) -> Result<(Seq<char>, Option<Seq<char>>, Option<usize>, Option<usize>), CliErrorModel> {
    let supplied = if is_absolute(cli_path) { cli_path } else { crate::paths::join_path(current_dir, cli_path) };
    let (p, sl, sc) = spec_split_position_suffix(supplied, facts.supplied_exists);
    let l = or_else(line, sl);
    let c = or_else(column, sc);
    if facts.path_is_dir {
        match facts.workspace {
            Ok(w) => Ok((w@, None, l, c)),
            Err(e) => Err(CliErrorModel::Resolve(p, e@)),
        }
    } else {
        match spec_parent_path(p) {
            Some(parent) => if facts.parent_is_dir {
                match facts.workspace {
                    Ok(w) => Ok((w@, Some(p), l, c)),
                    Err(e) => Err(CliErrorModel::Resolve(parent, e@)),
                }
            } else {
                Err(CliErrorModel::InvalidPath(p))
            },
            None => Err(CliErrorModel::InvalidPath(p)),
        }
    }
}

/// A resolution error with its texts as char sequences.
pub enum CliErrorModel {
    InvalidPath(Seq<char>),
    Resolve(Seq<char>, Seq<char>),
}

pub open spec fn target_view(t: LaunchTarget) -> (Seq<char>, Option<Seq<char>>, Option<usize>, Option<usize>) {
    (t.workspace@, opt_text(t.file), t.line, t.column)
}

pub open spec fn error_view(e: CliError) -> CliErrorModel {
    match e {
        CliError::InvalidPath(p) => CliErrorModel::InvalidPath(p@),
        CliError::Resolve { path, message } => CliErrorModel::Resolve(path@, message@),
    }
}

impl CliError {
    /// The error's message.
    pub fn message(&self) -> (r: String)
        ensures
            r@ == match self {
                CliError::InvalidPath(p) => "path does not exist and its parent is unavailable: "@ + p@,
                CliError::Resolve { path, message } => "failed to resolve path "@ + path@ + ": "@ + message@,
            },
    {
        match self {
            CliError::InvalidPath(p) => {
                let mut out = crate::chars::lit("path does not exist and its parent is unavailable: ");
                crate::chars::push_all(&mut out, &str_to_chars(p.as_str()));
                chars_to_string(out.as_slice())
            },
            CliError::Resolve { path, message } => {
                let mut out = crate::chars::lit("failed to resolve path ");
                crate::chars::push_all(&mut out, &str_to_chars(path.as_str()));
                crate::chars::push_all(&mut out, &crate::chars::lit(": "));
                crate::chars::push_all(&mut out, &str_to_chars(message.as_str()));
                chars_to_string(out.as_slice())
            },
        }
    }
}

impl Cli {
    /// The path as given, made absolute against `current_dir`.
    pub fn supplied_path(&self, current_dir: &str) -> (r: String)
        ensures
            r@ == if is_absolute(self.path@) { self.path@ } else { crate::paths::join_path(current_dir@, self.path@) },
    {
        let p = str_to_chars(self.path.as_str());
        if p.len() > 0 && p[0] == '/' {
            self.path.clone()
        } else {
            join_path_str(current_dir, self.path.as_str())
        }
    }

    /// The workspace and file to open, from the path given (with an
    /// optional `:line[:column]` suffix) and what the file system says of
    /// it. `--line` and `--column` win over the suffix.
    pub fn resolve_target(&self, current_dir: &str, facts: &PathFacts) -> (r: Result<LaunchTarget, CliError>)
        ensures
            match r {
                Ok(t) => spec_resolve_target(self.path@, self.line, self.column, current_dir@, *facts) == Ok::<_, CliErrorModel>(target_view(t)),
                Err(e) => spec_resolve_target(self.path@, self.line, self.column, current_dir@, *facts) == Err::<(Seq<char>, Option<Seq<char>>, Option<usize>, Option<usize>), _>(error_view(e)),
            },
    {
        let supplied = self.supplied_path(current_dir);
        let (path, suffix_line, suffix_column) = split_position_suffix(supplied.as_str(), facts.supplied_exists);
        let line = match self.line {
            Some(l) => Some(l),
            None => suffix_line,
        };
        let column = match self.column {
            Some(c) => Some(c),
            None => suffix_column,
        };
        if facts.path_is_dir {
            return match &facts.workspace {
                Ok(w) => Ok(LaunchTarget { workspace: w.clone(), file: None, line, column }),
                Err(e) => Err(CliError::Resolve { path, message: e.clone() }),
            };
        }
        match parent_path(path.as_str()) {
            Some(parent) => {
                if facts.parent_is_dir {
                    match &facts.workspace {
                        Ok(w) => Ok(LaunchTarget { workspace: w.clone(), file: Some(path), line, column }),
                        Err(e) => Err(CliError::Resolve { path: parent, message: e.clone() }),
                    }
                } else {
                    Err(CliError::InvalidPath(path))
                }
            },
            None => Err(CliError::InvalidPath(path)),
        }
    }
}

} // verus!
