//! What file and workspace searches report, and how a workspace search is
//! asked for.

use vstd::prelude::*;

verus! {

/// A file that matched a fuzzy query, with its score.
#[derive(Debug, Clone, PartialEq, Eq)]
pub struct FileMatch {
    pub path: String,
    pub score: u32,
}

/// How a workspace search runs.
#[derive(Debug, Clone, PartialEq, Eq)]
pub struct WorkspaceSearchOptions {
    pub query: String,
    pub case_sensitive: bool,
    pub whole_word: bool,
    pub regex: bool,
    pub include_globs: Vec<String>,
    pub exclude_globs: Vec<String>,
    pub show_hidden: bool,
    pub respect_gitignore: bool,
    pub include_binary: bool,
}

impl Default for WorkspaceSearchOptions {
    /// An empty, case-insensitive literal search that honours `.gitignore`
    /// and skips hidden and binary files.
    fn default() -> (o: Self)
        ensures
            o.query@ == Seq::<char>::empty(),
            !o.case_sensitive,
            !o.whole_word,
            !o.regex,
            o.include_globs@.len() == 0,
            o.exclude_globs@.len() == 0,
            !o.show_hidden,
            o.respect_gitignore,
            !o.include_binary,
    {
        WorkspaceSearchOptions {
            query: String::new(),
            case_sensitive: false,
            whole_word: false,
            regex: false,
            include_globs: Vec::new(),
            exclude_globs: Vec::new(),
            show_hidden: false,
            respect_gitignore: true,
            include_binary: false,
        }
    }
}

/// A line of a file that matched a workspace search.
#[derive(Debug, Clone, PartialEq, Eq)]
pub struct WorkspaceMatch {
    pub path: String,
    pub line: usize,
    pub column: usize,
    pub line_text: String,
    pub match_start: usize,
    pub match_end: usize,
}

} // verus!
