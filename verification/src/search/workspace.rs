//! The decisions of a workspace search: the expression it looks for, the
//! paths it admits and the matches it reports in a file's text.

use vstd::prelude::*;

use crate::chars::{char_index_of_byte, chars_to_string, lines, lit, push_all, str_to_chars, utf8_lossy};
use crate::pattern::{regex_captures, regex_escape};
use crate::search::results::{WorkspaceMatch, WorkspaceSearchOptions};

verus! {

/// Why a workspace search could not start.
#[derive(Debug, Clone, PartialEq, Eq)]
pub enum WorkspaceSearchError {
    InvalidRegex(String),
    InvalidGlob { glob: String, source: String },
}

impl WorkspaceSearchError {
    /// The message shown for the error.
    pub fn message(&self) -> (r: String)
        ensures
            r@ == match self {
                WorkspaceSearchError::InvalidRegex(e) => "invalid search expression: "@ + e@,
                WorkspaceSearchError::InvalidGlob { glob, source } => "invalid glob `"@ + glob@ + "`: "@
                    + source@,
            },
    {
        let mut out: Vec<char> = Vec::new();
        match self {
            WorkspaceSearchError::InvalidRegex(e) => {
                push_all(&mut out, &lit("invalid search expression: "));
                push_all(&mut out, &str_to_chars(e.as_str()));
            },
            WorkspaceSearchError::InvalidGlob { glob, source } => {
                push_all(&mut out, &lit("invalid glob `"));
                push_all(&mut out, &str_to_chars(glob.as_str()));
                push_all(&mut out, &lit("`: "));
                push_all(&mut out, &str_to_chars(source.as_str()));
            },
        }
        chars_to_string(out.as_slice())
    }
}

/// Whether a glob compiles (`globset::Glob::new`).
pub uninterp spec fn glob_compiles(pattern: Seq<char>) -> bool;

/// Whether a path matches any glob of a set built from `patterns`
/// (`GlobSet::is_match`); `None` where the set does not build.
pub uninterp spec fn glob_set_match(patterns: Seq<Seq<char>>, path: Seq<char>) -> Option<bool>;

/// Compiles one glob; the message of its error where it does not compile.
#[verifier::external_body]
fn glob_check(pattern: &str) -> (r: Result<(), String>)
    ensures
        r is Ok <==> glob_compiles(pattern@),
{
    match globset::Glob::new(pattern) {
        Ok(_) => Ok(()),
        Err(error) => Err(error.to_string()),
    }
}

/// Builds a glob set (`GlobSetBuilder`) and tests a path against it; the
/// message of the error where a glob or the set does not build.
#[verifier::external_body]
fn glob_set_is_match(patterns: &Vec<String>, path: &str) -> (r: Result<bool, String>)
    ensures
        match r {
            Ok(b) => glob_set_match(crate::unicode::views(patterns@), path@) == Some(b),
            Err(_) => glob_set_match(crate::unicode::views(patterns@), path@) is None,
        },
{
    let mut builder = globset::GlobSetBuilder::new();
    for pattern in patterns {
        match globset::Glob::new(pattern) {
            Ok(glob) => {
                builder.add(glob);
            },
            Err(error) => return Err(error.to_string()),
        }
    }
    match builder.build() {
        Ok(set) => Ok(set.is_match(path)),
        Err(error) => Err(error.to_string()),
    }
}

/// The expression a search looks for: the query, escaped unless it is a
/// regular expression, and bounded by word boundaries for whole words.
pub open spec fn spec_matcher_pattern(query: Seq<char>, regex: bool, whole_word: bool) -> Seq<char> {
    let p = if regex { query } else { crate::pattern::regex_escaped(query) };
    if whole_word { "\\b(?:"@ + p + ")\\b"@ } else { p }
}

/// The expression of a search, once it is known to compile (case
/// insensitive unless asked otherwise).
pub fn build_matcher(options: &WorkspaceSearchOptions) -> (r: Result<String, WorkspaceSearchError>)
    ensures
        match r {
            Ok(p) => p@ == spec_matcher_pattern(options.query@, options.regex, options.whole_word)
                && crate::pattern::regex_captures_of(p@, !options.case_sensitive, Seq::empty()) is Some,
            Err(e) => e is InvalidRegex && crate::pattern::regex_captures_of(
                spec_matcher_pattern(options.query@, options.regex, options.whole_word),
                !options.case_sensitive,
                Seq::empty(),
            ) is None,
        },
{
    let base = if options.regex {
        chars_to_string(str_to_chars(options.query.as_str()).as_slice())
    } else {
        regex_escape(options.query.as_str())
    };
    let pattern = if options.whole_word {
        let mut out: Vec<char> = Vec::new();
        push_all(&mut out, &lit("\\b(?:"));
        push_all(&mut out, &str_to_chars(base.as_str()));
        push_all(&mut out, &lit(")\\b"));
        chars_to_string(out.as_slice())
    } else {
        base
    };
    let empty = String::new();
    proof {
        assert(empty@ =~= Seq::<char>::empty());
    }
    match regex_captures(pattern.as_str(), !options.case_sensitive, empty.as_str()) {
        Ok(_) => Ok(pattern),
        Err(message) => Err(WorkspaceSearchError::InvalidRegex(message)),
    }
}

/// `k` is the first of `patterns` that does not compile.
pub open spec fn first_bad_glob(patterns: Seq<Seq<char>>, k: int) -> bool {
    &&& 0 <= k < patterns.len()
    &&& !glob_compiles(patterns[k])
    &&& forall|j: int| 0 <= j < k ==> glob_compiles(#[trigger] patterns[j])
}

/// Every one of `patterns` compiles.
pub open spec fn all_globs_compile(patterns: Seq<Seq<char>>) -> bool {
    forall|k: int| 0 <= k < patterns.len() ==> glob_compiles(#[trigger] patterns[k])
}

/// The patterns joined by commas.
pub open spec fn comma_joined(patterns: Seq<Seq<char>>) -> Seq<char>
    decreases patterns.len(),
{
    if patterns.len() == 0 {
        Seq::empty()
    } else if patterns.len() == 1 {
        patterns[0]
    } else {
        comma_joined(patterns.drop_last()) + seq![','] + patterns.last()
    }
}

/// A list of globs, checked: none for an empty list. The first glob that
/// does not compile is reported; where each compiles but the set does not
/// build, the whole list is reported, joined by commas.
pub fn build_globs(patterns: &Vec<String>) -> (r: Result<Option<Vec<String>>, WorkspaceSearchError>)
    ensures
        ({
            let ps = crate::unicode::views(patterns@);
            &&& (r == Ok::<Option<Vec<String>>, WorkspaceSearchError>(None)) <==> ps.len() == 0
            &&& r is Err <==> ps.len() > 0 && (!all_globs_compile(ps) || glob_set_match(ps, Seq::empty()) is None)
            &&& match r {
                Ok(None) => true,
                Ok(Some(v)) => crate::unicode::views(v@) == ps,
                Err(e) => match e {
                    WorkspaceSearchError::InvalidGlob { glob, .. } => if all_globs_compile(ps) {
                        glob@ == comma_joined(ps)
                    } else {
                        exists|k: int| first_bad_glob(ps, k) && glob@ == ps[k]
                    },
                    WorkspaceSearchError::InvalidRegex(_) => false,
                },
            }
        }),
{
    let ghost ps = crate::unicode::views(patterns@);
    if patterns.len() == 0 {
        return Ok(None);
    }
    let mut i: usize = 0;
    while i < patterns.len()
        invariant
            i <= patterns@.len(),
            ps == crate::unicode::views(patterns@),
            forall|k: int| 0 <= k < i ==> glob_compiles(#[trigger] ps[k]),
        decreases patterns.len() - i,
    {
        match glob_check(patterns[i].as_str()) {
            Ok(()) => {},
            Err(source) => {
                let glob = chars_to_string(str_to_chars(patterns[i].as_str()).as_slice());
                assert(first_bad_glob(ps, i as int));
                assert(!all_globs_compile(ps)) by {
                    assert(!glob_compiles(ps[i as int]));
                }
                return Err(WorkspaceSearchError::InvalidGlob { glob, source });
            },
        }
        i = i + 1;
    }
    assert(all_globs_compile(ps));
    let empty = String::new();
    proof {
        assert(empty@ =~= Seq::<char>::empty());
    }
    match glob_set_is_match(patterns, empty.as_str()) {
        Ok(_) => {},
        Err(source) => {
            let mut joined: Vec<char> = Vec::new();
            let mut k: usize = 0;
            while k < patterns.len()
                invariant
                    k <= patterns@.len(),
                    ps == crate::unicode::views(patterns@),
                    joined@ == comma_joined(ps.take(k as int)),
                decreases patterns.len() - k,
            {
                proof {
                    assert(ps.take(k + 1).drop_last() =~= ps.take(k as int));
                    assert(ps.take(k + 1).last() == patterns@[k as int]@);
                    if k == 0 {
                        assert(ps.take(1)[0] == patterns@[0]@);
                    }
                }
                if k > 0 {
                    joined.push(',');
                }
                push_all(&mut joined, &str_to_chars(patterns[k].as_str()));
                proof {
                    if k == 0 {
                        assert(joined@ =~= comma_joined(ps.take(1)));
                    }
                }
                k = k + 1;
            }
            assert(ps.take(k as int) =~= ps);
            return Err(WorkspaceSearchError::InvalidGlob { glob: chars_to_string(joined.as_slice()), source });
        },
    }
    let mut copy: Vec<String> = Vec::new();
    let mut j: usize = 0;
    while j < patterns.len()
        invariant
            j <= patterns@.len(),
            ps == crate::unicode::views(patterns@),
            crate::unicode::views(copy@) == ps.take(j as int),
        decreases patterns.len() - j,
    {
        let ghost before = copy@;
        copy.push(chars_to_string(str_to_chars(patterns[j].as_str()).as_slice()));
        assert(crate::unicode::views(copy@) =~= crate::unicode::views(before).push(patterns@[j as int]@));
        assert(ps.take(j + 1) =~= ps.take(j as int).push(patterns@[j as int]@));
        j = j + 1;
    }
    assert(ps.take(j as int) =~= ps);
    Ok(Some(copy))
}

/// A path is searched when it matches an include glob (if there are any)
/// and no exclude glob.
pub open spec fn spec_path_allowed(
    path: Seq<char>,
    includes: Option<Seq<Seq<char>>>,
    excludes: Option<Seq<Seq<char>>>,
) -> bool {
    (match includes {
        Some(p) => glob_set_match(p, path) == Some(true),
        None => true,
    }) && (match excludes {
        Some(p) => glob_set_match(p, path) != Some(true),
        None => true,
    })
}

pub open spec fn opt_views(v: Option<Vec<String>>) -> Option<Seq<Seq<char>>> {
    match v {
        Some(p) => Some(crate::unicode::views(p@)),
        None => None,
    }
}

/// Whether a path (relative to the workspace) is searched.
pub fn path_allowed(path: &str, includes: &Option<Vec<String>>, excludes: &Option<Vec<String>>) -> (r: bool)
    ensures
        r == spec_path_allowed(path@, opt_views(*includes), opt_views(*excludes)),
{
    let included = match includes {
        Some(p) => match glob_set_is_match(p, path) {
            Ok(b) => b,
            Err(_) => false,
        },
        None => true,
    };
    if !included {
        return false;
    }
    match excludes {
        Some(p) => match glob_set_is_match(p, path) {
            Ok(b) => !b,
            Err(_) => true,
        },
        None => true,
    }
}

/// A match as plain values: path, line, column, line text, byte span.
pub open spec fn match_view(m: WorkspaceMatch) -> (Seq<char>, int, int, Seq<char>, int, int) {
    (m.path@, m.line as int, m.column as int, m.line_text@, m.match_start as int, m.match_end as int)
}

pub open spec fn match_views(v: Seq<WorkspaceMatch>) -> Seq<(Seq<char>, int, int, Seq<char>, int, int)> {
    v.map_values(|m: WorkspaceMatch| match_view(m))
}

/// The matches found in line `index` (from 0) of a file.
pub open spec fn line_matches(path: Seq<char>, index: int, line: Seq<char>, ms: Seq<Seq<Option<(usize, usize)>>>) -> Seq<
    (Seq<char>, int, int, Seq<char>, int, int),
>
    decreases ms.len(),
{
    if ms.len() == 0 {
        Seq::empty()
    } else {
        let r = line_matches(path, index, line, ms.drop_last());
        match crate::terminal::links::group(ms.last(), 0) {
            Some((s, e)) => r.push(
                (path, index + 1, crate::chars::chars_before_byte(line, s as int) as int + 1, line, s as int, e as int),
            ),
            None => r,
        }
    }
}

/// The matches of an expression in the lines of a file, line by line.
pub open spec fn text_matches(path: Seq<char>, ls: Seq<Seq<char>>, pattern: Seq<char>, case_insensitive: bool) -> Seq<
    (Seq<char>, int, int, Seq<char>, int, int),
>
    decreases ls.len(),
{
    if ls.len() == 0 {
        Seq::empty()
    } else {
        text_matches(path, ls.drop_last(), pattern, case_insensitive) + match crate::pattern::regex_captures_of(
            pattern,
            case_insensitive,
            ls.last(),
        ) {
            Some(ms) => line_matches(path, ls.len() - 1, ls.last(), ms),
            None => Seq::empty(),
        }
    }
}

fn push_line_matches(
    path: &str,
    index: usize,
    line: &Vec<char>,
    pattern: &str,
    case_insensitive: bool,
    output: &mut Vec<WorkspaceMatch>,
)
    requires
        index < usize::MAX,
        line@.len() < usize::MAX,
    ensures
        match_views(final(output)@) == match_views(old(output)@) + match crate::pattern::regex_captures_of(
            pattern@,
            case_insensitive,
            line@,
        ) {
            Some(ms) => line_matches(path@, index as int, line@, ms),
            None => Seq::empty(),
        },
{
    let text = chars_to_string(line.as_slice());
    let ms = match regex_captures(pattern, case_insensitive, text.as_str()) {
        Ok(ms) => ms,
        Err(_) => {
            assert(match_views(output@) =~= match_views(output@) + Seq::empty());
            return;
        },
    };
    let ghost gv = crate::pattern::groups_view(ms@);
    let ghost start = match_views(output@);
    let mut i: usize = 0;
    assert(gv.take(0) =~= Seq::<Seq<Option<(usize, usize)>>>::empty());
    assert(match_views(output@) =~= start + line_matches(path@, index as int, line@, gv.take(0)));
    while i < ms.len()
        invariant
            i <= ms@.len(),
            index < usize::MAX,
            line@.len() < usize::MAX,
            text@ == line@,
            gv == crate::pattern::groups_view(ms@),
            match_views(output@) == start + line_matches(path@, index as int, line@, gv.take(i as int)),
        decreases ms.len() - i,
    {
        assert(gv.take(i + 1).drop_last() =~= gv.take(i as int));
        assert(gv.take(i + 1).last() == ms@[i as int]@);
        let groups = &ms[i];
        if groups.len() > 0 {
            match groups[0] {
                Some((s, e)) => {
                    let column = char_index_of_byte(line, s);
                    let ghost before = output@;
                    output.push(
                        WorkspaceMatch {
                            path: chars_to_string(str_to_chars(path).as_slice()),
                            line: index + 1,
                            column: column + 1,
                            line_text: chars_to_string(line.as_slice()),
                            match_start: s,
                            match_end: e,
                        },
                    );
                    assert(match_views(output@) =~= match_views(before).push(match_view(output@.last())));
                },
                None => {},
            }
        }
        i = i + 1;
    }
    assert(gv.take(i as int) =~= gv);
}

/// Appends the matches of `pattern` in `text` (read line by line) to
/// `output`, for the file at `path`.
pub fn search_text(path: &str, text: &str, pattern: &str, case_insensitive: bool, output: &mut Vec<WorkspaceMatch>)
    requires
        text@.len() < usize::MAX,
    ensures
        match_views(final(output)@) == match_views(old(output)@) + text_matches(
            path@,
            crate::chars::text_lines(text@),
            pattern@,
            case_insensitive,
        ),
{
    let ls = lines(&str_to_chars(text));
    let ghost lv = ls@.map_values(|v: Vec<char>| v@);
    let ghost start = match_views(output@);
    proof {
        crate::chars::lemma_text_lines_bound(text@);
        assert(lv.take(0) =~= Seq::<Seq<char>>::empty());
        assert(match_views(output@) =~= start + text_matches(path@, lv.take(0), pattern@, case_insensitive));
    }
    let mut i: usize = 0;
    while i < ls.len()
        invariant
            i <= ls@.len(),
            text@.len() < usize::MAX,
            lv == ls@.map_values(|v: Vec<char>| v@),
            lv == crate::chars::text_lines(text@),
            forall|k: int| 0 <= k < lv.len() ==> #[trigger] lv[k].len() <= text@.len(),
            match_views(output@) == start + text_matches(path@, lv.take(i as int), pattern@, case_insensitive),
        decreases ls.len() - i,
    {
        assert(lv[i as int] == ls@[i as int]@);
        assert(lv.take(i + 1).drop_last() =~= lv.take(i as int));
        assert(lv.take(i + 1).last() == lv[i as int]);
        push_line_matches(path, i, &ls[i], pattern, case_insensitive, output);
        assert(match_views(output@) =~= start + text_matches(path@, lv.take(i + 1), pattern@, case_insensitive));
        i = i + 1;
    }
    assert(lv.take(i as int) =~= lv);
}

/// Whether a file's bytes are searched: text always, binary (holding a NUL
/// byte) only when asked.
pub open spec fn spec_searchable(bytes: Seq<u8>, include_binary: bool) -> bool {
    include_binary || !bytes.contains(0u8)
}

/// Appends the matches in a file's bytes, decoded lossily, unless it is a
/// binary file that the search skips (or a text too long to count lines
/// and columns in). Says whether it searched.
pub fn search_file_bytes(
    path: &str,
    bytes: &[u8],
    include_binary: bool,
    pattern: &str,
    case_insensitive: bool,
    output: &mut Vec<WorkspaceMatch>,
) -> (searched: bool)
    ensures
        searched == (spec_searchable(bytes@, include_binary) && crate::chars::lossy_utf8(bytes@).len() < usize::MAX),
        match_views(final(output)@) == match_views(old(output)@) + if searched {
            text_matches(
                path@,
                crate::chars::text_lines(crate::chars::lossy_utf8(bytes@)),
                pattern@,
                case_insensitive,
            )
        } else {
            Seq::empty()
        },
{
    if !include_binary {
        let mut k: usize = 0;
        while k < bytes.len()
            invariant
                k <= bytes@.len(),
                !include_binary,
                forall|j: int| 0 <= j < k ==> bytes@[j] != 0u8,
            decreases bytes.len() - k,
        {
            if bytes[k] == 0 {
                assert(bytes@[k as int] == 0u8);
                assert(bytes@.contains(0u8));
                assert(match_views(output@) =~= match_views(output@) + Seq::empty());
                return false;
            }
            k = k + 1;
        }
        assert(!bytes@.contains(0u8));
    }
    let text = utf8_lossy(bytes);
    if str_to_chars(text.as_str()).len() == usize::MAX {
        assert(match_views(output@) =~= match_views(output@) + Seq::empty());
        return false;
    }
    search_text(path, text.as_str(), pattern, case_insensitive, output);
    true
}

} // verus!
