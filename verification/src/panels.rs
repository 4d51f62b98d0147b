//! What the side and bottom panels list: Source Control entries, search
//! and Problems rows, the command palette, branches and output lines.

use vstd::prelude::*;

use crate::app::{DiagnosticRow, GitSection, WorkspaceSearchRow};
use crate::chars::{chars_to_string, lit, lines, push_all, str_to_chars, to_ascii_lower};
use crate::command::registry::CommandMeta;
use crate::diagnostics::model::{Diagnostic, DiagnosticSeverity};
use crate::git::branch::GitBranch;
use crate::git::diff::DiffTarget;
use crate::git::status::{GitFileChange, GitStatus};
use crate::paths::compare_paths;
use crate::search::results::WorkspaceMatch;

verus! {

/// The Source Control sections in the order the view lists them, with the
/// side of the diff each one opens.
pub open spec fn sections() -> Seq<(GitSection, DiffTarget)> {
    seq![
        (GitSection::Staged, DiffTarget::Staged),
        (GitSection::Conflicted, DiffTarget::WorkingTree),
        (GitSection::Untracked, DiffTarget::WorkingTree),
        (GitSection::Working, DiffTarget::WorkingTree),
    ]
}

/// The files of one section, in status order, with the diff side.
pub open spec fn section_entries(files: Seq<GitFileChange>, section: GitSection, target: DiffTarget) -> Seq<(Seq<char>, DiffTarget)>
    decreases files.len(),
{
    if files.len() == 0 {
        Seq::empty()
    } else {
        let rest = section_entries(files.drop_last(), section, target);
        if section.spec_contains(files.last()) { rest.push((files.last().path@, target)) } else { rest }
    }
}

/// The entries of the first `k` sections.
pub open spec fn entries_upto(files: Seq<GitFileChange>, k: int) -> Seq<(Seq<char>, DiffTarget)>
    decreases k,
{
    if k <= 0 {
        Seq::empty()
    } else {
        entries_upto(files, k - 1) + section_entries(files, sections()[k - 1].0, sections()[k - 1].1)
    }
}

/// Every Source Control entry: section by section, file by file.
pub open spec fn spec_git_entries(status: Option<GitStatus>) -> Seq<(Seq<char>, DiffTarget)> {
    match status {
        Some(s) => entries_upto(s.files@, 4),
        None => Seq::empty(),
    }
}

fn section_at(k: usize) -> (r: (GitSection, DiffTarget))
    requires
        k < 4,
    ensures
        r == sections()[k as int],
{
    if k == 0 {
        (GitSection::Staged, DiffTarget::Staged)
    } else if k == 1 {
        (GitSection::Conflicted, DiffTarget::WorkingTree)
    } else if k == 2 {
        (GitSection::Untracked, DiffTarget::WorkingTree)
    } else {
        (GitSection::Working, DiffTarget::WorkingTree)
    }
}

pub open spec fn entry_views(v: Seq<(String, DiffTarget)>) -> Seq<(Seq<char>, DiffTarget)> {
    v.map_values(|e: (String, DiffTarget)| (e.0@, e.1))
}

/// The files Source Control lists, each with the diff side it opens.
pub fn git_entries(status: &Option<GitStatus>) -> (r: Vec<(String, DiffTarget)>)
    ensures
        entry_views(r@) == spec_git_entries(*status),
{
    let mut out: Vec<(String, DiffTarget)> = Vec::new();
    let files = match status {
        Some(s) => &s.files,
        None => {
            assert(entry_views(out@) =~= Seq::empty());
            return out;
        },
    };
    let mut k: usize = 0;
    assert(entry_views(out@) =~= entries_upto(files@, 0));
    while k < 4
        invariant
            k <= 4,
            entry_views(out@) == entries_upto(files@, k as int),
        decreases 4 - k,
    {
        let (section, target) = section_at(k);
        let ghost start = entry_views(out@);
        let mut i: usize = 0;
        assert(files@.take(0) =~= Seq::<GitFileChange>::empty());
        assert(start =~= start + section_entries(files@.take(0), section, target));
        while i < files.len()
            invariant
                i <= files@.len(),
                entry_views(out@) == start + section_entries(files@.take(i as int), section, target),
            decreases files.len() - i,
        {
            assert(files@.take(i + 1).drop_last() =~= files@.take(i as int));
            assert(files@.take(i + 1).last() == files@[i as int]);
            if section.contains(&files[i]) {
                let ghost before = out@;
                out.push((chars_to_string(str_to_chars(files[i].path.as_str()).as_slice()), target));
                assert(entry_views(out@) =~= entry_views(before).push((files@[i as int].path@, target)));
            }
            i = i + 1;
        }
        assert(files@.take(i as int) =~= files@);
        k = k + 1;
    }
    out
}

/// Path equality of `Path`: component by component.
pub open spec fn same_path(a: Seq<char>, b: Seq<char>) -> bool {
    crate::paths::path_order(a, b) == 0
}

fn same_path_exec(a: &String, b: &String) -> (r: bool)
    ensures
        r == same_path(a@, b@),
{
    compare_paths(&str_to_chars(a.as_str()), &str_to_chars(b.as_str())) == 0
}

pub open spec fn is_collapsed(collapsed: Seq<String>, path: Seq<char>) -> bool {
    exists|j: int| 0 <= j < collapsed.len() && same_path(#[trigger] collapsed[j]@, path)
}

/// A row of a grouped list as plain values: a file heading, or an item by
/// index.
pub enum RowView {
    File(Seq<char>),
    Item(int),
}

pub open spec fn search_row_view(r: WorkspaceSearchRow) -> RowView {
    match r {
        WorkspaceSearchRow::File(p) => RowView::File(p@),
        WorkspaceSearchRow::Match(i) => RowView::Item(i as int),
    }
}

/// The search rows of the first `k` matches: a file heading whenever the
/// path changes, then the match unless its file is collapsed.
pub open spec fn search_rows_upto(ms: Seq<WorkspaceMatch>, collapsed: Seq<String>, k: int) -> Seq<RowView>
    decreases k,
{
    if k <= 0 {
        Seq::empty()
    } else {
        let rest = search_rows_upto(ms, collapsed, k - 1);
        let m = ms[k - 1];
        let heading = if k - 1 == 0 || !same_path(ms[k - 2].path@, m.path@) {
            rest.push(RowView::File(m.path@))
        } else {
            rest
        };
        if is_collapsed(collapsed, m.path@) { heading } else { heading.push(RowView::Item(k - 1)) }
    }
}

/// The rows of the search results: matches grouped under their files, a
/// collapsed file showing its heading alone.
pub fn workspace_search_rows(matches: &Vec<WorkspaceMatch>, collapsed: &Vec<String>) -> (r: Vec<WorkspaceSearchRow>)
    ensures
        r@.map_values(|x: WorkspaceSearchRow| search_row_view(x)) == search_rows_upto(
            matches@,
            collapsed@,
            matches@.len() as int,
        ),
{
    let mut rows: Vec<WorkspaceSearchRow> = Vec::new();
    let mut i: usize = 0;
    assert(rows@.map_values(|x: WorkspaceSearchRow| search_row_view(x)) =~= Seq::empty());
    while i < matches.len()
        invariant
            i <= matches@.len(),
            rows@.map_values(|x: WorkspaceSearchRow| search_row_view(x)) == search_rows_upto(
                matches@,
                collapsed@,
                i as int,
            ),
        decreases matches.len() - i,
    {
        let path = &matches[i].path;
        let new_file = i == 0 || !same_path_exec(&matches[i - 1].path, path);
        if new_file {
            let ghost before = rows@;
            rows.push(WorkspaceSearchRow::File(chars_to_string(str_to_chars(path.as_str()).as_slice())));
            assert(rows@.map_values(|x: WorkspaceSearchRow| search_row_view(x)) =~= before.map_values(
                |x: WorkspaceSearchRow| search_row_view(x),
            ).push(RowView::File(path@)));
        }
        let mut j: usize = 0;
        let mut hidden = false;
        while j < collapsed.len()
            invariant
                j <= collapsed@.len(),
                hidden == exists|q: int| 0 <= q < j && same_path(#[trigger] collapsed@[q]@, path@),
            decreases collapsed.len() - j,
        {
            if same_path_exec(&collapsed[j], path) {
                hidden = true;
            }
            j = j + 1;
        }
        if !hidden {
            let ghost before = rows@;
            rows.push(WorkspaceSearchRow::Match(i));
            assert(rows@.map_values(|x: WorkspaceSearchRow| search_row_view(x)) =~= before.map_values(
                |x: WorkspaceSearchRow| search_row_view(x),
            ).push(RowView::Item(i as int)));
        }
        i = i + 1;
    }
    rows
}

/// Whether a diagnostic passes the Problems filter.
pub open spec fn shown(d: Diagnostic, filter: Option<DiagnosticSeverity>) -> bool {
    match filter {
        Some(s) => d.severity == s,
        None => true,
    }
}

/// The indices of the diagnostics the Problems panel shows, in order.
pub open spec fn shown_indices(ds: Seq<Diagnostic>, filter: Option<DiagnosticSeverity>, k: int) -> Seq<int>
    decreases k,
{
    if k <= 0 {
        Seq::empty()
    } else {
        let rest = shown_indices(ds, filter, k - 1);
        if shown(ds[k - 1], filter) { rest.push(k - 1) } else { rest }
    }
}

/// The diagnostics the Problems panel shows: all, or those of one
/// severity.
pub fn visible_diagnostics<'a>(diagnostics: &'a Vec<Diagnostic>, filter: Option<DiagnosticSeverity>) -> (r: Vec<&'a Diagnostic>)
    ensures
        r@.len() == shown_indices(diagnostics@, filter, diagnostics@.len() as int).len(),
        forall|k: int| 0 <= k < r@.len() ==> *(#[trigger] r@[k]) == diagnostics@[shown_indices(
            diagnostics@,
            filter,
            diagnostics@.len() as int,
        )[k]],
{
    let mut out: Vec<&Diagnostic> = Vec::new();
    let mut i: usize = 0;
    while i < diagnostics.len()
        invariant
            i <= diagnostics@.len(),
            out@.len() == shown_indices(diagnostics@, filter, i as int).len(),
            forall|k: int| 0 <= k < out@.len() ==> *(#[trigger] out@[k]) == diagnostics@[shown_indices(
                diagnostics@,
                filter,
                i as int,
            )[k]],
        decreases diagnostics.len() - i,
    {
        let d = &diagnostics[i];
        let keep = match filter {
            Some(s) => d.severity == s,
            None => true,
        };
        let ghost before = shown_indices(diagnostics@, filter, i as int);
        if keep {
            out.push(d);
            assert(shown_indices(diagnostics@, filter, i + 1) == before.push(i as int));
        }
        i = i + 1;
    }
    out
}

pub open spec fn diagnostic_row_view(r: DiagnosticRow) -> RowView {
    match r {
        DiagnosticRow::File(p) => RowView::File(p@),
        DiagnosticRow::Item(i) => RowView::Item(i as int),
    }
}

/// The Problems rows of the first `k` shown diagnostics: a file heading
/// whenever the file changes, then the diagnostic by its shown index.
pub open spec fn problem_rows_upto(shown: Seq<Diagnostic>, k: int) -> Seq<RowView>
    decreases k,
{
    if k <= 0 {
        Seq::empty()
    } else {
        let rest = problem_rows_upto(shown, k - 1);
        let d = shown[k - 1];
        let heading = if k - 1 == 0 || !same_path(shown[k - 2].file@, d.file@) {
            rest.push(RowView::File(d.file@))
        } else {
            rest
        };
        heading.push(RowView::Item(k - 1))
    }
}

/// The rows of the Problems panel: the shown diagnostics grouped under
/// their files.
pub fn diagnostic_rows(diagnostics: &Vec<Diagnostic>, filter: Option<DiagnosticSeverity>) -> (r: Vec<DiagnosticRow>)
    ensures
        ({
            let idx = shown_indices(diagnostics@, filter, diagnostics@.len() as int);
            r@.map_values(|x: DiagnosticRow| diagnostic_row_view(x)) == problem_rows_upto(
                idx.map_values(|j: int| diagnostics@[j]),
                idx.len() as int,
            )
        }),
{
    let shown = visible_diagnostics(diagnostics, filter);
    let ghost idx = shown_indices(diagnostics@, filter, diagnostics@.len() as int);
    let ghost sv = idx.map_values(|j: int| diagnostics@[j]);
    let mut rows: Vec<DiagnosticRow> = Vec::new();
    let mut i: usize = 0;
    assert(rows@.map_values(|x: DiagnosticRow| diagnostic_row_view(x)) =~= Seq::empty());
    while i < shown.len()
        invariant
            i <= shown@.len(),
            shown@.len() == idx.len() == sv.len(),
            forall|k: int| 0 <= k < shown@.len() ==> *(#[trigger] shown@[k]) == sv[k],
            rows@.map_values(|x: DiagnosticRow| diagnostic_row_view(x)) == problem_rows_upto(sv, i as int),
        decreases shown.len() - i,
    {
        let d = shown[i];
        assert(*d == sv[i as int]);
        let new_file = i == 0 || {
            let prev = shown[i - 1];
            assert(*prev == sv[i - 1]);
            !same_path_exec(&prev.file, &d.file)
        };
        let ghost before = rows@;
        if new_file {
            rows.push(DiagnosticRow::File(chars_to_string(str_to_chars(d.file.as_str()).as_slice())));
        }
        rows.push(DiagnosticRow::Item(i));
        assert(rows@.map_values(|x: DiagnosticRow| diagnostic_row_view(x)) =~= problem_rows_upto(sv, i + 1));
        i = i + 1;
    }
    rows
}

/// A command is listed for a palette query when the query is empty, or
/// (in ASCII lower case) is in its title or its identifier.
pub open spec fn palette_match(m: CommandMeta, query: Seq<char>) -> bool {
    let q = crate::chars::ascii_lower(query);
    q.len() == 0 || crate::chars::contains(crate::chars::ascii_lower(m.title@), q) || crate::chars::contains(m.id@, q)
}

pub open spec fn palette_upto(ms: Seq<CommandMeta>, query: Seq<char>, k: int) -> Seq<(Seq<char>, Seq<char>)>
    decreases k,
{
    if k <= 0 {
        Seq::empty()
    } else {
        let rest = palette_upto(ms, query, k - 1);
        if palette_match(ms[k - 1], query) { rest.push(crate::command::registry::meta_view(ms[k - 1])) } else { rest }
    }
}

/// The commands the palette lists for a query, in registry order.
pub fn palette_commands(commands: &[CommandMeta], query: &str) -> (r: Vec<CommandMeta>)
    ensures
        r@.map_values(|m: CommandMeta| crate::command::registry::meta_view(m)) == palette_upto(
            commands@,
            query@,
            commands@.len() as int,
        ),
{
    let q = to_ascii_lower(&str_to_chars(query));
    let q_text = chars_to_string(q.as_slice());
    let mut out: Vec<CommandMeta> = Vec::new();
    let mut i: usize = 0;
    assert(out@.map_values(|m: CommandMeta| crate::command::registry::meta_view(m)) =~= Seq::empty());
    while i < commands.len()
        invariant
            i <= commands@.len(),
            q@ == crate::chars::ascii_lower(query@),
            q_text@ == q@,
            out@.map_values(|m: CommandMeta| crate::command::registry::meta_view(m)) == palette_upto(
                commands@,
                query@,
                i as int,
            ),
        decreases commands.len() - i,
    {
        let m = commands[i];
        let title = to_ascii_lower(&str_to_chars(m.title));
        let keep = q.len() == 0 || crate::chars::contains_chars(&title, q_text.as_str())
            || crate::chars::contains_chars(&str_to_chars(m.id), q_text.as_str());
        if keep {
            let ghost before = out@;
            out.push(m);
            assert(out@.map_values(|m: CommandMeta| crate::command::registry::meta_view(m)) =~= before.map_values(
                |m: CommandMeta| crate::command::registry::meta_view(m),
            ).push(crate::command::registry::meta_view(m)));
        }
        i = i + 1;
    }
    out
}

/// A branch is listed for a query when the query is empty or, in ASCII
/// lower case, is in its name.
pub open spec fn branch_match(b: GitBranch, query: Seq<char>) -> bool {
    let q = crate::chars::ascii_lower(query);
    q.len() == 0 || crate::chars::contains(crate::chars::ascii_lower(b.name@), q)
}

/// The indices of the branches that match, in order.
pub open spec fn branch_indices(bs: Seq<GitBranch>, query: Seq<char>, k: int) -> Seq<int>
    decreases k,
{
    if k <= 0 {
        Seq::empty()
    } else {
        let rest = branch_indices(bs, query, k - 1);
        if branch_match(bs[k - 1], query) { rest.push(k - 1) } else { rest }
    }
}

/// The branches the branch picker lists for a query.
pub fn visible_git_branches<'a>(branches: &'a Vec<GitBranch>, query: &str) -> (r: Vec<&'a GitBranch>)
    ensures
        r@.len() == branch_indices(branches@, query@, branches@.len() as int).len(),
        forall|k: int| 0 <= k < r@.len() ==> *(#[trigger] r@[k]) == branches@[branch_indices(
            branches@,
            query@,
            branches@.len() as int,
        )[k]],
{
    let q = to_ascii_lower(&str_to_chars(query));
    let q_text = chars_to_string(q.as_slice());
    let mut out: Vec<&GitBranch> = Vec::new();
    let mut i: usize = 0;
    while i < branches.len()
        invariant
            i <= branches@.len(),
            q@ == crate::chars::ascii_lower(query@),
            q_text@ == q@,
            out@.len() == branch_indices(branches@, query@, i as int).len(),
            forall|k: int| 0 <= k < out@.len() ==> *(#[trigger] out@[k]) == branches@[branch_indices(
                branches@,
                query@,
                i as int,
            )[k]],
        decreases branches.len() - i,
    {
        let b = &branches[i];
        let name = to_ascii_lower(&str_to_chars(b.name.as_str()));
        let keep = q.len() == 0 || crate::chars::contains_chars(&name, q_text.as_str());
        let ghost before = branch_indices(branches@, query@, i as int);
        if keep {
            out.push(b);
            assert(branch_indices(branches@, query@, i + 1) == before.push(i as int));
        }
        i = i + 1;
    }
    out
}

/// The hunk a line of a diff belongs to: the number of `@@ ` lines at or
/// before it, less one; none before the first hunk or past the end.
pub open spec fn hunk_at(ls: Seq<Seq<char>>, line: int, k: int, current: Option<int>) -> Option<int>
    decreases ls.len() - k,
{
    if k < 0 || k >= ls.len() {
        None
    } else {
        let next = if crate::chars::has_prefix(ls[k], "@@ "@) {
            match current {
                Some(i) => Some(i + 1),
                None => Some(0),
            }
        } else {
            current
        };
        if k == line { next } else { hunk_at(ls, line, k + 1, next) }
    }
}

/// The hunk of a diff that a line of its text (from 0) belongs to.
pub fn git_hunk_at_diff_line(raw: &str, line: usize) -> (r: Option<usize>)
    ensures
        match r {
            Some(i) => hunk_at(crate::chars::text_lines(raw@), line as int, 0, None) == Some(i as int),
            None => hunk_at(crate::chars::text_lines(raw@), line as int, 0, None) is None,
        },
{
    let ls = lines(&str_to_chars(raw));
    let ghost lv = ls@.map_values(|v: Vec<char>| v@);
    let marker = lit("@@ ");
    let mut current: Option<usize> = None;
    let mut k: usize = 0;
    while k < ls.len()
        invariant
            k <= ls@.len(),
            lv == ls@.map_values(|v: Vec<char>| v@),
            lv == crate::chars::text_lines(raw@),
            marker@ == "@@ "@,
            current matches Some(i) ==> i <= k,
            hunk_at(lv, line as int, 0, None) == hunk_at(
                lv,
                line as int,
                k as int,
                match current {
                    Some(i) => Some(i as int),
                    None => None,
                },
            ),
        decreases ls.len() - k,
    {
        assert(lv[k as int] == ls@[k as int]@);
        if crate::chars::starts_with(&ls[k], &marker) {
            current = match current {
                Some(i) => Some(i + 1),
                None => Some(0),
            };
        }
        if k == line {
            return current;
        }
        k = k + 1;
    }
    None
}

/// How many output lines the Output panel keeps.
pub const OUTPUT_LINE_LIMIT: usize = 2000;

/// An output line: `[source] line`.
pub open spec fn output_line(source: Seq<char>, line: Seq<char>) -> Seq<char> {
    "["@ + source + "] "@ + line
}

/// The last `limit` items of a sequence (all, if there are fewer).
pub open spec fn last_n<T>(s: Seq<T>, limit: int) -> Seq<T> {
    if s.len() <= limit { s } else { s.skip(s.len() - limit) }
}

/// Appends a message to the output, line by line, each tagged with its
/// source, and keeps only the latest lines.
pub fn append_output(output: &mut Vec<String>, source: &str, message: &str)
    ensures
        crate::unicode::views(final(output)@) == last_n(
            crate::unicode::views(old(output)@) + crate::chars::text_lines(message@).map_values(
                |l: Seq<char>| output_line(source@, l),
            ),
            OUTPUT_LINE_LIMIT as int,
        ),
{
    let ls = lines(&str_to_chars(message));
    let ghost lv = ls@.map_values(|v: Vec<char>| v@);
    let ghost tagged = lv.map_values(|l: Seq<char>| output_line(source@, l));
    let ghost start = crate::unicode::views(output@);
    let mut i: usize = 0;
    assert(tagged.take(0) =~= Seq::<Seq<char>>::empty());
    assert(crate::unicode::views(output@) =~= start + tagged.take(0));
    while i < ls.len()
        invariant
            i <= ls@.len(),
            lv == ls@.map_values(|v: Vec<char>| v@),
            tagged == lv.map_values(|l: Seq<char>| output_line(source@, l)),
            crate::unicode::views(output@) == start + tagged.take(i as int),
        decreases ls.len() - i,
    {
        let mut text: Vec<char> = Vec::new();
        push_all(&mut text, &lit("["));
        push_all(&mut text, &str_to_chars(source));
        push_all(&mut text, &lit("] "));
        push_all(&mut text, &ls[i]);
        let ghost before = output@;
        output.push(chars_to_string(text.as_slice()));
        assert(tagged[i as int] == output_line(source@, ls@[i as int]@));
        assert(crate::unicode::views(output@) =~= crate::unicode::views(before).push(tagged[i as int]));
        assert(tagged.take(i + 1) =~= tagged.take(i as int).push(tagged[i as int]));
        i = i + 1;
    }
    assert(tagged.take(i as int) =~= tagged);
    let ghost all = crate::unicode::views(output@);
    while output.len() > OUTPUT_LINE_LIMIT
        invariant
            all.len() >= output@.len(),
            crate::unicode::views(output@) == all.skip(all.len() - output@.len()),
            all.len() > OUTPUT_LINE_LIMIT ==> output@.len() >= OUTPUT_LINE_LIMIT,
            all.len() <= OUTPUT_LINE_LIMIT ==> output@.len() == all.len(),
        decreases output.len(),
    {
        let ghost before = output@;
        output.remove(0);
        assert(output@ =~= before.drop_first());
        assert(crate::unicode::views(output@) =~= crate::unicode::views(before).drop_first());
        assert(crate::unicode::views(before).drop_first() =~= all.skip(all.len() - output@.len()));
    }
    proof {
        if all.len() <= OUTPUT_LINE_LIMIT {
            assert(all.skip(0) =~= all);
        }
    }
}

} // verus!
