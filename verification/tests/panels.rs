use mica::app::{DiagnosticRow, WorkspaceSearchRow};
use mica::command::registry::CommandRegistry;
use mica::diagnostics::model::{Diagnostic, DiagnosticSeverity, DiagnosticSource, TextPosition, TextRange};
use mica::git::branch::GitBranch;
use mica::git::diff::DiffTarget;
use mica::git::status::parse_porcelain_v2;
use mica::panels::{
    append_output, diagnostic_rows, git_entries, git_hunk_at_diff_line, palette_commands,
    visible_diagnostics, visible_git_branches, workspace_search_rows,
};
use mica::search::results::WorkspaceMatch;

fn found(path: &str, line: usize) -> WorkspaceMatch {
    WorkspaceMatch {
        path: path.to_owned(),
        line,
        column: 1,
        line_text: "x".to_owned(),
        match_start: 0,
        match_end: 1,
    }
}

#[test]
fn workspace_search_rows_group_and_collapse_files() {
    let matches = vec![found("a.rs", 1), found("a.rs", 2)];
    assert_eq!(workspace_search_rows(&matches, &Vec::new()).len(), 3);
    assert_eq!(workspace_search_rows(&matches, &vec!["a.rs".to_owned()]).len(), 1);
    let matches = vec![found("a.rs", 1), found("b.rs", 1), found("b.rs/", 2)];
    assert_eq!(
        workspace_search_rows(&matches, &Vec::new()),
        vec![
            WorkspaceSearchRow::File("a.rs".to_owned()),
            WorkspaceSearchRow::Match(0),
            WorkspaceSearchRow::File("b.rs".to_owned()),
            WorkspaceSearchRow::Match(1),
            WorkspaceSearchRow::Match(2),
        ]
    );
}

fn diagnostic(file: &str, severity: DiagnosticSeverity) -> Diagnostic {
    let position = TextPosition { line: 0, column: 0, char_offset: None };
    Diagnostic {
        file: file.to_owned(),
        range: TextRange { start: position, end: position },
        severity,
        message: "m".to_owned(),
        source: DiagnosticSource::Compiler,
        code: None,
        stale: false,
    }
}

#[test]
fn problems_rows_group_shown_diagnostics_by_file() {
    let diagnostics = vec![
        diagnostic("/w/a.rs", DiagnosticSeverity::Error),
        diagnostic("/w/a.rs", DiagnosticSeverity::Warning),
        diagnostic("/w/b.rs", DiagnosticSeverity::Error),
    ];
    assert_eq!(visible_diagnostics(&diagnostics, None).len(), 3);
    let errors = visible_diagnostics(&diagnostics, Some(DiagnosticSeverity::Error));
    assert_eq!(errors.len(), 2);
    assert_eq!(errors[1].file, "/w/b.rs");
    assert_eq!(
        diagnostic_rows(&diagnostics, Some(DiagnosticSeverity::Error)),
        vec![
            DiagnosticRow::File("/w/a.rs".to_owned()),
            DiagnosticRow::Item(0),
            DiagnosticRow::File("/w/b.rs".to_owned()),
            DiagnosticRow::Item(1),
        ]
    );
    assert_eq!(diagnostic_rows(&diagnostics, None).len(), 5);
}

#[test]
fn source_control_lists_sections_in_order() {
    let status = parse_porcelain_v2(
        b"1 M. N... 100644 100644 100644 aaaa bbbb staged.rs\x001 .M N... 100644 100644 100644 aaaa bbbb work.rs\x00? new.rs\x00",
    );
    let entries = git_entries(&Some(status));
    assert_eq!(
        entries,
        vec![
            ("staged.rs".to_owned(), DiffTarget::Staged),
            ("new.rs".to_owned(), DiffTarget::WorkingTree),
            ("work.rs".to_owned(), DiffTarget::WorkingTree),
        ]
    );
    assert!(git_entries(&None).is_empty());
}

#[test]
fn palette_filters_by_title_or_identifier() {
    let registry = CommandRegistry::built_in();
    let all = palette_commands(registry.all(), "");
    assert_eq!(all.len(), registry.all().len());
    let saves = palette_commands(registry.all(), "SAVE");
    assert!(saves.iter().any(|command| command.id == "editor.save"));
    assert!(saves.iter().all(|command| {
        command.title.to_ascii_lowercase().contains("save") || command.id.contains("save")
    }));
}

fn branch(name: &str) -> GitBranch {
    GitBranch { name: name.to_owned(), current: false, remote: false, upstream: None }
}

#[test]
fn branch_picker_filters_case_insensitively() {
    let branches = vec![branch("main"), branch("Feature/Login"), branch("fix")];
    let shown = visible_git_branches(&branches, "LOG");
    assert_eq!(shown.len(), 1);
    assert_eq!(shown[0].name, "Feature/Login");
    assert_eq!(visible_git_branches(&branches, "").len(), 3);
}

#[test]
fn diff_lines_map_to_their_hunks() {
    let raw = "diff --git a/x b/x\n@@ -1 +1 @@\n-a\n+b\n@@ -5 +5 @@\n c\n";
    assert_eq!(git_hunk_at_diff_line(raw, 0), None);
    assert_eq!(git_hunk_at_diff_line(raw, 1), Some(0));
    assert_eq!(git_hunk_at_diff_line(raw, 3), Some(0));
    assert_eq!(git_hunk_at_diff_line(raw, 5), Some(1));
    assert_eq!(git_hunk_at_diff_line(raw, 9), None);
}

#[test]
fn output_keeps_the_latest_tagged_lines() {
    let mut output = Vec::new();
    append_output(&mut output, "cargo", "one\ntwo");
    assert_eq!(output, vec!["[cargo] one", "[cargo] two"]);
    let long: String = (0..2100).map(|i| format!("line {i}\n")).collect();
    append_output(&mut output, "lsp", &long);
    assert_eq!(output.len(), 2000);
    assert_eq!(output[0], "[lsp] line 100");
    assert_eq!(output[1999], "[lsp] line 2099");
}

#[test]
fn built_in_command_ids_are_distinct() {
    let registry = CommandRegistry::built_in();
    let mut ids: Vec<&str> = registry.all().iter().map(|c| c.id).collect();
    let count = ids.len();
    ids.sort();
    ids.dedup();
    assert_eq!(ids.len(), count);
}
