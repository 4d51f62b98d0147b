use mica::diagnostics::cargo::{
    cargo_output_lines, diagnostics_from_messages, CargoMessage, CompilerMessage, CompilerSpan,
};
use mica::diagnostics::model::{
    Diagnostic, DiagnosticSeverity, DiagnosticSource, TextPosition, TextRange,
};
use mica::diagnostics::store::DiagnosticStore;

fn diagnostic(source: DiagnosticSource, message: &str) -> Diagnostic {
    Diagnostic {
        file: "src/./main.rs".to_owned(),
        range: TextRange {
            start: TextPosition { line: 2, column: 3, char_offset: Some(5) },
            end: TextPosition { line: 2, column: 4, char_offset: Some(6) },
        },
        severity: DiagnosticSeverity::Error,
        message: message.to_owned(),
        source,
        code: None,
        stale: false,
    }
}

#[test]
fn deduplicates_by_normalized_key_with_source_priority() {
    let mut store = DiagnosticStore::default();
    store.replace_source(
        DiagnosticSource::Lsp,
        1,
        vec![diagnostic(DiagnosticSource::Lsp, "type   mismatch")],
    );
    store.replace_source(
        DiagnosticSource::Compiler,
        1,
        vec![diagnostic(DiagnosticSource::Compiler, "Type mismatch")],
    );
    assert_eq!(store.diagnostics().len(), 1);
    assert_eq!(store.diagnostics()[0].source, DiagnosticSource::Compiler);
}

#[test]
fn ignores_old_generations_and_marks_files_stale() {
    let mut store = DiagnosticStore::default();
    assert!(store.replace_source(
        DiagnosticSource::Lsp,
        2,
        vec![diagnostic(DiagnosticSource::Lsp, "new")],
    ));
    assert!(!store.replace_source(
        DiagnosticSource::Lsp,
        1,
        vec![diagnostic(DiagnosticSource::Lsp, "old")],
    ));
    store.mark_file_stale("src/main.rs");
    assert_eq!(store.diagnostics()[0].message, "new");
    assert!(store.diagnostics()[0].stale);
}

#[test]
fn merged_diagnostics_are_sorted_counted_and_filtered_by_file() {
    let mut store = DiagnosticStore::new();
    let mut warning = diagnostic(DiagnosticSource::Linter, "unused");
    warning.severity = DiagnosticSeverity::Warning;
    warning.file = "src/lib.rs".to_owned();
    let mut early = diagnostic(DiagnosticSource::Linter, "first");
    early.range.start.line = 0;
    store.replace_source(DiagnosticSource::Linter, 1, vec![diagnostic(DiagnosticSource::Linter, "later"), early, warning]);
    let all = store.diagnostics();
    assert_eq!(all.len(), 3);
    assert_eq!(all[0].file, "src/lib.rs");
    assert_eq!(all[1].message, "first");
    assert_eq!(all[2].message, "later");
    assert_eq!(store.counts(), (2, 1));
    assert_eq!(store.for_file("./src/main.rs").len(), 2);
    assert!(store.clear_source(DiagnosticSource::Linter, 1));
    assert_eq!(store.counts(), (0, 0));
}

#[test]
fn messages_are_shown_with_collapsed_whitespace_and_paths_normalised() {
    let mut store = DiagnosticStore::new();
    let mut d = diagnostic(DiagnosticSource::Task, "  a \t b\n c  ");
    d.file = "x/../y/./z.rs".to_owned();
    store.replace_source(DiagnosticSource::Task, 0, vec![d]);
    assert_eq!(store.diagnostics()[0].message, "a b c");
    assert_eq!(store.diagnostics()[0].file, "y/z.rs");
    assert_eq!(store.diagnostics()[0].source, DiagnosticSource::Task);
}

#[test]
fn source_priorities_are_ordered() {
    assert_eq!(DiagnosticSource::Compiler.priority(), 0);
    assert_eq!(DiagnosticSource::Lsp.priority(), 1);
    assert_eq!(DiagnosticSource::Linter.priority(), 2);
    assert_eq!(DiagnosticSource::Task.priority(), 3);
}

fn span(file: &str, line: usize, column: usize, primary: bool) -> CompilerSpan {
    CompilerSpan {
        file_name: file.to_owned(),
        line_start: line,
        line_end: line,
        column_start: column,
        column_end: column + 3,
        is_primary: primary,
    }
}

#[test]
fn parses_structured_primary_rustc_span() {
    let messages = vec![CargoMessage {
        reason: "compiler-message".to_owned(),
        message: Some(CompilerMessage {
            message: "mismatched types".to_owned(),
            code: Some("E0308".to_owned()),
            level: "error".to_owned(),
            spans: vec![span("src/main.rs", 3, 5, true), span("src/main.rs", 1, 1, false)],
        }),
    }];
    let diagnostics = diagnostics_from_messages("/workspace", &messages);
    assert_eq!(diagnostics.len(), 1);
    assert_eq!(diagnostics[0].file, "/workspace/src/main.rs");
    assert_eq!(diagnostics[0].range.start.line, 2);
    assert_eq!(diagnostics[0].code.as_deref(), Some("E0308"));
    assert_eq!(diagnostics[0].source, DiagnosticSource::Compiler);
}

#[test]
fn tags_clippy_lints_as_linter_source() {
    let messages = vec![
        CargoMessage {
            reason: "compiler-message".to_owned(),
            message: Some(CompilerMessage {
                message: "needless return statement".to_owned(),
                code: Some("clippy::needless_return".to_owned()),
                level: "warning".to_owned(),
                spans: vec![span("src/lib.rs", 10, 5, true)],
            }),
        },
        CargoMessage { reason: "build-finished".to_owned(), message: None },
    ];
    let diagnostics = diagnostics_from_messages("/workspace", &messages);
    assert_eq!(diagnostics.len(), 1);
    assert_eq!(diagnostics[0].source, DiagnosticSource::Linter);
    assert_eq!(diagnostics[0].severity, DiagnosticSeverity::Warning);
    assert_eq!(diagnostics[0].code.as_deref(), Some("clippy::needless_return"));
}

#[test]
fn cargo_output_is_split_into_lines() {
    assert_eq!(cargo_output_lines(b"{\"a\":1}\n{\"b\":2}\r\n"), vec!["{\"a\":1}".to_owned(), "{\"b\":2}".to_owned()]);
}
