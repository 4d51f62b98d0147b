//! Diagnostics from `cargo --message-format=json`: one JSON message per
//! line; compiler messages give a diagnostic per primary span.

use vstd::prelude::*;

use crate::chars::{chars_to_string, lines, lit, starts_with, str_to_chars, utf8_lossy};
use crate::diagnostics::model::{
    Diagnostic, DiagnosticModel, DiagnosticSeverity, DiagnosticSource, TextPosition, TextRange,
};

verus! {

/// A span of a compiler message.
#[derive(Debug, Clone, PartialEq, Eq)]
pub struct CompilerSpan {
    pub file_name: String,
    pub line_start: usize,
    pub line_end: usize,
    pub column_start: usize,
    pub column_end: usize,
    pub is_primary: bool,
}

/// A compiler message: text, optional code, level and spans.
#[derive(Debug, Clone, PartialEq, Eq)]
pub struct CompilerMessage {
    pub message: String,
    pub code: Option<String>,
    pub level: String,
    pub spans: Vec<CompilerSpan>,
}

/// One line of cargo's JSON output.
#[derive(Debug, Clone, PartialEq, Eq)]
pub struct CargoMessage {
    pub reason: String,
    pub message: Option<CompilerMessage>,
}

/// The lines of cargo's output, decoded lossily.
pub open spec fn output_lines(output: Seq<u8>) -> Seq<Seq<char>> {
    crate::chars::text_lines(crate::chars::lossy_utf8(output))
}

/// Splits cargo's output into its lines, each to be read as one JSON
/// message.
pub fn cargo_output_lines(output: &[u8]) -> (r: Vec<String>)
    ensures
        r@.len() == output_lines(output@).len(),
        forall|k: int| 0 <= k < r@.len() ==> (#[trigger] r@[k])@ == output_lines(output@)[k],
{
    let text = utf8_lossy(output);
    let chars = str_to_chars(text.as_str());
    let ls = lines(&chars);
    let mut out: Vec<String> = Vec::new();
    let mut i: usize = 0;
    while i < ls.len()
        invariant
            i <= ls@.len(),
            ls@.len() == output_lines(output@).len(),
            forall|k: int| 0 <= k < ls@.len() ==> (#[trigger] ls@[k])@ == output_lines(output@)[k],
            out@.len() == i,
            forall|k: int| 0 <= k < i ==> (#[trigger] out@[k])@ == output_lines(output@)[k],
        decreases ls.len() - i,
    {
        out.push(chars_to_string(ls[i].as_slice()));
        i = i + 1;
    }
    out
}

/// The severity of a message level.
pub open spec fn level_severity(level: Seq<char>) -> DiagnosticSeverity {
    if level == "error"@ || level == "failure-note"@ {
        DiagnosticSeverity::Error
    } else if level == "warning"@ {
        DiagnosticSeverity::Warning
    } else if level == "note"@ {
        DiagnosticSeverity::Information
    } else {
        DiagnosticSeverity::Hint
    }
}

/// Clippy lints count as a linter's, everything else as the compiler's.
pub open spec fn code_source(code: Option<Seq<char>>) -> DiagnosticSource {
    match code {
        Some(c) => if crate::chars::has_prefix(c, "clippy::"@) {
            DiagnosticSource::Linter
        } else {
            DiagnosticSource::Compiler
        },
        None => DiagnosticSource::Compiler,
    }
}

/// A one-based line or column made zero-based.
pub open spec fn zero_based(n: usize) -> usize {
    if n == 0 { 0 } else { (n - 1) as usize }
}

/// The diagnostic for one primary span of a message.
pub open spec fn span_diagnostic(root: Seq<char>, m: CompilerMessage, span: CompilerSpan) -> DiagnosticModel {
    DiagnosticModel {
        file: crate::paths::join_path(root, span.file_name@),
        range: TextRange {
            start: TextPosition {
                line: zero_based(span.line_start),
                column: zero_based(span.column_start),
                char_offset: None,
            },
            end: TextPosition {
                line: zero_based(span.line_end),
                column: zero_based(span.column_end),
                char_offset: None,
            },
        },
        severity: level_severity(m.level@),
        message: m.message@,
        source: code_source(crate::diagnostics::model::opt_text(m.code)),
        code: crate::diagnostics::model::opt_text(m.code),
        stale: false,
    }
}

/// The diagnostics of a message's primary spans, in order.
pub open spec fn message_diagnostics(root: Seq<char>, m: CompilerMessage, spans: Seq<CompilerSpan>) -> Seq<DiagnosticModel>
    decreases spans.len(),
{
    if spans.len() == 0 {
        Seq::empty()
    } else {
        let rest = message_diagnostics(root, m, spans.drop_last());
        if spans.last().is_primary {
            rest.push(span_diagnostic(root, m, spans.last()))
        } else {
            rest
        }
    }
}

/// The diagnostics of all compiler messages, in order.
pub open spec fn cargo_diagnostics(root: Seq<char>, msgs: Seq<CargoMessage>) -> Seq<DiagnosticModel>
    decreases msgs.len(),
{
    if msgs.len() == 0 {
        Seq::empty()
    } else {
        let rest = cargo_diagnostics(root, msgs.drop_last());
        let m = msgs.last();
        if m.reason@ == "compiler-message"@ {
            match m.message {
                Some(cm) => rest + message_diagnostics(root, cm, cm.spans@),
                None => rest,
            }
        } else {
            rest
        }
    }
}

fn text_is(s: &String, lit_text: &str) -> (b: bool)
    ensures
        b == (s@ == lit_text@),
{
    let a = str_to_chars(s.as_str());
    let b = str_to_chars(lit_text);
    crate::chars::chars_eq(&a, &b)
}

fn severity_of_level(level: &String) -> (s: DiagnosticSeverity)
    ensures
        s == level_severity(level@),
{
    if text_is(level, "error") || text_is(level, "failure-note") {
        DiagnosticSeverity::Error
    } else if text_is(level, "warning") {
        DiagnosticSeverity::Warning
    } else if text_is(level, "note") {
        DiagnosticSeverity::Information
    } else {
        DiagnosticSeverity::Hint
    }
}

fn source_of_code(code: &Option<String>) -> (s: DiagnosticSource)
    ensures
        s == code_source(crate::diagnostics::model::opt_text(*code)),
{
    match code {
        Some(c) => {
            let cc = str_to_chars(c.as_str());
            let p = lit("clippy::");
            if starts_with(&cc, &p) {
                DiagnosticSource::Linter
            } else {
                DiagnosticSource::Compiler
            }
        },
        None => DiagnosticSource::Compiler,
    }
}

/// The diagnostics of cargo's compiler messages: one per primary span, at
/// its file under `root`, with zero-based lines and columns.
pub fn diagnostics_from_messages(root: &str, messages: &Vec<CargoMessage>) -> (r: Vec<Diagnostic>)
    ensures
        crate::diagnostics::model::models(r@) == cargo_diagnostics(root@, messages@),
{
    let mut out: Vec<Diagnostic> = Vec::new();
    let mut i: usize = 0;
    while i < messages.len()
        invariant
            i <= messages@.len(),
            crate::diagnostics::model::models(out@) == cargo_diagnostics(root@, messages@.take(i as int)),
        decreases messages.len() - i,
    {
        let m = &messages[i];
        assert(messages@.take(i + 1).drop_last() =~= messages@.take(i as int));
        assert(messages@.take(i + 1).last() == *m);
        if text_is(&m.reason, "compiler-message") {
            match &m.message {
                Some(cm) => {
                    let severity = severity_of_level(&cm.level);
                    let source = source_of_code(&cm.code);
                    let ghost base = crate::diagnostics::model::models(out@);
                    let mut k: usize = 0;
                    while k < cm.spans.len()
                        invariant
                            k <= cm.spans@.len(),
                            severity == level_severity(cm.level@),
                            source == code_source(crate::diagnostics::model::opt_text(cm.code)),
                            crate::diagnostics::model::models(out@) == base + message_diagnostics(
                                root@,
                                *cm,
                                cm.spans@.take(k as int),
                            ),
                        decreases cm.spans.len() - k,
                    {
                        let span = &cm.spans[k];
                        assert(cm.spans@.take(k + 1).drop_last() =~= cm.spans@.take(k as int));
                        assert(cm.spans@.take(k + 1).last() == *span);
                        if span.is_primary {
                            let code = match &cm.code {
                                Some(c) => Some(c.clone()),
                                None => None,
                            };
                            let d = Diagnostic {
                                file: crate::paths::join_path_str(root, span.file_name.as_str()),
                                range: TextRange {
                                    start: TextPosition {
                                        line: span.line_start.saturating_sub(1),
                                        column: span.column_start.saturating_sub(1),
                                        char_offset: None,
                                    },
                                    end: TextPosition {
                                        line: span.line_end.saturating_sub(1),
                                        column: span.column_end.saturating_sub(1),
                                        char_offset: None,
                                    },
                                },
                                severity,
                                message: cm.message.clone(),
                                source,
                                code,
                                stale: false,
                            };
                            let ghost before = out@;
                            out.push(d);
                            assert(d@ == span_diagnostic(root@, *cm, *span));
                            assert(crate::diagnostics::model::models(out@) =~= crate::diagnostics::model::models(before).push(d@));
                        }
                        k = k + 1;
                    }
                    assert(cm.spans@.take(k as int) =~= cm.spans@);
                },
                None => {},
            }
        }
        i = i + 1;
    }
    assert(messages@.take(i as int) =~= messages@);
    out
}

} // verus!
