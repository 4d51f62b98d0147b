//! The diagnostic record and its parts.

use vstd::prelude::*;

verus! {

#[derive(Debug, Clone, Copy, PartialEq, Eq, Structural, Hash, PartialOrd, Ord)]
pub struct TextPosition {
    pub line: usize,
    pub column: usize,
    pub char_offset: Option<usize>,
}

#[derive(Debug, Clone, Copy, PartialEq, Eq, Structural, Hash, PartialOrd, Ord)]
pub struct TextRange {
    pub start: TextPosition,
    pub end: TextPosition,
}

#[derive(Debug, Clone, Copy, PartialEq, Eq, Structural, Hash, PartialOrd, Ord)]
pub enum DiagnosticSeverity {
    Error,
    Warning,
    Information,
    Hint,
}

#[derive(Debug, Clone, Copy, PartialEq, Eq, Structural, Hash, PartialOrd, Ord)]
pub enum DiagnosticSource {
    Compiler,
    Lsp,
    Linter,
    Task,
}

/// Rank of a source when diagnostics coincide: the lower wins.
pub open spec fn source_priority(source: DiagnosticSource) -> u8 {
    match source {
        DiagnosticSource::Compiler => 0,
        DiagnosticSource::Lsp => 1,
        DiagnosticSource::Linter => 2,
        DiagnosticSource::Task => 3,
    }
}

impl DiagnosticSource {
    pub fn priority(self) -> (p: u8)
        ensures
            p == source_priority(self),
    {
        match self {
            DiagnosticSource::Compiler => 0,
            DiagnosticSource::Lsp => 1,
            DiagnosticSource::Linter => 2,
            DiagnosticSource::Task => 3,
        }
    }
}

/// The source at a given priority.
pub open spec fn source_at(p: int) -> DiagnosticSource {
    if p == 0 {
        DiagnosticSource::Compiler
    } else if p == 1 {
        DiagnosticSource::Lsp
    } else if p == 2 {
        DiagnosticSource::Linter
    } else {
        DiagnosticSource::Task
    }
}

pub fn source_of_priority(p: usize) -> (s: DiagnosticSource)
    requires
        p < 4,
    ensures
        s == source_at(p as int),
        source_priority(s) == p,
{
    if p == 0 {
        DiagnosticSource::Compiler
    } else if p == 1 {
        DiagnosticSource::Lsp
    } else if p == 2 {
        DiagnosticSource::Linter
    } else {
        DiagnosticSource::Task
    }
}

/// A diagnostic. Its file is a path as text.
#[derive(Debug, Clone, PartialEq, Eq)]
pub struct Diagnostic {
    pub file: String,
    pub range: TextRange,
    pub severity: DiagnosticSeverity,
    pub message: String,
    pub source: DiagnosticSource,
    pub code: Option<String>,
    pub stale: bool,
}

/// A diagnostic with its texts as char sequences.
pub struct DiagnosticModel {
    pub file: Seq<char>,
    pub range: TextRange,
    pub severity: DiagnosticSeverity,
    pub message: Seq<char>,
    pub source: DiagnosticSource,
    pub code: Option<Seq<char>>,
    pub stale: bool,
}

pub open spec fn opt_text(o: Option<String>) -> Option<Seq<char>> {
    match o {
        Some(s) => Some(s@),
        None => None,
    }
}

impl View for Diagnostic {
    type V = DiagnosticModel;

    open spec fn view(&self) -> DiagnosticModel {
        DiagnosticModel {
            file: self.file@,
            range: self.range,
            severity: self.severity,
            message: self.message@,
            source: self.source,
            code: opt_text(self.code),
            stale: self.stale,
        }
    }
}

pub open spec fn models(ds: Seq<Diagnostic>) -> Seq<DiagnosticModel> {
    ds.map_values(|d: Diagnostic| d@)
}

impl Diagnostic {
    /// A copy with the same contents.
    pub fn duplicate(&self) -> (d: Diagnostic)
        ensures
            d@ == self@,
    {
        let code = match &self.code {
            Some(c) => Some(c.clone()),
            None => None,
        };
        Diagnostic {
            file: self.file.clone(),
            range: self.range,
            severity: self.severity,
            message: self.message.clone(),
            source: self.source,
            code,
            stale: self.stale,
        }
    }
}

} // verus!
