//! What the analysis reports: diagnostics and inlay hints.
use vstd::prelude::*;
use vstd::string::*;
use crate::span::{Position, Range};

verus! {

/// How grave a diagnostic is.
#[derive(Debug, Clone, Copy, PartialEq, Eq, Structural)]
pub enum Severity {
    Error,
    Information,
}

/// The kinds of error that are reported.
#[derive(Debug, Clone, Copy, PartialEq, Eq, Structural)]
pub enum DiagnosticKind {
    DuplicateName,
    MissingEquation,
    DuplicateEquation,
    ArityMismatch,
    TypeMismatch,
    InitializationViolation,
    Recursion,
    UnknownCallee,
    /// The source text is no program.
    Syntax,
}

/// The mathematical model of a diagnostic.
pub struct DiagnosticModel {
    pub severity: Severity,
    pub range: Range,
    pub kind: DiagnosticKind,
    pub message: Seq<char>,
}

/// A message about a range of the source.
#[derive(Debug, PartialEq, Eq)]
pub struct Diagnostic {
    pub severity: Severity,
    pub range: Range,
    pub kind: DiagnosticKind,
    pub message: String,
}

impl View for Diagnostic {
    type V = DiagnosticModel;

    open spec fn view(&self) -> DiagnosticModel {
        DiagnosticModel {
            severity: self.severity,
            range: self.range,
            kind: self.kind,
            message: self.message@,
        }
    }
}

/// The models of a list of diagnostics.
pub open spec fn diagnostic_views(v: Seq<Diagnostic>) -> Seq<DiagnosticModel> {
    Seq::new(v.len(), |i: int| v[i]@)
}

/// An error of the given kind at a range.
pub open spec fn error_at(kind: DiagnosticKind, range: Range, message: Seq<char>) -> DiagnosticModel {
    DiagnosticModel { severity: Severity::Error, range, kind, message }
}

impl Diagnostic {
    /// An error of the given kind at a range.
    pub fn error(kind: DiagnosticKind, range: Range, message: String) -> (d: Diagnostic)
        ensures
            d@ == error_at(kind, range, message@),
    {
        Diagnostic { severity: Severity::Error, range, kind, message }
    }

    /// A copy of the diagnostic.
    pub fn copy(&self) -> (d: Diagnostic)
        ensures
            d@ == self@,
    {
        Diagnostic {
            severity: self.severity,
            range: self.range,
            kind: self.kind,
            message: self.message.clone(),
        }
    }
}

impl Clone for Diagnostic {
    fn clone(&self) -> (d: Diagnostic)
        ensures
            d@ == self@,
    {
        self.copy()
    }
}

/// What an inlay hint shows.
#[derive(Debug, Clone, Copy, PartialEq, Eq, Structural)]
pub enum HintKind {
    /// The type of an equation, after its name.
    Type,
    /// The value that an equation folds to, after its semicolon.
    Value,
    /// Whether a test passed, after its tag.
    Verdict,
}

/// The mathematical model of an inlay hint.
pub struct HintModel {
    pub position: Position,
    pub label: Seq<char>,
    pub kind: HintKind,
}

/// A label shown at a position of the source.
#[derive(Debug, PartialEq, Eq)]
pub struct InlayHint {
    pub position: Position,
    pub label: String,
    pub kind: HintKind,
}

impl View for InlayHint {
    type V = HintModel;

    open spec fn view(&self) -> HintModel {
        HintModel { position: self.position, label: self.label@, kind: self.kind }
    }
}

/// The models of a list of hints.
pub open spec fn hint_views(v: Seq<InlayHint>) -> Seq<HintModel> {
    Seq::new(v.len(), |i: int| v[i]@)
}

impl InlayHint {
    /// A copy of the hint.
    pub fn copy(&self) -> (h: InlayHint)
        ensures
            h@ == self@,
    {
        InlayHint { position: self.position, label: self.label.clone(), kind: self.kind }
    }
}

impl Clone for InlayHint {
    fn clone(&self) -> (h: InlayHint)
        ensures
            h@ == self@,
    {
        self.copy()
    }
}

} // verus!
