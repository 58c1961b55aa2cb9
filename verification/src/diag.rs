//! Compiler diagnostics produced by the verified analyses.
use vstd::prelude::*;

verus! {

/// A source range, in bytes.
#[derive(Clone, Copy, Debug, PartialEq, Eq, Hash, Structural)]
pub struct Span {
    pub start: usize,
    pub end: usize,
}

/// An error diagnostic with a code and a primary label.
#[derive(Debug)]
pub struct Diagnostic {
    pub message: String,
    pub code: String,
    pub span: Span,
    pub label: String,
}

/// The mathematical value of a `Diagnostic`.
pub struct DiagnosticView {
    pub message: Seq<char>,
    pub code: Seq<char>,
    pub span: Span,
    pub label: Seq<char>,
}

impl View for Diagnostic {
    type V = DiagnosticView;

    open spec fn view(&self) -> DiagnosticView {
        DiagnosticView { message: self.message@, code: self.code@, span: self.span, label: self.label@ }
    }
}

pub open spec fn diags_view(s: Seq<Diagnostic>) -> Seq<DiagnosticView> {
    s.map_values(|d: Diagnostic| d@)
}

} // verus!
