//! What the scanner reports about input that begins no lexeme.

use vstd::prelude::*;

verus! {

/// The two recoverable lexical errors.
#[derive(Clone, Copy, Debug, PartialEq, Eq, Hash, Structural)]
pub enum ErrorKind {
    /// A character that begins no lexeme.
    UnexpectedCharacter,
    /// A string literal whose closing quote is missing.
    UnterminatedString,
}

impl ErrorKind {
    /// The wording of the error.
    pub open spec fn spec_message(self) -> Seq<char> {
        match self {
            ErrorKind::UnexpectedCharacter => "Unexpected character"@,
            ErrorKind::UnterminatedString => "Unterminated String."@,
        }
    }

    /// Returns the wording of the error.
    pub fn message(self) -> (text: &'static str)
        ensures
            text@ == self.spec_message(),
    {
        match self {
            ErrorKind::UnexpectedCharacter => "Unexpected character",
            ErrorKind::UnterminatedString => "Unterminated String.",
        }
    }
}

/// One reported error: what went wrong, and on which line.
#[derive(Clone, Copy, Debug, PartialEq, Eq, Hash, Structural)]
pub struct Diagnostic {
    pub kind: ErrorKind,
    pub line: usize,
}

/// A diagnostic with its line as a mathematical number.
pub struct DiagnosticView {
    pub kind: ErrorKind,
    pub line: nat,
}

impl View for Diagnostic {
    type V = DiagnosticView;

    open spec fn view(&self) -> DiagnosticView {
        DiagnosticView { kind: self.kind, line: self.line as nat }
    }
}

impl Diagnostic {
    /// Makes the diagnostic of kind `kind` for line `line`.
    pub fn new(kind: ErrorKind, line: usize) -> (d: Diagnostic)
        ensures
            d == (Diagnostic { kind, line }),
    {
        Diagnostic { kind, line }
    }

    /// Returns the wording of the error that the diagnostic reports.
    pub fn message(&self) -> (text: &'static str)
        ensures
            text@ == self.kind.spec_message(),
    {
        self.kind.message()
    }
}

/// The views of a sequence of diagnostics, in order.
pub open spec fn diagnostic_views(items: Seq<Diagnostic>) -> Seq<DiagnosticView> {
    items.map_values(|d: Diagnostic| d@)
}

} // verus!
