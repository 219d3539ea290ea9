//! Diagnostics: structured warning and error records collected during
//! parsing and validation.  The pipeline never aborts on a bad construct;
//! it returns a best-effort tree together with these records, and the
//! caller decides whether an error-severity record voids the result.

use vstd::prelude::*;

verus! {

/// How bad a diagnostic is.  Warnings do not invalidate the output; errors
/// should make the caller refuse to use it.
#[derive(Clone, Copy, Debug, PartialEq, Eq, Structural)]
pub enum Severity {
    /// Non-fatal: the offending content was dropped or repaired.
    Warning,
    /// Fatal to correctness, though a best-effort tree is still produced.
    Error,
}

/// One warning or error, with the character offset in the template source
/// that it points at.
#[derive(Debug)]
pub struct Diagnostic {
    /// How bad it is.
    pub severity: Severity,
    /// What went wrong.
    pub message: String,
    /// Character offset into the template source.
    pub position: usize,
}

/// The mathematical value of a [`Diagnostic`].
pub struct DiagnosticView {
    pub severity: Severity,
    pub message: Seq<char>,
    pub position: int,
}

impl View for Diagnostic {
    type V = DiagnosticView;

    open spec fn view(&self) -> DiagnosticView {
        DiagnosticView {
            severity: self.severity,
            message: self.message@,
            position: self.position as int,
        }
    }
}

/// The values of a diagnostic list.
pub open spec fn diags_view(ds: Seq<Diagnostic>) -> Seq<DiagnosticView> {
    ds.map_values(|d: Diagnostic| d@)
}

/// The view of a warning at `pos` with message `msg`.
pub open spec fn warning_view(msg: Seq<char>, pos: int) -> DiagnosticView {
    DiagnosticView { severity: Severity::Warning, message: msg, position: pos }
}

/// The view of an error at `pos` with message `msg`.
pub open spec fn error_view(msg: Seq<char>, pos: int) -> DiagnosticView {
    DiagnosticView { severity: Severity::Error, message: msg, position: pos }
}

/// Builds a warning diagnostic.
pub fn warning(msg: &str, pos: usize) -> (r: Diagnostic)
    ensures
        r@ == warning_view(msg@, pos as int),
{
    Diagnostic { severity: Severity::Warning, message: msg.to_owned(), position: pos }
}

/// Builds an error diagnostic.
pub fn error(msg: &str, pos: usize) -> (r: Diagnostic)
    ensures
        r@ == error_view(msg@, pos as int),
{
    Diagnostic { severity: Severity::Error, message: msg.to_owned(), position: pos }
}

/// Whether any record in the list is an error: the test a caller makes
/// before trusting a compiled tree.
pub fn has_errors(diags: &Vec<Diagnostic>) -> (r: bool)
    ensures
        r == exists|i: int|
            0 <= i < diags@.len() && #[trigger] diags@[i]@.severity == Severity::Error,
{
    let mut i: usize = 0;
    while i < diags.len()
        invariant
            i <= diags@.len(),
            forall|j: int| 0 <= j < i ==> #[trigger] diags@[j]@.severity != Severity::Error,
        decreases diags@.len() - i,
    {
        if matches!(diags[i].severity, Severity::Error) {
            assert(diags@[i as int]@.severity == Severity::Error);
            return true;
        }
        i = i + 1;
    }
    false
}

} // verus!
