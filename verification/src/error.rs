//! The record of syntax errors.

use vstd::prelude::*;
use vstd::string::StringExecFns;
use crate::text::{decimal, decimal_digits};

verus! {

/// One reported error: where it was found and what was wrong.
#[derive(Debug)]
pub struct Diagnostic {
    pub line: usize,
    pub location: String,
    pub message: String,
}

/// The mathematical value of a [`Diagnostic`].
pub struct DiagnosticModel {
    pub line: nat,
    pub location: Seq<char>,
    pub message: Seq<char>,
}

impl View for Diagnostic {
    type V = DiagnosticModel;

    open spec fn view(&self) -> DiagnosticModel {
        DiagnosticModel { line: self.line as nat, location: self.location@, message: self.message@ }
    }
}

impl DiagnosticModel {
    /// The line that shows the error: `[line N] ErrorLOCATION: MESSAGE`.
    pub open spec fn text(self) -> Seq<char> {
        "[line "@ + decimal_digits(self.line) + "] Error"@ + self.location + ": "@ + self.message
    }
}

impl Diagnostic {
    /// The line that shows the error to the user.
    pub fn render(&self) -> (r: String)
        ensures
            r@ == self@.text(),
    {
        let mut r = String::from_str("[line ");
        r.append(decimal(self.line).as_str());
        r.append("] Error");
        r.append(self.location.as_str());
        r.append(": ");
        r.append(self.message.as_str());
        r
    }
}

/// Collects the errors found before evaluation and remembers whether
/// there was any.
pub struct ErrorReporter {
    had_error: bool,
    diagnostics: Vec<Diagnostic>,
}

/// The mathematical value of an [`ErrorReporter`].
pub struct ReporterModel {
    pub had_error: bool,
    pub diagnostics: Seq<DiagnosticModel>,
}

impl View for ErrorReporter {
    type V = ReporterModel;

    closed spec fn view(&self) -> ReporterModel {
        ReporterModel {
            had_error: self.had_error,
            diagnostics: self.diagnostics@.map_values(|d: Diagnostic| d@),
        }
    }
}

impl ErrorReporter {
    pub fn new() -> (r: Self)
        ensures
            !r@.had_error,
            r@.diagnostics == Seq::<DiagnosticModel>::empty(),
    {
        let r = ErrorReporter { had_error: false, diagnostics: Vec::new() };
        assert(r@.diagnostics =~= Seq::<DiagnosticModel>::empty());
        r
    }

    /// Records an error on `line` that names no place in it.
    pub fn error(&mut self, line: usize, message: &str)
        ensures
            final(self)@.had_error,
            final(self)@.diagnostics == old(self)@.diagnostics.push(
                DiagnosticModel { line: line as nat, location: Seq::empty(), message: message@ },
            ),
    {
        proof {
            reveal_strlit("");
        }
        assert(""@ =~= Seq::<char>::empty());
        self.report(line, "", message);
    }

    /// Records an error.
    pub fn report(&mut self, line: usize, location: &str, message: &str)
        ensures
            final(self)@.had_error,
            final(self)@.diagnostics == old(self)@.diagnostics.push(
                DiagnosticModel { line: line as nat, location: location@, message: message@ },
            ),
    {
        let d = Diagnostic {
            line,
            location: String::from_str(location),
            message: String::from_str(message),
        };
        self.diagnostics.push(d);
        self.had_error = true;
        assert(self@.diagnostics =~= old(self)@.diagnostics.push(
            DiagnosticModel { line: line as nat, location: location@, message: message@ },
        ));
    }

    /// Whether an error was recorded since the last reset.
    pub fn had_error(&self) -> (r: bool)
        ensures
            r == self@.had_error,
    {
        self.had_error
    }

    /// Forgets that there was an error. The record itself stays.
    pub fn reset(&mut self)
        ensures
            !final(self)@.had_error,
            final(self)@.diagnostics == old(self)@.diagnostics,
    {
        self.had_error = false;
    }

    /// Hands out the recorded errors, oldest first, and empties the record.
    pub fn take_diagnostics(&mut self) -> (r: Vec<Diagnostic>)
        ensures
            r@.map_values(|d: Diagnostic| d@) == old(self)@.diagnostics,
            final(self)@.diagnostics == Seq::<DiagnosticModel>::empty(),
            final(self)@.had_error == old(self)@.had_error,
    {
        let mut out: Vec<Diagnostic> = Vec::new();
        std::mem::swap(&mut out, &mut self.diagnostics);
        assert(self@.diagnostics =~= Seq::<DiagnosticModel>::empty());
        out
    }
}

} // verus!
