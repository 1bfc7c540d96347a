//! Types relating to parser diagnostics.

use crate::span::Span;
use vstd::prelude::*;

verus! {

#[derive(Copy, Clone, Debug, PartialEq, Eq, Structural)]
pub enum DiagnosticKind {
    Error,
    Warn,
}

#[derive(Copy, Clone, Debug, PartialEq, Eq, Structural)]
pub enum Code {
    Unexpected,
    IntegerTooLarge,
    InvalidIntegerDigit,
    InvalidIntegerBase,
}

impl Code {
    /// The severity of a code. Every code is an error.
    pub open spec fn severity(self) -> DiagnosticKind {
        DiagnosticKind::Error
    }

    pub fn kind(&self) -> (k: DiagnosticKind)
        ensures
            k == self.severity(),
    {
        match *self {
            Code::Unexpected => DiagnosticKind::Error,
            Code::IntegerTooLarge => DiagnosticKind::Error,
            Code::InvalidIntegerDigit => DiagnosticKind::Error,
            Code::InvalidIntegerBase => DiagnosticKind::Error,
        }
    }
}

#[derive(Clone, Debug, PartialEq, Eq)]
pub struct Diagnostic {
    pub code: Code,
    pub span: Span,
    pub context: String,
}

/// What a diagnostic says, with its context as text.
pub struct Report {
    pub code: Code,
    pub span: Span,
    pub context: Seq<char>,
}

impl View for Diagnostic {
    type V = Report;

    open spec fn view(&self) -> Report {
        Report { code: self.code, span: self.span, context: self.context@ }
    }
}

#[derive(Clone, Debug, PartialEq, Eq)]
pub struct Diagnostics {
    diagnostics: Vec<Diagnostic>,
}

impl View for Diagnostics {
    type V = Seq<Report>;

    closed spec fn view(&self) -> Seq<Report> {
        Seq::new(self.diagnostics@.len(), |i: int| self.diagnostics@[i]@)
    }
}

impl Default for Diagnostics {
    fn default() -> (ds: Diagnostics)
        ensures
            ds@ == Seq::<Report>::empty(),
    {
        Diagnostics::new()
    }
}

/// Whether one of the reports is of error severity.
pub open spec fn any_error(reports: Seq<Report>) -> bool {
    exists|i: int| 0 <= i < reports.len() && (#[trigger] reports[i]).code.severity() == DiagnosticKind::Error
}

impl Diagnostics {
    pub fn new() -> (ds: Diagnostics)
        ensures
            ds@ == Seq::<Report>::empty(),
    {
        let ds = Diagnostics { diagnostics: Vec::new() };
        assert(ds@ =~= Seq::<Report>::empty());
        ds
    }

    /// Adds a diagnostic with the given span and context.
    pub fn add(&mut self, code: Code, span: Span, context: &str)
        ensures
            final(self)@ == old(self)@.push(Report { code, span, context: context@ }),
    {
        self.diagnostics.push(Diagnostic { code, span, context: context.to_owned() });
        assert(self@ =~= old(self)@.push(Report { code, span, context: context@ }));
    }

    /// Appends the diagnostics of `others`, in their order.
    pub fn combine(&mut self, others: Diagnostics)
        ensures
            final(self)@ == old(self)@ + others@,
    {
        let ghost appended = others@;
        let mut others = others;
        self.diagnostics.append(&mut others.diagnostics);
        assert(self@ =~= old(self)@ + appended);
    }

    pub fn has_errors(&self) -> (b: bool)
        ensures
            b == any_error(self@),
            b == (self@.len() > 0),
    {
        let mut i: usize = 0;
        while i < self.diagnostics.len()
            invariant
                i <= self.diagnostics@.len(),
                forall|j: int| 0 <= j < i ==> (#[trigger] self@[j]).code.severity() != DiagnosticKind::Error,
            decreases self.diagnostics@.len() - i,
        {
            let k = self.diagnostics[i].code.kind();
            if k == DiagnosticKind::Error {
                assert(self@[i as int].code.severity() == DiagnosticKind::Error);
                return true;
            }
            i += 1;
        }
        proof {
            if self@.len() > 0 {
                assert(self@[0].code.severity() == DiagnosticKind::Error);
            }
        }
        false
    }

    pub fn clear(&mut self)
        ensures
            final(self)@ == Seq::<Report>::empty(),
    {
        self.diagnostics.clear();
        assert(self@ =~= Seq::<Report>::empty());
    }

    /// The diagnostics in the order in which they were added.
    pub fn into_vec(self) -> (v: Vec<Diagnostic>)
        ensures
            v@.len() == self@.len(),
            forall|i: int| 0 <= i < v@.len() ==> (#[trigger] v@[i])@ == self@[i],
    {
        self.diagnostics
    }
}

} // verus!
