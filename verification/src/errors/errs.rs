//! Severity-tagged diagnostics and the sink that keeps the critical ones.

use vstd::prelude::*;
use crate::errors::pos::ErrorPosition;

verus! {

pub type BaseResult<K> = Result<K, BaseError>;

pub type CompilerResult<K> = Result<K, CompilerError>;

#[derive(Debug, Clone, Copy, PartialEq, Eq, Structural)]
pub enum ErrorKind {
    Warn,
    Error,
    Critical,
}

/// A diagnostic as the IR raises it: a severity and a message, no position.
#[derive(Debug)]
pub struct BaseError {
    pub kind: ErrorKind,
    pub str: String,
}

/// A diagnostic ready to be shown or handed to tooling: severity, message and,
/// where one is known, the span it points at.
#[derive(Debug)]
pub struct CompilerError {
    pub kind: ErrorKind,
    pub str: String,
    pub pos: Option<ErrorPosition>,
}

/// The sink of diagnostics that must not be lost. Records are only ever appended.
#[derive(Debug)]
pub struct ErrorStorage {
    pub errs: Vec<CompilerError>,
}

/// Whether a record holds the given severity and message and no position.
pub open spec fn is_posless_record(e: CompilerError, kind: ErrorKind, text: Seq<char>) -> bool {
    e.kind == kind && e.str@ == text && e.pos is None
}

/// Whether a record holds the given severity, message and span.
pub open spec fn is_record(
    e: CompilerError,
    kind: ErrorKind,
    text: Seq<char>,
    pos: ErrorPosition,
) -> bool {
    &&& e.kind == kind
    &&& e.str@ == text
    &&& e.pos matches Some(p)
    &&& p.line == pos.line
    &&& p.col == pos.col
    &&& p.size == pos.size
    &&& p.file_path@ == pos.file_path@
}

impl ErrorStorage {
    pub fn new() -> (r: Self)
        ensures
            r.errs@.len() == 0,
    {
        ErrorStorage { errs: Vec::new() }
    }

    /// Appends a record; what was recorded before stays, in its order.
    pub fn record(&mut self, err: CompilerError)
        ensures
            final(self).errs@ == old(self).errs@.push(err),
    {
        self.errs.push(err);
    }
}

impl BaseError {
    pub fn err(str: String) -> (r: Self)
        ensures
            r.kind == ErrorKind::Error,
            r.str == str,
    {
        BaseError { kind: ErrorKind::Error, str }
    }

    pub fn warn(str: String) -> (r: Self)
        ensures
            r.kind == ErrorKind::Warn,
            r.str == str,
    {
        BaseError { kind: ErrorKind::Warn, str }
    }

    /// A critical diagnostic. It is recorded in the sink at once, without a
    /// position, so that it cannot be dropped on the way up.
    pub fn critical(str: String, sink: &mut ErrorStorage) -> (r: Self)
        ensures
            r.kind == ErrorKind::Critical,
            r.str == str,
            final(sink).errs@.len() == old(sink).errs@.len() + 1,
            final(sink).errs@.subrange(0, old(sink).errs@.len() as int) == old(sink).errs@,
            is_posless_record(final(sink).errs@.last(), ErrorKind::Critical, str@),
    {
        let e = BaseError { kind: ErrorKind::Critical, str };
        let copy = BaseError { kind: ErrorKind::Critical, str: e.str.clone() };
        let _ = CompilerError::from_base_posless(copy, sink);
        e
    }
}

impl CompilerError {
    /// Gives a diagnostic its span. A critical one is also appended to the sink;
    /// the sink is left as it is for the other severities.
    pub fn from_base(base: BaseError, pos: ErrorPosition, sink: &mut ErrorStorage) -> (r: Self)
        ensures
            is_record(r, base.kind, base.str@, pos),
            base.kind == ErrorKind::Critical ==> {
                &&& final(sink).errs@.len() == old(sink).errs@.len() + 1
                &&& final(sink).errs@.subrange(0, old(sink).errs@.len() as int) == old(sink).errs@
                &&& is_record(final(sink).errs@.last(), base.kind, base.str@, pos)
            },
            base.kind != ErrorKind::Critical ==> final(sink).errs@ == old(sink).errs@,
    {
        let err = CompilerError { kind: base.kind, str: base.str, pos: Some(pos) };
        match err.kind {
            ErrorKind::Critical => {
                let copy = CompilerError {
                    kind: ErrorKind::Critical,
                    str: err.str.clone(),
                    pos: match &err.pos {
                        Some(p) => Some(p.duplicate()),
                        None => None,
                    },
                };
                let ghost before = sink.errs@;
                sink.record(copy);
                assert(sink.errs@.subrange(0, before.len() as int) =~= before);
            },
            _ => {},
        }
        err
    }

    /// Makes a record without a span. A critical one is also appended to the sink;
    /// the sink is left as it is for the other severities.
    pub fn from_base_posless(base: BaseError, sink: &mut ErrorStorage) -> (r: Self)
        ensures
            is_posless_record(r, base.kind, base.str@),
            base.kind == ErrorKind::Critical ==> {
                &&& final(sink).errs@.len() == old(sink).errs@.len() + 1
                &&& final(sink).errs@.subrange(0, old(sink).errs@.len() as int) == old(sink).errs@
                &&& is_posless_record(final(sink).errs@.last(), base.kind, base.str@)
            },
            base.kind != ErrorKind::Critical ==> final(sink).errs@ == old(sink).errs@,
    {
        let err = CompilerError { kind: base.kind, str: base.str, pos: None };
        match err.kind {
            ErrorKind::Critical => {
                let copy = CompilerError {
                    kind: ErrorKind::Critical,
                    str: err.str.clone(),
                    pos: None,
                };
                let ghost before = sink.errs@;
                sink.record(copy);
                assert(sink.errs@.subrange(0, before.len() as int) =~= before);
            },
            _ => {},
        }
        err
    }
}

/// Critical diagnostics are never dropped: whatever is recorded after one, it is
/// still in the sink, at the place where it was put.
pub proof fn law_critical_kept(before: Seq<CompilerError>, critical: CompilerError, later: Seq<CompilerError>)
    ensures
        (before.push(critical) + later)[before.len() as int] == critical,
        (before.push(critical) + later).len() == before.len() + 1 + later.len(),
{
}

} // verus!
