//! Compiler diagnostics.
use vstd::prelude::*;

use crate::utils::Span;

verus! {

/// Diagnostic codes.
#[derive(Debug, Clone, Copy, PartialEq, Eq)]
pub enum RRCode {
    E0001,
    E1001,
    E1002,
    E2001,
    E2007,
    E9999,
    ICE9001,
}

/// The compiler stage that reported a diagnostic.
#[derive(Debug, Clone, Copy, PartialEq, Eq)]
pub enum Stage {
    Lex,
    Parse,
    Lower,
    Mir,
    Opt,
    Codegen,
    Runtime,
    Runner,
    Ice,
}

/// A step of the compiler that a diagnostic passed through on its way out.
#[derive(Debug)]
pub struct Frame {
    pub name: String,
    pub span: Option<Span>,
}

/// A compiler diagnostic: its module (such as `RR.SemanticError`), code,
/// stage and message, with the frames it passed through.
#[derive(Debug)]
pub struct RRException {
    pub module: String,
    pub code: RRCode,
    pub stage: Stage,
    pub message: String,
    pub frames: Vec<Frame>,
}

pub type RR<T> = Result<T, RRException>;

impl RRException {
    pub fn new(module: &str, code: RRCode, stage: Stage, message: &str) -> (e: RRException)
        ensures
            e.module@ == module@,
            e.code == code,
            e.stage == stage,
            e.message@ == message@,
            e.frames@.len() == 0,
    {
        RRException {
            module: module.to_owned(),
            code,
            stage,
            message: message.to_owned(),
            frames: Vec::new(),
        }
    }

    /// Records that the diagnostic passed through the step `name`.
    pub fn with_frame(self, name: &str, span: Option<Span>) -> (e: RRException)
        ensures
            e.module == self.module,
            e.code == self.code,
            e.stage == self.stage,
            e.message == self.message,
            e.frames@.len() == self.frames@.len() + 1,
            forall|i: int| 0 <= i < self.frames@.len() ==> e.frames@[i] == self.frames@[i],
            e.frames@.last().name@ == name@,
            e.frames@.last().span == span,
    {
        let mut e = self;
        e.frames.push(Frame { name: name.to_owned(), span });
        e
    }
}

} // verus!
