//! The errors of compiling and of running, each with the place it blames.

use vstd::prelude::*;
use crate::text::line_of;
use crate::token::TokenView;
use crate::{Label, Pos};

verus! {

/// Why a source text was refused.
#[derive(Clone, Copy, Debug, PartialEq, Eq, Structural)]
pub enum CompileErrorKind {
    /// A character that no token may hold.
    UnexpectedChar(char),
    /// A mnemonic that names no operation.
    UnknownOp,
    /// A label marker behind a mnemonic, or a second name for one label.
    InvalidLocation,
    /// A line that ends before its operation has all its arguments.
    ExpectedArgument,
}

/// A failure of compilation, with what a report of it shows: the text of the
/// source line, the position of the token at fault and the width of the mark
/// under it.
#[derive(Debug, PartialEq, Eq)]
pub struct CompileError {
    pub kind: CompileErrorKind,
    pub line: String,
    pub pos: (usize, usize),
    pub len: usize,
}

/// A compile error over mathematical values.
pub struct CompileErrorView {
    pub kind: CompileErrorKind,
    pub line: Seq<char>,
    pub pos: (nat, nat),
    pub len: nat,
}

impl View for CompileError {
    type V = CompileErrorView;

    open spec fn view(&self) -> CompileErrorView {
        CompileErrorView {
            kind: self.kind,
            line: self.line@,
            pos: (self.pos.0 as nat, self.pos.1 as nat),
            len: self.len as nat,
        }
    }
}

impl CompileErrorView {
    /// The error of kind `kind` that blames `token` in the source `raw`.
    pub open spec fn at(raw: Seq<char>, kind: CompileErrorKind, token: TokenView) -> Self {
        CompileErrorView {
            kind,
            line: line_of(raw, token.pos.0),
            pos: token.pos,
            len: token.len(),
        }
    }
}

/// Why an execution was aborted.
#[derive(Debug, PartialEq, Eq)]
pub enum RuntimeErrorKind {
    /// A slot was read that was never written.
    Undefined(Pos),
    /// A conditional jump found no comparison result.
    NoCompare,
    /// A jump names a label that the program does not declare.
    NoPin(Label),
    /// A label is declared a second time.
    DuplicatePin(Label),
    /// A return found the call stack empty.
    NoReturn,
    /// An addition whose sum no slot can hold.
    Overflow,
    /// A subtraction of more than the slot holds.
    Underflow,
}

/// A runtime error kind with its names as sequences of characters.
pub enum RuntimeErrorKindView {
    Undefined(Seq<char>),
    NoCompare,
    NoPin(Seq<char>),
    DuplicatePin(Seq<char>),
    NoReturn,
    Overflow,
    Underflow,
}

impl View for RuntimeErrorKind {
    type V = RuntimeErrorKindView;

    open spec fn view(&self) -> RuntimeErrorKindView {
        match self {
            RuntimeErrorKind::Undefined(name) => RuntimeErrorKindView::Undefined(name@),
            RuntimeErrorKind::NoCompare => RuntimeErrorKindView::NoCompare,
            RuntimeErrorKind::NoPin(label) => RuntimeErrorKindView::NoPin(label@),
            RuntimeErrorKind::DuplicatePin(label) => RuntimeErrorKindView::DuplicatePin(label@),
            RuntimeErrorKind::NoReturn => RuntimeErrorKindView::NoReturn,
            RuntimeErrorKind::Overflow => RuntimeErrorKindView::Overflow,
            RuntimeErrorKind::Underflow => RuntimeErrorKindView::Underflow,
        }
    }
}

/// The failure of one operation, before it is tied to a place in the source.
#[derive(Debug, PartialEq, Eq)]
pub struct PerformError(pub RuntimeErrorKind);

impl View for PerformError {
    type V = RuntimeErrorKindView;

    open spec fn view(&self) -> RuntimeErrorKindView {
        self.0@
    }
}

/// A failure of execution, with what a report of it shows: the text of the
/// source line, the position of the token at fault and the width of the mark
/// under it.
#[derive(Debug, PartialEq, Eq)]
pub struct RuntimeError {
    pub kind: RuntimeErrorKind,
    pub line: String,
    pub loc: (usize, usize),
    pub len: usize,
}

/// A runtime error over mathematical values.
pub struct RuntimeErrorView {
    pub kind: RuntimeErrorKindView,
    pub line: Seq<char>,
    pub loc: (nat, nat),
    pub len: nat,
}

impl View for RuntimeError {
    type V = RuntimeErrorView;

    open spec fn view(&self) -> RuntimeErrorView {
        RuntimeErrorView {
            kind: self.kind@,
            line: self.line@,
            loc: (self.loc.0 as nat, self.loc.1 as nat),
            len: self.len as nat,
        }
    }
}

impl RuntimeErrorView {
    /// The error of kind `kind` that blames `token` in the source `raw`.
    pub open spec fn at(raw: Seq<char>, kind: RuntimeErrorKindView, token: TokenView) -> Self {
        RuntimeErrorView {
            kind,
            line: line_of(raw, token.pos.0),
            loc: token.pos,
            len: token.len(),
        }
    }
}

} // verus!
