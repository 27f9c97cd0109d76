//! A small register machine for line-oriented scripts.
//!
//! A script is a text of lines. A line declares a label (`:name`), or holds
//! one operation: a mnemonic and its arguments, which name slots of a sparse
//! memory, labels, or numbers. A quotation mark opens a comment that runs to
//! the end of the line.
//!
//! [`Compiler`] turns a script into an [`Executable`]: the operations with
//! the tokens they were written with. [`Runtime`] executes it: it registers
//! the labels, then performs the operations one by one, collecting in its
//! `output` the bytes that `out` and `utf` write. Every failure, of
//! compiling or of running, names the token at fault and quotes its line.
//!
//! What each function does is stated over mathematical models: [`lexer::lex`]
//! for the tokens of a text, [`grammar::parse`] for the operations of tokens,
//! [`machine::effect`] for what an operation does to a state, and
//! [`program::ExecutableView::execution`] for the run of a program.

pub mod banner;
pub mod color;
pub mod compiler;
pub mod error;
pub mod grammar;
pub mod laws;
pub mod lexer;
pub mod machine;
pub mod op;
pub mod program;
pub mod runtime;
pub mod text;
pub mod token;

pub use color::Color;
pub use compiler::Compiler;
pub use op::{Op, Ref};
pub use program::{ops_view, Executable, ExecutableView, Outcome};
pub use runtime::Runtime;
pub use token::{tokens_view, Token, TokenKind, TokenKindView, TokenView};

use vstd::prelude::*;

verus! {

/// The name of a label.
pub type Label = String;

/// The name of a slot.
pub type Pos = String;

/// What a slot holds.
pub type Value = usize;

/// What performing an operation gives.
pub type PerformResult = Result<(), error::PerformError>;

} // verus!
