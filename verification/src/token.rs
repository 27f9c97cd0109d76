//! Tokens and their positions.

use vstd::prelude::*;
use vstd::utf8::encode_utf8;

verus! {

/// What a token is. A symbol and a value carry their text.
#[derive(Debug, PartialEq, Eq)]
pub enum TokenKind {
    /// Letters and underscores: a mnemonic, a slot or a label.
    Symbol(String),
    /// A numeric literal.
    Value(String),
    /// The end of a line.
    Break,
    /// The colon that announces a label.
    Pin,
    /// The quotation mark that opens a comment.
    Comment,
}

/// A token kind with its text as a sequence of characters.
pub enum TokenKindView {
    Symbol(Seq<char>),
    Value(Seq<char>),
    Break,
    Pin,
    Comment,
}

impl View for TokenKind {
    type V = TokenKindView;

    open spec fn view(&self) -> TokenKindView {
        match self {
            TokenKind::Symbol(text) => TokenKindView::Symbol(text@),
            TokenKind::Value(text) => TokenKindView::Value(text@),
            TokenKind::Break => TokenKindView::Break,
            TokenKind::Pin => TokenKindView::Pin,
            TokenKind::Comment => TokenKindView::Comment,
        }
    }
}

impl Clone for TokenKind {
    fn clone(&self) -> (copy: Self)
        ensures
            copy == *self,
    {
        match self {
            TokenKind::Symbol(text) => TokenKind::Symbol(text.clone()),
            TokenKind::Value(text) => TokenKind::Value(text.clone()),
            TokenKind::Break => TokenKind::Break,
            TokenKind::Pin => TokenKind::Pin,
            TokenKind::Comment => TokenKind::Comment,
        }
    }
}

impl TokenKindView {
    /// The text of a symbol or a value; empty for the other kinds.
    pub open spec fn text(self) -> Seq<char> {
        match self {
            TokenKindView::Symbol(text) => text,
            TokenKindView::Value(text) => text,
            _ => Seq::empty(),
        }
    }
}

/// A token and where it stands: line and column, both counted from 0.
#[derive(Debug, PartialEq, Eq)]
pub struct Token {
    pub kind: TokenKind,
    pub pos: (usize, usize),
}

/// A token over mathematical values.
pub struct TokenView {
    pub kind: TokenKindView,
    pub pos: (nat, nat),
}

impl View for Token {
    type V = TokenView;

    open spec fn view(&self) -> TokenView {
        TokenView { kind: self.kind@, pos: (self.pos.0 as nat, self.pos.1 as nat) }
    }
}

impl Clone for Token {
    fn clone(&self) -> (copy: Self)
        ensures
            copy == *self,
    {
        Token { kind: self.kind.clone(), pos: self.pos }
    }
}

impl TokenView {
    /// How many columns a mark under the token spans: for a symbol the
    /// length of its text in bytes of UTF-8, for any other token 1.
    pub open spec fn len(self) -> nat {
        match self.kind {
            TokenKindView::Symbol(text) => encode_utf8(text).len(),
            _ => 1,
        }
    }
}

impl Token {
    /// How many columns a mark under the token spans.
    pub fn len(&self) -> (n: usize)
        ensures
            n == self@.len(),
    {
        match &self.kind {
            TokenKind::Symbol(text) => text.as_str().as_bytes().len(),
            _ => 1,
        }
    }
}

/// The views of a sequence of tokens, in order.
pub open spec fn tokens_view(tokens: Seq<Token>) -> Seq<TokenView> {
    tokens.map_values(|t: Token| t@)
}

} // verus!
