//! The lexer: how characters become tokens.

use vstd::prelude::*;
use crate::error::{CompileErrorKind, CompileErrorView};
use crate::text::{alphabetic, alphanumeric};
use crate::token::{tokens_view, Token, TokenKind, TokenKindView, TokenView};

verus! {

/// The part a character plays in the source text.
#[derive(Clone, Copy, Debug, PartialEq, Eq, Structural)]
pub enum CharClass {
    /// A letter or an underscore: part of a symbol.
    Letter,
    /// A numeric character that is no letter: part of a value.
    Digit,
    /// A space, a tab or a carriage return.
    Blank,
    /// The line feed that ends a line.
    LineFeed,
    /// The colon that announces a label.
    Colon,
    /// The quotation mark that opens a comment.
    Quote,
    /// Anything else: no token may hold it.
    Other,
}

/// The class of `c`, given whether Unicode counts it as alphabetic
/// (`letter`) and whether as alphabetic or numeric (`alnum`). The tests are
/// made in this order, so that a letter is never anything else.
pub open spec fn char_class(c: char, letter: bool, alnum: bool) -> CharClass {
    if letter || c == '_' {
        CharClass::Letter
    } else if alnum {
        CharClass::Digit
    } else if c == ' ' || c == '\t' || c == '\r' {
        CharClass::Blank
    } else if c == '\n' {
        CharClass::LineFeed
    } else if c == ':' {
        CharClass::Colon
    } else if c == '"' {
        CharClass::Quote
    } else {
        CharClass::Other
    }
}

/// The class of `c` in a source text.
pub open spec fn class_of(c: char) -> CharClass {
    char_class(c, alphabetic(c), alphanumeric(c))
}

/// Classifies `c` from the two answers of the Unicode tables.
pub fn classify(c: char, letter: bool, alnum: bool) -> (class: CharClass)
    ensures
        class == char_class(c, letter, alnum),
{
    if letter || c == '_' {
        CharClass::Letter
    } else if alnum {
        CharClass::Digit
    } else if c == ' ' || c == '\t' || c == '\r' {
        CharClass::Blank
    } else if c == '\n' {
        CharClass::LineFeed
    } else if c == ':' {
        CharClass::Colon
    } else if c == '"' {
        CharClass::Quote
    } else {
        CharClass::Other
    }
}

/// The state of a scan over mathematical values: the tokens made so far, the
/// letters and the digits that wait to become a token, which of the two
/// began to wait first, and the place of the next character.
pub struct Scan {
    pub tokens: Seq<TokenView>,
    pub symbol: Seq<char>,
    pub value: Seq<char>,
    /// Whether the waiting digits began before the waiting letters. It
    /// counts only while both wait.
    pub value_first: bool,
    pub line: nat,
    pub column: nat,
}

impl Scan {
    /// The state before the first character.
    pub open spec fn start() -> Scan {
        Scan {
            tokens: Seq::empty(),
            symbol: Seq::empty(),
            value: Seq::empty(),
            value_first: false,
            line: 0,
            column: 0,
        }
    }

    /// The place of the next character.
    pub open spec fn here(self) -> (nat, nat) {
        (self.line, self.column)
    }

    /// The state with one more token, placed at the next character.
    pub open spec fn emit(self, kind: TokenKindView) -> Scan {
        Scan { tokens: self.tokens.push(TokenView { kind, pos: self.here() }), ..self }
    }

    /// The state with the waiting letters as one more token, if any wait.
    pub open spec fn emit_symbol(self) -> Scan {
        if self.symbol.len() > 0 {
            self.emit(TokenKindView::Symbol(self.symbol))
        } else {
            self
        }
    }

    /// The state with the waiting digits as one more token, if any wait.
    pub open spec fn emit_value(self) -> Scan {
        if self.value.len() > 0 {
            self.emit(TokenKindView::Value(self.value))
        } else {
            self
        }
    }

    /// The state after the waiting letters and the waiting digits have each
    /// become a token, as far as there are any, in the order in which they
    /// began to wait. Both tokens are placed at the next character, which is
    /// the one that ends them.
    pub open spec fn flush(self) -> Scan {
        let emitted = if self.value_first {
            self.emit_value().emit_symbol()
        } else {
            self.emit_symbol().emit_value()
        };
        Scan { symbol: Seq::empty(), value: Seq::empty(), value_first: false, ..emitted }
    }

    /// The state with one more waiting letter. Where it is the first, the
    /// digits began before the letters exactly if some wait.
    pub open spec fn letter(self, c: char) -> Scan {
        Scan {
            symbol: self.symbol.push(c),
            value_first: if self.symbol.len() == 0 {
                self.value.len() > 0
            } else {
                self.value_first
            },
            ..self
        }
    }

    /// The state with one more waiting digit. Where it is the first, the
    /// digits began before the letters exactly if none of those wait.
    pub open spec fn digit(self, c: char) -> Scan {
        Scan {
            value: self.value.push(c),
            value_first: if self.value.len() == 0 {
                self.symbol.len() == 0
            } else {
                self.value_first
            },
            ..self
        }
    }

    /// The state one column further on the same line.
    pub open spec fn step(self) -> Scan {
        Scan { column: self.column + 1, ..self }
    }

    /// The state at the start of the next line.
    pub open spec fn wrap(self) -> Scan {
        Scan { line: self.line + 1, column: 0, ..self }
    }

    /// The state after the character `c` of class `class`. A letter or a
    /// digit waits; every other character first ends what waits, and a line
    /// feed, a colon and a quotation mark then become a token of their own.
    /// A character of class `Other` leaves the state as it is: the scan ends
    /// there.
    pub open spec fn feed(self, c: char, class: CharClass) -> Scan {
        match class {
            CharClass::Letter => self.letter(c).step(),
            CharClass::Digit => self.digit(c).step(),
            CharClass::Blank => self.flush().step(),
            CharClass::LineFeed => self.flush().emit(TokenKindView::Break).wrap(),
            CharClass::Colon => self.flush().emit(TokenKindView::Pin).step(),
            CharClass::Quote => self.flush().emit(TokenKindView::Comment).step(),
            CharClass::Other => self,
        }
    }

    /// The tokens of a text that ends in this state: what waits is ended, and
    /// a last line break follows, whether or not the text ends in one.
    pub open spec fn finish(self) -> Seq<TokenView> {
        self.flush().emit(TokenKindView::Break).tokens
    }

    /// The token that stands for the unexpected character `c` in a report.
    pub open spec fn stray(self, c: char) -> TokenView {
        TokenView { kind: TokenKindView::Symbol(seq![c]), pos: self.here() }
    }
}

/// What a scan in state `scan` makes of the characters `rest` of the source
/// `raw`: the tokens of the whole text, or the error for the first character
/// that no token may hold.
pub open spec fn scan_rest(raw: Seq<char>, scan: Scan, rest: Seq<char>) -> Result<
    Seq<TokenView>,
    CompileErrorView,
>
    decreases rest.len(),
{
    if rest.len() == 0 {
        Ok(scan.finish())
    } else if class_of(rest[0]) == CharClass::Other {
        Err(
            CompileErrorView::at(
                raw,
                CompileErrorKind::UnexpectedChar(rest[0]),
                scan.stray(rest[0]),
            ),
        )
    } else {
        scan_rest(raw, scan.feed(rest[0], class_of(rest[0])), rest.drop_first())
    }
}

/// The tokens of the source `raw`, or the error for its first character that
/// no token may hold.
pub open spec fn lex(raw: Seq<char>) -> Result<Seq<TokenView>, CompileErrorView> {
    scan_rest(raw, Scan::start(), raw)
}

/// A scan in progress.
pub struct Scanner {
    pub tokens: Vec<Token>,
    pub symbol: String,
    pub value: String,
    pub value_first: bool,
    pub line: usize,
    pub column: usize,
}

impl View for Scanner {
    type V = Scan;

    open spec fn view(&self) -> Scan {
        Scan {
            tokens: tokens_view(self.tokens@),
            symbol: self.symbol@,
            value: self.value@,
            value_first: self.value_first,
            line: self.line as nat,
            column: self.column as nat,
        }
    }
}

impl Scanner {
    /// A scan before the first character.
    pub fn new() -> (scanner: Scanner)
        ensures
            scanner@ == Scan::start(),
    {
        let scanner = Scanner {
            tokens: Vec::new(),
            symbol: String::new(),
            value: String::new(),
            value_first: false,
            line: 0,
            column: 0,
        };
        assert(tokens_view(scanner.tokens@) == Seq::<TokenView>::empty());
        scanner
    }

    fn emit(&mut self, kind: TokenKind)
        ensures
            final(self)@ == old(self)@.emit(kind@),
    {
        let token = Token { kind, pos: (self.line, self.column) };
        self.tokens.push(token);
        assert(tokens_view(self.tokens@) == tokens_view(old(self).tokens@).push(token@));
    }

    fn flush(&mut self)
        ensures
            final(self)@ == old(self)@.flush(),
    {
        let mut symbol = String::new();
        core::mem::swap(&mut self.symbol, &mut symbol);
        let mut value = String::new();
        core::mem::swap(&mut self.value, &mut value);
        let value_first = self.value_first;
        self.value_first = false;
        if value_first && !value.as_str().is_empty() {
            self.emit(TokenKind::Value(value));
            value = String::new();
        }
        if !symbol.as_str().is_empty() {
            self.emit(TokenKind::Symbol(symbol));
        }
        if !value.as_str().is_empty() {
            self.emit(TokenKind::Value(value));
        }
    }

    /// Takes in the character `c` of class `class`. Answers `false`, and
    /// leaves the scan as it is, where no token may hold the character.
    pub fn feed(&mut self, c: char, class: CharClass) -> (known: bool)
        requires
            old(self).line < usize::MAX,
            old(self).column < usize::MAX,
        ensures
            known == (class != CharClass::Other),
            final(self)@ == old(self)@.feed(c, class),
    {
        match class {
            CharClass::Letter => {
                if self.symbol.as_str().is_empty() {
                    self.value_first = !self.value.as_str().is_empty();
                }
                self.symbol.push(c);
                self.column = self.column + 1;
            },
            CharClass::Digit => {
                if self.value.as_str().is_empty() {
                    self.value_first = self.symbol.as_str().is_empty();
                }
                self.value.push(c);
                self.column = self.column + 1;
            },
            CharClass::Blank => {
                self.flush();
                self.column = self.column + 1;
            },
            CharClass::LineFeed => {
                self.flush();
                self.emit(TokenKind::Break);
                self.line = self.line + 1;
                self.column = 0;
            },
            CharClass::Colon => {
                self.flush();
                self.emit(TokenKind::Pin);
                self.column = self.column + 1;
            },
            CharClass::Quote => {
                self.flush();
                self.emit(TokenKind::Comment);
                self.column = self.column + 1;
            },
            CharClass::Other => {
                return false;
            },
        }
        true
    }

    /// Ends the scan and hands out the tokens.
    pub fn finish(self) -> (tokens: Vec<Token>)
        ensures
            tokens_view(tokens@) == self@.finish(),
    {
        let mut scanner = self;
        scanner.flush();
        scanner.emit(TokenKind::Break);
        scanner.tokens
    }

    /// The token that stands for the unexpected character `c` in a report.
    pub fn stray(&self, c: char) -> (token: Token)
        ensures
            token@ == self@.stray(c),
    {
        let mut text = String::new();
        text.push(c);
        Token { kind: TokenKind::Symbol(text), pos: (self.line, self.column) }
    }
}

/// Whether every character of `text` has the class `class`.
pub open spec fn all_of_class(text: Seq<char>, class: CharClass) -> bool {
    forall|i: int| 0 <= i < text.len() ==> class_of(#[trigger] text[i]) == class
}

/// How many of `tokens` are line breaks.
pub open spec fn breaks(tokens: Seq<TokenView>) -> nat
    decreases tokens.len(),
{
    if tokens.len() == 0 {
        0
    } else {
        breaks(tokens.drop_last()) + if tokens.last().kind is Break {
            1nat
        } else {
            0nat
        }
    }
}

/// How many characters of `text` are line feeds.
pub open spec fn line_feeds(text: Seq<char>) -> nat
    decreases text.len(),
{
    if text.len() == 0 {
        0
    } else {
        line_feeds(text.drop_first()) + if class_of(text[0]) == CharClass::LineFeed {
            1nat
        } else {
            0nat
        }
    }
}

impl TokenView {
    /// Whether the token is one that a scan makes: a symbol holds one or
    /// more letters, a value one or more digits.
    pub open spec fn scanned(self) -> bool {
        match self.kind {
            TokenKindView::Symbol(text) => text.len() > 0 && all_of_class(text, CharClass::Letter),
            TokenKindView::Value(text) => text.len() > 0 && all_of_class(text, CharClass::Digit),
            _ => true,
        }
    }
}

/// Whether each of `tokens` stands on the line whose number is the number of
/// line breaks before the token.
pub open spec fn lines_counted(tokens: Seq<TokenView>) -> bool {
    forall|i: int|
        0 <= i < tokens.len() ==> (#[trigger] tokens[i]).pos.0 == breaks(tokens.take(i))
}

impl Scan {
    /// Whether the tokens are such as a scan makes, each on the line that
    /// the line breaks before it count, and letters and digits wait apart.
    pub open spec fn wf(self) -> bool {
        &&& forall|i: int| 0 <= i < self.tokens.len() ==> (#[trigger] self.tokens[i]).scanned()
        &&& lines_counted(self.tokens)
        &&& self.line == breaks(self.tokens)
        &&& all_of_class(self.symbol, CharClass::Letter)
        &&& all_of_class(self.value, CharClass::Digit)
    }
}

/// One more token on the line that the line breaks so far count keeps the
/// lines counted.
pub proof fn lemma_lines_counted_push(tokens: Seq<TokenView>, token: TokenView)
    requires
        lines_counted(tokens),
        token.pos.0 == breaks(tokens),
    ensures
        lines_counted(tokens.push(token)),
{
    let pushed = tokens.push(token);
    assert forall|i: int| 0 <= i < pushed.len() implies (#[trigger] pushed[i]).pos.0 == breaks(
        pushed.take(i),
    ) by {
        assert(pushed.take(i) == tokens.take(i));
        if i == tokens.len() {
            assert(tokens.take(i) == tokens);
        }
    }
}

/// One more token is one more line break exactly if it is one.
pub proof fn lemma_breaks_push(tokens: Seq<TokenView>, token: TokenView)
    ensures
        breaks(tokens.push(token)) == breaks(tokens) + if token.kind is Break {
            1nat
        } else {
            0nat
        },
{
    assert(tokens.push(token).drop_last() == tokens);
}

/// The line breaks of tokens are those behind the first token, and the
/// first token if it is one.
pub proof fn lemma_breaks_first(tokens: Seq<TokenView>)
    requires
        tokens.len() > 0,
    ensures
        breaks(tokens) == breaks(tokens.drop_first()) + if tokens[0].kind is Break {
            1nat
        } else {
            0nat
        },
    decreases tokens.len(),
{
    let head = tokens.drop_last();
    if tokens.len() == 1 {
        assert(breaks(head) == 0);
    } else {
        lemma_breaks_first(head);
        assert(head.drop_first() == tokens.drop_first().drop_last());
    }
}

/// Ending what waits keeps a scan well formed and makes no line break.
pub proof fn lemma_flush_keeps_wf(scan: Scan)
    requires
        scan.wf(),
    ensures
        scan.flush().wf(),
        breaks(scan.flush().tokens) == breaks(scan.tokens),
{
    let first = if scan.value_first {
        scan.emit_value()
    } else {
        scan.emit_symbol()
    };
    let second = if scan.value_first {
        first.emit_symbol()
    } else {
        first.emit_value()
    };
    if first.tokens.len() > scan.tokens.len() {
        lemma_breaks_push(scan.tokens, first.tokens.last());
        lemma_lines_counted_push(scan.tokens, first.tokens.last());
    }
    if second.tokens.len() > first.tokens.len() {
        lemma_breaks_push(first.tokens, second.tokens.last());
        lemma_lines_counted_push(first.tokens, second.tokens.last());
    }
}

/// A character that a token may hold keeps a scan well formed, and makes a
/// line break exactly if it is a line feed.
pub proof fn lemma_feed_keeps_wf(scan: Scan, c: char)
    requires
        scan.wf(),
        class_of(c) != CharClass::Other,
    ensures
        scan.feed(c, class_of(c)).wf(),
        breaks(scan.feed(c, class_of(c)).tokens) == breaks(scan.tokens) + if class_of(c)
            == CharClass::LineFeed {
            1nat
        } else {
            0nat
        },
{
    lemma_flush_keeps_wf(scan);
    let after = scan.feed(c, class_of(c));
    if after.tokens.len() > scan.flush().tokens.len() {
        // A line feed, a colon or a quotation mark: one more token.
        lemma_breaks_push(scan.flush().tokens, after.tokens.last());
        lemma_lines_counted_push(scan.flush().tokens, after.tokens.last());
    }
}

/// What a scan makes of a text: tokens exactly if no character of the text
/// is one that no token may hold, and else the error for the first such
/// character. The tokens end in a line break, they hold one line break more
/// than the text holds line feeds, each stands on the line that the line
/// breaks before it count, every symbol among them holds one or more letters
/// and every value one or more digits.
pub proof fn lemma_scan_rest(raw: Seq<char>, scan: Scan, rest: Seq<char>)
    requires
        scan.wf(),
    ensures
        match scan_rest(raw, scan, rest) {
            Ok(tokens) => {
                &&& all_known(rest)
                &&& tokens.len() > 0
                &&& tokens.last().kind is Break
                &&& breaks(tokens) == breaks(scan.tokens) + line_feeds(rest) + 1
                &&& lines_counted(tokens)
                &&& forall|i: int| 0 <= i < tokens.len() ==> (#[trigger] tokens[i]).scanned()
            },
            Err(error) => exists|at: int|
                {
                    &&& 0 <= at < rest.len()
                    &&& class_of(#[trigger] rest[at]) == CharClass::Other
                    &&& all_known(rest.take(at))
                    &&& error.kind == CompileErrorKind::UnexpectedChar(rest[at])
                },
        },
    decreases rest.len(),
{
    if rest.len() == 0 {
        lemma_flush_keeps_wf(scan);
        lemma_breaks_push(scan.flush().tokens, scan.finish().last());
        lemma_lines_counted_push(scan.flush().tokens, scan.finish().last());
    } else if class_of(rest[0]) != CharClass::Other {
        let after = scan.feed(rest[0], class_of(rest[0]));
        let tail = rest.drop_first();
        lemma_feed_keeps_wf(scan, rest[0]);
        lemma_scan_rest(raw, after, tail);
        match scan_rest(raw, scan, rest) {
            Ok(tokens) => {
                assert forall|i: int| 0 <= i < rest.len() implies class_of(#[trigger] rest[i])
                    != CharClass::Other by {
                    if i > 0 {
                        assert(rest[i] == tail[i - 1]);
                    }
                }
            },
            Err(error) => {
                let at = choose|at: int|
                    {
                        &&& 0 <= at < tail.len()
                        &&& class_of(#[trigger] tail[at]) == CharClass::Other
                        &&& all_known(tail.take(at))
                        &&& error.kind == CompileErrorKind::UnexpectedChar(tail[at])
                    };
                assert forall|i: int| 0 <= i < rest.take(at + 1).len() implies class_of(
                    #[trigger] rest.take(at + 1)[i],
                ) != CharClass::Other by {
                    if i > 0 {
                        assert(rest.take(at + 1)[i] == tail.take(at)[i - 1]);
                    }
                }
            },
        }
    }
}

/// Whether every character of `text` is one that a token may hold.
pub open spec fn all_known(text: Seq<char>) -> bool {
    forall|i: int| 0 <= i < text.len() ==> class_of(#[trigger] text[i]) != CharClass::Other
}

/// The tokens of a source text end in a line break, whether or not the text
/// ends in a line feed; they hold one line break for each line feed and one
/// more; each token stands on the line whose number is the number of line
/// breaks before it; every symbol holds one or more letters and every value
/// one or more digits. A text has tokens exactly if each of its characters
/// is one that a token may hold, and else the error names the first that is
/// not.
pub proof fn lemma_lex(raw: Seq<char>)
    ensures
        match lex(raw) {
            Ok(tokens) => {
                &&& all_known(raw)
                &&& tokens.len() > 0
                &&& tokens.last().kind is Break
                &&& breaks(tokens) == line_feeds(raw) + 1
                &&& lines_counted(tokens)
                &&& forall|i: int| 0 <= i < tokens.len() ==> (#[trigger] tokens[i]).scanned()
            },
            Err(error) => exists|at: int|
                {
                    &&& 0 <= at < raw.len()
                    &&& class_of(#[trigger] raw[at]) == CharClass::Other
                    &&& all_known(raw.take(at))
                    &&& error.kind == CompileErrorKind::UnexpectedChar(raw[at])
                },
        },
{
    lemma_scan_rest(raw, Scan::start(), raw);
}

} // verus!
