//! The compiler: from a source text to tokens, from tokens to operations.

use vstd::prelude::*;
use vstd::std_specs::iter::IteratorSpec;
use crate::error::{CompileError, CompileErrorKind, CompileErrorView};
use crate::grammar::{lemma_on_one_line, lemma_parse_wf, lemma_take_keeps_wf, parse_rest, Line};
use crate::lexer::{classify, lemma_lex, lex, line_feeds, scan_rest, Scanner};
use crate::op::{OpWrap, OpWrapView};
use crate::program::{ops_view, Executable, ExecutableView};
use crate::text::{line_text, push_text};
use crate::token::{tokens_view, Token, TokenKind};

verus! {

/// Turns a source text into an executable. It keeps the text it last
/// compiled, from which its reports quote the line at fault.
pub struct Compiler {
    raw: String,
}

impl Default for Compiler {
    fn default() -> (compiler: Self)
        ensures
            compiler.source() == Seq::<char>::empty(),
    {
        Compiler { raw: String::new() }
    }
}

impl Compiler {
    /// The source text that the compiler holds.
    pub closed spec fn source(&self) -> Seq<char> {
        self.raw@
    }

    /// A compiler that holds the source text `raw`.
    pub fn new(raw: &str) -> (compiler: Self)
        ensures
            compiler.source() == raw@,
    {
        let mut text = String::new();
        push_text(&mut text, raw);
        Compiler { raw: text }
    }

    /// The error of kind `kind` that blames the token `tokens[index]`: it
    /// quotes the line of the held source on which the token stands.
    pub fn throw_at(&self, kind: CompileErrorKind, tokens: &[Token], index: usize) -> (error:
        CompileError)
        requires
            index < tokens@.len(),
        ensures
            error@ == CompileErrorView::at(self.source(), kind, tokens@[index as int]@),
    {
        let token = &tokens[index];
        CompileError {
            kind,
            line: line_text(self.raw.as_str(), token.pos.0),
            pos: token.pos,
            len: token.len(),
        }
    }

    /// The tokens of the held source, or the error for its first character
    /// that no token may hold.
    pub fn tokenize(&self) -> (result: Result<Vec<Token>, CompileError>)
        ensures
            match lex(self.source()) {
                Ok(tokens) => result is Ok && tokens_view(result->Ok_0@) == tokens,
                Err(error) => result is Err && result->Err_0@ == error,
            },
    {
        let raw = self.raw.as_str();
        let total = raw.unicode_len();
        let mut scanner = Scanner::new();
        let mut chars = raw.chars();
        let ghost mut i: int = 0;
        loop
            invariant
                raw@ == self.source(),
                total == raw@.len(),
                0 <= i <= raw@.len(),
                chars.remaining() == raw@.skip(i),
                scanner.line + scanner.column <= i,
                lex(raw@) == scan_rest(raw@, scanner@, raw@.skip(i)),
            decreases raw@.len() - i,
        {
            match chars.next() {
                Some(c) => {
                    let class = classify(c, c.is_alphabetic(), c.is_alphanumeric());
                    if !scanner.feed(c, class) {
                        let stray = [scanner.stray(c)];
                        return Err(
                            self.throw_at(CompileErrorKind::UnexpectedChar(c), &stray, 0),
                        );
                    }
                    proof {
                        assert(raw@.skip(i).drop_first() == raw@.skip(i + 1));
                        i = i + 1;
                    }
                },
                None => {
                    return Ok(scanner.finish());
                },
            }
        }
    }

    /// The operations that `tokens` write, one for each line that holds a
    /// declaration or a mnemonic, or the error for the first token or line
    /// at fault. The error quotes the held source.
    pub fn parse(&self, tokens: &Vec<Token>) -> (result: Result<Vec<OpWrap>, CompileError>)
        ensures
            match crate::grammar::parse(self.source(), tokens_view(tokens@)) {
                Ok(ops) => result is Ok && ops_view(result->Ok_0@) == ops,
                Err(error) => result is Err && result->Err_0@ == error,
            },
            result matches Ok(ops) ==> forall|i: int|
                0 <= i < ops@.len() ==> {
                    &&& (#[trigger] ops_view(ops@)[i]).wf()
                    &&& ops_view(ops@)[i].spelled()
                    &&& ops_view(ops@)[i].lined()
                },
    {
        let ghost all = tokens_view(tokens@);
        let mut ops: Vec<OpWrap> = Vec::new();
        let mut line = Line::new();
        let mut i: usize = 0;
        assert(all.skip(0) == all);
        assert(ops_view(ops@) == Seq::<OpWrapView>::empty());
        while i < tokens.len()
            invariant
                i <= tokens.len(),
                all == tokens_view(tokens@),
                line@.wf(),
                crate::grammar::parse(self.source(), all) == parse_rest(
                    self.source(),
                    ops_view(ops@),
                    line@,
                    all.skip(i as int),
                ),
            decreases tokens.len() - i,
        {
            let token = &tokens[i];
            proof {
                assert(all.skip(i as int).drop_first() == all.skip(i + 1));
                if !(token@.kind is Break) {
                    lemma_take_keeps_wf(line@, token@);
                }
            }
            let blame = match &token.kind {
                TokenKind::Break => match line.end(token) {
                    Ok(Some(op)) => {
                        let ghost before = ops@;
                        ops.push(op);
                        assert(ops_view(ops@) == ops_view(before).push(op@));
                        None
                    },
                    Ok(None) => None,
                    Err(blame) => Some(blame),
                },
                _ => match line.take(token) {
                    Ok(()) => None,
                    Err(blame) => Some(blame),
                },
            };
            if let Some(blame) = blame {
                return Err(self.throw_at(blame.kind, line.tokens.as_slice(), blame.index));
            }
            i = i + 1;
        }
        proof {
            lemma_parse_wf(self.source(), all);
        }
        Ok(ops)
    }

    /// Compiles the source text `raw`, which the compiler holds from then
    /// on: the operations that its tokens write, or the error for the first
    /// character, token or line at fault.
    pub fn compile(&mut self, raw: &str) -> (result: Result<Executable, CompileError>)
        ensures
            final(self).source() == raw@,
            match compile(raw@) {
                Ok(exe) => result is Ok && result->Ok_0@ == exe,
                Err(error) => result is Err && result->Err_0@ == error,
            },
            result matches Ok(exe) ==> exe@.wf() && exe@.spelled() && exe@.lined(),
    {
        *self = Compiler::new(raw);
        let tokens = match self.tokenize() {
            Ok(tokens) => tokens,
            Err(error) => {
                return Err(error);
            },
        };
        let ops = match self.parse(&tokens) {
            Ok(ops) => ops,
            Err(error) => {
                return Err(error);
            },
        };
        proof {
            lemma_compile(raw@);
        }
        Ok(Executable { ops, raw: self.raw.clone() })
    }
}

/// The program that the source text `raw` writes, or the error for the
/// first character, token or line at fault.
pub open spec fn compile(raw: Seq<char>) -> Result<ExecutableView, CompileErrorView> {
    match lex(raw) {
        Err(error) => Err(error),
        Ok(tokens) => match crate::grammar::parse(raw, tokens) {
            Err(error) => Err(error),
            Ok(ops) => Ok(ExecutableView { ops, raw }),
        },
    }
}

/// A compiled program keeps its source text; every operation of it is well
/// formed, is the one that the words of its line spell, and keeps the tokens
/// of that one line, which all stand on it; and there are at most as many
/// operations as the source has lines.
pub proof fn lemma_compile(raw: Seq<char>)
    ensures
        compile(raw) matches Ok(exe) ==> {
            &&& exe.raw == raw
            &&& exe.wf()
            &&& exe.spelled()
            &&& exe.lined()
            &&& exe.ops.len() <= line_feeds(raw) + 1
        },
{
    lemma_lex(raw);
    if let Ok(tokens) = lex(raw) {
        lemma_parse_wf(raw, tokens);
        if let Ok(ops) = crate::grammar::parse(raw, tokens) {
            assert forall|i: int| 0 <= i < ops.len() implies (#[trigger] ops[i]).on_one_line() by {
                lemma_on_one_line(ops[i], tokens);
            }
        }
    }
}

} // verus!
