//! The grammar of a line: how tokens are read into a declaration or an
//! operation, and what each mnemonic means.

use vstd::prelude::*;
use crate::error::{CompileErrorKind, CompileErrorView};
use crate::machine::{OpView, RefView};
use crate::op::{
    first_symbol, lemma_first_symbol, lemma_first_symbol_is, Add, Cmp, End, Jel, Jif, Jmp, Mov,
    OpKind, OpWrap, OpWrapView, Out, Pin, Ref, Ret, Sub, Utf,
};
use crate::lexer::{breaks, lemma_breaks_first, lemma_breaks_push, lines_counted};
use crate::text::{number, parse_number, text_eq};
use crate::token::{tokens_view, Token, TokenKind, TokenKindView, TokenView};

verus! {

impl RefView {
    /// The reference that the text of an argument stands for: a number where
    /// the text writes one, else the slot of that name.
    pub open spec fn of(text: Seq<char>) -> RefView {
        match number(text) {
            Some(value) => RefView::Value(value),
            None => RefView::Pos(text),
        }
    }
}

impl Ref {
    /// The reference that the text of an argument stands for. It never
    /// fails: a text that writes no number names a slot.
    pub fn from_str(s: &str) -> (result: Result<Ref, crate::error::CompileError>)
        ensures
            result is Ok,
            result->Ok_0@ == RefView::of(s@),
    {
        Ok(Ref::of(s))
    }

    /// The reference that the text of an argument stands for.
    pub fn of(s: &str) -> (refer: Ref)
        ensures
            refer@ == RefView::of(s@),
    {
        match parse_number(s) {
            Some(value) => Ref::Value(value),
            None => Ref::Pos(s.to_owned()),
        }
    }
}

/// How many arguments the operation of the mnemonic `name` takes. `None`
/// where the mnemonic names no operation.
pub open spec fn arity(name: Seq<char>) -> Option<nat> {
    if name == "mov"@ || name == "add"@ || name == "sub"@ || name == "cmp"@ {
        Some(2)
    } else if name == "jif"@ || name == "jel"@ || name == "jmp"@ || name == "out"@ || name
        == "utf"@ {
        Some(1)
    } else if name == "ret"@ || name == "end"@ {
        Some(0)
    } else {
        None
    }
}

/// The operation of the mnemonic `name` with the arguments `args`, of which
/// only as many count as the operation takes. A slot and a label are taken
/// by their text; a reference is a number where its text writes one.
pub open spec fn operation(name: Seq<char>, args: Seq<Seq<char>>) -> OpView {
    if name == "mov"@ {
        OpView::Mov(args[0], RefView::of(args[1]))
    } else if name == "add"@ {
        OpView::Add(args[0], RefView::of(args[1]))
    } else if name == "sub"@ {
        OpView::Sub(args[0], RefView::of(args[1]))
    } else if name == "cmp"@ {
        OpView::Cmp(args[0], RefView::of(args[1]))
    } else if name == "jif"@ {
        OpView::Jif(args[0])
    } else if name == "jel"@ {
        OpView::Jel(args[0])
    } else if name == "jmp"@ {
        OpView::Jmp(args[0])
    } else if name == "out"@ {
        OpView::Out(RefView::of(args[0]))
    } else if name == "utf"@ {
        OpView::Utf(RefView::of(args[0]))
    } else if name == "ret"@ {
        OpView::Ret
    } else {
        OpView::End
    }
}

/// What a line with the mnemonic `name` and the arguments `args` means: its
/// operation, or the error for a mnemonic that names none, or for arguments
/// that are too few. Arguments beyond those that the operation takes are
/// passed over.
pub open spec fn decode(name: Seq<char>, args: Seq<Seq<char>>) -> Result<OpView, CompileErrorKind> {
    match arity(name) {
        None => Err(CompileErrorKind::UnknownOp),
        Some(n) => if args.len() < n {
            Err(CompileErrorKind::ExpectedArgument)
        } else {
            Ok(operation(name, args))
        },
    }
}

/// The views of a sequence of texts, in order.
pub open spec fn texts_view(texts: Seq<String>) -> Seq<Seq<char>> {
    texts.map_values(|text: String| text@)
}

/// How far a line has been read.
pub enum PhaseView {
    /// Nothing that counts has been read.
    Start,
    /// A label marker has been read, and the label's name if it is there.
    Label(Option<Seq<char>>),
    /// A mnemonic has been read, and the arguments that are there.
    Instruction(Seq<char>, Seq<Seq<char>>),
}

/// A complaint about one token of a line: why, and the index of the token
/// among those of the line.
#[derive(Clone, Copy, Debug, PartialEq, Eq, Structural)]
pub struct Blame {
    pub kind: CompileErrorKind,
    pub index: usize,
}

/// A line that is being read, over mathematical values: its tokens so far,
/// how far it has been understood, and whether a comment has begun.
pub struct LineView {
    pub tokens: Seq<TokenView>,
    pub phase: PhaseView,
    pub comment: bool,
}

impl LineView {
    /// A line of which nothing has been read.
    pub open spec fn start() -> LineView {
        LineView { tokens: Seq::empty(), phase: PhaseView::Start, comment: false }
    }

    /// The line after `token`, which is no line break, has been read; or the
    /// complaint about it.
    ///
    /// Every token is kept with the line. Inside a comment nothing else
    /// happens. A comment marker begins the comment. A label marker turns a
    /// line that has not begun into a declaration, and is out of place behind
    /// a mnemonic. A symbol is the mnemonic of a line that has not begun, the
    /// name of a declaration that has none yet and out of place in one that
    /// has, and else an argument. A value is an argument behind a mnemonic
    /// and passed over anywhere else.
    pub open spec fn take(self, token: TokenView) -> Result<LineView, Blame> {
        let line = LineView { tokens: self.tokens.push(token), ..self };
        if self.comment {
            Ok(line)
        } else {
            match token.kind {
                TokenKindView::Comment => Ok(LineView { comment: true, ..line }),
                TokenKindView::Pin => match self.phase {
                    PhaseView::Start => Ok(LineView { phase: PhaseView::Label(None), ..line }),
                    PhaseView::Label(_) => Ok(line),
                    PhaseView::Instruction(..) => Err(
                        Blame { kind: CompileErrorKind::InvalidLocation, index: 0 },
                    ),
                },
                TokenKindView::Symbol(text) => match self.phase {
                    PhaseView::Start => Ok(
                        LineView { phase: PhaseView::Instruction(text, Seq::empty()), ..line },
                    ),
                    PhaseView::Label(None) => Ok(
                        LineView { phase: PhaseView::Label(Some(text)), ..line },
                    ),
                    PhaseView::Label(Some(_)) => Err(
                        Blame { kind: CompileErrorKind::InvalidLocation, index: 2 },
                    ),
                    PhaseView::Instruction(name, args) => Ok(
                        LineView { phase: PhaseView::Instruction(name, args.push(text)), ..line },
                    ),
                },
                TokenKindView::Value(text) => match self.phase {
                    PhaseView::Instruction(name, args) => Ok(
                        LineView { phase: PhaseView::Instruction(name, args.push(text)), ..line },
                    ),
                    _ => Ok(line),
                },
                TokenKindView::Break => Ok(line),
            }
        }
    }

    /// What the line means once the line break `token` has ended it: no
    /// operation, a declaration, or the operation of its mnemonic; or the
    /// complaint about the mnemonic or its arguments, which blames the
    /// leading token of the line. A comment on the line changes nothing of
    /// this.
    pub open spec fn end(self, token: TokenView) -> Result<Option<OpWrapView>, Blame> {
        let tokens = self.tokens.push(token);
        match self.phase {
            PhaseView::Start => Ok(None),
            PhaseView::Label(None) => Ok(None),
            PhaseView::Label(Some(name)) => Ok(
                Some(OpWrapView { op: OpView::Pin(name), tokens, pre_init: true }),
            ),
            PhaseView::Instruction(name, args) => match decode(name, args) {
                Ok(op) => Ok(Some(OpWrapView { op, tokens, pre_init: false })),
                Err(kind) => Err(Blame { kind, index: 0 }),
            },
        }
    }

    /// Whether what has been understood of the line is what its tokens
    /// spell: a name or a mnemonic is the first symbol of the line, the
    /// arguments are the tokens behind the mnemonic, and a line that has not
    /// begun holds no symbol outside a comment.
    pub open spec fn wf(self) -> bool {
        let first = first_symbol(self.tokens);
        &&& forall|i: int|
            0 <= i < self.tokens.len() ==> !((#[trigger] self.tokens[i]).kind is Break)
        &&& match self.phase {
            PhaseView::Start => self.comment || first == self.tokens.len(),
            PhaseView::Label(None) => self.tokens.len() >= 1 && (self.comment || first
                == self.tokens.len()),
            PhaseView::Label(Some(name)) => {
                &&& self.tokens.len() >= 2
                &&& first < self.tokens.len()
                &&& self.tokens[first as int].kind == TokenKindView::Symbol(name)
            },
            PhaseView::Instruction(name, args) => {
                &&& first + args.len() < self.tokens.len()
                &&& self.tokens[first as int].kind == TokenKindView::Symbol(name)
                &&& forall|k: int|
                    0 <= k < args.len() ==> (#[trigger] self.tokens[first + 1 + k]).kind.text()
                        == args[k]
                &&& self.comment || self.tokens.len() == first + 1 + args.len()
            },
        }
    }
}

impl OpWrapView {
    /// Whether the tokens are those of one line: a line break is the last of
    /// them and no other is one.
    pub open spec fn lined(self) -> bool {
        &&& self.tokens.len() > 0
        &&& forall|i: int|
            0 <= i < self.tokens.len() ==> ((#[trigger] self.tokens[i]).kind is Break <==> i
                == self.tokens.len() - 1)
    }

    /// Whether the operation is the one that the words of its line spell: a
    /// declaration of the label that the first symbol names, or the
    /// operation of the first symbol as mnemonic with the words behind it as
    /// arguments.
    pub open spec fn spelled(self) -> bool {
        if self.pre_init {
            self.op == OpView::Pin(self.word(0))
        } else {
            arity(self.word(0)) is Some && self.op == operation(
                self.word(0),
                seq![self.word(1), self.word(2)],
            )
        }
    }
}

/// What the tokens `rest` add to the operations `ops` of the lines before
/// them and to the line `line` that is being read: all the operations, or
/// the error for the first token or line at fault. The error quotes the
/// source `raw`. Tokens behind the last line break are read, and make no
/// operation.
pub open spec fn parse_rest(
    raw: Seq<char>,
    ops: Seq<OpWrapView>,
    line: LineView,
    rest: Seq<TokenView>,
) -> Result<Seq<OpWrapView>, CompileErrorView>
    decreases rest.len(),
{
    if rest.len() == 0 {
        Ok(ops)
    } else {
        let token = rest[0];
        let tokens = line.tokens.push(token);
        if token.kind is Break {
            match line.end(token) {
                Ok(None) => parse_rest(raw, ops, LineView::start(), rest.drop_first()),
                Ok(Some(op)) => parse_rest(raw, ops.push(op), LineView::start(), rest.drop_first()),
                Err(blame) => Err(
                    CompileErrorView::at(raw, blame.kind, tokens[blame.index as int]),
                ),
            }
        } else {
            match line.take(token) {
                Ok(next) => parse_rest(raw, ops, next, rest.drop_first()),
                Err(blame) => Err(
                    CompileErrorView::at(raw, blame.kind, tokens[blame.index as int]),
                ),
            }
        }
    }
}

/// The operations that the tokens `tokens` of the source `raw` write, one
/// for each line that holds a declaration or a mnemonic, or the error for
/// the first token or line at fault.
pub open spec fn parse(raw: Seq<char>, tokens: Seq<TokenView>) -> Result<
    Seq<OpWrapView>,
    CompileErrorView,
> {
    parse_rest(raw, Seq::empty(), LineView::start(), tokens)
}

impl OpKind {
    /// The operation of the mnemonic `name` with the arguments `args`, or
    /// why there is none.
    pub fn decode(name: &str, args: &Vec<String>) -> (result: Result<OpKind, CompileErrorKind>)
        ensures
            match decode(name@, texts_view(args@)) {
                Ok(op) => result is Ok && result->Ok_0@ == op,
                Err(kind) => result == Err::<OpKind, CompileErrorKind>(kind),
            },
    {
        let binary = text_eq(name, "mov") || text_eq(name, "add") || text_eq(name, "sub")
            || text_eq(name, "cmp");
        let unary = text_eq(name, "jif") || text_eq(name, "jel") || text_eq(name, "jmp")
            || text_eq(name, "out") || text_eq(name, "utf");
        let nullary = text_eq(name, "ret") || text_eq(name, "end");
        if binary {
            if args.len() < 2 {
                return Err(CompileErrorKind::ExpectedArgument);
            }
            let slot = args[0].clone();
            let refer = Ref::of(args[1].as_str());
            if text_eq(name, "mov") {
                Ok(OpKind::Mov(Mov(slot, refer)))
            } else if text_eq(name, "add") {
                Ok(OpKind::Add(Add(slot, refer)))
            } else if text_eq(name, "sub") {
                Ok(OpKind::Sub(Sub(slot, refer)))
            } else {
                Ok(OpKind::Cmp(Cmp(slot, refer)))
            }
        } else if unary {
            if args.len() < 1 {
                return Err(CompileErrorKind::ExpectedArgument);
            }
            if text_eq(name, "jif") {
                Ok(OpKind::Jif(Jif(args[0].clone())))
            } else if text_eq(name, "jel") {
                Ok(OpKind::Jel(Jel(args[0].clone())))
            } else if text_eq(name, "jmp") {
                Ok(OpKind::Jmp(Jmp(args[0].clone())))
            } else if text_eq(name, "out") {
                Ok(OpKind::Out(Out(Ref::of(args[0].as_str()))))
            } else {
                Ok(OpKind::Utf(Utf(Ref::of(args[0].as_str()))))
            }
        } else if nullary {
            if text_eq(name, "ret") {
                Ok(OpKind::Ret(Ret))
            } else {
                Ok(OpKind::End(End))
            }
        } else {
            Err(CompileErrorKind::UnknownOp)
        }
    }
}

/// How far a line has been read.
#[derive(Debug, PartialEq, Eq)]
pub enum Phase {
    Start,
    Label(Option<String>),
    Instruction(String, Vec<String>),
}

impl View for Phase {
    type V = PhaseView;

    open spec fn view(&self) -> PhaseView {
        match self {
            Phase::Start => PhaseView::Start,
            Phase::Label(None) => PhaseView::Label(None),
            Phase::Label(Some(name)) => PhaseView::Label(Some(name@)),
            Phase::Instruction(name, args) => PhaseView::Instruction(name@, texts_view(args@)),
        }
    }
}

/// A line that is being read.
#[derive(Debug, PartialEq, Eq)]
pub struct Line {
    pub tokens: Vec<Token>,
    pub phase: Phase,
    pub comment: bool,
}

impl View for Line {
    type V = LineView;

    open spec fn view(&self) -> LineView {
        LineView { tokens: tokens_view(self.tokens@), phase: self.phase@, comment: self.comment }
    }
}

impl Line {
    /// A line of which nothing has been read.
    pub fn new() -> (line: Line)
        ensures
            line@ == LineView::start(),
    {
        let line = Line { tokens: Vec::new(), phase: Phase::Start, comment: false };
        assert(tokens_view(line.tokens@) == Seq::<TokenView>::empty());
        line
    }

    /// Reads `token`, which is no line break. Where the token is out of
    /// place, the line still keeps it, and what else the line holds is of no
    /// more use.
    pub fn take(&mut self, token: &Token) -> (result: Result<(), Blame>)
        ensures
            final(self)@.tokens == old(self)@.tokens.push(token@),
            match old(self)@.take(token@) {
                Ok(next) => result is Ok && final(self)@ == next,
                Err(blame) => result == Err::<(), Blame>(blame),
            },
    {
        self.tokens.push(token.clone());
        assert(tokens_view(self.tokens@) == tokens_view(old(self).tokens@).push(token@));
        if self.comment {
            return Ok(());
        }
        let mut phase = Phase::Start;
        core::mem::swap(&mut self.phase, &mut phase);
        match &token.kind {
            TokenKind::Comment => {
                self.phase = phase;
                self.comment = true;
            },
            TokenKind::Pin => match phase {
                Phase::Start => {
                    self.phase = Phase::Label(None);
                },
                Phase::Label(name) => {
                    self.phase = Phase::Label(name);
                },
                Phase::Instruction(..) => {
                    return Err(Blame { kind: CompileErrorKind::InvalidLocation, index: 0 });
                },
            },
            TokenKind::Symbol(text) => match phase {
                Phase::Start => {
                    let args: Vec<String> = Vec::new();
                    assert(texts_view(args@) == Seq::<Seq<char>>::empty());
                    self.phase = Phase::Instruction(text.clone(), args);
                },
                Phase::Label(None) => {
                    self.phase = Phase::Label(Some(text.clone()));
                },
                Phase::Label(Some(_)) => {
                    return Err(Blame { kind: CompileErrorKind::InvalidLocation, index: 2 });
                },
                Phase::Instruction(name, args) => {
                    let mut args = args;
                    let ghost before = args@;
                    args.push(text.clone());
                    assert(texts_view(args@) == texts_view(before).push(text@));
                    self.phase = Phase::Instruction(name, args);
                },
            },
            TokenKind::Value(text) => match phase {
                Phase::Instruction(name, args) => {
                    let mut args = args;
                    let ghost before = args@;
                    args.push(text.clone());
                    assert(texts_view(args@) == texts_view(before).push(text@));
                    self.phase = Phase::Instruction(name, args);
                },
                other => {
                    self.phase = other;
                },
            },
            TokenKind::Break => {
                self.phase = phase;
            },
        }
        Ok(())
    }

    /// Ends the line with the line break `token` and hands out what the
    /// line means. The line is then one of which nothing has been read.
    /// Where the line is at fault, it keeps its tokens, the line break
    /// among them.
    pub fn end(&mut self, token: &Token) -> (result: Result<Option<OpWrap>, Blame>)
        ensures
            match old(self)@.end(token@) {
                Ok(Some(op)) => result is Ok && result->Ok_0 is Some && result->Ok_0->Some_0@ == op
                    && final(self)@ == LineView::start(),
                Ok(None) => result is Ok && result->Ok_0 is None && final(self)@
                    == LineView::start(),
                Err(blame) => result == Err::<Option<OpWrap>, Blame>(blame) && final(self)@.tokens
                    == old(self)@.tokens.push(token@),
            },
    {
        self.tokens.push(token.clone());
        assert(tokens_view(self.tokens@) == tokens_view(old(self).tokens@).push(token@));
        let mut phase = Phase::Start;
        core::mem::swap(&mut self.phase, &mut phase);
        let op = match phase {
            Phase::Start => None,
            Phase::Label(None) => None,
            Phase::Label(Some(name)) => Some((OpKind::Pin(Pin(name)), true)),
            Phase::Instruction(name, args) => match OpKind::decode(name.as_str(), &args) {
                Ok(op) => Some((op, false)),
                Err(kind) => {
                    return Err(Blame { kind, index: 0 });
                },
            },
        };
        let mut tokens: Vec<Token> = Vec::new();
        core::mem::swap(&mut self.tokens, &mut tokens);
        self.comment = false;
        assert(tokens_view(self.tokens@) == Seq::<TokenView>::empty());
        match op {
            Some((op, pre_init)) => Ok(Some(OpWrap { op, tokens, pre_init })),
            None => Ok(None),
        }
    }
}

/// One more token leaves the first symbol where it is, or is itself the
/// first symbol.
pub proof fn lemma_first_symbol_push(tokens: Seq<TokenView>, token: TokenView)
    ensures
        first_symbol(tokens.push(token)) == if first_symbol(tokens) < tokens.len() {
            first_symbol(tokens)
        } else if token.kind is Symbol {
            tokens.len()
        } else {
            tokens.len() + 1
        },
{
    lemma_first_symbol(tokens);
    let pushed = tokens.push(token);
    if first_symbol(tokens) < tokens.len() {
        lemma_first_symbol_is(pushed, first_symbol(tokens) as int);
    } else if token.kind is Symbol {
        lemma_first_symbol_is(pushed, tokens.len() as int);
    } else {
        lemma_first_symbol_is(pushed, tokens.len() as int + 1);
    }
}

/// Reading a token keeps a line well formed, and a complaint about the token
/// blames a token of the line.
pub proof fn lemma_take_keeps_wf(line: LineView, token: TokenView)
    requires
        line.wf(),
        !(token.kind is Break),
    ensures
        line.take(token) matches Ok(next) ==> next.wf(),
        line.take(token) matches Err(blame) ==> blame.index <= line.tokens.len(),
{
    lemma_first_symbol_push(line.tokens, token);
}

/// The operation of a well-formed line is well formed and is the one that
/// the line spells; a complaint about the line blames a token of the line.
pub proof fn lemma_end_wf(line: LineView, token: TokenView)
    requires
        line.wf(),
        token.kind is Break,
    ensures
        line.end(token) matches Ok(Some(op)) ==> op.wf() && op.spelled() && op.lined(),
        line.end(token) matches Err(blame) ==> blame.index <= line.tokens.len(),
{
    lemma_first_symbol_push(line.tokens, token);
    let tokens = line.tokens.push(token);
    let first = first_symbol(tokens);
    match (line.phase, line.end(token)) {
        (PhaseView::Instruction(_, args), Ok(Some(op))) => {
            // The arguments that count are the words behind the mnemonic.
            let words = seq![op.word(1), op.word(2)];
            assert forall|k: int| 0 <= k < 2 && k < args.len() implies args[k]
                == #[trigger] words[k] by {
                assert(tokens[first + 1 + k] == line.tokens[first + 1 + k]);
            }
        },
        _ => {},
    }
}

/// Whether `part` stands in `whole` as an unbroken run.
pub open spec fn is_run_of(part: Seq<TokenView>, whole: Seq<TokenView>) -> bool {
    exists|from: int|
        0 <= from && from + part.len() <= whole.len() && part == #[trigger] whole.subrange(
            from,
            from + part.len(),
        )
}

/// What parsing adds to well-formed operations is well formed: the
/// operations from before stay, and every new one is the one that the words
/// of its line spell and keeps the tokens of that one line, which are a run
/// of the tokens read; each line break of the tokens makes at most one
/// operation. Here `before` are the tokens of the lines that have ended.
pub proof fn lemma_parse_rest_wf(
    raw: Seq<char>,
    ops: Seq<OpWrapView>,
    before: Seq<TokenView>,
    line: LineView,
    rest: Seq<TokenView>,
)
    requires
        line.wf(),
    ensures
        parse_rest(raw, ops, line, rest) matches Ok(all) ==> {
            &&& ops.len() <= all.len() <= ops.len() + breaks(rest)
            &&& forall|i: int| 0 <= i < ops.len() ==> all[i] == ops[i]
            &&& forall|i: int|
                ops.len() <= i < all.len() ==> {
                    &&& (#[trigger] all[i]).wf()
                    &&& all[i].spelled()
                    &&& all[i].lined()
                    &&& is_run_of(all[i].tokens, before + line.tokens + rest)
                }
        },
    decreases rest.len(),
{
    if rest.len() > 0 {
        let token = rest[0];
        let tail = rest.drop_first();
        let stream = before + line.tokens + rest;
        let read = line.tokens.push(token);
        lemma_breaks_first(rest);
        if token.kind is Break {
            lemma_end_wf(line, token);
            assert(before + read + LineView::start().tokens + tail == stream);
            match line.end(token) {
                Ok(None) => {
                    lemma_parse_rest_wf(raw, ops, before + read, LineView::start(), tail);
                },
                Ok(Some(op)) => {
                    lemma_parse_rest_wf(raw, ops.push(op), before + read, LineView::start(), tail);
                    let from = before.len() as int;
                    assert(op.tokens == stream.subrange(from, from + op.tokens.len()));
                    assert(ops.push(op)[ops.len() as int] == op);
                },
                Err(_) => {},
            }
        } else {
            lemma_take_keeps_wf(line, token);
            assert(before + read + tail == stream);
            if let Ok(next) = line.take(token) {
                lemma_parse_rest_wf(raw, ops, before, next, tail);
            }
        }
    }
}

/// The operations of a token sequence are well formed: every operation is
/// the one that the words of its line spell and keeps the tokens of that one
/// line, which are a run of the sequence, and there are at most as many
/// operations as line breaks.
pub proof fn lemma_parse_wf(raw: Seq<char>, tokens: Seq<TokenView>)
    ensures
        parse(raw, tokens) matches Ok(ops) ==> {
            &&& ops.len() <= breaks(tokens)
            &&& forall|i: int|
                0 <= i < ops.len() ==> {
                    &&& (#[trigger] ops[i]).wf()
                    &&& ops[i].spelled()
                    &&& ops[i].lined()
                    &&& is_run_of(ops[i].tokens, tokens)
                }
        },
{
    lemma_parse_rest_wf(raw, Seq::empty(), Seq::empty(), LineView::start(), tokens);
    assert(Seq::<TokenView>::empty() + LineView::start().tokens + tokens == tokens);
}

/// Tokens without a line break between them stand on one line: where each
/// of `tokens` stands on the line that the line breaks before it count, and
/// none of the `count` tokens from `from` on is a line break, the token
/// behind them stands on the line of the first of them.
pub proof fn lemma_same_line(tokens: Seq<TokenView>, from: int, count: nat)
    requires
        lines_counted(tokens),
        0 <= from,
        from + count < tokens.len(),
        forall|i: int| from <= i < from + count ==> !((#[trigger] tokens[i]).kind is Break),
    ensures
        tokens[from + count].pos.0 == tokens[from].pos.0,
    decreases count,
{
    if count > 0 {
        lemma_same_line(tokens, from, (count - 1) as nat);
        let last = from + count - 1;
        lemma_breaks_push(tokens.take(last), tokens[last]);
        assert(tokens.take(last).push(tokens[last]) == tokens.take(last + 1));
    }
}

/// The tokens of one line stand on one line: where an operation keeps a
/// run of tokens that ends in the only line break among them, and each of
/// the tokens stands on the line that the line breaks before it count.
pub proof fn lemma_on_one_line(op: OpWrapView, tokens: Seq<TokenView>)
    requires
        lines_counted(tokens),
        is_run_of(op.tokens, tokens),
        op.lined(),
    ensures
        op.on_one_line(),
{
    let from = choose|from: int|
        0 <= from && from + op.tokens.len() <= tokens.len() && op.tokens
            == #[trigger] tokens.subrange(from, from + op.tokens.len());
    assert forall|i: int| 0 <= i < op.tokens.len() implies (#[trigger] op.tokens[i]).pos.0
        == op.line() by {
        assert forall|k: int| from <= k < from + op.tokens.len() - 1 implies !((
        #[trigger] tokens[k]).kind is Break) by {
            assert(tokens[k] == op.tokens[k - from]);
        }
        lemma_same_line(tokens, from, i as nat);
        lemma_same_line(tokens, from, (op.tokens.len() - 1) as nat);
        assert(op.tokens[i] == tokens[from + i]);
        assert(op.tokens.last() == tokens[from + op.tokens.len() - 1]);
    }
}

} // verus!
