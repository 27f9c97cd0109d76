//! The operations, each with what it performs on a runtime, and the wrapper
//! that keeps an operation with the tokens of its line.

use vstd::prelude::*;
use crate::error::{PerformError, RuntimeErrorKind, RuntimeErrorKindView};
use crate::machine::{effect, OpView, RefView};
use crate::runtime::Runtime;
use crate::text::{push_decimal, push_lossy_byte, text_eq};
use crate::token::{tokens_view, Token, TokenKind, TokenView};
use crate::{Label, PerformResult, Pos, Value};

verus! {

/// An argument of an operation: the name of a slot, or a number that stands
/// for itself.
#[derive(Debug, PartialEq, Eq)]
pub enum Ref {
    Pos(Pos),
    Value(Value),
}

impl View for Ref {
    type V = RefView;

    open spec fn view(&self) -> RefView {
        match self {
            Ref::Pos(name) => RefView::Pos(name@),
            Ref::Value(value) => RefView::Value(*value),
        }
    }
}

impl Clone for Ref {
    fn clone(&self) -> (copy: Self)
        ensures
            copy == *self,
    {
        match self {
            Ref::Pos(name) => Ref::Pos(name.clone()),
            Ref::Value(value) => Ref::Value(*value),
        }
    }
}

/// What an operation does to a run.
pub trait Op {
    /// The operation over mathematical values.
    spec fn model(&self) -> OpView;

    /// Performs the operation on `runtime`. Where it fails, the state is
    /// left as it was.
    fn perform(&self, runtime: &mut Runtime) -> (result: PerformResult)
        ensures
            match effect(self.model(), old(runtime)@) {
                Ok(after) => result is Ok && final(runtime)@ == after,
                Err(kind) => result is Err && result->Err_0@ == kind && final(runtime)@ == old(
                    runtime,
                )@,
            },
    ;
}

/// The declaration of the label it names.
#[derive(Debug, PartialEq, Eq)]
pub struct Pin(pub Label);

/// `mov slot ref`.
#[derive(Debug, PartialEq, Eq)]
pub struct Mov(pub Pos, pub Ref);

/// `add slot ref`.
#[derive(Debug, PartialEq, Eq)]
pub struct Add(pub Pos, pub Ref);

/// `sub slot ref`.
#[derive(Debug, PartialEq, Eq)]
pub struct Sub(pub Pos, pub Ref);

/// `cmp slot ref`.
#[derive(Debug, PartialEq, Eq)]
pub struct Cmp(pub Pos, pub Ref);

/// `jif label`.
#[derive(Debug, PartialEq, Eq)]
pub struct Jif(pub Label);

/// `jel label`.
#[derive(Debug, PartialEq, Eq)]
pub struct Jel(pub Label);

/// `jmp label`.
#[derive(Debug, PartialEq, Eq)]
pub struct Jmp(pub Label);

/// `out ref`.
#[derive(Debug, PartialEq, Eq)]
pub struct Out(pub Ref);

/// `utf ref`.
#[derive(Debug, PartialEq, Eq)]
pub struct Utf(pub Ref);

/// `ret`.
#[derive(Debug, PartialEq, Eq)]
pub struct Ret;

/// `end`.
#[derive(Debug, PartialEq, Eq)]
pub struct End;

impl Op for Pin {
    open spec fn model(&self) -> OpView {
        OpView::Pin(self.0@)
    }

    fn perform(&self, runtime: &mut Runtime) -> (result: PerformResult)
        ensures
            result is Ok <==> !old(runtime)@.pins.contains_key(self.0@),
    {
        if runtime.pins.contains_key(self.0.as_str()) {
            return Err(PerformError(RuntimeErrorKind::DuplicatePin(self.0.clone())));
        }
        runtime.pins.insert(self.0.clone(), runtime.index);
        Ok(())
    }
}

impl Op for Mov {
    open spec fn model(&self) -> OpView {
        OpView::Mov(self.0@, self.1@)
    }

    fn perform(&self, runtime: &mut Runtime) -> (result: PerformResult)
        ensures
            result is Ok <==> old(runtime)@.resolve(self.1@) is Ok,
    {
        match runtime.resolve(&self.1) {
            Ok(value) => {
                runtime.memory.insert(self.0.clone(), value);
                Ok(())
            },
            Err(error) => Err(error),
        }
    }
}

impl Op for Add {
    open spec fn model(&self) -> OpView {
        OpView::Add(self.0@, self.1@)
    }

    fn perform(&self, runtime: &mut Runtime) -> (result: PerformResult)
        ensures
            result is Ok <==> (old(runtime)@.operands(self.0@, self.1@) matches Ok(pair) && pair.0
                + pair.1 <= usize::MAX),
    {
        match runtime.operands(&self.0, &self.1) {
            Ok((held, value)) => {
                if held > usize::MAX - value {
                    return Err(PerformError(RuntimeErrorKind::Overflow));
                }
                runtime.memory.insert(self.0.clone(), held + value);
                Ok(())
            },
            Err(error) => Err(error),
        }
    }
}

impl Op for Sub {
    open spec fn model(&self) -> OpView {
        OpView::Sub(self.0@, self.1@)
    }

    fn perform(&self, runtime: &mut Runtime) -> (result: PerformResult)
        ensures
            result is Ok <==> (old(runtime)@.operands(self.0@, self.1@) matches Ok(pair) && pair.1
                <= pair.0),
    {
        match runtime.operands(&self.0, &self.1) {
            Ok((held, value)) => {
                if value > held {
                    return Err(PerformError(RuntimeErrorKind::Underflow));
                }
                runtime.memory.insert(self.0.clone(), held - value);
                Ok(())
            },
            Err(error) => Err(error),
        }
    }
}

impl Op for Cmp {
    open spec fn model(&self) -> OpView {
        OpView::Cmp(self.0@, self.1@)
    }

    fn perform(&self, runtime: &mut Runtime) -> (result: PerformResult)
        ensures
            result is Ok <==> old(runtime)@.operands(self.0@, self.1@) is Ok,
    {
        match runtime.operands(&self.0, &self.1) {
            Ok((held, value)) => {
                let verdict: usize = if held == value {
                    1
                } else {
                    0
                };
                runtime.memory.insert("#".to_owned(), verdict);
                Ok(())
            },
            Err(error) => Err(error),
        }
    }
}

impl Op for Jif {
    open spec fn model(&self) -> OpView {
        OpView::Jif(self.0@)
    }

    fn perform(&self, runtime: &mut Runtime) -> (result: PerformResult)
        ensures
            result is Ok <==> old(runtime)@.branch(1, self.0@) is Ok,
    {
        runtime.branch(1, &self.0)
    }
}

impl Op for Jel {
    open spec fn model(&self) -> OpView {
        OpView::Jel(self.0@)
    }

    fn perform(&self, runtime: &mut Runtime) -> (result: PerformResult)
        ensures
            result is Ok <==> old(runtime)@.branch(0, self.0@) is Ok,
    {
        runtime.branch(0, &self.0)
    }
}

impl Op for Jmp {
    open spec fn model(&self) -> OpView {
        OpView::Jmp(self.0@)
    }

    fn perform(&self, runtime: &mut Runtime) -> (result: PerformResult)
        ensures
            result is Ok <==> old(runtime)@.pins.contains_key(self.0@),
    {
        runtime.jump(&self.0)
    }
}

impl Op for Out {
    open spec fn model(&self) -> OpView {
        OpView::Out(self.0@)
    }

    fn perform(&self, runtime: &mut Runtime) -> (result: PerformResult)
        ensures
            result is Ok <==> old(runtime)@.resolve(self.0@) is Ok,
    {
        match runtime.resolve(&self.0) {
            Ok(value) => {
                push_decimal(&mut runtime.output, value as u128);
                Ok(())
            },
            Err(error) => Err(error),
        }
    }
}

impl Op for Utf {
    open spec fn model(&self) -> OpView {
        OpView::Utf(self.0@)
    }

    fn perform(&self, runtime: &mut Runtime) -> (result: PerformResult)
        ensures
            result is Ok <==> old(runtime)@.resolve(self.0@) is Ok,
    {
        match runtime.resolve(&self.0) {
            Ok(value) => {
                push_lossy_byte(&mut runtime.output, (value % 256) as u8);
                Ok(())
            },
            Err(error) => Err(error),
        }
    }
}

impl Op for Ret {
    open spec fn model(&self) -> OpView {
        OpView::Ret
    }

    fn perform(&self, runtime: &mut Runtime) -> (result: PerformResult)
        ensures
            result is Ok <==> old(runtime)@.stack.len() > 0,
    {
        match runtime.stack.pop() {
            Some(place) => {
                runtime.index = place;
                Ok(())
            },
            None => Err(PerformError(RuntimeErrorKind::NoReturn)),
        }
    }
}

impl Op for End {
    open spec fn model(&self) -> OpView {
        OpView::End
    }

    fn perform(&self, runtime: &mut Runtime) -> (result: PerformResult)
        ensures
            result is Ok,
    {
        runtime.end = true;
        Ok(())
    }
}

/// Any one of the operations.
#[derive(Debug, PartialEq, Eq)]
pub enum OpKind {
    Pin(Pin),
    Mov(Mov),
    Add(Add),
    Sub(Sub),
    Cmp(Cmp),
    Jif(Jif),
    Jel(Jel),
    Jmp(Jmp),
    Out(Out),
    Utf(Utf),
    Ret(Ret),
    End(End),
}

impl Op for OpKind {
    open spec fn model(&self) -> OpView {
        match self {
            OpKind::Pin(op) => op.model(),
            OpKind::Mov(op) => op.model(),
            OpKind::Add(op) => op.model(),
            OpKind::Sub(op) => op.model(),
            OpKind::Cmp(op) => op.model(),
            OpKind::Jif(op) => op.model(),
            OpKind::Jel(op) => op.model(),
            OpKind::Jmp(op) => op.model(),
            OpKind::Out(op) => op.model(),
            OpKind::Utf(op) => op.model(),
            OpKind::Ret(op) => op.model(),
            OpKind::End(op) => op.model(),
        }
    }

    fn perform(&self, runtime: &mut Runtime) -> (result: PerformResult)
        ensures
            result is Ok <==> effect(self@, old(runtime)@) is Ok,
    {
        match self {
            OpKind::Pin(op) => op.perform(runtime),
            OpKind::Mov(op) => op.perform(runtime),
            OpKind::Add(op) => op.perform(runtime),
            OpKind::Sub(op) => op.perform(runtime),
            OpKind::Cmp(op) => op.perform(runtime),
            OpKind::Jif(op) => op.perform(runtime),
            OpKind::Jel(op) => op.perform(runtime),
            OpKind::Jmp(op) => op.perform(runtime),
            OpKind::Out(op) => op.perform(runtime),
            OpKind::Utf(op) => op.perform(runtime),
            OpKind::Ret(op) => op.perform(runtime),
            OpKind::End(op) => op.perform(runtime),
        }
    }
}

impl View for OpKind {
    type V = OpView;

    open spec fn view(&self) -> OpView {
        self.model()
    }
}

impl OpView {
    /// How many arguments the operation has.
    pub open spec fn arity(self) -> nat {
        match self {
            OpView::Mov(..) | OpView::Add(..) | OpView::Sub(..) | OpView::Cmp(..) => 2,
            OpView::Jif(_) | OpView::Jel(_) | OpView::Jmp(_) | OpView::Out(_) | OpView::Utf(_) => 1,
            OpView::Pin(_) | OpView::Ret | OpView::End => 0,
        }
    }

    /// Which word of the operation's line an error of kind `kind` blames: 0
    /// is the mnemonic, or for a declaration the label; 1 and 2 are the
    /// arguments. A missing or a duplicate label is blamed on the word that
    /// names the label, which is the argument of a jump and the leading word
    /// of a declaration; an undefined slot on the first argument that names
    /// it; anything else on the leading word.
    pub open spec fn blamed_word(self, kind: RuntimeErrorKindView) -> nat {
        match kind {
            RuntimeErrorKindView::NoPin(_)
            | RuntimeErrorKindView::DuplicatePin(_) => match self {
                OpView::Jif(_) | OpView::Jel(_) | OpView::Jmp(_) => 1,
                _ => 0,
            },
            RuntimeErrorKindView::Undefined(name) => match self {
                OpView::Mov(..) => 2,
                OpView::Add(slot, _) | OpView::Sub(slot, _) | OpView::Cmp(slot, _) => if name
                    == slot {
                    1
                } else {
                    2
                },
                OpView::Out(_) | OpView::Utf(_) => 1,
                _ => 0,
            },
            _ => 0,
        }
    }
}

/// The index of the first symbol among `tokens`; their number where they
/// hold none.
pub open spec fn first_symbol(tokens: Seq<TokenView>) -> nat
    decreases tokens.len(),
{
    if tokens.len() == 0 || tokens[0].kind is Symbol {
        0
    } else {
        1 + first_symbol(tokens.drop_first())
    }
}

/// The first symbol is a symbol, unless there is none, and no symbol stands
/// before it.
pub proof fn lemma_first_symbol(tokens: Seq<TokenView>)
    ensures
        first_symbol(tokens) <= tokens.len(),
        first_symbol(tokens) < tokens.len() ==> tokens[first_symbol(tokens) as int].kind is Symbol,
        forall|i: int| 0 <= i < first_symbol(tokens) ==> !(tokens[i].kind is Symbol),
    decreases tokens.len(),
{
    if tokens.len() > 0 && !(tokens[0].kind is Symbol) {
        let tail = tokens.drop_first();
        lemma_first_symbol(tail);
        assert forall|i: int| 0 <= i < first_symbol(tokens) implies !(tokens[i].kind is Symbol) by {
            if i > 0 {
                assert(tokens[i] == tail[i - 1]);
            }
        }
    }
}

/// The first symbol is where no symbol stands before it.
pub proof fn lemma_first_symbol_is(tokens: Seq<TokenView>, at: int)
    requires
        0 <= at <= tokens.len(),
        forall|i: int| 0 <= i < at ==> !(tokens[i].kind is Symbol),
        at < tokens.len() ==> tokens[at].kind is Symbol,
    ensures
        first_symbol(tokens) == at,
{
    lemma_first_symbol(tokens);
}

/// An operation with the tokens of the line that it was written on.
#[derive(Debug, PartialEq, Eq)]
pub struct OpWrap {
    pub op: OpKind,
    pub tokens: Vec<Token>,
    /// Whether the operation declares a label. Labels are registered before
    /// the run starts, and passed over during it.
    pub pre_init: bool,
}

/// An operation with its tokens over mathematical values.
pub struct OpWrapView {
    pub op: OpView,
    pub tokens: Seq<TokenView>,
    pub pre_init: bool,
}

impl View for OpWrap {
    type V = OpWrapView;

    open spec fn view(&self) -> OpWrapView {
        OpWrapView { op: self.op@, tokens: tokens_view(self.tokens@), pre_init: self.pre_init }
    }
}

impl OpWrapView {
    /// Whether the operation is marked as a declaration exactly if it is
    /// one, and its tokens hold a symbol with as many tokens behind it as the
    /// operation has arguments, and one more.
    pub open spec fn wf(self) -> bool {
        &&& self.pre_init == (self.op is Pin)
        &&& first_symbol(self.tokens) + self.op.arity() < self.tokens.len()
    }

    /// The token of the word `k` of the line: the first symbol for 0, the
    /// token `k` places behind it otherwise.
    pub open spec fn word_token(self, k: nat) -> TokenView {
        self.tokens[(first_symbol(self.tokens) + k) as int]
    }

    /// The text of the word `k` of the line.
    pub open spec fn word(self, k: nat) -> Seq<char> {
        self.word_token(k).kind.text()
    }

    /// The number of the line that the operation was written on: that of
    /// its last token, which is the line break.
    pub open spec fn line(self) -> nat {
        self.tokens.last().pos.0
    }

    /// Whether every token of the operation stands on one line.
    pub open spec fn on_one_line(self) -> bool {
        forall|i: int|
            0 <= i < self.tokens.len() ==> (#[trigger] self.tokens[i]).pos.0 == self.line()
    }

    /// The token that an error of kind `kind` blames.
    pub open spec fn blamed(self, kind: RuntimeErrorKindView) -> TokenView {
        self.word_token(self.op.blamed_word(kind))
    }
}

impl OpKind {
    /// How many arguments the operation has.
    pub fn arity(&self) -> (count: usize)
        ensures
            count == self@.arity(),
    {
        match self {
            OpKind::Mov(_) | OpKind::Add(_) | OpKind::Sub(_) | OpKind::Cmp(_) => 2,
            OpKind::Jif(_) | OpKind::Jel(_) | OpKind::Jmp(_) | OpKind::Out(_) | OpKind::Utf(_) => 1,
            OpKind::Pin(_) | OpKind::Ret(_) | OpKind::End(_) => 0,
        }
    }

    /// Which word of the operation's line the error `kind` blames.
    pub fn blamed_word(&self, kind: &RuntimeErrorKind) -> (word: usize)
        ensures
            word == self@.blamed_word(kind@),
            word <= self@.arity(),
    {
        match kind {
            RuntimeErrorKind::NoPin(_) | RuntimeErrorKind::DuplicatePin(_) => match self {
                OpKind::Jif(_) | OpKind::Jel(_) | OpKind::Jmp(_) => 1,
                _ => 0,
            },
            RuntimeErrorKind::Undefined(name) => match self {
                OpKind::Mov(_) => 2,
                OpKind::Add(Add(slot, _)) | OpKind::Sub(Sub(slot, _)) | OpKind::Cmp(
                    Cmp(slot, _),
                ) => if text_eq(name.as_str(), slot.as_str()) {
                    1
                } else {
                    2
                },
                OpKind::Out(_) | OpKind::Utf(_) => 1,
                _ => 0,
            },
            _ => 0,
        }
    }
}

impl OpWrap {
    /// Whether the operation is well formed: marked as a declaration exactly
    /// if it is one, and with a token for each of its words.
    pub fn well_formed(&self) -> (ok: bool)
        ensures
            ok == self@.wf(),
    {
        let declares = match &self.op {
            OpKind::Pin(_) => true,
            _ => false,
        };
        let first = self.first_symbol();
        self.pre_init == declares && self.op.arity() < self.tokens.len() - first
    }

    /// The index of the first symbol among the tokens; their number where
    /// they hold none.
    pub fn first_symbol(&self) -> (at: usize)
        ensures
            at == first_symbol(self@.tokens),
            at <= self.tokens.len(),
    {
        let mut at: usize = 0;
        while at < self.tokens.len()
            invariant
                at <= self.tokens.len(),
                forall|i: int| 0 <= i < at ==> !(#[trigger] self@.tokens[i].kind is Symbol),
            decreases self.tokens.len() - at,
        {
            match &self.tokens[at].kind {
                TokenKind::Symbol(_) => {
                    proof {
                        lemma_first_symbol_is(self@.tokens, at as int);
                    }
                    return at;
                },
                _ => {},
            }
            at = at + 1;
        }
        proof {
            lemma_first_symbol_is(self@.tokens, at as int);
        }
        at
    }
}

} // verus!
