//! The machine over mathematical values: its state, its operations, and what
//! each operation does to the state.

use vstd::prelude::*;
use crate::error::RuntimeErrorKindView;
use crate::text::{decimal, lossy_byte};

verus! {

/// An argument of an operation over mathematical values: the name of a slot,
/// or a number that stands for itself.
pub enum RefView {
    Pos(Seq<char>),
    Value(usize),
}

/// An operation over mathematical values.
pub enum OpView {
    /// The declaration of a label.
    Pin(Seq<char>),
    /// `mov slot ref`: the slot takes the value of the reference.
    Mov(Seq<char>, RefView),
    /// `add slot ref`: the slot grows by the value of the reference.
    Add(Seq<char>, RefView),
    /// `sub slot ref`: the slot shrinks by the value of the reference.
    Sub(Seq<char>, RefView),
    /// `cmp slot ref`: the flag tells whether the two are equal.
    Cmp(Seq<char>, RefView),
    /// `jif label`: a jump where the flag says equal.
    Jif(Seq<char>),
    /// `jel label`: a jump where the flag says unequal.
    Jel(Seq<char>),
    /// `jmp label`: a jump in any case.
    Jmp(Seq<char>),
    /// `out ref`: the value is written in decimal digits.
    Out(RefView),
    /// `utf ref`: the low byte of the value is written as a character.
    Utf(RefView),
    /// `ret`: back to the jump that was taken last.
    Ret,
    /// `end`: the program halts.
    End,
}

impl OpView {
    /// The label that the operation jumps to, where it is a jump.
    pub open spec fn target(self) -> Option<Seq<char>> {
        match self {
            OpView::Jif(label) | OpView::Jel(label) | OpView::Jmp(label) => Some(label),
            _ => None,
        }
    }
}

/// The name of the slot that holds the result of the last comparison. No
/// symbol of a source text can spell it.
pub open spec fn flag() -> Seq<char> {
    "#"@
}

/// The state of a run over mathematical values.
#[verifier::ext_equal]
pub struct RuntimeView {
    /// The slots that have been written, each with its value.
    pub memory: Map<Seq<char>, usize>,
    /// The places of the jumps that were taken and not yet returned from,
    /// the latest last.
    pub stack: Seq<usize>,
    /// The labels, each with the place of its declaration.
    pub pins: Map<Seq<char>, usize>,
    /// The place of the operation that is performed next.
    pub index: usize,
    /// Whether the program has halted.
    pub end: bool,
    /// The bytes written so far.
    pub output: Seq<u8>,
}

impl RuntimeView {
    /// The state in which nothing has happened yet.
    pub open spec fn fresh() -> RuntimeView {
        RuntimeView {
            memory: Map::empty(),
            stack: Seq::empty(),
            pins: Map::empty(),
            index: 0,
            end: false,
            output: Seq::empty(),
        }
    }

    /// What the slot `name` holds. A slot that was never written holds
    /// nothing, not zero: reading it is an error.
    pub open spec fn read(self, name: Seq<char>) -> Result<usize, RuntimeErrorKindView> {
        if self.memory.contains_key(name) {
            Ok(self.memory[name])
        } else {
            Err(RuntimeErrorKindView::Undefined(name))
        }
    }

    /// The value that the reference `refer` stands for.
    pub open spec fn resolve(self, refer: RefView) -> Result<usize, RuntimeErrorKindView> {
        match refer {
            RefView::Pos(name) => self.read(name),
            RefView::Value(value) => Ok(value),
        }
    }

    /// The state after the slot `name` has taken the value `value`.
    pub open spec fn write(self, name: Seq<char>, value: usize) -> RuntimeView {
        RuntimeView { memory: self.memory.insert(name, value), ..self }
    }

    /// The state after a jump to `label`: the place of the jump is pushed
    /// onto the stack, and the place of the label's declaration is the next
    /// one. An error where no such label is declared.
    pub open spec fn jump(self, label: Seq<char>) -> Result<RuntimeView, RuntimeErrorKindView> {
        if self.pins.contains_key(label) {
            Ok(RuntimeView { stack: self.stack.push(self.index), index: self.pins[label], ..self })
        } else {
            Err(RuntimeErrorKindView::NoPin(label))
        }
    }

    /// The state after a conditional jump that is taken where the flag holds
    /// `wanted`. The flag is read and removed, whether or not the jump is
    /// taken. An error where there is no flag, or where the jump is to be
    /// taken and its label is not declared.
    pub open spec fn branch(self, wanted: usize, label: Seq<char>) -> Result<
        RuntimeView,
        RuntimeErrorKindView,
    > {
        if !self.memory.contains_key(flag()) {
            Err(RuntimeErrorKindView::NoCompare)
        } else {
            let cleared = RuntimeView { memory: self.memory.remove(flag()), ..self };
            if self.memory[flag()] == wanted {
                cleared.jump(label)
            } else {
                Ok(cleared)
            }
        }
    }

    /// The state with the following operation as the next one.
    pub open spec fn next(self) -> RuntimeView {
        RuntimeView { index: (self.index + 1) as usize, ..self }
    }

    /// The state after `bytes` have been written.
    pub open spec fn print(self, bytes: Seq<u8>) -> RuntimeView {
        RuntimeView { output: self.output + bytes, ..self }
    }

    /// The two values that an operation on the slot `name` and the
    /// reference `refer` works on. Both are read, the slot first.
    pub open spec fn operands(self, name: Seq<char>, refer: RefView) -> Result<
        (usize, usize),
        RuntimeErrorKindView,
    > {
        match self.read(name) {
            Err(kind) => Err(kind),
            Ok(held) => match self.resolve(refer) {
                Err(kind) => Err(kind),
                Ok(value) => Ok((held, value)),
            },
        }
    }
}

/// What the flag holds after a comparison: 1 for equal, 0 for unequal.
pub open spec fn verdict(held: usize, value: usize) -> usize {
    if held == value {
        1
    } else {
        0
    }
}

/// The byte that `utf` writes for a value: its low eight bits.
pub open spec fn low_byte(value: usize) -> u8 {
    (value % 256) as u8
}

/// The state in which `op` leaves the state `state`, or the error that it
/// raises. The place of the next operation changes only where the operation
/// jumps or returns: moving on to the following operation is the part of the
/// run, not of the operation.
pub open spec fn effect(op: OpView, state: RuntimeView) -> Result<
    RuntimeView,
    RuntimeErrorKindView,
> {
    match op {
        OpView::Pin(label) => if state.pins.contains_key(label) {
            Err(RuntimeErrorKindView::DuplicatePin(label))
        } else {
            Ok(RuntimeView { pins: state.pins.insert(label, state.index), ..state })
        },
        OpView::Mov(name, refer) => match state.resolve(refer) {
            Err(kind) => Err(kind),
            Ok(value) => Ok(state.write(name, value)),
        },
        OpView::Add(name, refer) => match state.operands(name, refer) {
            Err(kind) => Err(kind),
            Ok((held, value)) => if held + value <= usize::MAX {
                Ok(state.write(name, (held + value) as usize))
            } else {
                Err(RuntimeErrorKindView::Overflow)
            },
        },
        OpView::Sub(name, refer) => match state.operands(name, refer) {
            Err(kind) => Err(kind),
            Ok((held, value)) => if value <= held {
                Ok(state.write(name, (held - value) as usize))
            } else {
                Err(RuntimeErrorKindView::Underflow)
            },
        },
        OpView::Cmp(name, refer) => match state.operands(name, refer) {
            Err(kind) => Err(kind),
            Ok((held, value)) => Ok(state.write(flag(), verdict(held, value))),
        },
        OpView::Jif(label) => state.branch(1, label),
        OpView::Jel(label) => state.branch(0, label),
        OpView::Jmp(label) => state.jump(label),
        OpView::Out(refer) => match state.resolve(refer) {
            Err(kind) => Err(kind),
            Ok(value) => Ok(state.print(decimal(value as nat))),
        },
        OpView::Utf(refer) => match state.resolve(refer) {
            Err(kind) => Err(kind),
            Ok(value) => Ok(state.print(lossy_byte(low_byte(value)))),
        },
        OpView::Ret => if state.stack.len() == 0 {
            Err(RuntimeErrorKindView::NoReturn)
        } else {
            Ok(RuntimeView { stack: state.stack.drop_last(), index: state.stack.last(), ..state })
        },
        OpView::End => Ok(RuntimeView { end: true, ..state }),
    }
}

} // verus!
