//! The runtime: the state of a run, and the functions that register labels,
//! perform a step and run a program.

use vstd::prelude::*;
use vstd::hash_map::StringHashMap;
use crate::error::{PerformError, RuntimeError, RuntimeErrorKind, RuntimeErrorKindView};
use crate::machine::RuntimeView;
use crate::op::{Op, OpWrap, Ref};
use crate::program::{lemma_duplicate_stays, Executable};
use crate::text::line_text;
use crate::{PerformResult, Value};

verus! {

/// The state of a run: the memory of named slots, the stack of jumps, the
/// table of labels, the place of the next operation, whether the program has
/// halted, and the bytes it has written.
pub struct Runtime {
    pub memory: StringHashMap<Value>,
    pub stack: Vec<usize>,
    pub pins: StringHashMap<usize>,
    pub index: usize,
    pub end: bool,
    pub output: Vec<u8>,
}

impl View for Runtime {
    type V = RuntimeView;

    open spec fn view(&self) -> RuntimeView {
        RuntimeView {
            memory: self.memory@,
            stack: self.stack@,
            pins: self.pins@,
            index: self.index,
            end: self.end,
            output: self.output@,
        }
    }
}

impl Default for Runtime {
    fn default() -> (runtime: Self)
        ensures
            runtime@ == RuntimeView::fresh(),
    {
        Runtime::new()
    }
}

impl Runtime {
    /// A state in which nothing has happened yet.
    pub fn new() -> (runtime: Self)
        ensures
            runtime@ == RuntimeView::fresh(),
    {
        Runtime {
            memory: StringHashMap::new(),
            stack: Vec::new(),
            pins: StringHashMap::new(),
            index: 0,
            end: false,
            output: Vec::new(),
        }
    }

    /// The place at which `label` is declared, if it is registered.
    pub fn pin(&self, label: &str) -> (place: Option<usize>)
        ensures
            place == if self@.pins.contains_key(label@) {
                Some(self@.pins[label@])
            } else {
                None
            },
    {
        match self.pins.get(label) {
            Some(place) => Some(*place),
            None => None,
        }
    }

    /// How many labels are registered.
    pub fn pin_count(&self) -> (count: usize)
        ensures
            count == self@.pins.len(),
    {
        self.pins.len()
    }

    /// What the slot `name` holds, or the error for a slot never written.
    pub fn read(&self, name: &String) -> (value: Result<usize, PerformError>)
        ensures
            match self@.read(name@) {
                Ok(held) => value == Ok::<usize, PerformError>(held),
                Err(kind) => value is Err && value->Err_0@ == kind,
            },
    {
        match self.memory.get(name.as_str()) {
            Some(held) => Ok(*held),
            None => Err(PerformError(RuntimeErrorKind::Undefined(name.clone()))),
        }
    }

    /// The value that `refer` stands for, or the error for a slot never
    /// written.
    pub fn resolve(&self, refer: &Ref) -> (value: Result<usize, PerformError>)
        ensures
            match self@.resolve(refer@) {
                Ok(held) => value == Ok::<usize, PerformError>(held),
                Err(kind) => value is Err && value->Err_0@ == kind,
            },
    {
        match refer {
            Ref::Pos(name) => self.read(name),
            Ref::Value(value) => Ok(*value),
        }
    }

    /// The two values that an operation on the slot `name` and the reference
    /// `refer` works on, or the error for the first of them that was never
    /// written.
    pub fn operands(&self, name: &String, refer: &Ref) -> (values: Result<
        (usize, usize),
        PerformError,
    >)
        ensures
            match self@.operands(name@, refer@) {
                Ok(pair) => values == Ok::<(usize, usize), PerformError>(pair),
                Err(kind) => values is Err && values->Err_0@ == kind,
            },
    {
        let held = match self.read(name) {
            Ok(held) => held,
            Err(error) => {
                return Err(error);
            },
        };
        match self.resolve(refer) {
            Ok(value) => Ok((held, value)),
            Err(error) => Err(error),
        }
    }

    /// Jumps to `label`, or leaves the state as it is where no such label is
    /// declared.
    pub fn jump(&mut self, label: &String) -> (result: PerformResult)
        ensures
            match old(self)@.jump(label@) {
                Ok(after) => result is Ok && final(self)@ == after,
                Err(kind) => result is Err && result->Err_0@ == kind && final(self)@ == old(
                    self,
                )@,
            },
    {
        let target = match self.pins.get(label.as_str()) {
            Some(place) => *place,
            None => {
                return Err(PerformError(RuntimeErrorKind::NoPin(label.clone())));
            },
        };
        self.stack.push(self.index);
        self.index = target;
        Ok(())
    }

    /// Reads and removes the flag, and jumps to `label` where the flag held
    /// `wanted`. Leaves the state as it is where it fails.
    pub fn branch(&mut self, wanted: usize, label: &String) -> (result: PerformResult)
        ensures
            match old(self)@.branch(wanted, label@) {
                Ok(after) => result is Ok && final(self)@ == after,
                Err(kind) => result is Err && result->Err_0@ == kind && final(self)@ == old(
                    self,
                )@,
            },
    {
        let held = match self.memory.get("#") {
            Some(held) => *held,
            None => {
                return Err(PerformError(RuntimeErrorKind::NoCompare));
            },
        };
        if held == wanted {
            if !self.pins.contains_key(label.as_str()) {
                return Err(PerformError(RuntimeErrorKind::NoPin(label.clone())));
            }
            self.memory.remove("#");
            self.jump(label)
        } else {
            self.memory.remove("#");
            Ok(())
        }
    }

    /// The runtime error that ties the failure `err` of the operation
    /// `opwrap` to the source of `exe`: it blames one token of the
    /// operation's line and quotes that line. An error about a label blames
    /// the token that names the label, an undefined slot the argument that
    /// names it, any other error the leading word.
    pub fn throw_error(&self, exe: &Executable, opwrap: &OpWrap, err: PerformError) -> (error:
        RuntimeError)
        requires
            opwrap@.wf(),
        ensures
            error@ == crate::error::RuntimeErrorView::at(exe@.raw, err@, opwrap@.blamed(err@)),
    {
        let word = opwrap.op.blamed_word(&err.0);
        let first = opwrap.first_symbol();
        let token = &opwrap.tokens[first + word];
        RuntimeError {
            kind: err.0,
            line: line_text(exe.raw.as_str(), token.pos.0),
            loc: token.pos,
            len: token.len(),
        }
    }

    /// Registers the labels of `exe`, in place of any that were registered
    /// before. Fails at the first declaration of a label that an earlier
    /// line declares.
    pub fn register(&mut self, exe: &Executable) -> (result: Result<(), RuntimeError>)
        requires
            exe@.wf(),
        ensures
            match exe@.duplicate(exe@.ops.len()) {
                None => result is Ok && final(self)@ == (RuntimeView {
                    pins: exe@.labels(exe@.ops.len()),
                    index: 0,
                    ..old(self)@
                }),
                Some(at) => result is Err && result->Err_0@ == exe@.fault(
                    at,
                    RuntimeErrorKindView::DuplicatePin(exe@.label_at(at)->Some_0),
                ) && final(self)@ == (RuntimeView {
                    pins: exe@.labels(at as nat),
                    index: at as usize,
                    ..old(self)@
                }),
            },
            result is Ok ==> exe@.inv(
                RuntimeView { stack: Seq::empty(), ..final(self)@ },
            ),
    {
        self.pins.clear();
        self.index = 0;
        while self.index < exe.ops.len()
            invariant
                exe@.wf(),
                self.index <= exe.ops.len(),
                exe@.duplicate(self.index as nat) is None,
                self@ == (RuntimeView {
                    pins: exe@.labels(self.index as nat),
                    index: self.index,
                    ..old(self)@
                }),
                forall|label: Seq<char>| #[trigger]
                    self.pins@.contains_key(label) ==> self.pins@[label] < exe.ops.len(),
            decreases exe.ops.len() - self.index,
        {
            let opwrap = &exe.ops[self.index];
            assert(opwrap@ == exe@.ops[self.index as int]);
            if opwrap.pre_init {
                match opwrap.op.perform(self) {
                    Ok(()) => {},
                    Err(err) => {
                        proof {
                            lemma_duplicate_stays(
                                exe@,
                                (self.index + 1) as nat,
                                exe@.ops.len(),
                            );
                        }
                        return Err(self.throw_error(exe, opwrap, err));
                    },
                }
            }
            self.index = self.index + 1;
        }
        self.index = 0;
        Ok(())
    }

    /// Performs the operation at hand and moves on by one.
    pub fn step(&mut self, exe: &Executable) -> (result: Result<(), RuntimeError>)
        requires
            exe@.wf(),
            exe@.inv(old(self)@),
            exe@.running(old(self)@),
        ensures
            match exe@.step(old(self)@) {
                Ok(after) => result is Ok && final(self)@ == after,
                Err(kind) => result is Err && result->Err_0@ == exe@.fault(
                    old(self).index as int,
                    kind,
                ) && final(self)@ == old(self)@,
            },
            exe@.inv(final(self)@),
    {
        let opwrap = &exe.ops[self.index];
        if !opwrap.pre_init {
            match opwrap.op.perform(self) {
                Ok(()) => {},
                Err(err) => {
                    return Err(self.throw_error(exe, opwrap, err));
                },
            }
        }
        assert(self.index < exe.ops.len());
        self.index = self.index + 1;
        Ok(())
    }

    /// Runs `exe` on from the state at hand, for at most `budget`
    /// operations. Answers whether the run is over: the program has halted
    /// or has no operation left. Where it is not, another call goes on with
    /// it.
    pub fn run(&mut self, exe: &Executable, budget: usize) -> (result: Result<bool, RuntimeError>)
        requires
            exe@.wf(),
            exe@.inv(old(self)@),
        ensures
            final(self)@ == exe@.run(old(self)@, budget as nat).state,
            match exe@.run(old(self)@, budget as nat).error {
                Some(error) => result is Err && result->Err_0@ == error,
                None => result == Ok::<bool, RuntimeError>(!exe@.running(final(self)@)),
            },
            exe@.inv(final(self)@),
    {
        let mut left = budget;
        while left > 0 && self.index < exe.ops.len() && !self.end
            invariant
                exe@.wf(),
                exe@.inv(self@),
                exe@.run(old(self)@, budget as nat) == exe@.run(self@, left as nat),
            decreases left,
        {
            match self.step(exe) {
                Ok(()) => {},
                Err(error) => {
                    return Err(error);
                },
            }
            left = left - 1;
        }
        Ok(!(self.index < exe.ops.len() && !self.end))
    }

    /// Executes `exe` from a fresh state, whatever the state held before:
    /// registers the labels, then runs the program from its first operation
    /// for at most `budget` operations. Answers whether the run is over;
    /// where it is not, `run` goes on with it.
    pub fn execute(&mut self, exe: &Executable, budget: usize) -> (result: Result<
        bool,
        RuntimeError,
    >)
        requires
            exe@.wf(),
        ensures
            final(self)@ == exe@.execution(budget as nat).state,
            match exe@.execution(budget as nat).error {
                Some(error) => result is Err && result->Err_0@ == error,
                None => result == Ok::<bool, RuntimeError>(!exe@.running(final(self)@)),
            },
            result is Ok ==> exe@.inv(final(self)@),
    {
        *self = Runtime::new();
        match self.register(exe) {
            Ok(()) => {},
            Err(error) => {
                return Err(error);
            },
        }
        self.run(exe, budget)
    }
}

} // verus!
