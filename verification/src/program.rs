//! Compiled programs, and what it means to run one: the registering of
//! labels, the single step, the run within a budget.

use vstd::prelude::*;
use crate::error::{RuntimeErrorKindView, RuntimeErrorView};
use crate::machine::{effect, OpView, RuntimeView};
use crate::op::{OpWrap, OpWrapView};

verus! {

/// A compiled program: its operations in the order of their lines, and the
/// source text they were compiled from, which reports of errors quote.
#[derive(Debug, PartialEq, Eq)]
pub struct Executable {
    pub ops: Vec<OpWrap>,
    pub raw: String,
}

/// A compiled program over mathematical values.
pub struct ExecutableView {
    pub ops: Seq<OpWrapView>,
    pub raw: Seq<char>,
}

/// The views of a sequence of operations, in order.
pub open spec fn ops_view(ops: Seq<OpWrap>) -> Seq<OpWrapView> {
    ops.map_values(|op: OpWrap| op@)
}

impl View for Executable {
    type V = ExecutableView;

    open spec fn view(&self) -> ExecutableView {
        ExecutableView { ops: ops_view(self.ops@), raw: self.raw@ }
    }
}

impl Executable {
    /// Whether every operation is well formed.
    pub fn well_formed(&self) -> (ok: bool)
        ensures
            ok == self@.wf(),
    {
        let mut i: usize = 0;
        while i < self.ops.len()
            invariant
                i <= self.ops.len(),
                forall|k: int| 0 <= k < i ==> (#[trigger] self@.ops[k]).wf(),
            decreases self.ops.len() - i,
        {
            assert(self@.ops[i as int] == self.ops[i as int]@);
            if !self.ops[i].well_formed() {
                return false;
            }
            i = i + 1;
        }
        true
    }
}

/// How a run ended or where it stands: the state it reached, and the error
/// that stopped it, if one did.
pub struct Outcome {
    pub state: RuntimeView,
    pub error: Option<RuntimeErrorView>,
}

impl ExecutableView {
    /// Whether every operation is well formed.
    pub open spec fn wf(self) -> bool {
        forall|i: int| 0 <= i < self.ops.len() ==> (#[trigger] self.ops[i]).wf()
    }

    /// Whether every operation is the one that the words of its line spell.
    pub open spec fn spelled(self) -> bool {
        forall|i: int| 0 <= i < self.ops.len() ==> (#[trigger] self.ops[i]).spelled()
    }

    /// Whether every operation keeps the tokens of one line, which all
    /// stand on that line.
    pub open spec fn lined(self) -> bool {
        forall|i: int|
            0 <= i < self.ops.len() ==> {
                &&& (#[trigger] self.ops[i]).lined()
                &&& self.ops[i].on_one_line()
            }
    }

    /// The error of kind `kind` raised by the operation at `at`.
    pub open spec fn fault(self, at: int, kind: RuntimeErrorKindView) -> RuntimeErrorView {
        RuntimeErrorView::at(self.raw, kind, self.ops[at].blamed(kind))
    }

    /// The label that the operation at `at` declares, if it declares one.
    pub open spec fn label_at(self, at: int) -> Option<Seq<char>> {
        match self.ops[at].op {
            OpView::Pin(label) => Some(label),
            _ => None,
        }
    }

    /// The index of the first declaration, among the first `n` operations,
    /// of a label that an earlier operation declares already. `None` where
    /// the labels of the first `n` operations are distinct.
    pub open spec fn duplicate(self, n: nat) -> Option<int>
        decreases n,
    {
        if n == 0 {
            None
        } else {
            match self.duplicate((n - 1) as nat) {
                Some(at) => Some(at),
                None => match self.label_at(n - 1) {
                    Some(label) => if self.labels((n - 1) as nat).contains_key(label) {
                        Some(n - 1)
                    } else {
                        None
                    },
                    None => None,
                },
            }
        }
    }

    /// The labels that the first `n` operations declare, each with the index
    /// of its first declaration.
    pub open spec fn labels(self, n: nat) -> Map<Seq<char>, usize>
        decreases n,
    {
        if n == 0 {
            Map::empty()
        } else {
            let before = self.labels((n - 1) as nat);
            match self.label_at(n - 1) {
                Some(label) => if before.contains_key(label) {
                    before
                } else {
                    before.insert(label, (n - 1) as usize)
                },
                None => before,
            }
        }
    }

    /// How many of the first `n` operations declare a label.
    pub open spec fn label_count(self, n: nat) -> nat
        decreases n,
    {
        if n == 0 {
            0
        } else {
            self.label_count((n - 1) as nat) + if self.label_at(n - 1) is Some {
                1nat
            } else {
                0nat
            }
        }
    }

    /// Whether no two operations declare the same label.
    pub open spec fn distinct_labels(self) -> bool {
        forall|i: int, j: int|
            0 <= i < j < self.ops.len() && self.label_at(i) is Some ==> self.label_at(i)
                != self.label_at(j)
    }

    /// Whether the state belongs to a run of this program: the next
    /// operation is one of the program or the end of it, and every label
    /// and every place on the stack points at an operation.
    pub open spec fn inv(self, state: RuntimeView) -> bool {
        &&& state.index <= self.ops.len()
        &&& forall|label: Seq<char>| #[trigger]
            state.pins.contains_key(label) ==> state.pins[label] < self.ops.len()
        &&& forall|i: int| 0 <= i < state.stack.len() ==> #[trigger] state.stack[i] < self.ops.len()
    }

    /// Whether the run goes on from `state`: the program has not halted and
    /// has an operation left.
    pub open spec fn running(self, state: RuntimeView) -> bool {
        state.index < self.ops.len() && !state.end
    }

    /// The state after the operation at hand, or the error that it raises.
    /// A declaration does nothing here, since the labels are registered
    /// before the run. After any operation the run moves on by one, also
    /// after a jump, which so continues behind the declaration of its
    /// label, and after a return, which so continues behind the jump it
    /// returns to.
    pub open spec fn step(self, state: RuntimeView) -> Result<RuntimeView, RuntimeErrorKindView> {
        let op = self.ops[state.index as int];
        if op.pre_init {
            Ok(state.next())
        } else {
            match effect(op.op, state) {
                Ok(after) => Ok(after.next()),
                Err(kind) => Err(kind),
            }
        }
    }

    /// Where a run from `state` stands after at most `budget` operations. It
    /// stops before that where the program halts, has no operation left, or
    /// fails; the state is then the one in which that happened.
    pub open spec fn run(self, state: RuntimeView, budget: nat) -> Outcome
        decreases budget,
    {
        if budget == 0 || !self.running(state) {
            Outcome { state, error: None }
        } else {
            match self.step(state) {
                Ok(after) => self.run(after, (budget - 1) as nat),
                Err(kind) => Outcome {
                    state,
                    error: Some(self.fault(state.index as int, kind)),
                },
            }
        }
    }

    /// The state in which the run starts: nothing has happened but that the
    /// labels are registered. Where a label is declared twice, the state in
    /// which the second declaration was met, with the error for it.
    pub open spec fn loaded(self) -> Outcome {
        match self.duplicate(self.ops.len()) {
            None => Outcome {
                state: RuntimeView { pins: self.labels(self.ops.len()), ..RuntimeView::fresh() },
                error: None,
            },
            Some(at) => Outcome {
                state: RuntimeView {
                    pins: self.labels(at as nat),
                    index: at as usize,
                    ..RuntimeView::fresh()
                },
                error: Some(
                    self.fault(at, RuntimeErrorKindView::DuplicatePin(self.label_at(at)->Some_0)),
                ),
            },
        }
    }

    /// Where the execution of the program stands after at most `budget`
    /// operations: the labels are registered, and if that succeeds the run
    /// starts at the first operation.
    pub open spec fn execution(self, budget: nat) -> Outcome {
        if self.loaded().error is Some {
            self.loaded()
        } else {
            self.run(self.loaded().state, budget)
        }
    }
}

/// Once a label is found declared twice, more operations do not change
/// which declaration is the first such.
pub proof fn lemma_duplicate_stays(exe: ExecutableView, n: nat, m: nat)
    requires
        n <= m,
        exe.duplicate(n) is Some,
    ensures
        exe.duplicate(m) == exe.duplicate(n),
    decreases m - n,
{
    if n < m {
        lemma_duplicate_stays(exe, n, (m - 1) as nat);
    }
}

/// An operation of a run leaves the state one that belongs to a run, and
/// before the run moves on, the place at hand is that of an operation.
pub proof fn lemma_effect_keeps_inv(exe: ExecutableView, state: RuntimeView)
    requires
        exe.inv(state),
        state.index < exe.ops.len(),
    ensures
        effect(exe.ops[state.index as int].op, state) matches Ok(after) ==> exe.inv(after)
            && after.index < exe.ops.len(),
{
    if let Ok(after) = effect(exe.ops[state.index as int].op, state) {
        // The stack is the old one, the old one without its last place, or
        // the old one with the place at hand.
        assert forall|i: int| 0 <= i < after.stack.len() implies #[trigger] after.stack[i]
            < exe.ops.len() by {
            if i < state.stack.len() {
                assert(after.stack[i] == state.stack[i]);
            }
        }
    }
}

/// A run leaves the state one that belongs to a run: wherever it stands,
/// every label and every place on the stack points at an operation.
pub proof fn lemma_run_keeps_inv(exe: ExecutableView, state: RuntimeView, budget: nat)
    requires
        exe.inv(state),
    ensures
        exe.inv(exe.run(state, budget).state),
    decreases budget,
{
    if budget > 0 && exe.running(state) {
        lemma_effect_keeps_inv(exe, state);
        if let Ok(after) = exe.step(state) {
            lemma_run_keeps_inv(exe, after, (budget - 1) as nat);
        }
    }
}

} // verus!
