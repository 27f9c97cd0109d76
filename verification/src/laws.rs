//! What holds of every program and every run.

use vstd::prelude::*;
use crate::error::RuntimeErrorKindView;
use crate::machine::{effect, flag, OpView, RuntimeView};
use crate::op::first_symbol;
use crate::program::{ExecutableView, Outcome};
use crate::text::line_of;

verus! {

/// Where the first `n` operations declare no label twice, registering them
/// finds no duplicate, and the table holds one entry for each declaration
/// and no other: every declared label stands in it with the index of its
/// declaration, every entry names a label and the operation that declares
/// it, and there are as many entries as declarations.
pub proof fn lemma_labels_registered(exe: ExecutableView, n: nat)
    requires
        n <= exe.ops.len() <= usize::MAX,
        forall|i: int, j: int|
            0 <= i < j < n && exe.label_at(i) is Some ==> exe.label_at(i) != exe.label_at(j),
    ensures
        exe.duplicate(n) is None,
        exe.labels(n).dom().finite(),
        exe.labels(n).len() == exe.label_count(n),
        forall|i: int|
            0 <= i < n && exe.label_at(i) is Some ==> exe.labels(n).contains_key(
                #[trigger] exe.label_at(i)->Some_0,
            ) && exe.labels(n)[exe.label_at(i)->Some_0] == i,
        forall|label: Seq<char>| #[trigger]
            exe.labels(n).contains_key(label) ==> exe.labels(n)[label] < n && exe.label_at(
                exe.labels(n)[label] as int,
            ) == Some(label),
    decreases n,
{
    if n > 0 {
        let before = (n - 1) as nat;
        lemma_labels_registered(exe, before);
        if let Some(label) = exe.label_at(n - 1) {
            if exe.labels(before).contains_key(label) {
                // An entry for the label would name an earlier declaration
                // of it, and there is none.
                let twin = exe.labels(before)[label] as int;
                assert(exe.label_at(twin) == exe.label_at(n - 1));
            }
        }
    }
}

/// Of a program with distinct labels, the labels are registered without
/// error, and the table holds exactly one entry for each declaration: as
/// many entries as there are declarations, each label with the index of the
/// operation that declares it.
pub proof fn lemma_distinct_labels_registered(exe: ExecutableView)
    requires
        exe.ops.len() <= usize::MAX,
        exe.distinct_labels(),
    ensures
        exe.loaded().error is None,
        exe.loaded().state.pins.dom().finite(),
        exe.loaded().state.pins.len() == exe.label_count(exe.ops.len()),
        forall|i: int|
            0 <= i < exe.ops.len() && exe.label_at(i) is Some ==> {
                &&& exe.loaded().state.pins.contains_key(#[trigger] exe.label_at(i)->Some_0)
                &&& exe.loaded().state.pins[exe.label_at(i)->Some_0] == i
            },
        forall|label: Seq<char>| #[trigger]
            exe.loaded().state.pins.contains_key(label) ==> exe.label_at(
                exe.loaded().state.pins[label] as int,
            ) == Some(label),
{
    lemma_labels_registered(exe, exe.ops.len());
}

/// The first duplicate among the first `n` operations, where there is one,
/// declares a label that an earlier operation declares, and no operation
/// before it does so.
pub proof fn lemma_duplicate_is_first(exe: ExecutableView, n: nat)
    requires
        n <= exe.ops.len() <= usize::MAX,
    ensures
        match exe.duplicate(n) {
            Some(at) => {
                &&& 0 <= at < n
                &&& exe.label_at(at) is Some
                &&& exists|i: int| 0 <= i < at && exe.label_at(i) == exe.label_at(at)
                &&& forall|i: int, j: int|
                    0 <= i < j < at && exe.label_at(i) is Some ==> exe.label_at(i) != exe.label_at(
                        j,
                    )
            },
            None => forall|i: int, j: int|
                0 <= i < j < n && exe.label_at(i) is Some ==> exe.label_at(i) != exe.label_at(j),
        },
    decreases n,
{
    if n > 0 {
        let before = (n - 1) as nat;
        lemma_duplicate_is_first(exe, before);
        if exe.duplicate(before) is None {
            lemma_labels_registered(exe, before);
            if let Some(label) = exe.label_at(n - 1) {
                if exe.labels(before).contains_key(label) {
                    // The entry names an earlier declaration of the label.
                    let twin = exe.labels(before)[label] as int;
                    assert(0 <= twin < n - 1 && exe.label_at(twin) == exe.label_at(n - 1));
                } else {
                    // No earlier operation declares the label, since each
                    // declared label has its entry.
                    assert forall|i: int, j: int|
                        0 <= i < j < n && exe.label_at(i) is Some implies exe.label_at(i)
                        != exe.label_at(j) by {}
                }
            }
        }
    }
}

/// A program that declares a label twice fails before any operation is
/// performed: its execution ends with the error for a duplicate label,
/// raised by the earliest declaration that repeats a label and laid on the
/// token that names the label there; nothing is written and no slot holds a
/// value.
pub proof fn lemma_duplicate_label_fails(exe: ExecutableView, budget: nat, i: int, j: int)
    requires
        exe.ops.len() <= usize::MAX,
        exe.wf(),
        exe.spelled(),
        0 <= i < j < exe.ops.len(),
        exe.label_at(i) is Some,
        exe.label_at(i) == exe.label_at(j),
    ensures
        exe.duplicate(exe.ops.len()) matches Some(at) && ({
            let label = exe.label_at(at)->Some_0;
            let kind = RuntimeErrorKindView::DuplicatePin(label);
            &&& at <= j
            &&& exists|k: int| 0 <= k < at && exe.label_at(k) == Some(label)
            &&& exe.execution(budget).error == Some(exe.fault(at, kind))
            &&& exe.ops[at].blamed(kind) == exe.ops[at].word_token(0)
            &&& exe.ops[at].blamed(kind).kind.text() == label
            &&& exe.execution(budget).state.output == Seq::<u8>::empty()
            &&& exe.execution(budget).state.memory == Map::<Seq<char>, usize>::empty()
        }),
{
    lemma_duplicate_is_first(exe, exe.ops.len());
}

/// A run does not touch the table of labels.
pub proof fn lemma_run_keeps_pins(exe: ExecutableView, state: RuntimeView, budget: nat)
    requires
        exe.wf(),
    ensures
        exe.run(state, budget).state.pins == state.pins,
    decreases budget,
{
    if budget > 0 && exe.running(state) {
        if let Ok(after) = exe.step(state) {
            lemma_run_keeps_pins(exe, after, (budget - 1) as nat);
        }
    }
}

/// Wherever the execution of a program with distinct labels stands, its
/// table of labels is the one that was registered before the run.
pub proof fn lemma_execution_keeps_labels(exe: ExecutableView, budget: nat)
    requires
        exe.wf(),
        exe.duplicate(exe.ops.len()) is None,
    ensures
        exe.execution(budget).state.pins == exe.labels(exe.ops.len()),
{
    lemma_run_keeps_pins(exe, exe.loaded().state, budget);
}

/// The place at hand changes only by a jump or a return, and the stack
/// only with it: an operation either leaves both as they are, or it is a jump
/// to a declared label, which pushes its own place and goes to the place of
/// the declaration, or it is a return, which takes the last place off the
/// stack and goes there.
pub proof fn lemma_control_flow(op: OpView, state: RuntimeView)
    requires
        effect(op, state) is Ok,
    ensures
        ({
            let after = effect(op, state)->Ok_0;
            ||| after.stack == state.stack && after.index == state.index
            ||| {
                &&& op.target() matches Some(label)
                &&& state.pins.contains_key(label)
                &&& after.stack == state.stack.push(state.index)
                &&& after.index == state.pins[label]
            }
            ||| {
                &&& op is Ret
                &&& state.stack.len() > 0
                &&& after.stack == state.stack.drop_last()
                &&& after.index == state.stack.last()
            }
        }),
        op is Jmp ==> effect(op, state)->Ok_0.stack == state.stack.push(state.index),
{
}

/// A conditional jump needs a comparison before it, and uses it up: it
/// fails where the flag is absent, and where it succeeds the flag is absent
/// afterwards, whether or not the jump was taken.
pub proof fn lemma_conditional_jump_consumes_flag(op: OpView, state: RuntimeView)
    requires
        op is Jif || op is Jel,
    ensures
        !state.memory.contains_key(flag()) ==> effect(op, state) == Err::<
            RuntimeView,
            RuntimeErrorKindView,
        >(RuntimeErrorKindView::NoCompare),
        effect(op, state) matches Ok(after) ==> state.memory.contains_key(flag())
            && !after.memory.contains_key(flag()),
{
}

/// A slot that was never written holds nothing: every operation that reads
/// it fails with the error for an undefined slot that names it, unless it
/// fails earlier on its other operand.
pub proof fn lemma_read_of_undefined_slot(op: OpView, state: RuntimeView, name: Seq<char>)
    requires
        !state.memory.contains_key(name),
        match op {
            OpView::Add(slot, _) | OpView::Sub(slot, _) | OpView::Cmp(slot, _) => slot == name,
            OpView::Mov(_, refer) | OpView::Out(refer) | OpView::Utf(refer) => refer
                == crate::machine::RefView::Pos(name),
            _ => false,
        },
    ensures
        effect(op, state) == Err::<RuntimeView, RuntimeErrorKindView>(
            RuntimeErrorKindView::Undefined(name),
        ),
{
}

/// A jump to a label that the program does not declare fails: whenever the
/// run of a registered program comes to a `jmp` whose label no operation
/// declares, it ends there with the error for a missing label, laid on the
/// argument of the jump, which is the token that names the label.
pub proof fn lemma_jump_to_undeclared_label(
    exe: ExecutableView,
    state: RuntimeView,
    budget: nat,
    label: Seq<char>,
)
    requires
        exe.ops.len() <= usize::MAX,
        exe.wf(),
        exe.spelled(),
        exe.running(state),
        state.pins == exe.labels(exe.ops.len()),
        exe.ops[state.index as int].op == OpView::Jmp(label),
        forall|i: int| 0 <= i < exe.ops.len() ==> exe.label_at(i) != Some(label),
        budget > 0,
    ensures
        exe.run(state, budget).state == state,
        exe.run(state, budget).error == Some(
            exe.fault(state.index as int, RuntimeErrorKindView::NoPin(label)),
        ),
        exe.ops[state.index as int].blamed(RuntimeErrorKindView::NoPin(label))
            == exe.ops[state.index as int].word_token(1),
        exe.ops[state.index as int].blamed(RuntimeErrorKindView::NoPin(label)).kind.text() == label,
{
    lemma_labels_hold_declared(exe, exe.ops.len(), label);
}

/// The table of the first `n` operations holds a label exactly if one of
/// them declares it.
pub proof fn lemma_labels_hold_declared(exe: ExecutableView, n: nat, label: Seq<char>)
    requires
        n <= exe.ops.len(),
    ensures
        exe.labels(n).contains_key(label) <==> exists|i: int|
            0 <= i < n && exe.label_at(i) == Some(label),
    decreases n,
{
    if n > 0 {
        let before = (n - 1) as nat;
        lemma_labels_hold_declared(exe, before, label);
        if exe.labels(before).contains_key(label) {
            let i = choose|i: int| 0 <= i < before && exe.label_at(i) == Some(label);
            assert(0 <= i < n && exe.label_at(i) == Some(label));
        }
        if exists|i: int| 0 <= i < n && exe.label_at(i) == Some(label) {
            let i = choose|i: int| 0 <= i < n && exe.label_at(i) == Some(label);
            assert(i < before ==> exe.labels(before).contains_key(label));
        }
    }
}

/// A run that is over stays where it is: once the program has halted, has
/// no operation left or has failed, a larger budget changes nothing.
pub proof fn lemma_run_settles(exe: ExecutableView, state: RuntimeView, budget: nat, more: nat)
    requires
        budget <= more,
        exe.run(state, budget).error is Some || !exe.running(exe.run(state, budget).state),
    ensures
        exe.run(state, more) == exe.run(state, budget),
    decreases budget,
{
    if budget > 0 && exe.running(state) {
        if let Ok(after) = exe.step(state) {
            lemma_run_settles(exe, after, (budget - 1) as nat, (more - 1) as nat);
        }
    }
}

/// A run can be made in parts: where the first `first` operations raise no
/// error, running on for `second` more gives what a single run of
/// `first + second` gives.
pub proof fn lemma_run_resumes(exe: ExecutableView, state: RuntimeView, first: nat, second: nat)
    requires
        exe.run(state, first).error is None,
    ensures
        exe.run(state, first + second) == exe.run(exe.run(state, first).state, second),
    decreases first,
{
    if first > 0 && exe.running(state) {
        if let Ok(after) = exe.step(state) {
            lemma_run_resumes(exe, after, (first - 1) as nat, second);
        }
    }
}

/// Executing a program twice gives the same both times: the outcome of an
/// execution is fixed by the program and the budget, so two executions write
/// the same bytes, reach the same state and raise the same error.
pub proof fn lemma_execution_repeats(
    exe: ExecutableView,
    budget: nat,
    first: Outcome,
    second: Outcome,
)
    requires
        first == exe.execution(budget),
        second == exe.execution(budget),
    ensures
        first.state.output == second.state.output,
        first == second,
{
}

/// Two executions of a program that are both over agree, whatever their
/// budgets were: they have written the same bytes, reached the same state
/// and raised the same error.
pub proof fn lemma_finished_executions_agree(exe: ExecutableView, budget: nat, other: nat)
    requires
        exe.execution(budget).error is Some || !exe.running(exe.execution(budget).state),
        exe.execution(other).error is Some || !exe.running(exe.execution(other).state),
    ensures
        exe.execution(budget) == exe.execution(other),
{
    if exe.loaded().error is None {
        if budget <= other {
            lemma_run_settles(exe, exe.loaded().state, budget, other);
        } else {
            lemma_run_settles(exe, exe.loaded().state, other, budget);
        }
    }
}

/// Where the first operation of a program with distinct labels fails on the
/// state in which the run starts, the execution ends with that error,
/// whatever follows in the program; nothing has been written.
pub proof fn lemma_first_operation_fails(
    exe: ExecutableView,
    budget: nat,
    kind: RuntimeErrorKindView,
)
    requires
        exe.ops.len() > 0,
        exe.duplicate(exe.ops.len()) is None,
        !exe.ops[0].pre_init,
        effect(exe.ops[0].op, exe.loaded().state) == Err::<RuntimeView, RuntimeErrorKindView>(kind),
        budget > 0,
    ensures
        exe.execution(budget).error == Some(exe.fault(0, kind)),
        exe.execution(budget).state == exe.loaded().state,
        exe.execution(budget).state.output == Seq::<u8>::empty(),
{
}

/// Reading a slot that was never written is an error, never a zero: a
/// program with distinct labels whose first operation compares such a slot
/// fails with the error for an undefined slot that names it, laid on the
/// first argument, whatever follows.
pub proof fn lemma_compare_of_undefined_slot(
    exe: ExecutableView,
    budget: nat,
    name: Seq<char>,
)
    requires
        exe.ops.len() > 0,
        exe.duplicate(exe.ops.len()) is None,
        !exe.ops[0].pre_init,
        exe.ops[0].op matches OpView::Cmp(slot, _) && slot == name,
        budget > 0,
    ensures
        exe.execution(budget).error == Some(exe.fault(0, RuntimeErrorKindView::Undefined(name))),
        exe.ops[0].blamed(RuntimeErrorKindView::Undefined(name)) == exe.ops[0].word_token(1),
{
}

/// A return before any jump fails: a program with distinct labels whose
/// first operation is `ret` ends with the error for an empty stack, laid on
/// the mnemonic.
pub proof fn lemma_return_before_any_jump(exe: ExecutableView, budget: nat)
    requires
        exe.ops.len() > 0,
        exe.duplicate(exe.ops.len()) is None,
        !exe.ops[0].pre_init,
        exe.ops[0].op == OpView::Ret,
        budget > 0,
    ensures
        exe.execution(budget).error == Some(exe.fault(0, RuntimeErrorKindView::NoReturn)),
        exe.ops[0].blamed(RuntimeErrorKindView::NoReturn) == exe.ops[0].word_token(0),
{
}

/// An error of a run points into the line of its operation: the token that
/// it blames is one of the operation's, so of a compiled program the error
/// stands on the line that the operation was written on, and quotes that
/// line.
pub proof fn lemma_fault_on_line(exe: ExecutableView, at: int, kind: RuntimeErrorKindView)
    requires
        exe.wf(),
        exe.lined(),
        0 <= at < exe.ops.len(),
    ensures
        exe.fault(at, kind).kind == kind,
        exe.fault(at, kind).loc.0 == exe.ops[at].line(),
        exe.fault(at, kind).line == line_of(exe.raw, exe.ops[at].line()),
        exists|i: int|
            0 <= i < exe.ops[at].tokens.len() && exe.ops[at].blamed(kind)
                == #[trigger] exe.ops[at].tokens[i],
{
    let op = exe.ops[at];
    assert(op.wf() && op.on_one_line());
    let i = (first_symbol(op.tokens) + op.op.blamed_word(kind)) as int;
    assert(op.op.blamed_word(kind) <= op.op.arity());
    assert(op.blamed(kind) == op.tokens[i]);
}

/// An error about a label lies on the token that names the label: whether
/// the label is missing or declared twice, the error blames the argument of
/// a jump and the leading word of a declaration, and of an operation that is
/// the one its line spells, that word is the label of the operation.
pub proof fn lemma_label_error_on_label_token(
    exe: ExecutableView,
    at: int,
    kind: RuntimeErrorKindView,
)
    requires
        exe.wf(),
        exe.spelled(),
        0 <= at < exe.ops.len(),
        kind is NoPin || kind is DuplicatePin,
        exe.ops[at].op is Pin || exe.ops[at].op.target() is Some,
    ensures
        exe.ops[at].blamed(kind) == exe.ops[at].word_token(
            if exe.ops[at].op is Pin {
                0
            } else {
                1
            },
        ),
        exe.ops[at].blamed(kind).kind.text() == match exe.ops[at].op {
            OpView::Pin(label) => label,
            _ => exe.ops[at].op.target()->Some_0,
        },
        exe.fault(at, kind).kind == kind,
        exe.fault(at, kind).loc == exe.ops[at].blamed(kind).pos,
        exe.fault(at, kind).len == exe.ops[at].blamed(kind).len(),
        exe.fault(at, kind).line == line_of(exe.raw, exe.ops[at].blamed(kind).pos.0),
{
    assert(exe.ops[at].wf() && exe.ops[at].spelled());
}

} // verus!
