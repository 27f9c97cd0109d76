use ask::error::{PerformError, RuntimeError, RuntimeErrorKind};
use ask::op::{Add, Cmp, End, Jel, Jif, Jmp, Mov, OpKind, Out, Pin, Ret, Sub, Utf};
use ask::{Compiler, Executable, Op, Ref, Runtime};

const BUDGET: usize = 10_000;

fn compile(raw: &str) -> Executable {
    Compiler::default().compile(raw).unwrap()
}

fn execute(raw: &str) -> (Runtime, Result<bool, RuntimeError>) {
    let exe = compile(raw);
    let mut runtime = Runtime::default();
    let result = runtime.execute(&exe, BUDGET);
    (runtime, result)
}

fn output(raw: &str) -> String {
    let (runtime, result) = execute(raw);
    assert_eq!(result, Ok(true));
    String::from_utf8(runtime.output).unwrap()
}

fn failure(raw: &str) -> RuntimeError {
    execute(raw).1.unwrap_err()
}

fn text(s: &str) -> String {
    s.to_string()
}

#[test]
fn mov_out_end_prints_the_value() {
    assert_eq!(output("mov a 5\nout a\nend"), "5");
}

#[test]
fn undefined_slot_in_cmp_is_named() {
    let error = failure("cmp a 5");
    assert_eq!(error.kind, RuntimeErrorKind::Undefined(text("a")));
    // Blamed on the argument that names the slot.
    assert_eq!(error.loc, (0, 5));
    assert_eq!(error.len, 1);
    assert_eq!(error.line, "cmp a 5");
}

#[test]
fn undefined_slot_in_cmp_whatever_follows() {
    for rest in ["", "\nend", "\nmov a 5\nout a", "\njif x\n:x", "\nret"] {
        let raw = format!("cmp a 5{}", rest);
        assert_eq!(failure(&raw).kind, RuntimeErrorKind::Undefined(text("a")), "{}", raw);
    }
}

#[test]
fn duplicate_label_fails_at_the_second_declaration() {
    let (runtime, result) = execute("out 1\n:again\nout 2\n  :again\nout 3");
    let error = result.unwrap_err();
    assert_eq!(error.kind, RuntimeErrorKind::DuplicatePin(text("again")));
    assert_eq!(error.loc, (3, 8));
    assert_eq!(error.len, 5);
    assert_eq!(error.line, "  :again");
    // Nothing was executed.
    assert_eq!(runtime.output, b"");
    assert_eq!(runtime.index, 3);
}

#[test]
fn duplicate_label_behind_the_end_still_fails() {
    let error = failure("end\n:a\n:b\n:a");
    assert_eq!(error.kind, RuntimeErrorKind::DuplicatePin(text("a")));
    assert_eq!(error.loc, (3, 2));
}

#[test]
fn third_declaration_is_not_the_one_reported() {
    assert_eq!(failure(":a\n:a\n:a").loc, (1, 2));
}

#[test]
fn jump_to_undeclared_label_fails_at_the_label_token() {
    let error = failure("mov a 1\n  jmp X\nend");
    assert_eq!(error.kind, RuntimeErrorKind::NoPin(text("X")));
    assert_eq!(error.loc, (1, 7));
    assert_eq!(error.len, 1);
    assert_eq!(error.line, "  jmp X");
}

#[test]
fn ret_on_empty_stack_fails() {
    let error = failure("ret");
    assert_eq!(error.kind, RuntimeErrorKind::NoReturn);
    // Blamed on the mnemonic.
    assert_eq!(error.loc, (0, 3));
    assert_eq!(error.len, 3);
}

#[test]
fn conditional_jump_without_compare_fails() {
    let error = failure("mov a 5\njif L\n:L");
    assert_eq!(error.kind, RuntimeErrorKind::NoCompare);
    assert_eq!(error.loc, (1, 3));
    assert_eq!(error.len, 3);
    assert_eq!(failure("jel L\n:L").kind, RuntimeErrorKind::NoCompare);
}

#[test]
fn conditional_jump_round_trip() {
    assert_eq!(output("mov a 5\ncmp a 5\njif L\nout 1\n:L\nout 2\nend"), "2");
}

#[test]
fn conditional_jump_not_taken_falls_through() {
    assert_eq!(output("mov a 5\ncmp a 6\njif L\nout 1\n:L\nout 2\nend"), "12");
}

#[test]
fn jel_jumps_on_unequal() {
    assert_eq!(output("mov a 5\ncmp a 6\njel L\nout 1\n:L\nout 2\nend"), "2");
    assert_eq!(output("mov a 5\ncmp a 5\njel L\nout 1\n:L\nout 2\nend"), "12");
}

#[test]
fn flag_is_consumed_by_a_conditional_jump() {
    // Taken or not, the jump removes the flag.
    assert_eq!(
        failure("mov a 1\ncmp a 1\njel L\njif L\n:L").kind,
        RuntimeErrorKind::NoCompare
    );
    assert_eq!(
        failure("mov a 1\ncmp a 1\njif L\n:L\njif L").kind,
        RuntimeErrorKind::NoCompare
    );
    let (runtime, _) = execute("mov a 1\ncmp a 1\njif L\n:L");
    assert_eq!(runtime.read(&text("#")).unwrap_err().0, RuntimeErrorKind::Undefined(text("#")));
}

#[test]
fn cmp_writes_one_or_zero_into_the_flag() {
    let (runtime, _) = execute("mov a 1\ncmp a 1");
    assert_eq!(runtime.read(&text("#")).unwrap(), 1);
    let (runtime, _) = execute("mov a 1\nmov b 2\ncmp a b");
    assert_eq!(runtime.read(&text("#")).unwrap(), 0);
}

#[test]
fn conditional_jump_to_undeclared_label_fails_only_if_taken() {
    let error = failure("mov a 1\ncmp a 1\njif X");
    assert_eq!(error.kind, RuntimeErrorKind::NoPin(text("X")));
    assert_eq!(error.loc, (2, 5));
    assert_eq!(output("mov a 1\ncmp a 2\njif X\nout 7"), "7");
}

#[test]
fn labels_may_be_declared_behind_their_use() {
    assert_eq!(output("jmp later\nout 1\n:later\nout 2"), "2");
}

#[test]
fn ret_goes_on_behind_the_jump() {
    assert_eq!(output("jmp sub\nout 1\nend\n:sub\nout 2\nret"), "21");
}

#[test]
fn ret_is_valid_after_a_conditional_jump() {
    assert_eq!(
        output("mov a 1\ncmp a 1\njif sub\nout 3\nend\n:sub\nout 2\nret"),
        "23"
    );
}

#[test]
fn every_jump_pushes_its_place() {
    let (runtime, result) = execute("jmp a\n:a\nmov x 0\ncmp x 0\njif b\n:b\ncmp x 1\njel c\n:c");
    assert_eq!(result, Ok(true));
    assert_eq!(runtime.stack, vec![0, 4, 7]);
}

#[test]
fn program_that_runs_off_its_end_is_over() {
    let (runtime, result) = execute("out 1\nout 2");
    assert_eq!(result, Ok(true));
    assert_eq!(runtime.output, b"12");
    assert_eq!(runtime.index, 2);
    assert!(!runtime.end);
}

#[test]
fn end_halts_before_what_follows() {
    let (runtime, result) = execute("out 1\nend\nout 2\ncmp nothing 1");
    assert_eq!(result, Ok(true));
    assert_eq!(runtime.output, b"1");
    assert!(runtime.end);
    assert_eq!(runtime.index, 2);
}

#[test]
fn output_before_a_failure_stays() {
    let (runtime, result) = execute("out 1\nout 22\nout missing\nout 3");
    assert_eq!(result.unwrap_err().kind, RuntimeErrorKind::Undefined(text("missing")));
    assert_eq!(runtime.output, b"122");
    assert_eq!(runtime.index, 2);
}

#[test]
fn mov_copies_a_slot() {
    assert_eq!(output("mov a 7\nmov b a\nmov a 8\nout b\nout a"), "78");
}

#[test]
fn mov_from_undefined_slot_names_that_slot() {
    let error = failure("mov a b");
    assert_eq!(error.kind, RuntimeErrorKind::Undefined(text("b")));
    assert_eq!(error.loc, (0, 7));
}

#[test]
fn mov_needs_no_prior_value() {
    assert_eq!(output("mov fresh 0\nout fresh"), "0");
}

#[test]
fn add_and_sub_compute() {
    assert_eq!(output("mov a 40\nadd a 2\nout a"), "42");
    assert_eq!(output("mov a 40\nmov b 2\nsub a b\nout a"), "38");
    assert_eq!(output("mov a 5\nadd a a\nout a"), "10");
    assert_eq!(output("mov a 5\nsub a a\nout a"), "0");
}

#[test]
fn add_to_undefined_slot_fails() {
    let error = failure("add a 1");
    assert_eq!(error.kind, RuntimeErrorKind::Undefined(text("a")));
    assert_eq!(error.loc, (0, 5));
    let error = failure("mov a 1\nsub a b");
    assert_eq!(error.kind, RuntimeErrorKind::Undefined(text("b")));
    assert_eq!(error.loc, (1, 7));
    // The slot is read before the reference.
    assert_eq!(failure("add a b").kind, RuntimeErrorKind::Undefined(text("a")));
}

#[test]
fn sub_below_zero_is_a_fault() {
    let (runtime, result) = execute("mov a 3\nsub a 4\nout a");
    let error = result.unwrap_err();
    assert_eq!(error.kind, RuntimeErrorKind::Underflow);
    assert_eq!(error.loc, (1, 3));
    assert_eq!(error.len, 3);
    assert_eq!(runtime.read(&text("a")).unwrap(), 3);
    assert_eq!(output("mov a 3\nsub a 3\nout a"), "0");
}

#[test]
fn add_beyond_the_largest_value_is_a_fault() {
    let raw = format!("mov a {}\nadd a 1", usize::MAX);
    assert_eq!(failure(&raw).kind, RuntimeErrorKind::Overflow);
    let raw = format!("mov a {}\nadd a 0\nout a", usize::MAX);
    assert_eq!(output(&raw), usize::MAX.to_string());
}

#[test]
fn out_writes_decimal_digits() {
    assert_eq!(output("out 0"), "0");
    assert_eq!(output("out 7"), "7");
    assert_eq!(output("out 10"), "10");
    assert_eq!(output("out 1234567890"), "1234567890");
    assert_eq!(output("out 007"), "7");
    assert_eq!(output(&format!("out {}", usize::MAX)), usize::MAX.to_string());
}

#[test]
fn utf_writes_the_low_byte_as_a_character() {
    assert_eq!(output("utf 72\nutf 105\nutf 10"), "Hi\n");
    // Only the low eight bits count.
    assert_eq!(output("utf 321"), "A");
    assert_eq!(output("utf 256"), "\0");
    assert_eq!(output("utf 127"), "\u{7f}");
}

#[test]
fn utf_replaces_a_byte_that_is_no_character() {
    for value in [128usize, 191, 192, 233, 255, 128 + 256] {
        let byte = [(value % 256) as u8];
        let expected = String::from_utf8_lossy(&byte).into_owned();
        assert_eq!(expected, "\u{fffd}");
        assert_eq!(output(&format!("utf {}", value)), expected, "{}", value);
    }
}

#[test]
fn utf_of_undefined_slot_fails() {
    let error = failure("utf x");
    assert_eq!(error.kind, RuntimeErrorKind::Undefined(text("x")));
    assert_eq!(error.loc, (0, 5));
}

#[test]
fn labels_are_registered_once_each() {
    let exe = compile("out 1\n:a\n:b\njmp c\n:c\nend");
    let mut runtime = Runtime::default();
    assert_eq!(runtime.register(&exe), Ok(()));
    assert_eq!(runtime.pin_count(), 3);
    assert_eq!(runtime.pin("a"), Some(1));
    assert_eq!(runtime.pin("b"), Some(2));
    assert_eq!(runtime.pin("c"), Some(4));
    assert_eq!(runtime.pin("d"), None);
    assert_eq!(runtime.index, 0);
    assert_eq!(runtime.output, b"");
}

#[test]
fn register_replaces_earlier_labels() {
    let mut runtime = Runtime::default();
    runtime.register(&compile(":old\n:a")).unwrap();
    runtime.register(&compile("end\n:a")).unwrap();
    assert_eq!(runtime.pin_count(), 1);
    assert_eq!(runtime.pin("a"), Some(1));
}

#[test]
fn executing_twice_gives_the_same_output() {
    let exe = compile("mov i 0\n:loop\nout i\nutf 32\nadd i 1\ncmp i 5\njel loop\nend");
    let mut first = Runtime::default();
    let mut second = Runtime::default();
    assert_eq!(first.execute(&exe, BUDGET), Ok(true));
    assert_eq!(second.execute(&exe, BUDGET), Ok(true));
    assert_eq!(first.output, b"0 1 2 3 4 ");
    assert_eq!(first.output, second.output);
    // Also on a runtime that has been used: execution starts afresh.
    assert_eq!(first.execute(&exe, BUDGET), Ok(true));
    assert_eq!(first.output, second.output);
    assert_eq!(first.stack, second.stack);
}

#[test]
fn budget_bounds_a_run_that_never_ends() {
    let exe = compile(":top\nout 1\njmp top");
    let mut runtime = Runtime::default();
    assert_eq!(runtime.execute(&exe, 7), Ok(false));
    // Seven operations: the label, then three times `out` and `jmp`.
    assert_eq!(runtime.output, b"111");
    assert_eq!(runtime.stack, vec![2, 2, 2]);
    assert_eq!(runtime.index, 1);
    assert_eq!(runtime.run(&exe, 2), Ok(false));
    assert_eq!(runtime.output, b"1111");
}

#[test]
fn run_in_slices_equals_run_at_once() {
    let exe = compile("mov i 0\n:loop\nout i\nadd i 1\ncmp i 9\njel loop\nend\nout 99");
    let mut whole = Runtime::default();
    assert_eq!(whole.execute(&exe, BUDGET), Ok(true));
    let mut sliced = Runtime::default();
    let mut over = sliced.execute(&exe, 0).unwrap();
    let mut slices = 0;
    while !over {
        over = sliced.run(&exe, 3).unwrap();
        slices += 1;
    }
    assert_eq!(whole.output, b"012345678");
    assert_eq!(sliced.output, whole.output);
    assert_eq!(sliced.index, whole.index);
    assert!(slices > 5);
}

#[test]
fn step_performs_one_operation() {
    let exe = compile("mov a 2\n:l\nout a\nend");
    let mut runtime = Runtime::default();
    runtime.register(&exe).unwrap();
    assert_eq!(runtime.step(&exe), Ok(()));
    assert_eq!((runtime.index, runtime.read(&text("a")).unwrap()), (1, 2));
    assert_eq!(runtime.step(&exe), Ok(()));
    assert_eq!((runtime.index, runtime.output.len()), (2, 0));
    assert_eq!(runtime.step(&exe), Ok(()));
    assert_eq!(runtime.output, b"2");
    assert_eq!(runtime.step(&exe), Ok(()));
    assert!(runtime.end);
    assert_eq!(runtime.index, 4);
}

#[test]
fn operations_perform_on_a_runtime() {
    let mut runtime = Runtime::default();
    assert_eq!(Mov(text("a"), Ref::Value(9)).perform(&mut runtime), Ok(()));
    assert_eq!(Add(text("a"), Ref::Value(1)).perform(&mut runtime), Ok(()));
    assert_eq!(Sub(text("a"), Ref::Value(4)).perform(&mut runtime), Ok(()));
    assert_eq!(runtime.read(&text("a")), Ok(6));
    assert_eq!(Out(Ref::Pos(text("a"))).perform(&mut runtime), Ok(()));
    assert_eq!(Utf(Ref::Value(33)).perform(&mut runtime), Ok(()));
    assert_eq!(runtime.output, b"6!");
    runtime.index = 4;
    assert_eq!(Pin(text("here")).perform(&mut runtime), Ok(()));
    assert_eq!(runtime.pin("here"), Some(4));
    assert_eq!(
        Pin(text("here")).perform(&mut runtime),
        Err(PerformError(RuntimeErrorKind::DuplicatePin(text("here"))))
    );
    runtime.index = 7;
    assert_eq!(Jmp(text("here")).perform(&mut runtime), Ok(()));
    assert_eq!((runtime.index, runtime.stack.clone()), (4, vec![7]));
    assert_eq!(Ret.perform(&mut runtime), Ok(()));
    assert_eq!((runtime.index, runtime.stack.clone()), (7, vec![]));
    assert_eq!(Ret.perform(&mut runtime), Err(PerformError(RuntimeErrorKind::NoReturn)));
    assert_eq!(Cmp(text("a"), Ref::Value(6)).perform(&mut runtime), Ok(()));
    assert_eq!(Jel(text("here")).perform(&mut runtime), Ok(()));
    assert_eq!(runtime.index, 7);
    assert_eq!(
        Jif(text("here")).perform(&mut runtime),
        Err(PerformError(RuntimeErrorKind::NoCompare))
    );
    assert_eq!(OpKind::End(End).perform(&mut runtime), Ok(()));
    assert!(runtime.end);
}

#[test]
fn failed_operation_leaves_the_state() {
    let mut runtime = Runtime::default();
    Mov(text("a"), Ref::Value(1)).perform(&mut runtime).unwrap();
    Cmp(text("a"), Ref::Value(1)).perform(&mut runtime).unwrap();
    runtime.index = 3;
    assert_eq!(
        Jif(text("nowhere")).perform(&mut runtime),
        Err(PerformError(RuntimeErrorKind::NoPin(text("nowhere"))))
    );
    // The flag is still there, and nothing was pushed.
    assert_eq!(runtime.read(&text("#")), Ok(1));
    assert_eq!((runtime.index, runtime.stack.len()), (3, 0));
}

#[test]
fn throw_error_blames_by_kind() {
    let exe = compile("  add left right");
    let runtime = Runtime::default();
    let at = |kind: RuntimeErrorKind| {
        let error = runtime.throw_error(&exe, &exe.ops[0], PerformError(kind));
        (error.loc, error.len)
    };
    assert_eq!(at(RuntimeErrorKind::Undefined(text("left"))), ((0, 10), 4));
    assert_eq!(at(RuntimeErrorKind::Undefined(text("right"))), ((0, 16), 5));
    assert_eq!(at(RuntimeErrorKind::Overflow), ((0, 5), 3));
    assert_eq!(at(RuntimeErrorKind::NoReturn), ((0, 5), 3));
    assert_eq!(at(RuntimeErrorKind::NoPin(text("left"))), ((0, 5), 3));
    assert_eq!(at(RuntimeErrorKind::DuplicatePin(text("left"))), ((0, 5), 3));
}

#[test]
fn errors_about_a_label_lie_on_the_token_that_names_it() {
    let exe = compile("  jmp far\njif far\n jel  far\n :far");
    let runtime = Runtime::default();
    let at = |line: usize, kind: RuntimeErrorKind| {
        let error = runtime.throw_error(&exe, &exe.ops[line], PerformError(kind));
        (error.loc, error.len, error.line)
    };
    let lines = ["  jmp far", "jif far", " jel  far", " :far"];
    for (line, column) in [(0, 9), (1, 7), (2, 9), (3, 5)] {
        let expected = ((line, column), 3, text(lines[line]));
        assert_eq!(at(line, RuntimeErrorKind::NoPin(text("far"))), expected);
        assert_eq!(at(line, RuntimeErrorKind::DuplicatePin(text("far"))), expected);
    }
}

#[test]
fn errors_behind_a_leading_value_still_blame_the_words() {
    let error = failure("12 jmp X");
    assert_eq!(error.kind, RuntimeErrorKind::NoPin(text("X")));
    assert_eq!(error.loc, (0, 8));
    let error = failure("12 ret");
    assert_eq!(error.loc, (0, 6));
    assert_eq!(error.len, 3);
}

#[test]
fn a_run_that_is_over_stays_where_it_is() {
    let exe = compile("mov i 3\n:loop\nout i\nsub i 1\ncmp i 0\njel loop\nend\nout 9");
    let mut exact = Runtime::default();
    // One `mov`, the label, three rounds of four operations, and `end`: a
    // jump goes on behind the label.
    assert_eq!(exact.execute(&exe, 14), Ok(false));
    assert_eq!(exact.execute(&exe, 15), Ok(true));
    let mut ample = Runtime::default();
    assert_eq!(ample.execute(&exe, usize::MAX), Ok(true));
    assert_eq!(exact.output, b"321");
    assert_eq!(ample.output, exact.output);
    assert_eq!((ample.index, ample.end), (exact.index, exact.end));
    assert_eq!(ample.stack, exact.stack);
    // Running on changes nothing.
    assert_eq!(exact.run(&exe, 100), Ok(true));
    assert_eq!(exact.output, b"321");
    assert_eq!(exact.stack, ample.stack);
}

#[test]
fn a_failed_run_fails_the_same_with_any_budget() {
    let exe = compile("out 1\nout x\nout 2");
    for budget in [2, 3, 1000] {
        let mut runtime = Runtime::default();
        let error = runtime.execute(&exe, budget).unwrap_err();
        assert_eq!(error.kind, RuntimeErrorKind::Undefined(text("x")));
        assert_eq!(runtime.output, b"1");
        assert_eq!(runtime.index, 1);
    }
    let mut runtime = Runtime::default();
    assert_eq!(runtime.execute(&exe, 1), Ok(false));
}

#[test]
fn labels_are_no_operations_of_the_run_but_count_in_the_budget() {
    let exe = compile(":a\n:b\nout 1");
    let mut runtime = Runtime::default();
    assert_eq!(runtime.execute(&exe, 2), Ok(false));
    assert_eq!(runtime.output, b"");
    assert_eq!(runtime.run(&exe, 1), Ok(true));
    assert_eq!(runtime.output, b"1");
}
