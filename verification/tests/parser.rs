use ask::error::{CompileError, CompileErrorKind};
use ask::grammar::{Blame, Line, Phase};
use ask::op::{Add, Cmp, End, Jel, Jif, Jmp, Mov, OpKind, OpWrap, Out, Pin, Ret, Sub, Utf};
use ask::{Compiler, Executable, Ref, Token, TokenKind};

fn compile(raw: &str) -> Result<Executable, CompileError> {
    Compiler::default().compile(raw)
}

fn kinds(raw: &str) -> Vec<OpKind> {
    compile(raw).unwrap().ops.into_iter().map(|wrap| wrap.op).collect()
}

fn slot(name: &str) -> Ref {
    Ref::Pos(name.to_string())
}

fn text(s: &str) -> String {
    s.to_string()
}

#[test]
fn every_mnemonic_makes_its_operation() {
    assert_eq!(
        kinds(
            "mov a 5\nadd a b\nsub a 1\ncmp a 0\njif x\njel y\njmp z\nout a\nutf 65\nret\nend\n:x"
        ),
        vec![
            OpKind::Mov(Mov(text("a"), Ref::Value(5))),
            OpKind::Add(Add(text("a"), slot("b"))),
            OpKind::Sub(Sub(text("a"), Ref::Value(1))),
            OpKind::Cmp(Cmp(text("a"), Ref::Value(0))),
            OpKind::Jif(Jif(text("x"))),
            OpKind::Jel(Jel(text("y"))),
            OpKind::Jmp(Jmp(text("z"))),
            OpKind::Out(Out(slot("a"))),
            OpKind::Utf(Utf(Ref::Value(65))),
            OpKind::Ret(Ret),
            OpKind::End(End),
            OpKind::Pin(Pin(text("x"))),
        ]
    );
}

#[test]
fn operations_keep_the_tokens_of_their_line() {
    let exe = compile("\n  mov a 5\n\n:here\nend").unwrap();
    assert_eq!(exe.raw, "\n  mov a 5\n\n:here\nend");
    assert_eq!(exe.ops.len(), 3);
    assert_eq!(
        exe.ops[0],
        OpWrap {
            op: OpKind::Mov(Mov(text("a"), Ref::Value(5))),
            tokens: vec![
                Token { kind: TokenKind::Symbol(text("mov")), pos: (1, 5) },
                Token { kind: TokenKind::Symbol(text("a")), pos: (1, 7) },
                Token { kind: TokenKind::Value(text("5")), pos: (1, 9) },
                Token { kind: TokenKind::Break, pos: (1, 9) },
            ],
            pre_init: false,
        }
    );
    assert_eq!(
        exe.ops[1],
        OpWrap {
            op: OpKind::Pin(Pin(text("here"))),
            tokens: vec![
                Token { kind: TokenKind::Pin, pos: (3, 0) },
                Token { kind: TokenKind::Symbol(text("here")), pos: (3, 5) },
                Token { kind: TokenKind::Break, pos: (3, 5) },
            ],
            pre_init: true,
        }
    );
    assert!(!exe.ops[2].pre_init);
}

#[test]
fn empty_lines_make_no_operation() {
    assert_eq!(kinds(""), vec![]);
    assert_eq!(kinds("\n\n  \n\t\n"), vec![]);
}

#[test]
fn comment_lines_make_no_operation() {
    assert_eq!(kinds("\" all of this is : ignored 1 2 3"), vec![]);
    assert_eq!(kinds("\"\n  \" \" \"\n\"end"), vec![]);
}

#[test]
fn comment_is_still_held_to_the_alphabet() {
    let error = compile("end \" really?").unwrap_err();
    assert_eq!(error.kind, CompileErrorKind::UnexpectedChar('?'));
    assert_eq!(error.pos, (0, 12));
}

#[test]
fn comment_is_not_held_to_the_grammar() {
    // A label marker behind a mnemonic, an unknown mnemonic and a second
    // label name would each be refused outside a comment.
    assert_eq!(
        kinds("end \" : mov\n:a \" b c\n\" frobnicate 1 2 3"),
        vec![OpKind::End(End), OpKind::Pin(Pin(text("a")))]
    );
}

#[test]
fn comment_behind_an_operation_leaves_the_operation() {
    assert_eq!(
        kinds("mov a 5 \" five\nout a\"print\nend"),
        vec![
            OpKind::Mov(Mov(text("a"), Ref::Value(5))),
            OpKind::Out(Out(slot("a"))),
            OpKind::End(End),
        ]
    );
}

#[test]
fn comment_cuts_off_arguments() {
    let error = compile("mov a \" 5").unwrap_err();
    assert_eq!(error.kind, CompileErrorKind::ExpectedArgument);
}

#[test]
fn arguments_beyond_the_arity_are_passed_over() {
    assert_eq!(
        kinds("ret 1 2\nout a b c\nmov a 1 2 3"),
        vec![
            OpKind::Ret(Ret),
            OpKind::Out(Out(slot("a"))),
            OpKind::Mov(Mov(text("a"), Ref::Value(1))),
        ]
    );
}

#[test]
fn a_slot_may_be_spelled_like_a_number() {
    assert_eq!(kinds("mov 5 6"), vec![OpKind::Mov(Mov(text("5"), Ref::Value(6)))]);
}

#[test]
fn a_value_before_the_mnemonic_is_passed_over() {
    assert_eq!(kinds("7 out a"), vec![OpKind::Out(Out(slot("a")))]);
}

#[test]
fn a_label_marker_alone_declares_nothing() {
    assert_eq!(kinds(":\nend"), vec![OpKind::End(End)]);
    assert_eq!(kinds(": 5\n:: a :"), vec![OpKind::Pin(Pin(text("a")))]);
}

#[test]
fn label_marker_behind_a_mnemonic_is_out_of_place() {
    let error = compile("end\n  jmp : a").unwrap_err();
    assert_eq!(error.kind, CompileErrorKind::InvalidLocation);
    // Blamed on the leading token of the line.
    assert_eq!(error.pos, (1, 5));
    assert_eq!(error.len, 3);
    assert_eq!(error.line, "  jmp : a");
}

#[test]
fn label_written_before_its_marker_is_out_of_place() {
    let error = compile("loop:").unwrap_err();
    assert_eq!(error.kind, CompileErrorKind::InvalidLocation);
    assert_eq!(error.pos, (0, 4));
    assert_eq!(error.len, 4);
}

#[test]
fn second_name_for_a_label_is_out_of_place() {
    let error = compile(":a b").unwrap_err();
    assert_eq!(error.kind, CompileErrorKind::InvalidLocation);
    // Blamed on the third token of the line: the second name.
    assert_eq!(error.pos, (0, 4));
    assert_eq!(error.len, 1);
    assert_eq!(error.line, ":a b");
}

#[test]
fn missing_argument_is_reported_at_the_leading_token() {
    for raw in ["mov", "mov a", "add a", "sub", "cmp a", "jif", "jel", "jmp", "out", "utf"] {
        let error = compile(raw).unwrap_err();
        assert_eq!(error.kind, CompileErrorKind::ExpectedArgument, "{}", raw);
        assert_eq!(error.pos, (0, 3), "{}", raw);
        assert_eq!(error.len, 3, "{}", raw);
        assert_eq!(error.line, raw);
    }
}

#[test]
fn missing_argument_behind_a_leading_value_blames_the_value() {
    let error = compile("12 mov a").unwrap_err();
    assert_eq!(error.kind, CompileErrorKind::ExpectedArgument);
    assert_eq!(error.pos, (0, 2));
    assert_eq!(error.len, 1);
}

#[test]
fn unknown_mnemonic_is_refused() {
    let error = compile("mov a 1\nnop\nend").unwrap_err();
    assert_eq!(error.kind, CompileErrorKind::UnknownOp);
    assert_eq!(error.pos, (1, 3));
    assert_eq!(error.len, 3);
    assert_eq!(error.line, "nop");
}

#[test]
fn mnemonics_are_matched_exactly() {
    for raw in ["MOV a 1", "movv a 1", "mo a 1", "end_"] {
        assert_eq!(compile(raw).unwrap_err().kind, CompileErrorKind::UnknownOp, "{}", raw);
    }
}

#[test]
fn unknown_mnemonic_comes_before_missing_arguments() {
    assert_eq!(compile("nop").unwrap_err().kind, CompileErrorKind::UnknownOp);
}

#[test]
fn first_fault_wins() {
    assert_eq!(compile("nop\nmov").unwrap_err().kind, CompileErrorKind::UnknownOp);
    assert_eq!(compile("mov\nnop").unwrap_err().kind, CompileErrorKind::ExpectedArgument);
    // A character out of place is found before any line is read.
    assert_eq!(compile("nop\n$").unwrap_err().kind, CompileErrorKind::UnexpectedChar('$'));
}

#[test]
fn tokens_behind_the_last_break_make_no_operation() {
    let compiler = Compiler::new("end");
    let tokens = vec![Token { kind: TokenKind::Symbol(text("end")), pos: (0, 3) }];
    assert_eq!(compiler.parse(&tokens).unwrap(), vec![]);
}

#[test]
fn throw_at_quotes_the_line_of_the_token() {
    let compiler = Compiler::new("one\ntwo three\nfour");
    let tokens = [
        Token { kind: TokenKind::Symbol(text("three")), pos: (1, 9) },
        Token { kind: TokenKind::Value(text("44")), pos: (2, 1) },
    ];
    assert_eq!(
        compiler.throw_at(CompileErrorKind::UnknownOp, &tokens, 0),
        CompileError {
            kind: CompileErrorKind::UnknownOp,
            line: text("two three"),
            pos: (1, 9),
            len: 5,
        }
    );
    assert_eq!(
        compiler.throw_at(CompileErrorKind::InvalidLocation, &tokens, 1),
        CompileError {
            kind: CompileErrorKind::InvalidLocation,
            line: text("four"),
            pos: (2, 1),
            len: 1,
        }
    );
}

#[test]
fn compiler_holds_the_last_source() {
    let mut compiler = Compiler::default();
    compiler.compile("mov a 1").unwrap();
    compiler.compile("one\nnop").unwrap_err();
    let token = [Token { kind: TokenKind::Break, pos: (0, 0) }];
    assert_eq!(compiler.throw_at(CompileErrorKind::UnknownOp, &token, 0).line, "one");
}

#[test]
fn ref_from_str_tells_numbers_from_slots() {
    assert_eq!(Ref::from_str("5").unwrap(), Ref::Value(5));
    assert_eq!(Ref::from_str("0").unwrap(), Ref::Value(0));
    assert_eq!(Ref::from_str("+5").unwrap(), Ref::Value(5));
    assert_eq!(Ref::from_str("a").unwrap(), slot("a"));
    assert_eq!(Ref::from_str("5a").unwrap(), slot("5a"));
    assert_eq!(Ref::from_str("").unwrap(), slot(""));
    assert_eq!(Ref::from_str(&usize::MAX.to_string()).unwrap(), Ref::Value(usize::MAX));
    let beyond = format!("{}0", usize::MAX);
    assert_eq!(Ref::from_str(&beyond).unwrap(), Ref::Pos(beyond.clone()));
}

#[test]
fn decode_by_name_and_arguments() {
    let args = vec![text("a"), text("7"), text("zz")];
    assert_eq!(OpKind::decode("sub", &args), Ok(OpKind::Sub(Sub(text("a"), Ref::Value(7)))));
    assert_eq!(OpKind::decode("jel", &args), Ok(OpKind::Jel(Jel(text("a")))));
    assert_eq!(OpKind::decode("utf", &args), Ok(OpKind::Utf(Utf(slot("a")))));
    assert_eq!(OpKind::decode("end", &args), Ok(OpKind::End(End)));
    assert_eq!(OpKind::decode("cmp", &vec![text("a")]), Err(CompileErrorKind::ExpectedArgument));
    assert_eq!(OpKind::decode("jmp", &vec![]), Err(CompileErrorKind::ExpectedArgument));
    assert_eq!(OpKind::decode("", &args), Err(CompileErrorKind::UnknownOp));
}

#[test]
fn line_reads_token_by_token() {
    let mut line = Line::new();
    let jmp = Token { kind: TokenKind::Symbol(text("jmp")), pos: (0, 3) };
    let target = Token { kind: TokenKind::Symbol(text("x")), pos: (0, 5) };
    let pin = Token { kind: TokenKind::Pin, pos: (0, 6) };
    let brk = Token { kind: TokenKind::Break, pos: (0, 7) };
    assert_eq!(line.take(&jmp), Ok(()));
    assert_eq!(line.phase, Phase::Instruction(text("jmp"), vec![]));
    assert_eq!(line.take(&target), Ok(()));
    assert_eq!(line.phase, Phase::Instruction(text("jmp"), vec![text("x")]));
    let mut other = Line::new();
    other.take(&jmp).unwrap();
    assert_eq!(
        other.take(&pin),
        Err(Blame { kind: CompileErrorKind::InvalidLocation, index: 0 })
    );
    assert_eq!(other.tokens.len(), 2);
    let op = line.end(&brk).unwrap().unwrap();
    assert_eq!(op.op, OpKind::Jmp(Jmp(text("x"))));
    assert_eq!(op.tokens.len(), 3);
    assert_eq!(line, Line::new());
}

#[test]
fn every_operation_keeps_one_line_that_ends_in_a_break() {
    let raw = "mov a 1 \" one\n\n:top\n  out a\n\" note\njmp top";
    let exe = compile(raw).unwrap();
    assert_eq!(exe.ops.len(), 4);
    assert!(exe.ops.len() <= raw.lines().count());
    for wrap in &exe.ops {
        let (last, before) = wrap.tokens.split_last().unwrap();
        assert_eq!(last.kind, TokenKind::Break);
        assert!(before.iter().all(|token| token.kind != TokenKind::Break));
        assert!(before.iter().all(|token| token.pos.0 == last.pos.0));
    }
}

#[test]
fn compiled_operations_are_well_formed() {
    let exe = compile("7 mov a 1\n:x\nret\nutf a \" b").unwrap();
    assert!(exe.well_formed());
    for wrap in &exe.ops {
        assert!(wrap.well_formed());
        assert_eq!(wrap.pre_init, matches!(wrap.op, OpKind::Pin(_)));
    }
    assert_eq!(exe.ops[0].first_symbol(), 1);
    assert_eq!(exe.ops[1].first_symbol(), 1);
    assert_eq!(exe.ops[2].first_symbol(), 0);
}

#[test]
fn operation_without_its_tokens_is_not_well_formed() {
    let word = |s: &str| Token { kind: TokenKind::Symbol(text(s)), pos: (0, 0) };
    let brk = || Token { kind: TokenKind::Break, pos: (0, 0) };
    let jump = |tokens: Vec<Token>, pre_init: bool| OpWrap {
        op: OpKind::Jmp(Jmp(text("x"))),
        tokens,
        pre_init,
    };
    assert!(jump(vec![word("jmp"), word("x"), brk()], false).well_formed());
    assert!(jump(vec![word("jmp"), word("x")], false).well_formed());
    assert!(!jump(vec![word("jmp")], false).well_formed());
    assert!(!jump(vec![brk(), brk(), brk()], false).well_formed());
    assert!(!jump(vec![], false).well_formed());
    assert!(!jump(vec![word("jmp"), word("x"), brk()], true).well_formed());
    let exe = Executable { ops: vec![jump(vec![word("jmp")], false)], raw: text("jmp") };
    assert!(!exe.well_formed());
    assert!(Executable { ops: vec![], raw: text("") }.well_formed());
}
