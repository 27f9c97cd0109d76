use ask::banner::{push_number, push_paint, push_paint_on, push_repeat, render};
use ask::error::{CompileError, CompileErrorKind, RuntimeError, RuntimeErrorKind};
use ask::{Color, Compiler, Runtime};

fn color(text: &str, code: usize) -> String {
    format!("\x1b[{}m{}\x1b[0m", code, text)
}

/// The report as one formatting directive lays it out.
fn laid_out(title: &str, message: &str, line: &str, pos: (usize, usize), len: usize) -> String {
    let (y, x) = pos;
    format!(
        "\n{}: {}\n {: <digit$} {}\n{} {}\n {: <digit$} {} {} {}\n",
        color(title, 91),
        color(message, 97),
        "",
        color("|", 94),
        color(&format!(" {} |", y + 1), 94),
        line,
        "",
        color("|", 94),
        color(&format!("{: >width$}", "^".repeat(len), width = x), 91),
        color(message, 91),
        digit = (y + 1).to_string().len(),
    )
}

#[test]
fn report_of_a_compile_error() {
    let error = Compiler::default().compile("mov a 1\nnop 2\nend").unwrap_err();
    assert_eq!(
        error.render(),
        "\n\x1b[91mCompileError\x1b[0m: \x1b[97mUnknown operation!\x1b[0m\n\
         \x20  \x1b[94m|\x1b[0m\n\
         \x1b[94m 2 |\x1b[0m nop 2\n\
         \x20  \x1b[94m|\x1b[0m \x1b[91m^^^\x1b[0m \x1b[91mUnknown operation!\x1b[0m\n"
    );
}

#[test]
fn report_of_a_runtime_error() {
    let exe = Compiler::default().compile("mov a 1\n  jmp away").unwrap();
    let error = Runtime::default().execute(&exe, 100).unwrap_err();
    assert_eq!(
        error.render(),
        "\n\x1b[91mRuntimeError\x1b[0m: \x1b[97mNo pin with name 'away' found!\x1b[0m\n\
         \x20  \x1b[94m|\x1b[0m\n\
         \x1b[94m 2 |\x1b[0m   jmp away\n\
         \x20  \x1b[94m|\x1b[0m \x1b[91m      ^^^^\x1b[0m \x1b[91mNo pin with name 'away' found!\x1b[0m\n"
    );
}

#[test]
fn report_agrees_with_the_formatting_directive() {
    for (pos, len) in [((0, 0), 0), ((0, 0), 1), ((0, 3), 3), ((8, 12), 4), ((9, 2), 5),
        ((99, 1), 1), ((12344, 40), 7), ((usize::MAX - 1, 7), 2)] {
        assert_eq!(
            render("Title", "a message", "the line", pos, len),
            laid_out("Title", "a message", "the line", pos, len),
            "{:?} {}",
            pos,
            len
        );
    }
}

#[test]
fn report_counts_the_last_line_without_overflow() {
    let report = render("T", "m", "l", (usize::MAX, 0), 1);
    let number = (usize::MAX as u128 + 1).to_string();
    assert!(report.contains(&format!(" {} |", number)));
}

#[test]
fn messages_of_compile_errors() {
    assert_eq!(CompileErrorKind::UnexpectedChar('$').message(), "Unexpected character '$'!");
    assert_eq!(CompileErrorKind::InvalidLocation.message(), "Invalid location!");
    assert_eq!(CompileErrorKind::UnknownOp.message(), "Unknown operation!");
    assert_eq!(CompileErrorKind::ExpectedArgument.message(), "Expected argument!");
}

#[test]
fn messages_of_runtime_errors() {
    let name = || "x".to_string();
    assert_eq!(RuntimeErrorKind::Undefined(name()).message(), "'x' is not defined!");
    assert_eq!(RuntimeErrorKind::NoCompare.message(), "'cmp' operation before expected!");
    assert_eq!(RuntimeErrorKind::NoPin(name()).message(), "No pin with name 'x' found!");
    assert_eq!(
        RuntimeErrorKind::DuplicatePin(name()).message(),
        "Pin with name 'x' already in use!"
    );
    assert_eq!(RuntimeErrorKind::NoReturn.message(), "No pin to jump back to!");
    assert_eq!(RuntimeErrorKind::Overflow.message(), "Sum too large for a slot!");
    assert_eq!(RuntimeErrorKind::Underflow.message(), "Difference below zero!");
}

#[test]
fn render_uses_title_and_message_of_the_error() {
    let compile = CompileError {
        kind: CompileErrorKind::UnexpectedChar('\u{e9}'),
        line: "a \u{e9}".to_string(),
        pos: (0, 2),
        len: 2,
    };
    assert_eq!(
        compile.render(),
        laid_out("CompileError", "Unexpected character '\u{e9}'!", "a \u{e9}", (0, 2), 2)
    );
    let runtime = RuntimeError {
        kind: RuntimeErrorKind::Underflow,
        line: "sub a 4".to_string(),
        loc: (41, 3),
        len: 3,
    };
    assert_eq!(
        runtime.render(),
        laid_out("RuntimeError", "Difference below zero!", "sub a 4", (41, 3), 3)
    );
}

#[test]
fn paint_wraps_text_in_escape_sequences() {
    let mut out = String::from("x");
    push_paint(&mut out, "hi", Color::Green);
    assert_eq!(out, "x\x1b[32mhi\x1b[0m");
    let mut out = String::new();
    push_paint(&mut out, "", Color::BrightWhite);
    assert_eq!(out, "\x1b[97m\x1b[0m");
}

#[test]
fn number_and_repeat_append() {
    let mut out = String::from("n=");
    push_number(&mut out, 0);
    push_repeat(&mut out, '-', 3);
    push_number(&mut out, 1234567890123456789012345678901234567u128);
    push_repeat(&mut out, '-', 0);
    assert_eq!(out, "n=0---1234567890123456789012345678901234567");
}

#[test]
fn paint_on_selects_foreground_and_background() {
    let mut out = String::from("x");
    push_paint_on(&mut out, "hi", Color::Green, Color::BrightRed);
    assert_eq!(out, "x\x1b[32;101mhi\x1b[0m");
    let mut out = String::new();
    push_paint_on(&mut out, "", Color::BrightWhite, Color::Black);
    assert_eq!(out, format!("\x1b[{};{}m{}\x1b[0m", 97, 40, ""));
}
