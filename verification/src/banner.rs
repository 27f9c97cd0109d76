//! Reports of errors for a terminal: the message of each kind of error, and
//! the banner that shows it with the line at fault.

use vstd::prelude::*;
use crate::color::Color;
use crate::error::{
    CompileError, CompileErrorKind, CompileErrorView, RuntimeError, RuntimeErrorKind,
    RuntimeErrorKindView, RuntimeErrorView,
};
use crate::text::{decimal, push_decimal, push_text};

verus! {

/// The characters of ASCII bytes.
pub open spec fn ascii_text(bytes: Seq<u8>) -> Seq<char> {
    bytes.map_values(|b: u8| b as char)
}

/// `count` times the character `c`.
pub open spec fn repeat(c: char, count: nat) -> Seq<char> {
    Seq::new(count, |i: int| c)
}

/// `text` between the escape sequence that selects `color` as foreground and
/// the one that resets the terminal.
pub open spec fn paint(text: Seq<char>, color: Color) -> Seq<char> {
    "\x1b["@ + ascii_text(decimal(color.spec_fg())) + "m"@ + text + "\x1b[0m"@
}

/// `text` between the escape sequence that selects `fg` as foreground and
/// `bg` as background, and the one that resets the terminal.
pub open spec fn paint_on(text: Seq<char>, fg: Color, bg: Color) -> Seq<char> {
    "\x1b["@ + ascii_text(decimal(fg.spec_fg())) + ";"@ + ascii_text(decimal(bg.spec_bg())) + "m"@
        + text + "\x1b[0m"@
}

/// The marks under a token of width `len` at column `column`: carets that
/// end before the column, with blanks before them as far as there is room.
pub open spec fn underline(column: nat, len: nat) -> Seq<char> {
    repeat(' ', if column > len {
        (column - len) as nat
    } else {
        0
    }) + repeat('^', len)
}

/// The report of an error: a heading with the title and the message, the
/// line of the source with its number, counted from 1, and under it the marks
/// and the message again.
pub open spec fn banner(
    title: Seq<char>,
    message: Seq<char>,
    line: Seq<char>,
    pos: (nat, nat),
    len: nat,
) -> Seq<char> {
    let number = ascii_text(decimal(pos.0 + 1));
    let margin = " "@ + repeat(' ', number.len()) + " "@ + paint("|"@, Color::BrightBlue);
    "\n"@ + paint(title, Color::BrightRed) + ": "@ + paint(message, Color::BrightWhite) + "\n"@
        + margin + "\n"@ + paint(" "@ + number + " |"@, Color::BrightBlue) + " "@ + line + "\n"@
        + margin + " "@ + paint(underline(pos.1, len), Color::BrightRed) + " "@ + paint(
        message,
        Color::BrightRed,
    ) + "\n"@
}

/// Appends to `out` the decimal digits of `n`.
pub fn push_number(out: &mut String, n: u128)
    ensures
        final(out)@ == old(out)@ + ascii_text(decimal(n as nat)),
{
    let mut digits: Vec<u8> = Vec::new();
    push_decimal(&mut digits, n);
    let mut i: usize = 0;
    while i < digits.len()
        invariant
            i <= digits.len(),
            out@ == old(out)@ + ascii_text(digits@.take(i as int)),
        decreases digits.len() - i,
    {
        out.push(digits[i] as char);
        i = i + 1;
    }
}

/// Appends to `out` the character `c`, `count` times.
pub fn push_repeat(out: &mut String, c: char, count: usize)
    ensures
        final(out)@ == old(out)@ + repeat(c, count as nat),
{
    let mut i: usize = 0;
    while i < count
        invariant
            i <= count,
            out@ == old(out)@ + repeat(c, i as nat),
        decreases count - i,
    {
        out.push(c);
        i = i + 1;
    }
}

/// Appends to `out` the text `text` in the colour `color`.
pub fn push_paint(out: &mut String, text: &str, color: Color)
    ensures
        final(out)@ == old(out)@ + paint(text@, color),
{
    push_text(out, "\x1b[");
    push_number(out, color.fg() as u128);
    push_text(out, "m");
    push_text(out, text);
    push_text(out, "\x1b[0m");
}

/// Appends to `out` the text `text` in the colour `fg` on the colour `bg`.
pub fn push_paint_on(out: &mut String, text: &str, fg: Color, bg: Color)
    ensures
        final(out)@ == old(out)@ + paint_on(text@, fg, bg),
{
    push_text(out, "\x1b[");
    push_number(out, fg.fg() as u128);
    push_text(out, ";");
    push_number(out, bg.bg() as u128);
    push_text(out, "m");
    push_text(out, text);
    push_text(out, "\x1b[0m");
}

/// The report of an error with the given title, message, source line,
/// position and width of the marks.
pub fn render(title: &str, message: &str, line: &str, pos: (usize, usize), len: usize) -> (report:
    String)
    ensures
        report@ == banner(title@, message@, line@, (pos.0 as nat, pos.1 as nat), len as nat),
{
    let mut number = String::new();
    push_number(&mut number, pos.0 as u128 + 1);
    let mut margin = String::new();
    push_text(&mut margin, " ");
    push_repeat(&mut margin, ' ', number.as_str().unicode_len());
    push_text(&mut margin, " ");
    push_paint(&mut margin, "|", Color::BrightBlue);
    let mut gutter = String::new();
    push_text(&mut gutter, " ");
    push_text(&mut gutter, number.as_str());
    push_text(&mut gutter, " |");
    let mut marks = String::new();
    push_repeat(&mut marks, ' ', if pos.1 > len {
        pos.1 - len
    } else {
        0
    });
    push_repeat(&mut marks, '^', len);
    let mut report = String::new();
    push_text(&mut report, "\n");
    push_paint(&mut report, title, Color::BrightRed);
    push_text(&mut report, ": ");
    push_paint(&mut report, message, Color::BrightWhite);
    push_text(&mut report, "\n");
    push_text(&mut report, margin.as_str());
    push_text(&mut report, "\n");
    push_paint(&mut report, gutter.as_str(), Color::BrightBlue);
    push_text(&mut report, " ");
    push_text(&mut report, line);
    push_text(&mut report, "\n");
    push_text(&mut report, margin.as_str());
    push_text(&mut report, " ");
    push_paint(&mut report, marks.as_str(), Color::BrightRed);
    push_text(&mut report, " ");
    push_paint(&mut report, message, Color::BrightRed);
    push_text(&mut report, "\n");
    report
}

impl CompileErrorKind {
    /// What a report says of an error of this kind.
    pub open spec fn spec_message(self) -> Seq<char> {
        match self {
            CompileErrorKind::UnexpectedChar(c) => "Unexpected character '"@.push(c) + "'!"@,
            CompileErrorKind::InvalidLocation => "Invalid location!"@,
            CompileErrorKind::UnknownOp => "Unknown operation!"@,
            CompileErrorKind::ExpectedArgument => "Expected argument!"@,
        }
    }

    /// What a report says of an error of this kind.
    pub fn message(&self) -> (message: String)
        ensures
            message@ == self.spec_message(),
    {
        let mut message = String::new();
        match self {
            CompileErrorKind::UnexpectedChar(c) => {
                push_text(&mut message, "Unexpected character '");
                message.push(*c);
                push_text(&mut message, "'!");
            },
            CompileErrorKind::InvalidLocation => {
                push_text(&mut message, "Invalid location!");
            },
            CompileErrorKind::UnknownOp => {
                push_text(&mut message, "Unknown operation!");
            },
            CompileErrorKind::ExpectedArgument => {
                push_text(&mut message, "Expected argument!");
            },
        }
        message
    }
}

impl RuntimeErrorKindView {
    /// What a report says of an error of this kind.
    pub open spec fn message(self) -> Seq<char> {
        match self {
            RuntimeErrorKindView::Undefined(name) => "'"@ + name + "' is not defined!"@,
            RuntimeErrorKindView::NoCompare => "'cmp' operation before expected!"@,
            RuntimeErrorKindView::NoPin(label) => "No pin with name '"@ + label + "' found!"@,
            RuntimeErrorKindView::DuplicatePin(label) => "Pin with name '"@ + label
                + "' already in use!"@,
            RuntimeErrorKindView::NoReturn => "No pin to jump back to!"@,
            RuntimeErrorKindView::Overflow => "Sum too large for a slot!"@,
            RuntimeErrorKindView::Underflow => "Difference below zero!"@,
        }
    }
}

impl RuntimeErrorKind {
    /// What a report says of an error of this kind.
    pub fn message(&self) -> (message: String)
        ensures
            message@ == self@.message(),
    {
        let mut message = String::new();
        match self {
            RuntimeErrorKind::Undefined(name) => {
                push_text(&mut message, "'");
                push_text(&mut message, name.as_str());
                push_text(&mut message, "' is not defined!");
            },
            RuntimeErrorKind::NoCompare => {
                push_text(&mut message, "'cmp' operation before expected!");
            },
            RuntimeErrorKind::NoPin(label) => {
                push_text(&mut message, "No pin with name '");
                push_text(&mut message, label.as_str());
                push_text(&mut message, "' found!");
            },
            RuntimeErrorKind::DuplicatePin(label) => {
                push_text(&mut message, "Pin with name '");
                push_text(&mut message, label.as_str());
                push_text(&mut message, "' already in use!");
            },
            RuntimeErrorKind::NoReturn => {
                push_text(&mut message, "No pin to jump back to!");
            },
            RuntimeErrorKind::Overflow => {
                push_text(&mut message, "Sum too large for a slot!");
            },
            RuntimeErrorKind::Underflow => {
                push_text(&mut message, "Difference below zero!");
            },
        }
        message
    }
}

impl CompileErrorView {
    /// The report of the error.
    pub open spec fn banner(self) -> Seq<char> {
        banner("CompileError"@, self.kind.spec_message(), self.line, self.pos, self.len)
    }
}

impl CompileError {
    /// The report of the error, for a terminal that understands ANSI colours.
    pub fn render(&self) -> (report: String)
        ensures
            report@ == self@.banner(),
    {
        let message = self.kind.message();
        render("CompileError", message.as_str(), self.line.as_str(), self.pos, self.len)
    }
}

impl RuntimeErrorView {
    /// The report of the error.
    pub open spec fn banner(self) -> Seq<char> {
        banner("RuntimeError"@, self.kind.message(), self.line, self.loc, self.len)
    }
}

impl RuntimeError {
    /// The report of the error, for a terminal that understands ANSI colours.
    pub fn render(&self) -> (report: String)
        ensures
            report@ == self@.banner(),
    {
        let message = self.kind.message();
        render("RuntimeError", message.as_str(), self.line.as_str(), self.loc, self.len)
    }
}

} // verus!
