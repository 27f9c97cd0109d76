//! The colours of an ANSI terminal and their codes.

use vstd::prelude::*;

verus! {

/// The sixteen colours of an ANSI terminal.
#[derive(Clone, Copy, Debug, PartialEq, Eq, Structural)]
pub enum Color {
    Black,
    Red,
    Green,
    Yellow,
    Blue,
    Magenta,
    Cyan,
    White,
    BrightBlack,
    BrightRed,
    BrightGreen,
    BrightYellow,
    BrightBlue,
    BrightMagenta,
    BrightCyan,
    BrightWhite,
}

impl Color {
    /// Position of the colour within its group of eight, `Black` being 0.
    pub open spec fn hue(self) -> nat {
        match self {
            Color::Black | Color::BrightBlack => 0,
            Color::Red | Color::BrightRed => 1,
            Color::Green | Color::BrightGreen => 2,
            Color::Yellow | Color::BrightYellow => 3,
            Color::Blue | Color::BrightBlue => 4,
            Color::Magenta | Color::BrightMagenta => 5,
            Color::Cyan | Color::BrightCyan => 6,
            Color::White | Color::BrightWhite => 7,
        }
    }

    /// Whether the colour belongs to the bright group.
    pub open spec fn bright(self) -> bool {
        match self {
            Color::BrightBlack
            | Color::BrightRed
            | Color::BrightGreen
            | Color::BrightYellow
            | Color::BrightBlue
            | Color::BrightMagenta
            | Color::BrightCyan
            | Color::BrightWhite => true,
            _ => false,
        }
    }

    /// The SGR parameter that selects the colour as foreground:
    /// 30 to 37 for the normal group, 90 to 97 for the bright one.
    pub open spec fn spec_fg(self) -> nat {
        if self.bright() {
            90 + self.hue()
        } else {
            30 + self.hue()
        }
    }

    /// The SGR parameter that selects the colour as background, always ten
    /// above the foreground parameter.
    pub open spec fn spec_bg(self) -> nat {
        self.spec_fg() + 10
    }

    pub fn fg(&self) -> (code: usize)
        ensures
            code == self.spec_fg(),
    {
        match self {
            Self::Black => 30,
            Self::Red => 31,
            Self::Green => 32,
            Self::Yellow => 33,
            Self::Blue => 34,
            Self::Magenta => 35,
            Self::Cyan => 36,
            Self::White => 37,
            Self::BrightBlack => 90,
            Self::BrightRed => 91,
            Self::BrightGreen => 92,
            Self::BrightYellow => 93,
            Self::BrightBlue => 94,
            Self::BrightMagenta => 95,
            Self::BrightCyan => 96,
            Self::BrightWhite => 97,
        }
    }

    pub fn bg(&self) -> (code: usize)
        ensures
            code == self.spec_bg(),
    {
        match self {
            Self::Black => 40,
            Self::Red => 41,
            Self::Green => 42,
            Self::Yellow => 43,
            Self::Blue => 44,
            Self::Magenta => 45,
            Self::Cyan => 46,
            Self::White => 47,
            Self::BrightBlack => 100,
            Self::BrightRed => 101,
            Self::BrightGreen => 102,
            Self::BrightYellow => 103,
            Self::BrightBlue => 104,
            Self::BrightMagenta => 105,
            Self::BrightCyan => 106,
            Self::BrightWhite => 107,
        }
    }
}

} // verus!
