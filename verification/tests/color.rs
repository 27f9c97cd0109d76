use ask::Color;

#[test]
fn foreground_codes() {
    let all = [
        (Color::Black, 30),
        (Color::Red, 31),
        (Color::Green, 32),
        (Color::Yellow, 33),
        (Color::Blue, 34),
        (Color::Magenta, 35),
        (Color::Cyan, 36),
        (Color::White, 37),
        (Color::BrightBlack, 90),
        (Color::BrightRed, 91),
        (Color::BrightGreen, 92),
        (Color::BrightYellow, 93),
        (Color::BrightBlue, 94),
        (Color::BrightMagenta, 95),
        (Color::BrightCyan, 96),
        (Color::BrightWhite, 97),
    ];
    for (color, code) in all {
        assert_eq!(color.fg(), code);
    }
}

#[test]
fn background_is_ten_above_foreground() {
    let all = [
        Color::Black,
        Color::Red,
        Color::Green,
        Color::Yellow,
        Color::Blue,
        Color::Magenta,
        Color::Cyan,
        Color::White,
        Color::BrightBlack,
        Color::BrightRed,
        Color::BrightGreen,
        Color::BrightYellow,
        Color::BrightBlue,
        Color::BrightMagenta,
        Color::BrightCyan,
        Color::BrightWhite,
    ];
    for color in all {
        assert_eq!(color.bg(), color.fg() + 10);
    }
    assert_eq!(Color::Black.bg(), 40);
    assert_eq!(Color::BrightWhite.bg(), 107);
}
