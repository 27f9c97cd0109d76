//! Texts: what the standard library is trusted for, comparing and copying,
//! the lines of a text, and numbers in decimal digits.

use vstd::prelude::*;
use vstd::std_specs::iter::IteratorSpec;

verus! {

/// The answer of `char::is_alphabetic` for `c`: whether Unicode gives the
/// character the Alphabetic property.
pub uninterp spec fn alphabetic(c: char) -> bool;

/// The answer of `char::is_alphanumeric` for `c`: whether Unicode counts the
/// character as alphabetic or numeric.
pub uninterp spec fn alphanumeric(c: char) -> bool;

/// `char::is_alphabetic` consults the Unicode tables and nothing else, so its
/// answer depends on the character alone. Nothing more is claimed of it.
pub assume_specification[ char::is_alphabetic ](c: char) -> (b: bool)
    ensures
        b == alphabetic(c),
;

/// `char::is_alphanumeric` consults the Unicode tables and nothing else, so
/// its answer depends on the character alone. Nothing more is claimed of it.
pub assume_specification[ char::is_alphanumeric ](c: char) -> (b: bool)
    ensures
        b == alphanumeric(c),
;

/// `String::push` appends the one character to the end of the string.
pub assume_specification[ String::push ](s: &mut String, c: char)
    ensures
        final(s)@ == old(s)@.push(c),
;

/// Whether two strings hold the same characters.
pub fn text_eq(a: &str, b: &str) -> (same: bool)
    ensures
        same == (a@ == b@),
{
    let mut left = a.chars();
    let mut right = b.chars();
    let ghost mut i: int = 0;
    loop
        invariant
            0 <= i <= a@.len(),
            i <= b@.len(),
            left.remaining() == a@.skip(i),
            right.remaining() == b@.skip(i),
            a@.take(i) == b@.take(i),
        decreases a@.len() - i,
    {
        let x = left.next();
        let y = right.next();
        match (x, y) {
            (Some(c), Some(d)) => {
                if c != d {
                    return false;
                }
                proof {
                    i = i + 1;
                }
            },
            (None, None) => {
                assert(a@ == a@.take(i));
                assert(b@ == b@.take(i));
                return true;
            },
            _ => {
                return false;
            },
        }
    }
}

/// Appends the characters of `tail` to `s`.
pub fn push_text(s: &mut String, tail: &str)
    ensures
        final(s)@ == old(s)@ + tail@,
{
    let mut it = tail.chars();
    let ghost mut i: int = 0;
    loop
        invariant
            0 <= i <= tail@.len(),
            it.remaining() == tail@.skip(i),
            s@ == old(s)@ + tail@.take(i),
        decreases tail@.len() - i,
    {
        match it.next() {
            Some(c) => {
                s.push(c);
                proof {
                    i = i + 1;
                }
            },
            None => {
                return ;
            },
        }
    }
}

/// Number of characters of `s` before its first line feed; `s.len()` where
/// it holds none.
pub open spec fn line_end(s: Seq<char>) -> int
    decreases s.len(),
{
    if s.len() == 0 || s[0] == '\n' {
        0
    } else {
        1 + line_end(s.drop_first())
    }
}

/// What is left of `s` behind its first `n` line feeds, if it holds that many.
pub open spec fn skip_lines(s: Seq<char>, n: nat) -> Option<Seq<char>>
    decreases n,
{
    if n == 0 {
        Some(s)
    } else if line_end(s) == s.len() {
        None
    } else {
        skip_lines(s.skip(line_end(s) + 1), (n - 1) as nat)
    }
}

/// The first line of `s` without its line ending, which is a line feed or a
/// carriage return and a line feed. A carriage return that no line feed
/// follows belongs to the line.
pub open spec fn first_line(s: Seq<char>) -> Seq<char> {
    let end = line_end(s);
    if 0 < end < s.len() && s[end - 1] == '\r' {
        s.take(end - 1)
    } else {
        s.take(end)
    }
}

/// Line `n` of `s`, counted from 0, without its line ending. Empty where `s`
/// holds fewer than `n` line feeds.
pub open spec fn line_of(s: Seq<char>, n: nat) -> Seq<char> {
    match skip_lines(s, n) {
        Some(rest) => first_line(rest),
        None => Seq::empty(),
    }
}

/// The first line feed of `s` stands where its first line ends, and no line
/// feed stands before it.
pub proof fn lemma_line_end_bounds(s: Seq<char>)
    ensures
        0 <= line_end(s) <= s.len(),
        line_end(s) < s.len() ==> s[line_end(s)] == '\n',
        forall|i: int| 0 <= i < line_end(s) ==> s[i] != '\n',
    decreases s.len(),
{
    if s.len() > 0 && s[0] != '\n' {
        let t = s.drop_first();
        lemma_line_end_bounds(t);
        assert forall|i: int| 0 <= i < line_end(s) implies s[i] != '\n' by {
            if i > 0 {
                assert(s[i] == t[i - 1]);
            }
        }
    }
}

/// Dropping one character that is no line feed leaves the lines behind the
/// first as they were; dropping a line feed makes each later line one earlier.
proof fn lemma_skip_lines_step(s: Seq<char>, n: nat)
    requires
        s.len() > 0,
        n > 0,
    ensures
        skip_lines(s, n) == if s[0] == '\n' {
            skip_lines(s.drop_first(), (n - 1) as nat)
        } else {
            skip_lines(s.drop_first(), n)
        },
{
    let t = s.drop_first();
    lemma_line_end_bounds(t);
    if s[0] != '\n' && line_end(s) < s.len() {
        assert(s.skip(line_end(s) + 1) == t.skip(line_end(t) + 1));
    }
}

/// Line `y` of `raw`, counted from 0, without its line ending.
pub fn line_text(raw: &str, y: usize) -> (line: String)
    ensures
        line@ == line_of(raw@, y as nat),
{
    let mut it = raw.chars();
    let mut ahead: usize = y;
    let ghost mut i: int = 0;
    assert(raw@.skip(0) == raw@);
    // Pass over the lines before the one asked for.
    while ahead > 0
        invariant
            0 <= i <= raw@.len(),
            it.remaining() == raw@.skip(i),
            skip_lines(raw@, y as nat) == skip_lines(raw@.skip(i), ahead as nat),
        decreases raw@.len() - i,
    {
        match it.next() {
            Some(c) => {
                proof {
                    lemma_skip_lines_step(raw@.skip(i), ahead as nat);
                    assert(raw@.skip(i).drop_first() == raw@.skip(i + 1));
                    i = i + 1;
                }
                if c == '\n' {
                    ahead = ahead - 1;
                }
            },
            None => {
                return String::new();
            },
        }
    }
    let ghost start = i;
    let ghost rest = raw@.skip(start);
    let mut line = String::new();
    let mut held = false;
    proof {
        lemma_line_end_bounds(rest);
    }
    // Copy the line; a carriage return is held back until the next
    // character shows whether it belongs to the line ending.
    loop
        invariant
            0 <= start <= i <= raw@.len(),
            rest == raw@.skip(start),
            it.remaining() == raw@.skip(i),
            skip_lines(raw@, y as nat) == Some(rest),
            i - start <= line_end(rest),
            held == (i > start && raw@[i - 1] == '\r'),
            line@ == rest.take(if held { i - start - 1 } else { i - start }),
        decreases raw@.len() - i,
    {
        proof {
            lemma_line_end_bounds(rest);
        }
        match it.next() {
            Some(c) => {
                if c == '\n' {
                    assert(line_end(rest) == i - start) by {
                        if i - start < line_end(rest) {
                            assert(rest[i - start] != '\n');
                        }
                    }
                    return line;
                }
                if held {
                    line.push('\r');
                }
                held = c == '\r';
                if !held {
                    line.push(c);
                }
                proof {
                    i = i + 1;
                }
            },
            None => {
                if held {
                    line.push('\r');
                }
                return line;
            },
        }
    }
}

/// Whether `c` is one of the ten ASCII digits.
pub open spec fn is_digit(c: char) -> bool {
    '0' <= c <= '9'
}

/// The number that the ASCII digit `c` stands for.
pub open spec fn digit_value(c: char) -> nat {
    (c as u32 - '0' as u32) as nat
}

/// Whether `s` holds ASCII digits only.
pub open spec fn all_digits(s: Seq<char>) -> bool {
    forall|i: int| 0 <= i < s.len() ==> is_digit(#[trigger] s[i])
}

/// The number that the digits of `s` write in base ten; 0 for no digits.
pub open spec fn digits_value(s: Seq<char>) -> nat
    decreases s.len(),
{
    if s.len() == 0 {
        0
    } else {
        digits_value(s.drop_last()) * 10 + digit_value(s.last())
    }
}

/// The digits of a number text: the text itself, without a leading `+`.
pub open spec fn unsigned_part(s: Seq<char>) -> Seq<char> {
    if s.len() > 0 && s[0] == '+' {
        s.drop_first()
    } else {
        s
    }
}

/// The machine integer that `s` writes: an optional `+`, then one or more
/// ASCII digits whose value fits in `usize`. `None` for any other text.
pub open spec fn number(s: Seq<char>) -> Option<usize> {
    let digits = unsigned_part(s);
    if digits.len() > 0 && all_digits(digits) && digits_value(digits) <= usize::MAX {
        Some(digits_value(digits) as usize)
    } else {
        None
    }
}

/// A number does not get smaller when digits are written behind it.
proof fn lemma_digits_value_grows(s: Seq<char>, n: int)
    requires
        0 <= n <= s.len(),
    ensures
        digits_value(s.take(n)) <= digits_value(s),
    decreases s.len() - n,
{
    if n == s.len() {
        assert(s.take(n) == s);
    } else {
        lemma_digits_value_grows(s, n + 1);
        assert(s.take(n + 1).drop_last() == s.take(n));
    }
}

/// Reads `s` as a machine integer.
pub fn parse_number(s: &str) -> (value: Option<usize>)
    ensures
        value == number(s@),
{
    let ghost digits = unsigned_part(s@);
    let signed = match s.chars().next() {
        Some(c) => c == '+',
        None => false,
    };
    let mut it = s.chars();
    if signed {
        let _ = it.next();
    }
    let ghost mut i: int = 0;
    let mut total: usize = 0;
    let mut seen = false;
    loop
        invariant
            0 <= i <= digits.len(),
            digits == unsigned_part(s@),
            it.remaining() == digits.skip(i),
            seen == (i > 0),
            all_digits(digits.take(i)),
            total == digits_value(digits.take(i)),
        decreases digits.len() - i,
    {
        match it.next() {
            Some(c) => {
                assert(digits.take(i + 1).drop_last() == digits.take(i));
                if c < '0' || c > '9' {
                    return None;
                }
                let d = (c as u32 - 48) as usize;
                if total > (usize::MAX - d) / 10 {
                    proof {
                        lemma_digits_value_grows(digits, i + 1);
                    }
                    return None;
                }
                total = total * 10 + d;
                seen = true;
                proof {
                    i = i + 1;
                }
            },
            None => {
                assert(digits.take(i) == digits);
                return if seen {
                    Some(total)
                } else {
                    None
                };
            },
        }
    }
}

/// The ASCII digits that write `n` in base ten, without leading zeros.
pub open spec fn decimal(n: nat) -> Seq<u8>
    decreases n,
{
    if n < 10 {
        seq![(48 + n) as u8]
    } else {
        decimal(n / 10).push((48 + n % 10) as u8)
    }
}

/// Appends to `out` the ASCII digits that write `v` in base ten.
pub fn push_decimal(out: &mut Vec<u8>, v: u128)
    ensures
        final(out)@ == old(out)@ + decimal(v as nat),
{
    // The digits behind the first, last one first.
    let mut low: Vec<u8> = Vec::new();
    let mut n: u128 = v;
    while n >= 10
        invariant
            decimal(v as nat) == decimal(n as nat) + low@.reverse(),
        decreases n,
    {
        let d = (48 + n % 10) as u8;
        low.push(d);
        n = n / 10;
    }
    out.push((48 + n) as u8);
    let mut k: usize = low.len();
    while k > 0
        invariant
            k <= low.len(),
            n < 10,
            decimal(v as nat) == decimal(n as nat) + low@.reverse(),
            out@ == old(out)@ + decimal(n as nat) + low@.reverse().take(low.len() - k),
        decreases k,
    {
        k = k - 1;
        out.push(low[k]);
    }
}

/// The bytes that a lossy UTF-8 decoder makes of the single byte `b`: the
/// byte itself where it is ASCII, else the encoding of U+FFFD, the
/// replacement character, since no byte from 0x80 on is a character alone.
pub open spec fn lossy_byte(b: u8) -> Seq<u8> {
    if b < 0x80 {
        seq![b]
    } else {
        seq![0xEFu8, 0xBFu8, 0xBDu8]
    }
}

/// Appends to `out` what a lossy UTF-8 decoder makes of the single byte `b`.
pub fn push_lossy_byte(out: &mut Vec<u8>, b: u8)
    ensures
        final(out)@ == old(out)@ + lossy_byte(b),
{
    if b < 0x80 {
        out.push(b);
    } else {
        out.push(0xEF);
        out.push(0xBF);
        out.push(0xBD);
    }
}

} // verus!
