//! Colours as the GPU receives them, and the hexadecimal form of colours.

use vstd::prelude::*;

use crate::text::characters_of;

verus! {

/// The IEEE-754 single `0`, as its bits.
pub const SCALAR_ZERO: u32 = 0x0000_0000;

/// The IEEE-754 single one half, as its bits.
pub const SCALAR_HALF: u32 = 0x3F00_0000;

/// The IEEE-754 single `1`, as its bits.
pub const SCALAR_ONE: u32 = 0x3F80_0000;

/// The IEEE-754 single `-1`, as its bits.
pub const SCALAR_MINUS_ONE: u32 = 0xBF80_0000;

/// A colour as the GPU receives it: four IEEE-754 singles, each carried as
/// its 32 bits. The renderer stores the channels and never computes with
/// them.
#[derive(Clone, Copy, Debug, Default, PartialEq, Eq, Structural)]
pub struct Color {
    pub r: u32,
    pub g: u32,
    pub b: u32,
    pub a: u32,
}

impl Color {
    pub fn with_red(self, r: u32) -> (c: Color)
        ensures
            c == (Color { r, ..self }),
    {
        Color { r, ..self }
    }

    pub fn with_green(self, g: u32) -> (c: Color)
        ensures
            c == (Color { g, ..self }),
    {
        Color { g, ..self }
    }

    pub fn with_blue(self, b: u32) -> (c: Color)
        ensures
            c == (Color { b, ..self }),
    {
        Color { b, ..self }
    }

    pub fn with_alpha(self, a: u32) -> (c: Color)
        ensures
            c == (Color { a, ..self }),
    {
        Color { a, ..self }
    }

    /// The colour with these red, green and blue channels out of 255, and
    /// with the scalar `a` as alpha.
    pub fn from_rgba(red: u8, green: u8, blue: u8, a: u32) -> (c: Color)
        ensures
            c == (Color {
                r: unit_fraction(red as int),
                g: unit_fraction(green as int),
                b: unit_fraction(blue as int),
                a,
            }),
    {
        Color { r: unit_scalar(red), g: unit_scalar(green), b: unit_scalar(blue), a }
    }

    /// The opaque colour that the hexadecimal form `hex` names.
    pub fn from_hex(hex: &str) -> (c: Color)
        requires
            hex_value(hex@) is Some,
        ensures
            hex_value(hex@) matches Some((red, green, blue)) && c == (Color {
                r: unit_fraction(red as int),
                g: unit_fraction(green as int),
                b: unit_fraction(blue as int),
                a: SCALAR_ONE,
            }),
    {
        match hex_channels(hex) {
            Some((red, green, blue)) => Color::from_rgba(red, green, blue, SCALAR_ONE),
            None => Color { r: 0, g: 0, b: 0, a: 0 },
        }
    }

    pub fn white() -> (c: Color)
        ensures
            c == (Color { r: SCALAR_ONE, g: SCALAR_ONE, b: SCALAR_ONE, a: SCALAR_ONE }),
    {
        Color { r: SCALAR_ONE, g: SCALAR_ONE, b: SCALAR_ONE, a: SCALAR_ONE }
    }

    pub fn black() -> (c: Color)
        ensures
            c == (Color { r: SCALAR_ZERO, g: SCALAR_ZERO, b: SCALAR_ZERO, a: SCALAR_ONE }),
    {
        Color { r: SCALAR_ZERO, g: SCALAR_ZERO, b: SCALAR_ZERO, a: SCALAR_ONE }
    }

    pub fn red() -> (c: Color)
        ensures
            c == (Color { r: SCALAR_ONE, g: SCALAR_ZERO, b: SCALAR_ZERO, a: SCALAR_ONE }),
    {
        Color { r: SCALAR_ONE, g: SCALAR_ZERO, b: SCALAR_ZERO, a: SCALAR_ONE }
    }

    pub fn orange() -> (c: Color)
        ensures
            c == (Color { r: SCALAR_ONE, g: SCALAR_HALF, b: SCALAR_ZERO, a: SCALAR_ONE }),
    {
        Color { r: SCALAR_ONE, g: SCALAR_HALF, b: SCALAR_ZERO, a: SCALAR_ONE }
    }

    pub fn yellow() -> (c: Color)
        ensures
            c == (Color { r: SCALAR_ONE, g: SCALAR_ONE, b: SCALAR_ZERO, a: SCALAR_ONE }),
    {
        Color { r: SCALAR_ONE, g: SCALAR_ONE, b: SCALAR_ZERO, a: SCALAR_ONE }
    }

    pub fn green() -> (c: Color)
        ensures
            c == (Color { r: SCALAR_ZERO, g: SCALAR_ONE, b: SCALAR_ZERO, a: SCALAR_ONE }),
    {
        Color { r: SCALAR_ZERO, g: SCALAR_ONE, b: SCALAR_ZERO, a: SCALAR_ONE }
    }

    pub fn cyan() -> (c: Color)
        ensures
            c == (Color { r: SCALAR_ZERO, g: SCALAR_ONE, b: SCALAR_ONE, a: SCALAR_ONE }),
    {
        Color { r: SCALAR_ZERO, g: SCALAR_ONE, b: SCALAR_ONE, a: SCALAR_ONE }
    }

    pub fn blue() -> (c: Color)
        ensures
            c == (Color { r: SCALAR_ZERO, g: SCALAR_ZERO, b: SCALAR_ONE, a: SCALAR_ONE }),
    {
        Color { r: SCALAR_ZERO, g: SCALAR_ZERO, b: SCALAR_ONE, a: SCALAR_ONE }
    }

    pub fn magenta() -> (c: Color)
        ensures
            c == (Color { r: SCALAR_ONE, g: SCALAR_ZERO, b: SCALAR_HALF, a: SCALAR_ONE }),
    {
        Color { r: SCALAR_ONE, g: SCALAR_ZERO, b: SCALAR_HALF, a: SCALAR_ONE }
    }

    pub fn purple() -> (c: Color)
        ensures
            c == (Color { r: SCALAR_ONE, g: SCALAR_ZERO, b: SCALAR_ONE, a: SCALAR_ONE }),
    {
        Color { r: SCALAR_ONE, g: SCALAR_ZERO, b: SCALAR_ONE, a: SCALAR_ONE }
    }

    pub fn indigo() -> (c: Color)
        ensures
            c == (Color { r: SCALAR_HALF, g: SCALAR_ZERO, b: SCALAR_ONE, a: SCALAR_ONE }),
    {
        Color { r: SCALAR_HALF, g: SCALAR_ZERO, b: SCALAR_ONE, a: SCALAR_ONE }
    }
}

/// How many times `n / 255` has to be doubled to reach 1, for `n` from 1 to
/// 255.
pub open spec fn doublings(n: int) -> int {
    if n >= 255 {
        0
    } else if n >= 128 {
        1
    } else if n >= 64 {
        2
    } else if n >= 32 {
        3
    } else if n >= 16 {
        4
    } else if n >= 8 {
        5
    } else if n >= 4 {
        6
    } else if n >= 2 {
        7
    } else {
        8
    }
}

/// Two to the power of `k`, for `k` from 0 to 8.
pub open spec fn power_of_two(k: int) -> int {
    if k == 0 {
        1
    } else if k == 1 {
        2
    } else if k == 2 {
        4
    } else if k == 3 {
        8
    } else if k == 4 {
        16
    } else if k == 5 {
        32
    } else if k == 6 {
        64
    } else if k == 7 {
        128
    } else {
        256
    }
}

/// The bits of the IEEE-754 single nearest to `n / 255`, for `n` from 0 to
/// 255. With `k` doublings the quotient lies between `2^-k` and twice that,
/// so the exponent field is `127 - k`, and the significand, with its leading
/// one, is `n * 2^(k + 23) / 255` rounded to the nearest whole number; no
/// quotient lies half way between two.
pub open spec fn unit_fraction(n: int) -> u32 {
    if n <= 0 {
        0
    } else {
        let k = doublings(n);
        let significand = (2 * n * power_of_two(k) * 0x80_0000 + 255) / 510;
        ((126 - k) * 0x80_0000 + significand) as u32
    }
}

/// The scalar `n / 255`: a colour channel of `n` out of 255.
pub fn unit_scalar(n: u8) -> (scalar: u32)
    ensures
        scalar == unit_fraction(n as int),
{
    if n == 0 {
        return 0;
    }
    let mut k: u64 = 0;
    let mut scaled: u64 = n as u64;
    while scaled < 255
        invariant
            1 <= n <= 255,
            0 <= k <= 8,
            scaled == n * power_of_two(k as int),
            k <= doublings(n as int),
            scaled < 510,
        decreases 510 - scaled,
    {
        scaled = scaled * 2;
        k = k + 1;
    }
    assert(k == doublings(n as int));
    let significand: u64 = (2 * scaled * 0x80_0000 + 255) / 510;
    assert(0x80_0000 <= significand < 0x100_0000);
    ((126 - k) * 0x80_0000 + significand) as u32
}

/// The value of a hexadecimal digit, in either case.
pub open spec fn hex_digit_value(c: char) -> Option<int> {
    if '0' <= c <= '9' {
        Some(c as int - '0' as int)
    } else if 'a' <= c <= 'f' {
        Some(c as int - 'a' as int + 10)
    } else if 'A' <= c <= 'F' {
        Some(c as int - 'A' as int + 10)
    } else {
        None
    }
}

/// The value of two characters read as a number in base 16: two digits, or a
/// plus sign and one digit.
pub open spec fn hex_pair_value(high: char, low: char) -> Option<int> {
    if high == '+' {
        hex_digit_value(low)
    } else {
        match (hex_digit_value(high), hex_digit_value(low)) {
            (Some(h), Some(l)) => Some(16 * h + l),
            _ => None,
        }
    }
}

/// How many number signs a text begins with.
pub open spec fn leading_hashes(text: Seq<char>) -> int
    decreases text.len(),
{
    if text.len() > 0 && text[0] == '#' {
        1 + leading_hashes(text.drop_first())
    } else {
        0
    }
}

/// Red, green and blue out of 255 from three pairs of characters.
pub open spec fn channels_of(
    r: (char, char),
    g: (char, char),
    b: (char, char),
) -> Option<(u8, u8, u8)> {
    match (hex_pair_value(r.0, r.1), hex_pair_value(g.0, g.1), hex_pair_value(b.0, b.1)) {
        (Some(red), Some(green), Some(blue)) => Some((red as u8, green as u8, blue as u8)),
        _ => None,
    }
}

/// The colour that a hexadecimal form names, as red, green and blue out of
/// 255. Behind any number signs the form has six characters, a pair for each
/// channel, or three, each of which stands for itself twice. Anything else
/// names no colour.
pub open spec fn hex_value(hex: Seq<char>) -> Option<(u8, u8, u8)> {
    let digits = hex.skip(leading_hashes(hex));
    if digits.len() == 3 {
        channels_of((digits[0], digits[0]), (digits[1], digits[1]), (digits[2], digits[2]))
    } else if digits.len() == 6 {
        channels_of((digits[0], digits[1]), (digits[2], digits[3]), (digits[4], digits[5]))
    } else {
        None
    }
}

fn hex_digit(c: char) -> (value: Option<u8>)
    ensures
        value matches Some(v) ==> hex_digit_value(c) == Some(v as int) && v < 16,
        value is None ==> hex_digit_value(c) is None,
{
    let code = c as u32;
    if 0x30 <= code && code <= 0x39 {
        Some((code - 0x30) as u8)
    } else if 0x61 <= code && code <= 0x66 {
        Some((code - 0x61 + 10) as u8)
    } else if 0x41 <= code && code <= 0x46 {
        Some((code - 0x41 + 10) as u8)
    } else {
        None
    }
}

fn hex_pair(high: char, low: char) -> (value: Option<u8>)
    ensures
        value matches Some(v) ==> hex_pair_value(high, low) == Some(v as int),
        value is None ==> hex_pair_value(high, low) is None,
{
    if high == '+' {
        hex_digit(low)
    } else {
        match (hex_digit(high), hex_digit(low)) {
            (Some(h), Some(l)) => Some(16 * h + l),
            _ => None,
        }
    }
}

/// Reads a colour's hexadecimal form: red, green and blue out of 255, or
/// `None` for a text that names no colour.
pub fn hex_channels(hex: &str) -> (channels: Option<(u8, u8, u8)>)
    ensures
        channels == hex_value(hex@),
{
    let chars = characters_of(hex);
    let mut start: usize = 0;
    assert(chars@.skip(0) =~= chars@);
    while start < chars.len() && chars[start] == '#'
        invariant
            start <= chars@.len(),
            leading_hashes(chars@) == start + leading_hashes(chars@.skip(start as int)),
        decreases chars@.len() - start,
    {
        proof {
            let rest = chars@.skip(start as int);
            assert(rest[0] == '#');
            assert(rest.drop_first() =~= chars@.skip(start + 1));
        }
        start += 1;
    }
    let ghost digits = chars@.skip(start as int);
    assert(leading_hashes(digits) == 0);
    assert(digits.len() == chars@.len() - start);
    let count = chars.len() - start;
    if count == 3 {
        let (r, g, b) = (chars[start], chars[start + 1], chars[start + 2]);
        assert(r == digits[0] && g == digits[1] && b == digits[2]);
        match (hex_pair(r, r), hex_pair(g, g), hex_pair(b, b)) {
            (Some(red), Some(green), Some(blue)) => Some((red, green, blue)),
            _ => None,
        }
    } else if count == 6 {
        let (r, g, b) = (
            (chars[start], chars[start + 1]),
            (chars[start + 2], chars[start + 3]),
            (chars[start + 4], chars[start + 5]),
        );
        assert(r == (digits[0], digits[1]) && g == (digits[2], digits[3]) && b == (
            digits[4],
            digits[5],
        ));
        match (hex_pair(r.0, r.1), hex_pair(g.0, g.1), hex_pair(b.0, b.1)) {
            (Some(red), Some(green), Some(blue)) => Some((red, green, blue)),
            _ => None,
        }
    } else {
        None
    }
}

} // verus!
