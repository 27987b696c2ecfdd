//! Text of the numbers that the display shows.

use vstd::prelude::*;
use vstd::string::StrSliceExecFns;
use vstd::string::StringExecFns;

verus! {

/// Largest number of digits behind the decimal point of an angle.
pub const DEGREE_DECIMALS: usize = 6;

/// Microdegrees in one degree.
pub const MICRODEGREES: u64 = 1_000_000;

/// Least number of hex digits of an aircraft address.
pub const ADDRESS_DIGITS: usize = 6;

/// The character of the digit `d` in a base up to sixteen, in lower case.
pub open spec fn digit_char(d: int) -> char {
    if d < 10 {
        ((0x30 + d) as u8) as char
    } else {
        ((0x61 + d - 10) as u8) as char
    }
}

/// The decimal digits of `n`, without leading zeros; one zero for zero.
pub open spec fn decimal(n: nat) -> Seq<char>
    decreases n,
{
    if n < 10 {
        seq![digit_char(n as int)]
    } else {
        decimal(n / 10).push(digit_char((n % 10) as int))
    }
}

/// The lower-case hex digits of `n`, without leading zeros; one zero for zero.
pub open spec fn lower_hex(n: nat) -> Seq<char>
    decreases n,
{
    if n < 16 {
        seq![digit_char(n as int)]
    } else {
        lower_hex(n / 16).push(digit_char((n % 16) as int))
    }
}

/// The last `width` decimal digits of `n`, with leading zeros.
pub open spec fn fixed_decimal(n: nat, width: nat) -> Seq<char>
    decreases width,
{
    if width == 0 {
        Seq::empty()
    } else {
        fixed_decimal(n / 10, (width - 1) as nat).push(digit_char((n % 10) as int))
    }
}

/// The decimal text of `n`, with a minus sign if it is negative.
pub open spec fn signed_decimal(n: int) -> Seq<char> {
    if n < 0 {
        seq!['-'] + decimal((-n) as nat)
    } else {
        decimal(n as nat)
    }
}

/// The last `width` decimal digits of `n` without the zeros at their end;
/// nothing if they are all zero.
pub open spec fn trimmed_fraction(n: nat, width: nat) -> Seq<char>
    decreases width,
{
    if width == 0 {
        Seq::empty()
    } else if n % 10 == 0 {
        trimmed_fraction(n / 10, (width - 1) as nat)
    } else {
        fixed_decimal(n, width)
    }
}

/// The text of an angle of `micro` microdegrees, in degrees: a minus sign
/// if it is negative, the whole degrees, and, unless the angle is a whole
/// number of degrees, a point and the decimals up to the last that is not
/// zero.
pub open spec fn degrees(micro: int) -> Seq<char> {
    let magnitude = (if micro < 0 {
        -micro
    } else {
        micro
    }) as nat;
    let sign = if micro < 0 {
        seq!['-']
    } else {
        Seq::<char>::empty()
    };
    let whole = decimal(magnitude / (MICRODEGREES as nat));
    let part = magnitude % (MICRODEGREES as nat);
    if part == 0 {
        sign + whole
    } else {
        sign + whole + seq!['.'] + trimmed_fraction(part, DEGREE_DECIMALS as nat)
    }
}

/// `text` with as many copies of `fill` in front as bring it to `width`
/// characters; unchanged if it is that long already.
pub open spec fn aligned(text: Seq<char>, width: nat, fill: char) -> Seq<char> {
    if text.len() >= width {
        text
    } else {
        Seq::new((width - text.len()) as nat, |i: int| fill) + text
    }
}

/// The text of the aircraft address `code`: lower-case hex of at least six digits.
pub open spec fn address_text(code: u32) -> Seq<char> {
    aligned(lower_hex(code as nat), ADDRESS_DIGITS as nat, '0')
}

/// `String::push`: appends one character to the end of the string.
#[verifier::external_body]
pub(crate) fn push_char(text: &mut String, c: char)
    ensures
        final(text)@ == old(text)@.push(c),
{
    text.push(c)
}

/// The character of the digit `d`.
fn char_of_digit(d: u8) -> (c: char)
    requires
        d < 16,
    ensures
        c == digit_char(d as int),
{
    if d < 10 {
        (0x30 + d) as char
    } else {
        (0x61 + d - 10) as char
    }
}

/// Appends the decimal digits of `n` to `text`.
pub fn push_decimal(text: &mut String, n: u64)
    ensures
        final(text)@ == old(text)@ + decimal(n as nat),
    decreases n,
{
    if n >= 10 {
        push_decimal(text, n / 10);
        push_char(text, char_of_digit((n % 10) as u8));
    } else {
        push_char(text, char_of_digit(n as u8));
    }
    assert(text@ =~= old(text)@ + decimal(n as nat));
}

/// Appends the lower-case hex digits of `n` to `text`.
pub fn push_lower_hex(text: &mut String, n: u64)
    ensures
        final(text)@ == old(text)@ + lower_hex(n as nat),
    decreases n,
{
    if n >= 16 {
        push_lower_hex(text, n / 16);
        push_char(text, char_of_digit((n % 16) as u8));
    } else {
        push_char(text, char_of_digit(n as u8));
    }
    assert(text@ =~= old(text)@ + lower_hex(n as nat));
}

/// Appends the last `width` decimal digits of `n` to `text`, with leading zeros.
pub fn push_fixed_decimal(text: &mut String, n: u64, width: usize)
    ensures
        final(text)@ == old(text)@ + fixed_decimal(n as nat, width as nat),
    decreases width,
{
    if width > 0 {
        push_fixed_decimal(text, n / 10, width - 1);
        push_char(text, char_of_digit((n % 10) as u8));
    }
    assert(text@ =~= old(text)@ + fixed_decimal(n as nat, width as nat));
}

/// Appends the decimal text of `n` to `text`.
pub fn push_signed(text: &mut String, n: i64)
    ensures
        final(text)@ == old(text)@ + signed_decimal(n as int),
{
    if n < 0 {
        push_char(text, '-');
        let magnitude: u64 = (-(n + 1)) as u64 + 1;
        push_decimal(text, magnitude);
        assert(text@ =~= old(text)@ + signed_decimal(n as int));
    } else {
        push_decimal(text, n as u64);
    }
}

/// Appends the last `width` decimal digits of `n` to `text`, without the
/// zeros at their end.
pub fn push_trimmed_fraction(text: &mut String, n: u64, width: usize)
    ensures
        final(text)@ == old(text)@ + trimmed_fraction(n as nat, width as nat),
{
    let mut rest: u64 = n;
    let mut left: usize = width;
    while left > 0 && rest % 10 == 0
        invariant
            trimmed_fraction(n as nat, width as nat) == trimmed_fraction(rest as nat, left as nat),
        decreases left,
    {
        rest = rest / 10;
        left -= 1;
    }
    if left > 0 {
        push_fixed_decimal(text, rest, left);
    } else {
        assert(text@ =~= old(text)@ + trimmed_fraction(n as nat, width as nat));
    }
}

/// Appends the text of an angle of `micro` microdegrees to `text`.
pub fn push_degrees(text: &mut String, micro: i32)
    ensures
        final(text)@ == old(text)@ + degrees(micro as int),
{
    let magnitude: u64 = if micro < 0 {
        push_char(text, '-');
        (-(micro as i64)) as u64
    } else {
        micro as u64
    };
    push_decimal(text, magnitude / MICRODEGREES);
    let part: u64 = magnitude % MICRODEGREES;
    if part != 0 {
        push_char(text, '.');
        push_trimmed_fraction(text, part, DEGREE_DECIMALS);
    }
    assert(text@ =~= old(text)@ + degrees(micro as int));
}

/// Appends `text`, brought to `width` characters by copies of `fill` in
/// front, to `out`.
pub fn push_aligned(out: &mut String, text: &str, width: usize, fill: char)
    ensures
        final(out)@ == old(out)@ + aligned(text@, width as nat, fill),
{
    let len = text.unicode_len();
    let mut i: usize = len;
    while i < width
        invariant
            len == text@.len(),
            len <= i,
            i <= width || i == len,
            out@ == old(out)@ + Seq::new((i - len) as nat, |k: int| fill),
        decreases width - i,
    {
        push_char(out, fill);
        i += 1;
        assert(out@ =~= old(out)@ + Seq::new((i - len) as nat, |k: int| fill));
    }
    let ghost padded = out@;
    out.append(text);
    assert(out@ == padded + text@);
    if len >= width {
        assert(padded =~= old(out)@);
    } else {
        assert(i == width);
        assert(padded + text@ =~= old(out)@ + (Seq::new((width - len) as nat, |k: int| fill)
            + text@));
    }
}

/// The text of the aircraft address `code`.
pub fn format_address(code: u32) -> (text: String)
    ensures
        text@ == address_text(code),
{
    let mut plain = String::new();
    push_lower_hex(&mut plain, code as u64);
    let mut text = String::new();
    push_aligned(&mut text, plain.as_str(), ADDRESS_DIGITS, '0');
    text
}

} // verus!
