//! Reference landmarks shown on the plot, and the text that configures them.
//!
//! A city is written as `(name,latitude,longitude)`, the angles in decimal
//! degrees: an optional sign, digits with an optional point among them, and
//! optionally an exponent of ten (`e` or `E`, an optional sign, digits).

use vstd::prelude::*;
use vstd::string::StrSliceExecFns;
use vstd::string::StringExecFns;

verus! {

/// Number of decimals of a degree that an angle holds.
pub const ANGLE_DECIMALS: usize = 6;

/// Largest magnitude of an angle, in microdegrees.
pub const MAGNITUDE_LIMIT: u64 = 2_147_483_648;

/// Exponents are read up to this magnitude. A larger one decides the angle
/// just as this one does: it is zero or does not fit.
pub const EXPONENT_CAP: i128 = 0x40_0000_0000_0000_0000;

/// Number of zeros behind the last digit beyond which every number but zero
/// exceeds the largest magnitude.
pub const FAR_SHIFT: usize = 10;

/// A named landmark; latitude and longitude in microdegrees.
#[derive(Debug, PartialEq, Eq)]
pub struct City {
    pub name: String,
    pub lat: i32,
    pub long: i32,
}

/// Why a text does not describe a city.
#[derive(Clone, Copy, Debug, PartialEq, Eq, Structural)]
pub enum CityError {
    /// Fewer than three fields.
    MissingField,
    /// The latitude is not a decimal number that fits an angle.
    InvalidLatitude,
    /// The longitude is not a decimal number that fits an angle.
    InvalidLongitude,
}

/// Whether `c` is a parenthesis of either kind.
pub open spec fn is_paren(c: char) -> bool {
    c == '(' || c == ')'
}

/// Whether `c` is a decimal digit.
pub open spec fn is_digit(c: char) -> bool {
    0x30 <= c as u32 <= 0x39
}

/// The value of the decimal digit `c`.
pub open spec fn digit_value(c: char) -> nat {
    (c as u32 - 0x30) as nat
}

/// Index of the first character at or after `from` that is no parenthesis,
/// or the length of `s`.
pub open spec fn skip_parens(s: Seq<char>, from: int) -> int
    decreases s.len() - from,
{
    if from < 0 || from >= s.len() {
        s.len() as int
    } else if is_paren(s[from]) {
        skip_parens(s, from + 1)
    } else {
        from
    }
}

/// End of `s` once the parentheses at its end, back to `start`, are dropped.
pub open spec fn drop_parens(s: Seq<char>, start: int, end: int) -> int
    decreases end,
{
    if end > start && 0 < end <= s.len() && is_paren(s[end - 1]) {
        drop_parens(s, start, end - 1)
    } else {
        end
    }
}

/// `s` without the parentheses at its start and at its end.
pub open spec fn trimmed(s: Seq<char>) -> Seq<char> {
    let start = skip_parens(s, 0);
    s.subrange(start, drop_parens(s, start, s.len() as int))
}

/// Index of the first `c` in `s` at or after `from`, or the length of `s`.
pub open spec fn find_from(s: Seq<char>, from: int, c: char) -> int
    decreases s.len() - from,
{
    if from < 0 || from >= s.len() {
        s.len() as int
    } else if s[from] == c {
        from
    } else {
        find_from(s, from + 1, c)
    }
}

/// The first three comma-separated fields of `s` inside its parentheses.
pub open spec fn city_fields(s: Seq<char>) -> Option<(Seq<char>, Seq<char>, Seq<char>)> {
    let t = trimmed(s);
    let first = find_from(t, 0, ',');
    let second = find_from(t, first + 1, ',');
    let third = find_from(t, second + 1, ',');
    if second < t.len() {
        Some((t.subrange(0, first), t.subrange(first + 1, second), t.subrange(second + 1, third)))
    } else {
        None
    }
}

/// Whether every character of `s` is a decimal digit.
pub open spec fn all_digits(s: Seq<char>) -> bool {
    forall|i: int| 0 <= i < s.len() ==> is_digit(#[trigger] s[i])
}

/// The number that the decimal digits `s` spell.
pub open spec fn digits_value(s: Seq<char>) -> nat
    decreases s.len(),
{
    if s.len() == 0 {
        0
    } else {
        digits_value(s.drop_last()) * 10 + digit_value(s.last())
    }
}

/// Whether `c` marks the start of an exponent.
pub open spec fn is_mark(c: char) -> bool {
    c == 'e' || c == 'E'
}

/// Index of the first exponent mark in `s` at or after `from`, or the
/// length of `s`.
pub open spec fn find_mark(s: Seq<char>, from: int) -> int
    decreases s.len() - from,
{
    if from < 0 || from >= s.len() {
        s.len() as int
    } else if is_mark(s[from]) {
        from
    } else {
        find_mark(s, from + 1)
    }
}

/// The integer that `s` spells: an optional sign and at least one digit.
pub open spec fn signed_digits(s: Seq<char>) -> Option<int> {
    let signed = s.len() > 0 && (s[0] == '-' || s[0] == '+');
    let negative = s.len() > 0 && s[0] == '-';
    let body = if signed {
        s.subrange(1, s.len() as int)
    } else {
        s
    };
    if body.len() > 0 && all_digits(body) {
        Some(
            if negative {
                -(digits_value(body) as int)
            } else {
                digits_value(body) as int
            },
        )
    } else {
        None
    }
}

/// The first `count` digits of `digits`, with zeros for those that are
/// missing; nothing if `count` is not positive.
pub open spec fn shifted_digits(digits: Seq<char>, count: int) -> Seq<char> {
    Seq::new(
        if count > 0 {
            count as nat
        } else {
            0
        },
        |i: int|
            if i < digits.len() {
                digits[i]
            } else {
                '0'
            },
    )
}

/// The microdegrees that the unsigned decimal `s` spells: a mantissa and
/// optionally an exponent of ten. What lies behind the sixth decimal of the
/// resulting number of degrees is dropped.
pub open spec fn unsigned_microdegrees(s: Seq<char>) -> Option<nat> {
    let mark = find_mark(s, 0);
    let mantissa = s.subrange(0, mark);
    let exponent = if mark < s.len() {
        signed_digits(s.subrange(mark + 1, s.len() as int))
    } else {
        Some(0int)
    };
    let (whole, fraction) = mantissa_parts(mantissa);
    match exponent {
        Some(e) => if is_mantissa(mantissa) {
            Some(digits_value(shifted_digits(whole + fraction, whole.len() + ANGLE_DECIMALS + e)))
        } else {
            None
        },
        None => None,
    }
}

/// `e`, held within the exponent cap.
pub open spec fn capped(e: int) -> int {
    if e >= EXPONENT_CAP {
        EXPONENT_CAP as int
    } else if e <= -EXPONENT_CAP {
        -EXPONENT_CAP
    } else {
        e
    }
}

/// One more digit multiplies the value by ten and adds the digit.
pub proof fn lemma_shifted_step(digits: Seq<char>, count: int)
    requires
        count >= 0,
    ensures
        digits_value(shifted_digits(digits, count + 1)) == digits_value(
            shifted_digits(digits, count),
        ) * 10 + digit_value(
            if count < digits.len() {
                digits[count]
            } else {
                '0'
            },
        ),
{
    assert(shifted_digits(digits, count + 1).drop_last() =~= shifted_digits(digits, count));
}

/// More digits never spell a smaller value.
pub proof fn lemma_shifted_monotone(digits: Seq<char>, fewer: int, more: int)
    requires
        0 <= fewer <= more,
    ensures
        digits_value(shifted_digits(digits, fewer)) <= digits_value(shifted_digits(digits, more)),
    decreases more - fewer,
{
    if fewer < more {
        lemma_shifted_monotone(digits, fewer, more - 1);
        lemma_shifted_step(digits, more - 1);
    }
}

/// Zeros behind the digits of zero spell zero.
pub proof fn lemma_shifted_zero(digits: Seq<char>, fewer: int, more: int)
    requires
        digits.len() <= fewer <= more,
        digits_value(shifted_digits(digits, fewer)) == 0,
    ensures
        digits_value(shifted_digits(digits, more)) == 0,
    decreases more - fewer,
{
    if fewer < more {
        lemma_shifted_zero(digits, fewer, more - 1);
        lemma_shifted_step(digits, more - 1);
    }
}

/// With ten or more zeros behind its digits, a number is zero or exceeds
/// the largest magnitude.
pub proof fn lemma_far_shift(digits: Seq<char>, count: int)
    requires
        count >= digits.len() + FAR_SHIFT,
    ensures
        digits_value(shifted_digits(digits, digits.len() as int)) == 0 ==> digits_value(
            shifted_digits(digits, count),
        ) == 0,
        digits_value(shifted_digits(digits, digits.len() as int)) > 0 ==> digits_value(
            shifted_digits(digits, count),
        ) > MAGNITUDE_LIMIT,
{
    let n = digits.len() as int;
    if digits_value(shifted_digits(digits, n)) == 0 {
        lemma_shifted_zero(digits, n, count);
    } else {
        lemma_shifted_step(digits, n);
        lemma_shifted_step(digits, n + 1);
        lemma_shifted_step(digits, n + 2);
        lemma_shifted_step(digits, n + 3);
        lemma_shifted_step(digits, n + 4);
        lemma_shifted_step(digits, n + 5);
        lemma_shifted_step(digits, n + 6);
        lemma_shifted_step(digits, n + 7);
        lemma_shifted_step(digits, n + 8);
        lemma_shifted_step(digits, n + 9);
        lemma_shifted_monotone(digits, n + 10, count);
    }
}

/// The angle, in microdegrees, that the decimal `s` spells, if it is one
/// and fits.
pub open spec fn microdegrees(s: Seq<char>) -> Option<i32> {
    let signed = s.len() > 0 && (s[0] == '-' || s[0] == '+');
    let negative = s.len() > 0 && s[0] == '-';
    let body = if signed {
        s.subrange(1, s.len() as int)
    } else {
        s
    };
    match unsigned_microdegrees(body) {
        Some(magnitude) => {
            let value = if negative {
                -(magnitude as int)
            } else {
                magnitude as int
            };
            if i32::MIN <= value <= i32::MAX {
                Some(value as i32)
            } else {
                None
            }
        },
        None => None,
    }
}

/// What `s` says of a city: its name and its position, or why it is not one.
pub open spec fn city_of(s: Seq<char>) -> Result<(Seq<char>, i32, i32), CityError> {
    match city_fields(s) {
        None => Err(CityError::MissingField),
        Some((name, lat, long)) => match microdegrees(lat) {
            None => Err(CityError::InvalidLatitude),
            Some(lat) => match microdegrees(long) {
                None => Err(CityError::InvalidLongitude),
                Some(long) => Ok((name, lat, long)),
            },
        },
    }
}

/// The characters of `text`.
fn chars_of(text: &str) -> (chars: Vec<char>)
    ensures
        chars@ == text@,
{
    let len = text.unicode_len();
    let mut chars: Vec<char> = Vec::new();
    let mut i: usize = 0;
    while i < len
        invariant
            len == text@.len(),
            i <= len,
            chars@ == text@.subrange(0, i as int),
        decreases len - i,
    {
        chars.push(text.get_char(i));
        i += 1;
        assert(chars@ =~= text@.subrange(0, i as int));
    }
    assert(text@.subrange(0, len as int) =~= text@);
    chars
}

/// The characters of `s` from `from` up to `to`.
fn slice_of(s: &Vec<char>, from: usize, to: usize) -> (part: Vec<char>)
    requires
        from <= to <= s@.len(),
    ensures
        part@ == s@.subrange(from as int, to as int),
{
    let mut part: Vec<char> = Vec::new();
    let mut i: usize = from;
    while i < to
        invariant
            from <= i <= to <= s@.len(),
            part@ == s@.subrange(from as int, i as int),
        decreases to - i,
    {
        part.push(s[i]);
        i += 1;
        assert(part@ =~= s@.subrange(from as int, i as int));
    }
    part
}

/// Index of the first `c` in `s` at or after `from`, or the length of `s`.
fn find(s: &Vec<char>, from: usize, c: char) -> (i: usize)
    ensures
        i == find_from(s@, from as int, c),
        from <= s@.len() ==> from <= i <= s@.len(),
        from > s@.len() ==> i == s@.len(),
{
    let mut i: usize = from;
    while i < s.len() && s[i] != c
        invariant
            from <= i,
            from <= s@.len() ==> i <= s@.len(),
            find_from(s@, from as int, c) == find_from(s@, i as int, c),
        decreases s@.len() - i,
    {
        i += 1;
    }
    if i >= s.len() {
        s.len()
    } else {
        i
    }
}

/// Whether `c` is a decimal digit.
fn digit_of(c: char) -> (d: Option<u64>)
    ensures
        d matches Some(v) ==> is_digit(c) && v == digit_value(c),
        d is None ==> !is_digit(c),
{
    let code = c as u32;
    if 0x30 <= code && code <= 0x39 {
        Some((code - 0x30) as u64)
    } else {
        None
    }
}

/// Index of the first exponent mark in `s`, or the length of `s`.
fn mark_of(s: &Vec<char>) -> (i: usize)
    ensures
        i == find_mark(s@, 0),
        i <= s@.len(),
{
    let mut i: usize = 0;
    while i < s.len() && s[i] != 'e' && s[i] != 'E'
        invariant
            i <= s@.len(),
            find_mark(s@, 0) == find_mark(s@, i as int),
        decreases s@.len() - i,
    {
        i += 1;
    }
    i
}

/// The integer that `s` spells, held within the exponent cap.
#[verifier::loop_isolation(false)]
fn parse_exponent(s: &Vec<char>) -> (r: Option<i128>)
    ensures
        match signed_digits(s@) {
            Some(e) => r == Some(capped(e) as i128),
            None => r is None,
        },
{
    let len = s.len();
    let negative = len > 0 && s[0] == '-';
    let start: usize = if len > 0 && (s[0] == '-' || s[0] == '+') {
        1
    } else {
        0
    };
    let ghost body = s@.subrange(start as int, len as int);
    assert(start == 0 ==> body =~= s@);
    if start == len {
        return None;
    }
    let mut acc: i128 = 0;
    let mut i: usize = start;
    assert(body.subrange(0, 0) =~= Seq::<char>::empty());
    while i < len
        invariant
            start <= i <= len,
            all_digits(body.subrange(0, i - start)),
            0 <= acc <= EXPONENT_CAP,
            acc < EXPONENT_CAP ==> acc == digits_value(body.subrange(0, i - start)),
            acc == EXPONENT_CAP ==> digits_value(body.subrange(0, i - start)) >= EXPONENT_CAP,
        decreases len - i,
    {
        proof {
            assert(body.subrange(0, i - start + 1).drop_last() =~= body.subrange(0, i - start));
            assert(body.subrange(0, i - start + 1).last() == s@[i as int]);
        }
        match digit_of(s[i]) {
            Some(d) => {
                if acc < EXPONENT_CAP {
                    let next: i128 = acc * 10 + d as i128;
                    acc = if next > EXPONENT_CAP {
                        EXPONENT_CAP
                    } else {
                        next
                    };
                }
            },
            None => {
                assert(!is_digit(body[i - start]));
                return None;
            },
        }
        i += 1;
    }
    assert(body.subrange(0, len - start) =~= body);
    if negative {
        Some(-acc)
    } else {
        Some(acc)
    }
}

/// The value of the first `count` digits of `digits`, with zeros for those
/// that are missing, unless it exceeds the largest magnitude.
fn leading_value(digits: &Vec<char>, count: u128) -> (r: Option<u64>)
    requires
        all_digits(digits@),
    ensures
        match r {
            Some(v) => v <= MAGNITUDE_LIMIT && v == digits_value(
                shifted_digits(digits@, count as int),
            ),
            None => digits_value(shifted_digits(digits@, count as int)) > MAGNITUDE_LIMIT,
        },
{
    let mut acc: u64 = 0;
    let mut i: u128 = 0;
    assert(shifted_digits(digits@, 0) =~= Seq::<char>::empty());
    while i < count
        invariant
            i <= count,
            all_digits(digits@),
            acc <= MAGNITUDE_LIMIT,
            acc == digits_value(shifted_digits(digits@, i as int)),
        decreases count - i,
    {
        let d: u64 = if i < digits.len() as u128 {
            match digit_of(digits[i as usize]) {
                Some(d) => d,
                None => 0,
            }
        } else {
            0
        };
        proof {
            lemma_shifted_step(digits@, i as int);
        }
        acc = acc * 10 + d;
        if acc > MAGNITUDE_LIMIT {
            proof {
                lemma_shifted_monotone(digits@, i + 1, count as int);
            }
            return None;
        }
        i += 1;
    }
    Some(acc)
}

/// The whole digits and the fraction digits of `mantissa`: what stands
/// before its point and what stands behind it.
pub open spec fn mantissa_parts(mantissa: Seq<char>) -> (Seq<char>, Seq<char>) {
    let point = find_from(mantissa, 0, '.');
    (
        mantissa.subrange(0, point),
        if point < mantissa.len() {
            mantissa.subrange(point + 1, mantissa.len() as int)
        } else {
            Seq::empty()
        },
    )
}

/// Whether `mantissa` is digits with an optional point among them and a
/// digit on at least one side of it.
pub open spec fn is_mantissa(mantissa: Seq<char>) -> bool {
    let (whole, fraction) = mantissa_parts(mantissa);
    all_digits(whole) && all_digits(fraction) && whole.len() + fraction.len() > 0
}

/// The digits of `mantissa` without its point, and the number of those
/// before the point; nothing if it is not a mantissa.
#[verifier::loop_isolation(false)]
fn digits_of_mantissa(mantissa: &Vec<char>) -> (r: Option<(Vec<char>, usize)>)
    ensures
        match r {
            Some((digits, before)) => {
                &&& is_mantissa(mantissa@)
                &&& digits@ == mantissa_parts(mantissa@).0 + mantissa_parts(mantissa@).1
                &&& before == mantissa_parts(mantissa@).0.len()
                &&& all_digits(digits@)
            },
            None => !is_mantissa(mantissa@),
        },
{
    let point = find(mantissa, 0, '.');
    let ghost whole = mantissa_parts(mantissa@).0;
    let ghost fraction = mantissa_parts(mantissa@).1;
    let mut digits: Vec<char> = Vec::new();
    let mut i: usize = 0;
    assert(whole.subrange(0, 0) =~= Seq::<char>::empty());
    while i < point
        invariant
            i <= point <= mantissa@.len(),
            digits@ == whole.subrange(0, i as int),
            all_digits(digits@),
        decreases point - i,
    {
        if digit_of(mantissa[i]).is_none() {
            assert(!is_digit(whole[i as int]));
            return None;
        }
        digits.push(mantissa[i]);
        i += 1;
        assert(digits@ =~= whole.subrange(0, i as int));
    }
    assert(whole.subrange(0, point as int) =~= whole);
    let fraction_start: usize = if point < mantissa.len() {
        point + 1
    } else {
        mantissa.len()
    };
    assert(fraction =~= mantissa@.subrange(fraction_start as int, mantissa@.len() as int));
    let mut k: usize = fraction_start;
    assert(fraction.subrange(0, 0) =~= Seq::<char>::empty());
    assert(digits@ =~= whole + fraction.subrange(0, 0));
    while k < mantissa.len()
        invariant
            fraction_start <= k <= mantissa@.len(),
            digits@ == whole + fraction.subrange(0, k - fraction_start),
            all_digits(digits@),
            all_digits(fraction.subrange(0, k - fraction_start)),
        decreases mantissa@.len() - k,
    {
        if digit_of(mantissa[k]).is_none() {
            assert(!is_digit(fraction[k - fraction_start]));
            return None;
        }
        digits.push(mantissa[k]);
        k += 1;
        assert(fraction.subrange(0, k - fraction_start).drop_last() =~= fraction.subrange(
            0,
            k - fraction_start - 1,
        ));
        assert(digits@ =~= whole + fraction.subrange(0, k - fraction_start));
    }
    assert(fraction.subrange(0, fraction.len() as int) =~= fraction);
    if digits.len() == 0 {
        return None;
    }
    Some((digits, point))
}

/// The value of `digits`, of which `before` stand before the point, times
/// ten to the power `spelled` and in microdegrees, unless it exceeds the
/// largest magnitude. `exponent` is `spelled` within the exponent cap.
fn magnitude_of(digits: &Vec<char>, before: usize, exponent: i128, Ghost(spelled): Ghost<int>) -> (r:
    Option<u64>)
    requires
        all_digits(digits@),
        before <= digits@.len(),
        exponent == capped(spelled),
    ensures
        match r {
            Some(v) => v <= MAGNITUDE_LIMIT && v == digits_value(
                shifted_digits(digits@, before + ANGLE_DECIMALS + spelled),
            ),
            None => digits_value(shifted_digits(digits@, before + ANGLE_DECIMALS + spelled))
                > MAGNITUDE_LIMIT,
        },
{
    let ghost count: int = before + ANGLE_DECIMALS + spelled;
    let length: usize = digits.len();
    if exponent <= -EXPONENT_CAP {
        assert(shifted_digits(digits@, count) =~= Seq::<char>::empty());
        return Some(0);
    }
    if exponent >= EXPONENT_CAP || before as i128 + ANGLE_DECIMALS as i128 + exponent
        > length as i128 + FAR_SHIFT as i128 {
        proof {
            lemma_far_shift(digits@, count);
        }
        return match leading_value(digits, length as u128) {
            Some(v) => if v == 0 {
                Some(0)
            } else {
                None
            },
            None => None,
        };
    }
    let shown: i128 = before as i128 + ANGLE_DECIMALS as i128 + exponent;
    if shown <= 0 {
        assert(shifted_digits(digits@, count) =~= Seq::<char>::empty());
        Some(0)
    } else {
        leading_value(digits, shown as u128)
    }
}

/// The microdegrees that the unsigned decimal `body` spells, unless they
/// exceed the largest magnitude.
fn parse_unsigned(body: &Vec<char>) -> (r: Option<u64>)
    ensures
        match r {
            Some(v) => v <= MAGNITUDE_LIMIT && unsigned_microdegrees(body@) == Some(v as nat),
            None => unsigned_microdegrees(body@) matches Some(m) ==> m > MAGNITUDE_LIMIT,
        },
{
    let mark = mark_of(body);
    let mantissa = slice_of(body, 0, mark);
    let exponent: i128 = if mark < body.len() {
        match parse_exponent(&slice_of(body, mark + 1, body.len())) {
            Some(e) => e,
            None => {
                return None;
            },
        }
    } else {
        0
    };
    let ghost spelled: int = if mark < body@.len() {
        signed_digits(body@.subrange(mark + 1, body@.len() as int))->0
    } else {
        0
    };
    match digits_of_mantissa(&mantissa) {
        Some((digits, before)) => magnitude_of(&digits, before, exponent, Ghost(spelled)),
        None => None,
    }
}

/// The angle, in microdegrees, that the decimal `s` spells.
pub fn parse_microdegrees(s: &Vec<char>) -> (r: Option<i32>)
    ensures
        r == microdegrees(s@),
{
    let len = s.len();
    let negative = len > 0 && s[0] == '-';
    let start: usize = if len > 0 && (s[0] == '-' || s[0] == '+') {
        1
    } else {
        0
    };
    let body = slice_of(s, start, len);
    assert(start == 0 ==> body@ =~= s@);
    match parse_unsigned(&body) {
        Some(magnitude) => {
            let value: i64 = if negative {
                -(magnitude as i64)
            } else {
                magnitude as i64
            };
            if value < i32::MIN as i64 || value > i32::MAX as i64 {
                None
            } else {
                Some(value as i32)
            }
        },
        None => None,
    }
}

impl City {
    /// Reads a city from `(name,latitude,longitude)`. Parentheses at either
    /// end are optional; fields after the third are ignored.
    pub fn parse(text: &str) -> (r: Result<City, CityError>)
        ensures
            match r {
                Ok(city) => city_of(text@) == Ok::<_, CityError>((city.name@, city.lat, city.long)),
                Err(e) => city_of(text@) == Err::<(Seq<char>, i32, i32), _>(e),
            },
    {
        let all = chars_of(text);
        let mut start: usize = 0;
        while start < all.len() && (all[start] == '(' || all[start] == ')')
            invariant
                start <= all@.len(),
                skip_parens(all@, 0) == skip_parens(all@, start as int),
            decreases all@.len() - start,
        {
            start += 1;
        }
        let mut end: usize = all.len();
        while end > start && (all[end - 1] == '(' || all[end - 1] == ')')
            invariant
                start <= end <= all@.len(),
                drop_parens(all@, start as int, all@.len() as int) == drop_parens(
                    all@,
                    start as int,
                    end as int,
                ),
            decreases end,
        {
            end -= 1;
        }
        assert(skip_parens(all@, 0) == start);
        assert(drop_parens(all@, start as int, all@.len() as int) == end);
        let inner = slice_of(&all, start, end);
        assert(inner@ == trimmed(text@));
        let first = find(&inner, 0, ',');
        if first >= inner.len() {
            return Err(CityError::MissingField);
        }
        let second = find(&inner, first + 1, ',');
        if second >= inner.len() {
            return Err(CityError::MissingField);
        }
        let third = find(&inner, second + 1, ',');
        let lat = match parse_microdegrees(&slice_of(&inner, first + 1, second)) {
            Some(lat) => lat,
            None => {
                return Err(CityError::InvalidLatitude);
            },
        };
        let long = match parse_microdegrees(&slice_of(&inner, second + 1, third)) {
            Some(long) => long,
            None => {
                return Err(CityError::InvalidLongitude);
            },
        };
        let name = String::from_str(text.substring_char(start, start + first));
        assert(name@ =~= inner@.subrange(0, first as int));
        Ok(City { name, lat, long })
    }
}

impl std::str::FromStr for City {
    type Err = CityError;

    /// Reads a city as `City::parse` does.
    fn from_str(s: &str) -> (r: Result<Self, Self::Err>)
        ensures
            match r {
                Ok(city) => city_of(s@) == Ok::<_, CityError>((city.name@, city.lat, city.long)),
                Err(e) => city_of(s@) == Err::<(Seq<char>, i32, i32), _>(e),
            },
    {
        City::parse(s)
    }
}

} // verus!
