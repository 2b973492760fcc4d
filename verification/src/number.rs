//! Numbers as text: decimal digits, hexadecimal digits, and reading both back.

use vstd::prelude::*;
use crate::text::{
    chars_of, is_white_space, str_of, trim, trimmed, white_space_around_is_ignored,
};

verus! {

// ---------------------------------------------------------------------------------------------
// Writing
// ---------------------------------------------------------------------------------------------

/// The character for a digit below sixteen.
pub open spec fn digit(d: int) -> char {
    if d < 10 {
        (d + ('0' as int)) as char
    } else {
        (d - 10 + ('a' as int)) as char
    }
}

/// The decimal digits of a number, without leading zeros.
pub open spec fn decimal(n: nat) -> Seq<char>
    decreases n,
{
    if n < 10 {
        seq![digit(n as int)]
    } else {
        decimal(n / 10).push(digit((n % 10) as int))
    }
}

/// The decimal digits of a whole number, with a minus sign before those of a negative one.
pub open spec fn signed_decimal(n: int) -> Seq<char> {
    if n < 0 {
        seq!['-'] + decimal((-n) as nat)
    } else {
        decimal(n as nat)
    }
}

/// The character for a digit below sixteen.
pub fn digit_char(d: u8) -> (r: char)
    requires
        d < 16,
    ensures
        r == digit(d as int),
{
    if d < 10 {
        (d + 48) as char
    } else {
        (d - 10 + 97) as char
    }
}

/// The decimal digits of `n`.
pub fn decimal_text(n: u64) -> (r: String)
    ensures
        r@ == decimal(n as nat),
    decreases n,
{
    if n < 10 {
        let mut out: String = String::new();
        out.push(digit_char(n as u8));
        assert(out@ =~= decimal(n as nat));
        out
    } else {
        let mut out: String = decimal_text(n / 10);
        out.push(digit_char((n % 10) as u8));
        out
    }
}

/// The decimal digits of `n`, after a minus sign where `n` is negative.
pub fn signed_decimal_text(n: i64) -> (r: String)
    ensures
        r@ == signed_decimal(n as int),
{
    if n < 0 {
        let magnitude: u64 = if n == i64::MIN {
            0x8000_0000_0000_0000
        } else {
            (-n) as u64
        };
        let mut out: String = String::new();
        out.push('-');
        out.append(decimal_text(magnitude).as_str());
        assert(out@ =~= signed_decimal(n as int));
        out
    } else {
        decimal_text(n as u64)
    }
}

/// Two hexadecimal digits for each byte, the high one first.
pub open spec fn hex(bytes: Seq<u8>) -> Seq<char> {
    Seq::new(
        2 * bytes.len(),
        |i: int|
            if i % 2 == 0 {
                digit(bytes[i / 2] as int / 16)
            } else {
                digit(bytes[i / 2] as int % 16)
            },
    )
}

proof fn digit_is_injective(d: int, e: int)
    requires
        0 <= d < 16,
        0 <= e < 16,
        digit(d) == digit(e),
    ensures
        d == e,
{
    assert(digit(d) as int == if d < 10 { d + 48 } else { d + 87 });
    assert(digit(e) as int == if e < 10 { e + 48 } else { e + 87 });
}

/// Different byte strings have different digits.
pub proof fn hex_is_injective(a: Seq<u8>, b: Seq<u8>)
    requires
        hex(a) == hex(b),
    ensures
        a == b,
{
    assert(hex(a).len() == 2 * a.len());
    assert(hex(b).len() == 2 * b.len());
    assert forall|i: int| 0 <= i < a.len() implies a[i] == b[i] by {
        assert((2 * i) / 2 == i && (2 * i) % 2 == 0);
        assert((2 * i + 1) / 2 == i && (2 * i + 1) % 2 == 1);
        assert(hex(a)[2 * i] == digit(a[i] as int / 16));
        assert(hex(b)[2 * i] == digit(b[i] as int / 16));
        assert(hex(a)[2 * i + 1] == digit(a[i] as int % 16));
        assert(hex(b)[2 * i + 1] == digit(b[i] as int % 16));
        digit_is_injective(a[i] as int / 16, b[i] as int / 16);
        digit_is_injective(a[i] as int % 16, b[i] as int % 16);
    }
    assert(a =~= b);
}

/// Two hexadecimal digits for each byte.
pub fn hex_text(bytes: &[u8]) -> (r: String)
    ensures
        r@ == hex(bytes@),
{
    let mut out: String = String::new();
    let mut i: usize = 0;
    while i < bytes.len()
        invariant
            i <= bytes@.len(),
            out@ == hex(bytes@.take(i as int)),
        decreases bytes@.len() - i,
    {
        let b: u8 = bytes[i];
        out.push(digit_char(b / 16));
        out.push(digit_char(b % 16));
        i += 1;
        assert(out@ =~= hex(bytes@.take(i as int)));
    }
    assert(bytes@.take(i as int) =~= bytes@);
    out
}

// ---------------------------------------------------------------------------------------------
// Reading
// ---------------------------------------------------------------------------------------------

/// The characters '0' to '9'.
pub open spec fn is_digit(c: char) -> bool {
    '0' <= c <= '9'
}

/// A text of one or more decimal digits.
pub open spec fn is_number(s: Seq<char>) -> bool {
    s.len() > 0 && forall|i: int| 0 <= i < s.len() ==> is_digit(#[trigger] s[i])
}

/// The number that decimal digits stand for.
pub open spec fn decimal_value(s: Seq<char>) -> nat
    decreases s.len(),
{
    if s.len() == 0 {
        0
    } else {
        10 * decimal_value(s.drop_last()) + ((s.last() as int - '0' as int) as nat)
    }
}

/// The number a text stands for: digits after at most one plus sign.
pub open spec fn unsigned_value(s: Seq<char>) -> Option<nat> {
    let digits = if s.len() > 0 && s[0] == '+' {
        s.skip(1)
    } else {
        s
    };
    if is_number(digits) {
        Some(decimal_value(digits))
    } else {
        None
    }
}

/// The number a text stands for: digits after at most one sign.
pub open spec fn signed_value(s: Seq<char>) -> Option<int> {
    if s.len() > 0 && s[0] == '-' {
        if is_number(s.skip(1)) {
            Some(-(decimal_value(s.skip(1)) as int))
        } else {
            None
        }
    } else {
        match unsigned_value(s) {
            Some(n) => Some(n as int),
            None => None,
        }
    }
}

proof fn digits_grow(s: Seq<char>, k: int)
    requires
        is_number(s),
        0 <= k <= s.len(),
    ensures
        decimal_value(s.take(k)) <= decimal_value(s),
    decreases s.len() - k,
{
    if k < s.len() {
        digits_grow(s, k + 1);
        assert(s.take(k + 1).drop_last() =~= s.take(k));
        assert(is_digit(s[k]));
    } else {
        assert(s.take(k) =~= s);
    }
}

/// The value of the digits from `from` on, where there are any and the value is at most `max`.
fn read_digits(chars: &Vec<char>, from: usize, max: u64) -> (r: Option<u64>)
    requires
        from <= chars@.len(),
    ensures
        match r {
            Some(n) => is_number(chars@.skip(from as int)) && n == decimal_value(
                chars@.skip(from as int),
            ) && n <= max,
            None => !is_number(chars@.skip(from as int)) || decimal_value(chars@.skip(from as int))
                > max,
        },
{
    let ghost digits = chars@.skip(from as int);
    let mut value: u64 = 0;
    let mut i: usize = from;
    if from == chars.len() {
        return None;
    }
    while i < chars.len()
        invariant
            from <= i <= chars@.len(),
            from < chars@.len(),
            digits == chars@.skip(from as int),
            forall|j: int| 0 <= j < i - from ==> is_digit(#[trigger] digits[j]),
            value == decimal_value(digits.take(i - from)),
            value <= max,
        decreases chars@.len() - i,
    {
        let c: char = chars[i];
        assert(digits[i - from] == c);
        if c < '0' || '9' < c {
            assert(!is_digit(digits[i - from]));
            return None;
        }
        let d: u64 = (c as u32 - 48) as u64;
        let ghost next = decimal_value(digits.take(i + 1 - from));
        assert(digits.take(i + 1 - from).drop_last() =~= digits.take(i - from));
        assert(next == 10 * value + d);
        if value > u64::MAX / 10 || 10 * value > u64::MAX - d || 10 * value + d > max {
            proof {
                if is_number(digits) {
                    digits_grow(digits, i + 1 - from);
                }
            }
            return None;
        }
        value = 10 * value + d;
        i += 1;
    }
    assert(digits.take(i - from) =~= digits);
    Some(value)
}

/// Reads an unsigned number that is at most `max`.
pub fn parse_unsigned(text: &str, max: u64) -> (r: Option<u64>)
    ensures
        match r {
            Some(n) => unsigned_value(text@) == Some(n as nat) && n <= max,
            None => unsigned_value(text@) is None || unsigned_value(text@)->0 > max,
        },
{
    let chars: Vec<char> = chars_of(text);
    let from: usize = if chars.len() > 0 && chars[0] == '+' {
        1
    } else {
        0
    };
    assert(chars@.skip(0) =~= chars@);
    read_digits(&chars, from, max)
}

/// Reads a signed number that fits 64 bits.
pub fn parse_i64(text: &str) -> (r: Option<i64>)
    ensures
        match r {
            Some(n) => signed_value(text@) == Some(n as int),
            None => signed_value(text@) is None || signed_value(text@)->0 > i64::MAX || signed_value(
                text@,
            )->0 < i64::MIN,
        },
{
    let chars: Vec<char> = chars_of(text);
    if chars.len() > 0 && chars[0] == '-' {
        match read_digits(&chars, 1, 0x8000_0000_0000_0000) {
            Some(n) => {
                if n == 0x8000_0000_0000_0000 {
                    Some(i64::MIN)
                } else {
                    Some(-(n as i64))
                }
            },
            None => None,
        }
    } else {
        match parse_unsigned(text, 0x7fff_ffff_ffff_ffff) {
            Some(n) => Some(n as i64),
            None => None,
        }
    }
}

/// The number in a text once the white space around it is gone, where it is at most `max`.
pub open spec fn trimmed_value(raw: Option<Seq<char>>, max: nat) -> Option<nat> {
    match raw {
        Some(text) => match unsigned_value(trimmed(text)) {
            Some(n) => if n <= max {
                Some(n)
            } else {
                None
            },
            None => None,
        },
        None => None,
    }
}

/// Reads an optional 32-bit number, ignoring the white space around it.
pub fn parse_trimmed_u32(raw: Option<&str>) -> (r: Option<u32>)
    ensures
        match r {
            Some(n) => trimmed_value(str_of(raw), u32::MAX as nat) == Some(n as nat),
            None => trimmed_value(str_of(raw), u32::MAX as nat) is None,
        },
{
    match raw {
        Some(text) => match parse_unsigned(trim(text), 0xffff_ffff) {
            Some(n) => Some(n as u32),
            None => None,
        },
        None => None,
    }
}

/// A number's digits read back as that number.
pub proof fn decimal_reads_back(n: nat)
    ensures
        is_number(decimal(n)),
        decimal_value(decimal(n)) == n,
        unsigned_value(decimal(n)) == Some(n),
    decreases n,
{
    if n >= 10 {
        decimal_reads_back(n / 10);
        let s = decimal(n);
        assert(s.drop_last() =~= decimal(n / 10));
        assert forall|i: int| 0 <= i < s.len() implies is_digit(#[trigger] s[i]) by {
            if i < s.len() - 1 {
                assert(s[i] == decimal(n / 10)[i]);
                assert(is_digit(decimal(n / 10)[i]));
            }
        }
    } else {
        assert(decimal(n).drop_last() =~= Seq::<char>::empty());
        reveal_with_fuel(decimal_value, 2);
    }
    assert(is_digit(decimal(n)[0]));
}

/// A whole number's digits, with its sign, read back as that number.
pub proof fn signed_decimal_reads_back(n: int)
    ensures
        signed_value(signed_decimal(n)) == Some(n),
{
    if n < 0 {
        decimal_reads_back((-n) as nat);
        let s = signed_decimal(n);
        assert(s.skip(1) =~= decimal((-n) as nat));
    } else {
        decimal_reads_back(n as nat);
        assert(is_digit(decimal(n as nat)[0]));
    }
}

/// A number's digits have no zero in front, but for zero itself.
pub proof fn decimal_has_no_zero_in_front(n: nat)
    ensures
        decimal(n).len() > 0,
        n > 0 ==> decimal(n)[0] != '0',
        n < 10 ==> decimal(n).len() == 1,
    decreases n,
{
    if n >= 10 {
        decimal_has_no_zero_in_front(n / 10);
    }
}

/// A digit put behind others makes ten times the number and the digit.
pub proof fn digits_count_by_tens(s: Seq<char>, d: char)
    requires
        is_digit(d),
    ensures
        decimal_value(s.push(d)) == 10 * decimal_value(s) + (d as int - 48),
        is_digit(d) <==> 48 <= d as int <= 57,
{
    assert(s.push(d).drop_last() =~= s);
}

/// A digit is the character that reads as its number: `0` to `9`, and then `a` to `f`.
pub proof fn digits_by_their_codes(d: int)
    requires
        0 <= d < 16,
    ensures
        d < 10 ==> digit(d) as int == 48 + d,
        d >= 10 ==> digit(d) as int == 87 + d,
{
}

/// Each byte is two digits, the higher one first, and the digits of two lists of bytes are those
/// of the one and then those of the other.
pub proof fn bytes_are_two_digits_each(a: Seq<u8>, b: Seq<u8>, high: int, low: int)
    requires
        0 <= high < 16,
        0 <= low < 16,
    ensures
        hex(a + b) == hex(a) + hex(b),
        hex(seq![(16 * high + low) as u8]) == seq![digit(high), digit(low)],
{
    assert forall|i: int| 0 <= i < hex(a + b).len() implies hex(a + b)[i] == (hex(a) + hex(b))[i] by {
        if i < hex(a).len() {
            assert((a + b)[i / 2] == a[i / 2]);
        } else {
            let k = i - hex(a).len();
            assert(i / 2 == a.len() + k / 2 && i % 2 == k % 2);
            assert((a + b)[i / 2] == b[k / 2]);
        }
    }
    assert(hex(a + b) =~= hex(a) + hex(b));
    let byte = (16 * high + low) as u8;
    assert(byte as int == 16 * high + low);
    assert(byte as int / 16 == high && byte as int % 16 == low);
    assert(hex(seq![byte]) =~= seq![digit(high), digit(low)]);
}

/// A number that is set reads as itself, whatever white space is around it, where it is not too
/// large.
pub proof fn set_numbers_are_read(before: Seq<char>, n: nat, behind: Seq<char>, max: nat)
    requires
        forall|i: int| 0 <= i < before.len() ==> is_white_space(#[trigger] before[i]),
        forall|i: int| 0 <= i < behind.len() ==> is_white_space(#[trigger] behind[i]),
    ensures
        n <= max ==> trimmed_value(Some(before + decimal(n) + behind), max) == Some(n),
        n > max ==> trimmed_value(Some(before + decimal(n) + behind), max) is None,
        trimmed_value(None, max) is None,
{
    decimal_reads_back(n);
    let s = decimal(n);
    assert(is_digit(s[0]));
    assert(is_digit(s[s.len() - 1]));
    white_space_around_is_ignored(before, s, behind);
}

/// What reads as a number is digits, behind a plus sign or not.
pub proof fn only_digits_are_numbers(s: Seq<char>)
    ensures
        unsigned_value(s) is Some ==> s.len() > 0 && forall|i: int|
            1 <= i < s.len() ==> 48 <= #[trigger] s[i] as int <= 57,
        unsigned_value(s) is Some ==> s[0] == '+' && s.len() > 1 || 48 <= s[0] as int <= 57,
        unsigned_value(seq!['+'] + s) is Some ==> unsigned_value(seq!['+'] + s) == Some(
            decimal_value(s),
        ),
{
    if unsigned_value(s) is Some {
        if s[0] == '+' {
            assert forall|i: int| 1 <= i < s.len() implies 48 <= #[trigger] s[i] as int <= 57 by {
                assert(is_digit(s.skip(1)[i - 1]));
            }
        } else {
            assert(is_digit(s[0]));
        }
    }
    assert((seq!['+'] + s).skip(1) =~= s);
}

} // verus!
