//! Whole numbers between their texts in base two, ten and sixteen.
//!
//! A text is read as a signed 64-bit integer: an optional sign, then one or more digits of the
//! base, nothing else, and a value that fits. A value is written in base ten with a minus sign
//! where it is negative, and in base two or sixteen as the 64-bit two's complement pattern,
//! without leading zeros.

use crate::number::is_sign;
use crate::number::sign;
use crate::text::chars_of;
use crate::text::string_of;
use vstd::arithmetic::div_mod::lemma_basic_div;
use vstd::arithmetic::div_mod::lemma_div_decreases;
use vstd::arithmetic::div_mod::lemma_div_non_zero;
use vstd::arithmetic::div_mod::lemma_div_pos_is_pos;
use vstd::arithmetic::div_mod::lemma_mod_bound;
use vstd::arithmetic::div_mod::lemma_small_mod;
use vstd::prelude::*;

verus! {

/// What a character is worth as a digit: `0` to `9` are 0 to 9, `a` to `z` and `A` to `Z` are
/// 10 to 35. A character that is no digit in any base is worth 36.
pub open spec fn digit_value(c: char) -> int {
    if '0' <= c <= '9' {
        c as int - '0' as int
    } else if 'a' <= c <= 'z' {
        c as int - 'a' as int + 10
    } else if 'A' <= c <= 'Z' {
        c as int - 'A' as int + 10
    } else {
        36
    }
}

/// Every character of `s` is a digit of the base `radix`.
pub open spec fn all_digits(s: Seq<char>, radix: int) -> bool {
    forall|i: int| 0 <= i < s.len() ==> digit_value(#[trigger] s[i]) < radix
}

/// The value of the digits `s` in the base `radix`, the first digit being the most significant.
pub open spec fn digits_value(s: Seq<char>, radix: int) -> int
    decreases s.len(),
{
    if s.len() == 0 {
        0
    } else {
        digits_value(s.drop_last(), radix) * radix + digit_value(s.last())
    }
}

/// The signed 64-bit integer that `s` spells in the base `radix`, if it spells one.
pub open spec fn parse_integer(s: Seq<char>, radix: int) -> Option<int> {
    let negative = s.len() > 0 && s[0] == '-';
    let digits = if s.len() > 0 && is_sign(s[0]) {
        s.drop_first()
    } else {
        s
    };
    let magnitude = digits_value(digits, radix);
    let value = if negative {
        -magnitude
    } else {
        magnitude
    };
    if digits.len() > 0 && all_digits(digits, radix) && i64::MIN <= value <= i64::MAX {
        Some(value)
    } else {
        None
    }
}

/// The character for the digit `d`, with capital or small letters from ten on.
pub open spec fn digit_char(d: int, capital: bool) -> char {
    if d < 10 {
        ('0' as int + d) as char
    } else if capital {
        ('A' as int + d - 10) as char
    } else {
        ('a' as int + d - 10) as char
    }
}

/// The digits of `n` in the base `radix`, most significant first, without leading zeros; zero
/// is the single digit `0`.
pub open spec fn digits_of(n: int, radix: int, capital: bool) -> Seq<char>
    decreases n,
{
    if n < radix || radix < 2 {
        seq![digit_char(n, capital)]
    } else {
        proof {
            lemma_div_decreases(n, radix);
            lemma_div_pos_is_pos(n, radix);
        }
        digits_of(n / radix, radix, capital).push(digit_char(n % radix, capital))
    }
}

/// The text of `n` in base ten: a minus sign where it is negative, then its digits.
pub open spec fn decimal_text(n: int) -> Seq<char> {
    if n < 0 {
        seq!['-'] + digits_of(-n, 10, false)
    } else {
        digits_of(n, 10, false)
    }
}

/// The unsigned 64-bit number with the same bits as the signed `n` in two's complement.
pub open spec fn twos_complement(n: int) -> int {
    if n < 0 {
        n + 0x1_0000_0000_0000_0000
    } else {
        n
    }
}

/// How a whole number is written in the base `radix`: in base ten with a sign, in any other
/// base as its two's complement pattern with capital letters.
pub open spec fn written(n: int, radix: int) -> Seq<char> {
    if radix == 10 {
        decimal_text(n)
    } else {
        digits_of(twos_complement(n), radix, true)
    }
}

/// What a text is turned into when it is read in the base `from` and written in the base `to`.
pub open spec fn converted(s: Seq<char>, from: int, to: int) -> Option<Seq<char>> {
    match parse_integer(s, from) {
        Some(n) => Some(written(n, to)),
        None => None,
    }
}

/// What `c` is worth as a digit.
pub fn value_of_digit(c: char) -> (d: u32)
    ensures
        d == digit_value(c),
        d <= 36,
{
    if '0' <= c && c <= '9' {
        c as u32 - '0' as u32
    } else if 'a' <= c && c <= 'z' {
        c as u32 - 'a' as u32 + 10
    } else if 'A' <= c && c <= 'Z' {
        c as u32 - 'A' as u32 + 10
    } else {
        36
    }
}

/// The character for the digit `d`.
pub fn char_of_digit(d: u8, capital: bool) -> (c: char)
    requires
        d < 36,
    ensures
        c == digit_char(d as int, capital),
{
    if d < 10 {
        (48u8 + d) as char
    } else if capital {
        (65u8 + d - 10) as char
    } else {
        (97u8 + d - 10) as char
    }
}

/// A run of digits is worth at least as much as any run it starts with.
proof fn lemma_prefix_value(s: Seq<char>, k: int, radix: int)
    requires
        0 <= k <= s.len(),
        radix >= 1,
    ensures
        0 <= digits_value(s.subrange(0, k), radix) <= digits_value(s, radix),
    decreases s.len(),
{
    if k == s.len() {
        assert(s.subrange(0, k) == s);
        lemma_value_nonnegative(s, radix);
    } else {
        let t = s.drop_last();
        assert(t.subrange(0, k) == s.subrange(0, k));
        lemma_prefix_value(t, k, radix);
        let v = digits_value(t, radix);
        assert(v * radix >= v) by (nonlinear_arith)
            requires
                v >= 0,
                radix >= 1,
        ;
    }
}

/// No run of digits is worth less than zero.
proof fn lemma_value_nonnegative(s: Seq<char>, radix: int)
    requires
        radix >= 1,
    ensures
        digits_value(s, radix) >= 0,
    decreases s.len(),
{
    if s.len() > 0 {
        lemma_value_nonnegative(s.drop_last(), radix);
        let v = digits_value(s.drop_last(), radix);
        assert(v * radix >= 0) by (nonlinear_arith)
            requires
                v >= 0,
                radix >= 1,
        ;
    }
}

/// The signed 64-bit integer that `s` spells in the base `radix`, if it spells one.
pub fn read_integer(s: &[char], radix: u32) -> (r: Option<i64>)
    requires
        2 <= radix <= 36,
    ensures
        match r {
            Some(n) => parse_integer(s@, radix as int) == Some(n as int),
            None => parse_integer(s@, radix as int) is None,
        },
{
    let n = s.len();
    let negative = n > 0 && s[0] == '-';
    let start: usize = if n > 0 && sign(s[0]) {
        1
    } else {
        0
    };
    let ghost digits = s@.subrange(start as int, n as int);
    proof {
        if start == 0 {
            assert(digits == s@);
        } else {
            assert(digits == s@.drop_first());
        }
    }
    if start == n {
        return None;
    }
    let limit: u128 = if negative {
        0x8000_0000_0000_0000
    } else {
        0x7FFF_FFFF_FFFF_FFFF
    };
    let mut acc: u128 = 0;
    let mut i: usize = start;
    while i < n
        invariant
            start <= i <= n == s@.len(),
            2 <= radix <= 36,
            digits == s@.subrange(start as int, n as int),
            digits == if s@.len() > 0 && is_sign(s@[0]) {
                s@.drop_first()
            } else {
                s@
            },
            negative == (s@.len() > 0 && s@[0] == '-'),
            limit == if negative {
                0x8000_0000_0000_0000u128
            } else {
                0x7FFF_FFFF_FFFF_FFFFu128
            },
            acc == digits_value(digits.subrange(0, i - start), radix as int),
            acc <= limit <= 0x8000_0000_0000_0000,
            all_digits(digits.subrange(0, i - start), radix as int),
        decreases n - i,
    {
        let d = value_of_digit(s[i]);
        if d >= radix {
            proof {
                assert(digits[i - start] == s@[i as int]);
            }
            return None;
        }
        assert(acc * radix <= 0x8000_0000_0000_0000 * 36) by (nonlinear_arith)
            requires
                acc <= 0x8000_0000_0000_0000,
                radix <= 36,
        ;
        let next: u128 = acc * (radix as u128) + (d as u128);
        proof {
            let before = digits.subrange(0, i - start);
            let after = digits.subrange(0, i - start + 1);
            assert(after.drop_last() == before);
            assert(after.last() == s@[i as int]);
            assert forall|j: int| 0 <= j < after.len() implies digit_value(#[trigger] after[j])
                < radix by {
                if j < before.len() {
                    assert(after[j] == before[j]);
                }
            }
        }
        if next > limit {
            proof {
                lemma_prefix_value(digits, i - start + 1, radix as int);
            }
            return None;
        }
        acc = next;
        i += 1;
    }
    proof {
        assert(digits.subrange(0, n - start) == digits);
    }
    if negative {
        Some((-(acc as i128)) as i64)
    } else {
        Some(acc as i64)
    }
}

/// The digits of `n` in the base `radix`.
pub fn write_digits(n: u64, radix: u64, capital: bool) -> (out: Vec<char>)
    requires
        2 <= radix <= 36,
    ensures
        out@ == digits_of(n as int, radix as int, capital),
{
    let mut out: Vec<char> = Vec::new();
    proof {
        lemma_mod_bound(n as int, radix as int);
    }
    out.push(char_of_digit((n % radix) as u8, capital));
    let mut rest: u64 = n / radix;
    proof {
        if n >= radix {
            lemma_div_non_zero(n as int, radix as int);
            assert(digits_of(n as int, radix as int, capital) == digits_of(
                rest as int,
                radix as int,
                capital,
            ) + out@);
        } else {
            lemma_basic_div(n as int, radix as int);
            lemma_small_mod(n as nat, radix as nat);
        }
    }
    while rest > 0
        invariant
            2 <= radix <= 36,
            rest > 0 ==> digits_of(n as int, radix as int, capital) == digits_of(
                rest as int,
                radix as int,
                capital,
            ) + out@,
            rest == 0 ==> digits_of(n as int, radix as int, capital) == out@,
        decreases rest,
    {
        proof {
            lemma_mod_bound(rest as int, radix as int);
        }
        let c = char_of_digit((rest % radix) as u8, capital);
        let ghost before = out@;
        out.insert(0, c);
        proof {
            assert(out@ == seq![c] + before);
            let whole = digits_of(rest as int, radix as int, capital);
            if rest < radix {
                lemma_basic_div(rest as int, radix as int);
                lemma_small_mod(rest as nat, radix as nat);
                assert(whole == seq![c]);
            } else {
                lemma_div_non_zero(rest as int, radix as int);
                assert(whole + before == digits_of(rest as int / radix as int, radix as int, capital)
                    + out@);
            }
        }
        rest = rest / radix;
    }
    out
}

/// The text of `n` in base ten.
pub fn write_decimal(n: i64) -> (out: Vec<char>)
    ensures
        out@ == decimal_text(n as int),
{
    if n < 0 {
        let magnitude: u64 = (-(n as i128)) as u64;
        let digits = write_digits(magnitude, 10, false);
        let mut out: Vec<char> = Vec::new();
        out.push('-');
        let mut i: usize = 0;
        while i < digits.len()
            invariant
                i <= digits@.len(),
                out@ == seq!['-'] + digits@.subrange(0, i as int),
            decreases digits@.len() - i,
        {
            out.push(digits[i]);
            i += 1;
        }
        proof {
            assert(digits@.subrange(0, digits@.len() as int) == digits@);
        }
        out
    } else {
        write_digits(n as u64, 10, false)
    }
}

/// The two's complement pattern of `n` in the base `radix`, with capital letters.
pub fn write_pattern(n: i64, radix: u64) -> (out: Vec<char>)
    requires
        2 <= radix <= 36,
    ensures
        out@ == digits_of(twos_complement(n as int), radix as int, true),
{
    let pattern: u64 = if n < 0 {
        ((n as i128) + 0x1_0000_0000_0000_0000) as u64
    } else {
        n as u64
    };
    write_digits(pattern, radix, true)
}

/// Reads `text` in the base `from` and writes the value in the base `to`; `None` where the text
/// spells no signed 64-bit integer in the base `from`.
pub fn convert(text: &str, from: u32, to: u32) -> (r: Option<String>)
    requires
        2 <= from <= 36,
        2 <= to <= 36,
    ensures
        match r {
            Some(out) => converted(text@, from as int, to as int) == Some(out@),
            None => converted(text@, from as int, to as int) is None,
        },
{
    let chars = chars_of(text);
    match read_integer(chars.as_slice(), from) {
        Some(n) => {
            let out = if to == 10 {
                write_decimal(n)
            } else {
                write_pattern(n, to as u64)
            };
            Some(string_of(out.as_slice()))
        },
        None => None,
    }
}

/// The base-two pattern of the integer that `text` spells in base ten.
pub fn decimal_to_binary(text: &str) -> (r: Option<String>)
    ensures
        match r {
            Some(out) => converted(text@, 10, 2) == Some(out@),
            None => converted(text@, 10, 2) is None,
        },
{
    convert(text, 10, 2)
}

/// The base-ten text of the integer that `text` spells in base two.
pub fn binary_to_decimal(text: &str) -> (r: Option<String>)
    ensures
        match r {
            Some(out) => converted(text@, 2, 10) == Some(out@),
            None => converted(text@, 2, 10) is None,
        },
{
    convert(text, 2, 10)
}

/// The base-sixteen pattern, in capital letters, of the integer that `text` spells in base ten.
pub fn decimal_to_hex(text: &str) -> (r: Option<String>)
    ensures
        match r {
            Some(out) => converted(text@, 10, 16) == Some(out@),
            None => converted(text@, 10, 16) is None,
        },
{
    convert(text, 10, 16)
}

/// The base-ten text of the integer that `text` spells in base sixteen.
pub fn hex_to_decimal(text: &str) -> (r: Option<String>)
    ensures
        match r {
            Some(out) => converted(text@, 16, 10) == Some(out@),
            None => converted(text@, 16, 10) is None,
        },
{
    convert(text, 16, 10)
}

/// The character for a digit is worth that digit, and is no sign.
proof fn lemma_digit_char_value(d: int, capital: bool)
    requires
        0 <= d < 36,
    ensures
        digit_value(digit_char(d, capital)) == d,
        !is_sign(digit_char(d, capital)),
{
}

/// The digits of a number that is not negative are digits of the base, begin with no sign,
/// and are worth the number.
proof fn lemma_digits_of_value(n: int, radix: int, capital: bool)
    requires
        n >= 0,
        2 <= radix <= 36,
    ensures
        digits_of(n, radix, capital).len() > 0,
        !is_sign(digits_of(n, radix, capital)[0]),
        all_digits(digits_of(n, radix, capital), radix),
        digits_value(digits_of(n, radix, capital), radix) == n,
    decreases n,
{
    let digits = digits_of(n, radix, capital);
    if n < radix {
        lemma_digit_char_value(n, capital);
        assert(digits.drop_last() == Seq::<char>::empty());
        assert(digits_value(digits.drop_last(), radix) == 0);
    } else {
        lemma_div_decreases(n, radix);
        lemma_div_pos_is_pos(n, radix);
        lemma_mod_bound(n, radix);
        lemma_digits_of_value(n / radix, radix, capital);
        lemma_digit_char_value(n % radix, capital);
        let front = digits_of(n / radix, radix, capital);
        let last = digit_char(n % radix, capital);
        assert(digits == front.push(last));
        assert(digits.drop_last() == front);
        assert(digits.last() == last);
        assert(digits[0] == front[0]);
        assert forall|i: int| 0 <= i < digits.len() implies digit_value(#[trigger] digits[i])
            < radix by {
            if i < front.len() {
                assert(digits[i] == front[i]);
            }
        }
        vstd::arithmetic::div_mod::lemma_fundamental_div_mod(n, radix);
        assert((n / radix) * radix == radix * (n / radix)) by (nonlinear_arith);
    }
}

/// The converters undo each other: where a text spells a whole number that is not negative in
/// one base, it can be converted to any other base, and what comes out converts back to the
/// way that number is written in the first base.
pub proof fn law_converters_undo(s: Seq<char>, from: int, to: int)
    requires
        2 <= from <= 36,
        2 <= to <= 36,
        parse_integer(s, from) is Some,
        parse_integer(s, from)->0 >= 0,
    ensures
        converted(s, from, to) == Some(written(parse_integer(s, from)->0, to)),
        converted(written(parse_integer(s, from)->0, to), to, from) == Some(
            written(parse_integer(s, from)->0, from),
        ),
{
    let n = parse_integer(s, from)->0;
    let t = written(n, to);
    lemma_digits_of_value(n, to, to != 10);
    assert(t == digits_of(n, to, to != 10));
    assert(t.len() > 0 && !is_sign(t[0]));
    assert(t[0] != '-');
    assert(parse_integer(t, to) == Some(n));
}

} // verus!
