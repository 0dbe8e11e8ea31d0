//! Numbers as the engine carries them.
//!
//! The engine reads numbers and hands them on; it never does arithmetic on them. A number is
//! therefore held in one of two exact forms: the decimal literal as it was written, or the
//! IEEE 754 binary64 bit pattern of a value that was computed elsewhere. What the engine has
//! to decide about a number it decides on these forms alone: whether a text is a literal at
//! all, and, of a bit pattern, whether the value is greater than zero or equal to one.

use crate::text::chars_of;
use crate::text::copy_range;
use crate::text::string_of;
use vstd::prelude::*;

verus! {

/// The bit pattern of positive zero.
pub const ZERO_BITS: u64 = 0;

/// The bit pattern of one.
pub const ONE_BITS: u64 = 0x3FF0_0000_0000_0000;

/// The bit pattern of positive infinity, the largest pattern that is not negative and no NaN.
pub const INFINITY_BITS: u64 = 0x7FF0_0000_0000_0000;

/// An ASCII decimal digit.
pub open spec fn is_digit(c: char) -> bool {
    '0' <= c <= '9'
}

/// A plus or minus sign.
pub open spec fn is_sign(c: char) -> bool {
    c == '+' || c == '-'
}

/// `c` with an ASCII capital letter turned into its small letter.
pub open spec fn lowered(c: char) -> char {
    if 'A' <= c <= 'Z' {
        ((c as u8) + 32) as char
    } else {
        c
    }
}

/// The end of the longest run of digits of `s` that starts at `from`.
pub open spec fn digit_run(s: Seq<char>, from: int) -> int
    decreases s.len() - from,
{
    if 0 <= from < s.len() && is_digit(s[from]) {
        digit_run(s, from + 1)
    } else {
        from
    }
}

/// `s` spells `word` when capital letters count as small ones.
pub open spec fn spells(s: Seq<char>, word: Seq<char>) -> bool {
    s.len() == word.len() && forall|i: int| 0 <= i < s.len() ==> lowered(#[trigger] s[i]) == word[i]
}

/// One of the three words for a value that is no decimal number.
pub open spec fn is_special(s: Seq<char>) -> bool {
    spells(s, seq!['i', 'n', 'f']) || spells(s, seq!['i', 'n', 'f', 'i', 'n', 'i', 't', 'y'])
        || spells(s, seq!['n', 'a', 'n'])
}

/// An exponent: the letter `e`, an optional sign, and at least one digit.
pub open spec fn is_exponent(s: Seq<char>) -> bool {
    let k: int = if s.len() > 1 && is_sign(s[1]) {
        2
    } else {
        1
    };
    s.len() > 0 && lowered(s[0]) == 'e' && k < s.len() && digit_run(s, k) == s.len()
}

/// A decimal number: digits, with a point somewhere among them or after them or before them,
/// at least one digit in all, and an optional exponent.
pub open spec fn is_decimal(s: Seq<char>) -> bool {
    let whole = digit_run(s, 0);
    let pointed = whole < s.len() && s[whole] == '.';
    let end = if pointed {
        digit_run(s, whole + 1)
    } else {
        whole
    };
    let digits = if pointed {
        end - 1
    } else {
        end
    };
    digits > 0 && (end == s.len() || is_exponent(s.subrange(end, s.len() as int)))
}

/// The texts that are read as a 64-bit floating-point number: an optional sign, then `inf`,
/// `infinity` or `nan` in any mix of capital and small letters, or a decimal number. No space
/// may stand before, within or after.
pub open spec fn is_float_literal(s: Seq<char>) -> bool {
    let body = if s.len() > 0 && is_sign(s[0]) {
        s.drop_first()
    } else {
        s
    };
    is_special(body) || is_decimal(body)
}

/// The value with this bit pattern is greater than zero: it is no NaN, its sign bit is clear
/// and it is not zero. Positive infinity is greater than zero.
pub open spec fn is_positive_bits(bits: u64) -> bool {
    0 < bits <= INFINITY_BITS
}

/// The value with this bit pattern equals one. One has a single bit pattern.
pub open spec fn is_one_bits(bits: u64) -> bool {
    bits == ONE_BITS
}

/// The two forms of a number.
#[derive(Debug, Clone, PartialEq)]
pub enum NumberForm {
    /// The decimal literal, character for character.
    Literal(String),
    /// The IEEE 754 binary64 bit pattern.
    Bits(u64),
}

/// What a number holds, with the literal as a sequence of characters.
pub enum NumberView {
    Literal(Seq<char>),
    Bits(u64),
}

impl View for NumberForm {
    type V = NumberView;

    open spec fn view(&self) -> NumberView {
        match self {
            NumberForm::Literal(text) => NumberView::Literal(text@),
            NumberForm::Bits(bits) => NumberView::Bits(*bits),
        }
    }
}

impl NumberView {
    /// A literal is a text that reads as a number; every bit pattern is a number.
    pub open spec fn wf(self) -> bool {
        match self {
            NumberView::Literal(text) => is_float_literal(text),
            NumberView::Bits(_) => true,
        }
    }
}

/// A number: a literal as written, or the bit pattern of a computed value. A literal always
/// reads as a number: no other text can be made into one.
#[derive(Debug, PartialEq)]
pub struct Number {
    form: NumberForm,
}

impl View for Number {
    type V = NumberView;

    closed spec fn view(&self) -> NumberView {
        self.form@
    }
}

impl Clone for Number {
    fn clone(&self) -> (r: Number)
        ensures
            r@ == self@,
    {
        self.duplicate()
    }
}

impl Number {
    /// What every number satisfies.
    #[verifier::type_invariant]
    spec fn reads_as_number(self) -> bool {
        self.form@.wf()
    }

    /// The number zero, as a bit pattern.
    pub fn zero() -> (r: Number)
        ensures
            r@ == NumberView::Bits(ZERO_BITS),
    {
        Number { form: NumberForm::Bits(ZERO_BITS) }
    }

    /// The number with the bit pattern `bits`.
    pub fn from_bits(bits: u64) -> (r: Number)
        ensures
            r@ == NumberView::Bits(bits),
    {
        Number { form: NumberForm::Bits(bits) }
    }

    /// The number that is written as `text`, a text that reads as a number.
    pub(crate) fn from_literal(text: &[char]) -> (r: Number)
        requires
            is_float_literal(text@),
        ensures
            r@ == NumberView::Literal(text@),
    {
        Number { form: NumberForm::Literal(string_of(text)) }
    }

    /// The number that is written as `text`, if `text` reads as a number.
    pub fn read(text: &str) -> (r: Option<Number>)
        ensures
            match r {
                Some(n) => is_float_literal(text@) && n@ == NumberView::Literal(text@),
                None => !is_float_literal(text@),
            },
    {
        let chars = chars_of(text);
        if float_literal(chars.as_slice()) {
            Some(Number::from_literal(chars.as_slice()))
        } else {
            None
        }
    }

    /// The form of this number: its literal or its bit pattern.
    pub fn form(&self) -> (r: NumberForm)
        ensures
            r@ == self@,
            self@.wf(),
    {
        proof {
            use_type_invariant(self);
        }
        match &self.form {
            NumberForm::Literal(text) => NumberForm::Literal(text.clone()),
            NumberForm::Bits(bits) => NumberForm::Bits(*bits),
        }
    }

    /// A copy of this number.
    pub fn duplicate(&self) -> (r: Number)
        ensures
            r@ == self@,
    {
        proof {
            use_type_invariant(self);
        }
        match &self.form {
            NumberForm::Literal(text) => Number { form: NumberForm::Literal(text.clone()) },
            NumberForm::Bits(bits) => Number { form: NumberForm::Bits(*bits) },
        }
    }
}

/// Whether `c` is an ASCII decimal digit.
pub fn digit(c: char) -> (r: bool)
    ensures
        r == is_digit(c),
{
    '0' <= c && c <= '9'
}

/// Whether `c` is a plus or minus sign.
pub fn sign(c: char) -> (r: bool)
    ensures
        r == is_sign(c),
{
    c == '+' || c == '-'
}

/// `c` with an ASCII capital letter turned into its small letter.
pub fn lower(c: char) -> (r: char)
    ensures
        r == lowered(c),
{
    if 'A' <= c && c <= 'Z' {
        ((c as u8) + 32) as char
    } else {
        c
    }
}

/// The end of the longest run of digits of `s` that starts at `from`.
pub fn scan_digits(s: &[char], from: usize) -> (end: usize)
    requires
        from <= s@.len(),
    ensures
        end == digit_run(s@, from as int),
        from <= end <= s@.len(),
{
    let mut i: usize = from;
    while i < s.len() && digit(s[i])
        invariant
            from <= i <= s@.len(),
            digit_run(s@, from as int) == digit_run(s@, i as int),
        decreases s@.len() - i,
    {
        i += 1;
    }
    i
}

/// Whether `s` spells `word` when capital letters count as small ones.
fn spells_word(s: &[char], word: &[char]) -> (r: bool)
    ensures
        r == spells(s@, word@),
{
    if s.len() != word.len() {
        return false;
    }
    let mut i: usize = 0;
    while i < s.len()
        invariant
            i <= s@.len() == word@.len(),
            forall|j: int| 0 <= j < i ==> lowered(#[trigger] s@[j]) == word@[j],
        decreases s@.len() - i,
    {
        if lower(s[i]) != word[i] {
            return false;
        }
        i += 1;
    }
    true
}

/// Whether `s` is `inf`, `infinity` or `nan`, in any mix of capital and small letters.
fn special(s: &[char]) -> (r: bool)
    ensures
        r == is_special(s@),
{
    let inf: [char; 3] = ['i', 'n', 'f'];
    let infinity: [char; 8] = ['i', 'n', 'f', 'i', 'n', 'i', 't', 'y'];
    let nan: [char; 3] = ['n', 'a', 'n'];
    proof {
        assert(inf@ == seq!['i', 'n', 'f']);
        assert(infinity@ == seq!['i', 'n', 'f', 'i', 'n', 'i', 't', 'y']);
        assert(nan@ == seq!['n', 'a', 'n']);
    }
    spells_word(s, inf.as_slice()) || spells_word(s, infinity.as_slice()) || spells_word(
        s,
        nan.as_slice(),
    )
}

/// A digit run of a text from `from` on is the digit run of its tail, moved by `from`.
proof fn lemma_digit_run_tail(s: Seq<char>, from: int, at: int)
    requires
        0 <= from <= at <= s.len(),
    ensures
        digit_run(s.subrange(from, s.len() as int), at - from) == digit_run(s, at) - from,
    decreases s.len() - at,
{
    let t = s.subrange(from, s.len() as int);
    if at < s.len() && is_digit(s[at]) {
        assert(t[at - from] == s[at]);
        lemma_digit_run_tail(s, from, at + 1);
    }
}

/// Whether `s[from..]` is an exponent.
fn exponent(s: &[char], from: usize) -> (r: bool)
    requires
        from <= s@.len(),
    ensures
        r == is_exponent(s@.subrange(from as int, s@.len() as int)),
{
    let n = s.len();
    let ghost tail = s@.subrange(from as int, n as int);
    if from >= n || lower(s[from]) != 'e' {
        return false;
    }
    let mut k: usize = from + 1;
    if k < n && sign(s[k]) {
        k += 1;
    }
    if k >= n {
        return false;
    }
    let end = scan_digits(s, k);
    proof {
        assert(tail[0] == s@[from as int]);
        if from + 1 < n {
            assert(tail[1] == s@[from + 1]);
        }
        lemma_digit_run_tail(s@, from as int, k as int);
    }
    end == n
}

/// Whether `s[from..]` is a decimal number.
fn decimal(s: &[char], from: usize) -> (r: bool)
    requires
        from <= s@.len(),
    ensures
        r == is_decimal(s@.subrange(from as int, s@.len() as int)),
{
    let n = s.len();
    let ghost tail = s@.subrange(from as int, n as int);
    let whole = scan_digits(s, from);
    proof {
        lemma_digit_run_tail(s@, from as int, from as int);
        if whole < n {
            assert(tail[whole - from] == s@[whole as int]);
        }
    }
    let pointed = whole < n && s[whole] == '.';
    let end = if pointed {
        let e = scan_digits(s, whole + 1);
        proof {
            lemma_digit_run_tail(s@, from as int, whole + 1);
        }
        e
    } else {
        whole
    };
    let digits = if pointed {
        end - from - 1
    } else {
        end - from
    };
    if digits == 0 {
        return false;
    }
    if end == n {
        return true;
    }
    proof {
        assert(tail.subrange(end - from, tail.len() as int) == s@.subrange(end as int, n as int));
    }
    exponent(s, end)
}

/// Whether `s` is read as a 64-bit floating-point number.
pub fn float_literal(s: &[char]) -> (r: bool)
    ensures
        r == is_float_literal(s@),
{
    let n = s.len();
    let from: usize = if n > 0 && sign(s[0]) {
        1
    } else {
        0
    };
    let body = copy_range(s, from, n);
    proof {
        if from == 0 {
            assert(s@.subrange(0, n as int) == s@);
        } else {
            assert(s@.subrange(1, n as int) == s@.drop_first());
        }
        assert(body@.subrange(0, body@.len() as int) == body@);
    }
    special(body.as_slice()) || decimal(body.as_slice(), 0)
}

/// Whether the value with this bit pattern is greater than zero.
pub fn positive_bits(bits: u64) -> (r: bool)
    ensures
        r == is_positive_bits(bits),
{
    0 < bits && bits <= INFINITY_BITS
}

/// Whether the value with this bit pattern equals one.
pub fn one_bits(bits: u64) -> (r: bool)
    ensures
        r == is_one_bits(bits),
{
    bits == ONE_BITS
}

} // verus!
