//! Building text: single characters, runs of one character, and numerals.

use vstd::prelude::*;
use vstd::string::*;

verus! {

/// `String::push` appends the given character to the end of the string.
pub assume_specification[ String::push ](s: &mut String, ch: char)
    ensures
        final(s)@ == old(s)@.push(ch),
;

/// The characters of a text that may be absent.
pub open spec fn chars_of(text: Option<&str>) -> Option<Seq<char>> {
    match text {
        Some(text) => Some(text@),
        None => None,
    }
}

/// `count` copies of `ch`.
pub open spec fn repeat(ch: char, count: nat) -> Seq<char> {
    Seq::new(count, |i: int| ch)
}

/// Appends `count` copies of `ch` to `out`.
pub fn push_repeat(out: &mut String, ch: char, count: usize)
    ensures
        final(out)@ == old(out)@ + repeat(ch, count as nat),
{
    let mut done: usize = 0;
    while done < count
        invariant
            done <= count,
            out@ == old(out)@ + repeat(ch, done as nat),
        decreases count - done,
    {
        out.push(ch);
        done = done + 1;
    }
}

/// The character for the digit `d` of a numeral: `0` to `9`, then letters from
/// `a` (from `A` where `upper` is set).
pub open spec fn digit_char(d: nat, upper: bool) -> char {
    if d < 10 {
        (48 + d) as char
    } else if upper {
        (55 + d) as char
    } else {
        (87 + d) as char
    }
}

/// The decimal numeral of `n`, most significant digit first, without leading
/// zeros; the numeral of zero is the single digit `0`.
pub open spec fn decimal(n: nat) -> Seq<char>
    decreases n,
{
    if n < 10 {
        seq![digit_char(n, false)]
    } else {
        decimal(n / 10).push(digit_char(n % 10, false))
    }
}

/// The hexadecimal numeral of `n` with the letters `A` to `F`, most
/// significant digit first, without leading zeros; the numeral of zero is the
/// single digit `0`.
pub open spec fn upper_hex(n: nat) -> Seq<char>
    decreases n,
{
    if n < 16 {
        seq![digit_char(n, true)]
    } else {
        upper_hex(n / 16).push(digit_char(n % 16, true))
    }
}

/// The number of digits of the hexadecimal numeral of `n`.
pub open spec fn hex_len(n: u32) -> nat {
    if n < 0x10 {
        1
    } else if n < 0x100 {
        2
    } else if n < 0x1000 {
        3
    } else if n < 0x1_0000 {
        4
    } else if n < 0x10_0000 {
        5
    } else if n < 0x100_0000 {
        6
    } else if n < 0x1000_0000 {
        7
    } else {
        8
    }
}

/// The hexadecimal numeral of a 32-bit number has `hex_len` digits.
pub proof fn lemma_upper_hex_len(n: u32)
    ensures
        upper_hex(n as nat).len() == hex_len(n),
{
    reveal_with_fuel(upper_hex, 8);
}

/// Whether `ch` is a digit of an upper-case hexadecimal numeral.
pub open spec fn is_upper_hex_digit(ch: char) -> bool {
    ('0' <= ch <= '9') || ('A' <= ch <= 'F')
}

/// Whether `ch` is a digit of a lower-case hexadecimal numeral.
pub open spec fn is_lower_hex_digit(ch: char) -> bool {
    ('0' <= ch <= '9') || ('a' <= ch <= 'f')
}

/// Whether `ch` is a decimal digit.
pub open spec fn is_decimal_digit(ch: char) -> bool {
    '0' <= ch <= '9'
}

/// The number that the digit `ch` of a numeral stands for.
pub open spec fn digit_value(ch: char) -> nat {
    if '0' <= ch <= '9' {
        (ch as nat - 48) as nat
    } else if 'A' <= ch <= 'F' {
        (ch as nat - 55) as nat
    } else {
        (ch as nat - 87) as nat
    }
}

/// The number that the hexadecimal numeral `digits` stands for.
pub open spec fn hex_value(digits: Seq<char>) -> nat
    decreases digits.len(),
{
    if digits.len() == 0 {
        0
    } else {
        hex_value(digits.drop_last()) * 16 + digit_value(digits.last())
    }
}

/// The number that the decimal numeral `digits` stands for.
pub open spec fn decimal_value(digits: Seq<char>) -> nat
    decreases digits.len(),
{
    if digits.len() == 0 {
        0
    } else {
        decimal_value(digits.drop_last()) * 10 + digit_value(digits.last())
    }
}

/// A digit's character stands for that digit, and is a character of the
/// numerals of its kind.
pub proof fn lemma_digit_char(d: nat, upper: bool)
    requires
        d < 16,
    ensures
        digit_value(digit_char(d, upper)) == d,
        upper ==> is_upper_hex_digit(digit_char(d, upper)),
        !upper ==> is_lower_hex_digit(digit_char(d, upper)),
        d < 10 ==> is_decimal_digit(digit_char(d, upper)),
{
}

/// The hexadecimal numeral of `n` is made of hexadecimal digits, begins with
/// a zero only where `n` is zero, and stands for `n`.
pub proof fn lemma_upper_hex(n: nat)
    ensures
        upper_hex(n).len() >= 1,
        forall|i: int| 0 <= i < upper_hex(n).len() ==> is_upper_hex_digit(#[trigger] upper_hex(n)[i]),
        upper_hex(n)[0] == '0' <==> n == 0,
        hex_value(upper_hex(n)) == n,
    decreases n,
{
    if n < 16 {
        lemma_digit_char(n, true);
        assert(upper_hex(n).drop_last() == Seq::<char>::empty());
        assert(hex_value(upper_hex(n)) == hex_value(Seq::<char>::empty()) * 16 + n);
    } else {
        lemma_upper_hex(n / 16);
        lemma_digit_char(n % 16, true);
        assert(upper_hex(n).drop_last() == upper_hex(n / 16));
    }
}

/// The decimal numeral of `n` is made of decimal digits, begins with a zero
/// only where `n` is zero, and stands for `n`.
pub proof fn lemma_decimal(n: nat)
    ensures
        decimal(n).len() >= 1,
        forall|i: int| 0 <= i < decimal(n).len() ==> is_decimal_digit(#[trigger] decimal(n)[i]),
        decimal(n)[0] == '0' <==> n == 0,
        decimal_value(decimal(n)) == n,
    decreases n,
{
    if n < 10 {
        lemma_digit_char(n, false);
        assert(decimal(n).drop_last() == Seq::<char>::empty());
        assert(decimal_value(decimal(n)) == decimal_value(Seq::<char>::empty()) * 10 + n);
    } else {
        lemma_decimal(n / 10);
        lemma_digit_char(n % 10, false);
        assert(decimal(n).drop_last() == decimal(n / 10));
    }
}

/// Zeros in front of a hexadecimal numeral do not change what it stands for.
pub proof fn lemma_hex_value_zeros(count: nat, digits: Seq<char>)
    ensures
        hex_value(repeat('0', count) + digits) == hex_value(digits),
    decreases digits.len(), count,
{
    let all = repeat('0', count) + digits;
    if digits.len() == 0 {
        assert(all == repeat('0', count));
        if count > 0 {
            assert(all.drop_last() == repeat('0', (count - 1) as nat));
            lemma_hex_value_zeros((count - 1) as nat, digits);
            assert(repeat('0', (count - 1) as nat) + digits == repeat('0', (count - 1) as nat));
        }
    } else {
        assert(all.drop_last() == repeat('0', count) + digits.drop_last());
        lemma_hex_value_zeros(count, digits.drop_last());
    }
}

/// Whether `digits` is made of digits of upper-case hexadecimal numerals.
pub open spec fn is_upper_hex(digits: Seq<char>) -> bool {
    forall|i: int| 0 <= i < digits.len() ==> is_upper_hex_digit(#[trigger] digits[i])
}

/// Whether `a` and `b` are alike before the place `i` and `a` has the smaller
/// character there.
pub open spec fn smaller_at(a: Seq<char>, b: Seq<char>, i: int) -> bool {
    &&& 0 <= i < a.len()
    &&& i < b.len()
    &&& a.take(i) == b.take(i)
    &&& a[i] < b[i]
}

/// Whether `a` comes before `b` in the order that puts a shorter text first
/// and, of two texts of one length, the one with the smaller character at the
/// first place where they differ.
pub open spec fn precedes(a: Seq<char>, b: Seq<char>) -> bool {
    a.len() < b.len() || (a.len() == b.len() && exists|i: int| smaller_at(a, b, i))
}

/// Two hexadecimal numerals of one length that stand for the same number are
/// the same numeral.
pub proof fn lemma_hex_value_one_to_one(a: Seq<char>, b: Seq<char>)
    requires
        is_upper_hex(a),
        is_upper_hex(b),
        a.len() == b.len(),
        hex_value(a) == hex_value(b),
    ensures
        a == b,
    decreases a.len(),
{
    if a.len() > 0 {
        assert(is_upper_hex_digit(a.last()) && is_upper_hex_digit(b.last()));
        assert(is_upper_hex(a.drop_last()) && is_upper_hex(b.drop_last()));
        lemma_hex_value_one_to_one(a.drop_last(), b.drop_last());
        assert(a == a.drop_last().push(a.last()));
        assert(b == b.drop_last().push(b.last()));
    }
}

/// Of two hexadecimal numerals of one length, the one that stands for the
/// smaller number has the smaller character at the first place where they
/// differ.
pub proof fn lemma_hex_value_ordered(a: Seq<char>, b: Seq<char>)
    requires
        is_upper_hex(a),
        is_upper_hex(b),
        a.len() == b.len(),
        hex_value(a) < hex_value(b),
    ensures
        exists|i: int| smaller_at(a, b, i),
    decreases a.len(),
{
    if a.len() > 0 {
        let front_a = a.drop_last();
        let front_b = b.drop_last();
        assert(is_upper_hex_digit(a.last()) && is_upper_hex_digit(b.last()));
        assert(is_upper_hex(front_a) && is_upper_hex(front_b));
        if hex_value(front_a) < hex_value(front_b) {
            lemma_hex_value_ordered(front_a, front_b);
            let i = choose|i: int| smaller_at(front_a, front_b, i);
            assert(a.take(i) == front_a.take(i));
            assert(b.take(i) == front_b.take(i));
            assert(smaller_at(a, b, i));
        } else {
            lemma_hex_value_one_to_one(front_a, front_b);
            assert(a.take(a.len() - 1) == front_a);
            assert(b.take(a.len() - 1) == front_b);
            assert(smaller_at(a, b, a.len() - 1));
        }
    }
}

/// The character of one digit of a numeral.
pub(crate) fn digit(d: u8, upper: bool) -> (r: char)
    requires
        d < 16,
    ensures
        r == digit_char(d as nat, upper),
{
    if d < 10 {
        (48 + d) as char
    } else if upper {
        (55 + d) as char
    } else {
        (87 + d) as char
    }
}

/// Appends the decimal numeral of `n` to `out`.
pub fn push_decimal(out: &mut String, n: u16)
    ensures
        final(out)@ == old(out)@ + decimal(n as nat),
    decreases n,
{
    if n >= 10 {
        push_decimal(out, n / 10);
    }
    let d: u16 = n % 10;
    out.push(digit(d as u8, false));
}

/// Appends the upper-case hexadecimal numeral of `n` to `out`.
pub fn push_upper_hex(out: &mut String, n: u32)
    ensures
        final(out)@ == old(out)@ + upper_hex(n as nat),
    decreases n,
{
    if n >= 16 {
        push_upper_hex(out, n / 16);
    }
    let d: u32 = n % 16;
    out.push(digit(d as u8, true));
}

} // verus!
