//! Digits and the strings built from them.

use vstd::prelude::*;

verus! {

/// `String::push` appends the given character to the end of the string and
/// leaves the characters before it as they were.
pub assume_specification[ String::push ](s: &mut String, ch: char)
    ensures
        final(s)@ == old(s)@.push(ch),
;

/// The lowercase digit that stands for `value` in bases up to sixteen:
/// `'0'` to `'9'` for zero to nine, `'a'` to `'f'` for ten to fifteen.
pub open spec fn digit(value: int) -> char {
    if value < 10 {
        ('0' as int + value) as char
    } else {
        ('a' as int + value - 10) as char
    }
}

/// The value that a lowercase hexadecimal digit stands for.
pub open spec fn digit_value(c: char) -> int {
    if '0' <= c <= '9' {
        c as int - '0' as int
    } else {
        c as int - 'a' as int + 10
    }
}

/// Whether `c` is one of `0`-`9` or `a`-`f`.
pub open spec fn is_lower_hex(c: char) -> bool {
    '0' <= c <= '9' || 'a' <= c <= 'f'
}

/// The two lowercase hexadecimal digits of a byte, the high one first.
pub open spec fn hex_pair(byte: int) -> Seq<char> {
    seq![digit(byte / 16), digit(byte % 16)]
}

/// The decimal numeral of `n`: no sign, no leading zeros.
pub open spec fn decimal(n: nat) -> Seq<char>
    decreases n,
{
    if n < 10 {
        seq![digit(n as int)]
    } else {
        decimal(n / 10).push(digit((n % 10) as int))
    }
}

/// The byte that two hexadecimal digits stand for, the high one first.
pub open spec fn byte_of_digits(high: char, low: char) -> int {
    16 * digit_value(high) + digit_value(low)
}

/// Every digit below sixteen is one of `0`-`9`, `a`-`f`, and stands for its
/// value.
pub proof fn lemma_digit_reads_back(value: int)
    requires
        0 <= value < 16,
    ensures
        is_lower_hex(digit(value)),
        digit_value(digit(value)) == value,
{
}

/// Computes `digit(value)`.
pub(crate) fn digit_char(value: u8) -> (c: char)
    requires
        value < 16,
    ensures
        c == digit(value as int),
{
    if value < 10 {
        ('0' as u8 + value) as char
    } else {
        ('a' as u8 + (value - 10)) as char
    }
}

/// Appends the two hexadecimal digits of `byte` to `s`.
pub(crate) fn push_hex_pair(s: &mut String, byte: u8)
    ensures
        final(s)@ == old(s)@ + hex_pair(byte as int),
{
    s.push(digit_char(byte / 16));
    s.push(digit_char(byte % 16));
    assert(s@ =~= old(s)@ + hex_pair(byte as int));
}

/// Appends the decimal numeral of `n` to `s`.
pub(crate) fn push_decimal(s: &mut String, n: u16)
    ensures
        final(s)@ == old(s)@ + decimal(n as nat),
    decreases n,
{
    if n >= 10 {
        push_decimal(s, n / 10);
    }
    s.push(digit_char((n % 10) as u8));
    assert(s@ =~= old(s)@ + decimal(n as nat));
}

} // verus!
