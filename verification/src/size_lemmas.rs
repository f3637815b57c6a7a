//! What holds of every size string: how written numbers read back, that
//! the case of a unit letter does not matter, and which error a malformed
//! string gets.

use vstd::prelude::*;
use crate::size::{
    all_digits, decimal_digits, decimal_value, digit_char, digit_value, is_digit, is_magnitude,
    magnitude_value, parse_size, unit_of_letter, unsigned_part, ParseError,
};

verus! {

/// The upper-case form of an ASCII letter; any other character is unchanged.
pub open spec fn ascii_upper(c: char) -> char {
    if 'a' as u32 <= c as u32 <= 'z' as u32 {
        (c as u32 - 32) as char
    } else {
        c
    }
}

/// The decimal spelling of a number is made of digits only, is not empty,
/// and reads back as that number.
pub proof fn lemma_decimal_digits_read_back(n: nat)
    ensures
        decimal_digits(n).len() > 0,
        all_digits(decimal_digits(n)),
        decimal_value(decimal_digits(n)) == n,
    decreases n,
{
    if n < 10 {
        let s = decimal_digits(n);
        assert(s.len() == 1 && s[0] == digit_char(n));
        assert(is_digit(digit_char(n)));
        assert(s.drop_last() =~= Seq::<char>::empty());
        assert(decimal_value(s.drop_last()) == 0);
        assert(digit_value(s.last()) == n);
    } else {
        lemma_decimal_digits_read_back(n / 10);
        let head = decimal_digits(n / 10);
        let s = head.push(digit_char(n % 10));
        assert(s == decimal_digits(n));
        assert(is_digit(digit_char(n % 10)));
        assert(s.drop_last() =~= head);
        assert(digit_value(s.last()) == n % 10);
    }
}

/// A number that fits in `usize`, written in decimal, is a magnitude with
/// that number as its value.
pub proof fn lemma_decimal_digits_magnitude(n: nat)
    requires
        n <= usize::MAX,
    ensures
        is_magnitude(decimal_digits(n)),
        magnitude_value(decimal_digits(n)) == n,
{
    lemma_decimal_digits_read_back(n);
    let s = decimal_digits(n);
    assert(is_digit(s[0]));
    assert(unsigned_part(s) == s);
}

/// A number written in decimal and followed by a unit letter parses to the
/// number times the unit's multiplier, whenever that product fits in
/// `usize`.
pub proof fn lemma_parse_number_with_unit(n: nat, letter: char)
    requires
        unit_of_letter(letter) is Some,
        n * unit_of_letter(letter).unwrap().spec_multiplier() <= usize::MAX,
    ensures
        parse_size(decimal_digits(n).push(letter)) == Ok::<usize, ParseError>(
            (n * unit_of_letter(letter).unwrap().spec_multiplier()) as usize,
        ),
{
    let m = unit_of_letter(letter).unwrap().spec_multiplier();
    assert(n <= n * m) by (nonlinear_arith)
        requires
            m >= 1,
    ;
    lemma_decimal_digits_magnitude(n);
    let s = decimal_digits(n).push(letter);
    assert(s.drop_last() =~= decimal_digits(n));
    assert(s.last() == letter);
    assert(!is_digit(letter));
}

/// A number that fits in `usize`, written in decimal with no unit, parses
/// to itself: a bare number counts bytes.
pub proof fn lemma_parse_bare_number(n: nat)
    requires
        n <= usize::MAX,
    ensures
        parse_size(decimal_digits(n)) == Ok::<usize, ParseError>(n as usize),
{
    lemma_decimal_digits_read_back(n);
    lemma_decimal_digits_magnitude(n);
    let s = decimal_digits(n);
    assert(is_digit(s.last()));
    assert(n * 1 == n);
}

/// The case of the last character never changes the outcome: a string and
/// the same string with its last character in upper case parse alike.
pub proof fn lemma_unit_case_insensitive(prefix: Seq<char>, last: char)
    ensures
        parse_size(prefix.push(ascii_upper(last))) == parse_size(prefix.push(last)),
{
    let upper = ascii_upper(last);
    assert(prefix.push(upper).drop_last() =~= prefix);
    assert(prefix.push(last).drop_last() =~= prefix);
    assert(prefix.push(upper).last() == upper);
    assert(prefix.push(last).last() == last);
    if 'a' as u32 <= last as u32 <= 'z' as u32 {
        assert(upper as u32 == last as u32 - 32);
        assert(!is_digit(upper) && !is_digit(last));
        assert(unit_of_letter(upper) == unit_of_letter(last));
    }
}

/// A good magnitude followed by a character that is neither a digit nor a
/// unit letter is an invalid unit.
pub proof fn lemma_unknown_unit_rejected(prefix: Seq<char>, last: char)
    requires
        is_magnitude(prefix),
        !is_digit(last),
        unit_of_letter(last) is None,
    ensures
        parse_size(prefix.push(last)) == Err::<usize, ParseError>(ParseError::InvalidUnit),
{
    assert(prefix.push(last).drop_last() =~= prefix);
    assert(prefix.push(last).last() == last);
}

/// Anything but a good magnitude in front of the last character is an
/// invalid number, whatever that last character is, unit letter or not.
pub proof fn lemma_bad_magnitude_rejected(prefix: Seq<char>, last: char)
    requires
        !is_magnitude(prefix),
        !is_digit(last),
    ensures
        parse_size(prefix.push(last)) == Err::<usize, ParseError>(ParseError::InvalidNumber),
{
    assert(prefix.push(last).drop_last() =~= prefix);
    assert(prefix.push(last).last() == last);
}

} // verus!
