//! Reading the numbers that are given on a command line.

use crate::numeral::{digits, lemma_digits_round_trip, numeral_usize, parse_unsigned};
use vstd::prelude::*;

verus! {

/// Whether `s` starts with the hexadecimal prefix `0x`.
pub open spec fn has_hex_prefix(s: Seq<char>) -> bool {
    s.len() >= 2 && s[0] == '0' && s[1] == 'x'
}

/// The number that the argument `s` stands for: after `0x` a hexadecimal
/// numeral, otherwise a decimal one. An argument that is no numeral, or
/// whose number is too large, stands for zero.
pub open spec fn argument_value(s: Seq<char>) -> usize {
    let parsed = if has_hex_prefix(s) {
        numeral_usize(s.skip(2), 16)
    } else {
        numeral_usize(s, 10)
    };
    match parsed {
        Some(value) => value,
        None => 0,
    }
}

/// A number that is written out as an argument is read back: in hexadecimal
/// after `0x`, with the letters in either case, and in decimal as it stands.
pub proof fn lemma_argument_round_trip(v: usize, uppercase: bool)
    ensures
        argument_value("0x"@ + digits(v as nat, 16, uppercase)) == v,
        argument_value(digits(v as nat, 10, uppercase)) == v,
{
    reveal_strlit("0x");
    let hex = digits(v as nat, 16, uppercase);
    lemma_digits_round_trip(v as nat, 16, uppercase);
    assert(("0x"@ + hex).skip(2) =~= hex);
    let decimal = digits(v as nat, 10, uppercase);
    lemma_digits_round_trip(v as nat, 10, uppercase);
    if decimal.len() >= 2 {
        // The second character is a decimal digit, and `x` is none.
        assert(crate::numeral::is_digit(decimal[1], 10));
    }
}

/// Reads a numeric argument, hexadecimal with the prefix `0x` and decimal
/// without. Never fails: what cannot be read is zero.
pub fn parse_hex(arg: &str) -> (value: usize)
    ensures
        value == argument_value(arg@),
{
    let len = arg.unicode_len();
    let parsed = if len >= 2 && arg.get_char(0) == '0' && arg.get_char(1) == 'x' {
        let tail = arg.substring_char(2, len);
        assert(tail@ =~= arg@.skip(2));
        parse_unsigned(tail, 16)
    } else {
        parse_unsigned(arg, 10)
    };
    match parsed {
        Some(value) => value,
        None => 0,
    }
}

} // verus!
