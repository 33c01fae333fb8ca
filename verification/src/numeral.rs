//! Numerals: the digits of a number in a radix, written out and read back.
//!
//! A radix is between 2 and 36. The digits are `0` to `9` and then the
//! letters, which count from ten; in reading, the case of a letter makes no
//! difference.

use vstd::prelude::*;

verus! {

/// The character that stands for the digit `d`: `0` to `9`, then the letters
/// from `A` (or from `a`) on.
pub open spec fn digit_char(d: int, uppercase: bool) -> char
    recommends
        0 <= d < 36,
{
    if d < 10 {
        ('0' as int + d) as char
    } else if uppercase {
        ('A' as int + d - 10) as char
    } else {
        ('a' as int + d - 10) as char
    }
}

/// The digits of `v` in `radix`, most significant first, without leading
/// zeros; zero is the single digit `0`.
pub open spec fn digits(v: nat, radix: nat, uppercase: bool) -> Seq<char>
    recommends
        2 <= radix <= 36,
    decreases v,
{
    if radix < 2 || v < radix {
        seq![digit_char(v as int, uppercase)]
    } else {
        proof {
            lemma_quotient_smaller(v, radix);
        }
        digits(v / radix, radix, uppercase).push(digit_char((v % radix) as int, uppercase))
    }
}

/// The value of `c` as a digit: `0` to `9` count from zero, the letters of
/// either case from ten. Any other character is no digit.
pub open spec fn digit_value(c: char) -> Option<nat> {
    if '0' <= c <= '9' {
        Some((c as int - '0' as int) as nat)
    } else if 'a' <= c <= 'z' {
        Some((c as int - 'a' as int + 10) as nat)
    } else if 'A' <= c <= 'Z' {
        Some((c as int - 'A' as int + 10) as nat)
    } else {
        None
    }
}

/// Whether `c` is a digit of `radix`.
pub open spec fn is_digit(c: char, radix: nat) -> bool {
    digit_value(c) matches Some(d) && d < radix
}

/// Whether `s` holds digits of `radix` and nothing else.
pub open spec fn all_digits(s: Seq<char>, radix: nat) -> bool {
    forall|i: int| 0 <= i < s.len() ==> is_digit(#[trigger] s[i], radix)
}

/// The number that the digits `s` write in `radix`, most significant first.
pub open spec fn digits_value(s: Seq<char>, radix: nat) -> nat
    recommends
        all_digits(s, radix),
    decreases s.len(),
{
    if s.len() == 0 {
        0
    } else {
        digits_value(s.drop_last(), radix) * radix + digit_value(s.last()).unwrap_or(0)
    }
}

/// What is left of a numeral once its sign is taken off: a leading `+` is
/// allowed and carries no meaning.
pub open spec fn unsigned_part(s: Seq<char>) -> Seq<char> {
    if s.len() > 0 && s[0] == '+' {
        s.skip(1)
    } else {
        s
    }
}

/// The number that the numeral `s` writes in `radix`: an optional `+`, then
/// one digit or more, and nothing else. Any other text is no numeral.
pub open spec fn numeral_value(s: Seq<char>, radix: nat) -> Option<nat> {
    let body = unsigned_part(s);
    if body.len() > 0 && all_digits(body, radix) {
        Some(digits_value(body, radix))
    } else {
        None
    }
}

/// The numeral `s` as a `usize`: its value where that fits, else nothing.
pub open spec fn numeral_usize(s: Seq<char>, radix: nat) -> Option<usize> {
    match numeral_value(s, radix) {
        Some(v) if v <= usize::MAX => Some(v as usize),
        _ => None,
    }
}

/// Dividing a number by a radix of at least two makes it smaller, unless it
/// is zero.
pub proof fn lemma_quotient_smaller(v: nat, radix: nat)
    requires
        2 <= radix,
        0 < v,
    ensures
        v / radix < v,
{
    assert(v / radix < v) by (nonlinear_arith)
        requires
            2 <= radix,
            0 < v,
    ;
}

/// The character of a digit is read back as that digit, in either case.
pub proof fn lemma_digit_char_value(d: nat, uppercase: bool)
    requires
        d < 36,
    ensures
        digit_value(digit_char(d as int, uppercase)) == Some(d),
        digit_char(d as int, uppercase) != '+',
{
}

/// Appending a digit multiplies the value by the radix and adds the digit.
pub proof fn lemma_digits_value_push(s: Seq<char>, c: char, radix: nat)
    ensures
        digits_value(s.push(c), radix) == digits_value(s, radix) * radix + digit_value(
            c,
        ).unwrap_or(0),
{
    assert(s.push(c).drop_last() =~= s);
}

/// The first `k` digits of a numeral never write more than all of them do.
pub proof fn lemma_digits_value_prefix(s: Seq<char>, k: int, radix: nat)
    requires
        0 <= k <= s.len(),
        1 <= radix,
    ensures
        digits_value(s.take(k), radix) <= digits_value(s, radix),
    decreases s.len() - k,
{
    if k == s.len() {
        assert(s.take(k) =~= s);
    } else {
        lemma_digits_value_prefix(s.drop_last(), k, radix);
        assert(s.drop_last().take(k) =~= s.take(k));
        let shorter = digits_value(s.drop_last(), radix);
        assert(shorter <= shorter * radix) by (nonlinear_arith)
            requires
                1 <= radix,
        ;
    }
}

/// What is written is read back: the digits of `v` in `radix` are a numeral
/// of that radix, without a sign, and the number that it writes is `v`.
pub proof fn lemma_digits_round_trip(v: nat, radix: nat, uppercase: bool)
    requires
        2 <= radix <= 36,
    ensures
        digits(v, radix, uppercase).len() > 0,
        all_digits(digits(v, radix, uppercase), radix),
        digits_value(digits(v, radix, uppercase), radix) == v,
        numeral_value(digits(v, radix, uppercase), radix) == Some(v),
    decreases v,
{
    let written = digits(v, radix, uppercase);
    if v < radix {
        lemma_digit_char_value(v, uppercase);
        lemma_digits_value_push(Seq::empty(), digit_char(v as int, uppercase), radix);
        assert(written =~= Seq::<char>::empty().push(digit_char(v as int, uppercase)));
        let nothing = digits_value(Seq::<char>::empty(), radix);
        assert(nothing * radix == 0) by (nonlinear_arith)
            requires
                nothing == 0,
        ;
    } else {
        let higher = digits(v / radix, radix, uppercase);
        let last = digit_char((v % radix) as int, uppercase);
        lemma_quotient_smaller(v, radix);
        lemma_digits_round_trip(v / radix, radix, uppercase);
        assert(v % radix < radix && (v / radix) * radix + v % radix == v) by (nonlinear_arith)
            requires
                2 <= radix,
        ;
        lemma_digit_char_value(v % radix, uppercase);
        lemma_digits_value_push(higher, last, radix);
        assert(written == higher.push(last));
        assert forall|i: int| 0 <= i < written.len() implies is_digit(
            #[trigger] written[i],
            radix,
        ) by {
            if i < higher.len() {
                assert(written[i] == higher[i]);
            }
        }
    }
    assert(is_digit(written[0], radix));
    assert(unsigned_part(written) == written);
}

/// The one-character text of the digit `d`.
fn digit_str(d: usize, uppercase: bool) -> (text: &'static str)
    requires
        d < 36,
    ensures
        text@ == seq![digit_char(d as int, uppercase)],
{
    proof {
        reveal_strlit("0123456789ABCDEFGHIJKLMNOPQRSTUVWXYZ");
        reveal_strlit("0123456789abcdefghijklmnopqrstuvwxyz");
    }
    let table = if uppercase {
        "0123456789ABCDEFGHIJKLMNOPQRSTUVWXYZ"
    } else {
        "0123456789abcdefghijklmnopqrstuvwxyz"
    };
    let text = table.substring_ascii(d, d + 1);
    assert(text@ =~= seq![digit_char(d as int, uppercase)]);
    text
}

/// Appends the digits of `v` in `radix` to `out`, with the letters among
/// them in the case asked for. The radix is between 2 and 36.
pub fn push_digits(out: &mut String, v: u128, radix: u32, uppercase: bool)
    requires
        2 <= radix <= 36,
    ensures
        final(out)@ == old(out)@ + digits(v as nat, radix as nat, uppercase),
    decreases v,
{
    let ghost before = out@;
    let base = radix as u128;
    if v >= base {
        proof {
            lemma_quotient_smaller(v as nat, radix as nat);
        }
        push_digits(out, v / base, radix, uppercase);
    }
    assert(v % base < base) by (nonlinear_arith)
        requires
            0 < base,
    ;
    out.append(digit_str((v % base) as usize, uppercase));
    proof {
        let last = digit_char((v % base) as int, uppercase);
        if v >= base {
            let higher = digits((v / base) as nat, radix as nat, uppercase);
            assert(digits(v as nat, radix as nat, uppercase) == higher.push(last));
            assert(out@ =~= before + higher.push(last));
        } else {
            assert(v % base == v) by (nonlinear_arith)
                requires
                    v < base,
            ;
            assert(out@ =~= before + seq![last]);
        }
    }
}

/// The value of the byte `b` as a digit, if it is the code of one.
fn digit_of(b: u8) -> (d: Option<u8>)
    ensures
        d == match digit_value(b as char) {
            Some(v) => Some(v as u8),
            None => None,
        },
        d matches Some(v) ==> v < 36,
{
    if 0x30 <= b && b <= 0x39 {
        Some(b - 0x30)
    } else if 0x61 <= b && b <= 0x7A {
        Some(b - 0x61 + 10)
    } else if 0x41 <= b && b <= 0x5A {
        Some(b - 0x41 + 10)
    } else {
        None
    }
}

/// Reads `text` as an unsigned numeral in `radix`, which is between 2 and 36.
///
/// The result is the number written, or nothing where `text` is no numeral
/// or writes a number that a `usize` cannot hold.
pub fn parse_unsigned(text: &str, radix: u32) -> (value: Option<usize>)
    requires
        2 <= radix <= 36,
    ensures
        value == numeral_usize(text@, radix as nat),
{
    broadcast use vstd::string::is_ascii_spec_bytes;

    let ghost body = unsigned_part(text@);
    if !text.is_ascii() {
        proof {
            // A character beyond ASCII is no digit and no sign, and it is
            // part of the body wherever it stands.
            let i = choose|i: int|
                0 <= i < text@.len() && !('\0' <= #[trigger] text@[i] <= '\u{7f}');
            assert(!is_digit(text@[i], radix as nat));
            if body.len() < text@.len() {
                assert(body[i - 1] == text@[i]);
            } else {
                assert(body[i] == text@[i]);
            }
        }
        return None;
    }
    let bytes = text.as_bytes();
    let n = bytes.len();
    let start: usize = if n > 0 && bytes[0] == 0x2B {
        1
    } else {
        0
    };
    assert(body =~= text@.subrange(start as int, n as int));
    if start == n {
        return None;
    }
    let base = radix as usize;
    let mut value: usize = 0;
    let mut i: usize = start;
    while i < n
        invariant
            2 <= radix <= 36,
            base == radix,
            start <= i <= n,
            n == text@.len(),
            n == bytes.len(),
            body == unsigned_part(text@),
            body == text@.subrange(start as int, n as int),
            forall|j: int| 0 <= j < n ==> bytes[j] == #[trigger] text@[j] as u8,
            forall|j: int| 0 <= j < n ==> '\0' <= #[trigger] text@[j] <= '\u{7f}',
            all_digits(body.take(i - start), radix as nat),
            value == digits_value(body.take(i - start), radix as nat),
        decreases n - i,
    {
        let ghost c = text@[i as int];
        let ghost read = body.take(i - start);
        proof {
            assert(body[i - start] == c);
            assert(body.take(i - start + 1) =~= read.push(c));
            assert(bytes[i as int] as char == c);
            lemma_digits_value_push(read, c, radix as nat);
            lemma_digits_value_prefix(body, i - start + 1, radix as nat);
        }
        let digit = match digit_of(bytes[i]) {
            Some(d) => d as usize,
            None => {
                return None;
            },
        };
        if digit >= base {
            return None;
        }
        // From here on the digits read so far write `value * radix + digit`,
        // and the whole numeral writes no less.
        let shifted = match value.checked_mul(base) {
            Some(shifted) => shifted,
            None => {
                return None;
            },
        };
        value = match shifted.checked_add(digit) {
            Some(sum) => sum,
            None => {
                return None;
            },
        };
        i += 1;
    }
    assert(body.take(n - start) =~= body);
    Some(value)
}

} // verus!
