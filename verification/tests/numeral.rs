use c8_disasm_lib::numeral::{parse_unsigned, push_digits};

fn written(v: u128, radix: u32, uppercase: bool) -> String {
    let mut out = String::new();
    push_digits(&mut out, v, radix, uppercase);
    out
}

#[test]
fn digits_of_small_numbers() {
    assert_eq!(written(0, 16, true), "0");
    assert_eq!(written(9, 16, true), "9");
    assert_eq!(written(10, 16, true), "A");
    assert_eq!(written(10, 16, false), "a");
    assert_eq!(written(15, 16, true), "F");
    assert_eq!(written(16, 16, true), "10");
    assert_eq!(written(255, 16, true), "FF");
    assert_eq!(written(255, 10, true), "255");
    assert_eq!(written(0xABC, 16, false), "abc");
    assert_eq!(written(5, 2, true), "101");
    assert_eq!(written(8, 8, true), "10");
    assert_eq!(written(35, 36, true), "Z");
    assert_eq!(written(35, 36, false), "z");
    assert_eq!(written(36 * 36 - 1, 36, false), "zz");
    assert_eq!(written(u128::MAX, 16, true), "FFFFFFFFFFFFFFFFFFFFFFFFFFFFFFFF");
}

#[test]
fn digits_are_appended_to_what_is_there() {
    let mut out = String::from("n = ");
    push_digits(&mut out, 42, 10, false);
    assert_eq!(out, "n = 42");
    push_digits(&mut out, 0, 10, false);
    assert_eq!(out, "n = 420");
}

#[test]
fn digits_read_as_the_standard_formatter_writes_them() {
    for v in (0..70_000u128).chain([u64::MAX as u128, u64::MAX as u128 + 1, u128::MAX / 16, u128::MAX]) {
        assert_eq!(written(v, 16, true), format!("{:X}", v));
        assert_eq!(written(v, 16, false), format!("{:x}", v));
        assert_eq!(written(v, 10, true), format!("{}", v));
        assert_eq!(written(v, 8, false), format!("{:o}", v));
        assert_eq!(written(v, 2, false), format!("{:b}", v));
    }
}

#[test]
fn numerals_are_read() {
    assert_eq!(parse_unsigned("0", 10), Some(0));
    assert_eq!(parse_unsigned("42", 10), Some(42));
    assert_eq!(parse_unsigned("+42", 10), Some(42));
    assert_eq!(parse_unsigned("007", 10), Some(7));
    assert_eq!(parse_unsigned("ff", 16), Some(255));
    assert_eq!(parse_unsigned("FF", 16), Some(255));
    assert_eq!(parse_unsigned("+1f", 16), Some(31));
    assert_eq!(parse_unsigned("zz", 36), Some(35 * 36 + 35));
    assert_eq!(parse_unsigned("101", 2), Some(5));
}

#[test]
fn what_is_no_numeral_is_not_read() {
    assert_eq!(parse_unsigned("", 10), None);
    assert_eq!(parse_unsigned("+", 10), None);
    assert_eq!(parse_unsigned("-", 10), None);
    assert_eq!(parse_unsigned("-1", 10), None);
    assert_eq!(parse_unsigned("++1", 10), None);
    assert_eq!(parse_unsigned("1+", 10), None);
    assert_eq!(parse_unsigned(" 1", 10), None);
    assert_eq!(parse_unsigned("1 ", 10), None);
    assert_eq!(parse_unsigned("1_000", 10), None);
    assert_eq!(parse_unsigned("12a", 10), None);
    assert_eq!(parse_unsigned("g", 16), None);
    assert_eq!(parse_unsigned("2", 2), None);
    assert_eq!(parse_unsigned("0x10", 16), None);
    assert_eq!(parse_unsigned("\u{663}", 10), None);
    assert_eq!(parse_unsigned("1\u{e9}", 16), None);
    assert_eq!(parse_unsigned("\u{ff11}", 10), None);
}

#[test]
fn numerals_too_large_are_not_read() {
    let max = format!("{}", usize::MAX);
    assert_eq!(parse_unsigned(&max, 10), Some(usize::MAX));
    let max_hex = format!("{:x}", usize::MAX);
    assert_eq!(parse_unsigned(&max_hex, 16), Some(usize::MAX));
    assert_eq!(parse_unsigned(&format!("{}0", max), 10), None);
    assert_eq!(parse_unsigned(&format!("1{}", max_hex), 16), None);
    assert_eq!(parse_unsigned(&format!("{}", usize::MAX as u128 + 1), 10), None);
    assert_eq!(parse_unsigned(&format!("000000000000000000000000{}", max), 10), Some(usize::MAX));
}

#[test]
fn numerals_are_read_as_the_standard_parser_reads_them() {
    let samples = [
        "", "0", "1", "9", "10", "+", "-", "+0", "-0", "+7", "++7", "+-7", "a", "A", "f", "F", "g",
        "G", "z", "Z", "1f", "1F", "0x1f", "x", "0x", " 1", "1 ", "1_0", "1.0", "1e3", "00012",
        "18446744073709551615", "18446744073709551616", "99999999999999999999999",
        "ffffffffffffffff", "10000000000000000", "+ffffffffffffffff", "4294967295", "4294967296",
        "ffffffff", "100000000", "\u{e9}", "1\u{e9}", "\u{663}", "\u{ff11}", "/", ":", "@", "[", "`",
        "{", "\0", "1\0",
    ];
    for text in samples {
        for radix in 2..=36u32 {
            assert_eq!(
                parse_unsigned(text, radix),
                usize::from_str_radix(text, radix).ok(),
                "{:?} in radix {}",
                text,
                radix
            );
        }
    }
}

#[test]
fn what_is_written_is_read_back() {
    for v in (0..5_000usize).chain([usize::MAX, usize::MAX - 1, 1 << 20]) {
        for radix in 2..=36u32 {
            assert_eq!(parse_unsigned(&written(v as u128, radix, true), radix), Some(v));
            assert_eq!(parse_unsigned(&written(v as u128, radix, false), radix), Some(v));
        }
    }
    for radix in 2..=36u32 {
        assert_eq!(parse_unsigned(&written(usize::MAX as u128 + 1, radix, true), radix), None);
    }
}
