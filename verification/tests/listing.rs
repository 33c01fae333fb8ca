use c8_disasm_lib::listing::{is_printable, push_address, LOAD_ADDRESS};
use c8_disasm_lib::{disassemble, format_line, Listing};

fn address(address: u128) -> String {
    let mut out = String::new();
    push_address(&mut out, address);
    out
}

#[test]
fn images_load_at_0x200() {
    assert_eq!(LOAD_ADDRESS, 0x200);
}

#[test]
fn addresses_have_three_digits_at_least() {
    assert_eq!(address(0x0), "000");
    assert_eq!(address(0x5), "005");
    assert_eq!(address(0xF), "00f");
    assert_eq!(address(0x10), "010");
    assert_eq!(address(0xAB), "0ab");
    assert_eq!(address(0x100), "100");
    assert_eq!(address(0x200), "200");
    assert_eq!(address(0xFFF), "fff");
    assert_eq!(address(0x1000), "1000");
    assert_eq!(address(0xBEEF5), "beef5");
}

#[test]
fn addresses_read_as_the_standard_formatter_writes_them() {
    for a in (0..70_000u128).chain([usize::MAX as u128, usize::MAX as u128 + 0x200, u128::MAX]) {
        assert_eq!(address(a), format!("{:03x}", a));
    }
}

#[test]
fn printable_bytes() {
    for b in 0..=255u8 {
        assert_eq!(is_printable(b), b == b' ' || b.is_ascii_alphanumeric(), "{:#04x}", b);
    }
}

#[test]
fn a_line_with_address_and_hint() {
    assert_eq!(format_line(0, 0x00, 0xE0, true, true), "200 CLS");
    assert_eq!(format_line(2, 0xA2, 0x22, true, true), "202 LD I, 0x222");
    assert_eq!(format_line(4, 0x41, 0x42, true, true), "204 SNE V1, 0x42 (66) \"AB\"");
    assert_eq!(format_line(6, 0x20, 0x20, true, true), "206 CALL 0x20 \"  \"");
    assert_eq!(format_line(0xE00, 0x7a, 0x30, true, true), "1000 ADD VA, 0x30 (48) \"z0\"");
}

#[test]
fn a_line_without_address_or_hint() {
    assert_eq!(format_line(4, 0x41, 0x42, false, true), "SNE V1, 0x42 (66) \"AB\"");
    assert_eq!(format_line(4, 0x41, 0x42, true, false), "204 SNE V1, 0x42 (66)");
    assert_eq!(format_line(4, 0x41, 0x42, false, false), "SNE V1, 0x42 (66)");
}

#[test]
fn a_hint_needs_both_bytes_printable() {
    assert_eq!(format_line(0, 0x41, 0x21, false, true), "SNE V1, 0x21 (33)");
    assert_eq!(format_line(0, 0x7F, 0x41, false, true), "ADD VF, 0x41 (65)");
    assert_eq!(format_line(0, 0x61, 0x5A, false, true), "LD V1, 0x5A (90) \"aZ\"");
    assert_eq!(format_line(0, 0x39, 0x30, false, true), "SE V9 == 0x30 (48) \"90\"");
}

#[test]
fn every_line_reads_as_the_standard_formatter_writes_it() {
    for b0 in 0..=255u8 {
        for b1 in 0..=255u8 {
            let offset = b0 as usize * 256 + b1 as usize;
            let text = c8_disasm_lib::decode(b0, b1);
            let shown = |b: u8| b == b' ' || b.is_ascii_alphanumeric();
            let expected = if shown(b0) && shown(b1) {
                format!("{:03x} {} \"{}{}\"", 0x200 + offset, text, b0 as char, b1 as char)
            } else {
                format!("{:03x} {}", 0x200 + offset, text)
            };
            assert_eq!(format_line(offset, b0, b1, true, true), expected);
        }
    }
}

#[test]
fn a_buffer_of_two_words() {
    let Listing { lines, dangling } = disassemble(&[0x00, 0xE0, 0xA2, 0x22], 0, 16, true, true);
    assert_eq!(lines, vec!["200 CLS", "202 LD I, 0x222"]);
    assert_eq!(dangling, None);
}

#[test]
fn the_walk_stops_at_its_count() {
    let bytes = [0x00, 0xE0, 0xA2, 0x22, 0x12, 0x34, 0x00, 0xEE];
    let listing = disassemble(&bytes, 0, 3, true, false);
    assert_eq!(listing.lines, vec!["200 CLS", "202 LD I, 0x222", "204 JP 0x234"]);
    assert_eq!(listing.dangling, None);
    let listing = disassemble(&bytes, 0, 4, true, false);
    assert_eq!(listing.lines.len(), 4);
    assert_eq!(listing.lines[3], "206 RET");
    let listing = disassemble(&bytes, 0, 0, true, false);
    assert!(listing.lines.is_empty());
    assert_eq!(listing.dangling, None);
}

#[test]
fn the_walk_starts_at_the_skip() {
    let bytes = [0x00, 0xE0, 0xA2, 0x22, 0x12, 0x34, 0x00, 0xEE];
    let listing = disassemble(&bytes, 2, 2, true, false);
    assert_eq!(listing.lines, vec!["202 LD I, 0x222", "204 JP 0x234"]);
    let listing = disassemble(&bytes, 1, 16, true, false);
    assert_eq!(listing.lines, vec!["201 SKP V0", "203 CALL 0x212", "205 SE V4 == 0x0 (0)"]);
    assert_eq!(listing.dangling, Some(7));
}

#[test]
fn a_skip_beyond_the_buffer_gives_nothing() {
    let bytes = [0x00, 0xE0];
    for skip in [2usize, 3, 100, usize::MAX - 1, usize::MAX] {
        let listing = disassemble(&bytes, skip, u32::MAX, true, true);
        assert!(listing.lines.is_empty());
        assert_eq!(listing.dangling, None);
    }
    let listing = disassemble(&[], 0, 16, true, true);
    assert!(listing.lines.is_empty());
    assert_eq!(listing.dangling, None);
}

#[test]
fn a_last_byte_alone_is_told_apart() {
    let listing = disassemble(&[0x00, 0xE0, 0xA2], 0, 16, true, true);
    assert_eq!(listing.lines, vec!["200 CLS"]);
    assert_eq!(listing.dangling, Some(2));
    let listing = disassemble(&[0x00, 0xE0, 0xA2], 0, 2, true, true);
    assert_eq!(listing.lines, vec!["200 CLS"]);
    assert_eq!(listing.dangling, Some(2));
    let listing = disassemble(&[0x00], 0, 1, true, true);
    assert!(listing.lines.is_empty());
    assert_eq!(listing.dangling, Some(0));
}

#[test]
fn a_last_byte_alone_is_not_reached_by_a_short_walk() {
    let listing = disassemble(&[0x00, 0xE0, 0xA2], 0, 1, true, true);
    assert_eq!(listing.lines, vec!["200 CLS"]);
    assert_eq!(listing.dangling, None);
    let listing = disassemble(&[0x00], 0, 0, true, true);
    assert!(listing.lines.is_empty());
    assert_eq!(listing.dangling, None);
}

#[test]
fn a_walk_follows_the_buffer_word_by_word() {
    let bytes: Vec<u8> = (0..=255u8).chain((0..=255u8).rev()).collect();
    for skip in 0..6usize {
        for length in [0u32, 1, 7, 254, 255, 256, 257, 1000] {
            let listing = disassemble(&bytes, skip, length, true, true);
            let whole = (bytes.len() - skip) / 2;
            let count = whole.min(length as usize);
            assert_eq!(listing.lines.len(), count);
            for (i, line) in listing.lines.iter().enumerate() {
                let offset = skip + 2 * i;
                assert_eq!(*line, format_line(offset, bytes[offset], bytes[offset + 1], true, true));
            }
            let odd = (bytes.len() - skip) % 2 == 1;
            let expected = if odd && whole < length as usize { Some(bytes.len() - 1) } else { None };
            assert_eq!(listing.dangling, expected);
        }
    }
}
