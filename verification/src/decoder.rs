//! The instruction decoder: from a two-byte word to its mnemonic text.

use crate::numeral::{digit_char, digits, push_digits};
use crate::word::InstructionWord;
use vstd::prelude::*;

verus! {

/// A register operand: `V` and the register index as one uppercase
/// hexadecimal digit.
pub open spec fn register(index: u8) -> Seq<char> {
    "V"@ + digits(index as nat, 16, true)
}

/// An immediate operand: `0x` and the value in uppercase hexadecimal.
pub open spec fn immediate(value: nat) -> Seq<char> {
    "0x"@ + digits(value, 16, true)
}

/// An immediate operand followed by its decimal value in parentheses.
pub open spec fn immediate_with_decimal(value: nat) -> Seq<char> {
    immediate(value) + " ("@ + digits(value, 10, true) + ")"@
}

/// The text of a word of family `0x0`, the system instructions.
pub open spec fn system_text(w: InstructionWord) -> Seq<char> {
    if w.x() == 0 && w.y() == 0xE && w.n() == 0x0 {
        "CLS"@
    } else if w.x() == 0 && w.y() == 0xE && w.n() == 0xE {
        "RET"@
    } else {
        "SYS???"@
    }
}

/// The text of a word of family `0x8`, the register-to-register
/// instructions, selected by `n`.
pub open spec fn math_text(w: InstructionWord) -> Seq<char> {
    let x = register(w.x());
    let y = register(w.y());
    match w.n() {
        0x0 => "LD "@ + x + " = "@ + y,
        0x1 => "OR "@ + x + ", "@ + y,
        0x2 => "AND "@ + x + ", "@ + y,
        0x3 => "XOR "@ + x + ", "@ + y,
        0x4 => "ADD "@ + x + ", "@ + y,
        0x5 => "SUB "@ + x + ", "@ + y,
        0x6 => "SHR "@ + x + " >> 1"@,
        0x7 => "SUBN "@ + x + ", "@ + y,
        0xE => "SHL "@ + x + " << 1"@,
        _ => "MATH???"@,
    }
}

/// The text of a word of family `0xF`, the timer, key and memory
/// instructions, selected by `kk`.
pub open spec fn extended_text(w: InstructionWord) -> Seq<char> {
    let x = register(w.x());
    match w.kk() {
        0x07 => "LD "@ + x + ", DT"@,
        0x0A => "LD "@ + x + ", KEY"@,
        0x15 => "LD DT, "@ + x,
        0x18 => "LD ST, "@ + x,
        0x1E => "ADD I, "@ + x,
        0x29 => "LD F, "@ + x,
        0x33 => "LD BCD, "@ + x,
        0x55 => "LD [I], "@ + x,
        0x65 => "LD "@ + x + ", [I]"@,
        _ => "??"@,
    }
}

/// The mnemonic text of the instruction word `b0 b1`.
///
/// The opcode selects the family; families `0x0`, `0x8` and `0xF` are
/// selected further by a second key. A word that names no instruction has
/// the unknown marker of its family as its text.
pub open spec fn mnemonic_text(b0: u8, b1: u8) -> Seq<char> {
    let w = InstructionWord { byte0: b0, byte1: b1 };
    let x = register(w.x());
    let y = register(w.y());
    let kk = w.kk() as nat;
    let nnn = w.nnn() as nat;
    match w.opcode() {
        0x0 => system_text(w),
        0x1 => "JP "@ + immediate(nnn),
        0x2 => "CALL "@ + immediate(nnn),
        0x3 => "SE "@ + x + " == "@ + immediate_with_decimal(kk),
        0x4 => "SNE "@ + x + ", "@ + immediate_with_decimal(kk),
        0x5 => "SE "@ + x + ", "@ + y,
        0x6 => "LD "@ + x + ", "@ + immediate_with_decimal(kk),
        0x7 => "ADD "@ + x + ", "@ + immediate_with_decimal(kk),
        0x8 => math_text(w),
        0x9 => "SNE "@ + x + ", "@ + y,
        0xA => "LD I, "@ + immediate(nnn),
        0xB => "JP V0, "@ + immediate(nnn),
        0xC => "RND "@ + x + ", RND & "@ + immediate(kk),
        0xD => "DRW "@ + x + ", "@ + y + ", "@ + digits(w.n() as nat, 16, true),
        0xE => "SKP "@ + x,
        0xF => extended_text(w),
        _ => "??"@,
    }
}

/// Whether `n` selects an instruction of family `0x8`.
pub open spec fn is_math_selector(n: u8) -> bool {
    n <= 0x7 || n == 0xE
}

/// Whether `kk` selects an instruction of family `0xF`.
pub open spec fn is_extended_selector(kk: u8) -> bool {
    kk == 0x07 || kk == 0x0A || kk == 0x15 || kk == 0x18 || kk == 0x1E || kk == 0x29 || kk == 0x33
        || kk == 0x55 || kk == 0x65
}

/// A register operand is two characters: `V`, then the index as one
/// uppercase hexadecimal digit.
pub proof fn lemma_register_text(index: u8)
    requires
        index <= 15,
    ensures
        register(index) == seq!['V', digit_char(index as int, true)],
{
    reveal_strlit("V");
    assert(register(index) =~= seq!['V', digit_char(index as int, true)]);
}

/// Every text starts with its mnemonic, and the first two characters tell
/// the markers and the two system instructions from every other text.
proof fn lemma_leading_characters(b0: u8, b1: u8)
    ensures
        mnemonic_text(b0, b1).len() >= 2,
        mnemonic_text(b0, b1) == "CLS"@ <==> (b0 == 0x00 && b1 == 0xE0),
        mnemonic_text(b0, b1) == "RET"@ <==> (b0 == 0x00 && b1 == 0xEE),
        mnemonic_text(b0, b1) == "SYS???"@ <==> (b0 >> 4 == 0x0 && !(b0 == 0x00 && (b1 == 0xE0 || b1
            == 0xEE))),
        mnemonic_text(b0, b1) == "MATH???"@ <==> (b0 >> 4 == 0x8 && !is_math_selector(b1 & 0x0F)),
        mnemonic_text(b0, b1) == "??"@ <==> (b0 >> 4 == 0xF && !is_extended_selector(b1)),
{
    crate::word::lemma_nibbles(b0);
    crate::word::lemma_nibbles(b1);
    reveal_strlit("CLS");
    reveal_strlit("RET");
    reveal_strlit("SYS???");
    reveal_strlit("MATH???");
    reveal_strlit("??");
    reveal_strlit("JP ");
    reveal_strlit("CALL ");
    reveal_strlit("SE ");
    reveal_strlit("SNE ");
    reveal_strlit("LD ");
    reveal_strlit("ADD ");
    reveal_strlit("OR ");
    reveal_strlit("AND ");
    reveal_strlit("XOR ");
    reveal_strlit("SUB ");
    reveal_strlit("SHR ");
    reveal_strlit("SUBN ");
    reveal_strlit("SHL ");
    reveal_strlit("LD I, ");
    reveal_strlit("JP V0, ");
    reveal_strlit("RND ");
    reveal_strlit("DRW ");
    reveal_strlit("SKP ");
    reveal_strlit("LD DT, ");
    reveal_strlit("LD ST, ");
    reveal_strlit("ADD I, ");
    reveal_strlit("LD F, ");
    reveal_strlit("LD BCD, ");
    reveal_strlit("LD [I], ");
    let text = mnemonic_text(b0, b1);
    assert(text.len() >= 2);
    assert((text[0] == 'C' && text[1] == 'L') <==> (b0 == 0x00 && b1 == 0xE0));
    assert((text[0] == 'R' && text[1] == 'E') <==> (b0 == 0x00 && b1 == 0xEE));
    assert(text[1] == 'Y' <==> (b0 >> 4 == 0x0 && !(b0 == 0x00 && (b1 == 0xE0 || b1 == 0xEE))));
    assert(text[0] == 'M' <==> (b0 >> 4 == 0x8 && !is_math_selector(b1 & 0x0F)));
    assert(text[0] == '?' <==> (b0 >> 4 == 0xF && !is_extended_selector(b1)));
}

/// Decoding is total: every pair of bytes has a text, and no text is empty.
pub proof fn lemma_mnemonic_text_nonempty(b0: u8, b1: u8)
    ensures
        mnemonic_text(b0, b1).len() > 0,
{
    lemma_leading_characters(b0, b1);
}

/// Only the word `00 E0` clears the screen and only the word `00 EE`
/// returns. Every other word of family `0x0`, and no word of another family,
/// decodes to the marker `SYS???`.
pub proof fn lemma_system_words(b0: u8, b1: u8)
    ensures
        mnemonic_text(b0, b1) == "CLS"@ <==> (b0 == 0x00 && b1 == 0xE0),
        mnemonic_text(b0, b1) == "RET"@ <==> (b0 == 0x00 && b1 == 0xEE),
        mnemonic_text(b0, b1) == "SYS???"@ <==> (b0 >> 4 == 0x0 && !(b0 == 0x00 && (b1 == 0xE0 || b1
            == 0xEE))),
{
    lemma_leading_characters(b0, b1);
}

/// A word decodes to the marker `MATH???` exactly when it is of family `0x8`
/// and its `n` selects none of the nine instructions of that family.
pub proof fn lemma_unknown_math_marker(b0: u8, b1: u8)
    ensures
        mnemonic_text(b0, b1) == "MATH???"@ <==> (b0 >> 4 == 0x8 && !is_math_selector(b1 & 0x0F)),
{
    lemma_leading_characters(b0, b1);
}

/// A word decodes to the marker `??` exactly when it is of family `0xF` and
/// its `kk` is none of the nine constants of that family.
pub proof fn lemma_unknown_marker(b0: u8, b1: u8)
    ensures
        mnemonic_text(b0, b1) == "??"@ <==> (b0 >> 4 == 0xF && !is_extended_selector(b1)),
{
    lemma_leading_characters(b0, b1);
}

/// Appends a register operand.
fn push_register(out: &mut String, index: u8)
    ensures
        final(out)@ == old(out)@ + register(index),
{
    out.append("V");
    push_digits(out, index as u128, 16, true);
    assert(out@ =~= old(out)@ + register(index));
}

/// Appends an immediate operand.
fn push_immediate(out: &mut String, value: u16)
    ensures
        final(out)@ == old(out)@ + immediate(value as nat),
{
    out.append("0x");
    push_digits(out, value as u128, 16, true);
    assert(out@ =~= old(out)@ + immediate(value as nat));
}

/// Appends an immediate operand and its decimal value in parentheses.
fn push_immediate_with_decimal(out: &mut String, value: u8)
    ensures
        final(out)@ == old(out)@ + immediate_with_decimal(value as nat),
{
    push_immediate(out, value as u16);
    out.append(" (");
    push_digits(out, value as u128, 10, true);
    out.append(")");
    assert(out@ =~= old(out)@ + immediate_with_decimal(value as nat));
}

/// `name`, then the register `x`.
fn with_register(name: &str, x: u8) -> (text: String)
    ensures
        text@ == name@ + register(x),
{
    let mut out = String::from_str(name);
    push_register(&mut out, x);
    out
}

/// `name`, then the register `x`, then `tail`.
fn with_register_then(name: &str, x: u8, tail: &str) -> (text: String)
    ensures
        text@ == name@ + register(x) + tail@,
{
    let mut out = with_register(name, x);
    out.append(tail);
    out
}

/// `name`, then the register `x`, `separator`, and the register `y`.
fn with_registers(name: &str, x: u8, separator: &str, y: u8) -> (text: String)
    ensures
        text@ == name@ + register(x) + separator@ + register(y),
{
    let mut out = with_register_then(name, x, separator);
    push_register(&mut out, y);
    out
}

/// `name`, then the register `x`, `separator`, and the immediate `kk`
/// with its decimal value.
fn with_register_and_byte(name: &str, x: u8, separator: &str, kk: u8) -> (text: String)
    ensures
        text@ == name@ + register(x) + separator@ + immediate_with_decimal(kk as nat),
{
    let mut out = with_register_then(name, x, separator);
    push_immediate_with_decimal(&mut out, kk);
    out
}

/// `name`, then the address `nnn`.
fn with_address(name: &str, nnn: u16) -> (text: String)
    ensures
        text@ == name@ + immediate(nnn as nat),
{
    let mut out = String::from_str(name);
    push_immediate(&mut out, nnn);
    out
}

/// Decodes a word of family `0x0`.
fn decode_system(w: InstructionWord) -> (text: String)
    ensures
        text@ == system_text(w),
{
    if w.x() == 0 && w.y() == 0xE && w.n() == 0x0 {
        String::from_str("CLS")
    } else if w.x() == 0 && w.y() == 0xE && w.n() == 0xE {
        String::from_str("RET")
    } else {
        String::from_str("SYS???")
    }
}

/// Decodes a word of family `0x8`.
fn decode_math(w: InstructionWord) -> (text: String)
    ensures
        text@ == math_text(w),
{
    let x = w.x();
    let y = w.y();
    match w.n() {
        0x0 => with_registers("LD ", x, " = ", y),
        0x1 => with_registers("OR ", x, ", ", y),
        0x2 => with_registers("AND ", x, ", ", y),
        0x3 => with_registers("XOR ", x, ", ", y),
        0x4 => with_registers("ADD ", x, ", ", y),
        0x5 => with_registers("SUB ", x, ", ", y),
        0x6 => with_register_then("SHR ", x, " >> 1"),
        0x7 => with_registers("SUBN ", x, ", ", y),
        0xE => with_register_then("SHL ", x, " << 1"),
        _ => String::from_str("MATH???"),
    }
}

/// Decodes a word of family `0xF`.
fn decode_extended(w: InstructionWord) -> (text: String)
    ensures
        text@ == extended_text(w),
{
    let x = w.x();
    match w.kk() {
        0x07 => with_register_then("LD ", x, ", DT"),
        0x0A => with_register_then("LD ", x, ", KEY"),
        0x15 => with_register("LD DT, ", x),
        0x18 => with_register("LD ST, ", x),
        0x1E => with_register("ADD I, ", x),
        0x29 => with_register("LD F, ", x),
        0x33 => with_register("LD BCD, ", x),
        0x55 => with_register("LD [I], ", x),
        0x65 => with_register_then("LD ", x, ", [I]"),
        _ => String::from_str("??"),
    }
}

/// Decodes the instruction word `b0 b1` into its mnemonic text.
///
/// Every pair of bytes has a text; none is rejected.
pub fn decode(b0: u8, b1: u8) -> (text: String)
    ensures
        text@ == mnemonic_text(b0, b1),
        text@.len() > 0,
        text@ == "CLS"@ <==> (b0 == 0x00 && b1 == 0xE0),
        text@ == "RET"@ <==> (b0 == 0x00 && b1 == 0xEE),
        text@ == "MATH???"@ <==> (b0 >> 4 == 0x8 && !is_math_selector(b1 & 0x0F)),
        text@ == "??"@ <==> (b0 >> 4 == 0xF && !is_extended_selector(b1)),
{
    proof {
        lemma_mnemonic_text_nonempty(b0, b1);
        lemma_system_words(b0, b1);
        lemma_unknown_math_marker(b0, b1);
        lemma_unknown_marker(b0, b1);
    }
    let w = InstructionWord::new(b0, b1);
    let x = w.x();
    let y = w.y();
    let kk = w.kk();
    let nnn = w.nnn();
    match w.opcode() {
        0x0 => decode_system(w),
        0x1 => with_address("JP ", nnn),
        0x2 => with_address("CALL ", nnn),
        0x3 => with_register_and_byte("SE ", x, " == ", kk),
        0x4 => with_register_and_byte("SNE ", x, ", ", kk),
        0x5 => with_registers("SE ", x, ", ", y),
        0x6 => with_register_and_byte("LD ", x, ", ", kk),
        0x7 => with_register_and_byte("ADD ", x, ", ", kk),
        0x8 => decode_math(w),
        0x9 => with_registers("SNE ", x, ", ", y),
        0xA => with_address("LD I, ", nnn),
        0xB => with_address("JP V0, ", nnn),
        0xC => {
            let mut out = with_register_then("RND ", x, ", RND & ");
            push_immediate(&mut out, kk as u16);
            out
        },
        0xD => {
            let mut out = with_registers("DRW ", x, ", ", y);
            out.append(", ");
            push_digits(&mut out, w.n() as u128, 16, true);
            out
        },
        0xE => with_register("SKP ", x),
        0xF => decode_extended(w),
        _ => String::from_str("??"),
    }
}

} // verus!
