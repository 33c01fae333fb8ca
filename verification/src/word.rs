//! The instruction word and its bit fields.

use vstd::prelude::*;

verus! {

/// One instruction: two consecutive bytes of a program image.
///
/// Every field is a function of the two bytes alone.
#[derive(Clone, Copy, Debug, PartialEq, Eq, Structural)]
pub struct InstructionWord {
    pub byte0: u8,
    pub byte1: u8,
}

impl InstructionWord {
    /// The instruction family: the top nibble of the first byte.
    pub open spec fn spec_opcode(self) -> u8 {
        self.byte0 >> 4
    }

    /// The first register index: the bottom nibble of the first byte.
    pub open spec fn spec_x(self) -> u8 {
        self.byte0 & 0x0F
    }

    /// The second register index: the top nibble of the second byte.
    pub open spec fn spec_y(self) -> u8 {
        self.byte1 >> 4
    }

    /// The small immediate: the bottom nibble of the second byte.
    pub open spec fn spec_n(self) -> u8 {
        self.byte1 & 0x0F
    }

    /// The 8-bit immediate: the second byte in full.
    pub open spec fn spec_kk(self) -> u8 {
        self.byte1
    }

    /// The 12-bit address: the bottom nibble of the first byte, then the
    /// second byte in full.
    pub open spec fn spec_nnn(self) -> u16 {
        address_field(self.byte0, self.byte1)
    }

    /// The word made of `byte0` and then `byte1`.
    pub fn new(byte0: u8, byte1: u8) -> (word: Self)
        ensures
            word.byte0 == byte0,
            word.byte1 == byte1,
    {
        InstructionWord { byte0, byte1 }
    }

    /// The instruction family of the word.
    #[verifier::when_used_as_spec(spec_opcode)]
    pub fn opcode(self) -> (opcode: u8)
        ensures
            opcode == self.spec_opcode(),
            opcode == self.byte0 / 16,
            opcode <= 15,
    {
        proof {
            lemma_nibbles(self.byte0);
        }
        self.byte0 >> 4
    }

    /// The first register index of the word.
    #[verifier::when_used_as_spec(spec_x)]
    pub fn x(self) -> (x: u8)
        ensures
            x == self.spec_x(),
            x == self.byte0 % 16,
            x <= 15,
    {
        proof {
            lemma_nibbles(self.byte0);
        }
        self.byte0 & 0x0F
    }

    /// The second register index of the word.
    #[verifier::when_used_as_spec(spec_y)]
    pub fn y(self) -> (y: u8)
        ensures
            y == self.spec_y(),
            y == self.byte1 / 16,
            y <= 15,
    {
        proof {
            lemma_nibbles(self.byte1);
        }
        self.byte1 >> 4
    }

    /// The small immediate of the word.
    #[verifier::when_used_as_spec(spec_n)]
    pub fn n(self) -> (n: u8)
        ensures
            n == self.spec_n(),
            n == self.byte1 % 16,
            n <= 15,
    {
        proof {
            lemma_nibbles(self.byte1);
        }
        self.byte1 & 0x0F
    }

    /// The 8-bit immediate of the word.
    #[verifier::when_used_as_spec(spec_kk)]
    pub fn kk(self) -> (kk: u8)
        ensures
            kk == self.spec_kk(),
    {
        self.byte1
    }

    /// The 12-bit address of the word.
    #[verifier::when_used_as_spec(spec_nnn)]
    pub fn nnn(self) -> (nnn: u16)
        ensures
            nnn == self.spec_nnn(),
            nnn == (self.byte0 % 16) * 256 + self.byte1,
            nnn <= 0xFFF,
    {
        arg3(self.byte0, self.byte1)
    }
}

/// The 12-bit address field of the word `b0 b1`: `b0` masked to its low
/// nibble, shifted left by eight bits, with `b1` in the low byte.
pub open spec fn address_field(b0: u8, b1: u8) -> u16 {
    (((b0 & 0x0F) as u16) << 8) | (b1 as u16)
}

/// Extracts the 12-bit address field of the word `b0 b1`.
pub fn arg3(b0: u8, b1: u8) -> (nnn: u16)
    ensures
        nnn == address_field(b0, b1),
        nnn == (((b0 & 0x0F) as u16) << 8) | (b1 as u16),
        nnn == (b0 % 16) * 256 + b1,
        nnn <= 0xFFF,
{
    proof {
        lemma_address_field(b0, b1);
    }
    (((b0 & 0x0F) as u16) << 8) | (b1 as u16)
}

/// The two nibbles of a byte, by shift and mask, are its quotient and
/// remainder by sixteen.
pub proof fn lemma_nibbles(b: u8)
    ensures
        b >> 4 == b / 16,
        b & 0x0F == b % 16,
        b >> 4 <= 15,
        b & 0x0F <= 15,
        ((b >> 4) << 4) | (b & 0x0F) == b,
{
    assert(b >> 4 == b / 16) by (bit_vector);
    assert(b & 0x0F == b % 16) by (bit_vector);
    assert(b >> 4 <= 15) by (bit_vector);
    assert(b & 0x0F <= 15) by (bit_vector);
    assert(((b >> 4) << 4) | (b & 0x0F) == b) by (bit_vector);
}

/// The address field is the low nibble of the first byte times 256 plus the
/// second byte, and so fits in twelve bits.
pub proof fn lemma_address_field(b0: u8, b1: u8)
    ensures
        address_field(b0, b1) == (b0 % 16) * 256 + b1,
        address_field(b0, b1) <= 0xFFF,
        address_field(b0, b1) >> 8 == b0 & 0x0F,
        address_field(b0, b1) & 0xFF == b1,
{
    assert((((b0 & 0x0F) as u16) << 8) | (b1 as u16) == (b0 % 16) * 256 + b1) by (bit_vector);
    assert((((b0 & 0x0F) as u16) << 8) | (b1 as u16) <= 0xFFF) by (bit_vector);
    assert(((((b0 & 0x0F) as u16) << 8) | (b1 as u16)) >> 8 == (b0 & 0x0F) as u16) by (bit_vector);
    assert(((((b0 & 0x0F) as u16) << 8) | (b1 as u16)) & 0xFF == b1 as u16) by (bit_vector);
}

} // verus!
