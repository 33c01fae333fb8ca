//! A disassembler core for CHIP-8 program images.
//!
//! An instruction is two consecutive bytes. [`decode`] turns such a pair into
//! its mnemonic text and never fails: a pair that names no instruction
//! decodes to the unknown marker of its family.
//!
//! - [`word`]: the instruction word and its bit fields.
//! - [`decoder`]: the instruction table and the decoder.
//! - [`numeral`]: numbers written in a radix and read back.
//! - [`listing`]: a buffer walked word by word, one line for each word.
//! - [`args`]: numeric command-line arguments.

pub mod args;
pub mod decoder;
pub mod listing;
pub mod numeral;
pub mod word;

pub use args::parse_hex;
pub use decoder::decode;
pub use listing::{disassemble, format_line, Listing};
pub use word::{arg3, InstructionWord};
