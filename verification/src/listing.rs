//! Listings: the words of a program image, line by line.
//!
//! A listing walks a buffer two bytes at a time. Each line shows the address
//! of a word, its mnemonic text and, where both bytes are printable, the two
//! bytes as characters.

use crate::decoder::{decode, mnemonic_text};
use crate::numeral::{digits, push_digits};
use vstd::prelude::*;

verus! {

/// The address at which a program image is loaded: the address of the byte
/// at offset zero.
pub const LOAD_ADDRESS: usize = 0x200;

/// Whether the byte `b` is shown as a character: the space, a decimal digit
/// or an unaccented letter of either case.
pub open spec fn spec_is_printable(b: u8) -> bool {
    b == 0x20 || (0x30 <= b <= 0x39) || (0x41 <= b <= 0x5A) || (0x61 <= b <= 0x7A)
}

/// An address in lowercase hexadecimal, filled with zeros on the left to
/// three digits.
pub open spec fn address_digits(address: nat) -> Seq<char> {
    if address < 0x10 {
        "00"@ + digits(address, 16, false)
    } else if address < 0x100 {
        "0"@ + digits(address, 16, false)
    } else {
        digits(address, 16, false)
    }
}

/// The two bytes of a word as characters between double quotes, after a
/// space; nothing unless both bytes are printable.
pub open spec fn ascii_hint(b0: u8, b1: u8) -> Seq<char> {
    if is_printable(b0) && is_printable(b1) {
        " \""@ + seq![b0 as char] + seq![b1 as char] + "\""@
    } else {
        Seq::empty()
    }
}

/// The line for the word `b0 b1` that stands `offset` bytes into the image:
/// the address and a space where addresses are shown, the mnemonic text, and
/// the two bytes as characters where such hints are shown.
pub open spec fn line_text(
    offset: nat,
    b0: u8,
    b1: u8,
    show_address: bool,
    show_ascii: bool,
) -> Seq<char> {
    let address = if show_address {
        address_digits(LOAD_ADDRESS as nat + offset) + " "@
    } else {
        Seq::empty()
    };
    let hint = if show_ascii {
        ascii_hint(b0, b1)
    } else {
        Seq::empty()
    };
    address + mnemonic_text(b0, b1) + hint
}

/// The number of whole words that a walk yields: it starts `skip` bytes
/// into a buffer of `len` bytes, takes two bytes at a time, and stops after
/// `length` words or where fewer than two bytes are left.
pub open spec fn word_count(len: nat, skip: nat, length: nat) -> nat {
    if skip >= len {
        0
    } else if length <= (len - skip) / 2 {
        length
    } else {
        ((len - skip) / 2) as nat
    }
}

/// The offset of the last byte of the buffer where the walk reaches it and
/// finds no second byte after it.
pub open spec fn dangling_offset(len: nat, skip: nat, length: nat) -> Option<nat> {
    if skip < len && (len - skip) % 2 == 1 && (len - skip) / 2 < length {
        Some((len - 1) as nat)
    } else {
        None
    }
}

/// An address takes three characters at least, and no more below `0x1000`.
pub proof fn lemma_address_digits_len(address: nat)
    ensures
        address_digits(address).len() >= 3,
        address < 0x1000 ==> address_digits(address).len() == 3,
{
    reveal_strlit("00");
    reveal_strlit("0");
    reveal_with_fuel(digits, 3);
}

/// A walk stays inside its buffer. It yields no more words than it was
/// asked for, and each of them lies wholly in the buffer. Where it yields
/// fewer, the buffer has ended: either no byte is left, or one byte is left
/// and its offset is given.
pub proof fn lemma_walk_in_bounds(len: nat, skip: nat, length: nat)
    ensures
        word_count(len, skip, length) <= length,
        word_count(len, skip, length) > 0 ==> skip + 2 * word_count(len, skip, length) <= len,
        dangling_offset(len, skip, length) matches Some(offset) ==> {
            &&& word_count(len, skip, length) < length
            &&& offset == skip + 2 * word_count(len, skip, length)
            &&& offset + 1 == len
        },
        dangling_offset(len, skip, length) is None && word_count(len, skip, length) < length
            ==> skip + 2 * word_count(len, skip, length) >= len,
{
}

/// What a listing holds, as plain values.
pub struct ListingView {
    pub lines: Seq<Seq<char>>,
    pub dangling: Option<nat>,
}

/// The lines of a walk over a buffer, and how the walk ended.
#[derive(Clone, Debug, PartialEq, Eq)]
pub struct Listing {
    /// One line for each whole word, in the order of the buffer.
    pub lines: Vec<String>,
    /// The offset of a last byte without a second one, if the walk reached
    /// it before it had its count of words.
    pub dangling: Option<usize>,
}

impl View for Listing {
    type V = ListingView;

    open spec fn view(&self) -> ListingView {
        ListingView {
            lines: Seq::new(self.lines@.len(), |i: int| self.lines@[i]@),
            dangling: match self.dangling {
                Some(offset) => Some(offset as nat),
                None => None,
            },
        }
    }
}

/// The listing of `length` words of `bytes` from the offset `skip` on.
pub open spec fn listing_of(
    bytes: Seq<u8>,
    skip: nat,
    length: nat,
    show_address: bool,
    show_ascii: bool,
) -> ListingView {
    ListingView {
        lines: Seq::new(
            word_count(bytes.len(), skip, length),
            |i: int|
                line_text(
                    (skip + 2 * i) as nat,
                    bytes[skip + 2 * i],
                    bytes[skip + 2 * i + 1],
                    show_address,
                    show_ascii,
                ),
        ),
        dangling: dangling_offset(bytes.len(), skip, length),
    }
}

/// Tells whether `b` is shown as a character.
#[verifier::when_used_as_spec(spec_is_printable)]
pub fn is_printable(b: u8) -> (shown: bool)
    ensures
        shown == spec_is_printable(b),
{
    b == 0x20 || (0x30 <= b && b <= 0x39) || (0x41 <= b && b <= 0x5A) || (0x61 <= b && b <= 0x7A)
}

/// The one-character text of a printable byte.
fn printable_str(b: u8) -> (text: &'static str)
    requires
        is_printable(b),
    ensures
        text@ == seq![b as char],
{
    proof {
        reveal_strlit(" ");
        reveal_strlit("0123456789");
        reveal_strlit("ABCDEFGHIJKLMNOPQRSTUVWXYZ");
        reveal_strlit("abcdefghijklmnopqrstuvwxyz");
    }
    let text = if b == 0x20 {
        " "
    } else if b <= 0x39 {
        let i = (b - 0x30) as usize;
        "0123456789".substring_ascii(i, i + 1)
    } else if b <= 0x5A {
        let i = (b - 0x41) as usize;
        "ABCDEFGHIJKLMNOPQRSTUVWXYZ".substring_ascii(i, i + 1)
    } else {
        let i = (b - 0x61) as usize;
        "abcdefghijklmnopqrstuvwxyz".substring_ascii(i, i + 1)
    };
    assert(text@ =~= seq![b as char]);
    text
}

/// Appends an address in lowercase hexadecimal, of three digits at least.
pub fn push_address(out: &mut String, address: u128)
    ensures
        final(out)@ == old(out)@ + address_digits(address as nat),
{
    if address < 0x10 {
        out.append("00");
    } else if address < 0x100 {
        out.append("0");
    }
    push_digits(out, address, 16, false);
    assert(out@ =~= old(out)@ + address_digits(address as nat));
}

/// Writes the line for the word `b0 b1` that stands `offset` bytes into the
/// image.
pub fn format_line(offset: usize, b0: u8, b1: u8, show_address: bool, show_ascii: bool) -> (line:
    String)
    ensures
        line@ == line_text(offset as nat, b0, b1, show_address, show_ascii),
{
    let mut out = String::new();
    if show_address {
        push_address(&mut out, LOAD_ADDRESS as u128 + offset as u128);
        out.append(" ");
    }
    let text = decode(b0, b1);
    out.append(text.as_str());
    if show_ascii && is_printable(b0) && is_printable(b1) {
        out.append(" \"");
        out.append(printable_str(b0));
        out.append(printable_str(b1));
        out.append("\"");
    }
    assert(out@ =~= line_text(offset as nat, b0, b1, show_address, show_ascii));
    out
}

/// Walks `bytes` from the offset `skip` on, two bytes at a time, and writes
/// a line for each whole word, `length` lines at most.
///
/// The walk ends where the buffer does. A last byte without a second one
/// gets no line; its offset is given instead.
pub fn disassemble(
    bytes: &[u8],
    skip: usize,
    length: u32,
    show_address: bool,
    show_ascii: bool,
) -> (listing: Listing)
    ensures
        listing@ == listing_of(bytes@, skip as nat, length as nat, show_address, show_ascii),
{
    let len = bytes.len();
    let mut lines: Vec<String> = Vec::new();
    let mut dangling: Option<usize> = None;
    if skip < len {
        let available = (len - skip) / 2;
        let count = if (length as usize) < available {
            length as usize
        } else {
            available
        };
        assert(count == word_count(len as nat, skip as nat, length as nat));
        let mut i: usize = 0;
        while i < count
            invariant
                i <= count <= (len - skip) / 2,
                skip < len,
                len == bytes@.len(),
                lines@.len() == i,
                forall|k: int|
                    0 <= k < i ==> (#[trigger] lines@[k])@ == line_text(
                        (skip + 2 * k) as nat,
                        bytes@[skip + 2 * k],
                        bytes@[skip + 2 * k + 1],
                        show_address,
                        show_ascii,
                    ),
            decreases count - i,
        {
            let offset = skip + 2 * i;
            let line = format_line(offset, bytes[offset], bytes[offset + 1], show_address, show_ascii);
            lines.push(line);
            i += 1;
        }
        if (len - skip) % 2 == 1 && available < length as usize {
            dangling = Some(len - 1);
        }
    }
    let listing = Listing { lines, dangling };
    assert(listing@.lines =~= listing_of(
        bytes@,
        skip as nat,
        length as nat,
        show_address,
        show_ascii,
    ).lines);
    listing
}

} // verus!
