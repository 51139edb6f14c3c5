//! Instruction words and their fields.
//!
//! An instruction is two consecutive memory bytes, high byte first. Every one
//! of the 65536 words decodes; whether it names an operation is decided by the
//! engine.

use vstd::prelude::*;

verus! {

/// The nibble of `word` at position `idx`, position 0 being the highest.
pub open spec fn nibble_of(word: u16, idx: int) -> int {
    if idx == 0 {
        word as int / 4096
    } else if idx == 1 {
        (word as int / 256) % 16
    } else if idx == 2 {
        (word as int / 16) % 16
    } else {
        word as int % 16
    }
}

/// The low twelve bits of `word`.
pub open spec fn address_of(word: u16) -> int {
    word as int % 4096
}

/// The low byte of `word`.
pub open spec fn byte_of(word: u16) -> int {
    word as int % 256
}

/// The word made of a high and a low byte.
pub open spec fn word_of(high: u8, low: u8) -> u16 {
    (high as int * 256 + low as int) as u16
}

/// The word whose nibbles, highest first, are `a`, `b`, `c` and `d`.
pub open spec fn word_from(a: int, b: int, c: int, d: int) -> u16 {
    (a * 4096 + b * 256 + c * 16 + d) as u16
}

/// Each nibble of a word made of four nibbles is the one that was put in,
/// and so are its low byte and its address.
pub proof fn lemma_nibbles(a: int, b: int, c: int, d: int)
    requires
        0 <= a < 16,
        0 <= b < 16,
        0 <= c < 16,
        0 <= d < 16,
    ensures
        nibble_of(word_from(a, b, c, d), 0) == a,
        nibble_of(word_from(a, b, c, d), 1) == b,
        nibble_of(word_from(a, b, c, d), 2) == c,
        nibble_of(word_from(a, b, c, d), 3) == d,
        byte_of(word_from(a, b, c, d)) == c * 16 + d,
        address_of(word_from(a, b, c, d)) == b * 256 + c * 16 + d,
{
    let w = a * 4096 + b * 256 + c * 16 + d;
    assert(w / 4096 == a);
    assert(w / 256 == a * 16 + b);
    assert(w / 16 == a * 256 + b * 16 + c);
    assert(w % 16 == d);
    assert(w % 256 == c * 16 + d);
    assert(w % 4096 == b * 256 + c * 16 + d);
}

/// A word is the word made of its four nibbles.
pub proof fn lemma_word_from_nibbles(word: u16)
    ensures
        word == word_from(
            nibble_of(word, 0),
            nibble_of(word, 1),
            nibble_of(word, 2),
            nibble_of(word, 3),
        ),
{
    let w = word as int;
    assert(w == (w / 4096) * 4096 + w % 4096);
    assert(w % 4096 == ((w / 256) % 16) * 256 + w % 256);
    assert(w % 256 == ((w / 16) % 16) * 16 + w % 16);
}

/// One instruction word, held as the two bytes it was fetched from.
#[derive(Clone, Copy, Debug)]
pub struct Instruction {
    opcode: [u8; 2],
}

impl Instruction {
    /// The instruction word.
    pub closed spec fn word(&self) -> u16 {
        word_of(self.opcode[0], self.opcode[1])
    }

    /// The instruction held in two bytes, high byte first.
    pub fn new(opcode: [u8; 2]) -> (instruction: Instruction)
        ensures
            instruction.word() == word_of(opcode[0], opcode[1]),
    {
        Instruction { opcode }
    }

    /// The nibble at position `idx`, position 0 being the highest.
    pub fn get_nibble(&self, idx: usize) -> (nibble: u8)
        requires
            idx < 4,
        ensures
            nibble as int == nibble_of(self.word(), idx as int),
            nibble < 16,
    {
        let byte: u8 = self.opcode[idx / 2];
        let result: u8 = if idx % 2 == 0 {
            (byte >> 4) & 0xF
        } else {
            byte & 0xF
        };
        proof {
            assert((byte >> 4) & 0xF == byte / 16) by (bit_vector);
            assert(byte & 0xF == byte % 16) by (bit_vector);
        }
        result
    }

    /// The low twelve bits of the word.
    pub fn get_address(&self) -> (address: u16)
        ensures
            address as int == address_of(self.word()),
            address < 4096,
    {
        let instruction: u16 = self.get_u16_instruction();
        proof {
            assert(instruction & 0xFFF == instruction % 4096) by (bit_vector);
        }
        instruction & 0xFFF
    }

    /// The low byte of the word.
    pub fn get_byte(&self) -> (byte: u8)
        ensures
            byte as int == byte_of(self.word()),
    {
        self.opcode[1]
    }

    /// The whole word, high byte first.
    pub fn get_u16_instruction(&self) -> (word: u16)
        ensures
            word == self.word(),
    {
        let high: u8 = self.opcode[0];
        let low: u8 = self.opcode[1];
        proof {
            assert(((high as u16) << 8) | (low as u16) == (high as u16) * 256 + (low as u16))
                by (bit_vector);
        }
        ((high as u16) << 8) | (low as u16)
    }
}

} // verus!
