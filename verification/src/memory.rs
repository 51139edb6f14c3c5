//! The 4096-byte memory, with the glyph table and the program image.
//!
//! Addresses below 0x200 are the machine's own; the sixteen hexadecimal
//! glyphs, five bytes each, sit at 0x050. Programs are loaded at 0x200. No
//! access wraps round the end of memory: one that would reach past it is
//! refused.

use vstd::prelude::*;
use crate::error::ErrorKind;
use crate::instruction::{word_of, Instruction};

verus! {

/// The number of bytes of memory.
pub const MEMORY_SIZE: usize = 4096;

/// The address at which programs are loaded and start.
pub const PROGRAM_START: u16 = 0x200;

/// The address of the glyph of the digit 0.
pub const HEX_SPRITE_START: u16 = 0x50;

/// The number of bytes of one glyph.
pub const HEX_SPRITE_LEN: u16 = 5;

/// The glyphs of the digits 0 to F: five rows each, the four high bits of a
/// row being its pixels.
pub const HEX_SPRITES: [u8; 80] = [
    0xF0, 0x90, 0x90, 0x90, 0xF0,
    0x20, 0x60, 0x20, 0x20, 0x70,
    0xF0, 0x10, 0xF0, 0x80, 0xF0,
    0xF0, 0x10, 0xF0, 0x10, 0xF0,
    0x90, 0x90, 0xF0, 0x10, 0x10,
    0xF0, 0x80, 0xF0, 0x10, 0xF0,
    0xF0, 0x80, 0xF0, 0x90, 0xF0,
    0xF0, 0x10, 0x20, 0x40, 0x40,
    0xF0, 0x90, 0xF0, 0x90, 0xF0,
    0xF0, 0x90, 0xF0, 0x10, 0xF0,
    0xF0, 0x90, 0xF0, 0x90, 0x90,
    0xE0, 0x90, 0xE0, 0x90, 0xE0,
    0xF0, 0x80, 0x80, 0x80, 0xF0,
    0xE0, 0x90, 0x90, 0x90, 0xE0,
    0xF0, 0x80, 0xF0, 0x80, 0xF0,
    0xF0, 0x80, 0xF0, 0x80, 0x80,
];

/// `cells` with `block` written over it from index `start` on; the cells
/// outside the block keep their values.
pub open spec fn with_block<T>(cells: Seq<T>, start: int, block: Seq<T>) -> Seq<T> {
    Seq::new(
        cells.len(),
        |a: int|
            if start <= a < start + block.len() {
                block[a - start]
            } else {
                cells[a]
            },
    )
}

/// Memory as it is before any program is loaded: zero everywhere but in the
/// glyph table.
pub open spec fn initial_memory() -> Seq<u8> {
    with_block(Seq::new(MEMORY_SIZE as nat, |a: int| 0u8), HEX_SPRITE_START as int, HEX_SPRITES@)
}

/// The 4096 bytes of memory.
pub struct Memory {
    bytes: [u8; 4096],
}

impl View for Memory {
    type V = Seq<u8>;

    closed spec fn view(&self) -> Seq<u8> {
        self.bytes@
    }
}

impl Memory {
    /// Memory always has 4096 bytes.
    pub proof fn lemma_len(&self)
        ensures
            self@.len() == MEMORY_SIZE,
    {
    }

    /// Memory with the glyph table in place and zero elsewhere.
    pub fn new() -> (memory: Memory)
        ensures
            memory@ == initial_memory(),
    {
        let mut memory = Memory { bytes: [0; 4096] };
        memory.load_hex_sprites();
        memory
    }

    /// Writes the glyph table to its place.
    pub fn load_hex_sprites(&mut self)
        ensures
            final(self)@ == with_block(old(self)@, HEX_SPRITE_START as int, HEX_SPRITES@),
    {
        let result = self.write_block(HEX_SPRITE_START as usize, HEX_SPRITES.as_slice());
        assert(result is Ok);
    }

    /// Copies a program image to the load address. An image that does not fit
    /// below the end of memory is refused, and memory stays as it was.
    pub fn load(&mut self, program: &[u8]) -> (result: Result<(), ErrorKind>)
        ensures
            match result {
                Ok(()) => program@.len() + PROGRAM_START <= MEMORY_SIZE && final(self)@
                    == with_block(old(self)@, PROGRAM_START as int, program@),
                Err(kind) => kind == ErrorKind::LoadError && program@.len() + PROGRAM_START
                    > MEMORY_SIZE && final(self)@ == old(self)@,
            },
    {
        match self.write_block(PROGRAM_START as usize, program) {
            Ok(()) => Ok(()),
            Err(_) => Err(ErrorKind::LoadError),
        }
    }

    /// All of memory, for the host to look at.
    pub fn bytes(&self) -> (bytes: &[u8; 4096])
        ensures
            bytes@ == self@,
    {
        &self.bytes
    }

    /// The instruction whose two bytes lie at `address`, if both lie in
    /// memory.
    pub fn instruction_at(&self, address: usize) -> (result: Result<Instruction, ErrorKind>)
        ensures
            match result {
                Ok(instruction) => address + 2 <= MEMORY_SIZE && instruction.word() == word_of(
                    self@[address as int],
                    self@[address + 1],
                ),
                Err(kind) => kind == ErrorKind::AddressOutOfRange && address + 2 > MEMORY_SIZE,
            },
    {
        if address > 4094 {
            Err(ErrorKind::AddressOutOfRange)
        } else {
            Ok(Instruction::new([self.bytes[address], self.bytes[address + 1]]))
        }
    }

    /// The `len` bytes from `start` on, if they all lie in memory.
    pub fn block(&self, start: usize, len: usize) -> (result: Result<&[u8], ErrorKind>)
        ensures
            match result {
                Ok(block) => start + len <= MEMORY_SIZE && block@ == self@.subrange(
                    start as int,
                    start + len,
                ),
                Err(kind) => kind == ErrorKind::AddressOutOfRange && start + len > MEMORY_SIZE,
            },
    {
        if start > 4096 || len > 4096 - start {
            return Err(ErrorKind::AddressOutOfRange);
        }
        Ok(vstd::slice::slice_subrange(self.bytes.as_slice(), start, start + len))
    }

    /// Writes `block` to memory from `start` on. A block that would reach past
    /// the end of memory is refused, and memory stays as it was.
    pub fn write_block(&mut self, start: usize, block: &[u8]) -> (result: Result<(), ErrorKind>)
        ensures
            match result {
                Ok(()) => start + block@.len() <= MEMORY_SIZE && final(self)@ == with_block(
                    old(self)@,
                    start as int,
                    block@,
                ),
                Err(kind) => kind == ErrorKind::AddressOutOfRange && start + block@.len()
                    > MEMORY_SIZE && final(self)@ == old(self)@,
            },
    {
        let len: usize = block.len();
        if start > 4096 || len > 4096 - start {
            return Err(ErrorKind::AddressOutOfRange);
        }
        let mut k: usize = 0;
        while k < len
            invariant
                k <= len,
                len == block@.len(),
                start + len <= 4096,
                self@ == with_block(old(self)@, start as int, block@.take(k as int)),
            decreases len - k,
        {
            self.bytes[start + k] = block[k];
            k += 1;
        }
        assert(block@.take(len as int) == block@);
        Ok(())
    }
}

} // verus!
