//! Failures of the machine.
//!
//! Each of them points at a malformed program, never at a passing condition:
//! none is worth retrying.

use vstd::prelude::*;

verus! {

/// Why the machine refused a program or an instruction.
#[derive(Clone, Copy, PartialEq, Eq, Debug, Structural)]
pub enum ErrorKind {
    /// The program image does not fit between the load address and the end of
    /// memory.
    LoadError,
    /// A call was made with sixteen return addresses already on the stack.
    StackOverflow,
    /// A return was made with no return address on the stack.
    StackUnderflow,
    /// The instruction word names no operation.
    UnimplementedOpcode,
    /// The instruction, or a block it reads or writes, reaches past the end of
    /// memory.
    AddressOutOfRange,
    /// Ex9E or ExA1 found a number above 0xF, that of no key, in Vx.
    InvalidKey,
}

/// A failed instruction: what went wrong, where, and on which word.
#[derive(Clone, Copy, PartialEq, Eq, Debug, Structural)]
pub struct Fault {
    /// The kind of failure.
    pub kind: ErrorKind,
    /// The address of the failing instruction.
    pub pc: u16,
    /// The failing instruction word; 0 where the word itself could not be
    /// fetched.
    pub opcode: u16,
}

} // verus!
