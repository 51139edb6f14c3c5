//! The register file: sixteen 8-bit registers V0 to VF.
//!
//! VF doubles as the flag register. Arithmetic, shift and draw instructions
//! write their flag to it after their result.

use vstd::prelude::*;
use crate::memory::with_block;

verus! {

/// The index of the flag register VF.
pub const FLAG: u8 = 0xF;

/// Sixteen 8-bit registers, addressed by a nibble.
pub struct Registers {
    v: [u8; 16],
}

impl View for Registers {
    type V = Seq<u8>;

    closed spec fn view(&self) -> Seq<u8> {
        self.v@
    }
}

impl Default for Registers {
    fn default() -> (registers: Registers)
        ensures
            registers@ == Seq::new(16, |k: int| 0u8),
    {
        Registers { v: [0; 16] }
    }
}

impl Registers {
    /// There are always sixteen registers.
    pub proof fn lemma_len(&self)
        ensures
            self@.len() == 16,
    {
    }

    /// The register that `nibble` addresses, for reading and writing.
    pub fn get_register_by_nibble<'a>(&'a mut self, nibble: u8) -> (register: &'a mut u8)
        requires
            nibble <= 0xF,
        ensures
            *register == old(self)@[nibble as int],
            final(self)@ == old(self)@.update(nibble as int, *final(register)),
    {
        &mut self.v[nibble as usize]
    }

    /// The value of the register that `nibble` addresses.
    pub fn get_register_value(&self, nibble: u8) -> (value: u8)
        requires
            nibble <= 0xF,
        ensures
            value == self@[nibble as int],
    {
        self.v[nibble as usize]
    }

    /// Stores `value` in the register that `nibble` addresses.
    pub fn set_register_value(&mut self, nibble: u8, value: u8)
        requires
            nibble <= 0xF,
        ensures
            final(self)@ == old(self)@.update(nibble as int, value),
    {
        let reg = self.get_register_by_nibble(nibble);
        *reg = value;
    }

    /// The registers V0 to V`last`, in order.
    pub fn first(&self, last: u8) -> (values: &[u8])
        requires
            last <= 0xF,
        ensures
            values@ == self@.take(last + 1),
    {
        vstd::slice::slice_subrange(self.v.as_slice(), 0, last as usize + 1)
    }

    /// Stores `values` in the registers from V0 on; the registers beyond
    /// them keep their values.
    pub fn load(&mut self, values: &[u8])
        requires
            values@.len() <= 16,
        ensures
            final(self)@ == with_block(old(self)@, 0, values@),
    {
        let len: usize = values.len();
        let mut k: usize = 0;
        while k < len
            invariant
                k <= len,
                len == values@.len(),
                len <= 16,
                self@ == with_block(old(self)@, 0, values@.take(k as int)),
            decreases len - k,
        {
            self.v[k] = values[k];
            k += 1;
        }
        assert(values@.take(len as int) == values@);
    }
}

} // verus!
