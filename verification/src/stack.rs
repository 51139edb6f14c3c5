//! The call stack: up to sixteen return addresses.

use vstd::prelude::*;
use crate::error::ErrorKind;

verus! {

/// How many return addresses the stack holds at most.
pub const STACK_DEPTH: usize = 16;

/// A stack of return addresses, the most recent call last.
pub struct CallStack {
    slots: [u16; 16],
    sp: usize,
}

impl View for CallStack {
    type V = Seq<u16>;

    closed spec fn view(&self) -> Seq<u16> {
        self.slots@.take(self.sp as int)
    }
}

impl CallStack {
    #[verifier::type_invariant]
    pub closed spec fn inv(&self) -> bool {
        self.sp <= 16
    }

    /// What the invariant says of the stack: it is never deeper than sixteen.
    pub proof fn lemma_inv(&self)
        requires
            self.inv(),
        ensures
            self@.len() <= STACK_DEPTH,
    {
    }

    /// An empty stack.
    pub fn new() -> (stack: CallStack)
        ensures
            stack@ == Seq::<u16>::empty(),
    {
        CallStack { slots: [0; 16], sp: 0 }
    }

    /// How many return addresses are on the stack.
    pub fn depth(&self) -> (depth: usize)
        ensures
            depth == self@.len(),
            depth <= STACK_DEPTH,
    {
        proof {
            use_type_invariant(self);
        }
        self.sp
    }

    /// Puts `address` on the stack, unless sixteen addresses are on it
    /// already.
    pub fn push(&mut self, address: u16) -> (result: Result<(), ErrorKind>)
        ensures
            match result {
                Ok(()) => old(self)@.len() < STACK_DEPTH && final(self)@ == old(self)@.push(
                    address,
                ),
                Err(kind) => kind == ErrorKind::StackOverflow && old(self)@.len() == STACK_DEPTH
                    && final(self)@ == old(self)@,
            },
    {
        proof {
            use_type_invariant(&*self);
        }
        if self.sp >= 16 {
            return Err(ErrorKind::StackOverflow);
        }
        self.slots[self.sp] = address;
        self.sp += 1;
        assert(self@ =~= old(self)@.push(address));
        Ok(())
    }

    /// Takes the most recent return address off the stack, if there is one.
    pub fn pop(&mut self) -> (result: Result<u16, ErrorKind>)
        ensures
            match result {
                Ok(address) => old(self)@.len() > 0 && address == old(self)@.last() && final(self)@
                    == old(self)@.drop_last(),
                Err(kind) => kind == ErrorKind::StackUnderflow && old(self)@.len() == 0
                    && final(self)@ == old(self)@,
            },
    {
        proof {
            use_type_invariant(&*self);
        }
        if self.sp == 0 {
            return Err(ErrorKind::StackUnderflow);
        }
        self.sp -= 1;
        assert(self@ =~= old(self)@.drop_last());
        Ok(self.slots[self.sp])
    }
}

} // verus!
