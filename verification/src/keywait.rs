//! The pending key wait: the register, if any, that waits for a key press.

use vstd::prelude::*;

verus! {

/// The register that waits for a key press, between the instruction that
/// asks for the key and the press that answers it.
pub struct PendingKeyWait {
    register: Option<u8>,
}

impl View for PendingKeyWait {
    type V = Option<u8>;

    closed spec fn view(&self) -> Option<u8> {
        self.register
    }
}

impl PendingKeyWait {
    #[verifier::type_invariant]
    pub closed spec fn inv(&self) -> bool {
        self.register matches Some(register) ==> register <= 0xF
    }

    /// What the invariant says of the wait: the register is one of the
    /// sixteen.
    pub proof fn lemma_inv(&self)
        requires
            self.inv(),
        ensures
            self@ matches Some(register) ==> register <= 0xF,
    {
    }

    /// No register waits.
    pub fn new() -> (wait: PendingKeyWait)
        ensures
            wait@ is None,
    {
        PendingKeyWait { register: None }
    }

    /// From now on `register` waits.
    pub fn begin(&mut self, register: u8)
        requires
            register <= 0xF,
        ensures
            final(self)@ == Some(register),
    {
        self.register = Some(register);
    }

    /// Ends the wait and names the register that waited, if one did.
    pub fn resolve(&mut self) -> (register: Option<u8>)
        ensures
            register == old(self)@,
            register matches Some(nibble) ==> nibble <= 0xF,
            final(self)@ is None,
    {
        proof {
            use_type_invariant(&*self);
        }
        let register = self.register;
        self.register = None;
        register
    }

    /// Whether a register waits.
    pub fn is_waiting(&self) -> (waiting: bool)
        ensures
            waiting == self@.is_some(),
    {
        self.register.is_some()
    }
}

} // verus!
