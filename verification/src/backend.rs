//! What the machine asks of its host: a display to deliver frames to and a
//! keypad to read.

use vstd::prelude::*;
use std::collections::HashMap;

verus! {

/// The sixteen keys of the keypad, named after the keyboard keys that
/// conventionally stand for them (rows 1234, QWER, ASDF, ZXCV).
#[derive(PartialEq, Eq, Hash, Debug, Clone, Copy, Structural)]
pub enum Keys {
    KEY1,
    KEY2,
    KEY3,
    KEY4,
    KEYQ,
    KEYW,
    KEYE,
    KEYR,
    KEYA,
    KEYS,
    KEYD,
    KEYF,
    KEYZ,
    KEYX,
    KEYC,
    KEYV,
}

impl Keys {
    /// The number, 0x0 to 0xF, that programs know the key by.
    pub open spec fn value(self) -> u8 {
        match self {
            Keys::KEY1 => 0x0,
            Keys::KEY2 => 0x1,
            Keys::KEY3 => 0x2,
            Keys::KEY4 => 0x3,
            Keys::KEYQ => 0x4,
            Keys::KEYW => 0x5,
            Keys::KEYE => 0x6,
            Keys::KEYR => 0x7,
            Keys::KEYA => 0x8,
            Keys::KEYS => 0x9,
            Keys::KEYD => 0xA,
            Keys::KEYF => 0xB,
            Keys::KEYZ => 0xC,
            Keys::KEYX => 0xD,
            Keys::KEYC => 0xE,
            Keys::KEYV => 0xF,
        }
    }

    /// The key that programs know by `value`.
    pub fn from(value: u8) -> (key: Keys)
        requires
            value <= 0xF,
        ensures
            key.value() == value,
    {
        match value {
            0x0 => Keys::KEY1,
            0x1 => Keys::KEY2,
            0x2 => Keys::KEY3,
            0x3 => Keys::KEY4,
            0x4 => Keys::KEYQ,
            0x5 => Keys::KEYW,
            0x6 => Keys::KEYE,
            0x7 => Keys::KEYR,
            0x8 => Keys::KEYA,
            0x9 => Keys::KEYS,
            0xA => Keys::KEYD,
            0xB => Keys::KEYF,
            0xC => Keys::KEYZ,
            0xD => Keys::KEYX,
            0xE => Keys::KEYC,
            _ => Keys::KEYV,
        }
    }
}

impl From<Keys> for u8 {
    fn from(key: Keys) -> (value: u8) {
        match key {
            Keys::KEY1 => 0x0,
            Keys::KEY2 => 0x1,
            Keys::KEY3 => 0x2,
            Keys::KEY4 => 0x3,
            Keys::KEYQ => 0x4,
            Keys::KEYW => 0x5,
            Keys::KEYE => 0x6,
            Keys::KEYR => 0x7,
            Keys::KEYA => 0x8,
            Keys::KEYS => 0x9,
            Keys::KEYD => 0xA,
            Keys::KEYF => 0xB,
            Keys::KEYZ => 0xC,
            Keys::KEYX => 0xD,
            Keys::KEYC => 0xE,
            Keys::KEYV => 0xF,
        }
    }
}

impl vstd::std_specs::convert::FromSpecImpl<Keys> for u8 {
    open spec fn obeys_from_spec() -> bool {
        true
    }

    open spec fn from_spec(key: Keys) -> u8 {
        key.value()
    }
}

/// Every key has a number below sixteen, and no two keys share one.
pub proof fn lemma_key_values(a: Keys, b: Keys)
    ensures
        a.value() <= 0xF,
        a.value() == b.value() ==> a == b,
{
}

/// Whether the machine is suspended until a key is pressed.
#[derive(PartialEq, Eq, Debug, Clone, Copy, Structural)]
pub enum WaitingKey {
    No,
    Yes,
}

/// The host side of the machine.
///
/// Nothing is assumed of an implementation: whatever `poll_key` answers, the
/// machine takes the step that the instruction set gives for that answer.
pub trait Backend {
    /// Takes the frame after a draw instruction: 64x32 cells in row order,
    /// each 0 (off) or 1 (on).
    fn draw_frame(&mut self, framebuffer: &[u8; 2048]);

    /// Says whether `key` is held down at this moment.
    fn poll_key(&mut self, key: Keys) -> bool;

    /// Is told that the machine now waits for a key press, which the host
    /// reports with `Cpu::waiting_key_pressed`.
    fn wait_for_key(&mut self);
}

/// Which keys are held down, as a host records it from press and release
/// events: a map from the number of a key to whether it is down. A key that
/// the map does not hold was never heard of, and is up.
pub struct Keypad {
    down: HashMap<u8, bool>,
}

impl View for Keypad {
    type V = Map<u8, bool>;

    closed spec fn view(&self) -> Map<u8, bool> {
        self.down@
    }
}

impl Keypad {
    /// A keypad that has heard of no key.
    pub fn new() -> (keypad: Keypad)
        ensures
            keypad@ == Map::<u8, bool>::empty(),
    {
        Keypad { down: HashMap::new() }
    }

    /// Records that `key` went down (`down` true) or came up.
    pub fn set(&mut self, key: Keys, down: bool)
        ensures
            final(self)@ == old(self)@.insert(key.value(), down),
    {
        broadcast use vstd::std_specs::hash::group_hash_axioms;

        let value: u8 = key.into();
        self.down.insert(value, down);
    }

    /// Whether `key` is held; a key never heard of is up.
    pub fn is_down(&self, key: Keys) -> (down: bool)
        ensures
            down == (self@.contains_key(key.value()) && self@[key.value()]),
    {
        broadcast use vstd::std_specs::hash::group_hash_axioms;

        let value: u8 = key.into();
        match self.down.get(&value) {
            Some(down) => *down,
            None => false,
        }
    }
}

} // verus!
