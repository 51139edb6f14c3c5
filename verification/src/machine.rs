//! The machine as a mathematical value, and what each instruction does to it.
//!
//! Everything here is specification: the state of the machine as sequences
//! and numbers, and the functions from a state and an instruction word to
//! the next state. The executable machine in `cpu` is proved to compute
//! exactly these functions.

use vstd::prelude::*;
use crate::display::{blank, draw_sprite, is_display, sprite_collides};
use crate::error::{ErrorKind, Fault};
use crate::instruction::{address_of, byte_of, nibble_of, word_of};
use crate::memory::{
    initial_memory, with_block, HEX_SPRITE_LEN, HEX_SPRITE_START, MEMORY_SIZE, PROGRAM_START,
};
use crate::registers::FLAG;
use crate::stack::STACK_DEPTH;

verus! {

/// What an instruction leaves for the host to do.
#[derive(Clone, Copy, PartialEq, Eq, Debug, Structural)]
pub enum Action {
    /// Nothing: go on with the next instruction.
    Continue,
    /// The display changed: deliver the frame.
    DrawFrame,
    /// The machine now waits for a key press: watch the keypad.
    WaitForKey,
}

/// The architectural state of the machine.
#[verifier::ext_equal]
pub struct Machine {
    /// The 4096 bytes of memory.
    pub memory: Seq<u8>,
    /// The 2048 cells of the display, in row order, each 0 or 1.
    pub framebuffer: Seq<u8>,
    /// The registers V0 to VF.
    pub v: Seq<u8>,
    /// The address of the next instruction.
    pub pc: u16,
    /// The index register I.
    pub i: u16,
    /// The delay timer.
    pub dt: u8,
    /// The sound timer.
    pub st: u8,
    /// The return addresses, the most recent call last.
    pub stack: Seq<u16>,
    /// The register that waits for a key press, if any does.
    pub wait: Option<u8>,
}

/// The state after an instruction, and what it asks of the host or why it
/// failed. A failed instruction leaves the state as it was.
pub struct Outcome {
    pub machine: Machine,
    pub result: Result<Action, Fault>,
}

/// The fault that `result` reports, if it reports one.
pub open spec fn fault_of<T>(result: Result<T, Fault>) -> Option<Fault> {
    match result {
        Ok(_) => None,
        Err(fault) => Some(fault),
    }
}

impl Outcome {
    /// Whether a call that left the machine in state `machine` and failed
    /// with `fault`, or went through where `fault` is `None`, did what this
    /// outcome says.
    pub open spec fn gives(self, machine: Machine, fault: Option<Fault>) -> bool {
        &&& machine == self.machine
        &&& fault == fault_of(self.result)
    }
}

/// The decimal digits of `value`, most significant first, without leading
/// zeros: one digit below 10, two below 100, else three.
pub open spec fn decimal_digits(value: u8) -> Seq<u8> {
    if value >= 100 {
        seq![value / 100, value / 10 % 10, value % 10]
    } else if value >= 10 {
        seq![value / 10, value % 10]
    } else {
        seq![value]
    }
}

/// The digits of a byte spell it: there are one to three of them, each at
/// most 9, the first not 0 unless it is the only one, and read as a decimal
/// number they give the byte.
pub proof fn lemma_decimal_digits(value: u8)
    ensures
        ({
            let digits = decimal_digits(value);
            &&& 1 <= digits.len() <= 3
            &&& forall|k: int| 0 <= k < digits.len() ==> #[trigger] digits[k] <= 9
            &&& digits.len() > 1 ==> digits[0] > 0
            &&& digits.len() == 1 ==> value == digits[0]
            &&& digits.len() == 2 ==> value == digits[0] * 10 + digits[1]
            &&& digits.len() == 3 ==> value == digits[0] * 100 + digits[1] * 10 + digits[2]
        }),
{
}

/// The result that a register-to-register operation stores in Vx, if `op`
/// names such an operation.
pub open spec fn alu_value(op: int, vx: u8, vy: u8) -> Option<u8> {
    if op == 0x0 {
        Some(vy)
    } else if op == 0x1 {
        Some(vx | vy)
    } else if op == 0x2 {
        Some(vx & vy)
    } else if op == 0x3 {
        Some(vx ^ vy)
    } else if op == 0x4 {
        Some(((vx + vy) % 256) as u8)
    } else if op == 0x5 {
        Some(((vx - vy) % 256) as u8)
    } else if op == 0x6 {
        Some(vx / 2)
    } else if op == 0x7 {
        Some(((vy - vx) % 256) as u8)
    } else if op == 0x8 || op == 0xE {
        Some(((vx * 2) % 256) as u8)
    } else {
        None
    }
}

/// The flag that a register-to-register operation then stores in VF, if it
/// has one: the carry of an addition, 1 where a subtraction's minuend is
/// the greater, the bit that a shift pushed out.
pub open spec fn alu_flag(op: int, vx: u8, vy: u8) -> Option<u8> {
    if op == 0x4 {
        Some(if vx + vy > 255 { 1u8 } else { 0u8 })
    } else if op == 0x5 {
        Some(if vx > vy { 1u8 } else { 0u8 })
    } else if op == 0x6 {
        Some(vx % 2)
    } else if op == 0x7 {
        Some(if vy > vx { 1u8 } else { 0u8 })
    } else if op == 0x8 || op == 0xE {
        Some(vx / 128)
    } else {
        None
    }
}

impl Machine {
    /// Whether the state is one that a machine can be in.
    pub open spec fn wf(self) -> bool {
        &&& self.memory.len() == MEMORY_SIZE
        &&& is_display(self.framebuffer)
        &&& self.v.len() == 16
        &&& self.stack.len() <= STACK_DEPTH
        &&& (self.wait matches Some(register) ==> register <= 0xF)
    }

    /// The machine as it is switched on: the glyph table in memory,
    /// everything else zero or empty, and the program counter at the load
    /// address.
    pub open spec fn initial() -> Machine {
        Machine {
            memory: initial_memory(),
            framebuffer: blank(),
            v: Seq::new(16, |k: int| 0u8),
            pc: PROGRAM_START,
            i: 0,
            dt: 0,
            st: 0,
            stack: Seq::empty(),
            wait: None,
        }
    }

    /// The state with the program counter `by` bytes on.
    pub open spec fn advance(self, by: int) -> Machine {
        Machine { pc: (self.pc + by) as u16, ..self }
    }

    /// The state with the program counter past the next instruction too if
    /// `skip` holds, else just past this one.
    pub open spec fn skip_if(self, skip: bool) -> Machine {
        if skip {
            self.advance(4)
        } else {
            self.advance(2)
        }
    }

    /// The state with `value` in register `x`.
    pub open spec fn set_v(self, x: int, value: u8) -> Machine {
        Machine { v: self.v.update(x, value), ..self }
    }

    /// The instruction went through, and asks nothing of the host.
    pub open spec fn done(self) -> Outcome {
        Outcome { machine: self, result: Ok(Action::Continue) }
    }

    /// The instruction `word` failed: the state stays, and the fault names
    /// the instruction.
    pub open spec fn fails(self, kind: ErrorKind, word: u16) -> Outcome {
        Outcome { machine: self, result: Err(Fault { kind, pc: self.pc, opcode: word }) }
    }

    /// The words 00E0 (clear the display) and 00EE (return).
    pub open spec fn execute_system(self, word: u16) -> Outcome {
        if word == 0x00E0 {
            (Machine { framebuffer: blank(), ..self.advance(2) }).done()
        } else if word == 0x00EE {
            if self.stack.len() == 0 {
                self.fails(ErrorKind::StackUnderflow, word)
            } else {
                (Machine { pc: self.stack.last(), stack: self.stack.drop_last(), ..self }).done()
            }
        } else {
            self.fails(ErrorKind::UnimplementedOpcode, word)
        }
    }

    /// The word 2nnn: call the subroutine at nnn, to return to the
    /// instruction after this one.
    pub open spec fn execute_call(self, word: u16) -> Outcome {
        if self.stack.len() >= STACK_DEPTH {
            self.fails(ErrorKind::StackOverflow, word)
        } else {
            (Machine {
                pc: address_of(word) as u16,
                stack: self.stack.push((self.pc + 2) as u16),
                ..self
            }).done()
        }
    }

    /// The words 8xy0 to 8xy8 and 8xyE: assign, OR, AND, XOR, add, subtract,
    /// shift right, subtract from, shift left. The result goes to Vx first
    /// and the flag to VF after it, so with x = F the flag is what stays.
    pub open spec fn execute_alu(self, word: u16) -> Outcome {
        let x = nibble_of(word, 1);
        let y = nibble_of(word, 2);
        let op = nibble_of(word, 3);
        match alu_value(op, self.v[x], self.v[y]) {
            Some(value) => {
                let stored = self.advance(2).set_v(x, value);
                match alu_flag(op, self.v[x], self.v[y]) {
                    Some(flag) => stored.set_v(FLAG as int, flag).done(),
                    None => stored.done(),
                }
            },
            None => self.fails(ErrorKind::UnimplementedOpcode, word),
        }
    }

    /// The word Dxyn: draw the n-byte sprite at I with its corner at
    /// (Vx, Vy). VF is cleared before the coordinates are read, and holds 1
    /// afterwards if the sprite turned a cell off.
    pub open spec fn execute_draw(self, word: u16) -> Outcome {
        let x = nibble_of(word, 1);
        let y = nibble_of(word, 2);
        let n = nibble_of(word, 3);
        if self.i + n > MEMORY_SIZE {
            self.fails(ErrorKind::AddressOutOfRange, word)
        } else {
            let cleared = self.v.update(FLAG as int, 0u8);
            let sprite = self.memory.subrange(self.i as int, self.i + n);
            let collision = sprite_collides(self.framebuffer, cleared[x], cleared[y], sprite);
            Outcome {
                machine: Machine {
                    framebuffer: draw_sprite(self.framebuffer, cleared[x], cleared[y], sprite),
                    v: cleared.update(
                        FLAG as int,
                        if collision {
                            1u8
                        } else {
                            0u8
                        },
                    ),
                    ..self.advance(2)
                },
                result: Ok(Action::DrawFrame),
            }
        }
    }

    /// The words Ex9E and ExA1: skip the next instruction if the key Vx is
    /// down, or if it is up. `key_down` is the host's answer for that key.
    /// Any other low byte names no operation, whatever Vx holds; with one of
    /// the two, a number in Vx above 0xF is that of no key.
    pub open spec fn execute_key(self, word: u16, key_down: bool) -> Outcome {
        let x = nibble_of(word, 1);
        let kk = byte_of(word);
        if kk != 0x9E && kk != 0xA1 {
            self.fails(ErrorKind::UnimplementedOpcode, word)
        } else if self.v[x] > 0xF {
            self.fails(ErrorKind::InvalidKey, word)
        } else if kk == 0x9E {
            self.skip_if(key_down).done()
        } else {
            self.skip_if(!key_down).done()
        }
    }

    /// The words Fx07 to Fx65: timers, key wait, index arithmetic and the
    /// transfers between registers and memory.
    pub open spec fn execute_misc(self, word: u16) -> Outcome {
        let x = nibble_of(word, 1);
        let kk = byte_of(word);
        let vx = self.v[x];
        let next = self.advance(2);
        if kk == 0x07 {
            next.set_v(x, self.dt).done()
        } else if kk == 0x0A {
            Outcome {
                machine: Machine { wait: Some(x as u8), ..next },
                result: Ok(Action::WaitForKey),
            }
        } else if kk == 0x15 {
            (Machine { dt: vx, ..next }).done()
        } else if kk == 0x18 {
            (Machine { st: vx, ..next }).done()
        } else if kk == 0x1E {
            (Machine { i: ((self.i + vx) % 0x10000) as u16, ..next }).done()
        } else if kk == 0x29 {
            (Machine { i: (HEX_SPRITE_START + vx * HEX_SPRITE_LEN) as u16, ..next }).done()
        } else if kk == 0x33 {
            let digits = decimal_digits(vx);
            if self.i + digits.len() > MEMORY_SIZE {
                self.fails(ErrorKind::AddressOutOfRange, word)
            } else {
                (Machine { memory: with_block(self.memory, self.i as int, digits), ..next }).done()
            }
        } else if kk == 0x55 {
            if self.i + x + 1 > MEMORY_SIZE {
                self.fails(ErrorKind::AddressOutOfRange, word)
            } else {
                (Machine {
                    memory: with_block(self.memory, self.i as int, self.v.take(x + 1)),
                    ..next
                }).done()
            }
        } else if kk == 0x65 {
            if self.i + x + 1 > MEMORY_SIZE {
                self.fails(ErrorKind::AddressOutOfRange, word)
            } else {
                (Machine {
                    v: with_block(self.v, 0, self.memory.subrange(self.i as int, self.i + x + 1)),
                    ..next
                }).done()
            }
        } else {
            self.fails(ErrorKind::UnimplementedOpcode, word)
        }
    }

    /// What the instruction `word` does to the machine whose program counter
    /// stands at that instruction. `rnd` is the random byte that Cxkk uses and
    /// `key_down` the state of the key that Ex9E and ExA1 ask for; no other
    /// instruction looks at them.
    pub open spec fn execute(self, word: u16, rnd: u8, key_down: bool) -> Outcome {
        let op = nibble_of(word, 0);
        let x = nibble_of(word, 1);
        let y = nibble_of(word, 2);
        let kk = byte_of(word) as u8;
        let nnn = address_of(word);
        if self.pc + 2 > MEMORY_SIZE {
            self.fails(ErrorKind::AddressOutOfRange, word)
        } else if op == 0x0 {
            self.execute_system(word)
        } else if op == 0x1 {
            (Machine { pc: nnn as u16, ..self }).done()
        } else if op == 0x2 {
            self.execute_call(word)
        } else if op == 0x3 {
            self.skip_if(self.v[x] == kk).done()
        } else if op == 0x4 {
            self.skip_if(self.v[x] != kk).done()
        } else if op == 0x5 {
            self.skip_if(self.v[x] == self.v[y]).done()
        } else if op == 0x6 {
            self.advance(2).set_v(x, kk).done()
        } else if op == 0x7 {
            self.advance(2).set_v(x, ((self.v[x] + kk) % 256) as u8).done()
        } else if op == 0x8 {
            self.execute_alu(word)
        } else if op == 0x9 {
            self.skip_if(self.v[x] != self.v[y]).done()
        } else if op == 0xA {
            (Machine { i: nnn as u16, ..self.advance(2) }).done()
        } else if op == 0xB {
            (Machine { pc: (nnn + self.v[0]) as u16, ..self }).done()
        } else if op == 0xC {
            self.advance(2).set_v(x, rnd & kk).done()
        } else if op == 0xD {
            self.execute_draw(word)
        } else if op == 0xE {
            self.execute_key(word, key_down)
        } else {
            self.execute_misc(word)
        }
    }

    /// Whether a whole instruction lies in memory at the program counter.
    pub open spec fn holds_instruction(self) -> bool {
        self.pc + 2 <= MEMORY_SIZE
    }

    /// Whether the instruction `word` asks the keypad about a key: it is
    /// Ex9E or ExA1, and the number in Vx is that of a key.
    pub open spec fn asks_key(self, word: u16) -> bool {
        &&& nibble_of(word, 0) == 0xE
        &&& byte_of(word) == 0x9E || byte_of(word) == 0xA1
        &&& self.v[nibble_of(word, 1)] <= 0xF
    }

    /// Whether what the instruction `word` does depends on something outside
    /// the machine: a random byte, or the state of a key.
    pub open spec fn asks_outside(self, word: u16) -> bool {
        nibble_of(word, 0) == 0xC || self.asks_key(word)
    }

    /// The instruction word at the program counter, high byte first.
    pub open spec fn current_word(self) -> u16 {
        word_of(self.memory[self.pc as int], self.memory[self.pc + 1])
    }

    /// One cycle: fetch the word at the program counter and execute it. A
    /// program counter with no whole instruction under it is a fault with
    /// opcode 0.
    pub open spec fn step(self, rnd: u8, key_down: bool) -> Outcome {
        if self.pc + 2 > MEMORY_SIZE {
            self.fails(ErrorKind::AddressOutOfRange, 0)
        } else {
            self.execute(self.current_word(), rnd, key_down)
        }
    }

    /// The state after the host reports the press of the key numbered `key`:
    /// a waiting machine stores the number in the register that waits and
    /// runs again; a running machine ignores the press.
    pub open spec fn key_pressed(self, key: u8) -> Machine {
        match self.wait {
            Some(register) => Machine { wait: None, ..self.set_v(register as int, key) },
            None => self,
        }
    }

    /// The state after `updates` timer periods: each timer is that much
    /// lower, but not below zero.
    pub open spec fn decay_timers(self, updates: int) -> Machine {
        Machine {
            dt: if updates >= self.dt {
                0u8
            } else {
                (self.dt - updates) as u8
            },
            st: if updates >= self.st {
                0u8
            } else {
                (self.st - updates) as u8
            },
            ..self
        }
    }

    /// The state after a program image is loaded: the image lies at the load
    /// address, or, where it does not fit, nothing has changed.
    pub open spec fn load_rom(self, rom: Seq<u8>) -> Machine {
        if rom.len() + PROGRAM_START <= MEMORY_SIZE {
            Machine { memory: with_block(self.memory, PROGRAM_START as int, rom), ..self }
        } else {
            self
        }
    }
}

/// Whether `word` names an operation: it matches one of the patterns 00E0,
/// 00EE, 1nnn to 7xkk, 8xy0 to 8xy8, 8xyE, 9xy0 to Dxyn, Ex9E, ExA1, Fx07,
/// Fx0A, Fx15, Fx18, Fx1E, Fx29, Fx33, Fx55 and Fx65. The low nibble of 5xy0
/// and 9xy0 is not looked at.
pub open spec fn names_operation(word: u16) -> bool {
    let op = nibble_of(word, 0);
    let n = nibble_of(word, 3);
    let kk = byte_of(word);
    if op == 0x0 {
        word == 0x00E0 || word == 0x00EE
    } else if op == 0x8 {
        n <= 0x8 || n == 0xE
    } else if op == 0xE {
        kk == 0x9E || kk == 0xA1
    } else if op == 0xF {
        kk == 0x07 || kk == 0x0A || kk == 0x15 || kk == 0x18 || kk == 0x1E || kk == 0x29 || kk
            == 0x33 || kk == 0x55 || kk == 0x65
    } else {
        true
    }
}

/// Whether one cycle on the machine in state `a` can leave it in state `b`
/// with the fault `fault`, or without one where `fault` is `None`: it does so
/// for some random byte and some answer of the keypad.
#[verifier::opaque]
pub open spec fn step_gives(a: Machine, b: Machine, fault: Option<Fault>) -> bool {
    exists|rnd: u8, key_down: bool| (#[trigger] a.step(rnd, key_down)).gives(b, fault)
}

/// Whether `n` cycles can take the machine from state `a` to state `b`, none
/// of them made while the machine waits for a key, and none of them failing.
pub open spec fn runs_to(a: Machine, b: Machine, n: nat) -> bool
    decreases n,
{
    if n == 0 {
        a == b
    } else {
        exists|mid: Machine|
            runs_to(a, mid, (n - 1) as nat) && mid.wait is None && #[trigger] step_gives(
                mid,
                b,
                None,
            )
    }
}

/// A run goes on by one cycle.
pub proof fn lemma_runs_on(a: Machine, mid: Machine, b: Machine, n: nat)
    requires
        runs_to(a, mid, n),
        mid.wait is None,
        step_gives(mid, b, None),
    ensures
        runs_to(a, b, n + 1),
{
    assert(((n + 1) - 1) as nat == n);
}

/// The most cycles that a tick may run on the machine in state `a`: none
/// while it waits for a key, else what the cadence is entitled to.
pub open spec fn tick_budget(a: Machine, cycles_due: int) -> int {
    if a.wait is Some {
        0
    } else {
        cycles_due
    }
}

/// Whether a tick with a budget of `budget` cycles that left the machine in
/// state `b` and returned `result` did what a tick must on state `a`.
///
/// A tick that returns a count has run that many cycles, and stopped short
/// of its budget only because the machine began to wait for a key. A tick
/// that returns a fault has run fewer cycles than its budget, and `b` is the
/// state in which the next instruction then failed with that fault.
pub open spec fn ticks_to(a: Machine, b: Machine, budget: int, result: Result<u64, Fault>) -> bool {
    match result {
        Ok(cycles) => {
            &&& cycles <= budget
            &&& runs_to(a, b, cycles as nat)
            &&& cycles < budget ==> b.wait is Some
        },
        Err(fault) => exists|cycles: nat|
            {
                &&& cycles < budget
                &&& #[trigger] runs_to(a, b, cycles)
                &&& b.wait is None
                &&& step_gives(b, b, Some(fault))
            },
    }
}

/// A failed instruction leaves the machine as it was.
pub proof fn lemma_failure_keeps_state(m: Machine, word: u16, rnd: u8, key_down: bool)
    ensures
        m.execute(word, rnd, key_down).result is Err ==> m.execute(word, rnd, key_down).machine
            == m,
        m.step(rnd, key_down).result is Err ==> m.step(rnd, key_down).machine == m,
{
}

/// A cycle that fails leaves the machine as it was.
pub proof fn lemma_failed_step(a: Machine, b: Machine, fault: Fault)
    requires
        step_gives(a, b, Some(fault)),
    ensures
        b == a,
{
    reveal(step_gives);
    let (rnd, key_down) = choose|rnd: u8, key_down: bool|
        (#[trigger] a.step(rnd, key_down)).gives(b, Some(fault));
    lemma_failure_keeps_state(a, 0, rnd, key_down);
}

} // verus!
