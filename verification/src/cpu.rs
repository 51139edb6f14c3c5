//! The execution engine.
//!
//! `Cpu` owns the whole state of the machine and the clock of its two
//! cadences. Its state, seen as a `Machine`, changes only as the functions of
//! `machine` say.

use vstd::prelude::*;
use crate::backend::{Backend, Keys, WaitingKey};
use crate::display::Framebuffer;
use crate::error::{ErrorKind, Fault};
use crate::instruction::{address_of, byte_of, nibble_of, Instruction};
use crate::keywait::PendingKeyWait;
use crate::machine::{
    alu_flag, alu_value, decimal_digits, fault_of, lemma_failed_step, lemma_runs_on, runs_to,
    step_gives, tick_budget, ticks_to, Action, Machine,
};
use crate::memory::{
    with_block, Memory, HEX_SPRITES, HEX_SPRITE_LEN, HEX_SPRITE_START, MEMORY_SIZE, PROGRAM_START,
};
use crate::random::random_byte;
use crate::registers::{Registers, FLAG};
use crate::stack::CallStack;
use crate::timing::{Cadence, CycleHandler};

verus! {

/// The machine.
pub struct Cpu {
    memory: Memory,
    framebuffer: Framebuffer,
    registers: Registers,
    pc: u16,
    i: u16,
    dt: u8,
    st: u8,
    register_to_save_key: PendingKeyWait,
    stack: CallStack,
    cycle_handler: CycleHandler,
}

impl View for Cpu {
    type V = Machine;

    closed spec fn view(&self) -> Machine {
        Machine {
            memory: self.memory@,
            framebuffer: self.framebuffer@,
            v: self.registers@,
            pc: self.pc,
            i: self.i,
            dt: self.dt,
            st: self.st,
            stack: self.stack@,
            wait: self.register_to_save_key@,
        }
    }
}

/// The result and flag of the register-to-register operation `op` on the
/// values of Vx and Vy, if `op` names one.
pub fn alu(op: u8, vx: u8, vy: u8) -> (result: Option<(u8, Option<u8>)>)
    ensures
        match result {
            Some((value, flag)) => alu_value(op as int, vx, vy) == Some(value) && alu_flag(
                op as int,
                vx,
                vy,
            ) == flag,
            None => alu_value(op as int, vx, vy) is None,
        },
{
    match op {
        0x0 => Some((vy, None)),
        0x1 => Some((vx | vy, None)),
        0x2 => Some((vx & vy, None)),
        0x3 => Some((vx ^ vy, None)),
        0x4 => {
            let sum: u16 = vx as u16 + vy as u16;
            let carry: u8 = if sum > 255 {
                1
            } else {
                0
            };
            Some(((sum % 256) as u8, Some(carry)))
        },
        0x5 => {
            let no_borrow: u8 = if vx > vy {
                1
            } else {
                0
            };
            Some((vx.wrapping_sub(vy), Some(no_borrow)))
        },
        0x6 => {
            proof {
                assert(vx >> 1 == vx / 2) by (bit_vector);
                assert(vx & 1 == vx % 2) by (bit_vector);
            }
            Some((vx >> 1, Some(vx & 1)))
        },
        0x7 => {
            let no_borrow: u8 = if vy > vx {
                1
            } else {
                0
            };
            Some((vy.wrapping_sub(vx), Some(no_borrow)))
        },
        0x8 | 0xE => {
            proof {
                assert(vx << 1 == (vx * 2) % 256) by (bit_vector);
                assert(vx >> 7 == vx / 128) by (bit_vector);
            }
            Some((vx << 1, Some(vx >> 7)))
        },
        _ => None,
    }
}

/// The decimal digits of `value`, most significant first, without leading
/// zeros.
pub fn digits_of(value: u8) -> (digits: Vec<u8>)
    ensures
        digits@ == decimal_digits(value),
{
    let mut digits: Vec<u8> = Vec::new();
    if value >= 100 {
        digits.push(value / 100);
    }
    if value >= 10 {
        digits.push(value / 10 % 10);
    }
    digits.push(value % 10);
    assert(digits@ =~= decimal_digits(value));
    digits
}

impl Cpu {
    /// The clock of the machine's cadences.
    pub closed spec fn cadence(&self) -> Cadence {
        self.cycle_handler@
    }

    /// The machine is in order: its parts keep their invariants.
    fn in_order(&self)
        ensures
            self@.wf(),
    {
        proof {
            use_type_invariant(&self.stack);
            use_type_invariant(&self.framebuffer);
            use_type_invariant(&self.register_to_save_key);
            self.memory.lemma_len();
            self.registers.lemma_len();
            self.stack.lemma_inv();
            self.framebuffer.lemma_inv();
            self.register_to_save_key.lemma_inv();
        }
    }

    /// A machine switched on at time `now`, in nanoseconds on the host's
    /// clock: glyphs in memory, no program, nothing due.
    pub fn new(now: u64) -> (cpu: Cpu)
        ensures
            cpu@ == Machine::initial(),
            cpu@.wf(),
            cpu.cadence() == (Cadence { started: now, ticks_done: 0, timer_updates_done: 0 }),
    {
        let cpu = Cpu {
            registers: Registers::default(),
            memory: Memory::new(),
            i: 0,
            stack: CallStack::new(),
            dt: 0,
            st: 0,
            register_to_save_key: PendingKeyWait::new(),
            framebuffer: Framebuffer::new(),
            cycle_handler: CycleHandler::new(now),
            pc: PROGRAM_START,
        };
        cpu.in_order();
        cpu
    }

    /// Loads a program image at 0x200. An image of more than 4096 - 0x200
    /// bytes is refused with `LoadError`, and nothing changes.
    pub fn load_rom(&mut self, rom: &[u8]) -> (result: Result<(), ErrorKind>)
        ensures
            match result {
                Ok(()) => rom@.len() + PROGRAM_START <= MEMORY_SIZE,
                Err(kind) => kind == ErrorKind::LoadError && rom@.len() + PROGRAM_START
                    > MEMORY_SIZE,
            },
            final(self)@ == old(self)@.load_rom(rom@),
            final(self)@.wf(),
            final(self).cadence() == old(self).cadence(),
    {
        let result = self.memory.load(rom);
        self.in_order();
        result
    }

    /// Writes the glyph table to its place in memory.
    pub fn load_hex_sprites(&mut self)
        ensures
            final(self)@ == (Machine {
                memory: with_block(old(self)@.memory, HEX_SPRITE_START as int, HEX_SPRITES@),
                ..old(self)@
            }),
            final(self)@.wf(),
            final(self).cadence() == old(self).cadence(),
    {
        self.memory.load_hex_sprites();
        self.in_order();
    }

    /// Lets the timers decay up to time `now`: each goes down by one for
    /// every sixtieth of a second that has passed since it last did, and
    /// stops at zero.
    pub fn update_timers(&mut self, now: u64)
        ensures
            final(self)@ == old(self)@.decay_timers(old(self).cadence().timer_updates_due(now)),
            final(self)@.wf(),
            final(self).cadence() == old(self).cadence().after_timer_update(now),
    {
        let updates: u64 = self.cycle_handler.take_timer_updates(now);
        if updates >= self.dt as u64 {
            self.dt = 0;
        } else {
            self.dt -= updates as u8;
        }
        if updates >= self.st as u64 {
            self.st = 0;
        } else {
            self.st -= updates as u8;
        }
        self.in_order();
    }

    /// Takes the press of `key`. A machine that waits for a key stores the
    /// key's number in the register that waits and runs again; a machine
    /// that does not wait ignores the press.
    pub fn waiting_key_pressed(&mut self, key: Keys)
        ensures
            final(self)@ == old(self)@.key_pressed(key.value()),
            final(self)@.wf(),
            final(self).cadence() == old(self).cadence(),
    {
        match self.register_to_save_key.resolve() {
            Some(nibble) => {
                let value: u8 = key.into();
                let register = self.registers.get_register_by_nibble(nibble);
                *register = value;
            },
            None => {},
        }
        self.in_order();
    }

    /// The fault of the instruction `word` at the program counter.
    fn fault(&self, kind: ErrorKind, word: u16) -> (fault: Fault)
        ensures
            fault == (Fault { kind, pc: self@.pc, opcode: word }),
    {
        Fault { kind, pc: self.pc, opcode: word }
    }

    /// The words 00E0 and 00EE.
    fn execute_system(&mut self, word: u16) -> (result: Result<Action, Fault>)
        requires
            old(self)@.pc + 2 <= MEMORY_SIZE,
        ensures
            final(self)@ == old(self)@.execute_system(word).machine,
            result == old(self)@.execute_system(word).result,
            final(self).cadence() == old(self).cadence(),
    {
        if word == 0x00E0 {
            self.framebuffer.clear();
            self.pc += 2;
            Ok(Action::Continue)
        } else if word == 0x00EE {
            match self.stack.pop() {
                Ok(address) => {
                    self.pc = address;
                    Ok(Action::Continue)
                },
                Err(kind) => Err(self.fault(kind, word)),
            }
        } else {
            Err(self.fault(ErrorKind::UnimplementedOpcode, word))
        }
    }

    /// The word 2nnn.
    fn execute_call(&mut self, word: u16, nnn: u16) -> (result: Result<Action, Fault>)
        requires
            old(self)@.pc + 2 <= MEMORY_SIZE,
            nnn == address_of(word),
        ensures
            final(self)@ == old(self)@.execute_call(word).machine,
            result == old(self)@.execute_call(word).result,
            final(self).cadence() == old(self).cadence(),
    {
        match self.stack.push(self.pc + 2) {
            Ok(()) => {
                self.pc = nnn;
                Ok(Action::Continue)
            },
            Err(kind) => Err(self.fault(kind, word)),
        }
    }

    /// The words 8xy0 to 8xy8 and 8xyE.
    fn execute_alu(&mut self, word: u16, x: u8, y: u8, op: u8) -> (result: Result<Action, Fault>)
        requires
            old(self)@.pc + 2 <= MEMORY_SIZE,
            x == nibble_of(word, 1),
            y == nibble_of(word, 2),
            op == nibble_of(word, 3),
        ensures
            final(self)@ == old(self)@.execute_alu(word).machine,
            result == old(self)@.execute_alu(word).result,
            final(self).cadence() == old(self).cadence(),
    {
        let vx: u8 = self.registers.get_register_value(x);
        let vy: u8 = self.registers.get_register_value(y);
        match alu(op, vx, vy) {
            Some((value, flag)) => {
                self.registers.set_register_value(x, value);
                match flag {
                    Some(flag) => self.registers.set_register_value(FLAG, flag),
                    None => {},
                }
                self.pc += 2;
                Ok(Action::Continue)
            },
            None => Err(self.fault(ErrorKind::UnimplementedOpcode, word)),
        }
    }

    /// The word Dxyn.
    fn execute_draw(&mut self, word: u16, x: u8, y: u8, n: u8) -> (result: Result<Action, Fault>)
        requires
            old(self)@.pc + 2 <= MEMORY_SIZE,
            x == nibble_of(word, 1),
            y == nibble_of(word, 2),
            n == nibble_of(word, 3),
        ensures
            final(self)@ == old(self)@.execute_draw(word).machine,
            result == old(self)@.execute_draw(word).result,
            final(self).cadence() == old(self).cadence(),
    {
        proof {
            self.memory.lemma_len();
        }
        match self.memory.block(self.i as usize, n as usize) {
            Ok(sprite) => {
                assert(sprite@.len() == n);
                self.registers.set_register_value(FLAG, 0);
                let vx: u8 = self.registers.get_register_value(x);
                let vy: u8 = self.registers.get_register_value(y);
                let collision: bool = self.framebuffer.draw_sprite(vx, vy, sprite);
                self.registers.set_register_value(
                    FLAG,
                    if collision {
                        1
                    } else {
                        0
                    },
                );
                self.pc += 2;
                Ok(Action::DrawFrame)
            },
            Err(kind) => Err(self.fault(kind, word)),
        }
    }

    /// The words Ex9E and ExA1.
    fn execute_key(&mut self, word: u16, x: u8, kk: u8, key_down: bool) -> (result:
        Result<Action, Fault>)
        requires
            old(self)@.pc + 2 <= MEMORY_SIZE,
            x == nibble_of(word, 1),
            kk == byte_of(word),
        ensures
            final(self)@ == old(self)@.execute_key(word, key_down).machine,
            result == old(self)@.execute_key(word, key_down).result,
            final(self).cadence() == old(self).cadence(),
    {
        if kk != 0x9E && kk != 0xA1 {
            return Err(self.fault(ErrorKind::UnimplementedOpcode, word));
        }
        let vx: u8 = self.registers.get_register_value(x);
        if vx > 0xF {
            Err(self.fault(ErrorKind::InvalidKey, word))
        } else if kk == 0x9E {
            self.skip_if(key_down);
            Ok(Action::Continue)
        } else {
            self.skip_if(!key_down);
            Ok(Action::Continue)
        }
    }

    /// Moves the program counter past the next instruction too if `skip`
    /// holds, else just past this one.
    fn skip_if(&mut self, skip: bool)
        requires
            old(self)@.pc + 2 <= MEMORY_SIZE,
        ensures
            final(self)@ == old(self)@.skip_if(skip),
            final(self).cadence() == old(self).cadence(),
    {
        if skip {
            self.pc += 4;
        } else {
            self.pc += 2;
        }
    }

    /// The words Fx07 to Fx65.
    fn execute_misc(&mut self, word: u16, x: u8, kk: u8) -> (result: Result<Action, Fault>)
        requires
            old(self)@.pc + 2 <= MEMORY_SIZE,
            x == nibble_of(word, 1),
            kk == byte_of(word),
        ensures
            final(self)@ == old(self)@.execute_misc(word).machine,
            result == old(self)@.execute_misc(word).result,
            final(self).cadence() == old(self).cadence(),
    {
        proof {
            self.memory.lemma_len();
            self.registers.lemma_len();
        }
        let vx: u8 = self.registers.get_register_value(x);
        match kk {
            0x07 => {
                self.registers.set_register_value(x, self.dt);
            },
            0x0A => {
                self.register_to_save_key.begin(x);
                self.pc += 2;
                return Ok(Action::WaitForKey);
            },
            0x15 => {
                self.dt = vx;
            },
            0x18 => {
                self.st = vx;
            },
            0x1E => {
                self.i = self.i.wrapping_add(vx as u16);
            },
            0x29 => {
                self.i = HEX_SPRITE_START + vx as u16 * HEX_SPRITE_LEN;
            },
            0x33 => {
                let digits: Vec<u8> = digits_of(vx);
                assert(digits@.len() == decimal_digits(vx).len());
                match self.memory.write_block(self.i as usize, digits.as_slice()) {
                    Ok(()) => {},
                    Err(kind) => {
                        return Err(self.fault(kind, word));
                    },
                }
            },
            0x55 => {
                let block: &[u8] = self.registers.first(x);
                assert(block@.len() == x + 1);
                match self.memory.write_block(self.i as usize, block) {
                    Ok(()) => {},
                    Err(kind) => {
                        return Err(self.fault(kind, word));
                    },
                }
            },
            0x65 => {
                match self.memory.block(self.i as usize, x as usize + 1) {
                    Ok(block) => {
                        assert(block@.len() == x + 1);
                        self.registers.load(block);
                    },
                    Err(kind) => {
                        return Err(self.fault(kind, word));
                    },
                }
            },
            _ => {
                return Err(self.fault(ErrorKind::UnimplementedOpcode, word));
            },
        }
        self.pc += 2;
        Ok(Action::Continue)
    }

    /// Executes `instruction` on the machine whose program counter stands at
    /// it. `rnd` is the random byte for Cxkk and `key_down` the state of the
    /// key that Ex9E or ExA1 asks for. The machine's clock is not touched.
    pub fn execute(&mut self, instruction: Instruction, rnd: u8, key_down: bool) -> (result:
        Result<Action, Fault>)
        ensures
            final(self)@ == old(self)@.execute(instruction.word(), rnd, key_down).machine,
            result == old(self)@.execute(instruction.word(), rnd, key_down).result,
            final(self)@.wf(),
            final(self).cadence() == old(self).cadence(),
    {
        self.in_order();
        let word: u16 = instruction.get_u16_instruction();
        if self.pc > 4094 {
            return Err(self.fault(ErrorKind::AddressOutOfRange, word));
        }
        let op: u8 = instruction.get_nibble(0);
        let x: u8 = instruction.get_nibble(1);
        let y: u8 = instruction.get_nibble(2);
        let n: u8 = instruction.get_nibble(3);
        let kk: u8 = instruction.get_byte();
        let nnn: u16 = instruction.get_address();
        let result = match op {
            0x0 => self.execute_system(word),
            0x1 => {
                self.pc = nnn;
                Ok(Action::Continue)
            },
            0x2 => self.execute_call(word, nnn),
            0x3 => {
                let vx: u8 = self.registers.get_register_value(x);
                self.skip_if(vx == kk);
                Ok(Action::Continue)
            },
            0x4 => {
                let vx: u8 = self.registers.get_register_value(x);
                self.skip_if(vx != kk);
                Ok(Action::Continue)
            },
            0x5 => {
                let vx: u8 = self.registers.get_register_value(x);
                let vy: u8 = self.registers.get_register_value(y);
                self.skip_if(vx == vy);
                Ok(Action::Continue)
            },
            0x6 => {
                self.registers.set_register_value(x, kk);
                self.pc += 2;
                Ok(Action::Continue)
            },
            0x7 => {
                let register = self.registers.get_register_by_nibble(x);
                *register = register.wrapping_add(kk);
                self.pc += 2;
                Ok(Action::Continue)
            },
            0x8 => self.execute_alu(word, x, y, n),
            0x9 => {
                let vx: u8 = self.registers.get_register_value(x);
                let vy: u8 = self.registers.get_register_value(y);
                self.skip_if(vx != vy);
                Ok(Action::Continue)
            },
            0xA => {
                self.i = nnn;
                self.pc += 2;
                Ok(Action::Continue)
            },
            0xB => {
                self.pc = nnn + self.registers.get_register_value(0) as u16;
                Ok(Action::Continue)
            },
            0xC => {
                self.registers.set_register_value(x, rnd & kk);
                self.pc += 2;
                Ok(Action::Continue)
            },
            0xD => self.execute_draw(word, x, y, n),
            0xE => self.execute_key(word, x, kk, key_down),
            _ => self.execute_misc(word, x, kk),
        };
        self.in_order();
        result
    }

    /// The key that `instruction` asks the keypad about, if it asks about
    /// one.
    pub fn key_wanted(&self, instruction: Instruction) -> (key: Option<Keys>)
        ensures
            key is Some <==> self@.asks_key(instruction.word()),
            key matches Some(wanted) ==> wanted.value() == self@.v[nibble_of(
                instruction.word(),
                1,
            )],
    {
        let kk: u8 = instruction.get_byte();
        if instruction.get_nibble(0) == 0xE && (kk == 0x9E || kk == 0xA1) {
            let vx: u8 = self.registers.get_register_value(instruction.get_nibble(1));
            if vx <= 0xF {
                Some(Keys::from(vx))
            } else {
                None
            }
        } else {
            None
        }
    }

    /// Executes `instruction` with what it needs of the outside: a random
    /// byte for Cxkk, the state of a key for Ex9E and ExA1. Delivers the
    /// frame to `backend` after a draw, and tells it when the machine begins
    /// to wait for a key.
    ///
    /// The machine ends in the state that `Machine::execute` gives for the
    /// byte that was drawn and the answer that `backend` gave. Where the
    /// instruction asks for neither, that state is the only one it can end
    /// in.
    pub fn decode<B: Backend>(&mut self, backend: &mut B, instruction: Instruction) -> (result:
        Result<(), Fault>)
        ensures
            exists|rnd: u8, key_down: bool|
                (#[trigger] old(self)@.execute(instruction.word(), rnd, key_down)).gives(
                    final(self)@,
                    fault_of(result),
                ),
            !old(self)@.asks_outside(instruction.word()) ==> old(self)@.execute(
                instruction.word(),
                0,
                false,
            ).gives(final(self)@, fault_of(result)),
            final(self)@.wf(),
            final(self).cadence() == old(self).cadence(),
    {
        let rnd: u8 = if instruction.get_nibble(0) == 0xC {
            random_byte()
        } else {
            0
        };
        let key_down: bool = match self.key_wanted(instruction) {
            Some(key) => backend.poll_key(key),
            None => false,
        };
        let result = match self.execute(instruction, rnd, key_down) {
            Ok(Action::Continue) => Ok(()),
            Ok(Action::DrawFrame) => {
                backend.draw_frame(self.framebuffer.cells());
                Ok(())
            },
            Ok(Action::WaitForKey) => {
                backend.wait_for_key();
                Ok(())
            },
            Err(fault) => Err(fault),
        };
        assert(old(self)@.execute(instruction.word(), rnd, key_down).gives(
            self@,
            fault_of(result),
        ));
        result
    }

    /// One cycle: fetches the instruction at the program counter and
    /// executes it, as `decode` does. Where there is no whole instruction at
    /// the program counter the cycle fails, and the machine stays as it is.
    pub fn fetch<B: Backend>(&mut self, backend: &mut B) -> (result: Result<(), Fault>)
        ensures
            step_gives(old(self)@, final(self)@, fault_of(result)),
            old(self)@.pc + 2 > MEMORY_SIZE || !old(self)@.asks_outside(old(self)@.current_word())
                ==> old(self)@.step(0, false).gives(final(self)@, fault_of(result)),
            final(self)@.wf(),
            final(self).cadence() == old(self).cadence(),
    {
        match self.memory.instruction_at(self.pc as usize) {
            Ok(instruction) => {
                let result = self.decode(backend, instruction);
                proof {
                    reveal(step_gives);
                    let (rnd, key_down) = choose|rnd: u8, key_down: bool|
                        (#[trigger] old(self)@.execute(instruction.word(), rnd, key_down)).gives(
                            self@,
                            fault_of(result),
                        );
                    assert(old(self)@.step(rnd, key_down).gives(self@, fault_of(result)));
                }
                result
            },
            Err(kind) => {
                let result = Err(self.fault(kind, 0));
                self.in_order();
                proof {
                    reveal(step_gives);
                    assert(old(self)@.step(0, false).gives(self@, fault_of(result)));
                }
                result
            },
        }
    }

    /// Runs the instructions that are due at time `now`, in nanoseconds on
    /// the host's clock, and returns how many it ran.
    ///
    /// A machine that waits for a key runs none, and its clock stands still.
    /// Otherwise one instruction is due for every 1/700 s that has passed
    /// since the last tick, but no more than `MAX_CATCH_UP` are run: the
    /// rest are dropped. The tick ends early when an instruction begins a
    /// key wait, and when one fails; the fault is returned, and the machine
    /// stays in the state in which the instruction failed.
    pub fn tick<B: Backend>(&mut self, backend: &mut B, now: u64) -> (result: Result<u64, Fault>)
        ensures
            ticks_to(
                old(self)@,
                final(self)@,
                tick_budget(old(self)@, old(self).cadence().cycles_due(now)),
                result,
            ),
            final(self)@.wf(),
            final(self).cadence() == if old(self)@.wait is Some {
                old(self).cadence()
            } else {
                old(self).cadence().after_tick(now)
            },
    {
        self.in_order();
        if self.register_to_save_key.is_waiting() {
            return Ok(0);
        }
        let cycles: u64 = self.cycle_handler.take_cycles(now);
        let mut done: u64 = 0;
        while done < cycles && !self.register_to_save_key.is_waiting()
            invariant
                done <= cycles,
                cycles == old(self).cadence().cycles_due(now),
                old(self)@.wait is None,
                runs_to(old(self)@, self@, done as nat),
                self@.wf(),
                self.cadence() == old(self).cadence().after_tick(now),
            decreases cycles - done,
        {
            let ghost before = self@;
            match self.fetch(backend) {
                Ok(()) => {
                    proof {
                        lemma_runs_on(old(self)@, before, self@, done as nat);
                    }
                    done += 1;
                },
                Err(fault) => {
                    proof {
                        lemma_failed_step(before, self@, fault);
                    }
                    return Err(fault);
                },
            }
        }
        Ok(done)
    }

    /// The address of the next instruction.
    pub fn pc(&self) -> (pc: u16)
        ensures
            pc == self@.pc,
    {
        self.pc
    }

    /// The index register I.
    pub fn index(&self) -> (i: u16)
        ensures
            i == self@.i,
    {
        self.i
    }

    /// The delay timer.
    pub fn delay_timer(&self) -> (dt: u8)
        ensures
            dt == self@.dt,
    {
        self.dt
    }

    /// The sound timer.
    pub fn sound_timer(&self) -> (st: u8)
        ensures
            st == self@.st,
    {
        self.st
    }

    /// The value of the register that `nibble` addresses.
    pub fn register(&self, nibble: u8) -> (value: u8)
        requires
            nibble <= 0xF,
        ensures
            value == self@.v[nibble as int],
    {
        self.registers.get_register_value(nibble)
    }

    /// All of memory.
    pub fn memory(&self) -> (bytes: &[u8; 4096])
        ensures
            bytes@ == self@.memory,
    {
        self.memory.bytes()
    }

    /// The display: 64x32 cells in row order, each 0 or 1.
    pub fn framebuffer(&self) -> (cells: &[u8; 2048])
        ensures
            cells@ == self@.framebuffer,
    {
        self.framebuffer.cells()
    }

    /// How many return addresses are on the call stack.
    pub fn stack_depth(&self) -> (depth: usize)
        ensures
            depth == self@.stack.len(),
    {
        self.stack.depth()
    }

    /// Whether the machine waits for a key press.
    pub fn waiting_key(&self) -> (waiting: WaitingKey)
        ensures
            waiting == WaitingKey::Yes <==> self@.wait is Some,
    {
        if self.register_to_save_key.is_waiting() {
            WaitingKey::Yes
        } else {
            WaitingKey::No
        }
    }
}

} // verus!
