//! Laws of the machine: what holds of every state and every operand.

use vstd::prelude::*;
use crate::backend::Keys;
use crate::error::{ErrorKind, Fault};
use crate::display::lemma_draw_keeps_display;
use crate::instruction::{address_of, lemma_nibbles, nibble_of, word_from};
use crate::machine::{names_operation, tick_budget, ticks_to, Action, Machine};
use crate::registers::FLAG;
use crate::stack::STACK_DEPTH;
use crate::timing::{lemma_periods, periods, Cadence, NANOS_PER_SECOND, TIMER_UPDATES_PER_SECOND};

verus! {

/// 8xy4 stores the low byte of Vx + Vy in Vx and then the carry in VF: VF is
/// 1 exactly when the sum is above 255. With x = F the carry is what VF
/// holds.
pub proof fn lemma_add_sets_carry(m: Machine, x: int, y: int, rnd: u8, key_down: bool)
    requires
        m.wf(),
        0 <= x < 16,
        0 <= y < 16,
        m.holds_instruction(),
    ensures
        ({
            let after = m.execute(word_from(8, x, y, 4), rnd, key_down);
            &&& after.result == Ok::<Action, Fault>(Action::Continue)
            &&& after.machine.v[FLAG as int] == 1 <==> m.v[x] + m.v[y] > 255
            &&& after.machine.v[FLAG as int] == 0 <==> m.v[x] + m.v[y] <= 255
            &&& x != FLAG ==> after.machine.v[x] == (m.v[x] + m.v[y]) % 256
            &&& after.machine.pc == m.pc + 2
        }),
{
    lemma_nibbles(8, x, y, 4);
}

/// 8xy5 stores Vx - Vy, wrapped into a byte, in Vx and then sets VF to 1
/// exactly when Vx was greater than Vy before the subtraction.
pub proof fn lemma_sub_sets_no_borrow(m: Machine, x: int, y: int, rnd: u8, key_down: bool)
    requires
        m.wf(),
        0 <= x < 16,
        0 <= y < 16,
        m.holds_instruction(),
    ensures
        ({
            let after = m.execute(word_from(8, x, y, 5), rnd, key_down);
            &&& after.result == Ok::<Action, Fault>(Action::Continue)
            &&& after.machine.v[FLAG as int] == 1 <==> m.v[x] > m.v[y]
            &&& after.machine.v[FLAG as int] == 0 <==> m.v[x] <= m.v[y]
            &&& x != FLAG ==> after.machine.v[x] == (m.v[x] - m.v[y]) % 256
        }),
{
    lemma_nibbles(8, x, y, 5);
}

/// 8xy7 stores Vy - Vx, wrapped into a byte, in Vx and then sets VF to 1
/// exactly when Vy was greater than Vx before the subtraction.
pub proof fn lemma_reverse_sub_sets_no_borrow(
    m: Machine,
    x: int,
    y: int,
    rnd: u8,
    key_down: bool,
)
    requires
        m.wf(),
        0 <= x < 16,
        0 <= y < 16,
        m.holds_instruction(),
    ensures
        ({
            let after = m.execute(word_from(8, x, y, 7), rnd, key_down);
            &&& after.result == Ok::<Action, Fault>(Action::Continue)
            &&& after.machine.v[FLAG as int] == 1 <==> m.v[y] > m.v[x]
            &&& after.machine.v[FLAG as int] == 0 <==> m.v[y] <= m.v[x]
            &&& x != FLAG ==> after.machine.v[x] == (m.v[y] - m.v[x]) % 256
        }),
{
    lemma_nibbles(8, x, y, 7);
}

/// 8xy6 halves Vx and puts the low bit that Vx had before the shift in VF;
/// 8xyE doubles Vx, dropping what passes the byte, and puts the high bit that
/// Vx had before the shift in VF.
pub proof fn lemma_shifts_capture_bit(m: Machine, x: int, y: int, rnd: u8, key_down: bool)
    requires
        m.wf(),
        0 <= x < 16,
        0 <= y < 16,
        m.holds_instruction(),
    ensures
        ({
            let right = m.execute(word_from(8, x, y, 6), rnd, key_down);
            let left = m.execute(word_from(8, x, y, 0xE), rnd, key_down);
            &&& right.result == Ok::<Action, Fault>(Action::Continue)
            &&& right.machine.v[FLAG as int] == m.v[x] % 2
            &&& x != FLAG ==> right.machine.v[x] == m.v[x] / 2
            &&& left.result == Ok::<Action, Fault>(Action::Continue)
            &&& left.machine.v[FLAG as int] == m.v[x] / 128
            &&& x != FLAG ==> left.machine.v[x] == (m.v[x] * 2) % 256
        }),
{
    lemma_nibbles(8, x, y, 6);
    lemma_nibbles(8, x, y, 0xE);
}

/// An instruction that does not lie in memory is refused: where fewer than
/// two bytes of memory are left at the program counter, every word fails
/// with `AddressOutOfRange` and changes nothing.
pub proof fn lemma_instruction_past_memory(m: Machine, word: u16, rnd: u8, key_down: bool)
    requires
        !m.holds_instruction(),
    ensures
        m.execute(word, rnd, key_down) == m.fails(ErrorKind::AddressOutOfRange, word),
        m.step(rnd, key_down) == m.fails(ErrorKind::AddressOutOfRange, 0),
{
}

/// A word that names no operation is an unimplemented opcode and nothing
/// else: it fails with `UnimplementedOpcode`, whatever the registers hold,
/// and changes nothing. No word that names an operation fails so.
pub proof fn lemma_undefined_words(m: Machine, word: u16, rnd: u8, key_down: bool)
    requires
        m.holds_instruction(),
    ensures
        !names_operation(word) ==> m.execute(word, rnd, key_down) == m.fails(
            ErrorKind::UnimplementedOpcode,
            word,
        ),
        names_operation(word) ==> (m.execute(word, rnd, key_down).result matches Err(fault)
            ==> fault.kind != ErrorKind::UnimplementedOpcode),
{
    if nibble_of(word, 0) == 0x8 {
        assert(m.execute(word, rnd, key_down) == m.execute_alu(word));
    } else if nibble_of(word, 0) == 0xF {
        assert(m.execute(word, rnd, key_down) == m.execute_misc(word));
    }
}

/// Only Cxkk looks at the random byte, and only Ex9E and ExA1 at the key:
/// every other instruction does the same whatever byte was drawn and
/// whatever the keypad says.
pub proof fn lemma_outside_inputs(
    m: Machine,
    word: u16,
    rnd: u8,
    key_down: bool,
    other_rnd: u8,
    other_key_down: bool,
)
    ensures
        nibble_of(word, 0) != 0xC ==> m.execute(word, rnd, key_down) == m.execute(
            word,
            other_rnd,
            key_down,
        ),
        !m.asks_key(word) ==> m.execute(word, rnd, key_down) == m.execute(
            word,
            rnd,
            other_key_down,
        ),
{
}

/// A call followed by a return, whatever was executed between them that
/// left the stack as the call made it, puts the program counter on the
/// instruction after the call and the stack back as it was before it.
/// `call` is any word 2nnn, and `at_return` the machine that executes the
/// return.
pub proof fn lemma_call_return_round_trip(
    m: Machine,
    call: u16,
    at_return: Machine,
    rnd: u8,
    key_down: bool,
)
    requires
        m.wf(),
        m.holds_instruction(),
        m.stack.len() < STACK_DEPTH,
        nibble_of(call, 0) == 2,
        at_return.holds_instruction(),
        at_return.stack == m.execute(call, rnd, key_down).machine.stack,
    ensures
        ({
            let called = m.execute(call, rnd, key_down);
            let returned = at_return.execute(0x00EE, rnd, key_down);
            &&& called.result == Ok::<Action, Fault>(Action::Continue)
            &&& called.machine.pc == address_of(call)
            &&& returned.result == Ok::<Action, Fault>(Action::Continue)
            &&& returned.machine.pc == m.pc + 2
            &&& returned.machine.stack == m.stack
        }),
{
    let called = m.execute(call, rnd, key_down);
    assert(called == m.execute_call(call));
    assert(called.machine.stack == m.stack.push((m.pc + 2) as u16));
    assert(m.stack.push((m.pc + 2) as u16).drop_last() =~= m.stack);
    assert(nibble_of(0x00EE, 0) == 0);
    assert(at_return.execute(0x00EE, rnd, key_down) == at_return.execute_system(0x00EE));
}

/// Fx0A makes register x wait for a key. While it waits a tick runs no
/// instruction and leaves the machine as it is, whatever time has passed.
/// The press of a key puts that key's number in Vx and ends the wait, and
/// the next tick has its whole budget again.
pub proof fn lemma_key_wait_round_trip(
    m: Machine,
    x: int,
    key: Keys,
    cycles_due: int,
    rnd: u8,
    key_down: bool,
)
    requires
        m.wf(),
        0 <= x < 16,
        m.holds_instruction(),
    ensures
        ({
            let asked = m.execute(word_from(0xF, x, 0, 0xA), rnd, key_down);
            let resumed = asked.machine.key_pressed(key.value());
            &&& asked.result == Ok::<Action, Fault>(Action::WaitForKey)
            &&& asked.machine.wait == Some(x as u8)
            &&& asked.machine.pc == m.pc + 2
            &&& forall|b: Machine, result: Result<u64, Fault>|
                #[trigger] ticks_to(
                    asked.machine,
                    b,
                    tick_budget(asked.machine, cycles_due),
                    result,
                ) ==> b == asked.machine && result == Ok::<u64, Fault>(0)
            &&& resumed.wait is None
            &&& resumed.v[x] == key.value()
            &&& tick_budget(resumed, cycles_due) == cycles_due
        }),
{
    lemma_nibbles(0xF, x, 0, 0xA);
}

/// Drawing keeps the machine in order.
proof fn lemma_draw_keeps_wf(m: Machine, word: u16)
    requires
        m.wf(),
    ensures
        m.execute_draw(word).machine.wf(),
{
    let x = nibble_of(word, 1);
    let y = nibble_of(word, 2);
    let n = nibble_of(word, 3);
    let cleared = m.v.update(FLAG as int, 0u8);
    lemma_draw_keeps_display(
        m.framebuffer,
        cleared[x],
        cleared[y],
        m.memory.subrange(m.i as int, m.i + n),
    );
}

/// The timer, index and transfer instructions keep the machine in order.
proof fn lemma_misc_keeps_wf(m: Machine, word: u16)
    requires
        m.wf(),
    ensures
        m.execute_misc(word).machine.wf(),
{
}

/// The register-to-register operations keep the machine in order.
proof fn lemma_alu_keeps_wf(m: Machine, word: u16)
    requires
        m.wf(),
    ensures
        m.execute_alu(word).machine.wf(),
{
}

/// Clear, return, call and the key skips keep the machine in order.
proof fn lemma_flow_keeps_wf(m: Machine, word: u16, key_down: bool)
    requires
        m.wf(),
    ensures
        m.execute_system(word).machine.wf(),
        m.execute_call(word).machine.wf(),
        m.execute_key(word, key_down).machine.wf(),
{
}

/// Every instruction takes a machine that is in order to one that is,
/// whether it goes through or fails.
pub proof fn lemma_execute_keeps_wf(m: Machine, word: u16, rnd: u8, key_down: bool)
    requires
        m.wf(),
    ensures
        m.execute(word, rnd, key_down).machine.wf(),
        m.step(rnd, key_down).machine.wf(),
{
    lemma_draw_keeps_wf(m, word);
    lemma_misc_keeps_wf(m, word);
    lemma_alu_keeps_wf(m, word);
    lemma_flow_keeps_wf(m, word, key_down);
    let current = m.current_word();
    lemma_draw_keeps_wf(m, current);
    lemma_misc_keeps_wf(m, current);
    lemma_alu_keeps_wf(m, current);
    lemma_flow_keeps_wf(m, current, key_down);
}

/// A machine just switched on is in order, and a key press, the decay of the
/// timers and the loading of a program keep it so.
pub proof fn lemma_wf_is_kept(m: Machine, key: Keys, updates: int, rom: Seq<u8>)
    requires
        m.wf(),
    ensures
        Machine::initial().wf(),
        m.key_pressed(key.value()).wf(),
        m.decay_timers(updates).wf(),
        m.load_rom(rom).wf(),
{
}

/// The machine and its clock after timer updates at the times `times`, one
/// after another.
pub open spec fn after_timer_updates(m: Machine, c: Cadence, times: Seq<u64>) -> (Machine, Cadence)
    decreases times.len(),
{
    if times.len() == 0 {
        (m, c)
    } else {
        let (before, clock) = after_timer_updates(m, c, times.drop_last());
        (
            before.decay_timers(clock.timer_updates_due(times.last())),
            clock.after_timer_update(times.last()),
        )
    }
}

/// However the time is cut into timer updates, together they are one decay:
/// the timers go down by the number of periods that the clock has come to
/// account for, and the clock accounts for every period that had passed at
/// any of the updates.
pub proof fn lemma_timer_updates_add_up(m: Machine, c: Cadence, times: Seq<u64>)
    ensures
        ({
            let (after, clock) = after_timer_updates(m, c, times);
            &&& clock.started == c.started
            &&& clock.ticks_done == c.ticks_done
            &&& clock.timer_updates_done >= c.timer_updates_done
            &&& forall|k: int|
                0 <= k < times.len() ==> clock.timer_updates_done >= periods(
                    TIMER_UPDATES_PER_SECOND,
                    c.started,
                    #[trigger] times[k],
                )
            &&& after == m.decay_timers(clock.timer_updates_done - c.timer_updates_done)
        }),
    decreases times.len(),
{
    if times.len() > 0 {
        let earlier = times.drop_last();
        let now = times.last();
        lemma_timer_updates_add_up(m, c, earlier);
        lemma_periods(TIMER_UPDATES_PER_SECOND, c.started, now, now);
        let last = after_timer_updates(m, c, times).1;
        assert forall|k: int| 0 <= k < times.len() implies last.timer_updates_done >= periods(
            TIMER_UPDATES_PER_SECOND,
            c.started,
            #[trigger] times[k],
        ) by {
            if k < earlier.len() {
                assert(times[k] == earlier[k]);
            }
        }
    }
}

/// No timer update ever raises a timer: after more updates the timers are
/// no higher than after the first `k` of them.
pub proof fn lemma_timers_never_rise(m: Machine, c: Cadence, times: Seq<u64>, k: int)
    requires
        0 <= k <= times.len(),
    ensures
        after_timer_updates(m, c, times).0.dt <= after_timer_updates(m, c, times.take(k)).0.dt,
        after_timer_updates(m, c, times).0.st <= after_timer_updates(m, c, times.take(k)).0.st,
    decreases times.len(),
{
    if k == times.len() {
        assert(times.take(k) =~= times);
    } else {
        let earlier = times.drop_last();
        assert(earlier.take(k) =~= times.take(k));
        lemma_timers_never_rise(m, c, earlier, k);
    }
}

/// A timer runs out in time. Let the clock have accounted for no timer
/// period but those that had passed at the time `since`. If one of the
/// updates comes when at least as many sixtieths of a second have passed
/// since then as the delay timer held, the delay timer reads 0 after the
/// updates, however many they are and whenever the others come. The same
/// holds of the sound timer.
pub proof fn lemma_timer_runs_out(m: Machine, c: Cadence, times: Seq<u64>, since: u64, k: int)
    requires
        c.started <= since,
        c.timer_updates_done <= periods(TIMER_UPDATES_PER_SECOND, c.started, since),
        0 <= k < times.len(),
        since <= times[k],
    ensures
        (times[k] - since) * TIMER_UPDATES_PER_SECOND >= m.dt * NANOS_PER_SECOND
            ==> after_timer_updates(m, c, times).0.dt == 0,
        (times[k] - since) * TIMER_UPDATES_PER_SECOND >= m.st * NANOS_PER_SECOND
            ==> after_timer_updates(m, c, times).0.st == 0,
{
    lemma_timer_updates_add_up(m, c, times);
    let at = periods(TIMER_UPDATES_PER_SECOND, c.started, times[k]);
    let base = periods(TIMER_UPDATES_PER_SECOND, c.started, since);
    lemma_periods(TIMER_UPDATES_PER_SECOND, c.started, since, times[k]);
    if (times[k] - since) * TIMER_UPDATES_PER_SECOND >= m.dt * NANOS_PER_SECOND {
        assert(at >= base + m.dt);
    }
    if (times[k] - since) * TIMER_UPDATES_PER_SECOND >= m.st * NANOS_PER_SECOND {
        assert(at >= base + m.st);
    }
}

} // verus!
