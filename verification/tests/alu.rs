use chip8::cpu::{alu, Cpu};
use chip8::error::{ErrorKind, Fault};
use chip8::instruction::Instruction;
use chip8::machine::Action;

fn run(cpu: &mut Cpu, word: u16) -> Result<Action, Fault> {
    cpu.execute(Instruction::new([(word >> 8) as u8, (word & 0xFF) as u8]), 0, false)
}

fn with_registers(values: &[(u8, u8)]) -> Cpu {
    let mut cpu = Cpu::new(0);
    for &(register, value) in values {
        let word = 0x6000 | (register as u16) << 8 | value as u16;
        assert_eq!(run(&mut cpu, word), Ok(Action::Continue));
    }
    cpu
}

#[test]
fn load_immediate_sets_one_register() {
    let mut cpu = Cpu::new(0);
    assert_eq!(run(&mut cpu, 0x6A2A), Ok(Action::Continue));
    assert_eq!(cpu.register(0xA), 0x2A);
    assert_eq!(cpu.pc(), 0x202);
    for other in 0..16u8 {
        if other != 0xA {
            assert_eq!(cpu.register(other), 0);
        }
    }
}

#[test]
fn add_immediate_wraps_and_leaves_the_flag() {
    let mut cpu = with_registers(&[(0x3, 0xF0), (0xF, 0x55)]);
    assert_eq!(run(&mut cpu, 0x7320), Ok(Action::Continue));
    assert_eq!(cpu.register(0x3), 0x10);
    assert_eq!(cpu.register(0xF), 0x55);
    assert_eq!(run(&mut cpu, 0x7301), Ok(Action::Continue));
    assert_eq!(cpu.register(0x3), 0x11);
}

#[test]
fn assign_copies_vy() {
    let mut cpu = with_registers(&[(0x1, 0x11), (0x2, 0x22), (0xF, 0x09)]);
    assert_eq!(run(&mut cpu, 0x8120), Ok(Action::Continue));
    assert_eq!(cpu.register(0x1), 0x22);
    assert_eq!(cpu.register(0x2), 0x22);
    assert_eq!(cpu.register(0xF), 0x09);
}

#[test]
fn or_and_xor_work_bit_by_bit_and_leave_the_flag() {
    let mut cpu = with_registers(&[(0x1, 0b1100_1010), (0x2, 0b1010_0110), (0xF, 0x07)]);
    run(&mut cpu, 0x8121).unwrap();
    assert_eq!(cpu.register(0x1), 0b1110_1110);
    let mut cpu = with_registers(&[(0x1, 0b1100_1010), (0x2, 0b1010_0110), (0xF, 0x07)]);
    run(&mut cpu, 0x8122).unwrap();
    assert_eq!(cpu.register(0x1), 0b1000_0010);
    let mut cpu = with_registers(&[(0x1, 0b1100_1010), (0x2, 0b1010_0110), (0xF, 0x07)]);
    run(&mut cpu, 0x8123).unwrap();
    assert_eq!(cpu.register(0x1), 0b0110_1100);
    assert_eq!(cpu.register(0xF), 0x07);
}

#[test]
fn add_sets_the_carry_when_the_sum_passes_255() {
    let mut cpu = with_registers(&[(0x0, 0xF0), (0x1, 0x2A)]);
    assert_eq!(run(&mut cpu, 0x8014), Ok(Action::Continue));
    assert_eq!(cpu.register(0x0), 0x1A);
    assert_eq!(cpu.register(0xF), 1);
    assert_eq!(cpu.register(0x1), 0x2A);
}

#[test]
fn add_clears_the_carry_when_the_sum_fits() {
    let mut cpu = with_registers(&[(0x0, 0xFF), (0x1, 0x00), (0xF, 0x01)]);
    run(&mut cpu, 0x8014).unwrap();
    assert_eq!(cpu.register(0x0), 0xFF);
    assert_eq!(cpu.register(0xF), 0);
    let mut cpu = with_registers(&[(0x0, 0xFF), (0x1, 0x01)]);
    run(&mut cpu, 0x8014).unwrap();
    assert_eq!(cpu.register(0x0), 0x00);
    assert_eq!(cpu.register(0xF), 1);
}

#[test]
fn add_is_right_for_every_pair_of_bytes() {
    for a in 0..=255u8 {
        for b in 0..=255u8 {
            let (value, flag) = alu(0x4, a, b).unwrap();
            assert_eq!(value, a.wrapping_add(b));
            assert_eq!(flag, Some((a as u16 + b as u16 > 255) as u8));
        }
    }
}

#[test]
fn add_is_right_for_every_pair_of_registers() {
    for x in 0..16u8 {
        for y in 0..16u8 {
            let mut cpu = with_registers(&[(x, 200), (y, 100)]);
            let vx = cpu.register(x);
            let vy = cpu.register(y);
            let word = 0x8004 | (x as u16) << 8 | (y as u16) << 4;
            assert_eq!(run(&mut cpu, word), Ok(Action::Continue));
            let carry = (vx as u16 + vy as u16 > 255) as u8;
            assert_eq!(cpu.register(0xF), carry, "8{x:X}{y:X}4");
            if x != 0xF {
                assert_eq!(cpu.register(x), vx.wrapping_add(vy), "8{x:X}{y:X}4");
            }
        }
    }
}

#[test]
fn the_flag_wins_when_vf_is_the_destination() {
    let mut cpu = with_registers(&[(0xF, 0xF0), (0x1, 0x20)]);
    run(&mut cpu, 0x8F14).unwrap();
    assert_eq!(cpu.register(0xF), 1);
    let mut cpu = with_registers(&[(0xF, 0x10), (0x1, 0x20)]);
    run(&mut cpu, 0x8F14).unwrap();
    assert_eq!(cpu.register(0xF), 0);
    let mut cpu = with_registers(&[(0xF, 0x03)]);
    run(&mut cpu, 0x8F06).unwrap();
    assert_eq!(cpu.register(0xF), 1);
}

#[test]
fn sub_sets_the_flag_only_when_vx_is_greater() {
    let mut cpu = with_registers(&[(0x0, 0x30), (0x1, 0x10)]);
    run(&mut cpu, 0x8015).unwrap();
    assert_eq!(cpu.register(0x0), 0x20);
    assert_eq!(cpu.register(0xF), 1);
    let mut cpu = with_registers(&[(0x0, 0x10), (0x1, 0x30)]);
    run(&mut cpu, 0x8015).unwrap();
    assert_eq!(cpu.register(0x0), 0xE0);
    assert_eq!(cpu.register(0xF), 0);
    let mut cpu = with_registers(&[(0x0, 0x30), (0x1, 0x30), (0xF, 0x01)]);
    run(&mut cpu, 0x8015).unwrap();
    assert_eq!(cpu.register(0x0), 0x00);
    assert_eq!(cpu.register(0xF), 0);
}

#[test]
fn sub_is_right_for_every_pair_of_bytes() {
    for a in 0..=255u8 {
        for b in 0..=255u8 {
            assert_eq!(alu(0x5, a, b), Some((a.wrapping_sub(b), Some((a > b) as u8))));
            assert_eq!(alu(0x7, a, b), Some((b.wrapping_sub(a), Some((b > a) as u8))));
        }
    }
}

#[test]
fn reverse_sub_subtracts_vx_from_vy() {
    let mut cpu = with_registers(&[(0x0, 0x10), (0x1, 0x30)]);
    run(&mut cpu, 0x8017).unwrap();
    assert_eq!(cpu.register(0x0), 0x20);
    assert_eq!(cpu.register(0xF), 1);
    let mut cpu = with_registers(&[(0x0, 0x30), (0x1, 0x10)]);
    run(&mut cpu, 0x8017).unwrap();
    assert_eq!(cpu.register(0x0), 0xE0);
    assert_eq!(cpu.register(0xF), 0);
}

#[test]
fn shift_right_captures_the_low_bit() {
    let mut cpu = with_registers(&[(0x4, 0b1000_0101), (0x5, 0xFF)]);
    run(&mut cpu, 0x8456).unwrap();
    assert_eq!(cpu.register(0x4), 0b0100_0010);
    assert_eq!(cpu.register(0xF), 1);
    assert_eq!(cpu.register(0x5), 0xFF);
    run(&mut cpu, 0x8456).unwrap();
    assert_eq!(cpu.register(0x4), 0b0010_0001);
    assert_eq!(cpu.register(0xF), 0);
}

#[test]
fn shift_left_captures_the_high_bit() {
    let mut cpu = with_registers(&[(0x4, 0b1000_0101), (0x5, 0xFF)]);
    run(&mut cpu, 0x845E).unwrap();
    assert_eq!(cpu.register(0x4), 0b0000_1010);
    assert_eq!(cpu.register(0xF), 1);
    run(&mut cpu, 0x845E).unwrap();
    assert_eq!(cpu.register(0x4), 0b0001_0100);
    assert_eq!(cpu.register(0xF), 0);
}

#[test]
fn low_nibble_8_shifts_left_too() {
    let mut cpu = with_registers(&[(0x4, 0xC1)]);
    run(&mut cpu, 0x8458).unwrap();
    assert_eq!(cpu.register(0x4), 0x82);
    assert_eq!(cpu.register(0xF), 1);
}

#[test]
fn shifts_are_right_for_every_byte() {
    for a in 0..=255u8 {
        assert_eq!(alu(0x6, a, 0x5A), Some((a >> 1, Some(a & 1))));
        assert_eq!(alu(0xE, a, 0x5A), Some((a << 1, Some(a >> 7))));
        assert_eq!(alu(0x8, a, 0x5A), alu(0xE, a, 0x5A));
    }
}

#[test]
fn logic_operations_have_no_flag() {
    assert_eq!(alu(0x0, 0x12, 0x34), Some((0x34, None)));
    assert_eq!(alu(0x1, 0x12, 0x34), Some((0x36, None)));
    assert_eq!(alu(0x2, 0x12, 0x34), Some((0x10, None)));
    assert_eq!(alu(0x3, 0x12, 0x34), Some((0x26, None)));
}

#[test]
fn other_low_nibbles_name_no_operation() {
    for op in [0x9u8, 0xA, 0xB, 0xC, 0xD, 0xF] {
        assert_eq!(alu(op, 1, 2), None);
        let mut cpu = with_registers(&[(0x1, 0x11), (0x2, 0x22)]);
        let word = 0x8120 | op as u16;
        assert_eq!(
            run(&mut cpu, word),
            Err(Fault { kind: ErrorKind::UnimplementedOpcode, pc: 0x204, opcode: word })
        );
        assert_eq!(cpu.register(0x1), 0x11);
        assert_eq!(cpu.pc(), 0x204);
    }
}

#[test]
fn random_is_masked_by_the_immediate() {
    let mut cpu = Cpu::new(0);
    let r = cpu.execute(Instruction::new([0xC3, 0x0F]), 0xA7, false);
    assert_eq!(r, Ok(Action::Continue));
    assert_eq!(cpu.register(0x3), 0x07);
    cpu.execute(Instruction::new([0xC3, 0x00]), 0xFF, false).unwrap();
    assert_eq!(cpu.register(0x3), 0x00);
    cpu.execute(Instruction::new([0xC3, 0xFF]), 0x5A, false).unwrap();
    assert_eq!(cpu.register(0x3), 0x5A);
    assert_eq!(cpu.pc(), 0x206);
}
