use chip8::backend::{Backend, Keys};
use chip8::cpu::Cpu;
use chip8::error::{ErrorKind, Fault};
use chip8::instruction::Instruction;
use chip8::machine::Action;

struct Silent;

impl Backend for Silent {
    fn draw_frame(&mut self, _framebuffer: &[u8; 2048]) {}

    fn poll_key(&mut self, _key: Keys) -> bool {
        false
    }

    fn wait_for_key(&mut self) {}
}

fn run(cpu: &mut Cpu, word: u16) -> Result<Action, Fault> {
    cpu.execute(Instruction::new([(word >> 8) as u8, (word & 0xFF) as u8]), 0, false)
}

fn program(words: &[u16]) -> Cpu {
    let mut bytes = Vec::new();
    for word in words {
        bytes.push((word >> 8) as u8);
        bytes.push((word & 0xFF) as u8);
    }
    let mut cpu = Cpu::new(0);
    assert_eq!(cpu.load_rom(&bytes), Ok(()));
    cpu
}

#[test]
fn a_new_machine_starts_at_0x200_with_everything_clear() {
    let cpu = Cpu::new(123);
    assert_eq!(cpu.pc(), 0x200);
    assert_eq!(cpu.index(), 0);
    assert_eq!(cpu.delay_timer(), 0);
    assert_eq!(cpu.sound_timer(), 0);
    assert_eq!(cpu.stack_depth(), 0);
    for register in 0..16u8 {
        assert_eq!(cpu.register(register), 0);
    }
    assert!(cpu.framebuffer().iter().all(|&cell| cell == 0));
    assert_eq!(&cpu.memory()[0x50..0x55], &[0xF0, 0x90, 0x90, 0x90, 0xF0]);
    assert!(cpu.memory()[0x200..].iter().all(|&byte| byte == 0));
}

#[test]
fn jump_sets_the_program_counter() {
    let mut cpu = Cpu::new(0);
    assert_eq!(run(&mut cpu, 0x1ABC), Ok(Action::Continue));
    assert_eq!(cpu.pc(), 0xABC);
}

#[test]
fn jump_with_offset_adds_v0() {
    let mut cpu = Cpu::new(0);
    run(&mut cpu, 0x60FF).unwrap();
    run(&mut cpu, 0x61EE).unwrap();
    assert_eq!(run(&mut cpu, 0xB300), Ok(Action::Continue));
    assert_eq!(cpu.pc(), 0x3FF);
}

#[test]
fn load_index_sets_i() {
    let mut cpu = Cpu::new(0);
    assert_eq!(run(&mut cpu, 0xAFFF), Ok(Action::Continue));
    assert_eq!(cpu.index(), 0xFFF);
    assert_eq!(cpu.pc(), 0x202);
}

#[test]
fn add_to_index_wraps_at_sixteen_bits() {
    let mut cpu = Cpu::new(0);
    run(&mut cpu, 0xAFFF).unwrap();
    run(&mut cpu, 0x6501).unwrap();
    run(&mut cpu, 0xF51E).unwrap();
    assert_eq!(cpu.index(), 0x1000);
    run(&mut cpu, 0x65FF).unwrap();
    for _ in 0..0xF0 {
        run(&mut cpu, 0x1200).unwrap();
        run(&mut cpu, 0xF51E).unwrap();
    }
    assert_eq!(cpu.index(), 0x1000 + 0xF0 * 0xFF);
    run(&mut cpu, 0x1200).unwrap();
    run(&mut cpu, 0xF51E).unwrap();
    assert_eq!(cpu.index(), ((0x1000u32 + 0xF1 * 0xFF) % 0x10000) as u16);
    assert_eq!(cpu.index(), 0x000F);
}

#[test]
fn glyph_address_is_five_bytes_per_digit() {
    let mut cpu = Cpu::new(0);
    run(&mut cpu, 0x6300).unwrap();
    run(&mut cpu, 0xF329).unwrap();
    assert_eq!(cpu.index(), 0x50);
    run(&mut cpu, 0x630A).unwrap();
    run(&mut cpu, 0xF329).unwrap();
    assert_eq!(cpu.index(), 0x50 + 50);
    assert_eq!(&cpu.memory()[0x82..0x87], &[0xF0, 0x90, 0xF0, 0x90, 0x90]);
    run(&mut cpu, 0x63FF).unwrap();
    run(&mut cpu, 0xF329).unwrap();
    assert_eq!(cpu.index(), 0x50 + 255 * 5);
}

#[test]
fn skips_add_four_and_no_skips_add_two() {
    let mut cpu = Cpu::new(0);
    run(&mut cpu, 0x6122).unwrap();
    run(&mut cpu, 0x6222).unwrap();
    run(&mut cpu, 0x6333).unwrap();
    assert_eq!(cpu.pc(), 0x206);
    run(&mut cpu, 0x3122).unwrap();
    assert_eq!(cpu.pc(), 0x20A);
    run(&mut cpu, 0x3123).unwrap();
    assert_eq!(cpu.pc(), 0x20C);
    run(&mut cpu, 0x4122).unwrap();
    assert_eq!(cpu.pc(), 0x20E);
    run(&mut cpu, 0x4123).unwrap();
    assert_eq!(cpu.pc(), 0x212);
    run(&mut cpu, 0x5120).unwrap();
    assert_eq!(cpu.pc(), 0x216);
    run(&mut cpu, 0x5130).unwrap();
    assert_eq!(cpu.pc(), 0x218);
    run(&mut cpu, 0x9120).unwrap();
    assert_eq!(cpu.pc(), 0x21A);
    run(&mut cpu, 0x9130).unwrap();
    assert_eq!(cpu.pc(), 0x21E);
}

#[test]
fn call_then_return_comes_back_after_the_call() {
    let mut cpu = program(&[0x2206, 0x6001, 0x0000, 0x6102, 0x00EE]);
    let mut host = Silent;
    assert_eq!(cpu.fetch(&mut host), Ok(()));
    assert_eq!(cpu.pc(), 0x206);
    assert_eq!(cpu.stack_depth(), 1);
    assert_eq!(cpu.fetch(&mut host), Ok(()));
    assert_eq!(cpu.register(1), 2);
    assert_eq!(cpu.fetch(&mut host), Ok(()));
    assert_eq!(cpu.pc(), 0x202);
    assert_eq!(cpu.stack_depth(), 0);
    assert_eq!(cpu.fetch(&mut host), Ok(()));
    assert_eq!(cpu.register(0), 1);
}

#[test]
fn nested_calls_return_in_reverse_order() {
    let mut cpu = Cpu::new(0);
    run(&mut cpu, 0x2300).unwrap();
    run(&mut cpu, 0x2400).unwrap();
    run(&mut cpu, 0x2500).unwrap();
    assert_eq!(cpu.stack_depth(), 3);
    run(&mut cpu, 0x00EE).unwrap();
    assert_eq!(cpu.pc(), 0x402);
    run(&mut cpu, 0x00EE).unwrap();
    assert_eq!(cpu.pc(), 0x302);
    run(&mut cpu, 0x00EE).unwrap();
    assert_eq!(cpu.pc(), 0x202);
    assert_eq!(cpu.stack_depth(), 0);
}

#[test]
fn the_seventeenth_call_overflows_the_stack() {
    let mut cpu = Cpu::new(0);
    for _ in 0..16 {
        assert_eq!(run(&mut cpu, 0x2300), Ok(Action::Continue));
    }
    assert_eq!(cpu.stack_depth(), 16);
    assert_eq!(
        run(&mut cpu, 0x2400),
        Err(Fault { kind: ErrorKind::StackOverflow, pc: 0x300, opcode: 0x2400 })
    );
    assert_eq!(cpu.pc(), 0x300);
    assert_eq!(cpu.stack_depth(), 16);
}

#[test]
fn a_return_without_a_call_underflows_the_stack() {
    let mut cpu = Cpu::new(0);
    assert_eq!(
        run(&mut cpu, 0x00EE),
        Err(Fault { kind: ErrorKind::StackUnderflow, pc: 0x200, opcode: 0x00EE })
    );
    assert_eq!(cpu.pc(), 0x200);
}

#[test]
fn undefined_words_are_reported_and_change_nothing() {
    let undefined =
        [0x0000u16, 0x00E1, 0x0123, 0x00FF, 0xF000, 0xF1FF, 0xF034, 0xE09F, 0xE0A2, 0xE000];
    for word in undefined {
        let mut cpu = Cpu::new(0);
        assert_eq!(
            run(&mut cpu, word),
            Err(Fault { kind: ErrorKind::UnimplementedOpcode, pc: 0x200, opcode: word }),
            "{word:04X}"
        );
        assert_eq!(cpu.pc(), 0x200);
    }
}

#[test]
fn the_low_nibble_of_register_compares_is_not_looked_at() {
    let mut cpu = Cpu::new(0);
    assert_eq!(run(&mut cpu, 0x512F), Ok(Action::Continue));
    assert_eq!(cpu.pc(), 0x204);
    assert_eq!(run(&mut cpu, 0x912F), Ok(Action::Continue));
    assert_eq!(cpu.pc(), 0x206);
}

#[test]
fn an_instruction_past_the_end_of_memory_is_out_of_range() {
    let mut cpu = Cpu::new(0);
    let mut host = Silent;
    run(&mut cpu, 0x1FFF).unwrap();
    assert_eq!(
        cpu.fetch(&mut host),
        Err(Fault { kind: ErrorKind::AddressOutOfRange, pc: 0xFFF, opcode: 0 })
    );
    assert_eq!(
        run(&mut cpu, 0x6001),
        Err(Fault { kind: ErrorKind::AddressOutOfRange, pc: 0xFFF, opcode: 0x6001 })
    );
    assert_eq!(cpu.pc(), 0xFFF);
    assert_eq!(cpu.register(0), 0);
}

#[test]
fn the_last_instruction_slot_can_be_executed() {
    let mut cpu = Cpu::new(0);
    let mut rom = vec![0u8; 4096 - 0x200];
    rom[4094 - 0x200] = 0x6A;
    rom[4095 - 0x200] = 0x77;
    cpu.load_rom(&rom).unwrap();
    let mut host = Silent;
    run(&mut cpu, 0x1FFE).unwrap();
    assert_eq!(cpu.fetch(&mut host), Ok(()));
    assert_eq!(cpu.register(0xA), 0x77);
    assert_eq!(cpu.pc(), 0x1000);
    assert_eq!(
        cpu.fetch(&mut host),
        Err(Fault { kind: ErrorKind::AddressOutOfRange, pc: 0x1000, opcode: 0 })
    );
}

#[test]
fn decode_runs_one_given_instruction() {
    let mut cpu = Cpu::new(0);
    let mut host = Silent;
    assert_eq!(cpu.decode(&mut host, Instruction::new([0x6B, 0x42])), Ok(()));
    assert_eq!(cpu.register(0xB), 0x42);
    assert_eq!(cpu.pc(), 0x202);
    assert_eq!(
        cpu.decode(&mut host, Instruction::new([0x00, 0xEE])),
        Err(Fault { kind: ErrorKind::StackUnderflow, pc: 0x202, opcode: 0x00EE })
    );
}

#[test]
fn decode_masks_a_random_byte() {
    let mut cpu = Cpu::new(0);
    let mut host = Silent;
    for _ in 0..64 {
        assert_eq!(cpu.decode(&mut host, Instruction::new([0xC1, 0x0F])), Ok(()));
        assert!(cpu.register(1) <= 0x0F);
        assert_eq!(cpu.decode(&mut host, Instruction::new([0xC2, 0x00])), Ok(()));
        assert_eq!(cpu.register(2), 0);
        cpu.decode(&mut host, Instruction::new([0x12, 0x00])).unwrap();
    }
}
