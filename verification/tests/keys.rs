use chip8::backend::{Backend, Keypad, Keys, WaitingKey};
use chip8::cpu::Cpu;
use chip8::error::{ErrorKind, Fault};
use chip8::instruction::Instruction;
use chip8::machine::Action;

struct Host {
    keypad: Keypad,
    polled: Vec<Keys>,
    waits: usize,
}

impl Host {
    fn new() -> Host {
        Host { keypad: Keypad::new(), polled: Vec::new(), waits: 0 }
    }
}

impl Backend for Host {
    fn draw_frame(&mut self, _framebuffer: &[u8; 2048]) {}

    fn poll_key(&mut self, key: Keys) -> bool {
        self.polled.push(key);
        self.keypad.is_down(key)
    }

    fn wait_for_key(&mut self) {
        self.waits += 1;
    }
}

fn word(word: u16) -> Instruction {
    Instruction::new([(word >> 8) as u8, (word & 0xFF) as u8])
}

fn program(words: &[u16]) -> Cpu {
    let mut bytes = Vec::new();
    for word in words {
        bytes.push((word >> 8) as u8);
        bytes.push((word & 0xFF) as u8);
    }
    let mut cpu = Cpu::new(0);
    assert_eq!(cpu.load_rom(&bytes), Ok(()));
    cpu
}

const PERIOD: u64 = 1_428_572;

#[test]
fn skip_if_key_down_follows_the_answer() {
    let mut cpu = Cpu::new(0);
    cpu.execute(word(0x6305), 0, false).unwrap();
    assert_eq!(cpu.execute(word(0xE39E), 0, true), Ok(Action::Continue));
    assert_eq!(cpu.pc(), 0x206);
    assert_eq!(cpu.execute(word(0xE39E), 0, false), Ok(Action::Continue));
    assert_eq!(cpu.pc(), 0x208);
}

#[test]
fn skip_if_key_up_follows_the_answer() {
    let mut cpu = Cpu::new(0);
    cpu.execute(word(0x6305), 0, false).unwrap();
    assert_eq!(cpu.execute(word(0xE3A1), 0, true), Ok(Action::Continue));
    assert_eq!(cpu.pc(), 0x204);
    assert_eq!(cpu.execute(word(0xE3A1), 0, false), Ok(Action::Continue));
    assert_eq!(cpu.pc(), 0x208);
}

#[test]
fn the_key_in_vx_is_the_one_that_is_polled() {
    let mut cpu = Cpu::new(0);
    let mut host = Host::new();
    host.keypad.set(Keys::KEYW, true);
    cpu.decode(&mut host, word(0x6305)).unwrap();
    assert!(host.polled.is_empty());
    assert_eq!(cpu.key_wanted(word(0xE39E)), Some(Keys::KEYW));
    assert_eq!(cpu.key_wanted(word(0xE3A1)), Some(Keys::KEYW));
    assert_eq!(cpu.key_wanted(word(0xE09E)), Some(Keys::KEY1));
    assert_eq!(cpu.key_wanted(word(0xE39F)), None);
    assert_eq!(cpu.key_wanted(word(0x639E)), None);
    assert_eq!(cpu.decode(&mut host, word(0xE39E)), Ok(()));
    assert_eq!(host.polled, vec![Keys::KEYW]);
    assert_eq!(cpu.pc(), 0x206);
    assert_eq!(cpu.decode(&mut host, word(0xE3A1)), Ok(()));
    assert_eq!(cpu.pc(), 0x208);
    host.keypad.set(Keys::KEYW, false);
    assert_eq!(cpu.decode(&mut host, word(0xE39E)), Ok(()));
    assert_eq!(cpu.pc(), 0x20A);
    assert_eq!(cpu.decode(&mut host, word(0xE3A1)), Ok(()));
    assert_eq!(cpu.pc(), 0x20E);
    assert_eq!(host.polled, vec![Keys::KEYW; 4]);
}

#[test]
fn a_key_number_above_0xf_is_an_invalid_key() {
    let mut cpu = Cpu::new(0);
    let mut host = Host::new();
    cpu.decode(&mut host, word(0x6310)).unwrap();
    assert_eq!(cpu.key_wanted(word(0xE39E)), None);
    for opcode in [0xE39Eu16, 0xE3A1] {
        assert_eq!(
            cpu.decode(&mut host, word(opcode)),
            Err(Fault { kind: ErrorKind::InvalidKey, pc: 0x202, opcode })
        );
    }
    assert!(host.polled.is_empty());
    assert_eq!(cpu.pc(), 0x202);
    cpu.decode(&mut host, word(0x630F)).unwrap();
    assert_eq!(cpu.decode(&mut host, word(0xE39E)), Ok(()));
    assert_eq!(host.polled, vec![Keys::KEYV]);
}

#[test]
fn an_undefined_key_word_is_unimplemented_whatever_vx_holds() {
    for value in [0x00u16, 0x0F, 0x10, 0xFF] {
        for opcode in [0xE300u16, 0xE39F, 0xE3A0, 0xE3A2, 0xE3FF, 0xE301] {
            let mut cpu = Cpu::new(0);
            let mut host = Host::new();
            cpu.decode(&mut host, word(0x6300 | value)).unwrap();
            assert_eq!(
                cpu.decode(&mut host, word(opcode)),
                Err(Fault { kind: ErrorKind::UnimplementedOpcode, pc: 0x202, opcode })
            );
            assert!(host.polled.is_empty());
            assert_eq!(cpu.pc(), 0x202);
            assert_eq!(cpu.register(3), value as u8);
        }
    }
}

#[test]
fn waiting_for_a_key_stops_the_ticks_until_a_key_is_pressed() {
    let mut cpu = program(&[0xF70A, 0x6105, 0x6206, 0x1206]);
    let mut host = Host::new();
    assert_eq!(cpu.waiting_key(), WaitingKey::No);
    assert_eq!(cpu.tick(&mut host, PERIOD), Ok(1));
    assert_eq!(cpu.waiting_key(), WaitingKey::Yes);
    assert_eq!(host.waits, 1);
    assert_eq!(cpu.pc(), 0x202);
    for k in 2..50 {
        assert_eq!(cpu.tick(&mut host, k * PERIOD), Ok(0));
        assert_eq!(cpu.pc(), 0x202);
        assert_eq!(cpu.register(1), 0);
    }
    cpu.waiting_key_pressed(Keys::KEYD);
    assert_eq!(cpu.waiting_key(), WaitingKey::No);
    assert_eq!(cpu.register(7), 0xA);
    assert_eq!(cpu.pc(), 0x202);
    assert_eq!(cpu.tick(&mut host, 50 * PERIOD), Ok(16));
    assert_eq!(cpu.register(1), 5);
    assert_eq!(cpu.register(2), 6);
    assert_eq!(host.waits, 1);
}

#[test]
fn a_key_wait_ends_the_tick_that_began_it() {
    let mut cpu = program(&[0x6001, 0xF30A, 0x6002, 0x1206]);
    let mut host = Host::new();
    assert_eq!(cpu.tick(&mut host, 10 * PERIOD), Ok(2));
    assert_eq!(cpu.register(0), 1);
    assert_eq!(cpu.waiting_key(), WaitingKey::Yes);
    assert_eq!(cpu.pc(), 0x204);
    cpu.waiting_key_pressed(Keys::KEY1);
    assert_eq!(cpu.register(3), 0);
    assert_eq!(cpu.tick(&mut host, 11 * PERIOD), Ok(1));
    assert_eq!(cpu.register(0), 2);
}

#[test]
fn every_key_resolves_a_wait_with_its_number() {
    for value in 0..16u8 {
        let mut cpu = Cpu::new(0);
        assert_eq!(cpu.execute(word(0xFE0A), 0, false), Ok(Action::WaitForKey));
        cpu.waiting_key_pressed(Keys::from(value));
        assert_eq!(cpu.register(0xE), value);
        assert_eq!(cpu.waiting_key(), WaitingKey::No);
    }
}

#[test]
fn a_press_while_running_is_ignored() {
    let mut cpu = Cpu::new(0);
    cpu.execute(word(0x6033), 0, false).unwrap();
    cpu.waiting_key_pressed(Keys::KEYV);
    assert_eq!(cpu.waiting_key(), WaitingKey::No);
    for register in 0..16u8 {
        assert_eq!(cpu.register(register), if register == 0 { 0x33 } else { 0 });
    }
    assert_eq!(cpu.pc(), 0x202);
}

#[test]
fn the_flag_register_can_wait_for_a_key() {
    let mut cpu = Cpu::new(0);
    cpu.execute(word(0xFF0A), 0, false).unwrap();
    cpu.waiting_key_pressed(Keys::KEYC);
    assert_eq!(cpu.register(0xF), 0xE);
}
