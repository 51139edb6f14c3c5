use chip8::instruction::Instruction;

#[test]
fn nibbles_are_read_from_the_high_end() {
    let instruction = Instruction::new([0xD1, 0x25]);
    assert_eq!(instruction.get_nibble(0), 0xD);
    assert_eq!(instruction.get_nibble(1), 0x1);
    assert_eq!(instruction.get_nibble(2), 0x2);
    assert_eq!(instruction.get_nibble(3), 0x5);
}

#[test]
fn address_is_the_low_twelve_bits() {
    assert_eq!(Instruction::new([0xD1, 0x25]).get_address(), 0x125);
    assert_eq!(Instruction::new([0xFF, 0xFF]).get_address(), 0xFFF);
    assert_eq!(Instruction::new([0xA0, 0x00]).get_address(), 0x000);
}

#[test]
fn byte_is_the_low_byte() {
    assert_eq!(Instruction::new([0x6A, 0x7F]).get_byte(), 0x7F);
    assert_eq!(Instruction::new([0xFF, 0x00]).get_byte(), 0x00);
}

#[test]
fn word_is_big_endian() {
    assert_eq!(Instruction::new([0x12, 0x34]).get_u16_instruction(), 0x1234);
    assert_eq!(Instruction::new([0x00, 0xE0]).get_u16_instruction(), 0x00E0);
    assert_eq!(Instruction::new([0xFF, 0xFF]).get_u16_instruction(), 0xFFFF);
}

#[test]
fn every_word_decodes_to_its_own_fields() {
    for word in 0..=0xFFFFu16 {
        let instruction = Instruction::new([(word >> 8) as u8, (word & 0xFF) as u8]);
        assert_eq!(instruction.get_u16_instruction(), word);
        let rebuilt = (instruction.get_nibble(0) as u16) << 12
            | (instruction.get_nibble(1) as u16) << 8
            | (instruction.get_nibble(2) as u16) << 4
            | instruction.get_nibble(3) as u16;
        assert_eq!(rebuilt, word);
        assert_eq!(instruction.get_address(), word & 0x0FFF);
        assert_eq!(instruction.get_byte() as u16, word & 0x00FF);
    }
}

#[test]
fn the_same_word_decodes_the_same_way_twice() {
    let first = Instruction::new([0x8A, 0xB4]);
    let second = Instruction::new([0x8A, 0xB4]);
    for idx in 0..4 {
        assert_eq!(first.get_nibble(idx), second.get_nibble(idx));
    }
    assert_eq!(first.get_address(), second.get_address());
}
