use chip8::instruction::{concat_digits, decode, split_word, Instruction};
use chip8::nibble::Nibble;

#[test]
fn nibble_from_value() {
    assert_eq!(Nibble::new(0), Some(Nibble::N0));
    assert_eq!(Nibble::new(9), Some(Nibble::N9));
    assert_eq!(Nibble::new(10), Some(Nibble::NA));
    assert_eq!(Nibble::new(15), Some(Nibble::NF));
    assert_eq!(Nibble::new(16), None);
    assert_eq!(Nibble::new(255), None);
}

#[test]
fn nibble_round_trip() {
    for value in 0..16u8 {
        let digit = Nibble::new(value).unwrap();
        assert_eq!(digit.value(), value);
        assert_eq!(digit.index(), value as usize);
    }
}

#[test]
fn nibble_halves_of_a_byte() {
    assert_eq!(Nibble::high(0xA7), Nibble::NA);
    assert_eq!(Nibble::low(0xA7), Nibble::N7);
    assert_eq!(Nibble::high(0x0F), Nibble::N0);
    assert_eq!(Nibble::low(0x0F), Nibble::NF);
    assert_eq!(Nibble::high(0xFF), Nibble::NF);
    assert_eq!(Nibble::low(0x00), Nibble::N0);
}

#[test]
fn concat_digits_keeps_digit_order() {
    assert_eq!(concat_digits(Nibble::NF, Nibble::NA, Nibble::N7), 0xFA7);
    assert_eq!(concat_digits(Nibble::N0, Nibble::N0, Nibble::N0), 0);
    assert_eq!(concat_digits(Nibble::NF, Nibble::NF, Nibble::NF), 4095);
    assert_eq!(concat_digits(Nibble::N1, Nibble::N2, Nibble::N3), 0x123);
}

#[test]
fn split_word_gives_high_byte_first() {
    assert_eq!(split_word(0x8014), (0x80, 0x14));
    assert_eq!(split_word(0x00FF), (0x00, 0xFF));
    assert_eq!(split_word(0xFFFF), (0xFF, 0xFF));
}

#[test]
fn decode_flow_control() {
    assert_eq!(decode(0x00E0), Some(Instruction::Clear));
    assert_eq!(decode(0x00EE), Some(Instruction::Return));
    assert_eq!(decode(0x1FA7), Some(Instruction::Jump { addr: 0xFA7 }));
    assert_eq!(decode(0x2345), Some(Instruction::Call { addr: 0x345 }));
    assert_eq!(decode(0xB123), Some(Instruction::OffsetRegisterJump { addr: 0x123 }));
    assert_eq!(decode(0xFFFF), Some(Instruction::Halt));
}

#[test]
fn decode_skips() {
    assert_eq!(decode(0x3A12), Some(Instruction::SkipIfEqual { x: Nibble::NA, kk: 0x12 }));
    assert_eq!(decode(0x4B34), Some(Instruction::SkipIfNotEqual { x: Nibble::NB, kk: 0x34 }));
    assert_eq!(
        decode(0x5120),
        Some(Instruction::SkipIfRegistersEqual { x: Nibble::N1, y: Nibble::N2 })
    );
    assert_eq!(
        decode(0x9120),
        Some(Instruction::SkipIfRegistersNotEqual { x: Nibble::N1, y: Nibble::N2 })
    );
    assert_eq!(decode(0xE39E), Some(Instruction::SkipIfKeyPressed { x: Nibble::N3 }));
    assert_eq!(decode(0xE3A1), Some(Instruction::SkipIfKeyNotPressed { x: Nibble::N3 }));
}

#[test]
fn decode_register_operations() {
    let x = Nibble::N4;
    let y = Nibble::N7;
    assert_eq!(decode(0x64AB), Some(Instruction::CopyIntoRegister { x, kk: 0xAB }));
    assert_eq!(decode(0x74AB), Some(Instruction::IncrementRegister { x, kk: 0xAB }));
    assert_eq!(decode(0x8470), Some(Instruction::CopyRegister { x, y }));
    assert_eq!(decode(0x8471), Some(Instruction::OrRegisters { x, y }));
    assert_eq!(decode(0x8472), Some(Instruction::AndRegisters { x, y }));
    assert_eq!(decode(0x8473), Some(Instruction::XorRegisters { x, y }));
    assert_eq!(decode(0x8474), Some(Instruction::AddRegisters { x, y }));
    assert_eq!(decode(0x8475), Some(Instruction::SubtractRegisters { x, y }));
    assert_eq!(decode(0x8476), Some(Instruction::RightShiftRegister { x }));
    assert_eq!(decode(0x8477), Some(Instruction::SubtractNumericRegisters { x, y }));
    assert_eq!(decode(0x847E), Some(Instruction::LeftShiftRegister { x }));
    assert_eq!(decode(0xC4F0), Some(Instruction::GenerateRandomValue { x, kk: 0xF0 }));
}

#[test]
fn decode_memory_and_timers() {
    let x = Nibble::NC;
    assert_eq!(decode(0xA2F0), Some(Instruction::CopyIntoIRegister { addr: 0x2F0 }));
    assert_eq!(
        decode(0xD125),
        Some(Instruction::Draw { x: Nibble::N1, y: Nibble::N2, n: Nibble::N5 })
    );
    assert_eq!(decode(0xFC07), Some(Instruction::CopyDtIntoRegister { x }));
    assert_eq!(decode(0xFC0A), Some(Instruction::WaitForKeyPress { x }));
    assert_eq!(decode(0xFC15), Some(Instruction::SetDelayTimer { x }));
    assert_eq!(decode(0xFC18), Some(Instruction::SetSoundTimer { x }));
    assert_eq!(decode(0xFC1E), Some(Instruction::AddToIRegister { x }));
    assert_eq!(decode(0xFC29), Some(Instruction::GetDigitSpriteLocation { x }));
    assert_eq!(decode(0xFC33), Some(Instruction::BcdRepresentation { x }));
    assert_eq!(decode(0xFC55), Some(Instruction::CopyRegistersToMemory { x }));
    assert_eq!(decode(0xFC65), Some(Instruction::CopyMemoryIntoRegisters { x }));
}

#[test]
fn decode_refuses_unknown_words() {
    assert_eq!(decode(0x0000), None);
    assert_eq!(decode(0x00E1), None);
    assert_eq!(decode(0x0123), None);
    assert_eq!(decode(0x5121), None);
    assert_eq!(decode(0x8478), None);
    assert_eq!(decode(0x847F), None);
    assert_eq!(decode(0x9121), None);
    assert_eq!(decode(0xE300), None);
    assert_eq!(decode(0xF300), None);
    assert_eq!(decode(0xF3FF), None);
    assert_eq!(decode(0xFFFE), None);
}

#[test]
fn decode_is_total_and_stable() {
    let mut legal = 0u32;
    for word in 0..=0xFFFFu16 {
        let first = decode(word);
        assert_eq!(first, decode(word));
        if first.is_some() {
            legal += 1;
        }
    }
    // Two words of group 0; ten groups that take any twelve bits; groups 5
    // and 9 with two free digits; nine operations of group 8; two of group
    // E and nine of group F with one free digit; and the end marker.
    assert_eq!(legal, 2 + 4096 * 10 + 256 * 2 + 256 * 9 + 16 * 2 + 16 * 9 + 1);
}
