//! The instruction set and its encoding in sixteen-bit words.

use vstd::prelude::*;
use crate::nibble::Nibble;

verus! {

/// One decoded instruction. `x` and `y` name registers, `kk` is an immediate
/// byte, `addr` a twelve-bit address and `n` a sprite height.
#[derive(Clone, Copy, Debug, PartialEq, Eq)]
pub enum Instruction {
    /// `00E0`: blank the screen.
    Clear,
    /// `00EE`: return from a subroutine.
    Return,
    /// `1nnn`: continue at `addr`.
    Jump { addr: u16 },
    /// `2nnn`: call the subroutine at `addr`.
    Call { addr: u16 },
    /// `3xkk`: skip the next instruction if `Vx == kk`.
    SkipIfEqual { x: Nibble, kk: u8 },
    /// `4xkk`: skip the next instruction if `Vx != kk`.
    SkipIfNotEqual { x: Nibble, kk: u8 },
    /// `5xy0`: skip the next instruction if `Vx == Vy`.
    SkipIfRegistersEqual { x: Nibble, y: Nibble },
    /// `6xkk`: `Vx := kk`.
    CopyIntoRegister { x: Nibble, kk: u8 },
    /// `7xkk`: `Vx := Vx + kk`, without a flag.
    IncrementRegister { x: Nibble, kk: u8 },
    /// `8xy0`: `Vx := Vy`.
    CopyRegister { x: Nibble, y: Nibble },
    /// `8xy1`: `Vx := Vx | Vy`.
    OrRegisters { x: Nibble, y: Nibble },
    /// `8xy2`: `Vx := Vx & Vy`.
    AndRegisters { x: Nibble, y: Nibble },
    /// `8xy3`: `Vx := Vx ^ Vy`.
    XorRegisters { x: Nibble, y: Nibble },
    /// `8xy4`: `Vx := Vx + Vy`, `VF` := carry.
    AddRegisters { x: Nibble, y: Nibble },
    /// `8xy5`: `Vx := Vx - Vy`, `VF` := no borrow.
    SubtractRegisters { x: Nibble, y: Nibble },
    /// `8xy6`: `Vx := Vx >> 1`, `VF` := the bit shifted out.
    RightShiftRegister { x: Nibble },
    /// `8xy7`: `Vx := Vy - Vx`, `VF` := no borrow.
    SubtractNumericRegisters { x: Nibble, y: Nibble },
    /// `8xyE`: `Vx := Vx << 1`, `VF` := the bit shifted out.
    LeftShiftRegister { x: Nibble },
    /// `9xy0`: skip the next instruction if `Vx != Vy`.
    SkipIfRegistersNotEqual { x: Nibble, y: Nibble },
    /// `Annn`: `I := addr`.
    CopyIntoIRegister { addr: u16 },
    /// `Bnnn`: continue at `addr + V0`.
    OffsetRegisterJump { addr: u16 },
    /// `Cxkk`: `Vx := random & kk`.
    GenerateRandomValue { x: Nibble, kk: u8 },
    /// `Dxyn`: draw the `n`-row sprite at `I` with its corner at `(Vx, Vy)`.
    Draw { x: Nibble, y: Nibble, n: Nibble },
    /// `Ex9E`: skip the next instruction if key `Vx` is down.
    SkipIfKeyPressed { x: Nibble },
    /// `ExA1`: skip the next instruction if key `Vx` is up.
    SkipIfKeyNotPressed { x: Nibble },
    /// `Fx07`: `Vx := delay timer`.
    CopyDtIntoRegister { x: Nibble },
    /// `Fx0A`: wait for a key and store its index in `Vx`.
    WaitForKeyPress { x: Nibble },
    /// `Fx15`: `delay timer := Vx`.
    SetDelayTimer { x: Nibble },
    /// `Fx18`: `sound timer := Vx`.
    SetSoundTimer { x: Nibble },
    /// `Fx1E`: `I := I + Vx`.
    AddToIRegister { x: Nibble },
    /// `Fx29`: `I :=` the address of the glyph for digit `Vx`.
    GetDigitSpriteLocation { x: Nibble },
    /// `Fx33`: store the decimal digits of `Vx` at `I`, `I+1`, `I+2`.
    BcdRepresentation { x: Nibble },
    /// `Fx55`: store `V0..=Vx` at `I..`.
    CopyRegistersToMemory { x: Nibble },
    /// `Fx65`: load `V0..=Vx` from `I..`.
    CopyMemoryIntoRegisters { x: Nibble },
    /// `FFFF`: the end-of-program marker.
    Halt,
}

/// The twelve-bit number whose hexadecimal digits are `a`, `b`, `c`, most
/// significant first.
pub open spec fn concat_digits_spec(a: Nibble, b: Nibble, c: Nibble) -> int {
    a.as_int() * 256 + b.as_int() * 16 + c.as_int()
}

/// Joins three digits into one twelve-bit number: `F`, `A`, `7` give `0xFA7`.
pub fn concat_digits(a: Nibble, b: Nibble, c: Nibble) -> (joined: u16)
    ensures
        joined == concat_digits_spec(a, b, c),
        joined < 4096,
{
    let high: u16 = a.value() as u16;
    let middle: u16 = b.value() as u16;
    let low: u16 = c.value() as u16;
    high * 256 + middle * 16 + low
}

/// The instruction that `word` encodes, `None` if it encodes none. The four
/// digits of the word are read most significant first; with `d1` the first
/// digit, `x` the second, `y` the third and `n` the fourth, `kk` is the low
/// byte and `addr` the low twelve bits.
pub open spec fn decode_spec(word: u16) -> Option<Instruction> {
    let d1 = word as int / 4096;
    let x = Nibble::of_int((word as int / 256) % 16);
    let y = Nibble::of_int((word as int / 16) % 16);
    let d4 = word as int % 16;
    let n = Nibble::of_int(d4);
    let kk = (word as int % 256) as u8;
    let addr = (word as int % 4096) as u16;
    if word == 0x00E0 {
        Some(Instruction::Clear)
    } else if word == 0x00EE {
        Some(Instruction::Return)
    } else if d1 == 0x1 {
        Some(Instruction::Jump { addr })
    } else if d1 == 0x2 {
        Some(Instruction::Call { addr })
    } else if d1 == 0x3 {
        Some(Instruction::SkipIfEqual { x, kk })
    } else if d1 == 0x4 {
        Some(Instruction::SkipIfNotEqual { x, kk })
    } else if d1 == 0x5 && d4 == 0x0 {
        Some(Instruction::SkipIfRegistersEqual { x, y })
    } else if d1 == 0x6 {
        Some(Instruction::CopyIntoRegister { x, kk })
    } else if d1 == 0x7 {
        Some(Instruction::IncrementRegister { x, kk })
    } else if d1 == 0x8 && d4 == 0x0 {
        Some(Instruction::CopyRegister { x, y })
    } else if d1 == 0x8 && d4 == 0x1 {
        Some(Instruction::OrRegisters { x, y })
    } else if d1 == 0x8 && d4 == 0x2 {
        Some(Instruction::AndRegisters { x, y })
    } else if d1 == 0x8 && d4 == 0x3 {
        Some(Instruction::XorRegisters { x, y })
    } else if d1 == 0x8 && d4 == 0x4 {
        Some(Instruction::AddRegisters { x, y })
    } else if d1 == 0x8 && d4 == 0x5 {
        Some(Instruction::SubtractRegisters { x, y })
    } else if d1 == 0x8 && d4 == 0x6 {
        Some(Instruction::RightShiftRegister { x })
    } else if d1 == 0x8 && d4 == 0x7 {
        Some(Instruction::SubtractNumericRegisters { x, y })
    } else if d1 == 0x8 && d4 == 0xE {
        Some(Instruction::LeftShiftRegister { x })
    } else if d1 == 0x9 && d4 == 0x0 {
        Some(Instruction::SkipIfRegistersNotEqual { x, y })
    } else if d1 == 0xA {
        Some(Instruction::CopyIntoIRegister { addr })
    } else if d1 == 0xB {
        Some(Instruction::OffsetRegisterJump { addr })
    } else if d1 == 0xC {
        Some(Instruction::GenerateRandomValue { x, kk })
    } else if d1 == 0xD {
        Some(Instruction::Draw { x, y, n })
    } else if d1 == 0xE && kk == 0x9E {
        Some(Instruction::SkipIfKeyPressed { x })
    } else if d1 == 0xE && kk == 0xA1 {
        Some(Instruction::SkipIfKeyNotPressed { x })
    } else if d1 == 0xF && kk == 0x07 {
        Some(Instruction::CopyDtIntoRegister { x })
    } else if d1 == 0xF && kk == 0x0A {
        Some(Instruction::WaitForKeyPress { x })
    } else if d1 == 0xF && kk == 0x15 {
        Some(Instruction::SetDelayTimer { x })
    } else if d1 == 0xF && kk == 0x18 {
        Some(Instruction::SetSoundTimer { x })
    } else if d1 == 0xF && kk == 0x1E {
        Some(Instruction::AddToIRegister { x })
    } else if d1 == 0xF && kk == 0x29 {
        Some(Instruction::GetDigitSpriteLocation { x })
    } else if d1 == 0xF && kk == 0x33 {
        Some(Instruction::BcdRepresentation { x })
    } else if d1 == 0xF && kk == 0x55 {
        Some(Instruction::CopyRegistersToMemory { x })
    } else if d1 == 0xF && kk == 0x65 {
        Some(Instruction::CopyMemoryIntoRegisters { x })
    } else if word == 0xFFFF {
        Some(Instruction::Halt)
    } else {
        None
    }
}

/// Splits `word` into its two bytes, the more significant first.
pub fn split_word(word: u16) -> (bytes: (u8, u8))
    ensures
        bytes.0 == word as int / 256,
        bytes.1 == word as int % 256,
{
    let upper: u16 = word >> 8;
    let lower: u16 = word & 0xFF;
    assert(upper == word / 256 && upper < 256) by (bit_vector)
        requires
            upper == word >> 8,
    ;
    assert(lower == word % 256 && lower < 256) by (bit_vector)
        requires
            lower == word & 0xFF,
    ;
    (upper as u8, lower as u8)
}

/// The digits of a word, read off its two bytes, are the digits of the word.
proof fn lemma_digits(word: u16)
    ensures
        (word as int / 256) / 16 == word as int / 4096,
        (word as int % 256) / 16 == (word as int / 16) % 16,
        (word as int % 256) % 16 == word as int % 16,
        ((word as int / 256) % 16) * 256 + ((word as int / 16) % 16) * 16 + word as int % 16
            == word as int % 4096,
        0 <= word as int / 4096 < 16,
{
}

/// Decodes one instruction word. The first digit selects the group; within
/// a group the remaining digits are matched from the most specific pattern
/// to the most general, so a word matches one instruction at most.
pub fn decode(word: u16) -> (instruction: Option<Instruction>)
    ensures
        instruction == decode_spec(word),
{
    let (byte1, byte2) = split_word(word);
    let digit1 = Nibble::high(byte1);
    let x = Nibble::low(byte1);
    let y = Nibble::high(byte2);
    let n = Nibble::low(byte2);
    let addr = concat_digits(x, y, n);
    proof {
        lemma_digits(word);
        Nibble::lemma_of_int(word as int / 4096);
    }
    match digit1 {
        Nibble::N0 => match (x, y, n) {
            (Nibble::N0, Nibble::NE, Nibble::N0) => Some(Instruction::Clear),
            (Nibble::N0, Nibble::NE, Nibble::NE) => Some(Instruction::Return),
            _ => None,
        },
        Nibble::N1 => Some(Instruction::Jump { addr }),
        Nibble::N2 => Some(Instruction::Call { addr }),
        Nibble::N3 => Some(Instruction::SkipIfEqual { x, kk: byte2 }),
        Nibble::N4 => Some(Instruction::SkipIfNotEqual { x, kk: byte2 }),
        Nibble::N5 => match n {
            Nibble::N0 => Some(Instruction::SkipIfRegistersEqual { x, y }),
            _ => None,
        },
        Nibble::N6 => Some(Instruction::CopyIntoRegister { x, kk: byte2 }),
        Nibble::N7 => Some(Instruction::IncrementRegister { x, kk: byte2 }),
        Nibble::N8 => match n {
            Nibble::N0 => Some(Instruction::CopyRegister { x, y }),
            Nibble::N1 => Some(Instruction::OrRegisters { x, y }),
            Nibble::N2 => Some(Instruction::AndRegisters { x, y }),
            Nibble::N3 => Some(Instruction::XorRegisters { x, y }),
            Nibble::N4 => Some(Instruction::AddRegisters { x, y }),
            Nibble::N5 => Some(Instruction::SubtractRegisters { x, y }),
            Nibble::N6 => Some(Instruction::RightShiftRegister { x }),
            Nibble::N7 => Some(Instruction::SubtractNumericRegisters { x, y }),
            Nibble::NE => Some(Instruction::LeftShiftRegister { x }),
            _ => None,
        },
        Nibble::N9 => match n {
            Nibble::N0 => Some(Instruction::SkipIfRegistersNotEqual { x, y }),
            _ => None,
        },
        Nibble::NA => Some(Instruction::CopyIntoIRegister { addr }),
        Nibble::NB => Some(Instruction::OffsetRegisterJump { addr }),
        Nibble::NC => Some(Instruction::GenerateRandomValue { x, kk: byte2 }),
        Nibble::ND => Some(Instruction::Draw { x, y, n }),
        Nibble::NE => match byte2 {
            0x9E => Some(Instruction::SkipIfKeyPressed { x }),
            0xA1 => Some(Instruction::SkipIfKeyNotPressed { x }),
            _ => None,
        },
        Nibble::NF => match byte2 {
            0x07 => Some(Instruction::CopyDtIntoRegister { x }),
            0x0A => Some(Instruction::WaitForKeyPress { x }),
            0x15 => Some(Instruction::SetDelayTimer { x }),
            0x18 => Some(Instruction::SetSoundTimer { x }),
            0x1E => Some(Instruction::AddToIRegister { x }),
            0x29 => Some(Instruction::GetDigitSpriteLocation { x }),
            0x33 => Some(Instruction::BcdRepresentation { x }),
            0x55 => Some(Instruction::CopyRegistersToMemory { x }),
            0x65 => Some(Instruction::CopyMemoryIntoRegisters { x }),
            0xFF => match x {
                Nibble::NF => Some(Instruction::Halt),
                _ => None,
            },
            _ => None,
        },
    }
}

} // verus!
