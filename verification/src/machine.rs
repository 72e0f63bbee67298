//! The mathematical model of the machine: its state as sequences and
//! numbers, and what each instruction does to it.

use vstd::prelude::*;
use crate::instruction::{decode_spec, Instruction};
use crate::nibble::Nibble;

verus! {

/// Bytes of addressable memory.
pub const MEMORY_SIZE: usize = 4096;

/// Where a program image is placed and where execution starts.
pub const PROGRAM_START: u16 = 0x200;

/// Pixels in one row of the screen.
pub const SCREEN_WIDTH: usize = 64;

/// Rows of the screen.
pub const SCREEN_HEIGHT: usize = 32;

/// Return addresses that the call stack holds at most.
pub const STACK_DEPTH: usize = 16;

/// Bytes of one glyph of the built-in font.
pub const GLYPH_SIZE: u16 = 5;

/// The built-in font: sixteen glyphs of five rows each, for the digits 0 to F.
pub const FONT: [u8; 80] = [
    0xF0, 0x90, 0x90, 0x90, 0xF0,
    0x20, 0x60, 0x20, 0x20, 0x70,
    0xF0, 0x10, 0xF0, 0x80, 0xF0,
    0xF0, 0x10, 0xF0, 0x10, 0xF0,
    0x90, 0x90, 0xF0, 0x10, 0x10,
    0xF0, 0x80, 0xF0, 0x10, 0xF0,
    0xF0, 0x80, 0xF0, 0x90, 0xF0,
    0xF0, 0x10, 0x20, 0x40, 0x40,
    0xF0, 0x90, 0xF0, 0x90, 0xF0,
    0xF0, 0x90, 0xF0, 0x10, 0xF0,
    0xF0, 0x90, 0xF0, 0x90, 0x90,
    0xE0, 0x90, 0xE0, 0x90, 0xE0,
    0xF0, 0x80, 0x80, 0x80, 0xF0,
    0xE0, 0x90, 0x90, 0x90, 0xE0,
    0xF0, 0x80, 0xF0, 0x80, 0xF0,
    0xF0, 0x80, 0xF0, 0x80, 0x80,
];

/// Why an instruction could not be carried out, or an image not be loaded.
/// `pc` is the address of the instruction concerned.
#[derive(Clone, Copy, Debug, PartialEq, Eq)]
pub enum Fault {
    /// The word at `pc` encodes no instruction.
    IllegalInstruction { pc: u16, word: u16 },
    /// A call with sixteen return addresses on the stack already.
    StackOverflow { pc: u16 },
    /// A return with no return address on the stack.
    StackUnderflow { pc: u16 },
    /// The instruction, or its fetch, would touch `address`, which lies
    /// beyond the end of memory.
    OutOfBounds { pc: u16, address: u32 },
    /// The instruction asks for the state of key `key`, and there are only
    /// sixteen keys.
    InvalidKey { pc: u16, key: u8 },
    /// A program image of `len` bytes does not fit above the start address.
    ImageTooLarge { len: usize },
}

/// How a step that raised no fault ended.
#[derive(Clone, Copy, Debug, PartialEq, Eq)]
pub enum Outcome {
    /// An instruction was carried out.
    Executed,
    /// The end-of-program marker was reached.
    Halted,
}

/// The low eight bits of `i`.
pub open spec fn wrap8(i: int) -> u8 {
    (i % 256) as u8
}

/// The low sixteen bits of `i`.
pub open spec fn wrap16(i: int) -> u16 {
    (i % 65536) as u16
}

/// The value of column `col` of a sprite row, the leftmost column being the
/// most significant bit.
pub open spec fn column_weight(col: int) -> int {
    if col == 0 {
        128
    } else if col == 1 {
        64
    } else if col == 2 {
        32
    } else if col == 3 {
        16
    } else if col == 4 {
        8
    } else if col == 5 {
        4
    } else if col == 6 {
        2
    } else {
        1
    }
}

/// Whether the sprite row `byte` has a pixel in column `col` (0 to 7).
pub open spec fn sprite_bit(byte: u8, col: int) -> bool {
    (byte as int / column_weight(col)) % 2 == 1
}

/// The lowest of the sixteen keys that is down, if there is one: the keys
/// are polled in ascending order, from 0 to F.
pub open spec fn polled_key(keys: Seq<bool>) -> Option<u8> {
    if keys[0] {
        Some(0u8)
    } else if keys[1] {
        Some(1u8)
    } else if keys[2] {
        Some(2u8)
    } else if keys[3] {
        Some(3u8)
    } else if keys[4] {
        Some(4u8)
    } else if keys[5] {
        Some(5u8)
    } else if keys[6] {
        Some(6u8)
    } else if keys[7] {
        Some(7u8)
    } else if keys[8] {
        Some(8u8)
    } else if keys[9] {
        Some(9u8)
    } else if keys[10] {
        Some(10u8)
    } else if keys[11] {
        Some(11u8)
    } else if keys[12] {
        Some(12u8)
    } else if keys[13] {
        Some(13u8)
    } else if keys[14] {
        Some(14u8)
    } else if keys[15] {
        Some(15u8)
    } else {
        None
    }
}

/// The whole state of the machine.
pub struct Machine {
    /// The 4096 bytes of memory.
    pub memory: Seq<u8>,
    /// The registers V0 to VF.
    pub registers: Seq<u8>,
    /// The index register I.
    pub index: u16,
    /// The delay timer.
    pub delay: u8,
    /// The sound timer.
    pub sound: u8,
    /// The program counter.
    pub pc: u16,
    /// The return addresses, the most recent last.
    pub stack: Seq<u16>,
    /// The screen, as 32 rows of 64 pixels; `true` is lit.
    pub screen: Seq<Seq<bool>>,
    /// The sixteen keys; `true` is down.
    pub keys: Seq<bool>,
}

impl Machine {
    /// The sizes that every state of the machine has.
    pub open spec fn wf(self) -> bool {
        &&& self.memory.len() == MEMORY_SIZE
        &&& self.registers.len() == 16
        &&& self.stack.len() <= STACK_DEPTH
        &&& self.screen.len() == SCREEN_HEIGHT
        &&& forall|r: int| 0 <= r < SCREEN_HEIGHT ==> (#[trigger] self.screen[r]).len() == SCREEN_WIDTH
        &&& self.keys.len() == 16
    }

    /// A screen with no pixel lit.
    pub open spec fn blank_screen() -> Seq<Seq<bool>> {
        Seq::new(SCREEN_HEIGHT as nat, |r: int| Seq::new(SCREEN_WIDTH as nat, |c: int| false))
    }

    /// The state at power-on: the font at address 0, everything else zero,
    /// and the program counter at the start address.
    pub open spec fn initial() -> Machine {
        Machine {
            memory: Seq::new(MEMORY_SIZE as nat, |a: int| if a < 80 { FONT[a] } else { 0u8 }),
            registers: Seq::new(16, |i: int| 0u8),
            index: 0,
            delay: 0,
            sound: 0,
            pc: PROGRAM_START,
            stack: Seq::empty(),
            screen: Self::blank_screen(),
            keys: Seq::new(16, |i: int| false),
        }
    }

    /// The value of register `x`.
    pub open spec fn reg(self, x: Nibble) -> u8 {
        self.registers[x.as_int()]
    }

    /// The flag register VF.
    pub open spec fn flag(self) -> u8 {
        self.registers[15]
    }

    /// The state with register `x` set to `value`.
    pub open spec fn set_reg(self, x: Nibble, value: u8) -> Machine {
        Machine { registers: self.registers.update(x.as_int(), value), ..self }
    }

    /// The state with the flag register set to `value`.
    pub open spec fn set_flag(self, value: u8) -> Machine {
        Machine { registers: self.registers.update(15, value), ..self }
    }

    /// The state with the program counter moved past one more instruction
    /// if `condition` holds.
    pub open spec fn skip_if(self, condition: bool) -> Machine {
        if condition {
            Machine { pc: wrap16(self.pc + 2), ..self }
        } else {
            self
        }
    }

    /// The state after a program image was placed at the start address.
    pub open spec fn load(self, rom: Seq<u8>) -> Machine {
        Machine {
            memory: Seq::new(
                MEMORY_SIZE as nat,
                |a: int|
                    if PROGRAM_START <= a < PROGRAM_START + rom.len() {
                        rom[a - PROGRAM_START]
                    } else {
                        self.memory[a]
                    },
            ),
            ..self
        }
    }

    /// The state after key `key` went down (`state`) or up (`!state`).
    pub open spec fn update_key(self, key: Nibble, state: bool) -> Machine {
        Machine { keys: self.keys.update(key.as_int(), state), ..self }
    }

    /// The state after one tick of the 60 Hz clock: each timer that is not
    /// zero goes down by one.
    pub open spec fn tick(self) -> Machine {
        Machine {
            sound: if self.sound > 0 { (self.sound - 1) as u8 } else { 0 },
            delay: if self.delay > 0 { (self.delay - 1) as u8 } else { 0 },
            ..self
        }
    }

    /// `00E0`: every pixel unlit.
    pub open spec fn clear(self) -> Machine {
        Machine { screen: Self::blank_screen(), ..self }
    }

    /// `00EE`: continue at the most recent return address, which leaves the
    /// stack.
    pub open spec fn ret(self) -> Machine {
        Machine { pc: self.stack.last(), stack: self.stack.drop_last(), ..self }
    }

    /// `1nnn`.
    pub open spec fn jump(self, addr: u16) -> Machine {
        Machine { pc: addr, ..self }
    }

    /// `2nnn`: the program counter goes on the stack, then to `addr`.
    pub open spec fn call(self, addr: u16) -> Machine {
        Machine { pc: addr, stack: self.stack.push(self.pc), ..self }
    }

    /// `3xkk`.
    pub open spec fn skip_if_equal(self, x: Nibble, kk: u8) -> Machine {
        self.skip_if(self.reg(x) == kk)
    }

    /// `4xkk`.
    pub open spec fn skip_if_not_equal(self, x: Nibble, kk: u8) -> Machine {
        self.skip_if(self.reg(x) != kk)
    }

    /// `5xy0`.
    pub open spec fn skip_if_registers_equal(self, x: Nibble, y: Nibble) -> Machine {
        self.skip_if(self.reg(x) == self.reg(y))
    }

    /// `6xkk`.
    pub open spec fn copy_into_register(self, x: Nibble, kk: u8) -> Machine {
        self.set_reg(x, kk)
    }

    /// `7xkk`: the sum modulo 256; the flag register is not written.
    pub open spec fn increment_register(self, x: Nibble, kk: u8) -> Machine {
        self.set_reg(x, wrap8(self.reg(x) + kk))
    }

    /// `8xy0`.
    pub open spec fn copy_register(self, x: Nibble, y: Nibble) -> Machine {
        self.set_reg(x, self.reg(y))
    }

    /// `8xy1`.
    pub open spec fn or_registers(self, x: Nibble, y: Nibble) -> Machine {
        self.set_reg(x, self.reg(x) | self.reg(y))
    }

    /// `8xy2`.
    pub open spec fn and_registers(self, x: Nibble, y: Nibble) -> Machine {
        self.set_reg(x, self.reg(x) & self.reg(y))
    }

    /// `8xy3`.
    pub open spec fn xor_registers(self, x: Nibble, y: Nibble) -> Machine {
        self.set_reg(x, self.reg(x) ^ self.reg(y))
    }

    /// `8xy4`: the sum modulo 256 goes to `Vx`, then the carry to VF.
    pub open spec fn add_registers(self, x: Nibble, y: Nibble) -> Machine {
        let sum = self.reg(x) + self.reg(y);
        self.set_reg(x, wrap8(sum)).set_flag(if sum >= 256 { 1 } else { 0 })
    }

    /// `8xy5`: the difference modulo 256 goes to `Vx`, then 1 to VF if
    /// nothing was borrowed, else 0.
    pub open spec fn subtract_registers(self, x: Nibble, y: Nibble) -> Machine {
        let a = self.reg(x);
        let b = self.reg(y);
        self.set_reg(x, wrap8(a - b)).set_flag(if a >= b { 1 } else { 0 })
    }

    /// `8xy6`: `Vx` is halved, then the bit that fell out goes to VF.
    pub open spec fn right_shift_register(self, x: Nibble) -> Machine {
        let a = self.reg(x);
        self.set_reg(x, (a / 2) as u8).set_flag((a % 2) as u8)
    }

    /// `8xy7`: as `8xy5` with the operands exchanged.
    pub open spec fn subtract_numeric_registers(self, x: Nibble, y: Nibble) -> Machine {
        let a = self.reg(x);
        let b = self.reg(y);
        self.set_reg(x, wrap8(b - a)).set_flag(if b >= a { 1 } else { 0 })
    }

    /// `8xyE`: `Vx` is doubled modulo 256, then the bit that fell out goes
    /// to VF.
    pub open spec fn left_shift_register(self, x: Nibble) -> Machine {
        let a = self.reg(x);
        self.set_reg(x, wrap8(2 * a)).set_flag((a / 128) as u8)
    }

    /// `9xy0`.
    pub open spec fn skip_if_registers_not_equal(self, x: Nibble, y: Nibble) -> Machine {
        self.skip_if(self.reg(x) != self.reg(y))
    }

    /// `Annn`.
    pub open spec fn copy_into_i_register(self, addr: u16) -> Machine {
        Machine { index: addr, ..self }
    }

    /// `Bnnn`: a sixteen-bit sum.
    pub open spec fn offset_register_jump(self, addr: u16) -> Machine {
        Machine { pc: wrap16(addr + self.registers[0]), ..self }
    }

    /// `Cxkk`, `random` being the byte that was drawn.
    pub open spec fn generate_random_value(self, x: Nibble, kk: u8, random: u8) -> Machine {
        self.set_reg(x, kk & random)
    }

    /// `Ex9E`.
    pub open spec fn skip_if_key_pressed(self, x: Nibble) -> Machine {
        self.skip_if(self.keys[self.reg(x) as int])
    }

    /// `ExA1`.
    pub open spec fn skip_if_key_not_pressed(self, x: Nibble) -> Machine {
        self.skip_if(!self.keys[self.reg(x) as int])
    }

    /// `Fx07`.
    pub open spec fn copy_dt_into_register(self, x: Nibble) -> Machine {
        self.set_reg(x, self.delay)
    }

    /// `Fx0A`: the lowest key that is down goes to `Vx`; with none
    /// down, the program counter goes back to this instruction, which is so
    /// carried out again at the next step.
    pub open spec fn wait_for_key_press(self, x: Nibble) -> Machine {
        match polled_key(self.keys) {
            Some(key) => self.set_reg(x, key),
            None => Machine { pc: wrap16(self.pc - 2), ..self },
        }
    }

    /// `Fx15`.
    pub open spec fn set_delay_timer(self, x: Nibble) -> Machine {
        Machine { delay: self.reg(x), ..self }
    }

    /// `Fx18`.
    pub open spec fn set_sound_timer(self, x: Nibble) -> Machine {
        Machine { sound: self.reg(x), ..self }
    }

    /// `Fx1E`: a sixteen-bit sum, without a flag.
    pub open spec fn add_to_i_register(self, x: Nibble) -> Machine {
        Machine { index: wrap16(self.index + self.reg(x)), ..self }
    }

    /// `Fx29`: glyphs are five bytes each and start at address 0.
    pub open spec fn get_digit_sprite_location(self, x: Nibble) -> Machine {
        Machine { index: (GLYPH_SIZE * self.reg(x)) as u16, ..self }
    }

    /// `Fx33`: hundreds at `I`, tens at `I+1`, ones at `I+2`.
    pub open spec fn bcd_representation(self, x: Nibble) -> Machine {
        let value = self.reg(x);
        let at = self.index as int;
        Machine {
            memory: self.memory.update(at, (value / 100) as u8).update(
                at + 1,
                ((value / 10) % 10) as u8,
            ).update(at + 2, (value % 10) as u8),
            ..self
        }
    }

    /// `Fx55`: `V0..=Vx` go to `I..=I+x`.
    pub open spec fn copy_registers_to_memory(self, x: Nibble) -> Machine {
        Machine {
            memory: Seq::new(
                MEMORY_SIZE as nat,
                |a: int|
                    if self.index <= a <= self.index + x.as_int() {
                        self.registers[a - self.index]
                    } else {
                        self.memory[a]
                    },
            ),
            ..self
        }
    }

    /// `Fx65`: `V0..=Vx` come from `I..=I+x`.
    pub open spec fn copy_memory_into_registers(self, x: Nibble) -> Machine {
        Machine {
            registers: Seq::new(
                16,
                |k: int|
                    if k <= x.as_int() {
                        self.memory[self.index + k]
                    } else {
                        self.registers[k]
                    },
            ),
            ..self
        }
    }

    /// The corner of a sprite drawn by `Dxyn`: `(Vx, Vy)`, read after the
    /// flag register was reset, so that VF reads as 0 there.
    pub open spec fn origin(self, x: Nibble, y: Nibble) -> (int, int) {
        let cleared = self.set_flag(0);
        (cleared.reg(x) as int, cleared.reg(y) as int)
    }

    /// Whether a sprite of `n` rows read at `I` and drawn with its corner at
    /// `(ox, oy)` has a pixel at row `r`, column `c` of the screen. Rows and
    /// columns wrap round the edges of the screen.
    pub open spec fn sprite_covers(self, ox: int, oy: int, n: int, r: int, c: int) -> bool {
        let row = (r - oy) % (SCREEN_HEIGHT as int);
        let col = (c - ox) % (SCREEN_WIDTH as int);
        row < n && col < 8 && sprite_bit(self.memory[self.index + row], col)
    }

    /// Whether such a sprite has a pixel where the screen is lit already.
    pub open spec fn sprite_collides(self, ox: int, oy: int, n: int) -> bool {
        exists|r: int, c: int|
            0 <= r < SCREEN_HEIGHT && 0 <= c < SCREEN_WIDTH && self.screen[r][c]
                && #[trigger] self.sprite_covers(ox, oy, n, r, c)
    }

    /// `Dxyn`: every pixel under a pixel of the sprite is flipped, and VF
    /// says whether a lit one was among them.
    pub open spec fn draw(self, x: Nibble, y: Nibble, n: Nibble) -> Machine {
        let (ox, oy) = self.origin(x, y);
        Machine {
            screen: Seq::new(
                SCREEN_HEIGHT as nat,
                |r: int|
                    Seq::new(
                        SCREEN_WIDTH as nat,
                        |c: int| self.screen[r][c] != self.sprite_covers(ox, oy, n.as_int(), r, c),
                    ),
            ),
            ..self.set_flag(if self.sprite_collides(ox, oy, n.as_int()) { 1 } else { 0 })
        }
    }

    /// The fault of an instruction that would read or write `count` bytes at
    /// `I`, if they do not all lie in memory. `address` is the first that
    /// does not.
    pub open spec fn bounds_fault(self, at: u16, count: int) -> Option<Fault> {
        if count > 0 && self.index + count > MEMORY_SIZE {
            Some(
                Fault::OutOfBounds {
                    pc: at,
                    address: if self.index >= MEMORY_SIZE {
                        self.index as u32
                    } else {
                        MEMORY_SIZE as u32
                    },
                },
            )
        } else {
            None
        }
    }

    /// The fault of a key instruction whose register holds no key index.
    pub open spec fn key_fault(self, at: u16, x: Nibble) -> Option<Fault> {
        if self.reg(x) >= 16 {
            Some(Fault::InvalidKey { pc: at, key: self.reg(x) })
        } else {
            None
        }
    }

    /// The fault that `instruction`, fetched from `at`, raises in this
    /// state, if it raises one.
    pub open spec fn fault(self, at: u16, instruction: Instruction) -> Option<Fault> {
        match instruction {
            Instruction::Return => if self.stack.len() == 0 {
                Some(Fault::StackUnderflow { pc: at })
            } else {
                None
            },
            Instruction::Call { addr } => if self.stack.len() >= STACK_DEPTH {
                Some(Fault::StackOverflow { pc: at })
            } else {
                None
            },
            Instruction::Draw { x, y, n } => self.bounds_fault(at, n.as_int()),
            Instruction::BcdRepresentation { x } => self.bounds_fault(at, 3),
            Instruction::CopyRegistersToMemory { x } => self.bounds_fault(at, x.as_int() + 1),
            Instruction::CopyMemoryIntoRegisters { x } => self.bounds_fault(at, x.as_int() + 1),
            Instruction::SkipIfKeyPressed { x } => self.key_fault(at, x),
            Instruction::SkipIfKeyNotPressed { x } => self.key_fault(at, x),
            _ => None,
        }
    }

    /// The state after `instruction` was carried out, where it raises no
    /// fault. `random` is the byte that a `Cxkk` uses.
    pub open spec fn apply(self, instruction: Instruction, random: u8) -> Machine {
        match instruction {
            Instruction::Clear => self.clear(),
            Instruction::Return => self.ret(),
            Instruction::Jump { addr } => self.jump(addr),
            Instruction::Call { addr } => self.call(addr),
            Instruction::SkipIfEqual { x, kk } => self.skip_if_equal(x, kk),
            Instruction::SkipIfNotEqual { x, kk } => self.skip_if_not_equal(x, kk),
            Instruction::SkipIfRegistersEqual { x, y } => self.skip_if_registers_equal(x, y),
            Instruction::CopyIntoRegister { x, kk } => self.copy_into_register(x, kk),
            Instruction::IncrementRegister { x, kk } => self.increment_register(x, kk),
            Instruction::CopyRegister { x, y } => self.copy_register(x, y),
            Instruction::OrRegisters { x, y } => self.or_registers(x, y),
            Instruction::AndRegisters { x, y } => self.and_registers(x, y),
            Instruction::XorRegisters { x, y } => self.xor_registers(x, y),
            Instruction::AddRegisters { x, y } => self.add_registers(x, y),
            Instruction::SubtractRegisters { x, y } => self.subtract_registers(x, y),
            Instruction::RightShiftRegister { x } => self.right_shift_register(x),
            Instruction::SubtractNumericRegisters { x, y } => self.subtract_numeric_registers(
                x,
                y,
            ),
            Instruction::LeftShiftRegister { x } => self.left_shift_register(x),
            Instruction::SkipIfRegistersNotEqual { x, y } => self.skip_if_registers_not_equal(
                x,
                y,
            ),
            Instruction::CopyIntoIRegister { addr } => self.copy_into_i_register(addr),
            Instruction::OffsetRegisterJump { addr } => self.offset_register_jump(addr),
            Instruction::GenerateRandomValue { x, kk } => self.generate_random_value(
                x,
                kk,
                random,
            ),
            Instruction::Draw { x, y, n } => self.draw(x, y, n),
            Instruction::SkipIfKeyPressed { x } => self.skip_if_key_pressed(x),
            Instruction::SkipIfKeyNotPressed { x } => self.skip_if_key_not_pressed(x),
            Instruction::CopyDtIntoRegister { x } => self.copy_dt_into_register(x),
            Instruction::WaitForKeyPress { x } => self.wait_for_key_press(x),
            Instruction::SetDelayTimer { x } => self.set_delay_timer(x),
            Instruction::SetSoundTimer { x } => self.set_sound_timer(x),
            Instruction::AddToIRegister { x } => self.add_to_i_register(x),
            Instruction::GetDigitSpriteLocation { x } => self.get_digit_sprite_location(x),
            Instruction::BcdRepresentation { x } => self.bcd_representation(x),
            Instruction::CopyRegistersToMemory { x } => self.copy_registers_to_memory(x),
            Instruction::CopyMemoryIntoRegisters { x } => self.copy_memory_into_registers(x),
            Instruction::Halt => self,
        }
    }

    /// Carrying out `instruction`, fetched from `at`: a fault leaves the
    /// state as it is.
    pub open spec fn execute(self, at: u16, instruction: Instruction, random: u8) -> (
        Machine,
        Result<Outcome, Fault>,
    ) {
        match self.fault(at, instruction) {
            Some(fault) => (self, Err(fault)),
            None => (
                self.apply(instruction, random),
                Ok(
                    if instruction == Instruction::Halt {
                        Outcome::Halted
                    } else {
                        Outcome::Executed
                    },
                ),
            ),
        }
    }

    /// The instruction word at `address`: two bytes, the more significant
    /// first.
    pub open spec fn word_at(self, address: int) -> u16 {
        (self.memory[address] * 256 + self.memory[address + 1]) as u16
    }

    /// The instruction that the next cycle carries out: `None` where the
    /// fetch lies beyond the end of memory or the word encodes nothing.
    pub open spec fn next_instruction(self) -> Option<Instruction> {
        if self.pc + 1 >= MEMORY_SIZE {
            None
        } else {
            decode_spec(self.word_at(self.pc as int))
        }
    }

    /// Whether the next cycle draws a random byte.
    pub open spec fn draws_random(self) -> bool {
        self.next_instruction() matches Some(Instruction::GenerateRandomValue { .. })
    }

    /// One fetch-decode-execute cycle. A fetch beyond the end of memory is a
    /// fault and changes nothing. Else the program counter moves past the
    /// word fetched, and then the instruction is carried out; a word that
    /// encodes none, or an instruction that raises a fault, changes nothing
    /// more.
    pub open spec fn step(self, random: u8) -> (Machine, Result<Outcome, Fault>) {
        if self.pc + 1 >= MEMORY_SIZE {
            (
                self,
                Err(
                    Fault::OutOfBounds {
                        pc: self.pc,
                        address: if self.pc >= MEMORY_SIZE {
                            self.pc as u32
                        } else {
                            MEMORY_SIZE as u32
                        },
                    },
                ),
            )
        } else {
            let word = self.word_at(self.pc as int);
            let fetched = Machine { pc: (self.pc + 2) as u16, ..self };
            match decode_spec(word) {
                Some(instruction) => fetched.execute(self.pc, instruction, random),
                None => (fetched, Err(Fault::IllegalInstruction { pc: self.pc, word })),
            }
        }
    }
}

} // verus!
