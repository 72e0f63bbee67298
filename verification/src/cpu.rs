//! The interpreter: the machine's state in fixed-size arrays, and the code
//! that advances it.

use vstd::prelude::*;
use crate::display::{
    sprite_covers_before, lemma_cell_not_yet_covered, lemma_covers_all_rows, lemma_covers_next_column,
    lemma_covers_next_row,
};
use crate::instruction::{decode, Instruction};
use crate::machine::{sprite_bit, wrap8, Fault, Machine, Outcome, FONT, MEMORY_SIZE, PROGRAM_START};
use crate::nibble::Nibble;

verus! {

/// The CHIP-8 interpreter itself: memory, registers, timers, call stack,
/// screen and keypad.
pub struct CPU {
    /// 4 KB of addressable memory.
    memory: [u8; 4096],
    /// The general-purpose registers V0 to VF.
    registers: [u8; 16],
    /// The index register.
    i: u16,
    /// The delay timer.
    dt: u8,
    /// The sound timer.
    st: u8,
    /// The program counter.
    pc: u16,
    /// How many return addresses the stack holds.
    sp: u8,
    /// The call stack; the entries below `sp` are in use.
    stack: [u16; 16],
    /// The 64x32 display, by rows; `true` is a lit pixel.
    screen: [[bool; 64]; 32],
    /// The 16-key keypad; `true` is a key that is down.
    keyboard: [bool; 16],
}

impl View for CPU {
    type V = Machine;

    /// The state as the model sees it. Of the stack, the entries in use.
    closed spec fn view(&self) -> Machine {
        Machine {
            memory: self.memory@,
            registers: self.registers@,
            index: self.i,
            delay: self.dt,
            sound: self.st,
            pc: self.pc,
            stack: self.stack@.take(if self.sp <= 16 { self.sp as int } else { 16 }),
            screen: Seq::new(32, |r: int| self.screen@[r]@),
            keys: self.keyboard@,
        }
    }
}

impl CPU {
    #[verifier::type_invariant]
    spec fn stack_pointer_in_range(self) -> bool {
        self.sp <= 16
    }

    /// Every interpreter is in a state of the right sizes.
    pub proof fn lemma_view_wf(self)
        ensures
            self@.wf(),
    {
    }

    /// Instantiates an interpreter with the font copied into memory.
    pub fn new() -> (cpu: Self)
        ensures
            cpu@ == Machine::initial(),
    {
        let mut memory: [u8; 4096] = [0; 4096];
        let mut address: usize = 0;
        while address < 80
            invariant
                address <= 80,
                forall|a: int| 0 <= a < address ==> memory@[a] == FONT[a],
                forall|a: int| address <= a < 4096 ==> memory@[a] == 0,
            decreases 80 - address,
        {
            memory[address] = FONT[address];
            address += 1;
        }
        let cpu = CPU {
            memory,
            registers: [0; 16],
            i: 0,
            dt: 0,
            st: 0,
            pc: PROGRAM_START,
            sp: 0,
            stack: [0; 16],
            screen: [[false; 64]; 32],
            keyboard: [false; 16],
        };
        proof {
            let initial = Machine::initial();
            assert(cpu@.memory =~= initial.memory);
            assert(cpu@.registers =~= initial.registers);
            assert(cpu@.stack =~= initial.stack);
            assert(cpu@.screen =~~= initial.screen);
            assert(cpu@.keys =~= initial.keys);
        }
        cpu
    }

    /// Loads a program image into memory at the start address. An image that
    /// does not fit is refused, and memory stays as it was.
    pub fn load(&mut self, rom: &[u8]) -> (loaded: Result<(), Fault>)
        ensures
            rom@.len() <= MEMORY_SIZE - PROGRAM_START ==> loaded.is_ok(),
            loaded.is_ok() ==> final(self)@ == old(self)@.load(rom@),
            rom@.len() > MEMORY_SIZE - PROGRAM_START ==> loaded == Err::<(), Fault>(
                (Fault::ImageTooLarge { len: rom@.len() as usize }),
            ),
            loaded.is_err() ==> final(self)@ == old(self)@,
    {
        let len = rom.len();
        if len > 4096 - 0x200 {
            return Err(Fault::ImageTooLarge { len });
        }
        proof {
            use_type_invariant(&*self);
        }
        let mut offset: usize = 0;
        while offset < len
            invariant
                offset <= len,
                len == rom@.len(),
                len <= 4096 - 0x200,
                self.sp <= 16,
                forall|a: int| 0x200 <= a < 0x200 + offset ==> self.memory@[a] == rom@[a - 0x200],
                forall|a: int|
                    0 <= a < 4096 && !(0x200 <= a < 0x200 + offset) ==> self.memory@[a] == old(
                        self,
                    ).memory@[a],
                self.registers == old(self).registers,
                self.i == old(self).i,
                self.dt == old(self).dt,
                self.st == old(self).st,
                self.pc == old(self).pc,
                self.sp == old(self).sp,
                self.stack == old(self).stack,
                self.screen == old(self).screen,
                self.keyboard == old(self).keyboard,
            decreases len - offset,
        {
            self.memory[0x200 + offset] = rom[offset];
            offset += 1;
        }
        proof {
            assert(self@.memory =~= old(self)@.load(rom@).memory);
        }
        Ok(())
    }

    /// Records that key `key` is down (`state`) or up. The front end calls
    /// this whenever a mapped key changes.
    pub fn update_key(&mut self, key: Nibble, state: bool)
        ensures
            final(self)@ == old(self)@.update_key(key, state),
    {
        proof {
            use_type_invariant(&*self);
        }
        self.keyboard[key.index()] = state;
    }

    /// One tick of the 60 Hz clock: each timer that is not zero goes down by
    /// one. Instructions do not move the timers; the front end calls this
    /// once per frame.
    pub fn tick(&mut self)
        ensures
            final(self)@ == old(self)@.tick(),
    {
        proof {
            use_type_invariant(&*self);
        }
        if self.st > 0 {
            self.st -= 1;
        }
        if self.dt > 0 {
            self.dt -= 1;
        }
    }

    /// The screen, by rows, for the front end to paint.
    pub fn screen(&self) -> (screen: &[[bool; 64]; 32])
        ensures
            forall|r: int, c: int|
                0 <= r < 32 && 0 <= c < 64 ==> screen@[r]@[c] == #[trigger] self@.screen[r][c],
    {
        &self.screen
    }

    /// The sound timer: the front end plays its tone while this is not zero.
    pub fn st(&self) -> (sound: u8)
        ensures
            sound == self@.sound,
    {
        self.st
    }

    /// The delay timer.
    pub fn dt(&self) -> (delay: u8)
        ensures
            delay == self@.delay,
    {
        self.dt
    }

    /// The program counter.
    pub fn pc(&self) -> (pc: u16)
        ensures
            pc == self@.pc,
    {
        self.pc
    }

    /// The index register.
    pub fn i(&self) -> (index: u16)
        ensures
            index == self@.index,
    {
        self.i
    }

    /// The number of return addresses on the stack.
    pub fn sp(&self) -> (depth: u8)
        ensures
            depth == self@.stack.len(),
    {
        proof {
            use_type_invariant(self);
        }
        self.sp
    }

    /// The value of register `x`.
    pub fn register(&self, x: Nibble) -> (value: u8)
        ensures
            value == self@.reg(x),
    {
        self.registers[x.index()]
    }

    /// The byte of memory at `address`, if there is one.
    pub fn memory(&self, address: u16) -> (byte: Option<u8>)
        ensures
            address < MEMORY_SIZE ==> byte == Some(self@.memory[address as int]),
            address >= MEMORY_SIZE ==> byte.is_none(),
    {
        if (address as usize) < 4096 {
            Some(self.memory[address as usize])
        } else {
            None
        }
    }

    /// Whether key `key` is down.
    pub fn key(&self, key: Nibble) -> (down: bool)
        ensures
            down == self@.keys[key.as_int()],
    {
        self.keyboard[key.index()]
    }

    /// Pushes a return address onto the stack.
    fn push(&mut self, val: u16)
        requires
            old(self)@.stack.len() < 16,
        ensures
            final(self)@ == (Machine { stack: old(self)@.stack.push(val), ..old(self)@ }),
    {
        proof {
            use_type_invariant(&*self);
        }
        self.stack[self.sp as usize] = val;
        self.sp += 1;
        proof {
            assert(self@.stack =~= old(self)@.stack.push(val));
        }
    }

    /// Pops the most recent return address off the stack.
    fn pop(&mut self) -> (val: u16)
        requires
            old(self)@.stack.len() > 0,
        ensures
            val == old(self)@.stack.last(),
            final(self)@ == (Machine { stack: old(self)@.stack.drop_last(), ..old(self)@ }),
    {
        proof {
            use_type_invariant(&*self);
        }
        self.sp -= 1;
        proof {
            assert(self@.stack =~= old(self)@.stack.drop_last());
        }
        self.stack[self.sp as usize]
    }

    /// Moves the program counter past one more instruction.
    fn skip(&mut self)
        ensures
            final(self)@ == old(self)@.skip_if(true),
    {
        proof {
            use_type_invariant(&*self);
        }
        self.pc = self.pc.wrapping_add(2);
    }

    /// Sets register `x`.
    fn set_register(&mut self, x: Nibble, value: u8)
        ensures
            final(self)@ == old(self)@.set_reg(x, value),
    {
        proof {
            use_type_invariant(&*self);
        }
        self.registers[x.index()] = value;
    }

    /// Sets the flag register VF.
    fn set_flag(&mut self, value: u8)
        ensures
            final(self)@ == old(self)@.set_flag(value),
    {
        proof {
            use_type_invariant(&*self);
        }
        self.registers[0xF] = value;
    }

    /// Clears the display (opcode `00E0`).
    pub(crate) fn clear(&mut self)
        ensures
            final(self)@ == old(self)@.clear(),
    {
        proof {
            use_type_invariant(&*self);
        }
        self.screen = [[false; 64]; 32];
        proof {
            assert(self@.screen =~~= Machine::blank_screen());
        }
    }

    /// Returns from a subroutine (opcode `00EE`): the program counter is set
    /// to the address on top of the stack, which is popped.
    pub(crate) fn ret(&mut self)
        requires
            old(self)@.stack.len() > 0,
        ensures
            final(self)@ == old(self)@.ret(),
    {
        let target = self.pop();
        proof {
            use_type_invariant(&*self);
        }
        self.pc = target;
    }

    /// Jumps to `addr` (opcode `1nnn`).
    pub(crate) fn jump(&mut self, addr: u16)
        ensures
            final(self)@ == old(self)@.jump(addr),
    {
        proof {
            use_type_invariant(&*self);
        }
        self.pc = addr;
    }

    /// Calls the subroutine at `addr` (opcode `2nnn`).
    pub(crate) fn call(&mut self, addr: u16)
        requires
            old(self)@.stack.len() < 16,
        ensures
            final(self)@ == old(self)@.call(addr),
    {
        let back = self.pc;
        self.push(back);
        proof {
            use_type_invariant(&*self);
        }
        self.pc = addr;
    }

    /// Skips the next instruction if `Vx == kk` (opcode `3xkk`).
    pub(crate) fn skip_if_equal(&mut self, x: Nibble, kk: u8)
        ensures
            final(self)@ == old(self)@.skip_if_equal(x, kk),
    {
        if self.registers[x.index()] == kk {
            self.skip();
        }
    }

    /// Skips the next instruction if `Vx != kk` (opcode `4xkk`).
    pub(crate) fn skip_if_not_equal(&mut self, x: Nibble, kk: u8)
        ensures
            final(self)@ == old(self)@.skip_if_not_equal(x, kk),
    {
        if self.registers[x.index()] != kk {
            self.skip();
        }
    }

    /// Skips the next instruction if `Vx == Vy` (opcode `5xy0`).
    pub(crate) fn skip_if_registers_equal(&mut self, x: Nibble, y: Nibble)
        ensures
            final(self)@ == old(self)@.skip_if_registers_equal(x, y),
    {
        if self.registers[x.index()] == self.registers[y.index()] {
            self.skip();
        }
    }

    /// Sets `Vx = kk` (opcode `6xkk`).
    pub(crate) fn copy_into_register(&mut self, x: Nibble, kk: u8)
        ensures
            final(self)@ == old(self)@.copy_into_register(x, kk),
    {
        self.set_register(x, kk);
    }

    /// Sets `Vx = Vx + kk` (opcode `7xkk`), keeping the low eight bits.
    pub(crate) fn increment_register(&mut self, x: Nibble, kk: u8)
        ensures
            final(self)@ == old(self)@.increment_register(x, kk),
    {
        let result = self.registers[x.index()].wrapping_add(kk);
        assert(result == wrap8(self@.reg(x) + kk));
        self.set_register(x, result);
    }

    /// Sets `Vx = Vy` (opcode `8xy0`).
    pub(crate) fn copy_register(&mut self, x: Nibble, y: Nibble)
        ensures
            final(self)@ == old(self)@.copy_register(x, y),
    {
        let value = self.registers[y.index()];
        self.set_register(x, value);
    }

    /// Sets `Vx = Vx | Vy` (opcode `8xy1`).
    pub(crate) fn or_registers(&mut self, x: Nibble, y: Nibble)
        ensures
            final(self)@ == old(self)@.or_registers(x, y),
    {
        let value = self.registers[x.index()] | self.registers[y.index()];
        self.set_register(x, value);
    }

    /// Sets `Vx = Vx & Vy` (opcode `8xy2`).
    pub(crate) fn and_registers(&mut self, x: Nibble, y: Nibble)
        ensures
            final(self)@ == old(self)@.and_registers(x, y),
    {
        let value = self.registers[x.index()] & self.registers[y.index()];
        self.set_register(x, value);
    }

    /// Sets `Vx = Vx ^ Vy` (opcode `8xy3`).
    pub(crate) fn xor_registers(&mut self, x: Nibble, y: Nibble)
        ensures
            final(self)@ == old(self)@.xor_registers(x, y),
    {
        let value = self.registers[x.index()] ^ self.registers[y.index()];
        self.set_register(x, value);
    }

    /// Sets `Vx = Vx + Vy` (opcode `8xy4`). Only the low eight bits of the
    /// sum are kept; VF is set to 1 if the sum does not fit in eight bits,
    /// else to 0, and it is written after `Vx`.
    pub(crate) fn add_registers(&mut self, x: Nibble, y: Nibble)
        ensures
            final(self)@ == old(self)@.add_registers(x, y),
    {
        let a = self.registers[x.index()];
        let b = self.registers[y.index()];
        let result = a.wrapping_add(b);
        let carry: u8 = if a > 255 - b { 1 } else { 0 };
        assert(result == wrap8(a + b));
        self.set_register(x, result);
        self.set_flag(carry);
    }

    /// Sets `Vx = Vx - Vy` (opcode `8xy5`), wrapping round, and VF to 1 if
    /// `Vx >= Vy` held before, else to 0. VF is written after `Vx`.
    pub(crate) fn subtract_registers(&mut self, x: Nibble, y: Nibble)
        ensures
            final(self)@ == old(self)@.subtract_registers(x, y),
    {
        let a = self.registers[x.index()];
        let b = self.registers[y.index()];
        let result = a.wrapping_sub(b);
        let no_borrow: u8 = if a >= b { 1 } else { 0 };
        assert(result == wrap8(a - b));
        self.set_register(x, result);
        self.set_flag(no_borrow);
    }

    /// Sets `Vx = Vx >> 1` (opcode `8xy6`) and VF to the bit shifted out.
    pub(crate) fn right_shift_register(&mut self, x: Nibble)
        ensures
            final(self)@ == old(self)@.right_shift_register(x),
    {
        let a = self.registers[x.index()];
        let shifted_bit = a & 1;
        let result = a >> 1;
        assert(shifted_bit == a % 2 && result == a / 2) by (bit_vector)
            requires
                shifted_bit == a & 1,
                result == a >> 1,
        ;
        self.set_register(x, result);
        self.set_flag(shifted_bit);
    }

    /// Sets `Vx = Vy - Vx` (opcode `8xy7`), wrapping round, and VF to 1 if
    /// `Vy >= Vx` held before, else to 0. VF is written after `Vx`.
    pub(crate) fn subtract_numeric_registers(&mut self, x: Nibble, y: Nibble)
        ensures
            final(self)@ == old(self)@.subtract_numeric_registers(x, y),
    {
        let a = self.registers[x.index()];
        let b = self.registers[y.index()];
        let result = b.wrapping_sub(a);
        let no_borrow: u8 = if b >= a { 1 } else { 0 };
        assert(result == wrap8(b - a));
        self.set_register(x, result);
        self.set_flag(no_borrow);
    }

    /// Sets `Vx = Vx << 1` (opcode `8xyE`) and VF to the bit shifted out.
    pub(crate) fn left_shift_register(&mut self, x: Nibble)
        ensures
            final(self)@ == old(self)@.left_shift_register(x),
    {
        let a = self.registers[x.index()];
        let msb = a & 0x80;
        let result = a << 1;
        let shifted_bit: u8 = if msb == 0x80 { 1 } else { 0 };
        assert(shifted_bit == a / 128 && result == (2 * a) % 256) by (bit_vector)
            requires
                msb == a & 0x80,
                result == a << 1,
                shifted_bit == (if msb == 0x80 { 1u8 } else { 0u8 }),
        ;
        self.set_register(x, result);
        self.set_flag(shifted_bit);
    }

    /// Skips the next instruction if `Vx != Vy` (opcode `9xy0`).
    pub(crate) fn skip_if_registers_not_equal(&mut self, x: Nibble, y: Nibble)
        ensures
            final(self)@ == old(self)@.skip_if_registers_not_equal(x, y),
    {
        if self.registers[x.index()] != self.registers[y.index()] {
            self.skip();
        }
    }

    /// Sets `I = nnn` (opcode `Annn`).
    pub(crate) fn copy_into_i_register(&mut self, nnn: u16)
        ensures
            final(self)@ == old(self)@.copy_into_i_register(nnn),
    {
        proof {
            use_type_invariant(&*self);
        }
        self.i = nnn;
    }

    /// Jumps to `nnn + V0` (opcode `Bnnn`), a sixteen-bit sum.
    pub(crate) fn offset_register_jump(&mut self, nnn: u16)
        ensures
            final(self)@ == old(self)@.offset_register_jump(nnn),
    {
        proof {
            use_type_invariant(&*self);
        }
        self.pc = nnn.wrapping_add(self.registers[0] as u16);
    }

    /// Sets `Vx = random & kk` (opcode `Cxkk`), `random` being a byte drawn
    /// uniformly.
    pub(crate) fn generate_random_value(&mut self, x: Nibble, kk: u8, random: u8)
        ensures
            final(self)@ == old(self)@.generate_random_value(x, kk, random),
    {
        self.set_register(x, kk & random);
    }

    /// Draws the `n`-byte sprite at memory location `I` with its corner at
    /// `(Vx, Vy)` (opcode `Dxyn`). Each byte is one row, its most significant
    /// bit leftmost. Pixels are flipped, positions wrap round the edges of
    /// the screen, and VF is set to 1 if a lit pixel was flipped, else to 0.
    pub(crate) fn draw(&mut self, x: Nibble, y: Nibble, n: Nibble)
        requires
            n.as_int() > 0 ==> old(self)@.index + n.as_int() <= MEMORY_SIZE,
        ensures
            final(self)@ == old(self)@.draw(x, y, n),
    {
        self.set_flag(0);
        let starting_x = self.registers[x.index()];
        let starting_y = self.registers[y.index()];
        let rows = n.value();
        let ghost before = old(self)@;
        let ghost ox = starting_x as int;
        let ghost oy = starting_y as int;
        let ghost hit = false;
        proof {
            use_type_invariant(&*self);
            old(self).lemma_view_wf();
            assert forall|r: int, c: int|
                !(#[trigger] sprite_covers_before(before, ox, oy, 0, 0, r, c)) by {
                lemma_covers_all_rows(before, ox, oy, 0, r, c);
            }
        }
        let mut line: u8 = 0;
        while line < rows
            invariant
                line <= rows,
                rows == n.as_int(),
                rows > 0 ==> before.index + rows <= 4096,
                before == old(self)@,
                before.wf(),
                (ox, oy) == before.origin(x, y),
                ox == starting_x,
                oy == starting_y,
                self.sp <= 16,
                self@.memory == before.memory,
                self@.index == before.index,
                self@.delay == before.delay,
                self@.sound == before.sound,
                self@.pc == before.pc,
                self@.stack == before.stack,
                self@.keys == before.keys,
                self@.registers == before.registers.update(15, if hit { 1u8 } else { 0u8 }),
                hit <==> exists|r: int, c: int|
                    0 <= r < 32 && 0 <= c < 64 && before.screen[r][c]
                        && #[trigger] sprite_covers_before(before, ox, oy, line as int, 0, r, c),
                forall|r: int, c: int|
                    0 <= r < 32 && 0 <= c < 64 ==> self.screen@[r]@[c] == (before.screen[r][c]
                        != #[trigger] sprite_covers_before(before, ox, oy, line as int, 0, r, c)),
            decreases rows - line,
        {
            let next_byte: u8 = self.memory[self.i as usize + line as usize];
            let y_pos: usize = (starting_y as usize + line as usize) % 32;
            let mut x_iter: u8 = 0;
            while x_iter < 8
                invariant
                    x_iter <= 8,
                    line < rows,
                    rows <= 15,
                    before.wf(),
                    before.index + rows <= 4096,
                    next_byte == before.memory[before.index + line],
                    y_pos == (oy + line) % 32,
                    ox == starting_x,
                    oy == starting_y,
                    self.sp <= 16,
                    self@.memory == before.memory,
                    self@.index == before.index,
                    self@.delay == before.delay,
                    self@.sound == before.sound,
                    self@.pc == before.pc,
                    self@.stack == before.stack,
                    self@.keys == before.keys,
                    self@.registers == before.registers.update(15, if hit { 1u8 } else { 0u8 }),
                    hit <==> exists|r: int, c: int|
                        0 <= r < 32 && 0 <= c < 64 && before.screen[r][c]
                            && #[trigger] sprite_covers_before(before, ox,
                            oy,
                            line as int,
                            x_iter as int,
                            r,
                            c,
                        ),
                    forall|r: int, c: int|
                        0 <= r < 32 && 0 <= c < 64 ==> self.screen@[r]@[c] == (before.screen[r][c]
                            != #[trigger] sprite_covers_before(before, ox,
                            oy,
                            line as int,
                            x_iter as int,
                            r,
                            c,
                        )),
                decreases 8 - x_iter,
            {
                let pixel: bool = ((next_byte << x_iter) & 0x80) != 0;
                let x_pos: usize = (starting_x as usize + x_iter as usize) % 64;
                let lit: bool = self.screen[y_pos][x_pos];
                let ghost l = line as int;
                let ghost k = x_iter as int;
                let ghost row_of = y_pos as int;
                let ghost col_of = x_pos as int;
                proof {
                    lemma_pixel_test(next_byte, x_iter);
                    assert forall|r: int, c: int| 0 <= r < 32 && 0 <= c < 64 implies (
                    #[trigger] sprite_covers_before(before, ox, oy, l, k + 1, r, c)) == (
                    sprite_covers_before(before, ox, oy, l, k, r, c) || (r == row_of && c == col_of
                        && pixel)) by {
                        lemma_covers_next_column(before, ox, oy, l, k, r, c);
                    }
                    lemma_cell_not_yet_covered(before, ox, oy, l, k);
                    assert(!sprite_covers_before(before, ox, oy, l, k, row_of, col_of));
                    assert(lit == before.screen[row_of][col_of]);
                }
                if pixel && lit {
                    self.registers[0xF] = 1;
                }
                self.screen[y_pos][x_pos] = lit != pixel;
                proof {
                    let now = hit || (pixel && lit);
                    if now {
                        if hit {
                            let (r, c) = choose|r: int, c: int|
                                0 <= r < 32 && 0 <= c < 64 && before.screen[r][c]
                                    && #[trigger] sprite_covers_before(before, ox, oy, l, k, r, c);
                            assert(sprite_covers_before(before, ox, oy, l, k + 1, r, c));
                        } else {
                            assert(sprite_covers_before(before, ox, oy, l, k + 1, row_of, col_of));
                        }
                    } else {
                        assert forall|r: int, c: int|
                            0 <= r < 32 && 0 <= c < 64 && before.screen[r][c] implies !(
                        #[trigger] sprite_covers_before(before, ox, oy, l, k + 1, r, c)) by {
                            assert(!sprite_covers_before(before, ox, oy, l, k, r, c));
                        }
                    }
                    hit = now;
                    assert(self@.registers =~= before.registers.update(
                        15,
                        if hit { 1u8 } else { 0u8 },
                    ));
                }
                x_iter += 1;
            }
            proof {
                let l = line as int;
                assert forall|r: int, c: int|
                    (#[trigger] sprite_covers_before(before, ox, oy, l + 1, 0, r, c))
                        == sprite_covers_before(before, ox, oy, l, 8, r, c) by {
                    lemma_covers_next_row(before, ox, oy, l, r, c);
                }
                if hit {
                    let (r, c) = choose|r: int, c: int|
                        0 <= r < 32 && 0 <= c < 64 && before.screen[r][c]
                            && #[trigger] sprite_covers_before(before, ox, oy, l, 8, r, c);
                    assert(sprite_covers_before(before, ox, oy, l + 1, 0, r, c));
                } else {
                    assert forall|r: int, c: int|
                        0 <= r < 32 && 0 <= c < 64 && before.screen[r][c] implies !(
                    #[trigger] sprite_covers_before(before, ox, oy, l + 1, 0, r, c)) by {
                        assert(!sprite_covers_before(before, ox, oy, l, 8, r, c));
                    }
                }
            }
            line += 1;
        }
        proof {
            let after = before.draw(x, y, n);
            let count = n.as_int();
            assert forall|r: int, c: int| 0 <= r < 32 && 0 <= c < 64 implies self.screen@[r]@[c]
                == (before.screen[r][c] != #[trigger] before.sprite_covers(ox, oy, count, r, c)) by {
                lemma_covers_all_rows(before, ox, oy, count, r, c);
            }
            if hit {
                let (r, c) = choose|r: int, c: int|
                    0 <= r < 32 && 0 <= c < 64 && before.screen[r][c]
                        && #[trigger] sprite_covers_before(before, ox, oy, count, 0, r, c);
                lemma_covers_all_rows(before, ox, oy, count, r, c);
                assert(before.sprite_covers(ox, oy, count, r, c));
            } else {
                assert forall|r: int, c: int|
                    0 <= r < 32 && 0 <= c < 64 && before.screen[r][c] implies !(
                #[trigger] before.sprite_covers(ox, oy, count, r, c)) by {
                    lemma_covers_all_rows(before, ox, oy, count, r, c);
                    assert(!sprite_covers_before(before, ox, oy, count, 0, r, c));
                }
            }
            assert(hit == before.sprite_collides(ox, oy, count));
            assert(self@.screen =~~= after.screen);
            assert(self@.registers =~= after.registers);
        }
    }

    /// Skips the next instruction if the key with the value of `Vx` is down
    /// (opcode `Ex9E`).
    pub(crate) fn skip_if_key_pressed(&mut self, x: Nibble)
        requires
            old(self)@.reg(x) < 16,
        ensures
            final(self)@ == old(self)@.skip_if_key_pressed(x),
    {
        if self.keyboard[self.registers[x.index()] as usize] {
            self.skip();
        }
    }

    /// Skips the next instruction if the key with the value of `Vx` is up
    /// (opcode `ExA1`).
    pub(crate) fn skip_if_key_not_pressed(&mut self, x: Nibble)
        requires
            old(self)@.reg(x) < 16,
        ensures
            final(self)@ == old(self)@.skip_if_key_not_pressed(x),
    {
        if !self.keyboard[self.registers[x.index()] as usize] {
            self.skip();
        }
    }

    /// Sets `Vx` to the delay timer (opcode `Fx07`).
    pub(crate) fn copy_dt_into_register(&mut self, x: Nibble)
        ensures
            final(self)@ == old(self)@.copy_dt_into_register(x),
    {
        let value = self.dt;
        self.set_register(x, value);
    }

    /// Waits for a key press and stores the key in `Vx` (opcode `Fx0A`).
    /// Keys are polled in numerical order. The interpreter must not block
    /// its caller, which also feeds it the key presses: when no key is
    /// down, the program counter is moved back, so that the next step
    /// carries out this instruction again.
    pub(crate) fn wait_for_key_press(&mut self, x: Nibble)
        ensures
            final(self)@ == old(self)@.wait_for_key_press(x),
    {
        let mut pressed: bool = false;
        let mut key: u8 = 0;
        while key < 16
            invariant_except_break
                !pressed,
                self@ == old(self)@,
            invariant
                key <= 16,
                forall|k: int| 0 <= k < key ==> !old(self)@.keys[k],
            ensures
                pressed ==> key < 16 && old(self)@.keys[key as int] && self@ == old(self)@.set_reg(
                    x,
                    key,
                ),
                !pressed ==> key == 16 && self@ == old(self)@,
            decreases 16 - key,
        {
            if self.keyboard[key as usize] {
                self.set_register(x, key);
                pressed = true;
                break ;
            }
            key += 1;
        }
        if !pressed {
            proof {
                use_type_invariant(&*self);
            }
            self.pc = self.pc.wrapping_sub(2);
        }
    }

    /// Sets the delay timer to `Vx` (opcode `Fx15`).
    pub(crate) fn set_delay_timer(&mut self, x: Nibble)
        ensures
            final(self)@ == old(self)@.set_delay_timer(x),
    {
        proof {
            use_type_invariant(&*self);
        }
        self.dt = self.registers[x.index()];
    }

    /// Sets the sound timer to `Vx` (opcode `Fx18`).
    pub(crate) fn set_sound_timer(&mut self, x: Nibble)
        ensures
            final(self)@ == old(self)@.set_sound_timer(x),
    {
        proof {
            use_type_invariant(&*self);
        }
        self.st = self.registers[x.index()];
    }

    /// Sets `I = I + Vx` (opcode `Fx1E`), a sixteen-bit sum.
    pub(crate) fn add_to_i_register(&mut self, x: Nibble)
        ensures
            final(self)@ == old(self)@.add_to_i_register(x),
    {
        proof {
            use_type_invariant(&*self);
        }
        self.i = self.i.wrapping_add(self.registers[x.index()] as u16);
    }

    /// Sets `I` to the address of the glyph for the digit in `Vx` (opcode
    /// `Fx29`). The glyphs are five bytes each and start at address 0.
    pub(crate) fn get_digit_sprite_location(&mut self, x: Nibble)
        ensures
            final(self)@ == old(self)@.get_digit_sprite_location(x),
    {
        let target = self.registers[x.index()];
        proof {
            use_type_invariant(&*self);
        }
        self.i = 5 * (target as u16);
    }

    /// Stores the decimal digits of `Vx` in memory (opcode `Fx33`): the
    /// hundreds at `I`, the tens at `I+1`, the ones at `I+2`.
    pub(crate) fn bcd_representation(&mut self, x: Nibble)
        requires
            old(self)@.index + 3 <= MEMORY_SIZE,
        ensures
            final(self)@ == old(self)@.bcd_representation(x),
    {
        let value = self.registers[x.index()];
        let hundreds = value / 100;
        let tens = (value / 10) % 10;
        let ones = value % 10;
        let at = self.i as usize;
        proof {
            use_type_invariant(&*self);
        }
        self.memory[at] = hundreds;
        self.memory[at + 1] = tens;
        self.memory[at + 2] = ones;
    }

    /// Stores the registers `V0` to `Vx` in memory from `I` on (opcode
    /// `Fx55`).
    pub(crate) fn copy_registers_to_memory(&mut self, x: Nibble)
        requires
            old(self)@.index + x.as_int() + 1 <= MEMORY_SIZE,
        ensures
            final(self)@ == old(self)@.copy_registers_to_memory(x),
    {
        let last = x.index();
        let at = self.i as usize;
        let ghost before = old(self)@;
        proof {
            use_type_invariant(&*self);
            old(self).lemma_view_wf();
        }
        let mut count: usize = 0;
        while count <= last
            invariant
                count <= last + 1,
                last == x.as_int(),
                at == before.index,
                at + last + 1 <= 4096,
                before == old(self)@,
                before.wf(),
                self.sp <= 16,
                self@ == (Machine { memory: self@.memory, ..before }),
                self@.memory.len() == 4096,
                forall|a: int|
                    0 <= a < 4096 ==> self@.memory[a] == if at <= a < at + count {
                        before.registers[a - at]
                    } else {
                        before.memory[a]
                    },
            decreases last + 1 - count,
        {
            self.memory[at + count] = self.registers[count];
            count += 1;
        }
        proof {
            assert(self@.memory =~= before.copy_registers_to_memory(x).memory);
        }
    }

    /// Reads the registers `V0` to `Vx` from memory from `I` on (opcode
    /// `Fx65`).
    pub(crate) fn copy_memory_into_registers(&mut self, x: Nibble)
        requires
            old(self)@.index + x.as_int() + 1 <= MEMORY_SIZE,
        ensures
            final(self)@ == old(self)@.copy_memory_into_registers(x),
    {
        let last = x.index();
        let at = self.i as usize;
        let ghost before = old(self)@;
        proof {
            use_type_invariant(&*self);
            old(self).lemma_view_wf();
        }
        let mut count: usize = 0;
        while count <= last
            invariant
                count <= last + 1,
                last == x.as_int(),
                at == before.index,
                at + last + 1 <= 4096,
                before == old(self)@,
                before.wf(),
                self.sp <= 16,
                self@ == (Machine { registers: self@.registers, ..before }),
                self@.registers.len() == 16,
                forall|k: int|
                    0 <= k < 16 ==> self@.registers[k] == if k < count {
                        before.memory[at + k]
                    } else {
                        before.registers[k]
                    },
            decreases last + 1 - count,
        {
            self.registers[count] = self.memory[at + count];
            count += 1;
        }
        proof {
            assert(self@.registers =~= before.copy_memory_into_registers(x).registers);
        }
    }

    /// Carries out `instruction`, which was fetched from `at`. `random` is
    /// the byte that a `Cxkk` uses. An instruction that raises a fault
    /// changes nothing.
    fn execute(&mut self, at: u16, instruction: Instruction, random: u8) -> (result: Result<
        Outcome,
        Fault,
    >)
        ensures
            (final(self)@, result) == old(self)@.execute(at, instruction, random),
    {
        if let Some(fault) = self.fault(at, instruction) {
            return Err(fault);
        }
        self.apply(instruction, random);
        match instruction {
            Instruction::Halt => Ok(Outcome::Halted),
            _ => Ok(Outcome::Executed),
        }
    }

    /// The fault that `instruction`, fetched from `at`, raises in the
    /// present state, if it raises one.
    fn fault(&self, at: u16, instruction: Instruction) -> (fault: Option<Fault>)
        ensures
            fault == self@.fault(at, instruction),
    {
        proof {
            use_type_invariant(self);
        }
        match instruction {
            Instruction::Return => if self.sp == 0 {
                Some(Fault::StackUnderflow { pc: at })
            } else {
                None
            },
            Instruction::Call { .. } => if self.sp >= 16 {
                Some(Fault::StackOverflow { pc: at })
            } else {
                None
            },
            Instruction::Draw { n, .. } => self.bounds_fault(at, n.index()),
            Instruction::BcdRepresentation { .. } => self.bounds_fault(at, 3),
            Instruction::CopyRegistersToMemory { x } => self.bounds_fault(at, x.index() + 1),
            Instruction::CopyMemoryIntoRegisters { x } => self.bounds_fault(at, x.index() + 1),
            Instruction::SkipIfKeyPressed { x } => self.key_fault(at, x),
            Instruction::SkipIfKeyNotPressed { x } => self.key_fault(at, x),
            _ => None,
        }
    }

    /// The fault of an instruction at `at` that would touch `count` bytes
    /// from `I` on, if they do not all lie in memory.
    fn bounds_fault(&self, at: u16, count: usize) -> (fault: Option<Fault>)
        requires
            count <= 16,
        ensures
            fault == self@.bounds_fault(at, count as int),
    {
        let start = self.i as usize;
        if count > 0 && start + count > 4096 {
            let address: u32 = if start >= 4096 { self.i as u32 } else { 4096 };
            Some(Fault::OutOfBounds { pc: at, address })
        } else {
            None
        }
    }

    /// The fault of a key instruction at `at` whose register `x` holds no
    /// key index.
    fn key_fault(&self, at: u16, x: Nibble) -> (fault: Option<Fault>)
        ensures
            fault == self@.key_fault(at, x),
    {
        let key = self.registers[x.index()];
        if key >= 16 {
            Some(Fault::InvalidKey { pc: at, key })
        } else {
            None
        }
    }

    /// Performs one fetch-decode-execute cycle, with `random` as the byte
    /// that a `Cxkk` instruction uses.
    pub fn step_with(&mut self, random: u8) -> (result: Result<Outcome, Fault>)
        ensures
            (final(self)@, result) == old(self)@.step(random),
    {
        match self.fetch() {
            Err(fault) => Err(fault),
            Ok((at, instruction)) => self.execute(at, instruction, random),
        }
    }

    /// Performs one fetch-decode-execute cycle. A `Cxkk` instruction uses a
    /// byte drawn at random; every other instruction does the same whatever
    /// would have been drawn.
    pub fn step(&mut self) -> (result: Result<Outcome, Fault>)
        ensures
            exists|random: u8| (final(self)@, result) == #[trigger] old(self)@.step(random),
            !old(self)@.draws_random() ==> (final(self)@, result) == old(self)@.step(0),
    {
        match self.fetch() {
            Err(fault) => {
                assert((self@, Err::<Outcome, Fault>(fault)) == old(self)@.step(0u8));
                Err(fault)
            },
            Ok((at, instruction)) => {
                let random = match instruction {
                    Instruction::GenerateRandomValue { .. } => random_byte(),
                    _ => 0,
                };
                let result = self.execute(at, instruction, random);
                assert((self@, result) == old(self)@.step(random));
                result
            },
        }
    }

    /// The first half of a cycle: reads the word at the program counter,
    /// moves the program counter past it, and decodes it.
    fn fetch(&mut self) -> (fetched: Result<(u16, Instruction), Fault>)
        ensures
            forall|random: u8|
                (#[trigger] old(self)@.step(random)) == resume(final(self)@, fetched, random),
    {
        proof {
            use_type_invariant(&*self);
        }
        let at = self.pc;
        if at as usize + 1 >= 4096 {
            let address: u32 = if at as usize >= 4096 { at as u32 } else { 4096 };
            return Err(Fault::OutOfBounds { pc: at, address });
        }
        let byte1 = self.memory[at as usize];
        let byte2 = self.memory[at as usize + 1];
        let word: u16 = (byte1 as u16) * 256 + (byte2 as u16);
        self.pc = at + 2;
        match decode(word) {
            Some(instruction) => Ok((at, instruction)),
            None => Err(Fault::IllegalInstruction { pc: at, word }),
        }
    }
}

/// What a cycle comes to once the fetch has ended as `fetched` and left
/// the machine in state `m`.
spec fn resume(m: Machine, fetched: Result<(u16, Instruction), Fault>, random: u8) -> (
    Machine,
    Result<Outcome, Fault>,
) {
    match fetched {
        Ok((at, instruction)) => m.execute(at, instruction, random),
        Err(fault) => (m, Err(fault)),
    }
}

/// A byte drawn uniformly at random from the thread-local generator of the
/// `rand` crate (`rand::thread_rng`, `Rng::gen`). Nothing is claimed of the
/// byte: every value can come back, and two calls need not agree.
#[verifier::external_body]
fn random_byte() -> (byte: u8) {
    rand::Rng::gen::<u8>(&mut rand::thread_rng())
}

/// The test that the drawing loop makes of a sprite row, shifted left by the
/// column, is the test of that column's bit.
proof fn lemma_pixel_test(byte: u8, col: u8)
    requires
        col < 8,
    ensures
        (((byte << col) & 0x80) != 0) == sprite_bit(byte, col as int),
{
    if col == 0 {
        assert((((byte << 0u8) & 0x80) != 0) == ((byte / 128) % 2 == 1)) by (bit_vector);
    } else if col == 1 {
        assert((((byte << 1u8) & 0x80) != 0) == ((byte / 64) % 2 == 1)) by (bit_vector);
    } else if col == 2 {
        assert((((byte << 2u8) & 0x80) != 0) == ((byte / 32) % 2 == 1)) by (bit_vector);
    } else if col == 3 {
        assert((((byte << 3u8) & 0x80) != 0) == ((byte / 16) % 2 == 1)) by (bit_vector);
    } else if col == 4 {
        assert((((byte << 4u8) & 0x80) != 0) == ((byte / 8) % 2 == 1)) by (bit_vector);
    } else if col == 5 {
        assert((((byte << 5u8) & 0x80) != 0) == ((byte / 4) % 2 == 1)) by (bit_vector);
    } else if col == 6 {
        assert((((byte << 6u8) & 0x80) != 0) == ((byte / 2) % 2 == 1)) by (bit_vector);
    } else {
        assert((((byte << 7u8) & 0x80) != 0) == ((byte / 1) % 2 == 1)) by (bit_vector);
    }
}

} // verus!
