//! The dispatch of a decoded instruction to the code that carries it out.

use vstd::prelude::*;
use crate::cpu::CPU;
use crate::instruction::Instruction;

verus! {

impl CPU {
    /// Dispatches `instruction` to its handler.
    pub(crate) fn apply(&mut self, instruction: Instruction, random: u8)
        requires
            old(self)@.fault(0, instruction).is_none(),
        ensures
            final(self)@ == old(self)@.apply(instruction, random),
    {
        match instruction {
            Instruction::Clear => self.clear(),
            Instruction::Return => self.ret(),
            Instruction::Jump { addr } => self.jump(addr),
            Instruction::Call { addr } => self.call(addr),
            Instruction::SkipIfEqual { x, kk } => self.skip_if_equal(x, kk),
            Instruction::SkipIfNotEqual { x, kk } => self.skip_if_not_equal(x, kk),
            Instruction::SkipIfRegistersEqual { x, y } => self.skip_if_registers_equal(x, y),
            Instruction::CopyIntoRegister { x, kk } => self.copy_into_register(x, kk),
            Instruction::IncrementRegister { x, kk } => self.increment_register(x, kk),
            Instruction::CopyRegister { x, y } => self.copy_register(x, y),
            Instruction::OrRegisters { x, y } => self.or_registers(x, y),
            Instruction::AndRegisters { x, y } => self.and_registers(x, y),
            Instruction::XorRegisters { x, y } => self.xor_registers(x, y),
            Instruction::AddRegisters { x, y } => self.add_registers(x, y),
            Instruction::SubtractRegisters { x, y } => self.subtract_registers(x, y),
            Instruction::RightShiftRegister { x } => self.right_shift_register(x),
            Instruction::SubtractNumericRegisters { x, y } => self.subtract_numeric_registers(
                x,
                y,
            ),
            Instruction::LeftShiftRegister { x } => self.left_shift_register(x),
            Instruction::SkipIfRegistersNotEqual { x, y } => self.skip_if_registers_not_equal(
                x,
                y,
            ),
            Instruction::CopyIntoIRegister { addr } => self.copy_into_i_register(addr),
            Instruction::OffsetRegisterJump { addr } => self.offset_register_jump(addr),
            Instruction::GenerateRandomValue { x, kk } => self.generate_random_value(
                x,
                kk,
                random,
            ),
            Instruction::Draw { x, y, n } => self.draw(x, y, n),
            Instruction::SkipIfKeyPressed { x } => self.skip_if_key_pressed(x),
            Instruction::SkipIfKeyNotPressed { x } => self.skip_if_key_not_pressed(x),
            Instruction::CopyDtIntoRegister { x } => self.copy_dt_into_register(x),
            Instruction::WaitForKeyPress { x } => self.wait_for_key_press(x),
            Instruction::SetDelayTimer { x } => self.set_delay_timer(x),
            Instruction::SetSoundTimer { x } => self.set_sound_timer(x),
            Instruction::AddToIRegister { x } => self.add_to_i_register(x),
            Instruction::GetDigitSpriteLocation { x } => self.get_digit_sprite_location(x),
            Instruction::BcdRepresentation { x } => self.bcd_representation(x),
            Instruction::CopyRegistersToMemory { x } => self.copy_registers_to_memory(x),
            Instruction::CopyMemoryIntoRegisters { x } => self.copy_memory_into_registers(x),
            Instruction::Halt => {},
        }
    }
}

} // verus!
