//! A CHIP-8 virtual machine: memory, registers, call stack, timers,
//! framebuffer and keypad, advanced one instruction at a time.

pub mod cpu;
pub mod dispatch;
pub mod display;
pub mod graphics;
pub mod instruction;
pub mod machine;
pub mod nibble;
pub mod theorems;
