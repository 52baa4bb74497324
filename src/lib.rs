//! A CHIP-8 virtual machine core: fetch, decode and execute of the CHIP-8
//! instruction set, over a monochrome display with XOR sprite blitting.

pub mod chip8;
pub mod alter_chip;
