//! The machine's dimensions, its built-in font, and its components.

use vstd::prelude::*;

pub mod display;
pub mod instruction;
pub mod lemmas;
pub mod machine;
pub mod processor;
pub mod screen;
pub mod utils;

verus! {

/// Width of the display in pixels.
pub const DISPLAY_WIDTH: usize = 64;

/// Height of the display in pixels.
pub const DISPLAY_HEIGHT: usize = 32;

/// Number of pixels of the display (`DISPLAY_WIDTH * DISPLAY_HEIGHT`).
pub const DISPLAY_SIZE: usize = 2048;

/// Size of the addressable memory in bytes.
pub const RAM_SIZE: usize = 4096;

/// Number of general purpose registers (V0 to VF).
pub const GENERAL_REGISTERS: usize = 16;

/// Number of byte registers: the sixteen general ones, then the delay and the sound timer.
pub const REGISTER_SIZE: usize = 18;

/// Number of return addresses the call stack holds.
pub const STACK_SIZE: usize = 16;

/// Width of one instruction in bytes.
pub const OPCODE_SIZE: usize = 2;

/// Address at which programs are loaded and execution starts.
pub const PROGRAM_START: u16 = 0x200;

/// Number of bytes of the built-in font (sixteen glyphs of five rows).
pub const FONT_SIZE: usize = 80;

/// The built-in hexadecimal font, one glyph of five rows for each digit 0 to F.
pub const FONT: [u8; FONT_SIZE] = [
    0xF0, 0x90, 0x90, 0x90, 0xF0, // 0
    0x20, 0x60, 0x20, 0x20, 0x70, // 1
    0xF0, 0x10, 0xF0, 0x80, 0xF0, // 2
    0xF0, 0x10, 0xF0, 0x10, 0xF0, // 3
    0x90, 0x90, 0xF0, 0x10, 0x10, // 4
    0xF0, 0x80, 0xF0, 0x10, 0xF0, // 5
    0xF0, 0x80, 0xF0, 0x90, 0xF0, // 6
    0xF0, 0x10, 0x20, 0x40, 0x40, // 7
    0xF0, 0x90, 0xF0, 0x90, 0xF0, // 8
    0xF0, 0x90, 0xF0, 0x10, 0xF0, // 9
    0xF0, 0x90, 0xF0, 0x90, 0x90, // A
    0xE0, 0x90, 0xE0, 0x90, 0xE0, // B
    0xF0, 0x80, 0x80, 0x80, 0xF0, // C
    0xE0, 0x90, 0x90, 0x90, 0xE0, // D
    0xF0, 0x80, 0xF0, 0x80, 0xF0, // E
    0xF0, 0x80, 0xF0, 0x80, 0x80, // F
];

} // verus!
