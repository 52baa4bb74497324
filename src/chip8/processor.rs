//! The processor: memory, registers, stack, timers, keys and display, and the
//! fetch, decode and execute cycle over them.
//!
//! The program counter does not move on fetch: executing an instruction word
//! moves it, by the instruction's outcome, relative to the address after it.

use vstd::prelude::*;

use crate::chip8::display::Display;
use crate::chip8::instruction::{decoded, Instruction};
use crate::chip8::machine::{
    copy_program, cycle, next_address, touched, count_down, count_down_timers, execute_word, font_memory, install_font,
    outcome, read_word, reset_state, with_program, word_at, Fault, Hardware, Machine,
    KEY_COUNT, SOUND_TIMER,
};
use crate::chip8::screen::blank;
use crate::chip8::utils::random_byte;
use crate::chip8::{
    FONT, FONT_SIZE, OPCODE_SIZE, PROGRAM_START, RAM_SIZE, REGISTER_SIZE, STACK_SIZE,
};

verus! {

/// What executing one instruction word reported.
pub struct Output {
    /// Whether the instruction was executed.
    pub success: bool,
    /// The instruction word.
    pub opcode: u16,
    /// Why it was not executed, if it was not.
    pub fault: Option<Fault>,
    /// The cell indices (`row * DISPLAY_WIDTH + column`) of the pixels the
    /// instruction drew over, in the order it drew them.
    pub edited_pixels: Vec<usize>,
}

/// The sixteen keys of the keypad.
#[derive(Clone, Copy, PartialEq, Eq, Debug, Structural)]
pub enum Key {
    K1,
    K2,
    K3,
    K4,
    K5,
    K6,
    K7,
    K8,
    K9,
    K0,
    KA,
    KB,
    KC,
    KD,
    KE,
    KF,
}

/// The number by which the machine knows a key: its position in the
/// declaration of `Key`.
pub open spec fn key_code(k: Key) -> u8 {
    match k {
        Key::K1 => 0,
        Key::K2 => 1,
        Key::K3 => 2,
        Key::K4 => 3,
        Key::K5 => 4,
        Key::K6 => 5,
        Key::K7 => 6,
        Key::K8 => 7,
        Key::K9 => 8,
        Key::K0 => 9,
        Key::KA => 10,
        Key::KB => 11,
        Key::KC => 12,
        Key::KD => 13,
        Key::KE => 14,
        Key::KF => 15,
    }
}

impl Key {
    /// The number by which the machine knows the key.
    pub fn code(self) -> (c: u8)
        ensures
            c == key_code(self),
            c < KEY_COUNT,
    {
        match self {
            Key::K1 => 0,
            Key::K2 => 1,
            Key::K3 => 2,
            Key::K4 => 3,
            Key::K5 => 4,
            Key::K6 => 5,
            Key::K7 => 6,
            Key::K8 => 7,
            Key::K9 => 8,
            Key::K0 => 9,
            Key::KA => 10,
            Key::KB => 11,
            Key::KC => 12,
            Key::KD => 13,
            Key::KE => 14,
            Key::KF => 15,
        }
    }
}

/// The registers: V0 to VF, then the delay and the sound timer.
#[derive(Clone, Copy, Debug, PartialEq, Eq, Structural)]
pub enum Register {
    V0,
    V1,
    V2,
    V3,
    V4,
    V5,
    V6,
    V7,
    V8,
    V9,
    VA,
    VB,
    VC,
    VD,
    VE,
    VF,
    DT,
    ST,
}

/// The position of a register in the register file.
pub open spec fn register_index(r: Register) -> usize {
    match r {
        Register::V0 => 0,
        Register::V1 => 1,
        Register::V2 => 2,
        Register::V3 => 3,
        Register::V4 => 4,
        Register::V5 => 5,
        Register::V6 => 6,
        Register::V7 => 7,
        Register::V8 => 8,
        Register::V9 => 9,
        Register::VA => 10,
        Register::VB => 11,
        Register::VC => 12,
        Register::VD => 13,
        Register::VE => 14,
        Register::VF => 15,
        Register::DT => 16,
        Register::ST => 17,
    }
}

impl Register {
    /// The position of the register in the register file.
    pub fn index(self) -> (i: usize)
        ensures
            i == register_index(self),
            i < REGISTER_SIZE,
    {
        match self {
            Register::V0 => 0,
            Register::V1 => 1,
            Register::V2 => 2,
            Register::V3 => 3,
            Register::V4 => 4,
            Register::V5 => 5,
            Register::V6 => 6,
            Register::V7 => 7,
            Register::V8 => 8,
            Register::V9 => 9,
            Register::VA => 10,
            Register::VB => 11,
            Register::VC => 12,
            Register::VD => 13,
            Register::VE => 14,
            Register::VF => 15,
            Register::DT => 16,
            Register::ST => 17,
        }
    }
}

/// The code of the key pressed last, if any.
pub open spec fn key_state(k: Option<Key>) -> Option<u8> {
    match k {
        Some(key) => Some(key_code(key)),
        None => None,
    }
}

/// The processor. Its view is the machine state it holds.
pub struct Processor {
    ram: [u8; RAM_SIZE],
    /// The program counter: the address of the next instruction to fetch.
    pub pc: u16,
    /// The index register, a memory address.
    pub i_reg: u16,
    stack: [u16; STACK_SIZE],
    /// The number of return addresses on the stack.
    pub sp: u16,
    registers: [u8; REGISTER_SIZE],
    /// The display.
    pub display: Display,
    keys: [bool; KEY_COUNT],
    /// The key pressed last, while it is down.
    pub current_key: Option<Key>,
}

impl View for Processor {
    type V = Machine;

    closed spec fn view(&self) -> Machine {
        Machine {
            ram: self.ram@,
            registers: self.registers@,
            index: self.i_reg,
            pc: self.pc,
            sp: self.sp,
            stack: self.stack@,
            pixels: self.display@,
            keys: self.keys@,
            current_key: key_state(self.current_key),
        }
    }
}

impl Hardware for Processor {
    closed spec fn state(&self) -> Machine {
        self@
    }

    proof fn lemma_well_formed(&self) {
        self.display.lemma_len();
    }

    fn program_counter(&self) -> (pc: u16) {
        self.pc
    }

    fn set_program_counter(&mut self, pc: u16) {
        self.pc = pc;
    }

    fn register(&self, r: usize) -> (v: u8) {
        self.registers[r]
    }

    fn set_register(&mut self, r: usize, v: u8) {
        self.registers[r] = v;
    }

    fn index(&self) -> (i: u16) {
        self.i_reg
    }

    fn set_index(&mut self, i: u16) {
        self.i_reg = i;
    }

    fn memory(&self, a: usize) -> (v: u8) {
        self.ram[a]
    }

    fn set_memory(&mut self, a: usize, v: u8) {
        self.ram[a] = v;
    }

    fn stack_pointer(&self) -> (sp: u16) {
        self.sp
    }

    fn set_stack_pointer(&mut self, sp: u16) {
        self.sp = sp;
    }

    fn stack_entry(&self, s: usize) -> (a: u16) {
        self.stack[s]
    }

    fn set_stack_entry(&mut self, s: usize, a: u16) {
        self.stack[s] = a;
    }

    fn key_down(&self, k: usize) -> (down: bool) {
        self.keys[k]
    }

    fn pressed_key(&self) -> (k: Option<u8>) {
        match self.current_key {
            Some(key) => Some(key.code()),
            None => None,
        }
    }

    fn clear_screen(&mut self) {
        self.display.cls();
    }

    fn draw_sprite(&mut self, x: usize, y: usize, sprite: &[u8]) -> (collision: bool) {
        self.display.draw(x, y, sprite)
    }
}

impl Processor {
    /// A processor after a reset, with no key down and the index register at 0.
    pub fn new() -> (p: Self)
        ensures
            p@ == reset_state(
                Machine {
                    ram: font_memory(),
                    registers: Seq::new(REGISTER_SIZE as nat, |r: int| 0u8),
                    index: 0,
                    pc: PROGRAM_START,
                    sp: 0,
                    stack: Seq::new(STACK_SIZE as nat, |s: int| 0u16),
                    pixels: blank(),
                    keys: Seq::new(KEY_COUNT as nat, |k: int| false),
                    current_key: None,
                },
            ),
    {
        let mut proc = Processor {
            ram: [0; RAM_SIZE],
            pc: PROGRAM_START,
            i_reg: 0,
            stack: [0; STACK_SIZE],
            sp: 0,
            registers: [0; REGISTER_SIZE],
            display: Display::new(),
            keys: [false; KEY_COUNT],
            current_key: None,
        };
        proc.initialize();
        proof {
            assert(proc@.ram =~= font_memory());
            assert(proc@.registers =~= Seq::new(REGISTER_SIZE as nat, |r: int| 0u8));
            assert(proc@.stack =~= Seq::new(STACK_SIZE as nat, |s: int| 0u16));
            assert(proc@.keys =~= Seq::new(KEY_COUNT as nat, |k: int| false));
        }
        proc
    }

    /// The instruction word at the program counter, high byte first; the
    /// program counter does not move.
    pub fn fetch(&mut self) -> (opcode: u16)
        requires
            old(self)@.pc + 1 < RAM_SIZE,
        ensures
            opcode == word_at(old(self)@, old(self)@.pc as int),
            final(self)@ == old(self)@,
    {
        read_word(self, self.pc as usize)
    }

    /// Executes the instruction word, with `random` as the byte a random
    /// instruction draws. The program counter moves by the outcome from the
    /// address after the instruction; a word that encodes no instruction only
    /// moves it there, and a fault leaves the processor unchanged.
    pub fn execute_with(&mut self, opcode: u16, random: u8) -> (out: Output)
        ensures
            (final(self)@, out.fault) == outcome(old(self)@, opcode, random, next_address(old(self)@.pc)),
            out.success == (out.fault is None),
            out.opcode == opcode,
            out.edited_pixels@ == touched(old(self)@, opcode, out.fault),
    {
        let next = self.pc.wrapping_add(OPCODE_SIZE as u16);
        let (fault, edited_pixels) = execute_word(self, opcode, random, next);
        Output { success: fault.is_none(), opcode, fault, edited_pixels }
    }

    /// Executes the instruction word, drawing a random byte from the
    /// thread-local generator for the random instruction.
    pub fn execute(&mut self, opcode: u16) -> (out: Output)
        ensures
            exists|random: u8|
                (final(self)@, out.fault) == outcome(
                    old(self)@,
                    opcode,
                    random,
                    next_address(old(self)@.pc),
                ),
            !(decoded(opcode) matches Some(Instruction::Random(_, _))) ==> (final(self)@, out.fault)
                == outcome(old(self)@, opcode, 0, next_address(old(self)@.pc)),
            out.success == (out.fault is None),
            out.opcode == opcode,
            out.edited_pixels@ == touched(old(self)@, opcode, out.fault),
    {
        let random = if opcode >> 12u16 == 0xC {
            random_byte()
        } else {
            0
        };
        proof {
            assert(opcode >> 12u16 == opcode / 0x1000) by (bit_vector);
        }
        self.execute_with(opcode, random)
    }

    /// Copies the font into memory from address 0 on.
    fn initialize(&mut self)
        ensures
            final(self)@ == (Machine {
                ram: Seq::new(
                    RAM_SIZE as nat,
                    |a: int|
                        if a < FONT_SIZE {
                            FONT@[a]
                        } else {
                            old(self)@.ram[a]
                        },
                ),
                ..old(self)@
            }),
    {
        install_font(self);
    }

    /// One cycle with the given random byte: counts both timers down where
    /// not zero, then fetches the instruction word at the program counter and
    /// executes it. A program counter whose word lies outside memory stops
    /// the cycle after the count down, with a memory fault.
    pub fn tick_with(&mut self, random: u8) -> (out: Output)
        ensures
            old(self)@.pc + 1 < RAM_SIZE ==> out.opcode == word_at(
                count_down(old(self)@),
                old(self)@.pc as int,
            ) && (final(self)@, out.fault) == cycle(old(self)@, random) && out.edited_pixels@
                == touched(count_down(old(self)@), out.opcode, out.fault),
            old(self)@.pc + 1 >= RAM_SIZE ==> final(self)@ == count_down(old(self)@) && out.fault
                == Some(Fault::MemoryOutOfRange) && out.edited_pixels@.len() == 0,
            out.success == (out.fault is None),
    {
        count_down_timers(self);
        if self.pc as usize + 1 >= RAM_SIZE {
            return Output {
                success: false,
                opcode: 0,
                fault: Some(Fault::MemoryOutOfRange),
                edited_pixels: Vec::new(),
            };
        }
        let opcode = self.fetch();
        proof {
            reveal(cycle);
        }
        self.execute_with(opcode, random)
    }

    /// One cycle, drawing a random byte from the thread-local generator for
    /// the random instruction.
    pub fn tick(&mut self) -> (out: Output)
        ensures
            old(self)@.pc + 1 < RAM_SIZE ==> out.opcode == word_at(
                count_down(old(self)@),
                old(self)@.pc as int,
            ) && (exists|random: u8| #[trigger] cycle(old(self)@, random) == (final(self)@, out.fault))
                && out.edited_pixels@ == touched(count_down(old(self)@), out.opcode, out.fault),
            old(self)@.pc + 1 >= RAM_SIZE ==> final(self)@ == count_down(old(self)@) && out.fault
                == Some(Fault::MemoryOutOfRange) && out.edited_pixels@.len() == 0,
            out.success == (out.fault is None),
    {
        let random = random_byte();
        self.tick_with(random)
    }

    /// Whether a tone should sound: the sound timer is not zero.
    pub fn should_beep(&self) -> (beep: bool)
        ensures
            beep == (self@.reg(SOUND_TIMER as int) > 0),
    {
        self.registers[SOUND_TIMER] > 0
    }

    /// A key goes down: it is marked down and becomes the current key.
    pub fn key_press(&mut self, key: Key)
        ensures
            final(self)@ == (Machine {
                keys: old(self)@.keys.update(key_code(key) as int, true),
                current_key: Some(key_code(key)),
                ..old(self)@
            }),
    {
        self.current_key = Some(key);
        self.keys[key.code() as usize] = true;
    }

    /// A key goes up: it is marked up, and stops being the current key if it
    /// was.
    pub fn key_up(&mut self, key: Key)
        ensures
            final(self)@ == (Machine {
                keys: old(self)@.keys.update(key_code(key) as int, false),
                current_key: if old(self)@.current_key == Some(key_code(key)) {
                    None
                } else {
                    old(self)@.current_key
                },
                ..old(self)@
            }),
    {
        if let Some(current_key) = self.current_key {
            if key == current_key {
                self.current_key = None;
            }
        }
        proof {
            if let Some(k) = old(self).current_key {
                assert(key_code(k) == key_code(key) ==> k == key);
            }
        }
        self.keys[key.code() as usize] = false;
    }

    /// Zeroes memory, registers, timers and stack, moves the program counter
    /// to the program start, clears the display and loads the font again.
    pub fn reset(&mut self)
        ensures
            final(self)@ == reset_state(old(self)@),
    {
        self.ram = [0; RAM_SIZE];
        self.stack = [0; STACK_SIZE];
        self.registers = [0; REGISTER_SIZE];
        self.sp = 0;
        self.pc = PROGRAM_START;
        self.display.cls();
        self.initialize();
        proof {
            assert(self@.ram =~= font_memory());
            assert(self@.registers =~= Seq::new(REGISTER_SIZE as nat, |r: int| 0u8));
            assert(self@.stack =~= Seq::new(STACK_SIZE as nat, |s: int| 0u16));
        }
    }

    /// Resets the processor and copies the program into memory from the
    /// program start on; returns the number of bytes copied.
    pub fn load(&mut self, data: Vec<u8>) -> (n: usize)
        requires
            PROGRAM_START + data@.len() <= RAM_SIZE,
        ensures
            final(self)@ == with_program(reset_state(old(self)@), data@),
            n == data@.len(),
    {
        self.reset();
        copy_program(self, data.as_slice());
        data.len()
    }

    /// The view of a processor is well formed.
    pub proof fn lemma_view_well_formed(&self)
        ensures
            self@.well_formed(),
    {
        self.display.lemma_len();
    }

    /// The program counter.
    pub fn pc(&self) -> (pc: u16)
        ensures
            pc == self@.pc,
    {
        self.pc
    }

    /// Sets the program counter.
    pub fn set_pc(&mut self, pc: u16)
        ensures
            final(self)@ == (Machine { pc: pc, ..old(self)@ }),
    {
        self.pc = pc;
    }

    /// The index register.
    pub fn i_reg(&self) -> (i: u16)
        ensures
            i == self@.index,
    {
        self.i_reg
    }

    /// Sets the index register.
    pub fn set_i_reg(&mut self, i: u16)
        ensures
            final(self)@ == (Machine { index: i, ..old(self)@ }),
    {
        self.i_reg = i;
    }

    /// The stack pointer.
    pub fn sp(&self) -> (sp: u16)
        ensures
            sp == self@.sp,
    {
        self.sp
    }

    /// Sets the stack pointer.
    pub fn set_sp(&mut self, sp: u16)
        ensures
            final(self)@ == (Machine { sp: sp, ..old(self)@ }),
    {
        self.sp = sp;
    }

    /// The key pressed last, while it is down.
    pub fn current_key(&self) -> (k: Option<Key>)
        ensures
            key_state(k) == self@.current_key,
    {
        self.current_key
    }

    /// Records `k` as the key pressed last, leaving the keys' states alone.
    pub fn set_current_key(&mut self, k: Option<Key>)
        ensures
            final(self)@ == (Machine { current_key: key_state(k), ..old(self)@ }),
    {
        self.current_key = k;
    }

    /// A copy of the display.
    pub fn display(&self) -> (d: Display)
        ensures
            d@ == self@.pixels,
    {
        self.display
    }

    /// Replaces the display.
    pub fn set_display(&mut self, d: Display)
        ensures
            final(self)@ == (Machine { pixels: d@, ..old(self)@ }),
    {
        self.display = d;
    }

    /// Sets register `idx` (V0 to VF, then the delay and the sound timer).
    pub fn test_set_registers(&mut self, idx: usize, data: u8)
        requires
            idx < REGISTER_SIZE,
        ensures
            final(self)@ == old(self)@.set_reg(idx as int, data),
    {
        self.registers[idx] = data;
    }

    /// Register `idx` (V0 to VF, then the delay and the sound timer).
    pub fn test_get_registers(&mut self, idx: usize) -> (v: u8)
        requires
            idx < REGISTER_SIZE,
        ensures
            v == old(self)@.reg(idx as int),
            final(self)@ == old(self)@,
    {
        self.registers[idx]
    }

    /// Stores a byte at address `idx`.
    pub fn test_set_ram(&mut self, idx: usize, data: u8)
        requires
            idx < RAM_SIZE,
        ensures
            final(self)@ == (Machine { ram: old(self)@.ram.update(idx as int, data), ..old(self)@ }),
    {
        self.ram[idx] = data;
    }

    /// The byte at address `idx`.
    pub fn test_get_ram(&mut self, idx: usize) -> (v: u8)
        requires
            idx < RAM_SIZE,
        ensures
            v == old(self)@.ram[idx as int],
            final(self)@ == old(self)@,
    {
        self.ram[idx]
    }

    /// Stack entry `idx`.
    pub fn test_get_stack(&mut self, idx: usize) -> (v: u16)
        requires
            idx < STACK_SIZE,
        ensures
            v == old(self)@.stack[idx as int],
            final(self)@ == old(self)@,
    {
        self.stack[idx]
    }

    /// Sets stack entry `idx`.
    pub fn test_set_stack(&mut self, idx: usize, data: u16)
        requires
            idx < STACK_SIZE,
        ensures
            final(self)@ == (Machine {
                stack: old(self)@.stack.update(idx as int, data),
                ..old(self)@
            }),
    {
        self.stack[idx] = data;
    }
}

} // verus!
