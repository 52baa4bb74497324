//! A processor whose display is addressed by cell index and whose timers are
//! registers of their own. Like `Processor`, it fetches without moving the
//! program counter; executing a word moves it, by the instruction's outcome,
//! relative to the address after the word.

use vstd::prelude::*;

use crate::alter_chip::display::Display;
use crate::chip8::instruction::{decoded, Instruction};
use crate::chip8::machine::{
    copy_program, cycle, next_address, touched, count_down, count_down_timers, execute_word, font_memory, install_font,
    outcome, read_word, reset_state, with_program, word_at, Fault, Hardware, Machine,
    DELAY_TIMER, KEY_COUNT, SOUND_TIMER,
};
use crate::chip8::screen::blank;
use crate::chip8::utils::random_byte;
use crate::chip8::{
    FONT, FONT_SIZE, GENERAL_REGISTERS, OPCODE_SIZE, PROGRAM_START, RAM_SIZE, STACK_SIZE,
};

verus! {

/// What executing one instruction word reported.
pub struct Output {
    /// Whether the instruction was executed.
    pub success: bool,
    /// The cell indices of the pixels the instruction drew over, in the
    /// order it drew them.
    pub edited_pixels: Vec<usize>,
    /// Why the instruction was not executed, if it was not.
    pub fault: Option<Fault>,
}

/// The processor. Its view is the machine state it holds; the timers follow
/// the sixteen general registers.
pub struct Cpu {
    mem: [u8; RAM_SIZE],
    /// The program counter: the address of the next instruction to fetch.
    pub pc: u16,
    /// The index register, a memory address.
    pub i: u16,
    stack: [u16; STACK_SIZE],
    /// The number of return addresses on the stack.
    pub sp: u16,
    /// The delay timer.
    pub dt: u8,
    /// The sound timer.
    pub st: u8,
    registers: [u8; GENERAL_REGISTERS],
    /// The display.
    pub display: Display,
    keys: [bool; KEY_COUNT],
    /// The code of the key pressed last, while it is down.
    pub current_key: Option<u8>,
}

impl View for Cpu {
    type V = Machine;

    closed spec fn view(&self) -> Machine {
        Machine {
            ram: self.mem@,
            registers: self.registers@.push(self.dt).push(self.st),
            index: self.i,
            pc: self.pc,
            sp: self.sp,
            stack: self.stack@,
            pixels: self.display@,
            keys: self.keys@,
            current_key: self.current_key,
        }
    }
}

impl Hardware for Cpu {
    closed spec fn state(&self) -> Machine {
        self@
    }

    proof fn lemma_well_formed(&self) {
        self.display.lemma_len();
    }

    fn program_counter(&self) -> (pc: u16) {
        self.pc
    }

    fn set_program_counter(&mut self, pc: u16) {
        self.pc = pc;
    }

    fn register(&self, r: usize) -> (v: u8) {
        if r == DELAY_TIMER {
            self.dt
        } else if r == SOUND_TIMER {
            self.st
        } else {
            self.registers[r]
        }
    }

    fn set_register(&mut self, r: usize, v: u8) {
        if r == DELAY_TIMER {
            self.dt = v;
        } else if r == SOUND_TIMER {
            self.st = v;
        } else {
            self.registers[r] = v;
        }
        assert(self@.registers =~= old(self)@.registers.update(r as int, v));
    }

    fn index(&self) -> (i: u16) {
        self.i
    }

    fn set_index(&mut self, i: u16) {
        self.i = i;
    }

    fn memory(&self, a: usize) -> (v: u8) {
        self.mem[a]
    }

    fn set_memory(&mut self, a: usize, v: u8) {
        self.mem[a] = v;
    }

    fn stack_pointer(&self) -> (sp: u16) {
        self.sp
    }

    fn set_stack_pointer(&mut self, sp: u16) {
        self.sp = sp;
    }

    fn stack_entry(&self, s: usize) -> (a: u16) {
        self.stack[s]
    }

    fn set_stack_entry(&mut self, s: usize, a: u16) {
        self.stack[s] = a;
    }

    fn key_down(&self, k: usize) -> (down: bool) {
        self.keys[k]
    }

    fn pressed_key(&self) -> (k: Option<u8>) {
        self.current_key
    }

    fn clear_screen(&mut self) {
        self.display.clear_display();
    }

    fn draw_sprite(&mut self, x: usize, y: usize, sprite: &[u8]) -> (collision: bool) {
        self.display.draw(x, y, sprite)
    }
}

impl Cpu {
    /// A processor after a reset, with no key down, the index register at 0.
    pub fn new() -> (c: Self)
        ensures
            c@ == reset_state(
                Machine {
                    ram: font_memory(),
                    registers: Seq::new(18, |r: int| 0u8),
                    index: 0,
                    pc: PROGRAM_START,
                    sp: 0,
                    stack: Seq::new(STACK_SIZE as nat, |s: int| 0u16),
                    pixels: blank(),
                    keys: Seq::new(KEY_COUNT as nat, |k: int| false),
                    current_key: None,
                },
            ),
    {
        let mut cpu = Cpu {
            mem: [0; RAM_SIZE],
            pc: PROGRAM_START,
            i: 0,
            stack: [0; STACK_SIZE],
            sp: 0,
            dt: 0,
            st: 0,
            registers: [0; GENERAL_REGISTERS],
            display: Display::new(),
            keys: [false; KEY_COUNT],
            current_key: None,
        };
        cpu.set_font();
        proof {
            assert(cpu@.ram =~= font_memory());
            assert(cpu@.registers =~= Seq::new(18, |r: int| 0u8));
            assert(cpu@.stack =~= Seq::new(STACK_SIZE as nat, |s: int| 0u16));
            assert(cpu@.keys =~= Seq::new(KEY_COUNT as nat, |k: int| false));
        }
        cpu
    }

    /// Whether a tone should sound: the sound timer is not zero.
    pub fn should_beep(&self) -> (beep: bool)
        ensures
            beep == (self@.reg(SOUND_TIMER as int) > 0),
    {
        self.st > 0
    }

    /// The instruction word at the program counter, high byte first; the
    /// program counter does not move.
    pub fn fetch(&mut self) -> (opcode: u16)
        requires
            old(self)@.pc + 1 < RAM_SIZE,
        ensures
            opcode == word_at(old(self)@, old(self)@.pc as int),
            final(self)@ == old(self)@,
    {
        read_word(self, self.pc as usize)
    }

    /// Executes the instruction word, with `random` as the byte a random
    /// instruction draws. The program counter moves by the outcome from the
    /// address after the instruction; a word that encodes no instruction only
    /// moves it there, and a fault leaves the processor unchanged.
    pub fn execute_with(&mut self, opcode: u16, random: u8) -> (out: Output)
        ensures
            (final(self)@, out.fault) == outcome(old(self)@, opcode, random, next_address(old(self)@.pc)),
            out.success == (out.fault is None),
            out.edited_pixels@ == touched(old(self)@, opcode, out.fault),
    {
        let next = self.pc.wrapping_add(OPCODE_SIZE as u16);
        let (fault, edited_pixels) = execute_word(self, opcode, random, next);
        Output { success: fault.is_none(), edited_pixels, fault }
    }

    /// Executes the instruction word, drawing a random byte from the
    /// thread-local generator for the random instruction.
    pub fn execute(&mut self, opcode: u16) -> (out: Output)
        ensures
            exists|random: u8|
                #[trigger] outcome(old(self)@, opcode, random, next_address(old(self)@.pc)) == (
                    final(self)@,
                    out.fault,
                ),
            !(decoded(opcode) matches Some(Instruction::Random(_, _))) ==> (final(self)@, out.fault)
                == outcome(old(self)@, opcode, 0, next_address(old(self)@.pc)),
            out.success == (out.fault is None),
            out.edited_pixels@ == touched(old(self)@, opcode, out.fault),
    {
        let random = if opcode >> 12u16 == 0xC {
            random_byte()
        } else {
            0
        };
        proof {
            assert(opcode >> 12u16 == opcode / 0x1000) by (bit_vector);
        }
        self.execute_with(opcode, random)
    }

    /// Zeroes memory, registers, timers and stack, moves the program counter
    /// to the program start, clears the display and loads the font again.
    pub fn reset(&mut self)
        ensures
            final(self)@ == reset_state(old(self)@),
    {
        self.mem = [0; RAM_SIZE];
        self.stack = [0; STACK_SIZE];
        self.registers = [0; GENERAL_REGISTERS];
        self.dt = 0;
        self.st = 0;
        self.sp = 0;
        self.pc = PROGRAM_START;
        self.display.clear_display();
        self.set_font();
        proof {
            assert(self@.ram =~= font_memory());
            assert(self@.registers =~= Seq::new(18, |r: int| 0u8));
            assert(self@.stack =~= Seq::new(STACK_SIZE as nat, |s: int| 0u16));
        }
    }

    /// Copies the font into memory from address 0 on.
    fn set_font(&mut self)
        ensures
            final(self)@ == (Machine {
                ram: Seq::new(
                    RAM_SIZE as nat,
                    |a: int|
                        if a < FONT_SIZE {
                            FONT@[a]
                        } else {
                            old(self)@.ram[a]
                        },
                ),
                ..old(self)@
            }),
    {
        install_font(self);
    }

    /// The program counter.
    pub fn pc(&self) -> (pc: u16)
        ensures
            pc == self@.pc,
    {
        self.pc
    }

    /// The stack pointer.
    pub fn sp(&self) -> (sp: u16)
        ensures
            sp == self@.sp,
    {
        self.sp
    }

    /// The view of a processor is well formed.
    pub proof fn lemma_view_well_formed(&self)
        ensures
            self@.well_formed(),
    {
        self.display.lemma_len();
    }

    /// Sets the program counter.
    pub fn set_pc(&mut self, pc: u16)
        ensures
            final(self)@ == (Machine { pc: pc, ..old(self)@ }),
    {
        self.pc = pc;
    }

    /// The index register.
    pub fn i(&self) -> (i: u16)
        ensures
            i == self@.index,
    {
        self.i
    }

    /// Sets the index register.
    pub fn set_i(&mut self, i: u16)
        ensures
            final(self)@ == (Machine { index: i, ..old(self)@ }),
    {
        self.i = i;
    }

    /// Sets the stack pointer.
    pub fn set_sp(&mut self, sp: u16)
        ensures
            final(self)@ == (Machine { sp: sp, ..old(self)@ }),
    {
        self.sp = sp;
    }

    /// The delay timer.
    pub fn dt(&self) -> (dt: u8)
        ensures
            dt == self@.reg(DELAY_TIMER as int),
    {
        self.dt
    }

    /// Sets the delay timer.
    pub fn set_dt(&mut self, dt: u8)
        ensures
            final(self)@ == old(self)@.set_reg(DELAY_TIMER as int, dt),
    {
        self.set_register(DELAY_TIMER, dt);
    }

    /// The sound timer.
    pub fn st(&self) -> (st: u8)
        ensures
            st == self@.reg(SOUND_TIMER as int),
    {
        self.st
    }

    /// Sets the sound timer.
    pub fn set_st(&mut self, st: u8)
        ensures
            final(self)@ == old(self)@.set_reg(SOUND_TIMER as int, st),
    {
        self.set_register(SOUND_TIMER, st);
    }

    /// The code of the key pressed last, while it is down.
    pub fn current_key(&self) -> (k: Option<u8>)
        ensures
            k == self@.current_key,
    {
        self.current_key
    }

    /// Records `k` as the key pressed last, leaving the keys' states alone.
    pub fn set_current_key(&mut self, k: Option<u8>)
        ensures
            final(self)@ == (Machine { current_key: k, ..old(self)@ }),
    {
        self.current_key = k;
    }

    /// A copy of the display.
    pub fn display(&self) -> (d: Display)
        ensures
            d@ == self@.pixels,
    {
        self.display
    }

    /// Replaces the display.
    pub fn set_display(&mut self, d: Display)
        ensures
            final(self)@ == (Machine { pixels: d@, ..old(self)@ }),
    {
        self.display = d;
    }

    /// Key `key` goes down: it is marked down and becomes the current key.
    pub fn key_press(&mut self, key: u8)
        requires
            key < KEY_COUNT,
        ensures
            final(self)@ == (Machine {
                keys: old(self)@.keys.update(key as int, true),
                current_key: Some(key),
                ..old(self)@
            }),
    {
        self.current_key = Some(key);
        self.keys[key as usize] = true;
    }

    /// Key `key` goes up: it is marked up, and stops being the current key if
    /// it was.
    pub fn key_up(&mut self, key: u8)
        requires
            key < KEY_COUNT,
        ensures
            final(self)@ == (Machine {
                keys: old(self)@.keys.update(key as int, false),
                current_key: if old(self)@.current_key == Some(key) {
                    None
                } else {
                    old(self)@.current_key
                },
                ..old(self)@
            }),
    {
        if let Some(current_key) = self.current_key {
            if key == current_key {
                self.current_key = None;
            }
        }
        self.keys[key as usize] = false;
    }

    /// Resets the processor and copies the program, if any, into memory from
    /// the program start on; returns the number of bytes copied.
    pub fn load_rom(&mut self, rom: Option<Box<[u8]>>) -> (n: usize)
        requires
            rom matches Some(data) ==> PROGRAM_START + data@.len() <= RAM_SIZE,
        ensures
            match rom {
                Some(data) => final(self)@ == with_program(reset_state(old(self)@), data@) && n
                    == data@.len(),
                None => final(self)@ == reset_state(old(self)@) && n == 0,
            },
    {
        self.reset();
        match rom {
            Some(data) => {
                copy_program(self, &data);
                data.len()
            },
            None => 0,
        }
    }

    /// One cycle with the given random byte: counts both timers down where
    /// not zero, then fetches the instruction word at the program counter and
    /// executes it. A program counter whose word lies outside memory stops
    /// the cycle after the count down, with a memory fault.
    pub fn tick_with(&mut self, random: u8) -> (out: Output)
        ensures
            old(self)@.pc + 1 < RAM_SIZE ==> (final(self)@, out.fault) == cycle(old(self)@, random)
                && out.edited_pixels@ == touched(
                count_down(old(self)@),
                word_at(count_down(old(self)@), old(self)@.pc as int),
                out.fault,
            ),
            old(self)@.pc + 1 >= RAM_SIZE ==> final(self)@ == count_down(old(self)@) && out.fault
                == Some(Fault::MemoryOutOfRange) && out.edited_pixels@.len() == 0,
            out.success == (out.fault is None),
    {
        count_down_timers(self);
        if self.pc as usize + 1 >= RAM_SIZE {
            return Output {
                success: false,
                edited_pixels: Vec::new(),
                fault: Some(Fault::MemoryOutOfRange),
            };
        }
        let opcode = self.fetch();
        proof {
            reveal(cycle);
        }
        self.execute_with(opcode, random)
    }

    /// One cycle, drawing a random byte from the thread-local generator for
    /// the random instruction.
    pub fn tick(&mut self) -> (out: Output)
        ensures
            old(self)@.pc + 1 < RAM_SIZE ==> (exists|random: u8|
                #[trigger] cycle(old(self)@, random) == (final(self)@, out.fault))
                && out.edited_pixels@ == touched(
                count_down(old(self)@),
                word_at(count_down(old(self)@), old(self)@.pc as int),
                out.fault,
            ),
            old(self)@.pc + 1 >= RAM_SIZE ==> final(self)@ == count_down(old(self)@) && out.fault
                == Some(Fault::MemoryOutOfRange) && out.edited_pixels@.len() == 0,
            out.success == (out.fault is None),
    {
        let random = random_byte();
        self.tick_with(random)
    }

    /// Sets general register `idx`.
    pub fn test_set_registers(&mut self, idx: usize, data: u8)
        requires
            idx < GENERAL_REGISTERS,
        ensures
            final(self)@ == old(self)@.set_reg(idx as int, data),
    {
        self.set_register(idx, data);
    }

    /// General register `idx`.
    pub fn test_get_registers(&mut self, idx: usize) -> (v: u8)
        requires
            idx < GENERAL_REGISTERS,
        ensures
            v == old(self)@.reg(idx as int),
            final(self)@ == old(self)@,
    {
        self.registers[idx]
    }

    /// Stores a byte at address `idx`.
    pub fn test_set_memory(&mut self, idx: usize, data: u8)
        requires
            idx < RAM_SIZE,
        ensures
            final(self)@ == (Machine { ram: old(self)@.ram.update(idx as int, data), ..old(self)@ }),
    {
        self.mem[idx] = data;
    }

    /// The byte at address `idx`.
    pub fn test_get_memory(&mut self, idx: usize) -> (v: u8)
        requires
            idx < RAM_SIZE,
        ensures
            v == old(self)@.ram[idx as int],
            final(self)@ == old(self)@,
    {
        self.mem[idx]
    }

    /// Stack entry `idx`.
    pub fn test_get_stack(&mut self, idx: usize) -> (v: u16)
        requires
            idx < STACK_SIZE,
        ensures
            v == old(self)@.stack[idx as int],
            final(self)@ == old(self)@,
    {
        self.stack[idx]
    }
}

} // verus!
