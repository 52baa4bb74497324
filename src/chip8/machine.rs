//! The state an instruction acts on, what each instruction does to it, and
//! one implementation of all instructions over any store of that state.
//!
//! Executing an instruction changes the data of the machine and yields a
//! [`ProgramCounter`] outcome; the caller moves the program counter by it.

use vstd::prelude::*;

use crate::chip8::instruction::{decode, decoded, Instruction};
use crate::chip8::screen::{all_cells, blank, blit, cells_of_sprite, collides, sprite_cells};
use crate::chip8::{
    DISPLAY_SIZE, FONT, FONT_SIZE, GENERAL_REGISTERS, OPCODE_SIZE, PROGRAM_START, RAM_SIZE, REGISTER_SIZE,
    STACK_SIZE,
};

verus! {

/// Index of the flag register VF.
pub const FLAG: usize = 15;

/// Index of the delay timer in the register file.
pub const DELAY_TIMER: usize = 16;

/// Index of the sound timer in the register file.
pub const SOUND_TIMER: usize = 17;

/// Number of keys of the keypad.
pub const KEY_COUNT: usize = 16;

/// Why an instruction could not be executed.
#[derive(Clone, Copy, Debug, PartialEq, Eq, Structural)]
pub enum Fault {
    /// The instruction word encodes no instruction.
    UnknownOpcode,
    /// A call with a full stack, or a stack pointer beyond the stack.
    StackOverflow,
    /// A return with an empty stack.
    StackUnderflow,
    /// A memory access, or the index register, beyond the address space.
    MemoryOutOfRange,
    /// A key instruction naming a key that does not exist.
    InvalidKey,
}

/// How the program counter moves after an instruction, relative to the
/// address of the instruction that follows it.
#[derive(Clone, Copy, Debug, PartialEq, Eq, Structural)]
pub enum ProgramCounter {
    /// On to the next instruction.
    Next,
    /// Over the next instruction.
    Skip,
    /// Back to the same instruction, which runs again.
    Block,
    /// To the given address.
    Jump(u16),
}

/// `Skip` when the condition holds, else `Next`.
pub open spec fn skip_when(condition: bool) -> ProgramCounter {
    if condition {
        ProgramCounter::Skip
    } else {
        ProgramCounter::Next
    }
}

impl ProgramCounter {
    /// `Skip` when the condition holds, else `Next`.
    pub fn skip_if(condition: bool) -> (r: ProgramCounter)
        ensures
            r == skip_when(condition),
    {
        if condition {
            ProgramCounter::Skip
        } else {
            ProgramCounter::Next
        }
    }

    /// The new program counter, given the address of the next instruction;
    /// addresses wrap at 16 bits.
    pub open spec fn target(self, next: u16) -> u16 {
        match self {
            ProgramCounter::Next => next,
            ProgramCounter::Skip => ((next + 2) % 0x10000) as u16,
            ProgramCounter::Block => ((next - 2) % 0x10000) as u16,
            ProgramCounter::Jump(a) => a,
        }
    }

    /// The new program counter, given the address of the next instruction.
    pub fn apply(self, next: u16) -> (pc: u16)
        ensures
            pc == self.target(next),
    {
        match self {
            ProgramCounter::Next => next,
            ProgramCounter::Skip => next.wrapping_add(2),
            ProgramCounter::Block => next.wrapping_sub(2),
            ProgramCounter::Jump(a) => a,
        }
    }
}

/// The state of the machine.
pub struct Machine {
    /// The memory, `RAM_SIZE` bytes.
    pub ram: Seq<u8>,
    /// V0 to VF, then the delay timer and the sound timer.
    pub registers: Seq<u8>,
    /// The index register I.
    pub index: u16,
    /// The program counter.
    pub pc: u16,
    /// The number of return addresses on the stack.
    pub sp: u16,
    /// The stack of return addresses, `STACK_SIZE` entries.
    pub stack: Seq<u16>,
    /// The display, row-major, `true` for a lit pixel.
    pub pixels: Seq<bool>,
    /// For each key, whether it is down.
    pub keys: Seq<bool>,
    /// The key pressed last, while it is down.
    pub current_key: Option<u8>,
}

impl Machine {
    /// The sizes of the parts.
    pub open spec fn well_formed(self) -> bool {
        &&& self.ram.len() == RAM_SIZE
        &&& self.registers.len() == REGISTER_SIZE
        &&& self.stack.len() == STACK_SIZE
        &&& self.pixels.len() == DISPLAY_SIZE
        &&& self.keys.len() == KEY_COUNT
    }

    /// Register `r`.
    pub open spec fn reg(self, r: int) -> u8 {
        self.registers[r]
    }

    /// The machine with register `r` set to `v`.
    pub open spec fn set_reg(self, r: int, v: u8) -> Machine {
        Machine { registers: self.registers.update(r, v), ..self }
    }

    /// The machine with `Vx` set to `v`, then the flag register to `flag`.
    pub open spec fn set_flagged(self, x: int, v: u8, flag: u8) -> Machine {
        self.set_reg(x, v).set_reg(FLAG as int, flag)
    }

    /// The bytes of memory from the index register on, `n` of them.
    pub open spec fn at_index(self, n: int) -> Seq<u8> {
        self.ram.subrange(self.index as int, self.index + n)
    }
}

/// 1 if the condition holds, else 0.
pub open spec fn bit(condition: bool) -> u8 {
    if condition {
        1
    } else {
        0
    }
}

/// What a well-formed instruction does to the machine: its new state and how
/// the program counter moves, or the fault that stops it, in which case
/// nothing changes. `random` is the byte that a random instruction draws;
/// `next` is the address of the following instruction, which a call pushes.
/// The flag register VF is written last, so it holds the flag also when it is
/// the destination. Adding to the index register sets VF to 1 when the sum
/// passes `0x0F00`, else to 0.
#[verifier::opaque]
pub open spec fn effect(m: Machine, ins: Instruction, random: u8, next: u16) -> Result<
    (Machine, ProgramCounter),
    Fault,
> {
    match ins {
        Instruction::Cls => Ok((Machine { pixels: blank(), ..m }, ProgramCounter::Next)),
        Instruction::Ret => if m.sp == 0 {
            Err(Fault::StackUnderflow)
        } else if m.sp > STACK_SIZE {
            Err(Fault::StackOverflow)
        } else {
            Ok(
                (
                    Machine { sp: (m.sp - 1) as u16, ..m },
                    ProgramCounter::Jump(m.stack[m.sp - 1]),
                ),
            )
        },
        Instruction::Jump(a) => Ok((m, ProgramCounter::Jump(a))),
        Instruction::Call(a) => if m.sp >= STACK_SIZE {
            Err(Fault::StackOverflow)
        } else {
            Ok(
                (
                    Machine { stack: m.stack.update(m.sp as int, next), sp: (m.sp + 1) as u16, ..m },
                    ProgramCounter::Jump(a),
                ),
            )
        },
        Instruction::SkipEqByte(x, kk) => Ok((m, skip_when(m.reg(x as int) == kk))),
        Instruction::SkipNeByte(x, kk) => Ok((m, skip_when(m.reg(x as int) != kk))),
        Instruction::SkipEqReg(x, y) => Ok((m, skip_when(m.reg(x as int) == m.reg(y as int)))),
        Instruction::LoadByte(x, kk) => Ok((m.set_reg(x as int, kk), ProgramCounter::Next)),
        Instruction::AddByte(x, kk) => Ok(
            (m.set_reg(x as int, ((m.reg(x as int) + kk) % 256) as u8), ProgramCounter::Next),
        ),
        Instruction::Move(x, y) => Ok((m.set_reg(x as int, m.reg(y as int)), ProgramCounter::Next)),
        Instruction::Or(x, y) => Ok(
            (m.set_reg(x as int, m.reg(x as int) | m.reg(y as int)), ProgramCounter::Next),
        ),
        Instruction::And(x, y) => Ok(
            (m.set_reg(x as int, m.reg(x as int) & m.reg(y as int)), ProgramCounter::Next),
        ),
        Instruction::Xor(x, y) => Ok(
            (m.set_reg(x as int, m.reg(x as int) ^ m.reg(y as int)), ProgramCounter::Next),
        ),
        Instruction::AddReg(x, y) => {
            let sum = m.reg(x as int) + m.reg(y as int);
            Ok((m.set_flagged(x as int, (sum % 256) as u8, bit(sum > 0xFF)), ProgramCounter::Next))
        },
        Instruction::Sub(x, y) => {
            let (vx, vy) = (m.reg(x as int), m.reg(y as int));
            Ok(
                (
                    m.set_flagged(x as int, ((vx - vy) % 256) as u8, bit(vx >= vy)),
                    ProgramCounter::Next,
                ),
            )
        },
        Instruction::ShiftRight(x, _) => {
            let vx = m.reg(x as int);
            Ok((m.set_flagged(x as int, vx / 2, vx % 2), ProgramCounter::Next))
        },
        Instruction::SubNeg(x, y) => {
            let (vx, vy) = (m.reg(x as int), m.reg(y as int));
            Ok(
                (
                    m.set_flagged(x as int, ((vy - vx) % 256) as u8, bit(vy >= vx)),
                    ProgramCounter::Next,
                ),
            )
        },
        Instruction::ShiftLeft(x, _) => {
            let vx = m.reg(x as int);
            Ok((m.set_flagged(x as int, ((vx * 2) % 256) as u8, vx / 128), ProgramCounter::Next))
        },
        Instruction::SkipNeReg(x, y) => Ok((m, skip_when(m.reg(x as int) != m.reg(y as int)))),
        Instruction::LoadIndex(a) => Ok((Machine { index: a, ..m }, ProgramCounter::Next)),
        Instruction::JumpOffset(a) => Ok((m, ProgramCounter::Jump((a + m.reg(0)) as u16))),
        Instruction::Random(x, kk) => Ok((m.set_reg(x as int, random & kk), ProgramCounter::Next)),
        Instruction::Draw(x, y, n) => if m.index + n > RAM_SIZE {
            Err(Fault::MemoryOutOfRange)
        } else {
            let (vx, vy, sprite) = (m.reg(x as int), m.reg(y as int), m.at_index(n as int));
            Ok(
                (
                    Machine { pixels: blit(m.pixels, sprite, vx as int, vy as int), ..m }.set_reg(
                        FLAG as int,
                        bit(collides(m.pixels, sprite, vx as int, vy as int)),
                    ),
                    ProgramCounter::Next,
                ),
            )
        },
        Instruction::SkipKey(x) => if m.reg(x as int) >= KEY_COUNT {
            Err(Fault::InvalidKey)
        } else {
            Ok((m, skip_when(m.keys[m.reg(x as int) as int])))
        },
        Instruction::SkipNoKey(x) => if m.reg(x as int) >= KEY_COUNT {
            Err(Fault::InvalidKey)
        } else {
            Ok((m, skip_when(!m.keys[m.reg(x as int) as int])))
        },
        Instruction::LoadDelay(x) => Ok(
            (m.set_reg(x as int, m.reg(DELAY_TIMER as int)), ProgramCounter::Next),
        ),
        Instruction::WaitKey(x) => match m.current_key {
            Some(k) => Ok((m.set_reg(x as int, k), ProgramCounter::Next)),
            None => Ok((m, ProgramCounter::Block)),
        },
        Instruction::SetDelay(x) => Ok(
            (m.set_reg(DELAY_TIMER as int, m.reg(x as int)), ProgramCounter::Next),
        ),
        Instruction::SetSound(x) => Ok(
            (m.set_reg(SOUND_TIMER as int, m.reg(x as int)), ProgramCounter::Next),
        ),
        Instruction::AddIndex(x) => if m.index + m.reg(x as int) > 0xFFFF {
            Err(Fault::MemoryOutOfRange)
        } else {
            let i = m.index + m.reg(x as int);
            Ok(
                (
                    Machine { index: i as u16, ..m }.set_reg(FLAG as int, bit(i > 0x0F00)),
                    ProgramCounter::Next,
                ),
            )
        },
        Instruction::LoadFont(x) => Ok(
            (Machine { index: (m.reg(x as int) * 5) as u16, ..m }, ProgramCounter::Next),
        ),
        Instruction::StoreBcd(x) => if m.index + 3 > RAM_SIZE {
            Err(Fault::MemoryOutOfRange)
        } else {
            let (v, i) = (m.reg(x as int), m.index as int);
            Ok(
                (
                    Machine {
                        ram: m.ram.update(i, v / 100).update(i + 1, (v / 10) % 10).update(
                            i + 2,
                            v % 10,
                        ),
                        ..m
                    },
                    ProgramCounter::Next,
                ),
            )
        },
        Instruction::StoreRegs(x) => if m.index + x + 1 > RAM_SIZE {
            Err(Fault::MemoryOutOfRange)
        } else {
            Ok(
                (
                    Machine {
                        ram: Seq::new(
                            RAM_SIZE as nat,
                            |a: int|
                                if m.index <= a <= m.index + x {
                                    m.reg(a - m.index)
                                } else {
                                    m.ram[a]
                                },
                        ),
                        ..m
                    },
                    ProgramCounter::Next,
                ),
            )
        },
        Instruction::LoadRegs(x) => if m.index + x + 1 > RAM_SIZE {
            Err(Fault::MemoryOutOfRange)
        } else {
            Ok(
                (
                    Machine {
                        registers: Seq::new(
                            REGISTER_SIZE as nat,
                            |r: int|
                                if r <= x {
                                    m.ram[m.index + r]
                                } else {
                                    m.reg(r)
                                },
                        ),
                        ..m
                    },
                    ProgramCounter::Next,
                ),
            )
        },
    }
}

/// A store of the machine's state that instructions can be executed on.
pub trait Hardware {
    /// The state held.
    spec fn state(&self) -> Machine;

    /// The state held is well formed.
    proof fn lemma_well_formed(&self)
        ensures
            self.state().well_formed(),
    ;

    /// The program counter.
    fn program_counter(&self) -> (pc: u16)
        ensures
            pc == self.state().pc,
    ;

    /// Sets the program counter.
    fn set_program_counter(&mut self, pc: u16)
        ensures
            final(self).state() == (Machine { pc: pc, ..old(self).state() }),
    ;

    /// Register `r`.
    fn register(&self, r: usize) -> (v: u8)
        requires
            r < REGISTER_SIZE,
        ensures
            v == self.state().reg(r as int),
    ;

    /// Sets register `r` to `v`.
    fn set_register(&mut self, r: usize, v: u8)
        requires
            r < REGISTER_SIZE,
        ensures
            final(self).state() == old(self).state().set_reg(r as int, v),
    ;

    /// The index register.
    fn index(&self) -> (i: u16)
        ensures
            i == self.state().index,
    ;

    /// Sets the index register.
    fn set_index(&mut self, i: u16)
        ensures
            final(self).state() == (Machine { index: i, ..old(self).state() }),
    ;

    /// The byte at address `a`.
    fn memory(&self, a: usize) -> (v: u8)
        requires
            a < RAM_SIZE,
        ensures
            v == self.state().ram[a as int],
    ;

    /// Stores `v` at address `a`.
    fn set_memory(&mut self, a: usize, v: u8)
        requires
            a < RAM_SIZE,
        ensures
            final(self).state() == (Machine {
                ram: old(self).state().ram.update(a as int, v),
                ..old(self).state()
            }),
    ;

    /// The stack pointer.
    fn stack_pointer(&self) -> (sp: u16)
        ensures
            sp == self.state().sp,
    ;

    /// Sets the stack pointer.
    fn set_stack_pointer(&mut self, sp: u16)
        ensures
            final(self).state() == (Machine { sp: sp, ..old(self).state() }),
    ;

    /// Stack entry `s`.
    fn stack_entry(&self, s: usize) -> (a: u16)
        requires
            s < STACK_SIZE,
        ensures
            a == self.state().stack[s as int],
    ;

    /// Sets stack entry `s` to `a`.
    fn set_stack_entry(&mut self, s: usize, a: u16)
        requires
            s < STACK_SIZE,
        ensures
            final(self).state() == (Machine {
                stack: old(self).state().stack.update(s as int, a),
                ..old(self).state()
            }),
    ;

    /// Whether key `k` is down.
    fn key_down(&self, k: usize) -> (down: bool)
        requires
            k < KEY_COUNT,
        ensures
            down == self.state().keys[k as int],
    ;

    /// The key pressed last, while it is down.
    fn pressed_key(&self) -> (k: Option<u8>)
        ensures
            k == self.state().current_key,
    ;

    /// Turns every pixel off.
    fn clear_screen(&mut self)
        ensures
            final(self).state() == (Machine { pixels: blank(), ..old(self).state() }),
    ;

    /// Draws a sprite at column `x` and row `y`; returns whether a lit pixel
    /// was turned off.
    fn draw_sprite(&mut self, x: usize, y: usize, sprite: &[u8]) -> (collision: bool)
        ensures
            final(self).state() == (Machine {
                pixels: blit(old(self).state().pixels, sprite@, x as int, y as int),
                ..old(self).state()
            }),
            collision == collides(old(self).state().pixels, sprite@, x as int, y as int),
    ;
}

/// Sets `Vx` to `v`, then the flag register to `flag`.
fn set_flagged<H: Hardware>(hw: &mut H, x: usize, v: u8, flag: u8)
    requires
        x < GENERAL_REGISTERS,
    ensures
        final(hw).state() == old(hw).state().set_flagged(x as int, v, flag),
{
    hw.set_register(x, v);
    hw.set_register(FLAG, flag);
}

/// The `n` bytes of memory from address `start` on.
fn read_sprite<H: Hardware>(hw: &H, start: usize, n: usize) -> (sprite: Vec<u8>)
    requires
        start + n <= RAM_SIZE,
    ensures
        sprite@ == hw.state().ram.subrange(start as int, start + n),
{
    proof {
        hw.lemma_well_formed();
    }
    let mut sprite: Vec<u8> = Vec::new();
    let mut k: usize = 0;
    while k < n
        invariant
            k <= n,
            start + n <= RAM_SIZE,
            hw.state().ram.len() == RAM_SIZE,
            sprite@ == hw.state().ram.subrange(start as int, start + k),
        decreases n - k,
    {
        sprite.push(hw.memory(start + k));
        k = k + 1;
        assert(sprite@ =~= hw.state().ram.subrange(start as int, start + k));
    }
    sprite
}

/// The state after executing the instruction word `opcode`, and the fault
/// that stopped it, if any. `next` is the address the program counter moves
/// on to: a word that encodes no instruction only moves it there; an
/// instruction that faults changes nothing.
pub open spec fn outcome(m: Machine, opcode: u16, random: u8, next: u16) -> (Machine, Option<Fault>) {
    match decoded(opcode) {
        None => (Machine { pc: next, ..m }, Some(Fault::UnknownOpcode)),
        Some(ins) => match effect(m, ins, random, next) {
            Ok((after, pc)) => (Machine { pc: pc.target(next), ..after }, None),
            Err(f) => (m, Some(f)),
        },
    }
}

/// The cells that executing the instruction word on the machine draws over:
/// every cell for a clear, the cells of the sprite for a draw that runs, and
/// none otherwise.
pub open spec fn touched(m: Machine, opcode: u16, fault: Option<Fault>) -> Seq<usize> {
    match decoded(opcode) {
        Some(Instruction::Cls) => Seq::new(DISPLAY_SIZE as nat, |k: int| k as usize),
        Some(Instruction::Draw(x, y, n)) => if fault is None {
            sprite_cells(m.reg(x as int) as int, m.reg(y as int) as int, n as int)
        } else {
            Seq::empty()
        },
        _ => Seq::empty(),
    }
}

/// The address after the instruction at `pc`; addresses wrap at 16 bits.
pub open spec fn next_address(pc: u16) -> u16 {
    ((pc + OPCODE_SIZE) % 0x10000) as u16
}

/// The machine with both timers counted down by one, where not already zero.
pub open spec fn count_down(m: Machine) -> Machine {
    let (dt, st) = (m.reg(DELAY_TIMER as int), m.reg(SOUND_TIMER as int));
    m.set_reg(DELAY_TIMER as int, if dt > 0 { (dt - 1) as u8 } else { 0 }).set_reg(
        SOUND_TIMER as int,
        if st > 0 { (st - 1) as u8 } else { 0 },
    )
}

/// The instruction word at address `a`: two bytes, high byte first.
pub open spec fn word_at(m: Machine, a: int) -> u16 {
    (m.ram[a] * 256 + m.ram[a + 1]) as u16
}

/// One cycle: both timers counted down, then the instruction word at the
/// program counter executed, with the program counter moving on from the
/// address after it.
#[verifier::opaque]
pub open spec fn cycle(m: Machine, random: u8) -> (Machine, Option<Fault>) {
    let c = count_down(m);
    outcome(c, word_at(c, m.pc as int), random, next_address(m.pc))
}

/// Memory holding the font from address 0 on, and zeros elsewhere.
pub open spec fn font_memory() -> Seq<u8> {
    Seq::new(RAM_SIZE as nat, |a: int| if a < FONT_SIZE { FONT@[a] } else { 0 })
}

/// The machine after a reset: memory holds only the font, registers, timers
/// and stack are zero, the program counter is at the program start and the
/// display is blank. The index register and the keys are kept.
pub open spec fn reset_state(m: Machine) -> Machine {
    Machine {
        ram: font_memory(),
        registers: Seq::new(REGISTER_SIZE as nat, |r: int| 0u8),
        sp: 0,
        pc: PROGRAM_START,
        stack: Seq::new(STACK_SIZE as nat, |s: int| 0u16),
        pixels: blank(),
        ..m
    }
}

/// The machine with `program` copied into memory from the program start on.
pub open spec fn with_program(m: Machine, program: Seq<u8>) -> Machine {
    Machine {
        ram: Seq::new(
            RAM_SIZE as nat,
            |a: int|
                if PROGRAM_START <= a < PROGRAM_START + program.len() {
                    program[a - PROGRAM_START]
                } else {
                    m.ram[a]
                },
        ),
        ..m
    }
}

/// The outcome of executing a well-formed instruction: the new state and the
/// result are those `effect` gives, and a fault leaves the state unchanged.
pub open spec fn performed(
    before: Machine,
    after: Machine,
    ins: Instruction,
    random: u8,
    next: u16,
    r: Result<ProgramCounter, Fault>,
) -> bool {
    match effect(before, ins, random, next) {
        Ok((m, pc)) => r == Ok::<ProgramCounter, Fault>(pc) && after == m,
        Err(f) => r == Err::<ProgramCounter, Fault>(f) && after == before,
    }
}

/// Executes the instructions that only decide where execution goes on:
/// jumps, calls, returns and the register skips.
fn perform_flow<H: Hardware>(hw: &mut H, ins: Instruction, next: u16) -> (r: Result<
    ProgramCounter,
    Fault,
>)
    requires
        ins.well_formed(),
        ins is Ret || ins is Jump || ins is Call || ins is JumpOffset || ins is SkipEqByte
            || ins is SkipNeByte || ins is SkipEqReg || ins is SkipNeReg,
    ensures
        performed(old(hw).state(), final(hw).state(), ins, 0, next, r),
{
    proof {
        reveal(effect);
        hw.lemma_well_formed();
    }
    match ins {
        Instruction::Ret => {
            let sp = hw.stack_pointer();
            if sp == 0 {
                Err(Fault::StackUnderflow)
            } else if sp as usize > STACK_SIZE {
                Err(Fault::StackOverflow)
            } else {
                let a = hw.stack_entry(sp as usize - 1);
                hw.set_stack_pointer(sp - 1);
                Ok(ProgramCounter::Jump(a))
            }
        },
        Instruction::Jump(a) => Ok(ProgramCounter::Jump(a)),
        Instruction::Call(a) => {
            let sp = hw.stack_pointer();
            if sp as usize >= STACK_SIZE {
                Err(Fault::StackOverflow)
            } else {
                hw.set_stack_entry(sp as usize, next);
                hw.set_stack_pointer(sp + 1);
                Ok(ProgramCounter::Jump(a))
            }
        },
        Instruction::JumpOffset(a) => Ok(ProgramCounter::Jump(a + hw.register(0) as u16)),
        Instruction::SkipEqByte(x, kk) => Ok(ProgramCounter::skip_if(hw.register(x as usize) == kk)),
        Instruction::SkipNeByte(x, kk) => Ok(ProgramCounter::skip_if(hw.register(x as usize) != kk)),
        Instruction::SkipEqReg(x, y) => Ok(
            ProgramCounter::skip_if(hw.register(x as usize) == hw.register(y as usize)),
        ),
        Instruction::SkipNeReg(x, y) => Ok(
            ProgramCounter::skip_if(hw.register(x as usize) != hw.register(y as usize)),
        ),
        _ => Err(Fault::UnknownOpcode),
    }
}

/// Executes the register instructions without a flag: loads, the byte add,
/// logic and the random byte.
fn perform_alu<H: Hardware>(hw: &mut H, ins: Instruction, random: u8) -> (r: Result<
    ProgramCounter,
    Fault,
>)
    requires
        ins.well_formed(),
        ins is LoadByte || ins is AddByte || ins is Move || ins is Or || ins is And || ins is Xor
            || ins is Random,
    ensures
        performed(old(hw).state(), final(hw).state(), ins, random, 0, r),
{
    proof {
        reveal(effect);
        hw.lemma_well_formed();
    }
    match ins {
        Instruction::LoadByte(x, kk) => hw.set_register(x as usize, kk),
        Instruction::AddByte(x, kk) => {
            let vx = hw.register(x as usize);
            hw.set_register(x as usize, vx.wrapping_add(kk));
        },
        Instruction::Move(x, y) => {
            let vy = hw.register(y as usize);
            hw.set_register(x as usize, vy);
        },
        Instruction::Or(x, y) => {
            let v = hw.register(x as usize) | hw.register(y as usize);
            hw.set_register(x as usize, v);
        },
        Instruction::And(x, y) => {
            let v = hw.register(x as usize) & hw.register(y as usize);
            hw.set_register(x as usize, v);
        },
        Instruction::Xor(x, y) => {
            let v = hw.register(x as usize) ^ hw.register(y as usize);
            hw.set_register(x as usize, v);
        },
        Instruction::Random(x, kk) => hw.set_register(x as usize, random & kk),
        _ => {},
    }
    Ok(ProgramCounter::Next)
}

/// Executes the register add, which sets the flag to the carry.
fn perform_add<H: Hardware>(hw: &mut H, x: u8, y: u8) -> (r: Result<ProgramCounter, Fault>)
    requires
        x < GENERAL_REGISTERS,
        y < GENERAL_REGISTERS,
    ensures
        performed(old(hw).state(), final(hw).state(), Instruction::AddReg(x, y), 0, 0, r),
{
    proof {
        reveal(effect);
        hw.lemma_well_formed();
    }
    let sum = hw.register(x as usize) as u16 + hw.register(y as usize) as u16;
    set_flagged(hw, x as usize, (sum % 256) as u8, if sum > 0xFF { 1 } else { 0 });
    Ok(ProgramCounter::Next)
}

/// Executes the two subtractions, which set the flag when there is no borrow.
fn perform_sub<H: Hardware>(hw: &mut H, ins: Instruction) -> (r: Result<ProgramCounter, Fault>)
    requires
        ins.well_formed(),
        ins is Sub || ins is SubNeg,
    ensures
        performed(old(hw).state(), final(hw).state(), ins, 0, 0, r),
{
    proof {
        reveal(effect);
        hw.lemma_well_formed();
    }
    match ins {
        Instruction::Sub(x, y) => {
            let vx = hw.register(x as usize);
            let vy = hw.register(y as usize);
            set_flagged(hw, x as usize, vx.wrapping_sub(vy), if vx >= vy { 1 } else { 0 });
        },
        Instruction::SubNeg(x, y) => {
            let vx = hw.register(x as usize);
            let vy = hw.register(y as usize);
            set_flagged(hw, x as usize, vy.wrapping_sub(vx), if vy >= vx { 1 } else { 0 });
        },
        _ => {},
    }
    Ok(ProgramCounter::Next)
}

/// Executes the shifts, which set the flag to the bit shifted out.
fn perform_shift<H: Hardware>(hw: &mut H, ins: Instruction) -> (r: Result<ProgramCounter, Fault>)
    requires
        ins.well_formed(),
        ins is ShiftRight || ins is ShiftLeft,
    ensures
        performed(old(hw).state(), final(hw).state(), ins, 0, 0, r),
{
    proof {
        reveal(effect);
        hw.lemma_well_formed();
    }
    match ins {
        Instruction::ShiftRight(x, _) => {
            let vx = hw.register(x as usize);
            set_flagged(hw, x as usize, vx / 2, vx % 2);
        },
        Instruction::ShiftLeft(x, _) => {
            let vx = hw.register(x as usize);
            set_flagged(hw, x as usize, vx.wrapping_mul(2), vx / 128);
        },
        _ => {},
    }
    Ok(ProgramCounter::Next)
}

/// Executes the instructions on keys and timers.
fn perform_io<H: Hardware>(hw: &mut H, ins: Instruction) -> (r: Result<ProgramCounter, Fault>)
    requires
        ins.well_formed(),
        ins is SkipKey || ins is SkipNoKey || ins is LoadDelay || ins is WaitKey
            || ins is SetDelay || ins is SetSound,
    ensures
        performed(old(hw).state(), final(hw).state(), ins, 0, 0, r),
{
    proof {
        reveal(effect);
        hw.lemma_well_formed();
    }
    match ins {
        Instruction::SkipKey(x) => {
            let k = hw.register(x as usize);
            if k as usize >= KEY_COUNT {
                Err(Fault::InvalidKey)
            } else {
                Ok(ProgramCounter::skip_if(hw.key_down(k as usize)))
            }
        },
        Instruction::SkipNoKey(x) => {
            let k = hw.register(x as usize);
            if k as usize >= KEY_COUNT {
                Err(Fault::InvalidKey)
            } else {
                Ok(ProgramCounter::skip_if(!hw.key_down(k as usize)))
            }
        },
        Instruction::LoadDelay(x) => {
            let dt = hw.register(DELAY_TIMER);
            hw.set_register(x as usize, dt);
            Ok(ProgramCounter::Next)
        },
        Instruction::WaitKey(x) => match hw.pressed_key() {
            Some(k) => {
                hw.set_register(x as usize, k);
                Ok(ProgramCounter::Next)
            },
            None => Ok(ProgramCounter::Block),
        },
        Instruction::SetDelay(x) => {
            let vx = hw.register(x as usize);
            hw.set_register(DELAY_TIMER, vx);
            Ok(ProgramCounter::Next)
        },
        Instruction::SetSound(x) => {
            let vx = hw.register(x as usize);
            hw.set_register(SOUND_TIMER, vx);
            Ok(ProgramCounter::Next)
        },
        _ => Err(Fault::UnknownOpcode),
    }
}

/// Stores `V0` to `Vx` in memory from the index register on.
fn store_registers<H: Hardware>(hw: &mut H, x: u8) -> (r: Result<ProgramCounter, Fault>)
    requires
        x < GENERAL_REGISTERS,
    ensures
        performed(old(hw).state(), final(hw).state(), Instruction::StoreRegs(x), 0, 0, r),
{
    proof {
        reveal(effect);
        hw.lemma_well_formed();
    }
    let i = hw.index() as usize;
    if i + x as usize + 1 > RAM_SIZE {
        return Err(Fault::MemoryOutOfRange);
    }
    let ghost m = hw.state();
    let mut r: usize = 0;
    proof {
        assert(m.ram =~= Seq::new(
            RAM_SIZE as nat,
            |a: int|
                if i <= a < i + r {
                    m.reg(a - i)
                } else {
                    m.ram[a]
                },
        ));
    }
    while r <= x as usize
        invariant
            r <= x + 1,
            x < GENERAL_REGISTERS,
            i == m.index,
            i + x + 1 <= RAM_SIZE,
            m.well_formed(),
            hw.state() == (Machine {
                ram: Seq::new(
                    RAM_SIZE as nat,
                    |a: int|
                        if i <= a < i + r {
                            m.reg(a - i)
                        } else {
                            m.ram[a]
                        },
                ),
                ..m
            }),
        decreases x + 1 - r,
    {
        let v = hw.register(r);
        hw.set_memory(i + r, v);
        r = r + 1;
        proof {
            assert(hw.state().ram =~= Seq::new(
                RAM_SIZE as nat,
                |a: int|
                    if i <= a < i + r {
                        m.reg(a - i)
                    } else {
                        m.ram[a]
                    },
            ));
        }
    }
    proof {
        assert(hw.state().ram =~= Seq::new(
            RAM_SIZE as nat,
            |a: int|
                if m.index <= a <= m.index + x {
                    m.reg(a - m.index)
                } else {
                    m.ram[a]
                },
        ));
    }
    Ok(ProgramCounter::Next)
}

/// Loads `V0` to `Vx` from memory from the index register on.
fn load_registers<H: Hardware>(hw: &mut H, x: u8) -> (r: Result<ProgramCounter, Fault>)
    requires
        x < GENERAL_REGISTERS,
    ensures
        performed(old(hw).state(), final(hw).state(), Instruction::LoadRegs(x), 0, 0, r),
{
    proof {
        reveal(effect);
        hw.lemma_well_formed();
    }
    let i = hw.index() as usize;
    if i + x as usize + 1 > RAM_SIZE {
        return Err(Fault::MemoryOutOfRange);
    }
    let ghost m = hw.state();
    let mut r: usize = 0;
    proof {
        assert(m.registers =~= Seq::new(
            REGISTER_SIZE as nat,
            |q: int|
                if q < r {
                    m.ram[i + q]
                } else {
                    m.reg(q)
                },
        ));
    }
    while r <= x as usize
        invariant
            r <= x + 1,
            x < GENERAL_REGISTERS,
            i == m.index,
            i + x + 1 <= RAM_SIZE,
            m.well_formed(),
            hw.state() == (Machine {
                registers: Seq::new(
                    REGISTER_SIZE as nat,
                    |q: int|
                        if q < r {
                            m.ram[i + q]
                        } else {
                            m.reg(q)
                        },
                ),
                ..m
            }),
        decreases x + 1 - r,
    {
        let v = hw.memory(i + r);
        hw.set_register(r, v);
        r = r + 1;
        proof {
            assert(hw.state().registers =~= Seq::new(
                REGISTER_SIZE as nat,
                |q: int|
                    if q < r {
                        m.ram[i + q]
                    } else {
                        m.reg(q)
                    },
            ));
        }
    }
    proof {
        assert(hw.state().registers =~= Seq::new(
            REGISTER_SIZE as nat,
            |q: int|
                if q <= x {
                    m.ram[m.index + q]
                } else {
                    m.reg(q)
                },
        ));
    }
    Ok(ProgramCounter::Next)
}

/// Executes the instructions on the index register, memory and display.
fn perform_memory<H: Hardware>(hw: &mut H, ins: Instruction) -> (r: Result<
    ProgramCounter,
    Fault,
>)
    requires
        ins.well_formed(),
        ins is Cls || ins is LoadIndex || ins is AddIndex || ins is LoadFont || ins is StoreBcd
            || ins is Draw,
    ensures
        performed(old(hw).state(), final(hw).state(), ins, 0, 0, r),
{
    proof {
        reveal(effect);
        hw.lemma_well_formed();
    }
    match ins {
        Instruction::Cls => {
            hw.clear_screen();
            Ok(ProgramCounter::Next)
        },
        Instruction::LoadIndex(a) => {
            hw.set_index(a);
            Ok(ProgramCounter::Next)
        },
        Instruction::AddIndex(x) => {
            let i = hw.index();
            let vx = hw.register(x as usize);
            if i as u32 + vx as u32 > 0xFFFF {
                Err(Fault::MemoryOutOfRange)
            } else {
                let sum = i + vx as u16;
                hw.set_index(sum);
                hw.set_register(FLAG, if sum > 0x0F00 { 1 } else { 0 });
                Ok(ProgramCounter::Next)
            }
        },
        Instruction::LoadFont(x) => {
            let vx = hw.register(x as usize);
            hw.set_index(vx as u16 * 5);
            Ok(ProgramCounter::Next)
        },
        Instruction::StoreBcd(x) => {
            let i = hw.index() as usize;
            if i + 3 > RAM_SIZE {
                Err(Fault::MemoryOutOfRange)
            } else {
                let v = hw.register(x as usize);
                hw.set_memory(i, v / 100);
                hw.set_memory(i + 1, (v / 10) % 10);
                hw.set_memory(i + 2, v % 10);
                Ok(ProgramCounter::Next)
            }
        },
        Instruction::Draw(x, y, n) => {
            let i = hw.index() as usize;
            if i + n as usize > RAM_SIZE {
                Err(Fault::MemoryOutOfRange)
            } else {
                let vx = hw.register(x as usize);
                let vy = hw.register(y as usize);
                let sprite = read_sprite(hw, i, n as usize);
                let collision = hw.draw_sprite(vx as usize, vy as usize, sprite.as_slice());
                hw.set_register(FLAG, if collision { 1 } else { 0 });
                Ok(ProgramCounter::Next)
            }
        },
        _ => Err(Fault::UnknownOpcode),
    }
}

/// Executes a well-formed instruction on the machine, as `effect` says;
/// returns how the program counter moves, or the fault, leaving the machine
/// unchanged. The program counter itself is left to the caller.
pub fn perform<H: Hardware>(hw: &mut H, ins: Instruction, random: u8, next: u16) -> (r: Result<
    ProgramCounter,
    Fault,
>)
    requires
        ins.well_formed(),
    ensures
        performed(old(hw).state(), final(hw).state(), ins, random, next, r),
{
    proof {
        reveal(effect);
    }
    match ins {
        Instruction::Ret | Instruction::Jump(_) | Instruction::Call(_) | Instruction::JumpOffset(_)
        | Instruction::SkipEqByte(..) | Instruction::SkipNeByte(..) | Instruction::SkipEqReg(..)
        | Instruction::SkipNeReg(..) => perform_flow(hw, ins, next),
        Instruction::LoadByte(..) | Instruction::AddByte(..) | Instruction::Move(..)
        | Instruction::Or(..) | Instruction::And(..) | Instruction::Xor(..)
        | Instruction::Random(..) => perform_alu(hw, ins, random),
        Instruction::AddReg(x, y) => perform_add(hw, x, y),
        Instruction::Sub(..) | Instruction::SubNeg(..) => perform_sub(hw, ins),
        Instruction::ShiftRight(..) | Instruction::ShiftLeft(..) => perform_shift(hw, ins),
        Instruction::SkipKey(_) | Instruction::SkipNoKey(_) | Instruction::LoadDelay(_)
        | Instruction::WaitKey(_) | Instruction::SetDelay(_) | Instruction::SetSound(_) => {
            perform_io(hw, ins)
        },
        Instruction::StoreRegs(x) => store_registers(hw, x),
        Instruction::LoadRegs(x) => load_registers(hw, x),
        _ => perform_memory(hw, ins),
    }
}

/// Counts both timers down by one, where not already zero.
pub fn count_down_timers<H: Hardware>(hw: &mut H)
    ensures
        final(hw).state() == count_down(old(hw).state()),
{
    proof {
        hw.lemma_well_formed();
    }
    let dt = hw.register(DELAY_TIMER);
    if dt > 0 {
        hw.set_register(DELAY_TIMER, dt - 1);
    } else {
        hw.set_register(DELAY_TIMER, 0);
    }
    let st = hw.register(SOUND_TIMER);
    if st > 0 {
        hw.set_register(SOUND_TIMER, st - 1);
    } else {
        hw.set_register(SOUND_TIMER, 0);
    }
}

/// The instruction word at address `a`.
pub fn read_word<H: Hardware>(hw: &H, a: usize) -> (word: u16)
    requires
        a + 1 < RAM_SIZE,
    ensures
        word == word_at(hw.state(), a as int),
{
    let hi = hw.memory(a);
    let lo = hw.memory(a + 1);
    assert((hi as u16) << 8u16 | lo as u16 == hi * 256 + lo) by (bit_vector);
    (hi as u16) << 8u16 | lo as u16
}

/// Decodes and executes the instruction word `opcode`, then moves the program
/// counter by the outcome, relative to `next`, as `outcome` says. Returns the
/// fault, if any, and the cells drawn over, as `touched` says.
pub fn execute_word<H: Hardware>(hw: &mut H, opcode: u16, random: u8, next: u16) -> (r: (
    Option<Fault>,
    Vec<usize>,
))
    ensures
        (final(hw).state(), r.0) == outcome(old(hw).state(), opcode, random, next),
        r.1@ == touched(old(hw).state(), opcode, r.0),
{
    let ghost before = hw.state();
    proof {
        assert((opcode >> 8u16) & 0xFu16 == (opcode / 0x100u16) % 16u16) by (bit_vector);
        assert((opcode >> 4u16) & 0xFu16 == (opcode / 0x10u16) % 16u16) by (bit_vector);
        assert(opcode & 0xFu16 == opcode % 16u16) by (bit_vector);
        assert(opcode >> 12u16 == opcode / 0x1000u16) by (bit_vector);
    }
    let vx = hw.register(((opcode >> 8u16) & 0xF) as usize);
    let vy = hw.register(((opcode >> 4u16) & 0xF) as usize);
    let fault = match decode(opcode) {
        None => {
            hw.set_program_counter(next);
            Some(Fault::UnknownOpcode)
        },
        Some(ins) => match perform(hw, ins, random, next) {
            Ok(pc) => {
                hw.set_program_counter(pc.apply(next));
                None
            },
            Err(f) => Some(f),
        },
    };
    let cells = if opcode == 0x00E0 {
        all_cells()
    } else if opcode >> 12u16 == 0xD && fault.is_none() {
        cells_of_sprite(vx, vy, (opcode & 0xF) as u8)
    } else {
        Vec::new()
    };
    proof {
        assert(cells@ =~= touched(before, opcode, fault));
    }
    (fault, cells)
}

/// Copies the font into memory from address 0 on.
pub fn install_font<H: Hardware>(hw: &mut H)
    ensures
        final(hw).state() == (Machine {
            ram: Seq::new(
                RAM_SIZE as nat,
                |a: int|
                    if a < FONT_SIZE {
                        FONT@[a]
                    } else {
                        old(hw).state().ram[a]
                    },
            ),
            ..old(hw).state()
        }),
{
    proof {
        hw.lemma_well_formed();
    }
    let ghost m = hw.state();
    let mut k: usize = 0;
    proof {
        assert(m.ram =~= Seq::new(RAM_SIZE as nat, |a: int| if a < k { FONT@[a] } else { m.ram[a] }));
    }
    while k < FONT_SIZE
        invariant
            k <= FONT_SIZE,
            m.well_formed(),
            hw.state() == (Machine {
                ram: Seq::new(RAM_SIZE as nat, |a: int| if a < k { FONT@[a] } else { m.ram[a] }),
                ..m
            }),
        decreases FONT_SIZE - k,
    {
        hw.set_memory(k, FONT[k]);
        k = k + 1;
        proof {
            assert(hw.state().ram =~= Seq::new(
                RAM_SIZE as nat,
                |a: int| if a < k { FONT@[a] } else { m.ram[a] },
            ));
        }
    }
}

/// Copies a program into memory from the program start on.
pub fn copy_program<H: Hardware>(hw: &mut H, program: &[u8])
    requires
        PROGRAM_START + program@.len() <= RAM_SIZE,
    ensures
        final(hw).state() == with_program(old(hw).state(), program@),
{
    proof {
        hw.lemma_well_formed();
    }
    let ghost m = hw.state();
    let start = PROGRAM_START as usize;
    let mut k: usize = 0;
    proof {
        assert(m.ram =~= with_program(m, program@.subrange(0, 0)).ram);
    }
    while k < program.len()
        invariant
            k <= program@.len(),
            start == PROGRAM_START,
            PROGRAM_START + program@.len() <= RAM_SIZE,
            m.well_formed(),
            hw.state() == with_program(m, program@.subrange(0, k as int)),
        decreases program@.len() - k,
    {
        hw.set_memory(start + k, program[k]);
        k = k + 1;
        proof {
            assert(hw.state().ram =~= with_program(m, program@.subrange(0, k as int)).ram);
        }
    }
    proof {
        assert(program@.subrange(0, k as int) =~= program@);
    }
}

} // verus!
