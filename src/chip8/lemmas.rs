//! Properties of instruction execution that follow from `outcome`, stated
//! over instruction words built from their nibbles.

use vstd::prelude::*;
use vstd::arithmetic::div_mod::*;

use crate::chip8::instruction::{class_of, decoded, kk_of, n_of, nnn_of, x_of, y_of, Instruction};
use crate::chip8::machine::{
    count_down, cycle, effect, next_address, outcome, word_at, Fault, Machine,
};
use crate::chip8::{DISPLAY_SIZE, RAM_SIZE};

verus! {

/// The instruction word with nibbles `a`, `x`, `y` and `n`, high to low.
pub open spec fn word(a: int, x: int, y: int, n: int) -> u16 {
    (a * 0x1000 + x * 0x100 + y * 0x10 + n) as u16
}

/// The fields of a word built from nibbles are those nibbles.
pub proof fn lemma_word_fields(a: int, x: int, y: int, n: int)
    requires
        0 <= a < 16,
        0 <= x < 16,
        0 <= y < 16,
        0 <= n < 16,
    ensures
        class_of(word(a, x, y, n)) == a,
        x_of(word(a, x, y, n)) == x,
        y_of(word(a, x, y, n)) == y,
        n_of(word(a, x, y, n)) == n,
        nnn_of(word(a, x, y, n)) == x * 0x100 + y * 0x10 + n,
        kk_of(word(a, x, y, n)) == y * 0x10 + n,
{
    let op = a * 0x1000 + x * 0x100 + y * 0x10 + n;
    assert(word(a, x, y, n) as int == op);
    lemma_fundamental_div_mod_converse(op, 0x1000, a, x * 0x100 + y * 0x10 + n);
    lemma_fundamental_div_mod_converse(op, 0x100, a * 16 + x, y * 0x10 + n);
    lemma_fundamental_div_mod_converse(a * 16 + x, 16, a, x);
    lemma_fundamental_div_mod_converse(op, 0x10, a * 0x100 + x * 16 + y, n);
    lemma_fundamental_div_mod_converse(a * 0x100 + x * 16 + y, 16, a * 16 + x, y);
}

/// After the clear instruction every pixel is off, whatever the state before.
pub proof fn lemma_clear_display(m: Machine, random: u8, next: u16)
    ensures
        outcome(m, 0x00E0, random, next).1 is None,
        forall|k: int|
            0 <= k < DISPLAY_SIZE ==> !#[trigger] outcome(m, 0x00E0, random, next).0.pixels[k],
{
    reveal(effect);
}

/// The register skip `5xy0` moves on by two instruction widths when `Vx`
/// equals `Vy`, by one otherwise, and changes nothing else.
pub proof fn lemma_skip_equal(m: Machine, x: int, y: int, random: u8, next: u16)
    requires
        0 <= x < 16,
        0 <= y < 16,
    ensures
        outcome(m, word(5, x, y, 0), random, next) == (
            Machine {
                pc: if m.reg(x) == m.reg(y) {
                    ((next + 2) % 0x10000) as u16
                } else {
                    next
                },
                ..m
            },
            None::<Fault>,
        ),
{
    reveal(effect);
    lemma_word_fields(5, x, y, 0);
    assert(decoded(word(5, x, y, 0)) == Some(Instruction::SkipEqReg(x as u8, y as u8)));
}

/// The jump `1nnn` sets the program counter to `nnn` and changes nothing else.
pub proof fn lemma_jump(m: Machine, a: int, random: u8, next: u16)
    requires
        0 <= a < 0x1000,
    ensures
        outcome(m, (0x1000 + a) as u16, random, next) == (
            Machine { pc: a as u16, ..m },
            None::<Fault>,
        ),
{
    reveal(effect);
    lemma_word_fields(1, a / 0x100, (a / 0x10) % 16, a % 16);
    assert(word(1, a / 0x100, (a / 0x10) % 16, a % 16) == (0x1000 + a) as u16);
}

/// The call `2nnn`, with room on the stack, pushes the address of the next
/// instruction and jumps to `nnn`.
pub proof fn lemma_call(m: Machine, a: int, random: u8, next: u16)
    requires
        0 <= a < 0x1000,
        m.sp < 16,
    ensures
        outcome(m, (0x2000 + a) as u16, random, next) == (
            Machine {
                stack: m.stack.update(m.sp as int, next),
                sp: (m.sp + 1) as u16,
                pc: a as u16,
                ..m
            },
            None::<Fault>,
        ),
{
    reveal(effect);
    lemma_word_fields(2, a / 0x100, (a / 0x10) % 16, a % 16);
    assert(word(2, a / 0x100, (a / 0x10) % 16, a % 16) == (0x2000 + a) as u16);
}

/// The return `00EE`, with a return address on the stack, pops it into the
/// program counter.
pub proof fn lemma_return(m: Machine, random: u8, next: u16)
    requires
        0 < m.sp <= 16,
    ensures
        outcome(m, 0x00EE, random, next) == (
            Machine { sp: (m.sp - 1) as u16, pc: m.stack[m.sp - 1], ..m },
            None::<Fault>,
        ),
{
    reveal(effect);
}

/// A call followed by a return comes back to the instruction after the call,
/// with the stack pointer where it was.
pub proof fn lemma_call_then_return(
    m: Machine,
    a: int,
    random: u8,
    next: u16,
    random2: u8,
    next2: u16,
)
    requires
        m.well_formed(),
        0 <= a < 0x1000,
        m.sp < 16,
    ensures
        ({
            let called = outcome(m, (0x2000 + a) as u16, random, next).0;
            outcome(called, 0x00EE, random2, next2) == (
                Machine { stack: m.stack.update(m.sp as int, next), pc: next, ..m },
                None::<Fault>,
            )
        }),
{
    lemma_call(m, a, random, next);
    let called = outcome(m, (0x2000 + a) as u16, random, next).0;
    lemma_return(called, random2, next2);
}

/// Waiting for a key `Fx0A` with no key recorded changes nothing but moves
/// the program counter back by one instruction width from the next
/// instruction, so that it runs again; with a key recorded, its code goes to
/// `Vx` and execution moves on.
pub proof fn lemma_wait_key(m: Machine, x: int, random: u8, next: u16)
    requires
        0 <= x < 16,
    ensures
        m.current_key is None ==> outcome(m, word(0xF, x, 0, 0xA), random, next) == (
            Machine { pc: ((next - 2) % 0x10000) as u16, ..m },
            None::<Fault>,
        ),
        m.current_key matches Some(k) ==> outcome(m, word(0xF, x, 0, 0xA), random, next) == (
            Machine { pc: next, ..m.set_reg(x, k) },
            None::<Fault>,
        ),
{
    reveal(effect);
    lemma_word_fields(0xF, x, 0, 0xA);
    assert(decoded(word(0xF, x, 0, 0xA)) == Some(Instruction::WaitKey(x as u8)));
}

/// For a processor whose next instruction is the one after the program
/// counter, waiting with no key recorded leaves the program counter on the
/// waiting instruction.
pub proof fn lemma_wait_key_stays(m: Machine, x: int, random: u8)
    requires
        0 <= x < 16,
        m.current_key is None,
    ensures
        outcome(m, word(0xF, x, 0, 0xA), random, next_address(m.pc)) == (
            m,
            None::<Fault>,
        ),
{
    lemma_wait_key(m, x, random, next_address(m.pc));
    assert(((next_address(m.pc) - 2) % 0x10000) as u16 == m.pc);
}

/// The word at the program counter of a machine whose memory holds the
/// nibbles `a x` and `y n` there, before and after its timers count down.
proof fn lemma_word_at_pc(m: Machine, a: int, x: int, y: int, n: int)
    requires
        m.well_formed(),
        m.pc + 1 < RAM_SIZE,
        0 <= a < 16,
        0 <= x < 16,
        0 <= y < 16,
        0 <= n < 16,
        m.ram[m.pc as int] == a * 16 + x,
        m.ram[m.pc + 1] == y * 16 + n,
    ensures
        word_at(count_down(m), m.pc as int) == word(a, x, y, n),
        count_down(m).well_formed(),
        count_down(m).pc == m.pc,
        count_down(m).ram == m.ram,
{
    assert(word_at(count_down(m), m.pc as int) as int == (a * 16 + x) * 256 + y * 16 + n);
}

/// A cycle on the register skip `5xy0` moves the program counter on by two
/// instruction widths when `Vx` equals `Vy`, by one otherwise; besides the
/// timers, nothing else changes.
pub proof fn lemma_cycle_skip_equal(m: Machine, x: int, y: int, random: u8)
    requires
        m.well_formed(),
        m.pc + 1 < RAM_SIZE,
        0 <= x < 16,
        0 <= y < 16,
        m.ram[m.pc as int] == 0x50 + x,
        m.ram[m.pc + 1] == y * 16,
    ensures
        cycle(m, random) == (
            Machine {
                pc: if m.reg(x) == m.reg(y) {
                    (m.pc + 4) as u16
                } else {
                    (m.pc + 2) as u16
                },
                ..count_down(m)
            },
            None::<Fault>,
        ),
{
    reveal(cycle);
    let c = count_down(m);
    lemma_word_at_pc(m, 5, x, y, 0);
    assert(c.reg(x) == m.reg(x));
    assert(c.reg(y) == m.reg(y));
    assert(cycle(m, random) == outcome(c, word(5, x, y, 0), random, next_address(m.pc)));
    lemma_skip_equal(c, x, y, random, next_address(m.pc));
}

/// A cycle on a call to `a`, with room on the stack, pushes the address
/// after the call and jumps to `a`.
pub proof fn lemma_cycle_call(m: Machine, a: int, random: u8)
    requires
        m.well_formed(),
        m.pc + 1 < RAM_SIZE,
        0 <= a < 0x1000,
        m.sp < 16,
        m.ram[m.pc as int] == 0x20 + a / 0x100,
        m.ram[m.pc + 1] == a % 0x100,
    ensures
        cycle(m, random) == (
            Machine {
                stack: m.stack.update(m.sp as int, (m.pc + 2) as u16),
                sp: (m.sp + 1) as u16,
                pc: a as u16,
                ..count_down(m)
            },
            None::<Fault>,
        ),
{
    reveal(cycle);
    let c = count_down(m);
    lemma_word_at_pc(m, 2, a / 0x100, (a % 0x100) / 16, a % 16);
    assert(word(2, a / 0x100, (a % 0x100) / 16, a % 16) == (0x2000 + a) as u16);
    assert(cycle(m, random) == outcome(c, (0x2000 + a) as u16, random, next_address(m.pc)));
    lemma_call(c, a, random, next_address(m.pc));
}

/// A cycle on the return `00EE`, with a return address on the stack, pops it
/// into the program counter.
pub proof fn lemma_cycle_return(m: Machine, random: u8)
    requires
        m.well_formed(),
        m.pc + 1 < RAM_SIZE,
        0 < m.sp <= 16,
        m.ram[m.pc as int] == 0x00,
        m.ram[m.pc + 1] == 0xEE,
    ensures
        cycle(m, random) == (
            Machine { sp: (m.sp - 1) as u16, pc: m.stack[m.sp - 1], ..count_down(m) },
            None::<Fault>,
        ),
{
    reveal(cycle);
    let c = count_down(m);
    lemma_word_at_pc(m, 0, 0, 0xE, 0xE);
    assert(cycle(m, random) == outcome(c, 0x00EE, random, next_address(m.pc)));
    lemma_return(c, random, next_address(m.pc));
}

/// A cycle on a call to `a`, followed by a cycle on the return at `a`, comes
/// back to the instruction after the call with the stack pointer where it was.
pub proof fn lemma_cycle_call_then_return(m: Machine, a: int, random: u8, random2: u8)
    requires
        m.well_formed(),
        m.pc + 1 < RAM_SIZE,
        0 <= a < 0x1000,
        a + 1 < RAM_SIZE,
        m.sp < 16,
        m.ram[m.pc as int] == 0x20 + a / 0x100,
        m.ram[m.pc + 1] == a % 0x100,
        m.ram[a] == 0x00,
        m.ram[a + 1] == 0xEE,
    ensures
        ({
            let (called, fault) = cycle(m, random);
            let (back, fault2) = cycle(called, random2);
            &&& fault is None
            &&& fault2 is None
            &&& back.pc == m.pc + 2
            &&& back.sp == m.sp
            &&& back.ram == m.ram
        }),
{
    lemma_cycle_call(m, a, random);
    let called = cycle(m, random).0;
    assert(called.well_formed());
    lemma_cycle_return(called, random2);
}

/// A cycle on the key wait `Fx0A` with no key recorded leaves the program
/// counter on the waiting instruction, so that it runs again; with a key
/// recorded, the key's code goes to `Vx` and the program counter moves on by
/// one instruction width. Besides the timers, nothing else changes.
pub proof fn lemma_cycle_wait_key(m: Machine, x: int, random: u8)
    requires
        m.well_formed(),
        m.pc + 1 < RAM_SIZE,
        0 <= x < 16,
        m.ram[m.pc as int] == 0xF0 + x,
        m.ram[m.pc + 1] == 0x0A,
    ensures
        m.current_key is None ==> cycle(m, random) == (count_down(m), None::<Fault>),
        m.current_key matches Some(k) ==> cycle(m, random) == (
            Machine { pc: (m.pc + 2) as u16, ..count_down(m).set_reg(x, k) },
            None::<Fault>,
        ),
{
    reveal(cycle);
    lemma_word_at_pc(m, 0xF, x, 0, 0xA);
    if m.current_key is None {
        lemma_wait_key_stays(count_down(m), x, random);
    } else {
        lemma_wait_key(count_down(m), x, random, next_address(m.pc));
    }
}

} // verus!
