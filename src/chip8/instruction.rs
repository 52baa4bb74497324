//! Instruction words and their decoding.
//!
//! An instruction word is 16 bits, read as four nibbles `a x y n`; `nnn` is
//! its low 12 bits (an address) and `kk` its low byte (an immediate). `x` and
//! `y` name registers.

use vstd::prelude::*;

verus! {

/// A decoded instruction. Register operands are indices 0 to 15.
#[derive(Clone, Copy, Debug, PartialEq, Eq, Structural)]
pub enum Instruction {
    /// `00E0`: clear the display.
    Cls,
    /// `00EE`: return from a subroutine.
    Ret,
    /// `1nnn`: jump to `nnn`.
    Jump(u16),
    /// `2nnn`: call the subroutine at `nnn`.
    Call(u16),
    /// `3xkk`: skip the next instruction if `Vx == kk`.
    SkipEqByte(u8, u8),
    /// `4xkk`: skip the next instruction if `Vx != kk`.
    SkipNeByte(u8, u8),
    /// `5xy0`: skip the next instruction if `Vx == Vy`.
    SkipEqReg(u8, u8),
    /// `6xkk`: `Vx = kk`.
    LoadByte(u8, u8),
    /// `7xkk`: `Vx = Vx + kk`, wrapping, flag untouched.
    AddByte(u8, u8),
    /// `8xy0`: `Vx = Vy`.
    Move(u8, u8),
    /// `8xy1`: `Vx = Vx | Vy`.
    Or(u8, u8),
    /// `8xy2`: `Vx = Vx & Vy`.
    And(u8, u8),
    /// `8xy3`: `Vx = Vx ^ Vy`.
    Xor(u8, u8),
    /// `8xy4`: `Vx = Vx + Vy`, VF the carry.
    AddReg(u8, u8),
    /// `8xy5`: `Vx = Vx - Vy`, VF 1 when there is no borrow.
    Sub(u8, u8),
    /// `8xy6`: `Vx = Vx >> 1`, VF the bit shifted out.
    ShiftRight(u8, u8),
    /// `8xy7`: `Vx = Vy - Vx`, VF 1 when there is no borrow.
    SubNeg(u8, u8),
    /// `8xyE`: `Vx = Vx << 1`, VF the bit shifted out.
    ShiftLeft(u8, u8),
    /// `9xy0`: skip the next instruction if `Vx != Vy`.
    SkipNeReg(u8, u8),
    /// `Annn`: `I = nnn`.
    LoadIndex(u16),
    /// `Bnnn`: jump to `nnn + V0`.
    JumpOffset(u16),
    /// `Cxkk`: `Vx = random & kk`.
    Random(u8, u8),
    /// `Dxyn`: draw the `n` bytes at `I` as a sprite at `(Vx, Vy)`, VF the collision.
    Draw(u8, u8, u8),
    /// `Ex9E`: skip the next instruction if key `Vx` is down.
    SkipKey(u8),
    /// `ExA1`: skip the next instruction if key `Vx` is up.
    SkipNoKey(u8),
    /// `Fx07`: `Vx = delay timer`.
    LoadDelay(u8),
    /// `Fx0A`: wait for a key and store it in `Vx`.
    WaitKey(u8),
    /// `Fx15`: `delay timer = Vx`.
    SetDelay(u8),
    /// `Fx18`: `sound timer = Vx`.
    SetSound(u8),
    /// `Fx1E`: `I = I + Vx`, VF 1 when the sum passes `0x0F00`.
    AddIndex(u8),
    /// `Fx29`: `I` = address of the font glyph of digit `Vx`.
    LoadFont(u8),
    /// `Fx33`: store the three decimal digits of `Vx` at `I`, `I + 1`, `I + 2`.
    StoreBcd(u8),
    /// `Fx55`: store `V0` to `Vx` at `I` onward.
    StoreRegs(u8),
    /// `Fx65`: load `V0` to `Vx` from `I` onward.
    LoadRegs(u8),
}

/// The top nibble of an instruction word: its class.
pub open spec fn class_of(op: u16) -> int {
    op as int / 0x1000
}

/// The second nibble of an instruction word (`x`).
pub open spec fn x_of(op: u16) -> u8 {
    ((op as int / 0x100) % 16) as u8
}

/// The third nibble of an instruction word (`y`).
pub open spec fn y_of(op: u16) -> u8 {
    ((op as int / 0x10) % 16) as u8
}

/// The low nibble of an instruction word (`n`).
pub open spec fn n_of(op: u16) -> u8 {
    (op as int % 16) as u8
}

/// The low twelve bits of an instruction word (`nnn`).
pub open spec fn nnn_of(op: u16) -> u16 {
    (op as int % 0x1000) as u16
}

/// The low byte of an instruction word (`kk`).
pub open spec fn kk_of(op: u16) -> u8 {
    (op as int % 0x100) as u8
}

/// The instruction an instruction word encodes, if any.
pub open spec fn decoded(op: u16) -> Option<Instruction> {
    let (a, x, y, n, nnn, kk) = (class_of(op), x_of(op), y_of(op), n_of(op), nnn_of(op), kk_of(op));
    if op == 0x00E0 {
        Some(Instruction::Cls)
    } else if op == 0x00EE {
        Some(Instruction::Ret)
    } else if a == 0x1 {
        Some(Instruction::Jump(nnn))
    } else if a == 0x2 {
        Some(Instruction::Call(nnn))
    } else if a == 0x3 {
        Some(Instruction::SkipEqByte(x, kk))
    } else if a == 0x4 {
        Some(Instruction::SkipNeByte(x, kk))
    } else if a == 0x5 && n == 0 {
        Some(Instruction::SkipEqReg(x, y))
    } else if a == 0x6 {
        Some(Instruction::LoadByte(x, kk))
    } else if a == 0x7 {
        Some(Instruction::AddByte(x, kk))
    } else if a == 0x8 && n == 0x0 {
        Some(Instruction::Move(x, y))
    } else if a == 0x8 && n == 0x1 {
        Some(Instruction::Or(x, y))
    } else if a == 0x8 && n == 0x2 {
        Some(Instruction::And(x, y))
    } else if a == 0x8 && n == 0x3 {
        Some(Instruction::Xor(x, y))
    } else if a == 0x8 && n == 0x4 {
        Some(Instruction::AddReg(x, y))
    } else if a == 0x8 && n == 0x5 {
        Some(Instruction::Sub(x, y))
    } else if a == 0x8 && n == 0x6 {
        Some(Instruction::ShiftRight(x, y))
    } else if a == 0x8 && n == 0x7 {
        Some(Instruction::SubNeg(x, y))
    } else if a == 0x8 && n == 0xE {
        Some(Instruction::ShiftLeft(x, y))
    } else if a == 0x9 && n == 0 {
        Some(Instruction::SkipNeReg(x, y))
    } else if a == 0xA {
        Some(Instruction::LoadIndex(nnn))
    } else if a == 0xB {
        Some(Instruction::JumpOffset(nnn))
    } else if a == 0xC {
        Some(Instruction::Random(x, kk))
    } else if a == 0xD {
        Some(Instruction::Draw(x, y, n))
    } else if a == 0xE && kk == 0x9E {
        Some(Instruction::SkipKey(x))
    } else if a == 0xE && kk == 0xA1 {
        Some(Instruction::SkipNoKey(x))
    } else if a == 0xF && kk == 0x07 {
        Some(Instruction::LoadDelay(x))
    } else if a == 0xF && kk == 0x0A {
        Some(Instruction::WaitKey(x))
    } else if a == 0xF && kk == 0x15 {
        Some(Instruction::SetDelay(x))
    } else if a == 0xF && kk == 0x18 {
        Some(Instruction::SetSound(x))
    } else if a == 0xF && kk == 0x1E {
        Some(Instruction::AddIndex(x))
    } else if a == 0xF && kk == 0x29 {
        Some(Instruction::LoadFont(x))
    } else if a == 0xF && kk == 0x33 {
        Some(Instruction::StoreBcd(x))
    } else if a == 0xF && kk == 0x55 {
        Some(Instruction::StoreRegs(x))
    } else if a == 0xF && kk == 0x65 {
        Some(Instruction::LoadRegs(x))
    } else {
        None
    }
}

impl Instruction {
    /// Whether the operands are in range: registers and `n` below 16,
    /// addresses below `0x1000`.
    pub open spec fn well_formed(self) -> bool {
        match self {
            Instruction::Jump(a) | Instruction::Call(a) | Instruction::LoadIndex(a)
            | Instruction::JumpOffset(a) => a < 0x1000,
            Instruction::SkipEqByte(x, _) | Instruction::SkipNeByte(x, _)
            | Instruction::LoadByte(x, _) | Instruction::AddByte(x, _) | Instruction::Random(
                x,
                _,
            ) => x < 16,
            Instruction::SkipEqReg(x, y) | Instruction::Move(x, y) | Instruction::Or(x, y)
            | Instruction::And(x, y) | Instruction::Xor(x, y) | Instruction::AddReg(x, y)
            | Instruction::Sub(x, y) | Instruction::ShiftRight(x, y) | Instruction::SubNeg(x, y)
            | Instruction::ShiftLeft(x, y) | Instruction::SkipNeReg(x, y) => x < 16 && y < 16,
            Instruction::Draw(x, y, n) => x < 16 && y < 16 && n < 16,
            Instruction::SkipKey(x) | Instruction::SkipNoKey(x) | Instruction::LoadDelay(x)
            | Instruction::WaitKey(x) | Instruction::SetDelay(x) | Instruction::SetSound(x)
            | Instruction::AddIndex(x) | Instruction::LoadFont(x) | Instruction::StoreBcd(x)
            | Instruction::StoreRegs(x) | Instruction::LoadRegs(x) => x < 16,
            Instruction::Cls | Instruction::Ret => true,
        }
    }
}

/// The fields of an instruction word, as shifts and masks compute them.
proof fn lemma_fields(op: u16)
    ensures
        op >> 12u16 == class_of(op),
        (op >> 8u16) & 0xFu16 == x_of(op),
        (op >> 4u16) & 0xFu16 == y_of(op),
        op & 0xFu16 == n_of(op),
        op & 0xFFFu16 == nnn_of(op),
        op & 0xFFu16 == kk_of(op),
{
    assert(op >> 12u16 == op / 0x1000u16) by (bit_vector);
    assert((op >> 8u16) & 0xFu16 == (op / 0x100u16) % 16u16) by (bit_vector);
    assert((op >> 4u16) & 0xFu16 == (op / 0x10u16) % 16u16) by (bit_vector);
    assert(op & 0xFu16 == op % 16u16) by (bit_vector);
    assert(op & 0xFFFu16 == op % 0x1000u16) by (bit_vector);
    assert(op & 0xFFu16 == op % 0x100u16) by (bit_vector);
}

/// Decodes an instruction word; `None` for a word that encodes no instruction.
pub fn decode(op: u16) -> (r: Option<Instruction>)
    ensures
        r == decoded(op),
        r matches Some(ins) ==> ins.well_formed(),
{
    proof {
        lemma_fields(op);
    }
    let a = op >> 12u16;
    let x = ((op >> 8u16) & 0xF) as u8;
    let y = ((op >> 4u16) & 0xF) as u8;
    let n = (op & 0xF) as u8;
    let nnn = op & 0xFFF;
    let kk = (op & 0xFF) as u8;
    if op == 0x00E0 {
        Some(Instruction::Cls)
    } else if op == 0x00EE {
        Some(Instruction::Ret)
    } else {
        match a {
            0x1 => Some(Instruction::Jump(nnn)),
            0x2 => Some(Instruction::Call(nnn)),
            0x3 => Some(Instruction::SkipEqByte(x, kk)),
            0x4 => Some(Instruction::SkipNeByte(x, kk)),
            0x5 if n == 0 => Some(Instruction::SkipEqReg(x, y)),
            0x6 => Some(Instruction::LoadByte(x, kk)),
            0x7 => Some(Instruction::AddByte(x, kk)),
            0x8 => match n {
                0x0 => Some(Instruction::Move(x, y)),
                0x1 => Some(Instruction::Or(x, y)),
                0x2 => Some(Instruction::And(x, y)),
                0x3 => Some(Instruction::Xor(x, y)),
                0x4 => Some(Instruction::AddReg(x, y)),
                0x5 => Some(Instruction::Sub(x, y)),
                0x6 => Some(Instruction::ShiftRight(x, y)),
                0x7 => Some(Instruction::SubNeg(x, y)),
                0xE => Some(Instruction::ShiftLeft(x, y)),
                _ => None,
            },
            0x9 if n == 0 => Some(Instruction::SkipNeReg(x, y)),
            0xA => Some(Instruction::LoadIndex(nnn)),
            0xB => Some(Instruction::JumpOffset(nnn)),
            0xC => Some(Instruction::Random(x, kk)),
            0xD => Some(Instruction::Draw(x, y, n)),
            0xE => match kk {
                0x9E => Some(Instruction::SkipKey(x)),
                0xA1 => Some(Instruction::SkipNoKey(x)),
                _ => None,
            },
            0xF => match kk {
                0x07 => Some(Instruction::LoadDelay(x)),
                0x0A => Some(Instruction::WaitKey(x)),
                0x15 => Some(Instruction::SetDelay(x)),
                0x18 => Some(Instruction::SetSound(x)),
                0x1E => Some(Instruction::AddIndex(x)),
                0x29 => Some(Instruction::LoadFont(x)),
                0x33 => Some(Instruction::StoreBcd(x)),
                0x55 => Some(Instruction::StoreRegs(x)),
                0x65 => Some(Instruction::LoadRegs(x)),
                _ => None,
            },
            _ => None,
        }
    }
}

} // verus!
