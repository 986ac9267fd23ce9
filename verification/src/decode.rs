//! Decoding of 16-bit big-endian opcode words into instructions.
//!
//! The word's fields are named as on the reference platform: X and Y are
//! register indices (bits 8-11 and 4-7), NNN is the low 12 bits (an address),
//! NN the low byte (an immediate), and N the low nibble (a sprite height).

use vstd::prelude::*;

verus! {

/// A decoded instruction. Field order in each variant follows the opcode's
/// own field order. Words that match no defined opcode decode to `Unknown`,
/// which the interpreter treats as a non-fatal no-op that does not advance
/// the program counter.
#[derive(Clone, Copy, PartialEq, Eq, Structural, Debug)]
pub enum Instr {
    /// 00E0: clear the framebuffer.
    ClearScreen,
    /// 00EE: return from a subroutine.
    Return,
    /// 1NNN: jump to NNN.
    Jump(u16),
    /// 2NNN: call the subroutine at NNN.
    Call(u16),
    /// 3XNN: skip the next instruction if VX == NN.
    SkipEqImm(u8, u8),
    /// 4XNN: skip the next instruction if VX != NN.
    SkipNeImm(u8, u8),
    /// 5XY0: skip the next instruction if VX == VY.
    SkipEqReg(u8, u8),
    /// 6XNN: VX = NN.
    SetImm(u8, u8),
    /// 7XNN: VX = VX + NN, wrapping, no flag.
    AddImm(u8, u8),
    /// 8XY0: VX = VY.
    Assign(u8, u8),
    /// 8XY1: VX = VX | VY.
    Or(u8, u8),
    /// 8XY2: VX = VX & VY.
    And(u8, u8),
    /// 8XY3: VX = VX ^ VY.
    Xor(u8, u8),
    /// 8XY4: VX = VX + VY with carry into VF.
    AddReg(u8, u8),
    /// 8XY5: VX = VX - VY with not-borrow into VF.
    SubReg(u8, u8),
    /// 8XY6: VX >>= 1, shifted-out bit into VF.
    Shr(u8),
    /// 8XY7: VX = VY - VX with not-borrow into VF.
    SubFrom(u8, u8),
    /// 8XYE: VX <<= 1, shifted-out bit into VF.
    Shl(u8),
    /// 9XY0: skip the next instruction if VX != VY.
    SkipNeReg(u8, u8),
    /// ANNN: I = NNN.
    SetIndex(u16),
    /// BNNN: jump to NNN + V0.
    JumpPlus(u16),
    /// CXNN: VX = random byte & NN.
    Random(u8, u8),
    /// DXYN: draw an 8-wide, N-tall sprite at (VX, VY).
    Draw(u8, u8, u8),
    /// EX9E: skip the next instruction if key VX is pressed.
    SkipKey(u8),
    /// EXA1: skip the next instruction if key VX is not pressed.
    SkipNoKey(u8),
    /// FX07: VX = delay timer.
    GetDelay(u8),
    /// FX0A: wait for a key; store the highest pressed key in VX.
    WaitKey(u8),
    /// FX15: delay timer = VX.
    SetDelay(u8),
    /// FX18: sound timer = VX.
    SetSound(u8),
    /// FX1E: I = I + VX, VF = 1 if the sum exceeds 0xFFF.
    AddIndex(u8),
    /// FX29: I = VX * 5, the font glyph base address.
    FontAddr(u8),
    /// FX33: store the decimal digits of VX at I, I+1, I+2.
    StoreBcd(u8),
    /// FX55: copy V0..=VX into memory at I.
    StoreRegs(u8),
    /// FX65: copy memory at I into V0..=VX.
    LoadRegs(u8),
    /// Any word that matches no defined opcode.
    Unknown(u16),
}

/// The X field: bits 8-11 of the word.
pub open spec fn field_x(w: u16) -> u8 {
    ((w >> 8) & 0xF) as u8
}

/// The Y field: bits 4-7 of the word.
pub open spec fn field_y(w: u16) -> u8 {
    ((w >> 4) & 0xF) as u8
}

/// The N field: the low nibble of the word.
pub open spec fn field_n(w: u16) -> u8 {
    (w & 0xF) as u8
}

/// The NN field: the low byte of the word.
pub open spec fn field_nn(w: u16) -> u8 {
    (w & 0xFF) as u8
}

/// The NNN field: the low 12 bits of the word.
pub open spec fn field_nnn(w: u16) -> u16 {
    w & 0xFFF
}

/// Every register index a word can carry is a valid index into the
/// 16-register file, and every address fits in the 4096-byte memory.
pub proof fn lemma_fields_in_range(w: u16)
    ensures
        field_x(w) < 16,
        field_y(w) < 16,
        field_n(w) < 16,
        field_nnn(w) < 4096,
{
    assert((w >> 8) & 0xF < 16) by (bit_vector);
    assert((w >> 4) & 0xF < 16) by (bit_vector);
    assert(w & 0xF < 16) by (bit_vector);
    assert(w & 0xFFF < 4096) by (bit_vector);
}

/// What a 16-bit word decodes to. Dispatch is on the high nibble; the 0, 5,
/// 8, 9, E and F groups sub-dispatch on the low nibble or low byte, and any
/// combination outside the defined set is `Unknown`.
pub open spec fn spec_decode(w: u16) -> Instr {
    let hi = w >> 12;
    if w == 0x00E0 {
        Instr::ClearScreen
    } else if w == 0x00EE {
        Instr::Return
    } else if hi == 0x1 {
        Instr::Jump(field_nnn(w))
    } else if hi == 0x2 {
        Instr::Call(field_nnn(w))
    } else if hi == 0x3 {
        Instr::SkipEqImm(field_x(w), field_nn(w))
    } else if hi == 0x4 {
        Instr::SkipNeImm(field_x(w), field_nn(w))
    } else if hi == 0x5 && field_n(w) == 0 {
        Instr::SkipEqReg(field_x(w), field_y(w))
    } else if hi == 0x6 {
        Instr::SetImm(field_x(w), field_nn(w))
    } else if hi == 0x7 {
        Instr::AddImm(field_x(w), field_nn(w))
    } else if hi == 0x8 {
        if field_n(w) == 0x0 {
            Instr::Assign(field_x(w), field_y(w))
        } else if field_n(w) == 0x1 {
            Instr::Or(field_x(w), field_y(w))
        } else if field_n(w) == 0x2 {
            Instr::And(field_x(w), field_y(w))
        } else if field_n(w) == 0x3 {
            Instr::Xor(field_x(w), field_y(w))
        } else if field_n(w) == 0x4 {
            Instr::AddReg(field_x(w), field_y(w))
        } else if field_n(w) == 0x5 {
            Instr::SubReg(field_x(w), field_y(w))
        } else if field_n(w) == 0x6 {
            Instr::Shr(field_x(w))
        } else if field_n(w) == 0x7 {
            Instr::SubFrom(field_x(w), field_y(w))
        } else if field_n(w) == 0xE {
            Instr::Shl(field_x(w))
        } else {
            Instr::Unknown(w)
        }
    } else if hi == 0x9 && field_n(w) == 0 {
        Instr::SkipNeReg(field_x(w), field_y(w))
    } else if hi == 0xA {
        Instr::SetIndex(field_nnn(w))
    } else if hi == 0xB {
        Instr::JumpPlus(field_nnn(w))
    } else if hi == 0xC {
        Instr::Random(field_x(w), field_nn(w))
    } else if hi == 0xD {
        Instr::Draw(field_x(w), field_y(w), field_n(w))
    } else if hi == 0xE && field_nn(w) == 0x9E {
        Instr::SkipKey(field_x(w))
    } else if hi == 0xE && field_nn(w) == 0xA1 {
        Instr::SkipNoKey(field_x(w))
    } else if hi == 0xF {
        if field_nn(w) == 0x07 {
            Instr::GetDelay(field_x(w))
        } else if field_nn(w) == 0x0A {
            Instr::WaitKey(field_x(w))
        } else if field_nn(w) == 0x15 {
            Instr::SetDelay(field_x(w))
        } else if field_nn(w) == 0x18 {
            Instr::SetSound(field_x(w))
        } else if field_nn(w) == 0x1E {
            Instr::AddIndex(field_x(w))
        } else if field_nn(w) == 0x29 {
            Instr::FontAddr(field_x(w))
        } else if field_nn(w) == 0x33 {
            Instr::StoreBcd(field_x(w))
        } else if field_nn(w) == 0x55 {
            Instr::StoreRegs(field_x(w))
        } else if field_nn(w) == 0x65 {
            Instr::LoadRegs(field_x(w))
        } else {
            Instr::Unknown(w)
        }
    } else {
        Instr::Unknown(w)
    }
}

/// Decode a 16-bit opcode word.
pub fn decode(w: u16) -> (ins: Instr)
    ensures
        ins == spec_decode(w),
{
    let hi = w >> 12;
    let x = ((w >> 8) & 0xF) as u8;
    let y = ((w >> 4) & 0xF) as u8;
    let n = (w & 0xF) as u8;
    let nn = (w & 0xFF) as u8;
    let nnn = w & 0xFFF;
    if w == 0x00E0 {
        Instr::ClearScreen
    } else if w == 0x00EE {
        Instr::Return
    } else if hi == 0x1 {
        Instr::Jump(nnn)
    } else if hi == 0x2 {
        Instr::Call(nnn)
    } else if hi == 0x3 {
        Instr::SkipEqImm(x, nn)
    } else if hi == 0x4 {
        Instr::SkipNeImm(x, nn)
    } else if hi == 0x5 && n == 0 {
        Instr::SkipEqReg(x, y)
    } else if hi == 0x6 {
        Instr::SetImm(x, nn)
    } else if hi == 0x7 {
        Instr::AddImm(x, nn)
    } else if hi == 0x8 {
        match n {
            0x0 => Instr::Assign(x, y),
            0x1 => Instr::Or(x, y),
            0x2 => Instr::And(x, y),
            0x3 => Instr::Xor(x, y),
            0x4 => Instr::AddReg(x, y),
            0x5 => Instr::SubReg(x, y),
            0x6 => Instr::Shr(x),
            0x7 => Instr::SubFrom(x, y),
            0xE => Instr::Shl(x),
            _ => Instr::Unknown(w),
        }
    } else if hi == 0x9 && n == 0 {
        Instr::SkipNeReg(x, y)
    } else if hi == 0xA {
        Instr::SetIndex(nnn)
    } else if hi == 0xB {
        Instr::JumpPlus(nnn)
    } else if hi == 0xC {
        Instr::Random(x, nn)
    } else if hi == 0xD {
        Instr::Draw(x, y, n)
    } else if hi == 0xE && nn == 0x9E {
        Instr::SkipKey(x)
    } else if hi == 0xE && nn == 0xA1 {
        Instr::SkipNoKey(x)
    } else if hi == 0xF {
        match nn {
            0x07 => Instr::GetDelay(x),
            0x0A => Instr::WaitKey(x),
            0x15 => Instr::SetDelay(x),
            0x18 => Instr::SetSound(x),
            0x1E => Instr::AddIndex(x),
            0x29 => Instr::FontAddr(x),
            0x33 => Instr::StoreBcd(x),
            0x55 => Instr::StoreRegs(x),
            0x65 => Instr::LoadRegs(x),
            _ => Instr::Unknown(w),
        }
    } else {
        Instr::Unknown(w)
    }
}

} // verus!
