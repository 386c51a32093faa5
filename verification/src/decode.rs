//! Opcode decoding: a 16-bit opcode is classified into one of the closed
//! set of operations below, each carrying its extracted operand fields.

use vstd::prelude::*;

verus! {

/// One decoded operation. Register operands `x` and `y` are nibbles
/// (0..=15), immediates `kk` are bytes, addresses are 12 bits, and a
/// sprite height `n` is a nibble.
#[derive(Debug, Clone, Copy, PartialEq, Eq, Structural)]
pub enum Instr {
    /// `0nnn` other than `00E0`/`00EE`: a call to a machine routine on the
    /// original hardware, kept as a no-op for backward compatibility.
    Sys,
    /// `00E0`: clear the display.
    Cls,
    /// `00EE`: return from the current call.
    Ret,
    /// `1nnn`: jump to address `nnn`.
    Jump(u16),
    /// `2nnn`: call the routine at address `nnn`.
    Call(u16),
    /// `3xkk`: skip the next instruction if `Vx == kk`.
    SkipEqByte(u8, u8),
    /// `4xkk`: skip the next instruction if `Vx != kk`.
    SkipNeByte(u8, u8),
    /// `5xy0`: skip the next instruction if `Vx == Vy`.
    SkipEqReg(u8, u8),
    /// `6xkk`: `Vx = kk`.
    LoadByte(u8, u8),
    /// `7xkk`: `Vx = Vx + kk`, wrapping, no flag side effect.
    AddByte(u8, u8),
    /// `8xy0`: `Vx = Vy`.
    MoveReg(u8, u8),
    /// `8xy1`: `Vx |= Vy`, then `VF = 0`.
    OrReg(u8, u8),
    /// `8xy2`: `Vx &= Vy`, then `VF = 0`.
    AndReg(u8, u8),
    /// `8xy3`: `Vx ^= Vy`, then `VF = 0`.
    XorReg(u8, u8),
    /// `8xy4`: `Vx = Vx + Vy` wrapping; `VF = 1` on carry.
    AddReg(u8, u8),
    /// `8xy5`: `Vx = Vx - Vy` wrapping; `VF = 1` when no borrow is needed.
    SubReg(u8, u8),
    /// `8xy6`: `Vx = Vy >> 1`; `VF` receives the bit shifted out.
    ShiftRight(u8, u8),
    /// `8xy7`: `Vx = Vy - Vx` wrapping; `VF = 1` when no borrow is needed.
    SubFrom(u8, u8),
    /// `8xyE`: `Vx = Vy << 1`; `VF` receives the bit shifted out.
    ShiftLeft(u8, u8),
    /// `9xy0`: skip the next instruction if `Vx != Vy`.
    SkipNeReg(u8, u8),
    /// `Annn`: `I = nnn`.
    LoadI(u16),
    /// `Bnnn`: jump to `nnn + V0`.
    JumpPlus(u16),
    /// `Cxkk`: `Vx = random byte & kk`.
    Random(u8, u8),
    /// `Dxyn`: draw the `n`-byte sprite at memory `I..` at (`Vx`, `Vy`);
    /// `VF = 1` if a pixel was erased.
    Draw(u8, u8, u8),
    /// `Ex9E`: skip the next instruction if key `Vx` is latched; the whole
    /// latch is cleared on a match.
    SkipKey(u8),
    /// `ExA1`: skip the next instruction if key `Vx` is not latched; the
    /// whole latch is cleared on a match.
    SkipNoKey(u8),
    /// `Fx07`: `Vx = delay timer`.
    ReadDelay(u8),
    /// `Fx0A`: wait for a key: with an empty latch, re-fetch this very
    /// instruction next cycle; else capture the lowest latched key into
    /// `Vx` and clear the latch.
    WaitKey(u8),
    /// `Fx15`: `delay timer = Vx`.
    SetDelay(u8),
    /// `Fx18`: `sound timer = Vx`.
    SetSound(u8),
    /// `Fx1E`: `I = I + Vx`, wrapping.
    AddI(u8),
    /// `Fx29`: `I =` address of the font sprite for the digit in `Vx`.
    FontAddr(u8),
    /// `Fx33`: write the decimal digits of `Vx` to memory at `I`, `I+1`,
    /// `I+2`.
    StoreBcd(u8),
    /// `Fx55`: copy `V0..=Vx` to memory at `I..`, leaving `I` past the
    /// block.
    StoreRegs(u8),
    /// `Fx65`: copy memory at `I..` into `V0..=Vx`, leaving `I` past the
    /// block.
    LoadRegs(u8),
}

/// What `decode` returns for each opcode: `None` exactly on the opcode
/// patterns that match no operation.
pub open spec fn spec_decode(op: u16) -> Option<Instr> {
    let x = ((op >> 8) & 0xF) as u8;
    let y = ((op >> 4) & 0xF) as u8;
    let n = (op & 0xF) as u8;
    let kk = (op & 0xFF) as u8;
    let nnn = op & 0xFFF;
    if op == 0x00E0 {
        Some(Instr::Cls)
    } else if op == 0x00EE {
        Some(Instr::Ret)
    } else if op & 0xF000 == 0x0000 {
        Some(Instr::Sys)
    } else if op & 0xF000 == 0x1000 {
        Some(Instr::Jump(nnn))
    } else if op & 0xF000 == 0x2000 {
        Some(Instr::Call(nnn))
    } else if op & 0xF000 == 0x3000 {
        Some(Instr::SkipEqByte(x, kk))
    } else if op & 0xF000 == 0x4000 {
        Some(Instr::SkipNeByte(x, kk))
    } else if op & 0xF000 == 0x5000 {
        if n == 0 {
            Some(Instr::SkipEqReg(x, y))
        } else {
            None
        }
    } else if op & 0xF000 == 0x6000 {
        Some(Instr::LoadByte(x, kk))
    } else if op & 0xF000 == 0x7000 {
        Some(Instr::AddByte(x, kk))
    } else if op & 0xF000 == 0x8000 {
        if n == 0x0 {
            Some(Instr::MoveReg(x, y))
        } else if n == 0x1 {
            Some(Instr::OrReg(x, y))
        } else if n == 0x2 {
            Some(Instr::AndReg(x, y))
        } else if n == 0x3 {
            Some(Instr::XorReg(x, y))
        } else if n == 0x4 {
            Some(Instr::AddReg(x, y))
        } else if n == 0x5 {
            Some(Instr::SubReg(x, y))
        } else if n == 0x6 {
            Some(Instr::ShiftRight(x, y))
        } else if n == 0x7 {
            Some(Instr::SubFrom(x, y))
        } else if n == 0xE {
            Some(Instr::ShiftLeft(x, y))
        } else {
            None
        }
    } else if op & 0xF000 == 0x9000 {
        if n == 0 {
            Some(Instr::SkipNeReg(x, y))
        } else {
            None
        }
    } else if op & 0xF000 == 0xA000 {
        Some(Instr::LoadI(nnn))
    } else if op & 0xF000 == 0xB000 {
        Some(Instr::JumpPlus(nnn))
    } else if op & 0xF000 == 0xC000 {
        Some(Instr::Random(x, kk))
    } else if op & 0xF000 == 0xD000 {
        Some(Instr::Draw(x, y, n))
    } else if op & 0xF000 == 0xE000 {
        if kk == 0x9E {
            Some(Instr::SkipKey(x))
        } else if kk == 0xA1 {
            Some(Instr::SkipNoKey(x))
        } else {
            None
        }
    } else if op & 0xF000 == 0xF000 {
        if kk == 0x07 {
            Some(Instr::ReadDelay(x))
        } else if kk == 0x0A {
            Some(Instr::WaitKey(x))
        } else if kk == 0x15 {
            Some(Instr::SetDelay(x))
        } else if kk == 0x18 {
            Some(Instr::SetSound(x))
        } else if kk == 0x1E {
            Some(Instr::AddI(x))
        } else if kk == 0x29 {
            Some(Instr::FontAddr(x))
        } else if kk == 0x33 {
            Some(Instr::StoreBcd(x))
        } else if kk == 0x55 {
            Some(Instr::StoreRegs(x))
        } else if kk == 0x65 {
            Some(Instr::LoadRegs(x))
        } else {
            None
        }
    } else {
        None
    }
}

/// Every operand a decoded operation carries is in range: register indices
/// and sprite heights are nibbles, addresses are 12 bits.
pub open spec fn instr_wf(instr: Instr) -> bool {
    match instr {
        Instr::Sys | Instr::Cls | Instr::Ret => true,
        Instr::Jump(a) | Instr::Call(a) | Instr::LoadI(a) | Instr::JumpPlus(a) => a < 4096,
        Instr::SkipEqByte(x, _) | Instr::SkipNeByte(x, _) | Instr::LoadByte(x, _)
            | Instr::AddByte(x, _) | Instr::Random(x, _) => x < 16,
        Instr::SkipEqReg(x, y) | Instr::SkipNeReg(x, y) | Instr::MoveReg(x, y)
            | Instr::OrReg(x, y) | Instr::AndReg(x, y) | Instr::XorReg(x, y)
            | Instr::AddReg(x, y) | Instr::SubReg(x, y) | Instr::ShiftRight(x, y)
            | Instr::SubFrom(x, y) | Instr::ShiftLeft(x, y) => x < 16 && y < 16,
        Instr::Draw(x, y, n) => x < 16 && y < 16 && n < 16,
        Instr::SkipKey(x) | Instr::SkipNoKey(x) | Instr::ReadDelay(x) | Instr::WaitKey(x)
            | Instr::SetDelay(x) | Instr::SetSound(x) | Instr::AddI(x) | Instr::FontAddr(x)
            | Instr::StoreBcd(x) | Instr::StoreRegs(x) | Instr::LoadRegs(x) => x < 16,
    }
}

/// The nibble and address fields extracted from an opcode are in range.
pub proof fn lemma_field_bounds(op: u16)
    by (bit_vector)
    ensures
        (op >> 8) & 0xF < 16,
        (op >> 4) & 0xF < 16,
        op & 0xF < 16,
        op & 0xFF < 256,
        op & 0xFFF < 4096,
{
}

/// Whatever `spec_decode` accepts carries operands in range.
pub proof fn lemma_decode_wf(op: u16)
    ensures
        spec_decode(op) matches Some(instr) ==> instr_wf(instr),
{
    lemma_field_bounds(op);
}

/// Classifies an opcode, returning its operation and operand fields, or
/// `None` for an opcode that matches no operation.
pub fn decode(op: u16) -> (r: Option<Instr>)
    ensures
        r == spec_decode(op),
{
    proof {
        lemma_field_bounds(op);
    }
    let x = ((op >> 8) & 0xF) as u8;
    let y = ((op >> 4) & 0xF) as u8;
    let n = (op & 0xF) as u8;
    let kk = (op & 0xFF) as u8;
    let nnn = op & 0xFFF;
    if op == 0x00E0 {
        Some(Instr::Cls)
    } else if op == 0x00EE {
        Some(Instr::Ret)
    } else if op & 0xF000 == 0x0000 {
        Some(Instr::Sys)
    } else if op & 0xF000 == 0x1000 {
        Some(Instr::Jump(nnn))
    } else if op & 0xF000 == 0x2000 {
        Some(Instr::Call(nnn))
    } else if op & 0xF000 == 0x3000 {
        Some(Instr::SkipEqByte(x, kk))
    } else if op & 0xF000 == 0x4000 {
        Some(Instr::SkipNeByte(x, kk))
    } else if op & 0xF000 == 0x5000 {
        if n == 0 {
            Some(Instr::SkipEqReg(x, y))
        } else {
            None
        }
    } else if op & 0xF000 == 0x6000 {
        Some(Instr::LoadByte(x, kk))
    } else if op & 0xF000 == 0x7000 {
        Some(Instr::AddByte(x, kk))
    } else if op & 0xF000 == 0x8000 {
        if n == 0x0 {
            Some(Instr::MoveReg(x, y))
        } else if n == 0x1 {
            Some(Instr::OrReg(x, y))
        } else if n == 0x2 {
            Some(Instr::AndReg(x, y))
        } else if n == 0x3 {
            Some(Instr::XorReg(x, y))
        } else if n == 0x4 {
            Some(Instr::AddReg(x, y))
        } else if n == 0x5 {
            Some(Instr::SubReg(x, y))
        } else if n == 0x6 {
            Some(Instr::ShiftRight(x, y))
        } else if n == 0x7 {
            Some(Instr::SubFrom(x, y))
        } else if n == 0xE {
            Some(Instr::ShiftLeft(x, y))
        } else {
            None
        }
    } else if op & 0xF000 == 0x9000 {
        if n == 0 {
            Some(Instr::SkipNeReg(x, y))
        } else {
            None
        }
    } else if op & 0xF000 == 0xA000 {
        Some(Instr::LoadI(nnn))
    } else if op & 0xF000 == 0xB000 {
        Some(Instr::JumpPlus(nnn))
    } else if op & 0xF000 == 0xC000 {
        Some(Instr::Random(x, kk))
    } else if op & 0xF000 == 0xD000 {
        Some(Instr::Draw(x, y, n))
    } else if op & 0xF000 == 0xE000 {
        if kk == 0x9E {
            Some(Instr::SkipKey(x))
        } else if kk == 0xA1 {
            Some(Instr::SkipNoKey(x))
        } else {
            None
        }
    } else if op & 0xF000 == 0xF000 {
        if kk == 0x07 {
            Some(Instr::ReadDelay(x))
        } else if kk == 0x0A {
            Some(Instr::WaitKey(x))
        } else if kk == 0x15 {
            Some(Instr::SetDelay(x))
        } else if kk == 0x18 {
            Some(Instr::SetSound(x))
        } else if kk == 0x1E {
            Some(Instr::AddI(x))
        } else if kk == 0x29 {
            Some(Instr::FontAddr(x))
        } else if kk == 0x33 {
            Some(Instr::StoreBcd(x))
        } else if kk == 0x55 {
            Some(Instr::StoreRegs(x))
        } else if kk == 0x65 {
            Some(Instr::LoadRegs(x))
        } else {
            None
        }
    } else {
        None
    }
}

} // verus!
