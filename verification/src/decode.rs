//! Decoding of the 16-bit instruction word into a tagged instruction.
//!
//! The word is split into four 4-bit fields; the first selects the
//! instruction family and the remaining ones carry register indices or an
//! immediate.  Families that share a leading nibble (0x0, 0x8, 0xE, 0xF) are
//! told apart by their trailing nibbles.  A word that matches no pattern
//! decodes to `None` and is a fatal condition for the engine.

use vstd::prelude::*;

verus! {

/// One decoded instruction.  `x` and `y` are register indices (always below
/// 16), `nn` an 8-bit immediate, `nnn` a 12-bit address or immediate, and `n`
/// a 4-bit row count.
#[derive(Clone, Copy, Debug, PartialEq, Eq, Structural)]
pub enum Instr {
    /// 0000: do nothing.
    Nop,
    /// 00E0: clear the screen.
    ClearScreen,
    /// 00EE: return from a subroutine.
    Return,
    /// 1NNN: jump to NNN.
    Jump { nnn: u16 },
    /// 2NNN: call the subroutine at NNN.
    Call { nnn: u16 },
    /// 3XNN: skip the next instruction if VX == NN.
    SkipEqImm { x: u16, nn: u8 },
    /// 4XNN: skip the next instruction if VX != NN.
    SkipNeImm { x: u16, nn: u8 },
    /// 5XY0: skip the next instruction if VX == VY.
    SkipEqReg { x: u16, y: u16 },
    /// 6XNN: VX = NN.
    SetImm { x: u16, nn: u8 },
    /// 7XNN: VX += NN, wrapping, flags untouched.
    AddImm { x: u16, nn: u8 },
    /// 8XY0: VX = VY.
    Assign { x: u16, y: u16 },
    /// 8XY1: VX |= VY.
    Or { x: u16, y: u16 },
    /// 8XY2: VX &= VY.
    And { x: u16, y: u16 },
    /// 8XY3: VX ^= VY.
    Xor { x: u16, y: u16 },
    /// 8XY4: VX += VY; VF reports the carry.
    AddReg { x: u16, y: u16 },
    /// 8XY5: VX -= VY; VF is 1 exactly when no borrow occurred.
    SubReg { x: u16, y: u16 },
    /// 8XY6: VX >>= 1; VF receives the bit shifted out.
    ShiftRight { x: u16 },
    /// 8XY7: VY = VX - VY; VF is 1 exactly when no borrow occurred.
    SubFrom { x: u16, y: u16 },
    /// 8XYE: VX <<= 1; VF receives the bit shifted out.
    ShiftLeft { x: u16 },
    /// 9XY0: skip the next instruction if VX != VY.
    SkipNeReg { x: u16, y: u16 },
    /// ANNN: I = NNN.
    SetIndex { nnn: u16 },
    /// BNNN: jump to V0 + NNN.
    JumpOffset { nnn: u16 },
    /// CXNN: VX = random byte AND NN.
    RandMask { x: u16, nn: u8 },
    /// DXYN: draw the N-row sprite at I to (VX, VY); VF reports collision.
    Draw { x: u16, y: u16, n: u16 },
    /// EX9E: skip the next instruction if the key in VX is pressed.
    SkipKeyPressed { x: u16 },
    /// EXA1: skip the next instruction if the key in VX is not pressed.
    SkipKeyNotPressed { x: u16 },
    /// FX07: VX = delay timer.
    ReadDelay { x: u16 },
    /// FX0A: block until a key is pressed; VX receives its index.
    WaitKey { x: u16 },
    /// FX15: delay timer = VX.
    SetDelay { x: u16 },
    /// FX18: sound timer = VX.
    SetSound { x: u16 },
    /// FX1E: I += VX, wrapping.
    AddIndex { x: u16 },
    /// FX29: I = address of the font glyph for the low nibble of VX.
    FontAddr { x: u16 },
    /// FX33: write the decimal digits of VX to memory at I, I+1, I+2.
    StoreBcd { x: u16 },
    /// FX55: copy V0..=VX into memory starting at I.
    StoreRegs { x: u16 },
    /// FX66: copy memory starting at I into V0..=VX.
    LoadRegs { x: u16 },
}

/// The first (highest) nibble of an instruction word.
pub open spec fn nib1(op: u16) -> u16 {
    (op / 0x1000) as u16
}

/// The second nibble of an instruction word.
pub open spec fn nib2(op: u16) -> u16 {
    ((op / 0x100) % 0x10) as u16
}

/// The third nibble of an instruction word.
pub open spec fn nib3(op: u16) -> u16 {
    ((op / 0x10) % 0x10) as u16
}

/// The fourth (lowest) nibble of an instruction word.
pub open spec fn nib4(op: u16) -> u16 {
    (op % 0x10) as u16
}

/// The low 12 bits of an instruction word.
pub open spec fn imm12(op: u16) -> u16 {
    (op % 0x1000) as u16
}

/// The low 8 bits of an instruction word.
pub open spec fn imm8(op: u16) -> u8 {
    (op % 0x100) as u8
}

/// Every register index below 16, every address below 4096, every row count
/// below 16: what decoding guarantees of the fields it emits.
pub open spec fn instr_wf(i: Instr) -> bool {
    match i {
        Instr::Nop => true,
        Instr::ClearScreen => true,
        Instr::Return => true,
        Instr::Jump { nnn } => nnn < 0x1000,
        Instr::Call { nnn } => nnn < 0x1000,
        Instr::SkipEqImm { x, nn } => x < 16,
        Instr::SkipNeImm { x, nn } => x < 16,
        Instr::SkipEqReg { x, y } => x < 16 && y < 16,
        Instr::SetImm { x, nn } => x < 16,
        Instr::AddImm { x, nn } => x < 16,
        Instr::Assign { x, y } => x < 16 && y < 16,
        Instr::Or { x, y } => x < 16 && y < 16,
        Instr::And { x, y } => x < 16 && y < 16,
        Instr::Xor { x, y } => x < 16 && y < 16,
        Instr::AddReg { x, y } => x < 16 && y < 16,
        Instr::SubReg { x, y } => x < 16 && y < 16,
        Instr::ShiftRight { x } => x < 16,
        Instr::SubFrom { x, y } => x < 16 && y < 16,
        Instr::ShiftLeft { x } => x < 16,
        Instr::SkipNeReg { x, y } => x < 16 && y < 16,
        Instr::SetIndex { nnn } => nnn < 0x1000,
        Instr::JumpOffset { nnn } => nnn < 0x1000,
        Instr::RandMask { x, nn } => x < 16,
        Instr::Draw { x, y, n } => x < 16 && y < 16 && n < 16,
        Instr::SkipKeyPressed { x } => x < 16,
        Instr::SkipKeyNotPressed { x } => x < 16,
        Instr::ReadDelay { x } => x < 16,
        Instr::WaitKey { x } => x < 16,
        Instr::SetDelay { x } => x < 16,
        Instr::SetSound { x } => x < 16,
        Instr::AddIndex { x } => x < 16,
        Instr::FontAddr { x } => x < 16,
        Instr::StoreBcd { x } => x < 16,
        Instr::StoreRegs { x } => x < 16,
        Instr::LoadRegs { x } => x < 16,
    }
}

/// The meaning of an instruction word, if it has one.
pub open spec fn spec_decode(op: u16) -> Option<Instr> {
    if op == 0x0000 {
        Some(Instr::Nop)
    } else if op == 0x00E0 {
        Some(Instr::ClearScreen)
    } else if op == 0x00EE {
        Some(Instr::Return)
    } else if nib1(op) == 0x1 {
        Some(Instr::Jump { nnn: imm12(op) })
    } else if nib1(op) == 0x2 {
        Some(Instr::Call { nnn: imm12(op) })
    } else if nib1(op) == 0x3 {
        Some(Instr::SkipEqImm { x: nib2(op), nn: imm8(op) })
    } else if nib1(op) == 0x4 {
        Some(Instr::SkipNeImm { x: nib2(op), nn: imm8(op) })
    } else if nib1(op) == 0x5 && nib4(op) == 0x0 {
        Some(Instr::SkipEqReg { x: nib2(op), y: nib3(op) })
    } else if nib1(op) == 0x6 {
        Some(Instr::SetImm { x: nib2(op), nn: imm8(op) })
    } else if nib1(op) == 0x7 {
        Some(Instr::AddImm { x: nib2(op), nn: imm8(op) })
    } else if nib1(op) == 0x8 && nib4(op) == 0x0 {
        Some(Instr::Assign { x: nib2(op), y: nib3(op) })
    } else if nib1(op) == 0x8 && nib4(op) == 0x1 {
        Some(Instr::Or { x: nib2(op), y: nib3(op) })
    } else if nib1(op) == 0x8 && nib4(op) == 0x2 {
        Some(Instr::And { x: nib2(op), y: nib3(op) })
    } else if nib1(op) == 0x8 && nib4(op) == 0x3 {
        Some(Instr::Xor { x: nib2(op), y: nib3(op) })
    } else if nib1(op) == 0x8 && nib4(op) == 0x4 {
        Some(Instr::AddReg { x: nib2(op), y: nib3(op) })
    } else if nib1(op) == 0x8 && nib4(op) == 0x5 {
        Some(Instr::SubReg { x: nib2(op), y: nib3(op) })
    } else if nib1(op) == 0x8 && nib4(op) == 0x6 {
        Some(Instr::ShiftRight { x: nib2(op) })
    } else if nib1(op) == 0x8 && nib4(op) == 0x7 {
        Some(Instr::SubFrom { x: nib2(op), y: nib3(op) })
    } else if nib1(op) == 0x8 && nib4(op) == 0xE {
        Some(Instr::ShiftLeft { x: nib2(op) })
    } else if nib1(op) == 0x9 && nib4(op) == 0x0 {
        Some(Instr::SkipNeReg { x: nib2(op), y: nib3(op) })
    } else if nib1(op) == 0xA {
        Some(Instr::SetIndex { nnn: imm12(op) })
    } else if nib1(op) == 0xB {
        Some(Instr::JumpOffset { nnn: imm12(op) })
    } else if nib1(op) == 0xC {
        Some(Instr::RandMask { x: nib2(op), nn: imm8(op) })
    } else if nib1(op) == 0xD {
        Some(Instr::Draw { x: nib2(op), y: nib3(op), n: nib4(op) })
    } else if nib1(op) == 0xE && nib3(op) == 0x9 && nib4(op) == 0xE {
        Some(Instr::SkipKeyPressed { x: nib2(op) })
    } else if nib1(op) == 0xE && nib3(op) == 0xA && nib4(op) == 0x1 {
        Some(Instr::SkipKeyNotPressed { x: nib2(op) })
    } else if nib1(op) == 0xF && nib3(op) == 0x0 && nib4(op) == 0x7 {
        Some(Instr::ReadDelay { x: nib2(op) })
    } else if nib1(op) == 0xF && nib3(op) == 0x0 && nib4(op) == 0xA {
        Some(Instr::WaitKey { x: nib2(op) })
    } else if nib1(op) == 0xF && nib3(op) == 0x1 && nib4(op) == 0x5 {
        Some(Instr::SetDelay { x: nib2(op) })
    } else if nib1(op) == 0xF && nib3(op) == 0x1 && nib4(op) == 0x8 {
        Some(Instr::SetSound { x: nib2(op) })
    } else if nib1(op) == 0xF && nib3(op) == 0x1 && nib4(op) == 0xE {
        Some(Instr::AddIndex { x: nib2(op) })
    } else if nib1(op) == 0xF && nib3(op) == 0x2 && nib4(op) == 0x9 {
        Some(Instr::FontAddr { x: nib2(op) })
    } else if nib1(op) == 0xF && nib3(op) == 0x3 && nib4(op) == 0x3 {
        Some(Instr::StoreBcd { x: nib2(op) })
    } else if nib1(op) == 0xF && nib3(op) == 0x5 && nib4(op) == 0x5 {
        Some(Instr::StoreRegs { x: nib2(op) })
    } else if nib1(op) == 0xF && nib3(op) == 0x6 && nib4(op) == 0x6 {
        Some(Instr::LoadRegs { x: nib2(op) })
    } else {
        None
    }
}

/// Split an instruction word into its four nibble fields and name the
/// instruction they select, or `None` for an unrecognized pattern.
pub fn decode(op: u16) -> (r: Option<Instr>)
    ensures
        r == spec_decode(op),
        match r {
            Some(i) => instr_wf(i),
            None => true,
        },
{
    let first: u16 = op / 0x1000;
    let x: u16 = (op / 0x100) % 0x10;
    let third: u16 = (op / 0x10) % 0x10;
    let fourth: u16 = op % 0x10;
    let nnn: u16 = op % 0x1000;
    let nn: u8 = (op % 0x100) as u8;
    match first {
        0x0 => {
            if op == 0x0000 {
                Some(Instr::Nop)
            } else if op == 0x00E0 {
                Some(Instr::ClearScreen)
            } else if op == 0x00EE {
                Some(Instr::Return)
            } else {
                None
            }
        },
        0x1 => Some(Instr::Jump { nnn }),
        0x2 => Some(Instr::Call { nnn }),
        0x3 => Some(Instr::SkipEqImm { x, nn }),
        0x4 => Some(Instr::SkipNeImm { x, nn }),
        0x5 => {
            if fourth == 0x0 {
                Some(Instr::SkipEqReg { x, y: third })
            } else {
                None
            }
        },
        0x6 => Some(Instr::SetImm { x, nn }),
        0x7 => Some(Instr::AddImm { x, nn }),
        0x8 => {
            match fourth {
                0x0 => Some(Instr::Assign { x, y: third }),
                0x1 => Some(Instr::Or { x, y: third }),
                0x2 => Some(Instr::And { x, y: third }),
                0x3 => Some(Instr::Xor { x, y: third }),
                0x4 => Some(Instr::AddReg { x, y: third }),
                0x5 => Some(Instr::SubReg { x, y: third }),
                0x6 => Some(Instr::ShiftRight { x }),
                0x7 => Some(Instr::SubFrom { x, y: third }),
                0xE => Some(Instr::ShiftLeft { x }),
                _ => None,
            }
        },
        0x9 => {
            if fourth == 0x0 {
                Some(Instr::SkipNeReg { x, y: third })
            } else {
                None
            }
        },
        0xA => Some(Instr::SetIndex { nnn }),
        0xB => Some(Instr::JumpOffset { nnn }),
        0xC => Some(Instr::RandMask { x, nn }),
        0xD => Some(Instr::Draw { x, y: third, n: fourth }),
        0xE => {
            if third == 0x9 && fourth == 0xE {
                Some(Instr::SkipKeyPressed { x })
            } else if third == 0xA && fourth == 0x1 {
                Some(Instr::SkipKeyNotPressed { x })
            } else {
                None
            }
        },
        0xF => {
            match (third, fourth) {
                (0x0, 0x7) => Some(Instr::ReadDelay { x }),
                (0x0, 0xA) => Some(Instr::WaitKey { x }),
                (0x1, 0x5) => Some(Instr::SetDelay { x }),
                (0x1, 0x8) => Some(Instr::SetSound { x }),
                (0x1, 0xE) => Some(Instr::AddIndex { x }),
                (0x2, 0x9) => Some(Instr::FontAddr { x }),
                (0x3, 0x3) => Some(Instr::StoreBcd { x }),
                (0x5, 0x5) => Some(Instr::StoreRegs { x }),
                (0x6, 0x6) => Some(Instr::LoadRegs { x }),
                _ => None,
            }
        },
        _ => None,
    }
}

} // verus!
