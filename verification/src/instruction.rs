//! The instruction set: the decoded form of an instruction word, what a word
//! decodes to, and the decoder.

use vstd::prelude::*;

verus! {

/// One decoded instruction.
///
/// `x` and `y` name registers, `kk` is an immediate byte, `addr` a twelve-bit
/// address and `n` a four-bit count. The comment on each variant gives the
/// shape of the words that decode to it.
#[derive(Clone, Copy, Debug, PartialEq, Eq, Structural)]
pub enum Instruction {
    /// `0000`: do nothing.
    Nop,
    /// `00E0`: switch every pixel off.
    ClearScreen,
    /// `00EE`: return from a subroutine.
    Return,
    /// `1NNN`: jump to `addr`.
    Jump { addr: u16 },
    /// `2NNN`: call the subroutine at `addr`.
    Call { addr: u16 },
    /// `3XKK`: skip the next instruction if `VX == kk`.
    SkipEqImm { x: u8, kk: u8 },
    /// `4XKK`: skip the next instruction if `VX != kk`.
    SkipNeImm { x: u8, kk: u8 },
    /// `5XY0`: skip the next instruction if `VX == VY`.
    SkipEqReg { x: u8, y: u8 },
    /// `6XKK`: `VX = kk`.
    LoadImm { x: u8, kk: u8 },
    /// `7XKK`: `VX += kk`, with the carry in `VF`.
    AddImm { x: u8, kk: u8 },
    /// `8XY0`: `VX = VY`.
    Move { x: u8, y: u8 },
    /// `8XY1`: `VX |= VY`.
    Or { x: u8, y: u8 },
    /// `8XY2`: `VX &= VY`.
    And { x: u8, y: u8 },
    /// `8XY3`: `VX ^= VY`.
    Xor { x: u8, y: u8 },
    /// `8XY4`: `VX += VY`, with the carry in `VF`.
    AddReg { x: u8, y: u8 },
    /// `8XY5`: `VX -= VY`, with "no borrow" in `VF`.
    SubReg { x: u8, y: u8 },
    /// `8XY6`: `VX >>= 1`, with the bit shifted out in `VF`.
    ShiftRight { x: u8 },
    /// `8XY7`: `VX = VY - VX`, with "no borrow" in `VF`.
    SubFrom { x: u8, y: u8 },
    /// `8XYE`: `VX <<= 1`, with the bit under mask `0x08` in `VF`.
    ShiftLeft { x: u8 },
    /// `9XY0`: skip the next instruction if `VX != VY`.
    SkipNeReg { x: u8, y: u8 },
    /// `ANNN`: `I = addr`.
    LoadIndex { addr: u16 },
    /// `BNNN`: jump to `V0 + addr`.
    JumpOffset { addr: u16 },
    /// `CXKK`: `VX = random byte & kk`.
    Random { x: u8, kk: u8 },
    /// `DXYN`: draw the `n`-row sprite at `I` at column `VX`, row `VY`.
    Draw { x: u8, y: u8, n: u8 },
    /// `EX9E`: skip the next instruction if the key `VX` is down.
    SkipKeyDown { x: u8 },
    /// `EXA1`: skip the next instruction if the key `VX` is up.
    SkipKeyUp { x: u8 },
    /// `FX07`: `VX = delay timer`.
    ReadDelay { x: u8 },
    /// `FX0A`: wait for a key and put its index in `VX`.
    WaitKey { x: u8 },
    /// `FX15`: `delay timer = VX`.
    SetDelay { x: u8 },
    /// `FX18`: `sound timer = VX`.
    SetSound { x: u8 },
    /// `FX1E`: `I += VX`.
    AddIndex { x: u8 },
    /// `FX29`: `I =` address of the glyph for the digit `VX`.
    FontAddr { x: u8 },
    /// `FX33`: store the decimal digits of `VX` at `I`, `I + 1`, `I + 2`.
    StoreBcd { x: u8 },
    /// `FX55`: store `V0..=VX` at `I` and the cells after it.
    StoreRegs { x: u8 },
    /// `FX65`: load `V0..=VX` from `I` and the cells after it.
    LoadRegs { x: u8 },
    /// Any other word: do nothing.
    Unknown,
}

impl Instruction {
    /// The operands are in the ranges that a sixteen-bit word can encode:
    /// register numbers and counts below 16, addresses below 4096.
    pub open spec fn well_formed(self) -> bool {
        match self {
            Instruction::Nop | Instruction::ClearScreen | Instruction::Return | Instruction::Unknown => true,
            Instruction::Jump { addr }
            | Instruction::Call { addr }
            | Instruction::LoadIndex { addr }
            | Instruction::JumpOffset { addr } => addr < 0x1000,
            Instruction::SkipEqImm { x, kk }
            | Instruction::SkipNeImm { x, kk }
            | Instruction::LoadImm { x, kk }
            | Instruction::AddImm { x, kk }
            | Instruction::Random { x, kk } => x < 16,
            Instruction::SkipEqReg { x, y }
            | Instruction::Move { x, y }
            | Instruction::Or { x, y }
            | Instruction::And { x, y }
            | Instruction::Xor { x, y }
            | Instruction::AddReg { x, y }
            | Instruction::SubReg { x, y }
            | Instruction::SubFrom { x, y }
            | Instruction::SkipNeReg { x, y } => x < 16 && y < 16,
            Instruction::Draw { x, y, n } => x < 16 && y < 16 && n < 16,
            Instruction::ShiftRight { x }
            | Instruction::ShiftLeft { x }
            | Instruction::SkipKeyDown { x }
            | Instruction::SkipKeyUp { x }
            | Instruction::ReadDelay { x }
            | Instruction::WaitKey { x }
            | Instruction::SetDelay { x }
            | Instruction::SetSound { x }
            | Instruction::AddIndex { x }
            | Instruction::FontAddr { x }
            | Instruction::StoreBcd { x }
            | Instruction::StoreRegs { x }
            | Instruction::LoadRegs { x } => x < 16,
        }
    }
}

/// The opcode of `word`: its highest four bits.
pub open spec fn opcode_of(word: u16) -> int {
    word as int / 0x1000
}

/// The `X` operand of `word`: the second of its four-bit fields.
pub open spec fn x_of(word: u16) -> u8 {
    ((word as int / 0x100) % 16) as u8
}

/// The `Y` operand of `word`: the third of its four-bit fields.
pub open spec fn y_of(word: u16) -> u8 {
    ((word as int / 0x10) % 16) as u8
}

/// The `N` operand of `word`: its lowest four bits.
pub open spec fn n_of(word: u16) -> u8 {
    (word as int % 16) as u8
}

/// The `KK` operand of `word`: its low byte.
pub open spec fn kk_of(word: u16) -> u8 {
    (word as int % 0x100) as u8
}

/// The `NNN` operand of `word`: its lowest twelve bits.
pub open spec fn addr_of(word: u16) -> u16 {
    (word as int % 0x1000) as u16
}

/// The instruction that `word` encodes.
pub open spec fn decode_spec(word: u16) -> Instruction {
    let op = opcode_of(word);
    let x = x_of(word);
    let y = y_of(word);
    let n = n_of(word);
    let kk = kk_of(word);
    let addr = addr_of(word);
    if op == 0x0 {
        if word == 0x0000 {
            Instruction::Nop
        } else if word == 0x00E0 {
            Instruction::ClearScreen
        } else if word == 0x00EE {
            Instruction::Return
        } else {
            Instruction::Unknown
        }
    } else if op == 0x1 {
        Instruction::Jump { addr }
    } else if op == 0x2 {
        Instruction::Call { addr }
    } else if op == 0x3 {
        Instruction::SkipEqImm { x, kk }
    } else if op == 0x4 {
        Instruction::SkipNeImm { x, kk }
    } else if op == 0x5 {
        if n == 0 {
            Instruction::SkipEqReg { x, y }
        } else {
            Instruction::Unknown
        }
    } else if op == 0x6 {
        Instruction::LoadImm { x, kk }
    } else if op == 0x7 {
        Instruction::AddImm { x, kk }
    } else if op == 0x8 {
        if n == 0x0 {
            Instruction::Move { x, y }
        } else if n == 0x1 {
            Instruction::Or { x, y }
        } else if n == 0x2 {
            Instruction::And { x, y }
        } else if n == 0x3 {
            Instruction::Xor { x, y }
        } else if n == 0x4 {
            Instruction::AddReg { x, y }
        } else if n == 0x5 {
            Instruction::SubReg { x, y }
        } else if n == 0x6 {
            Instruction::ShiftRight { x }
        } else if n == 0x7 {
            Instruction::SubFrom { x, y }
        } else if n == 0xE {
            Instruction::ShiftLeft { x }
        } else {
            Instruction::Unknown
        }
    } else if op == 0x9 {
        if n == 0 {
            Instruction::SkipNeReg { x, y }
        } else {
            Instruction::Unknown
        }
    } else if op == 0xA {
        Instruction::LoadIndex { addr }
    } else if op == 0xB {
        Instruction::JumpOffset { addr }
    } else if op == 0xC {
        Instruction::Random { x, kk }
    } else if op == 0xD {
        Instruction::Draw { x, y, n }
    } else if op == 0xE {
        if kk == 0x9E {
            Instruction::SkipKeyDown { x }
        } else if kk == 0xA1 {
            Instruction::SkipKeyUp { x }
        } else {
            Instruction::Unknown
        }
    } else {
        if kk == 0x07 {
            Instruction::ReadDelay { x }
        } else if kk == 0x0A {
            Instruction::WaitKey { x }
        } else if kk == 0x15 {
            Instruction::SetDelay { x }
        } else if kk == 0x18 {
            Instruction::SetSound { x }
        } else if kk == 0x1E {
            Instruction::AddIndex { x }
        } else if kk == 0x29 {
            Instruction::FontAddr { x }
        } else if kk == 0x33 {
            Instruction::StoreBcd { x }
        } else if kk == 0x55 {
            Instruction::StoreRegs { x }
        } else if kk == 0x65 {
            Instruction::LoadRegs { x }
        } else {
            Instruction::Unknown
        }
    }
}

/// Whether `word` has the shape of one of the instructions of the machine.
pub open spec fn has_opcode_pattern(word: u16) -> bool {
    let op = opcode_of(word);
    let n = n_of(word);
    let kk = kk_of(word);
    ||| word == 0x0000
    ||| word == 0x00E0
    ||| word == 0x00EE
    ||| op == 0x1
    ||| op == 0x2
    ||| op == 0x3
    ||| op == 0x4
    ||| (op == 0x5 && n == 0)
    ||| op == 0x6
    ||| op == 0x7
    ||| (op == 0x8 && (n <= 0x7 || n == 0xE))
    ||| (op == 0x9 && n == 0)
    ||| op == 0xA
    ||| op == 0xB
    ||| op == 0xC
    ||| op == 0xD
    ||| (op == 0xE && (kk == 0x9E || kk == 0xA1))
    ||| (op == 0xF && (kk == 0x07 || kk == 0x0A || kk == 0x15 || kk == 0x18 || kk == 0x1E || kk
        == 0x29 || kk == 0x33 || kk == 0x55 || kk == 0x65))
}

/// The words that decode to `Unknown` are those that have the shape of no
/// instruction.
pub proof fn lemma_unknown_iff_no_pattern(word: u16)
    ensures
        decode_spec(word) is Unknown <==> !has_opcode_pattern(word),
{
}

/// Every word decodes to an instruction whose operands are in range.
pub proof fn lemma_decode_well_formed(word: u16)
    ensures
        decode_spec(word).well_formed(),
{
}

/// The four-bit fields of a word, as masks and shifts compute them, are its
/// opcode and operands.
proof fn lemma_fields(word: u16)
    ensures
        ((word & 0xF000) >> 12) as int == opcode_of(word),
        ((word & 0x0F00) >> 8) as u8 == x_of(word),
        ((word & 0x00F0) >> 4) as u8 == y_of(word),
        (word & 0x000F) as u8 == n_of(word),
        (word & 0x00FF) as u8 == kk_of(word),
        word & 0x0FFF == addr_of(word),
        ((word & 0x0F00) >> 8) < 16,
        ((word & 0x00F0) >> 4) < 16,
        (word & 0x000F) < 16,
        ((word & 0xF000) >> 12) < 16,
        (word & 0x00FF) < 256,
{
    assert(((word & 0xF000) >> 12) == word / 0x1000) by (bit_vector);
    assert(((word & 0x0F00) >> 8) == (word / 0x100) % 16) by (bit_vector);
    assert(((word & 0x00F0) >> 4) == (word / 0x10) % 16) by (bit_vector);
    assert((word & 0x000F) == word % 16) by (bit_vector);
    assert((word & 0x00FF) == word % 0x100) by (bit_vector);
    assert((word & 0x0FFF) == word % 0x1000) by (bit_vector);
}

/// Decodes one instruction word.
pub fn decode(word: u16) -> (ins: Instruction)
    ensures
        ins == decode_spec(word),
{
    proof {
        lemma_fields(word);
    }
    let d3: u16 = (word & 0xF000) >> 12;
    let d2: u16 = (word & 0x0F00) >> 8;
    let d1: u16 = (word & 0x00F0) >> 4;
    let d0: u16 = word & 0x000F;
    let x: u8 = d2 as u8;
    let y: u8 = d1 as u8;
    let n: u8 = d0 as u8;
    let kk: u8 = (word & 0x00FF) as u8;
    let addr: u16 = word & 0x0FFF;
    match (d3, d2, d1, d0) {
        (0x0, 0x0, 0x0, 0x0) => Instruction::Nop,
        (0x0, 0x0, 0xE, 0x0) => Instruction::ClearScreen,
        (0x0, 0x0, 0xE, 0xE) => Instruction::Return,
        (0x1, _, _, _) => Instruction::Jump { addr },
        (0x2, _, _, _) => Instruction::Call { addr },
        (0x3, _, _, _) => Instruction::SkipEqImm { x, kk },
        (0x4, _, _, _) => Instruction::SkipNeImm { x, kk },
        (0x5, _, _, 0x0) => Instruction::SkipEqReg { x, y },
        (0x6, _, _, _) => Instruction::LoadImm { x, kk },
        (0x7, _, _, _) => Instruction::AddImm { x, kk },
        (0x8, _, _, 0x0) => Instruction::Move { x, y },
        (0x8, _, _, 0x1) => Instruction::Or { x, y },
        (0x8, _, _, 0x2) => Instruction::And { x, y },
        (0x8, _, _, 0x3) => Instruction::Xor { x, y },
        (0x8, _, _, 0x4) => Instruction::AddReg { x, y },
        (0x8, _, _, 0x5) => Instruction::SubReg { x, y },
        (0x8, _, _, 0x6) => Instruction::ShiftRight { x },
        (0x8, _, _, 0x7) => Instruction::SubFrom { x, y },
        (0x8, _, _, 0xE) => Instruction::ShiftLeft { x },
        (0x9, _, _, 0x0) => Instruction::SkipNeReg { x, y },
        (0xA, _, _, _) => Instruction::LoadIndex { addr },
        (0xB, _, _, _) => Instruction::JumpOffset { addr },
        (0xC, _, _, _) => Instruction::Random { x, kk },
        (0xD, _, _, _) => Instruction::Draw { x, y, n },
        (0xE, _, 0x9, 0xE) => Instruction::SkipKeyDown { x },
        (0xE, _, 0xA, 0x1) => Instruction::SkipKeyUp { x },
        (0xF, _, 0x0, 0x7) => Instruction::ReadDelay { x },
        (0xF, _, 0x0, 0xA) => Instruction::WaitKey { x },
        (0xF, _, 0x1, 0x5) => Instruction::SetDelay { x },
        (0xF, _, 0x1, 0x8) => Instruction::SetSound { x },
        (0xF, _, 0x1, 0xE) => Instruction::AddIndex { x },
        (0xF, _, 0x2, 0x9) => Instruction::FontAddr { x },
        (0xF, _, 0x3, 0x3) => Instruction::StoreBcd { x },
        (0xF, _, 0x5, 0x5) => Instruction::StoreRegs { x },
        (0xF, _, 0x6, 0x5) => Instruction::LoadRegs { x },
        (_, _, _, _) => Instruction::Unknown,
    }
}

} // verus!
