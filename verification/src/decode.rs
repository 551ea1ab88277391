//! Classification of a 16-bit opcode by its four nibbles into a closed
//! instruction set, and the fatal conditions of the machine.

use vstd::prelude::*;

verus! {

/// The unrecoverable violations of the machine's invariants: stack misuse,
/// an opcode matching no known pattern, and a memory-indexed operation
/// reaching outside the 4096-byte space.
#[derive(Clone, Copy, Debug, PartialEq, Eq, Structural)]
pub enum ChipError {
    StackOverflow,
    StackUnderflow,
    UnknownOpcode(u16),
    MemoryOutOfBounds,
}

/// One row of the opcode table: a closed tagged variant per pattern, with
/// the operand nibbles decoded out. `x` and `y` name registers, `kk` is the
/// low byte, `nnn` the low twelve bits, `n` the low nibble.
#[derive(Clone, Copy, Debug, PartialEq, Eq, Structural)]
pub enum Instruction {
    /// 0000
    Nop,
    /// 00E0
    ClearScreen,
    /// 00EE
    ReturnSub,
    /// 1nnn
    Jump(u16),
    /// 2nnn
    Call(u16),
    /// 3xkk
    SkipEqImm(u8, u8),
    /// 4xkk
    SkipNeImm(u8, u8),
    /// 5xy0
    SkipEqReg(u8, u8),
    /// 6xkk
    SetImm(u8, u8),
    /// 7xkk
    AddImm(u8, u8),
    /// 8xy0
    CopyReg(u8, u8),
    /// 8xy1
    OrReg(u8, u8),
    /// 8xy2
    AndReg(u8, u8),
    /// 8xy3
    XorReg(u8, u8),
    /// 8xy4
    AddReg(u8, u8),
    /// 8xy5
    SubReg(u8, u8),
    /// 8xy6
    ShiftRight(u8),
    /// 8xy7
    SubFrom(u8, u8),
    /// 8xyE
    ShiftLeft(u8),
    /// 9xy0
    SkipNeReg(u8, u8),
    /// Annn
    SetIndex(u16),
    /// Bnnn
    JumpPlusV0(u16),
    /// Cxkk
    RandomMask(u8, u8),
    /// Dxyn
    Draw(u8, u8, u8),
    /// Ex9E
    SkipKeyPressed(u8),
    /// ExA1
    SkipKeyNotPressed(u8),
    /// Fx07
    ReadDelay(u8),
    /// Fx0A
    WaitKey(u8),
    /// Fx15
    SetDelay(u8),
    /// Fx18
    SetSound(u8),
    /// Fx1E
    AddIndex(u8),
    /// Fx29
    FontIndex(u8),
    /// Fx33
    StoreDigits(u8),
    /// Fx55
    StoreRegs(u8),
    /// Fx65
    LoadRegs(u8),
}

/// Register operands are nibbles, addresses are twelve bits, the sprite
/// height is a nibble.
pub open spec fn instr_wf(i: Instruction) -> bool {
    match i {
        Instruction::Nop => true,
        Instruction::ClearScreen => true,
        Instruction::ReturnSub => true,
        Instruction::Jump(nnn) => nnn < 4096,
        Instruction::Call(nnn) => nnn < 4096,
        Instruction::SkipEqImm(x, kk) => x < 16,
        Instruction::SkipNeImm(x, kk) => x < 16,
        Instruction::SkipEqReg(x, y) => x < 16 && y < 16,
        Instruction::SetImm(x, kk) => x < 16,
        Instruction::AddImm(x, kk) => x < 16,
        Instruction::CopyReg(x, y) => x < 16 && y < 16,
        Instruction::OrReg(x, y) => x < 16 && y < 16,
        Instruction::AndReg(x, y) => x < 16 && y < 16,
        Instruction::XorReg(x, y) => x < 16 && y < 16,
        Instruction::AddReg(x, y) => x < 16 && y < 16,
        Instruction::SubReg(x, y) => x < 16 && y < 16,
        Instruction::ShiftRight(x) => x < 16,
        Instruction::SubFrom(x, y) => x < 16 && y < 16,
        Instruction::ShiftLeft(x) => x < 16,
        Instruction::SkipNeReg(x, y) => x < 16 && y < 16,
        Instruction::SetIndex(nnn) => nnn < 4096,
        Instruction::JumpPlusV0(nnn) => nnn < 4096,
        Instruction::RandomMask(x, kk) => x < 16,
        Instruction::Draw(x, y, n) => x < 16 && y < 16 && n < 16,
        Instruction::SkipKeyPressed(x) => x < 16,
        Instruction::SkipKeyNotPressed(x) => x < 16,
        Instruction::ReadDelay(x) => x < 16,
        Instruction::WaitKey(x) => x < 16,
        Instruction::SetDelay(x) => x < 16,
        Instruction::SetSound(x) => x < 16,
        Instruction::AddIndex(x) => x < 16,
        Instruction::FontIndex(x) => x < 16,
        Instruction::StoreDigits(x) => x < 16,
        Instruction::StoreRegs(x) => x < 16,
        Instruction::LoadRegs(x) => x < 16,
    }
}

/// How an opcode splits into its four nibbles and operand fields, and which
/// row of the table it matches; `None` is the fatal unrecognized pattern.
pub open spec fn spec_decode(op: u16) -> Option<Instruction> {
    let d1 = (op >> 12) & 0xF;
    let d2 = ((op >> 8) & 0xF) as u8;
    let d3 = ((op >> 4) & 0xF) as u8;
    let d4 = op & 0xF;
    let nnn = op & 0xFFF;
    let kk = (op & 0xFF) as u8;
    if op == 0x0000 {
        Some(Instruction::Nop)
    } else if op == 0x00E0 {
        Some(Instruction::ClearScreen)
    } else if op == 0x00EE {
        Some(Instruction::ReturnSub)
    } else if d1 == 0x1 {
        Some(Instruction::Jump(nnn))
    } else if d1 == 0x2 {
        Some(Instruction::Call(nnn))
    } else if d1 == 0x3 {
        Some(Instruction::SkipEqImm(d2, kk))
    } else if d1 == 0x4 {
        Some(Instruction::SkipNeImm(d2, kk))
    } else if d1 == 0x5 && d4 == 0x0 {
        Some(Instruction::SkipEqReg(d2, d3))
    } else if d1 == 0x6 {
        Some(Instruction::SetImm(d2, kk))
    } else if d1 == 0x7 {
        Some(Instruction::AddImm(d2, kk))
    } else if d1 == 0x8 && d4 == 0x0 {
        Some(Instruction::CopyReg(d2, d3))
    } else if d1 == 0x8 && d4 == 0x1 {
        Some(Instruction::OrReg(d2, d3))
    } else if d1 == 0x8 && d4 == 0x2 {
        Some(Instruction::AndReg(d2, d3))
    } else if d1 == 0x8 && d4 == 0x3 {
        Some(Instruction::XorReg(d2, d3))
    } else if d1 == 0x8 && d4 == 0x4 {
        Some(Instruction::AddReg(d2, d3))
    } else if d1 == 0x8 && d4 == 0x5 {
        Some(Instruction::SubReg(d2, d3))
    } else if d1 == 0x8 && d4 == 0x6 {
        Some(Instruction::ShiftRight(d2))
    } else if d1 == 0x8 && d4 == 0x7 {
        Some(Instruction::SubFrom(d2, d3))
    } else if d1 == 0x8 && d4 == 0xE {
        Some(Instruction::ShiftLeft(d2))
    } else if d1 == 0x9 && d4 == 0x0 {
        Some(Instruction::SkipNeReg(d2, d3))
    } else if d1 == 0xA {
        Some(Instruction::SetIndex(nnn))
    } else if d1 == 0xB {
        Some(Instruction::JumpPlusV0(nnn))
    } else if d1 == 0xC {
        Some(Instruction::RandomMask(d2, kk))
    } else if d1 == 0xD {
        Some(Instruction::Draw(d2, d3, d4 as u8))
    } else if d1 == 0xE && kk == 0x9E {
        Some(Instruction::SkipKeyPressed(d2))
    } else if d1 == 0xE && kk == 0xA1 {
        Some(Instruction::SkipKeyNotPressed(d2))
    } else if d1 == 0xF && kk == 0x07 {
        Some(Instruction::ReadDelay(d2))
    } else if d1 == 0xF && kk == 0x0A {
        Some(Instruction::WaitKey(d2))
    } else if d1 == 0xF && kk == 0x15 {
        Some(Instruction::SetDelay(d2))
    } else if d1 == 0xF && kk == 0x18 {
        Some(Instruction::SetSound(d2))
    } else if d1 == 0xF && kk == 0x1E {
        Some(Instruction::AddIndex(d2))
    } else if d1 == 0xF && kk == 0x29 {
        Some(Instruction::FontIndex(d2))
    } else if d1 == 0xF && kk == 0x33 {
        Some(Instruction::StoreDigits(d2))
    } else if d1 == 0xF && kk == 0x55 {
        Some(Instruction::StoreRegs(d2))
    } else if d1 == 0xF && kk == 0x65 {
        Some(Instruction::LoadRegs(d2))
    } else {
        None
    }
}

/// Every operand field a decoder can produce lies within its bit width.
proof fn lemma_nibble_bounds(op: u16)
    ensures
        (op >> 12) & 0xF < 16,
        (op >> 8) & 0xF < 16,
        (op >> 4) & 0xF < 16,
        op & 0xF < 16,
        op & 0xFFF < 4096,
        op & 0xFF < 256,
{
    assert((op >> 12) & 0xF < 16 && (op >> 8) & 0xF < 16 && (op >> 4) & 0xF < 16 && op & 0xF < 16
        && op & 0xFFF < 4096 && op & 0xFF < 256) by (bit_vector);
}

/// Splits an opcode into its nibbles and matches it against the table.
pub fn decode(op: u16) -> (r: Option<Instruction>)
    ensures
        r == spec_decode(op),
        r matches Some(i) ==> instr_wf(i),
{
    proof {
        lemma_nibble_bounds(op);
    }
    let d1: u16 = (op >> 12) & 0xF;
    let d2: u8 = ((op >> 8) & 0xF) as u8;
    let d3: u8 = ((op >> 4) & 0xF) as u8;
    let d4: u16 = op & 0xF;
    let nnn: u16 = op & 0xFFF;
    let kk: u8 = (op & 0xFF) as u8;
    if op == 0x0000 {
        Some(Instruction::Nop)
    } else if op == 0x00E0 {
        Some(Instruction::ClearScreen)
    } else if op == 0x00EE {
        Some(Instruction::ReturnSub)
    } else if d1 == 0x1 {
        Some(Instruction::Jump(nnn))
    } else if d1 == 0x2 {
        Some(Instruction::Call(nnn))
    } else if d1 == 0x3 {
        Some(Instruction::SkipEqImm(d2, kk))
    } else if d1 == 0x4 {
        Some(Instruction::SkipNeImm(d2, kk))
    } else if d1 == 0x5 && d4 == 0x0 {
        Some(Instruction::SkipEqReg(d2, d3))
    } else if d1 == 0x6 {
        Some(Instruction::SetImm(d2, kk))
    } else if d1 == 0x7 {
        Some(Instruction::AddImm(d2, kk))
    } else if d1 == 0x8 && d4 == 0x0 {
        Some(Instruction::CopyReg(d2, d3))
    } else if d1 == 0x8 && d4 == 0x1 {
        Some(Instruction::OrReg(d2, d3))
    } else if d1 == 0x8 && d4 == 0x2 {
        Some(Instruction::AndReg(d2, d3))
    } else if d1 == 0x8 && d4 == 0x3 {
        Some(Instruction::XorReg(d2, d3))
    } else if d1 == 0x8 && d4 == 0x4 {
        Some(Instruction::AddReg(d2, d3))
    } else if d1 == 0x8 && d4 == 0x5 {
        Some(Instruction::SubReg(d2, d3))
    } else if d1 == 0x8 && d4 == 0x6 {
        Some(Instruction::ShiftRight(d2))
    } else if d1 == 0x8 && d4 == 0x7 {
        Some(Instruction::SubFrom(d2, d3))
    } else if d1 == 0x8 && d4 == 0xE {
        Some(Instruction::ShiftLeft(d2))
    } else if d1 == 0x9 && d4 == 0x0 {
        Some(Instruction::SkipNeReg(d2, d3))
    } else if d1 == 0xA {
        Some(Instruction::SetIndex(nnn))
    } else if d1 == 0xB {
        Some(Instruction::JumpPlusV0(nnn))
    } else if d1 == 0xC {
        Some(Instruction::RandomMask(d2, kk))
    } else if d1 == 0xD {
        Some(Instruction::Draw(d2, d3, d4 as u8))
    } else if d1 == 0xE && kk == 0x9E {
        Some(Instruction::SkipKeyPressed(d2))
    } else if d1 == 0xE && kk == 0xA1 {
        Some(Instruction::SkipKeyNotPressed(d2))
    } else if d1 == 0xF && kk == 0x07 {
        Some(Instruction::ReadDelay(d2))
    } else if d1 == 0xF && kk == 0x0A {
        Some(Instruction::WaitKey(d2))
    } else if d1 == 0xF && kk == 0x15 {
        Some(Instruction::SetDelay(d2))
    } else if d1 == 0xF && kk == 0x18 {
        Some(Instruction::SetSound(d2))
    } else if d1 == 0xF && kk == 0x1E {
        Some(Instruction::AddIndex(d2))
    } else if d1 == 0xF && kk == 0x29 {
        Some(Instruction::FontIndex(d2))
    } else if d1 == 0xF && kk == 0x33 {
        Some(Instruction::StoreDigits(d2))
    } else if d1 == 0xF && kk == 0x55 {
        Some(Instruction::StoreRegs(d2))
    } else if d1 == 0xF && kk == 0x65 {
        Some(Instruction::LoadRegs(d2))
    } else {
        None
    }
}

} // verus!
