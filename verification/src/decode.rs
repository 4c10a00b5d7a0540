//! Decoding of two-byte CHIP-8 opcodes into an enumerated instruction.
//!
//! An opcode is split into four 4-bit nibbles; the nibble pattern selects one
//! of the 35 instruction forms. Register operands, immediate bytes and 12-bit
//! addresses are carried in the variant fields, so that execution can dispatch
//! on the decoded value alone.

use vstd::prelude::*;

verus! {

/// One decoded CHIP-8 instruction.
///
/// `x` and `y` operands are register indices taken from a nibble, so they are
/// always below 16; addresses are built from three nibbles, so they are always
/// below 0x1000.
#[derive(Clone, Copy, Debug, PartialEq, Eq, Structural)]
pub enum Instruction {
    /// `00E0`: clear the framebuffer.
    ClearScreen,
    /// `00EE`: return from a subroutine, popping the call stack into the
    /// program counter.
    Return,
    /// `0NNN` other than `00E0`/`00EE`: a historic machine-routine call,
    /// deliberately executed as a no-op.
    MachineRoutine,
    /// `1NNN`: unconditional jump to `NNN`.
    Jump(u16),
    /// `2NNN`: call the subroutine at `NNN`, pushing the return address.
    Call(u16),
    /// `3XNN`: skip the next instruction if register `X` equals `NN`.
    SkipEqImm(u8, u8),
    /// `4XNN`: skip the next instruction if register `X` differs from `NN`.
    SkipNeImm(u8, u8),
    /// `5XY0`: skip the next instruction if register `X` equals register `Y`.
    SkipEqReg(u8, u8),
    /// `9XY0`: skip the next instruction if register `X` differs from
    /// register `Y`.
    SkipNeReg(u8, u8),
    /// `6XNN`: set register `X` to `NN`.
    SetImm(u8, u8),
    /// `7XNN`: add `NN` to register `X`, wrapping modulo 256, flag untouched.
    AddImm(u8, u8),
    /// `8XY0`: copy register `Y` into register `X`.
    Copy(u8, u8),
    /// `8XY1`: bitwise OR of registers `X` and `Y` into register `X`.
    Or(u8, u8),
    /// `8XY2`: bitwise AND of registers `X` and `Y` into register `X`.
    And(u8, u8),
    /// `8XY3`: bitwise XOR of registers `X` and `Y` into register `X`.
    Xor(u8, u8),
    /// `8XY4`: add register `Y` to register `X` modulo 256; the flag register
    /// is set to 1 on carry, else 0.
    Add(u8, u8),
    /// `8XY5`: subtract register `Y` from register `X` modulo 256; the flag
    /// register is set to 1 when no borrow occurred (`X >= Y`), else 0.
    Sub(u8, u8),
    /// `8XY6`: shift register `X` right by one; the flag register receives
    /// the bit shifted out.
    ShiftRight(u8),
    /// `8XY7`: set register `X` to register `Y` minus register `X` modulo
    /// 256; the flag register is set to 1 when no borrow occurred
    /// (`Y >= X`), else 0.
    SubFrom(u8, u8),
    /// `8XYE`: shift register `X` left by one; the flag register receives
    /// the bit shifted out.
    ShiftLeft(u8),
    /// `ANNN`: set the index register to `NNN`.
    SetIndex(u16),
    /// `BNNN`: jump to `NNN` plus register 0.
    JumpOffset(u16),
    /// `CXNN`: set register `X` to a random byte masked with `NN`.
    Random(u8, u8),
    /// `DXYN`: draw the `N`-byte sprite addressed by the index register at
    /// the coordinates held in registers `X` and `Y`.
    Draw(u8, u8, u8),
    /// `EX9E`: skip the next instruction if the key numbered by register `X`
    /// is pressed.
    SkipIfKey(u8),
    /// `EXA1`: skip the next instruction if the key numbered by register `X`
    /// is not pressed.
    SkipIfNotKey(u8),
    /// `FX07`: copy the delay timer into register `X`.
    ReadDelay(u8),
    /// `FX15`: set the delay timer from register `X`.
    SetDelay(u8),
    /// `FX18`: set the sound timer from register `X`.
    SetSound(u8),
    /// `FX1E`: add register `X` to the index register, wrapping modulo 2^16.
    AddIndex(u8),
    /// `FX0A`: wait for a key press; with no key held, rewind the program
    /// counter so the same instruction re-executes on the next step.
    WaitKey(u8),
    /// `FX29`: point the index register at the font glyph for the low nibble
    /// of register `X`.
    FontIndex(u8),
    /// `FX33`: store the three decimal digits of register `X` at the index
    /// register address.
    StoreBcd(u8),
    /// `FX55`: store registers 0 through `X` to memory at the index register.
    StoreRegisters(u8),
    /// `FX65`: load registers 0 through `X` from memory at the index
    /// register.
    LoadRegisters(u8),
    /// No pattern matched: the four raw nibbles, kept for diagnostics.
    Unknown(u8, u8, u8, u8),
}

/// The high 4 bits of a byte.
pub open spec fn hi_nibble(b: u8) -> u8 {
    b >> 4u8
}

/// The low 4 bits of a byte.
pub open spec fn lo_nibble(b: u8) -> u8 {
    b & 0xf
}

/// The 12-bit address assembled from three nibbles, high to low.
pub open spec fn nibbles_to_addr(n1: u8, n2: u8, n3: u8) -> u16 {
    ((((n1 & 0xf) as u16) << 8u16) | (((n2 & 0xf) as u16) << 4u16)) | ((n3 & 0xf) as u16)
}

/// Nibbles are 4-bit values.
pub proof fn lemma_nibble_bounds(b: u8)
    ensures
        hi_nibble(b) < 16,
        lo_nibble(b) < 16,
{
    assert(b >> 4u8 < 16 && b & 0xf < 16) by (bit_vector);
}

/// An address assembled from three nibbles is a 12-bit value.
pub proof fn lemma_addr_bound(n1: u8, n2: u8, n3: u8)
    ensures
        nibbles_to_addr(n1, n2, n3) < 0x1000,
{
    assert(((((n1 & 0xf) as u16) << 8u16) | (((n2 & 0xf) as u16) << 4u16)) | ((n3 & 0xf) as u16)
        < 0x1000) by (bit_vector);
}

/// What `decode` returns: the instruction selected by the nibble pattern of
/// the two opcode bytes.
pub open spec fn spec_decode(byte1: u8, byte2: u8) -> Instruction {
    let n1 = hi_nibble(byte1);
    let n2 = lo_nibble(byte1);
    let n3 = hi_nibble(byte2);
    let n4 = lo_nibble(byte2);
    match (n1, n2, n3, n4) {
        (0x0, 0x0, 0xE, 0x0) => Instruction::ClearScreen,
        (0x0, 0x0, 0xE, 0xE) => Instruction::Return,
        (0x0, _, _, _) => Instruction::MachineRoutine,
        (0x1, a1, a2, a3) => Instruction::Jump(nibbles_to_addr(a1, a2, a3)),
        (0x2, a1, a2, a3) => Instruction::Call(nibbles_to_addr(a1, a2, a3)),
        (0x3, x, _, _) => Instruction::SkipEqImm(x, byte2),
        (0x4, x, _, _) => Instruction::SkipNeImm(x, byte2),
        (0x5, x, y, 0x0) => Instruction::SkipEqReg(x, y),
        (0x6, x, _, _) => Instruction::SetImm(x, byte2),
        (0x7, x, _, _) => Instruction::AddImm(x, byte2),
        (0x8, x, y, 0x0) => Instruction::Copy(x, y),
        (0x8, x, y, 0x1) => Instruction::Or(x, y),
        (0x8, x, y, 0x2) => Instruction::And(x, y),
        (0x8, x, y, 0x3) => Instruction::Xor(x, y),
        (0x8, x, y, 0x4) => Instruction::Add(x, y),
        (0x8, x, y, 0x5) => Instruction::Sub(x, y),
        (0x8, x, _, 0x6) => Instruction::ShiftRight(x),
        (0x8, x, y, 0x7) => Instruction::SubFrom(x, y),
        (0x8, x, _, 0xE) => Instruction::ShiftLeft(x),
        (0x9, x, y, 0x0) => Instruction::SkipNeReg(x, y),
        (0xA, a1, a2, a3) => Instruction::SetIndex(nibbles_to_addr(a1, a2, a3)),
        (0xB, a1, a2, a3) => Instruction::JumpOffset(nibbles_to_addr(a1, a2, a3)),
        (0xC, x, _, _) => Instruction::Random(x, byte2),
        (0xD, x, y, n) => Instruction::Draw(x, y, n),
        (0xE, x, 0x9, 0xE) => Instruction::SkipIfKey(x),
        (0xE, x, 0xA, 0x1) => Instruction::SkipIfNotKey(x),
        (0xF, x, 0x0, 0x7) => Instruction::ReadDelay(x),
        (0xF, x, 0x1, 0x5) => Instruction::SetDelay(x),
        (0xF, x, 0x1, 0x8) => Instruction::SetSound(x),
        (0xF, x, 0x1, 0xE) => Instruction::AddIndex(x),
        (0xF, x, 0x0, 0xA) => Instruction::WaitKey(x),
        (0xF, x, 0x2, 0x9) => Instruction::FontIndex(x),
        (0xF, x, 0x3, 0x3) => Instruction::StoreBcd(x),
        (0xF, x, 0x5, 0x5) => Instruction::StoreRegisters(x),
        (0xF, x, 0x6, 0x5) => Instruction::LoadRegisters(x),
        (m1, m2, m3, m4) => Instruction::Unknown(m1, m2, m3, m4),
    }
}

/// Combines 3 nibbles into one 12-bit address, top 4 bits empty.
pub fn combine_nibbles(n1: u8, n2: u8, n3: u8) -> (addr: u16)
    ensures
        addr == nibbles_to_addr(n1, n2, n3),
        addr < 0x1000,
{
    proof {
        lemma_addr_bound(n1, n2, n3);
    }
    ((((n1 & 0xf) as u16) << 8u16) | (((n2 & 0xf) as u16) << 4u16)) | ((n3 & 0xf) as u16)
}

/// Splits an opcode's two bytes into four nibbles and selects the instruction
/// the pattern stands for.
pub fn decode(byte1: u8, byte2: u8) -> (instruction: Instruction)
    ensures
        instruction == spec_decode(byte1, byte2),
{
    let n1 = byte1 >> 4u8;
    let n2 = byte1 & 0xf;
    let n3 = byte2 >> 4u8;
    let n4 = byte2 & 0xf;
    match (n1, n2, n3, n4) {
        (0x0, 0x0, 0xE, 0x0) => Instruction::ClearScreen,
        (0x0, 0x0, 0xE, 0xE) => Instruction::Return,
        (0x0, _, _, _) => Instruction::MachineRoutine,
        (0x1, a1, a2, a3) => Instruction::Jump(combine_nibbles(a1, a2, a3)),
        (0x2, a1, a2, a3) => Instruction::Call(combine_nibbles(a1, a2, a3)),
        (0x3, x, _, _) => Instruction::SkipEqImm(x, byte2),
        (0x4, x, _, _) => Instruction::SkipNeImm(x, byte2),
        (0x5, x, y, 0x0) => Instruction::SkipEqReg(x, y),
        (0x6, x, _, _) => Instruction::SetImm(x, byte2),
        (0x7, x, _, _) => Instruction::AddImm(x, byte2),
        (0x8, x, y, 0x0) => Instruction::Copy(x, y),
        (0x8, x, y, 0x1) => Instruction::Or(x, y),
        (0x8, x, y, 0x2) => Instruction::And(x, y),
        (0x8, x, y, 0x3) => Instruction::Xor(x, y),
        (0x8, x, y, 0x4) => Instruction::Add(x, y),
        (0x8, x, y, 0x5) => Instruction::Sub(x, y),
        (0x8, x, _, 0x6) => Instruction::ShiftRight(x),
        (0x8, x, y, 0x7) => Instruction::SubFrom(x, y),
        (0x8, x, _, 0xE) => Instruction::ShiftLeft(x),
        (0x9, x, y, 0x0) => Instruction::SkipNeReg(x, y),
        (0xA, a1, a2, a3) => Instruction::SetIndex(combine_nibbles(a1, a2, a3)),
        (0xB, a1, a2, a3) => Instruction::JumpOffset(combine_nibbles(a1, a2, a3)),
        (0xC, x, _, _) => Instruction::Random(x, byte2),
        (0xD, x, y, n) => Instruction::Draw(x, y, n),
        (0xE, x, 0x9, 0xE) => Instruction::SkipIfKey(x),
        (0xE, x, 0xA, 0x1) => Instruction::SkipIfNotKey(x),
        (0xF, x, 0x0, 0x7) => Instruction::ReadDelay(x),
        (0xF, x, 0x1, 0x5) => Instruction::SetDelay(x),
        (0xF, x, 0x1, 0x8) => Instruction::SetSound(x),
        (0xF, x, 0x1, 0xE) => Instruction::AddIndex(x),
        (0xF, x, 0x0, 0xA) => Instruction::WaitKey(x),
        (0xF, x, 0x2, 0x9) => Instruction::FontIndex(x),
        (0xF, x, 0x3, 0x3) => Instruction::StoreBcd(x),
        (0xF, x, 0x5, 0x5) => Instruction::StoreRegisters(x),
        (0xF, x, 0x6, 0x5) => Instruction::LoadRegisters(x),
        (m1, m2, m3, m4) => Instruction::Unknown(m1, m2, m3, m4),
    }
}

} // verus!
