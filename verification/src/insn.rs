use vstd::prelude::*;

verus! {

/// Index of a general register V0..=VF.
pub type Reg = u8;

/// A 12-bit memory address.
pub type Addr = u16;

/// The highest nibble of an instruction word.
pub open spec fn nibble_hi(insn: u16) -> u8 {
    ((insn >> 12) & 0xF) as u8
}

/// The second nibble of an instruction word.
pub open spec fn nibble_x(insn: u16) -> u8 {
    ((insn >> 8) & 0xF) as u8
}

/// The third nibble of an instruction word.
pub open spec fn nibble_y(insn: u16) -> u8 {
    ((insn >> 4) & 0xF) as u8
}

/// The lowest nibble of an instruction word.
pub open spec fn nibble_lo(insn: u16) -> u8 {
    (insn & 0xF) as u8
}

/// The low 12 bits of an instruction word, an address operand.
pub open spec fn addr_of(insn: u16) -> u16 {
    insn & 0xFFF
}

/// The low byte of an instruction word, an immediate operand.
pub open spec fn imm_of(insn: u16) -> u8 {
    (insn & 0xFF) as u8
}

/// Splits an instruction word into its four nibbles, highest first.
pub fn nibbles(insn: u16) -> (r: (u8, u8, u8, u8))
    ensures
        r.0 == nibble_hi(insn),
        r.1 == nibble_x(insn),
        r.2 == nibble_y(insn),
        r.3 == nibble_lo(insn),
{
    (
        ((insn >> 12) & 0xF) as u8,
        ((insn >> 8) & 0xF) as u8,
        ((insn >> 4) & 0xF) as u8,
        (insn & 0xF) as u8,
    )
}

/// One decoded CHIP-8 instruction, carrying its operands.
#[derive(Clone, Copy, Debug, PartialEq, Eq, Structural)]
pub enum Instruction {
    Nop,
    Clear,
    Return,
    Jump(Addr),
    Call(Addr),
    LoadI(Addr),
    JumpOff(Addr),
    AddI(Reg),
    LoadRegs(Reg),
    StoreRegs(Reg),
    StoreBcd(Reg),
    SetSpriteAddr(Reg),
    SkipPressed(Reg),
    SkipNotPressed(Reg),
    WaitKeypress(Reg),
    LoadFromDelayTimer(Reg),
    LoadDelayTimer(Reg),
    LoadSoundTimer(Reg),
    Shl(Reg),
    Shr(Reg),
    SkipEq(Reg, Reg),
    SkipEqIm(Reg, u8),
    SkipNe(Reg, Reg),
    SkipNeIm(Reg, u8),
    LoadIm(Reg, u8),
    AddIm(Reg, u8),
    Move(Reg, Reg),
    Or(Reg, Reg),
    And(Reg, Reg),
    Xor(Reg, Reg),
    Add(Reg, Reg),
    Sub(Reg, Reg),
    SubN(Reg, Reg),
    Rnd(Reg, u8),
    Draw(Reg, Reg, u8),
}

impl Instruction {
    /// Operand sanity: register indices name one of the 16 registers,
    /// addresses fit in 12 bits, and a sprite height fits in a nibble.
    /// Every decoded instruction satisfies this.
    pub open spec fn wf(self) -> bool {
        match self {
            Instruction::Nop => true,
            Instruction::Clear => true,
            Instruction::Return => true,
            Instruction::Jump(a) => a < 0x1000,
            Instruction::Call(a) => a < 0x1000,
            Instruction::LoadI(a) => a < 0x1000,
            Instruction::JumpOff(a) => a < 0x1000,
            Instruction::AddI(x) => x < 16,
            Instruction::LoadRegs(x) => x < 16,
            Instruction::StoreRegs(x) => x < 16,
            Instruction::StoreBcd(x) => x < 16,
            Instruction::SetSpriteAddr(x) => x < 16,
            Instruction::SkipPressed(x) => x < 16,
            Instruction::SkipNotPressed(x) => x < 16,
            Instruction::WaitKeypress(x) => x < 16,
            Instruction::LoadFromDelayTimer(x) => x < 16,
            Instruction::LoadDelayTimer(x) => x < 16,
            Instruction::LoadSoundTimer(x) => x < 16,
            Instruction::Shl(x) => x < 16,
            Instruction::Shr(x) => x < 16,
            Instruction::SkipEq(x, y) => x < 16 && y < 16,
            Instruction::SkipEqIm(x, _) => x < 16,
            Instruction::SkipNe(x, y) => x < 16 && y < 16,
            Instruction::SkipNeIm(x, _) => x < 16,
            Instruction::LoadIm(x, _) => x < 16,
            Instruction::AddIm(x, _) => x < 16,
            Instruction::Move(x, y) => x < 16 && y < 16,
            Instruction::Or(x, y) => x < 16 && y < 16,
            Instruction::And(x, y) => x < 16 && y < 16,
            Instruction::Xor(x, y) => x < 16 && y < 16,
            Instruction::Add(x, y) => x < 16 && y < 16,
            Instruction::Sub(x, y) => x < 16 && y < 16,
            Instruction::SubN(x, y) => x < 16 && y < 16,
            Instruction::Rnd(x, _) => x < 16,
            Instruction::Draw(x, y, n) => x < 16 && y < 16 && n < 16,
        }
    }
}

/// The published CHIP-8 opcode table: which instruction a 16-bit
/// big-endian word denotes. Words that match no legal form decode to
/// `Nop`; decoding never fails.
pub open spec fn spec_decode(w: u16) -> Instruction {
    let a = nibble_hi(w);
    let x = nibble_x(w);
    let y = nibble_y(w);
    let d = nibble_lo(w);
    if a == 0 && x == 0 && y == 0xE && d == 0 {
        Instruction::Clear
    } else if a == 0 && x == 0 && y == 0xE && d == 0xE {
        Instruction::Return
    } else if a == 1 {
        Instruction::Jump(addr_of(w))
    } else if a == 2 {
        Instruction::Call(addr_of(w))
    } else if a == 3 {
        Instruction::SkipEqIm(x, imm_of(w))
    } else if a == 4 {
        Instruction::SkipNeIm(x, imm_of(w))
    } else if a == 5 && d == 0 {
        Instruction::SkipEq(x, y)
    } else if a == 6 {
        Instruction::LoadIm(x, imm_of(w))
    } else if a == 7 {
        Instruction::AddIm(x, imm_of(w))
    } else if a == 8 && d == 0 {
        Instruction::Move(x, y)
    } else if a == 8 && d == 1 {
        Instruction::Or(x, y)
    } else if a == 8 && d == 2 {
        Instruction::And(x, y)
    } else if a == 8 && d == 3 {
        Instruction::Xor(x, y)
    } else if a == 8 && d == 4 {
        Instruction::Add(x, y)
    } else if a == 8 && d == 5 {
        Instruction::Sub(x, y)
    } else if a == 8 && d == 6 {
        Instruction::Shr(x)
    } else if a == 8 && d == 7 {
        Instruction::SubN(x, y)
    } else if a == 8 && d == 0xE {
        Instruction::Shl(x)
    } else if a == 9 && d == 0 {
        Instruction::SkipNe(x, y)
    } else if a == 0xA {
        Instruction::LoadI(addr_of(w))
    } else if a == 0xB {
        Instruction::JumpOff(addr_of(w))
    } else if a == 0xC {
        Instruction::Rnd(x, imm_of(w))
    } else if a == 0xD {
        Instruction::Draw(x, y, d)
    } else if a == 0xE && y == 9 && d == 0xE {
        Instruction::SkipPressed(x)
    } else if a == 0xE && y == 0xA && d == 1 {
        Instruction::SkipNotPressed(x)
    } else if a == 0xF && y == 0 && d == 7 {
        Instruction::LoadFromDelayTimer(x)
    } else if a == 0xF && y == 0 && d == 0xA {
        Instruction::WaitKeypress(x)
    } else if a == 0xF && y == 1 && d == 5 {
        Instruction::LoadDelayTimer(x)
    } else if a == 0xF && y == 1 && d == 8 {
        Instruction::LoadSoundTimer(x)
    } else if a == 0xF && y == 1 && d == 0xE {
        Instruction::AddI(x)
    } else if a == 0xF && y == 2 && d == 9 {
        Instruction::SetSpriteAddr(x)
    } else if a == 0xF && y == 3 && d == 3 {
        Instruction::StoreBcd(x)
    } else if a == 0xF && y == 5 && d == 5 {
        Instruction::StoreRegs(x)
    } else if a == 0xF && y == 6 && d == 5 {
        Instruction::LoadRegs(x)
    } else {
        Instruction::Nop
    }
}

/// Every word decodes to an instruction with in-range operands.
pub proof fn lemma_decode_wf(w: u16)
    ensures
        spec_decode(w).wf(),
{
    assert((w >> 8) & 0xF < 16) by (bit_vector);
    assert((w >> 4) & 0xF < 16) by (bit_vector);
    assert(w & 0xF < 16) by (bit_vector);
    assert(w & 0xFFF < 0x1000) by (bit_vector);
}

} // verus!
