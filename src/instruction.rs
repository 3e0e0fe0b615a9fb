use vstd::prelude::*;

use crate::error::Chip8Error;

verus! {

pub type Addr = u16;

pub type Reg = u8;

pub type RegVal = u8;

pub type ShortVal = u8;

/// One decoded instruction word.
#[derive(Debug, Clone, Copy, PartialEq, Eq, Structural)]
pub enum Instruction {
    /// Opcode: 00E0
    Clr,
    /// Opcode: 00EE
    Rts,
    /// Opcode: Dxyn
    Draw(Reg, Reg, ShortVal),
    /// Opcode: 0nnn
    Sys(u16),
    /// Opcode: 1nnn
    Jump(Addr),
    /// Opcode: 2nnn
    Call(Addr),
    /// Opcode: Annn
    LoadI(Addr),
    /// Opcode: Bnnn
    JumpI(Addr),
    /// Opcode: 3xnn
    Ske(Reg, RegVal),
    /// Opcode: 4xnn
    Skne(Reg, RegVal),
    /// Opcode: 6xnn
    Load(Reg, RegVal),
    /// Opcode: 7xnn
    Add(Reg, RegVal),
    /// Opcode: Cxnn
    Rand(Reg, RegVal),
    /// Opcode: 5xy0
    Skre(Reg, Reg),
    /// Opcode: 9xy0
    Skrne(Reg, Reg),
    /// Opcode: 8xy0
    Move(Reg, Reg),
    /// Opcode: 8xy1
    Or(Reg, Reg),
    /// Opcode: 8xy2
    And(Reg, Reg),
    /// Opcode: 8xy3
    Xor(Reg, Reg),
    /// Opcode: 8xy4
    Addr(Reg, Reg),
    /// Opcode: 8xy5
    Sub(Reg, Reg),
    /// Opcode: 8xy6
    Shr(Reg, Reg),
    /// Opcode: 8xyE
    Shl(Reg, Reg),
    /// Opcode: Ex9E
    Skpr(Reg),
    /// Opcode: ExA1
    Skup(Reg),
    /// Opcode: Fx07
    Moved(Reg),
    /// Opcode: Fx0A
    Keyd(Reg),
    /// Opcode: Fx15
    LoadD(Reg),
    /// Opcode: Fx18
    LoadS(Reg),
    /// Opcode: Fx1E
    AddI(Reg),
    /// Opcode: Fx29
    Ldspr(Reg),
    /// Opcode: Fx33
    Bcd(Reg),
    /// Opcode: Fx55
    Stor(Reg),
    /// Opcode: Fx65
    Read(Reg),
}

pub open spec fn addr_spec(x: u16) -> u16 {
    x & 0x0FFF
}

pub open spec fn imm_spec(x: u16) -> u8 {
    (x & 0x00FF) as u8
}

pub open spec fn r1_spec(x: u16) -> u8 {
    ((x & 0x0F00) >> 8) as u8
}

pub open spec fn r2_spec(x: u16) -> u8 {
    ((x & 0x00F0) >> 4) as u8
}

pub open spec fn n_spec(x: u16) -> u8 {
    (x & 0x000F) as u8
}

/// The low twelve bits: an address operand.
pub fn addr(x: u16) -> (r: Addr)
    ensures
        r == addr_spec(x),
        r < 0x1000,
{
    assert(x & 0x0FFF < 0x1000) by (bit_vector);
    x & 0x0FFF
}

/// The low byte: an immediate operand.
pub fn imm(x: u16) -> (r: RegVal)
    ensures
        r == imm_spec(x),
{
    (x & 0x00FF) as RegVal
}

/// The second nibble: the first register operand.
pub fn r1(x: u16) -> (r: Reg)
    ensures
        r == r1_spec(x),
        r < 16,
{
    assert(((x & 0x0F00) >> 8) < 16) by (bit_vector);
    ((x & 0x0F00) >> 8) as Reg
}

/// The third nibble: the second register operand.
pub fn r2(x: u16) -> (r: Reg)
    ensures
        r == r2_spec(x),
        r < 16,
{
    assert(((x & 0x00F0) >> 4) < 16) by (bit_vector);
    ((x & 0x00F0) >> 4) as Reg
}

/// The instruction that a word stands for, or `None` where the word is not in
/// the opcode table.
pub open spec fn decode_spec(x: u16) -> Option<Instruction> {
    let hi = x & 0xF000;
    if hi == 0x0000 {
        if x == 0x00E0 {
            Some(Instruction::Clr)
        } else if x == 0x00EE {
            Some(Instruction::Rts)
        } else {
            Some(Instruction::Sys(addr_spec(x)))
        }
    } else if hi == 0x1000 {
        Some(Instruction::Jump(addr_spec(x)))
    } else if hi == 0x2000 {
        Some(Instruction::Call(addr_spec(x)))
    } else if hi == 0x3000 {
        Some(Instruction::Ske(r1_spec(x), imm_spec(x)))
    } else if hi == 0x4000 {
        Some(Instruction::Skne(r1_spec(x), imm_spec(x)))
    } else if hi == 0x5000 {
        if x & 0x000F == 0 {
            Some(Instruction::Skre(r1_spec(x), r2_spec(x)))
        } else {
            None
        }
    } else if hi == 0x6000 {
        Some(Instruction::Load(r1_spec(x), imm_spec(x)))
    } else if hi == 0x7000 {
        Some(Instruction::Add(r1_spec(x), imm_spec(x)))
    } else if hi == 0x8000 {
        let (a, b) = (r1_spec(x), r2_spec(x));
        let lo = x & 0x000F;
        if lo == 0x0 {
            Some(Instruction::Move(a, b))
        } else if lo == 0x1 {
            Some(Instruction::Or(a, b))
        } else if lo == 0x2 {
            Some(Instruction::And(a, b))
        } else if lo == 0x3 {
            Some(Instruction::Xor(a, b))
        } else if lo == 0x4 {
            Some(Instruction::Addr(a, b))
        } else if lo == 0x5 {
            Some(Instruction::Sub(a, b))
        } else if lo == 0x6 {
            Some(Instruction::Shr(a, b))
        } else if lo == 0xE {
            Some(Instruction::Shl(a, b))
        } else {
            None
        }
    } else if hi == 0x9000 {
        if x & 0x000F == 0 {
            Some(Instruction::Skrne(r1_spec(x), r2_spec(x)))
        } else {
            None
        }
    } else if hi == 0xA000 {
        Some(Instruction::LoadI(addr_spec(x)))
    } else if hi == 0xB000 {
        Some(Instruction::JumpI(addr_spec(x)))
    } else if hi == 0xC000 {
        Some(Instruction::Rand(r1_spec(x), imm_spec(x)))
    } else if hi == 0xD000 {
        Some(Instruction::Draw(r1_spec(x), r2_spec(x), n_spec(x)))
    } else if hi == 0xE000 {
        let lo = x & 0x00FF;
        if lo == 0x9E {
            Some(Instruction::Skpr(r1_spec(x)))
        } else if lo == 0xA1 {
            Some(Instruction::Skup(r1_spec(x)))
        } else {
            None
        }
    } else {
        // hi == 0xF000
        let r = r1_spec(x);
        let lo = x & 0x00FF;
        if lo == 0x07 {
            Some(Instruction::Moved(r))
        } else if lo == 0x0A {
            Some(Instruction::Keyd(r))
        } else if lo == 0x15 {
            Some(Instruction::LoadD(r))
        } else if lo == 0x18 {
            Some(Instruction::LoadS(r))
        } else if lo == 0x1E {
            Some(Instruction::AddI(r))
        } else if lo == 0x29 {
            Some(Instruction::Ldspr(r))
        } else if lo == 0x33 {
            Some(Instruction::Bcd(r))
        } else if lo == 0x55 {
            Some(Instruction::Stor(r))
        } else if lo == 0x65 {
            Some(Instruction::Read(r))
        } else {
            None
        }
    }
}

/// The word that an instruction is written as. Operands are cut to the width
/// of their field.
pub open spec fn encode_spec(instr: Instruction) -> u16 {
    match instr {
        Instruction::Clr => 0x00E0,
        Instruction::Rts => 0x00EE,
        Instruction::Draw(x, y, n) => 0xD000 | enc_r1(x) | enc_r2(y) | ((n as u16) & 0x000F),
        Instruction::Sys(a) => a & 0x0FFF,
        Instruction::Jump(a) => 0x1000 | (a & 0x0FFF),
        Instruction::Call(a) => 0x2000 | (a & 0x0FFF),
        Instruction::LoadI(a) => 0xA000 | (a & 0x0FFF),
        Instruction::JumpI(a) => 0xB000 | (a & 0x0FFF),
        Instruction::Ske(r, v) => 0x3000 | enc_r1(r) | (v as u16),
        Instruction::Skne(r, v) => 0x4000 | enc_r1(r) | (v as u16),
        Instruction::Load(r, v) => 0x6000 | enc_r1(r) | (v as u16),
        Instruction::Add(r, v) => 0x7000 | enc_r1(r) | (v as u16),
        Instruction::Rand(r, v) => 0xC000 | enc_r1(r) | (v as u16),
        Instruction::Skre(a, b) => 0x5000 | enc_r1(a) | enc_r2(b),
        Instruction::Skrne(a, b) => 0x9000 | enc_r1(a) | enc_r2(b),
        Instruction::Move(a, b) => 0x8000 | enc_r1(a) | enc_r2(b),
        Instruction::Or(a, b) => 0x8001 | enc_r1(a) | enc_r2(b),
        Instruction::And(a, b) => 0x8002 | enc_r1(a) | enc_r2(b),
        Instruction::Xor(a, b) => 0x8003 | enc_r1(a) | enc_r2(b),
        Instruction::Addr(a, b) => 0x8004 | enc_r1(a) | enc_r2(b),
        Instruction::Sub(a, b) => 0x8005 | enc_r1(a) | enc_r2(b),
        Instruction::Shr(a, b) => 0x8006 | enc_r1(a) | enc_r2(b),
        Instruction::Shl(a, b) => 0x800E | enc_r1(a) | enc_r2(b),
        Instruction::Skpr(r) => 0xE09E | enc_r1(r),
        Instruction::Skup(r) => 0xE0A1 | enc_r1(r),
        Instruction::Moved(r) => 0xF007 | enc_r1(r),
        Instruction::Keyd(r) => 0xF00A | enc_r1(r),
        Instruction::LoadD(r) => 0xF015 | enc_r1(r),
        Instruction::LoadS(r) => 0xF018 | enc_r1(r),
        Instruction::AddI(r) => 0xF01E | enc_r1(r),
        Instruction::Ldspr(r) => 0xF029 | enc_r1(r),
        Instruction::Bcd(r) => 0xF033 | enc_r1(r),
        Instruction::Stor(r) => 0xF055 | enc_r1(r),
        Instruction::Read(r) => 0xF065 | enc_r1(r),
    }
}

/// A register operand placed in the second nibble.
pub open spec fn enc_r1(r: u8) -> u16 {
    ((r as u16) << 8) & 0x0F00
}

/// A register operand placed in the third nibble.
pub open spec fn enc_r2(r: u8) -> u16 {
    ((r as u16) << 4) & 0x00F0
}

fn put_r1(r: u8) -> (w: u16)
    ensures
        w == enc_r1(r),
{
    ((r as u16) << 8) & 0x0F00
}

fn put_r2(r: u8) -> (w: u16)
    ensures
        w == enc_r2(r),
{
    ((r as u16) << 4) & 0x00F0
}

/// Decodes one instruction word. A word outside the opcode table is an
/// `InvalidInstruction` error that carries the word.
pub fn decode(x: u16) -> (r: Result<Instruction, Chip8Error>)
    ensures
        match decode_spec(x) {
            Some(i) => r == Ok::<Instruction, Chip8Error>(i),
            None => r == Err::<Instruction, Chip8Error>(Chip8Error::InvalidInstruction(x)),
        },
{
    let bad = Err(Chip8Error::InvalidInstruction(x));
    match x & 0xF000 {
        0x0000 => {
            if x == 0x00E0 {
                Ok(Instruction::Clr)
            } else if x == 0x00EE {
                Ok(Instruction::Rts)
            } else {
                Ok(Instruction::Sys(addr(x)))
            }
        },
        0x1000 => Ok(Instruction::Jump(addr(x))),
        0x2000 => Ok(Instruction::Call(addr(x))),
        0x3000 => Ok(Instruction::Ske(r1(x), imm(x))),
        0x4000 => Ok(Instruction::Skne(r1(x), imm(x))),
        0x5000 => {
            if x & 0x000F == 0 {
                Ok(Instruction::Skre(r1(x), r2(x)))
            } else {
                bad
            }
        },
        0x6000 => Ok(Instruction::Load(r1(x), imm(x))),
        0x7000 => Ok(Instruction::Add(r1(x), imm(x))),
        0x8000 => {
            let a = r1(x);
            let b = r2(x);
            match x & 0x000F {
                0x0 => Ok(Instruction::Move(a, b)),
                0x1 => Ok(Instruction::Or(a, b)),
                0x2 => Ok(Instruction::And(a, b)),
                0x3 => Ok(Instruction::Xor(a, b)),
                0x4 => Ok(Instruction::Addr(a, b)),
                0x5 => Ok(Instruction::Sub(a, b)),
                0x6 => Ok(Instruction::Shr(a, b)),
                0xE => Ok(Instruction::Shl(a, b)),
                _ => bad,
            }
        },
        0x9000 => {
            if x & 0x000F == 0 {
                Ok(Instruction::Skrne(r1(x), r2(x)))
            } else {
                bad
            }
        },
        0xA000 => Ok(Instruction::LoadI(addr(x))),
        0xB000 => Ok(Instruction::JumpI(addr(x))),
        0xC000 => Ok(Instruction::Rand(r1(x), imm(x))),
        0xD000 => Ok(Instruction::Draw(r1(x), r2(x), (x & 0x000F) as ShortVal)),
        0xE000 => match x & 0x00FF {
            0x9E => Ok(Instruction::Skpr(r1(x))),
            0xA1 => Ok(Instruction::Skup(r1(x))),
            _ => bad,
        },
        _ => {
            assert(x & 0xF000 == 0xF000) by (bit_vector)
                requires
                    x & 0xF000 != 0x0000, x & 0xF000 != 0x1000, x & 0xF000 != 0x2000,
                    x & 0xF000 != 0x3000, x & 0xF000 != 0x4000, x & 0xF000 != 0x5000,
                    x & 0xF000 != 0x6000, x & 0xF000 != 0x7000, x & 0xF000 != 0x8000,
                    x & 0xF000 != 0x9000, x & 0xF000 != 0xA000, x & 0xF000 != 0xB000,
                    x & 0xF000 != 0xC000, x & 0xF000 != 0xD000, x & 0xF000 != 0xE000,
            ;
            let r = r1(x);
            match x & 0x00FF {
                0x07 => Ok(Instruction::Moved(r)),
                0x0A => Ok(Instruction::Keyd(r)),
                0x15 => Ok(Instruction::LoadD(r)),
                0x18 => Ok(Instruction::LoadS(r)),
                0x1E => Ok(Instruction::AddI(r)),
                0x29 => Ok(Instruction::Ldspr(r)),
                0x33 => Ok(Instruction::Bcd(r)),
                0x55 => Ok(Instruction::Stor(r)),
                0x65 => Ok(Instruction::Read(r)),
                _ => bad,
            }
        },
    }
}

/// Encodes one instruction as its word.
pub fn encode(instr: Instruction) -> (w: u16)
    ensures
        w == encode_spec(instr),
{
    match instr {
        Instruction::Clr => 0x00E0,
        Instruction::Rts => 0x00EE,
        Instruction::Draw(x, y, n) => 0xD000 | put_r1(x) | put_r2(y) | ((n as u16) & 0x000F),
        Instruction::Sys(a) => a & 0x0FFF,
        Instruction::Jump(a) => 0x1000 | (a & 0x0FFF),
        Instruction::Call(a) => 0x2000 | (a & 0x0FFF),
        Instruction::LoadI(a) => 0xA000 | (a & 0x0FFF),
        Instruction::JumpI(a) => 0xB000 | (a & 0x0FFF),
        Instruction::Ske(r, v) => 0x3000 | put_r1(r) | (v as u16),
        Instruction::Skne(r, v) => 0x4000 | put_r1(r) | (v as u16),
        Instruction::Load(r, v) => 0x6000 | put_r1(r) | (v as u16),
        Instruction::Add(r, v) => 0x7000 | put_r1(r) | (v as u16),
        Instruction::Rand(r, v) => 0xC000 | put_r1(r) | (v as u16),
        Instruction::Skre(a, b) => 0x5000 | put_r1(a) | put_r2(b),
        Instruction::Skrne(a, b) => 0x9000 | put_r1(a) | put_r2(b),
        Instruction::Move(a, b) => 0x8000 | put_r1(a) | put_r2(b),
        Instruction::Or(a, b) => 0x8001 | put_r1(a) | put_r2(b),
        Instruction::And(a, b) => 0x8002 | put_r1(a) | put_r2(b),
        Instruction::Xor(a, b) => 0x8003 | put_r1(a) | put_r2(b),
        Instruction::Addr(a, b) => 0x8004 | put_r1(a) | put_r2(b),
        Instruction::Sub(a, b) => 0x8005 | put_r1(a) | put_r2(b),
        Instruction::Shr(a, b) => 0x8006 | put_r1(a) | put_r2(b),
        Instruction::Shl(a, b) => 0x800E | put_r1(a) | put_r2(b),
        Instruction::Skpr(r) => 0xE09E | put_r1(r),
        Instruction::Skup(r) => 0xE0A1 | put_r1(r),
        Instruction::Moved(r) => 0xF007 | put_r1(r),
        Instruction::Keyd(r) => 0xF00A | put_r1(r),
        Instruction::LoadD(r) => 0xF015 | put_r1(r),
        Instruction::LoadS(r) => 0xF018 | put_r1(r),
        Instruction::AddI(r) => 0xF01E | put_r1(r),
        Instruction::Ldspr(r) => 0xF029 | put_r1(r),
        Instruction::Bcd(r) => 0xF033 | put_r1(r),
        Instruction::Stor(r) => 0xF055 | put_r1(r),
        Instruction::Read(r) => 0xF065 | put_r1(r),
    }
}

/// Decoding then encoding gives back the word: every word that decodes is
/// written exactly one way.
pub proof fn lemma_encode_decode(w: u16)
    requires
        decode_spec(w) is Some,
    ensures
        encode_spec(decode_spec(w).unwrap()) == w,
{
    let e1 = enc_r1(r1_spec(w));
    let e2 = enc_r2(r2_spec(w));
    assert(((w & 0xF000) | (w & 0x000F)) | ((((((w & 0x0F00) >> 8) as u8) as u16) << 8) & 0x0F00)
        | ((((((w & 0x00F0) >> 4) as u8) as u16) << 4) & 0x00F0) == w) by (bit_vector);
    assert(((w & 0xF000) | (w & 0x00FF)) | ((((((w & 0x0F00) >> 8) as u8) as u16) << 8) & 0x0F00)
        == w) by (bit_vector);
    assert((w & 0xF000) | ((((((w & 0x0F00) >> 8) as u8) as u16) << 8) & 0x0F00) | (((w
        & 0x00FF) as u8) as u16) == w) by (bit_vector);
    assert((w & 0xF000) | ((w & 0x0FFF) & 0x0FFF) == w) by (bit_vector);
    assert((w & 0xF000) | ((((((w & 0x0F00) >> 8) as u8) as u16) << 8) & 0x0F00) | ((((((w
        & 0x00F0) >> 4) as u8) as u16) << 4) & 0x00F0) | ((((w & 0x000F) as u8) as u16) & 0x000F)
        == w) by (bit_vector);
    assert(w & 0xF000 == 0x0000 || w & 0xF000 == 0x1000 || w & 0xF000 == 0x2000 || w & 0xF000 == 0x3000
        || w & 0xF000 == 0x4000 || w & 0xF000 == 0x5000 || w & 0xF000 == 0x6000 || w & 0xF000 == 0x7000
        || w & 0xF000 == 0x8000 || w & 0xF000 == 0x9000 || w & 0xF000 == 0xA000 || w & 0xF000 == 0xB000
        || w & 0xF000 == 0xC000 || w & 0xF000 == 0xD000 || w & 0xF000 == 0xE000 || w & 0xF000 == 0xF000)
        by (bit_vector);
    assert(0x5000u16 | 0u16 == 0x5000u16 && 0x9000u16 | 0u16 == 0x9000u16 && 0x8000u16 | 0u16
        == 0x8000u16 && 0x8000u16 | 1u16 == 0x8001u16 && 0x8000u16 | 2u16 == 0x8002u16
        && 0x8000u16 | 3u16 == 0x8003u16 && 0x8000u16 | 4u16 == 0x8004u16 && 0x8000u16 | 5u16
        == 0x8005u16 && 0x8000u16 | 6u16 == 0x8006u16 && 0x8000u16 | 0xEu16 == 0x800Eu16
        && 0xE000u16 | 0x9Eu16 == 0xE09Eu16 && 0xE000u16 | 0xA1u16 == 0xE0A1u16 && 0xF000u16
        | 0x07u16 == 0xF007u16 && 0xF000u16 | 0x0Au16 == 0xF00Au16 && 0xF000u16 | 0x15u16
        == 0xF015u16 && 0xF000u16 | 0x18u16 == 0xF018u16 && 0xF000u16 | 0x1Eu16 == 0xF01Eu16
        && 0xF000u16 | 0x29u16 == 0xF029u16 && 0xF000u16 | 0x33u16 == 0xF033u16 && 0xF000u16
        | 0x55u16 == 0xF055u16 && 0xF000u16 | 0x65u16 == 0xF065u16) by (bit_vector);
    assert(w & 0xF000 == 0 ==> ((w & 0x0FFF) & 0x0FFF) == w) by (bit_vector);
}

} // verus!
