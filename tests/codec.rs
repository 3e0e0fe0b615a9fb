use chip8_rust::error::Chip8Error;
use chip8_rust::instruction::{addr, decode, encode, imm, r1, r2, Instruction};

#[test]
fn operand_fields() {
    assert_eq!(addr(0x1234), 0x234);
    assert_eq!(imm(0x1234), 0x34);
    assert_eq!(r1(0x1234), 0x2);
    assert_eq!(r2(0x1234), 0x3);
}

#[test]
fn decode_known_words() {
    assert_eq!(decode(0x00E0), Ok(Instruction::Clr));
    assert_eq!(decode(0x00EE), Ok(Instruction::Rts));
    assert_eq!(decode(0x0000), Ok(Instruction::Sys(0)));
    assert_eq!(decode(0x6342), Ok(Instruction::Load(3, 0x42)));
    assert_eq!(decode(0x8AB4), Ok(Instruction::Addr(0xA, 0xB)));
    assert_eq!(decode(0x812E), Ok(Instruction::Shl(1, 2)));
    assert_eq!(decode(0xD125), Ok(Instruction::Draw(1, 2, 5)));
    assert_eq!(decode(0xE39E), Ok(Instruction::Skpr(3)));
    assert_eq!(decode(0xF40A), Ok(Instruction::Keyd(4)));
    assert_eq!(decode(0xF565), Ok(Instruction::Read(5)));
    assert_eq!(decode(0x2ABC), Ok(Instruction::Call(0xABC)));
    assert_eq!(decode(0x5120), Ok(Instruction::Skre(1, 2)));
}

#[test]
fn decode_rejects_unknown_suffixes() {
    for w in [0x5001u16, 0x9003, 0x8007, 0x800F, 0xE000, 0xE0A2, 0xF000, 0xF0FF] {
        assert_eq!(decode(w), Err(Chip8Error::InvalidInstruction(w)));
    }
}

#[test]
fn encode_known_instructions() {
    assert_eq!(encode(Instruction::Load(3, 0x42)), 0x6342);
    assert_eq!(encode(Instruction::Skre(1, 2)), 0x5120);
    assert_eq!(encode(Instruction::Skrne(0xA, 0xB)), 0x9AB0);
    assert_eq!(encode(Instruction::Draw(1, 2, 5)), 0xD125);
    assert_eq!(encode(Instruction::Bcd(7)), 0xF733);
    assert_eq!(encode(Instruction::Jump(0xFFFF)), 0x1FFF);
}

#[test]
fn every_decoded_word_encodes_back() {
    let mut decoded = 0u32;
    for w in 0..=u16::MAX {
        if let Ok(instr) = decode(w) {
            assert_eq!(encode(instr), w, "word {:#06x}", w);
            decoded += 1;
        }
    }
    assert!(decoded > 40000);
}

#[test]
fn instruction_text() {
    assert_eq!(Instruction::Load(3, 0x42).to_text(), "LOAD  v3, 0x42");
    assert_eq!(Instruction::Draw(0xA, 0xB, 5).to_text(), "DRAW  vA, vB, 0x5");
    assert_eq!(Instruction::Jump(0xABC).to_text(), "JUMP  0xabc");
    assert_eq!(Instruction::Sys(0).to_text(), "SYS   0x0");
    assert_eq!(Instruction::Clr.to_text(), "CLR");
    assert_eq!(Instruction::Skrne(1, 0xF).to_text(), "SKRNE v1, vF");
    assert_eq!(Instruction::Read(0xC).to_text(), "READ  vC");
    assert_eq!(Instruction::Rand(0, 0xFF).to_text(), "RAND  v0, 0xff");
}
