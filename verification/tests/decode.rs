use rusty_chip8::errors::Chip8Error;
use rusty_chip8::isa::{decode, split_opcode, Instruction};

fn reason(word: u16) -> String {
    match decode(word) {
        Err(Chip8Error::InvalidInstruction(e)) => e.reason().to_string(),
        other => panic!("{:#06x} gave {:?}", word, other),
    }
}

#[test]
fn words_split_into_four_digits() {
    assert_eq!(split_opcode(0x0000), (0, 0, 0, 0));
    assert_eq!(split_opcode(0x1234), (1, 2, 3, 4));
    assert_eq!(split_opcode(0xFEDC), (0xF, 0xE, 0xD, 0xC));
    assert_eq!(split_opcode(0x00E0), (0, 0, 0xE, 0));
}

#[test]
fn system_instructions_decode() {
    assert_eq!(decode(0x00E0), Ok(Instruction::Clear));
    assert_eq!(decode(0x00EE), Ok(Instruction::Return));
}

#[test]
fn jumps_and_calls_decode() {
    assert_eq!(decode(0x1ABC), Ok(Instruction::Jump { addr: 0xABC }));
    assert_eq!(decode(0x2000), Ok(Instruction::Call { addr: 0x000 }));
    assert_eq!(decode(0x2FFF), Ok(Instruction::Call { addr: 0xFFF }));
    assert_eq!(decode(0xA123), Ok(Instruction::LoadIndex { addr: 0x123 }));
    assert_eq!(decode(0xB321), Ok(Instruction::JumpRel { addr: 0x321 }));
}

#[test]
fn instructions_with_a_byte_decode() {
    assert_eq!(decode(0x3A0F), Ok(Instruction::SkipEqImm { x: 0xA, kk: 0x0F }));
    assert_eq!(decode(0x4B10), Ok(Instruction::SkipNeImm { x: 0xB, kk: 0x10 }));
    assert_eq!(decode(0x6C55), Ok(Instruction::LoadImm { x: 0xC, kk: 0x55 }));
    assert_eq!(decode(0x7DFF), Ok(Instruction::AddImm { x: 0xD, kk: 0xFF }));
    assert_eq!(decode(0xCE3C), Ok(Instruction::Random { x: 0xE, kk: 0x3C }));
}

#[test]
fn instructions_on_two_registers_decode() {
    assert_eq!(decode(0x5120), Ok(Instruction::SkipEqReg { x: 1, y: 2 }));
    assert_eq!(decode(0x9340), Ok(Instruction::SkipNeReg { x: 3, y: 4 }));
    assert_eq!(decode(0x8120), Ok(Instruction::Mov { x: 1, y: 2 }));
    assert_eq!(decode(0x8121), Ok(Instruction::Or { x: 1, y: 2 }));
    assert_eq!(decode(0x8122), Ok(Instruction::And { x: 1, y: 2 }));
    assert_eq!(decode(0x8123), Ok(Instruction::Xor { x: 1, y: 2 }));
    assert_eq!(decode(0x8124), Ok(Instruction::Add { x: 1, y: 2 }));
    assert_eq!(decode(0x8125), Ok(Instruction::Sub { x: 1, y: 2 }));
    assert_eq!(decode(0x8126), Ok(Instruction::Shr { x: 1, y: 2 }));
    assert_eq!(decode(0x8127), Ok(Instruction::SubN { x: 1, y: 2 }));
    assert_eq!(decode(0x812E), Ok(Instruction::Shl { x: 1, y: 2 }));
    assert_eq!(decode(0xDAB7), Ok(Instruction::Draw { x: 0xA, y: 0xB, n: 7 }));
    assert_eq!(decode(0xD000), Ok(Instruction::Draw { x: 0, y: 0, n: 0 }));
}

#[test]
fn key_and_timer_instructions_decode() {
    assert_eq!(decode(0xE59E), Ok(Instruction::SkipKey { x: 5 }));
    assert_eq!(decode(0xE6A1), Ok(Instruction::SkipNoKey { x: 6 }));
    assert_eq!(decode(0xF107), Ok(Instruction::GetDelay { x: 1 }));
    assert_eq!(decode(0xF20A), Ok(Instruction::WaitKey { x: 2 }));
    assert_eq!(decode(0xF315), Ok(Instruction::SetDelay { x: 3 }));
    assert_eq!(decode(0xF418), Ok(Instruction::SetSound { x: 4 }));
    assert_eq!(decode(0xF51E), Ok(Instruction::AddIndex { x: 5 }));
    assert_eq!(decode(0xF629), Ok(Instruction::FontAddr { x: 6 }));
    assert_eq!(decode(0xF733), Ok(Instruction::Bcd { x: 7 }));
    assert_eq!(decode(0xF855), Ok(Instruction::Store { x: 8 }));
    assert_eq!(decode(0xFF65), Ok(Instruction::LoadRegs { x: 0xF }));
}

#[test]
fn unknown_system_words_are_refused() {
    assert_eq!(
        reason(0x0000),
        "wrong operand 0x000 for opcode 0x0 (should be 0x0E0 or 0x0EE)"
    );
    assert_eq!(
        reason(0x0123),
        "wrong operand 0x123 for opcode 0x0 (should be 0x0E0 or 0x0EE)"
    );
    assert_eq!(
        reason(0x00E1),
        "wrong operand 0x0E1 for opcode 0x0 (should be 0x0E0 or 0x0EE)"
    );
}

#[test]
fn unknown_register_operations_are_refused() {
    assert_eq!(
        reason(0x8128),
        "wrong operation 0x8 for opcode 0x8 (should be 0x0 -> 0x7 or 0xE)"
    );
    assert_eq!(
        reason(0x812F),
        "wrong operation 0xF for opcode 0x8 (should be 0x0 -> 0x7 or 0xE)"
    );
    assert_eq!(reason(0x5121), "invalid opcode 0x5121");
    assert_eq!(reason(0x9ABF), "invalid opcode 0x9ABF");
}

#[test]
fn unknown_key_and_timer_words_are_refused() {
    assert_eq!(
        reason(0xE100),
        "wrong operand 0x100 for opcode 0xE (should be 0xE[X]9E or 0xE[X]A1)"
    );
    assert_eq!(
        reason(0xE09F),
        "wrong operand 0x09F for opcode 0xE (should be 0xE[X]9E or 0xE[X]A1)"
    );
    assert_eq!(reason(0xF1FF), "Wrong operand 0x1FF for opcode 0xF");
    assert_eq!(reason(0xF000), "Wrong operand 0x000 for opcode 0xF");
}

#[test]
fn every_word_decodes_or_is_refused_as_invalid() {
    let mut valid: u32 = 0;
    for word in 0..=0xFFFFu16 {
        match decode(word) {
            Ok(_) => valid += 1,
            Err(Chip8Error::InvalidInstruction(_)) => {}
            Err(other) => panic!("{:#06x} gave {:?}", word, other),
        }
    }
    let plain = 2 + 10 * 4096;
    let compare = 2 * 256;
    let alu = 9 * 256;
    let keys = 2 * 16;
    let misc = 9 * 16;
    assert_eq!(valid, plain + compare + alu + keys + misc);
}
