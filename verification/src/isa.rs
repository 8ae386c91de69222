//! The instructions of the machine and how two bytes encode one.

use vstd::prelude::*;
use crate::errors::{Chip8Error, Fault, InvalidInstructionError};
use crate::text::{hex_digits, hex_padded, lemma_hex_padded_one, push_hex_padded};

verus! {

/// One instruction. `x` and `y` name registers, `kk` is a byte, `addr` an address of
/// twelve bits, `n` a height in rows.
#[derive(Clone, Copy, Debug, PartialEq, Eq, Structural)]
pub enum Instruction {
    /// `00E0`: puts out every pixel.
    Clear,
    /// `00EE`: returns from a subroutine.
    Return,
    /// `1nnn`: goes on at `addr`.
    Jump { addr: u16 },
    /// `2nnn`: calls the subroutine at `addr`.
    Call { addr: u16 },
    /// `3xkk`: skips the next instruction if `Vx` is `kk`.
    SkipEqImm { x: u8, kk: u8 },
    /// `4xkk`: skips the next instruction if `Vx` is not `kk`.
    SkipNeImm { x: u8, kk: u8 },
    /// `5xy0`: skips the next instruction if `Vx` is `Vy`.
    SkipEqReg { x: u8, y: u8 },
    /// `6xkk`: `Vx` becomes `kk`.
    LoadImm { x: u8, kk: u8 },
    /// `7xkk`: adds `kk` to `Vx`; the carry is lost.
    AddImm { x: u8, kk: u8 },
    /// `8xy0`: `Vx` becomes `Vy`.
    Mov { x: u8, y: u8 },
    /// `8xy1`: `Vx` becomes `Vx` or `Vy`; `VF` becomes zero.
    Or { x: u8, y: u8 },
    /// `8xy2`: `Vx` becomes `Vx` and `Vy`; `VF` becomes zero.
    And { x: u8, y: u8 },
    /// `8xy3`: `Vx` becomes `Vx` exclusive-or `Vy`; `VF` becomes zero.
    Xor { x: u8, y: u8 },
    /// `8xy4`: adds `Vy` to `Vx`; `VF` becomes the carry.
    Add { x: u8, y: u8 },
    /// `8xy5`: takes `Vy` from `Vx`; `VF` becomes one unless there was a borrow.
    Sub { x: u8, y: u8 },
    /// `8xy6`: `Vx` becomes `Vy` shifted right by one; `VF` becomes the bit that left.
    Shr { x: u8, y: u8 },
    /// `8xy7`: `Vx` becomes `Vy` less `Vx`; `VF` becomes one unless there was a borrow.
    SubN { x: u8, y: u8 },
    /// `8xyE`: `Vx` becomes `Vy` shifted left by one; `VF` becomes the bit that left.
    Shl { x: u8, y: u8 },
    /// `9xy0`: skips the next instruction if `Vx` is not `Vy`.
    SkipNeReg { x: u8, y: u8 },
    /// `Annn`: `I` becomes `addr`.
    LoadIndex { addr: u16 },
    /// `Bnnn`: goes on at `addr` plus `V0`.
    JumpRel { addr: u16 },
    /// `Cxkk`: `Vx` becomes a random byte and `kk`.
    Random { x: u8, kk: u8 },
    /// `Dxyn`: draws the sprite of `n` rows at `I` at column `Vx`, row `Vy`.
    Draw { x: u8, y: u8, n: u8 },
    /// `Ex9E`: skips the next instruction if the key `Vx` is down.
    SkipKey { x: u8 },
    /// `ExA1`: skips the next instruction if the key `Vx` is not down.
    SkipNoKey { x: u8 },
    /// `Fx07`: `Vx` becomes the delay timer.
    GetDelay { x: u8 },
    /// `Fx0A`: waits for a key to go down and up again; `Vx` becomes its number.
    WaitKey { x: u8 },
    /// `Fx15`: the delay timer becomes `Vx`.
    SetDelay { x: u8 },
    /// `Fx18`: the sound timer becomes `Vx`.
    SetSound { x: u8 },
    /// `Fx1E`: adds `Vx` to `I`.
    AddIndex { x: u8 },
    /// `Fx29`: `I` becomes the address of the glyph for the low digit of `Vx`.
    FontAddr { x: u8 },
    /// `Fx33`: writes the three decimal digits of `Vx` at `I`.
    Bcd { x: u8 },
    /// `Fx55`: writes `V0` to `Vx` at `I`.
    Store { x: u8 },
    /// `Fx65`: reads `V0` to `Vx` from `I`.
    LoadRegs { x: u8 },
}

impl Instruction {
    /// Whether every register is one of the sixteen, every address has twelve bits
    /// and the height of a sprite has four.
    pub open spec fn wf(self) -> bool {
        match self {
            Instruction::Clear | Instruction::Return => true,
            Instruction::Jump { addr }
            | Instruction::Call { addr }
            | Instruction::LoadIndex { addr }
            | Instruction::JumpRel { addr } => addr < 0x1000,
            Instruction::SkipEqImm { x, kk }
            | Instruction::SkipNeImm { x, kk }
            | Instruction::LoadImm { x, kk }
            | Instruction::AddImm { x, kk }
            | Instruction::Random { x, kk } => x < 16,
            Instruction::SkipEqReg { x, y }
            | Instruction::Mov { x, y }
            | Instruction::Or { x, y }
            | Instruction::And { x, y }
            | Instruction::Xor { x, y }
            | Instruction::Add { x, y }
            | Instruction::Sub { x, y }
            | Instruction::Shr { x, y }
            | Instruction::SubN { x, y }
            | Instruction::Shl { x, y }
            | Instruction::SkipNeReg { x, y } => x < 16 && y < 16,
            Instruction::Draw { x, y, n } => x < 16 && y < 16 && n < 16,
            Instruction::SkipKey { x }
            | Instruction::SkipNoKey { x }
            | Instruction::GetDelay { x }
            | Instruction::WaitKey { x }
            | Instruction::SetDelay { x }
            | Instruction::SetSound { x }
            | Instruction::AddIndex { x }
            | Instruction::FontAddr { x }
            | Instruction::Bcd { x }
            | Instruction::Store { x }
            | Instruction::LoadRegs { x } => x < 16,
        }
    }
}

/// The four digits of an instruction word, the first one first.
pub open spec fn nibbles(word: u16) -> (u8, u8, u8, u8) {
    ((word / 4096) as u8, (word / 256 % 16) as u8, (word / 16 % 16) as u8, (word % 16) as u8)
}

/// Reason of a word `0nnn` that is neither `00E0` nor `00EE`.
pub open spec fn bad_system_reason(word: u16) -> Seq<char> {
    "wrong operand 0x"@ + hex_padded((word % 4096) as nat, true, 3)
        + " for opcode 0x0 (should be 0x0E0 or 0x0EE)"@
}

/// Reason of a word `8xyn` whose last digit names no operation.
pub open spec fn bad_alu_reason(word: u16) -> Seq<char> {
    "wrong operation 0x"@ + hex_digits((word % 16) as nat, true)
        + " for opcode 0x8 (should be 0x0 -> 0x7 or 0xE)"@
}

/// Reason of a word `Exkk` that is neither `Ex9E` nor `ExA1`.
pub open spec fn bad_key_reason(word: u16) -> Seq<char> {
    "wrong operand 0x"@ + hex_padded((word % 4096) as nat, true, 3)
        + " for opcode 0xE (should be 0xE[X]9E or 0xE[X]A1)"@
}

/// Reason of a word `Fxkk` whose `kk` names no operation.
pub open spec fn bad_misc_reason(word: u16) -> Seq<char> {
    "Wrong operand 0x"@ + hex_padded((word % 4096) as nat, true, 3) + " for opcode 0xF"@
}

/// Reason of a word `5xyn` or `9xyn` whose last digit is not zero.
pub open spec fn bad_opcode_reason(word: u16) -> Seq<char> {
    "invalid opcode 0x"@ + hex_digits(word as nat, true)
}

/// The instruction that `word` encodes, or the reason why it encodes none.
pub open spec fn decoded(word: u16) -> Result<Instruction, Seq<char>> {
    let (a, x, y, n) = nibbles(word);
    let addr = (word % 4096) as u16;
    let kk = (word % 256) as u8;
    if a == 0x0 {
        if word == 0x00E0 {
            Ok(Instruction::Clear)
        } else if word == 0x00EE {
            Ok(Instruction::Return)
        } else {
            Err(bad_system_reason(word))
        }
    } else if a == 0x1 {
        Ok(Instruction::Jump { addr })
    } else if a == 0x2 {
        Ok(Instruction::Call { addr })
    } else if a == 0x3 {
        Ok(Instruction::SkipEqImm { x, kk })
    } else if a == 0x4 {
        Ok(Instruction::SkipNeImm { x, kk })
    } else if a == 0x5 {
        if n == 0 {
            Ok(Instruction::SkipEqReg { x, y })
        } else {
            Err(bad_opcode_reason(word))
        }
    } else if a == 0x6 {
        Ok(Instruction::LoadImm { x, kk })
    } else if a == 0x7 {
        Ok(Instruction::AddImm { x, kk })
    } else if a == 0x8 {
        if n == 0x0 {
            Ok(Instruction::Mov { x, y })
        } else if n == 0x1 {
            Ok(Instruction::Or { x, y })
        } else if n == 0x2 {
            Ok(Instruction::And { x, y })
        } else if n == 0x3 {
            Ok(Instruction::Xor { x, y })
        } else if n == 0x4 {
            Ok(Instruction::Add { x, y })
        } else if n == 0x5 {
            Ok(Instruction::Sub { x, y })
        } else if n == 0x6 {
            Ok(Instruction::Shr { x, y })
        } else if n == 0x7 {
            Ok(Instruction::SubN { x, y })
        } else if n == 0xE {
            Ok(Instruction::Shl { x, y })
        } else {
            Err(bad_alu_reason(word))
        }
    } else if a == 0x9 {
        if n == 0 {
            Ok(Instruction::SkipNeReg { x, y })
        } else {
            Err(bad_opcode_reason(word))
        }
    } else if a == 0xA {
        Ok(Instruction::LoadIndex { addr })
    } else if a == 0xB {
        Ok(Instruction::JumpRel { addr })
    } else if a == 0xC {
        Ok(Instruction::Random { x, kk })
    } else if a == 0xD {
        Ok(Instruction::Draw { x, y, n })
    } else if a == 0xE {
        if kk == 0x9E {
            Ok(Instruction::SkipKey { x })
        } else if kk == 0xA1 {
            Ok(Instruction::SkipNoKey { x })
        } else {
            Err(bad_key_reason(word))
        }
    } else {
        if kk == 0x07 {
            Ok(Instruction::GetDelay { x })
        } else if kk == 0x0A {
            Ok(Instruction::WaitKey { x })
        } else if kk == 0x15 {
            Ok(Instruction::SetDelay { x })
        } else if kk == 0x18 {
            Ok(Instruction::SetSound { x })
        } else if kk == 0x1E {
            Ok(Instruction::AddIndex { x })
        } else if kk == 0x29 {
            Ok(Instruction::FontAddr { x })
        } else if kk == 0x33 {
            Ok(Instruction::Bcd { x })
        } else if kk == 0x55 {
            Ok(Instruction::Store { x })
        } else if kk == 0x65 {
            Ok(Instruction::LoadRegs { x })
        } else {
            Err(bad_misc_reason(word))
        }
    }
}

/// The four digits of an instruction word.
pub fn split_opcode(word: u16) -> (digits: (u8, u8, u8, u8))
    ensures
        digits == nibbles(word),
        digits.0 < 16 && digits.1 < 16 && digits.2 < 16 && digits.3 < 16,
{
    ((word / 4096) as u8, (word / 256 % 16) as u8, (word / 16 % 16) as u8, (word % 16) as u8)
}

fn invalid(prefix: &str, value: u16, width: usize, suffix: &str) -> (e: Chip8Error)
    ensures
        e@ == Fault::InvalidInstruction(
            prefix@ + hex_padded(value as nat, true, width as nat) + suffix@,
        ),
{
    let mut reason: String = String::from_str(prefix);
    push_hex_padded(&mut reason, value as u64, true, width);
    reason.append(suffix);
    Chip8Error::InvalidInstruction(InvalidInstructionError::new(reason.as_str()))
}

/// Every instruction that a word encodes is well formed.
pub proof fn lemma_decoded_wf(word: u16)
    ensures
        decoded(word) is Ok ==> decoded(word)->Ok_0.wf(),
{
}

/// Decodes an instruction word. Fails with `InvalidInstruction`, and a reason that
/// names the word or the part of it at fault, where the word encodes no instruction.
pub fn decode(word: u16) -> (res: Result<Instruction, Chip8Error>)
    ensures
        match decoded(word) {
            Ok(instr) => res == Ok::<Instruction, Chip8Error>(instr) && instr.wf(),
            Err(reason) => res is Err && res->Err_0@ == Fault::InvalidInstruction(reason),
        },
{
    let (a, x, y, n) = split_opcode(word);
    let addr: u16 = word % 4096;
    let kk: u8 = (word % 256) as u8;
    proof {
        lemma_hex_padded_one(word as nat, true);
        lemma_hex_padded_one((word % 16) as nat, true);
        reveal_strlit("");
        assert(forall|s: Seq<char>| #[trigger] (s + ""@) =~= s);
    }
    match a {
        0x0 => {
            if word == 0x00E0 {
                Ok(Instruction::Clear)
            } else if word == 0x00EE {
                Ok(Instruction::Return)
            } else {
                Err(invalid("wrong operand 0x", addr, 3, " for opcode 0x0 (should be 0x0E0 or 0x0EE)"))
            }
        },
        0x1 => Ok(Instruction::Jump { addr }),
        0x2 => Ok(Instruction::Call { addr }),
        0x3 => Ok(Instruction::SkipEqImm { x, kk }),
        0x4 => Ok(Instruction::SkipNeImm { x, kk }),
        0x5 => {
            if n == 0 {
                Ok(Instruction::SkipEqReg { x, y })
            } else {
                Err(invalid("invalid opcode 0x", word, 1, ""))
            }
        },
        0x6 => Ok(Instruction::LoadImm { x, kk }),
        0x7 => Ok(Instruction::AddImm { x, kk }),
        0x8 => {
            match n {
                0x0 => Ok(Instruction::Mov { x, y }),
                0x1 => Ok(Instruction::Or { x, y }),
                0x2 => Ok(Instruction::And { x, y }),
                0x3 => Ok(Instruction::Xor { x, y }),
                0x4 => Ok(Instruction::Add { x, y }),
                0x5 => Ok(Instruction::Sub { x, y }),
                0x6 => Ok(Instruction::Shr { x, y }),
                0x7 => Ok(Instruction::SubN { x, y }),
                0xE => Ok(Instruction::Shl { x, y }),
                _ => Err(
                    invalid(
                        "wrong operation 0x",
                        n as u16,
                        1,
                        " for opcode 0x8 (should be 0x0 -> 0x7 or 0xE)",
                    ),
                ),
            }
        },
        0x9 => {
            if n == 0 {
                Ok(Instruction::SkipNeReg { x, y })
            } else {
                Err(invalid("invalid opcode 0x", word, 1, ""))
            }
        },
        0xA => Ok(Instruction::LoadIndex { addr }),
        0xB => Ok(Instruction::JumpRel { addr }),
        0xC => Ok(Instruction::Random { x, kk }),
        0xD => Ok(Instruction::Draw { x, y, n }),
        0xE => {
            match kk {
                0x9E => Ok(Instruction::SkipKey { x }),
                0xA1 => Ok(Instruction::SkipNoKey { x }),
                _ => Err(
                    invalid(
                        "wrong operand 0x",
                        addr,
                        3,
                        " for opcode 0xE (should be 0xE[X]9E or 0xE[X]A1)",
                    ),
                ),
            }
        },
        _ => {
            match kk {
                0x07 => Ok(Instruction::GetDelay { x }),
                0x0A => Ok(Instruction::WaitKey { x }),
                0x15 => Ok(Instruction::SetDelay { x }),
                0x18 => Ok(Instruction::SetSound { x }),
                0x1E => Ok(Instruction::AddIndex { x }),
                0x29 => Ok(Instruction::FontAddr { x }),
                0x33 => Ok(Instruction::Bcd { x }),
                0x55 => Ok(Instruction::Store { x }),
                0x65 => Ok(Instruction::LoadRegs { x }),
                _ => Err(invalid("Wrong operand 0x", addr, 3, " for opcode 0xF")),
            }
        },
    }
}

} // verus!
