//! Instructions in words, for a reader who looks at a stopped machine.
//!
//! An instruction is described from its four digits. Given the state in which it is
//! about to be carried out, the text also says what it is going to do there.

use vstd::prelude::*;
use crate::cpu::{word_at, wrapping_difference};
use crate::display::{is_lit, pixel_lit};
use crate::mem::Memory16Bit;
use crate::systems::{Chip8State, StateView, CHIP8_STACK_BASE_ADDR};
use crate::text::{bool_text, hex_digits, push_bool, push_hex};

verus! {

broadcast use crate::mem::lemma_mem_size;

/// Character of a lit pixel.
pub const PIXEL_ON: char = '█';

/// Character of a dark pixel.
pub const PIXEL_OFF: char = '░';

/// The eight pixels of `byte` as characters.
pub open spec fn row_text(byte: u8) -> Seq<char> {
    Seq::new(
        8,
        |k: int|
            if pixel_lit(byte, k) {
                PIXEL_ON
            } else {
                PIXEL_OFF
            },
    )
}

/// The rows of a sprite as lines of eight characters, each followed by a line feed.
pub open spec fn rows_text(sprite: Seq<u8>) -> Seq<char>
    decreases sprite.len(),
{
    if sprite.len() == 0 {
        Seq::empty()
    } else {
        rows_text(sprite.drop_last()) + row_text(sprite.last()) + seq!['\n']
    }
}

/// The text of a sprite: every row as a line of eight characters followed by a line
/// feed, and after them the last row once more, without a line feed. A sprite
/// without rows has no text.
pub open spec fn sprite_text(sprite: Seq<u8>) -> Seq<char> {
    if sprite.len() == 0 {
        Seq::empty()
    } else {
        rows_text(sprite) + row_text(sprite.last())
    }
}

/// Whether each of the four digits of an instruction is below sixteen.
pub open spec fn opcode_ok(opcode: (u8, u8, u8, u8)) -> bool {
    opcode.0 < 16 && opcode.1 < 16 && opcode.2 < 16 && opcode.3 < 16
}

/// A number in lower-case hexadecimal.
pub open spec fn low(n: int) -> Seq<char> {
    hex_digits(n as nat, false)
}

/// The name of register `x`.
pub open spec fn reg_text(x: u8) -> Seq<char> {
    "v"@ + hex_digits(x as nat, true)
}

/// `name` and the names of two registers.
pub open spec fn two_regs_text(name: Seq<char>, x: u8, y: u8) -> Seq<char> {
    name + reg_text(x) + ", "@ + reg_text(y)
}

/// `name`, the name of a register and a byte of two digits.
pub open spec fn reg_byte_text(name: Seq<char>, x: u8, high: u8, low_digit: u8) -> Seq<char> {
    name + reg_text(x) + ", "@ + low(high as int) + low(low_digit as int)
}

/// The view of a state that may be missing.
pub open spec fn state_view(state: Option<Chip8State>) -> Option<StateView> {
    match state {
        Some(s) => Some(s@),
        None => None,
    }
}

/// `head`, and, where the state is known and the two instructions behind the skip
/// can be read, whether the skip is taken, the word that comes next and the word
/// that is left out.
pub open spec fn branch_text(head: Seq<char>, skip: bool, state: Option<StateView>) -> Seq<char> {
    match state {
        Some(s) => if s.pc + 6 <= 4096 {
            let near = word_at(s.ram, s.pc + 2);
            let far = word_at(s.ram, s.pc + 4);
            head + " ("@ + bool_text(skip) + " → "@ + low(
                if skip {
                    far as int
                } else {
                    near as int
                },
            ) + ", avoids "@ + low(
                if skip {
                    near as int
                } else {
                    far as int
                },
            ) + ")"@
        } else {
            head
        },
        None => head,
    }
}

/// A return, with the address that lies on top of the stack where the state is
/// known.
pub open spec fn return_text(state: Option<StateView>) -> Seq<char> {
    match state {
        Some(s) => if s.sp < CHIP8_STACK_BASE_ADDR + 2 {
            "INVALID RTS from subroutine"@
        } else if s.sp > 4096 {
            "RTS"@
        } else {
            "RTS (→ "@ + low(word_at(s.ram, s.sp - 2) as int) + ")"@
        },
        None => "RTS"@,
    }
}

/// `head`, and, where the state is known, the result of the sum or difference and
/// the flag.
pub open spec fn result_text(head: Seq<char>, state: Option<StateView>, val: int, vf: bool) -> Seq<
    char,
> {
    match state {
        Some(s) => head + " → "@ + low(val) + ", vF = "@ + bool_text(vf),
        None => head,
    }
}

/// `head`, and, where the state is known, the bit that the shift moves to the flag.
pub open spec fn shifted_text(head: Seq<char>, state: Option<StateView>, bit: int) -> Seq<char> {
    match state {
        Some(s) => head + " → vF = "@ + low(bit),
        None => head,
    }
}

/// An operation on two registers.
pub open spec fn alu_text(x: u8, y: u8, n: u8, state: Option<StateView>) -> Seq<char> {
    let vx = match state {
        Some(s) => s.v[x as int] as int,
        None => 0,
    };
    let vy = match state {
        Some(s) => s.v[y as int] as int,
        None => 0,
    };
    if n == 0x0 {
        two_regs_text("MOV "@, x, y)
    } else if n == 0x1 {
        two_regs_text("OR "@, x, y)
    } else if n == 0x2 {
        two_regs_text("AND "@, x, y)
    } else if n == 0x3 {
        two_regs_text("XOR "@, x, y)
    } else if n == 0x4 {
        result_text(two_regs_text("ADD "@, x, y), state, (vx + vy) % 256, vx + vy > 255)
    } else if n == 0x5 {
        result_text(two_regs_text("SUB "@, x, y), state, (vx - vy) % 256, vx >= vy)
    } else if n == 0x6 {
        shifted_text(two_regs_text("SHR "@, x, y), state, vy % 2)
    } else if n == 0x7 {
        result_text(two_regs_text("SUB "@, y, x), state, (vy - vx) % 256, vy >= vx)
    } else if n == 0xE {
        shifted_text(two_regs_text("SHL "@, x, y), state, vy / 128)
    } else {
        "INVALID"@
    }
}

/// A jump to `addr` plus `V0`, with the address that this comes to where the state
/// is known.
pub open spec fn jump_rel_text(addr: int, state: Option<StateView>) -> Seq<char> {
    match state {
        Some(s) => "JR v0, "@ + low(addr) + " → "@ + low((s.v[0] + addr) % 4096),
        None => "JR v0, "@ + low(addr),
    }
}

/// The drawing of a sprite, with the corner and the sprite itself where the state
/// is known.
pub open spec fn draw_text(x: u8, y: u8, n: u8, state: Option<StateView>) -> Seq<char> {
    match state {
        Some(s) => if s.i + n > 4096 {
            "DRAW (invalid sprite)"@
        } else {
            "DRAW "@ + reg_text(x) + "("@ + low(s.v[x as int] as int) + "), "@ + reg_text(y) + "("@
                + low(s.v[y as int] as int) + "), "@ + low(n as int) + "\n"@ + sprite_text(
                s.ram.subrange(s.i as int, s.i + n),
            )
        },
        None => "DRAW "@ + reg_text(x) + ", "@ + reg_text(y) + ", "@ + low(n as int),
    }
}

/// An operation on the timers, the keys, the index register or the memory.
pub open spec fn misc_text(x: u8, kk: int) -> Seq<char> {
    if kk == 0x07 {
        "GETD "@ + reg_text(x)
    } else if kk == 0x0A {
        "WAITKEY "@ + reg_text(x)
    } else if kk == 0x15 {
        "SETD "@ + reg_text(x)
    } else if kk == 0x18 {
        "GETS "@ + reg_text(x)
    } else if kk == 0x1E {
        "ADDI "@ + reg_text(x)
    } else if kk == 0x29 {
        "LOADFNT "@ + reg_text(x)
    } else if kk == 0x33 {
        "DCB "@ + reg_text(x)
    } else if kk == 0x55 {
        "STORE "@ + hex_digits(x as nat, true)
    } else if kk == 0x65 {
        "LOAD "@ + hex_digits(x as nat, true)
    } else {
        "INVALID"@
    }
}

/// The instruction with the digits `opcode` in words; `INVALID` where the digits
/// encode none.
pub open spec fn disas_text(opcode: (u8, u8, u8, u8), state: Option<StateView>) -> Seq<char> {
    let (a, x, y, n) = opcode;
    let kk = y * 16 + n;
    let addr = x * 256 + y * 16 + n;
    let vx = match state {
        Some(s) => s.v[x as int],
        None => 0,
    };
    let vy = match state {
        Some(s) => s.v[y as int],
        None => 0,
    };
    if a == 0x0 {
        if addr == 0x0E0 {
            "CLS"@
        } else if addr == 0x0EE {
            return_text(state)
        } else {
            "INVALID"@
        }
    } else if a == 0x1 {
        "JMP "@ + low(x as int) + low(y as int) + low(n as int)
    } else if a == 0x2 {
        "CALL "@ + low(x as int) + low(y as int) + low(n as int)
    } else if a == 0x3 {
        branch_text(reg_byte_text("SKIP.EQ "@, x, y, n), vx == kk, state)
    } else if a == 0x4 {
        branch_text(reg_byte_text("SKIP.NE "@, x, y, n), vx != kk, state)
    } else if a == 0x5 {
        if n == 0 {
            branch_text(two_regs_text("SKIP.EQ "@, x, y), vx == vy, state)
        } else {
            "INVALID"@
        }
    } else if a == 0x6 {
        "SET "@ + reg_text(x) + ", "@ + low(kk)
    } else if a == 0x7 {
        "ADD "@ + reg_text(x) + ", "@ + low(kk)
    } else if a == 0x8 {
        alu_text(x, y, n, state)
    } else if a == 0x9 {
        if n == 0 {
            branch_text(two_regs_text("SKIP.NEQ "@, x, y), vx != vy, state)
        } else {
            "INVALID"@
        }
    } else if a == 0xA {
        "SETI "@ + low(addr)
    } else if a == 0xB {
        jump_rel_text(addr, state)
    } else if a == 0xC {
        "RAND "@ + reg_text(x) + " "@ + low(kk)
    } else if a == 0xD {
        draw_text(x, y, n, state)
    } else if a == 0xE {
        if kk == 0x9E {
            "PRESS "@ + reg_text(x)
        } else if kk == 0xA1 {
            "NPRESS "@ + reg_text(x)
        } else {
            "INVALID"@
        }
    } else {
        misc_text(x, kk)
    }
}

fn push_row(out: &mut String, byte: u8)
    ensures
        final(out)@ == old(out)@ + row_text(byte),
{
    let ghost start = out@;
    let mut k: u8 = 0;
    while k < 8
        invariant
            k <= 8,
            out@ == start + row_text(byte).subrange(0, k as int),
        decreases 8 - k,
    {
        out.push(if is_lit(byte, k) {
            PIXEL_ON
        } else {
            PIXEL_OFF
        });
        k = k + 1;
        assert(out@ =~= start + row_text(byte).subrange(0, k as int));
    }
    assert(row_text(byte).subrange(0, 8) =~= row_text(byte));
}

fn push_sprite(out: &mut String, sprite: &[u8])
    ensures
        final(out)@ == old(out)@ + sprite_text(sprite@),
{
    let ghost start = out@;
    let mut r: usize = 0;
    assert(out@ =~= start + rows_text(sprite@.subrange(0, 0)));
    while r < sprite.len()
        invariant
            r <= sprite@.len(),
            out@ == start + rows_text(sprite@.subrange(0, r as int)),
        decreases sprite@.len() - r,
    {
        push_row(out, sprite[r]);
        out.push('\n');
        proof {
            let done = sprite@.subrange(0, r as int);
            let more = sprite@.subrange(0, r + 1);
            assert(more.drop_last() =~= done);
            assert(more.last() == sprite@[r as int]);
            assert(out@ =~= start + rows_text(more));
        }
        r = r + 1;
    }
    assert(sprite@.subrange(0, r as int) =~= sprite@);
    if r > 0 {
        push_row(out, sprite[r - 1]);
        assert(out@ =~= start + sprite_text(sprite@));
    } else {
        assert(out@ =~= start + sprite_text(sprite@));
    }
}

/// The text of a sprite: every row as a line of eight characters, a full block for a
/// lit pixel and a light shade for a dark one, followed by a line feed; and after
/// them the last row once more, without a line feed.
pub fn sprite_string(sprite: Vec<u8>) -> (res: String)
    ensures
        res@ == sprite_text(sprite@),
{
    let mut res: String = String::new();
    push_sprite(&mut res, sprite.as_slice());
    assert(Seq::<char>::empty() + sprite_text(sprite@) =~= sprite_text(sprite@));
    res
}

fn push_low(out: &mut String, n: u16)
    ensures
        final(out)@ == old(out)@ + low(n as int),
{
    push_hex(out, n as u64, false);
}

fn push_reg(out: &mut String, x: u8)
    ensures
        final(out)@ == old(out)@ + reg_text(x),
{
    let ghost start = out@;
    out.append("v");
    push_hex(out, x as u64, true);
    assert(out@ =~= start + reg_text(x));
}

fn two_regs(name: &str, x: u8, y: u8) -> (text: String)
    ensures
        text@ == two_regs_text(name@, x, y),
{
    let mut text: String = String::from_str(name);
    push_reg(&mut text, x);
    text.append(", ");
    push_reg(&mut text, y);
    text
}

fn reg_byte(name: &str, x: u8, high: u8, low_digit: u8) -> (text: String)
    ensures
        text@ == reg_byte_text(name@, x, high, low_digit),
{
    let mut text: String = String::from_str(name);
    push_reg(&mut text, x);
    text.append(", ");
    push_low(&mut text, high as u16);
    push_low(&mut text, low_digit as u16);
    text
}

fn one_reg(name: &str, x: u8) -> (text: String)
    ensures
        text@ == name@ + reg_text(x),
{
    let mut text: String = String::from_str(name);
    push_reg(&mut text, x);
    text
}

fn reg_value(name: &str, x: u8, link: &str, val: u16) -> (text: String)
    ensures
        text@ == name@ + reg_text(x) + link@ + low(val as int),
{
    let mut text: String = String::from_str(name);
    push_reg(&mut text, x);
    text.append(link);
    push_low(&mut text, val);
    text
}

fn three_digits(name: &str, x: u8, y: u8, n: u8) -> (text: String)
    ensures
        text@ == name@ + low(x as int) + low(y as int) + low(n as int),
{
    let mut text: String = String::from_str(name);
    push_low(&mut text, x as u16);
    push_low(&mut text, y as u16);
    push_low(&mut text, n as u16);
    text
}

fn branch(head: String, skip: bool, state: &Option<Chip8State>) -> (text: String)
    ensures
        text@ == branch_text(head@, skip, state_view(*state)),
{
    let mut text: String = head;
    match state {
        Some(s) => {
            if s.pc as u32 + 6 <= 4096 {
                match s.ram.get(s.pc + 2, 4) {
                    Ok(bytes) => {
                        let near: u16 = bytes[0] as u16 * 256 + bytes[1] as u16;
                        let far: u16 = bytes[2] as u16 * 256 + bytes[3] as u16;
                        text.append(" (");
                        push_bool(&mut text, skip);
                        text.append(" → ");
                        push_low(&mut text, if skip {
                            far
                        } else {
                            near
                        });
                        text.append(", avoids ");
                        push_low(&mut text, if skip {
                            near
                        } else {
                            far
                        });
                        text.append(")");
                    },
                    Err(_) => {},
                }
            }
        },
        None => {},
    }
    text
}

fn with_result(head: String, state: &Option<Chip8State>, val: u8, vf: bool) -> (text: String)
    ensures
        text@ == result_text(head@, state_view(*state), val as int, vf),
{
    let mut text: String = head;
    if state.is_some() {
        text.append(" → ");
        push_low(&mut text, val as u16);
        text.append(", vF = ");
        push_bool(&mut text, vf);
    }
    text
}

fn with_shifted(head: String, state: &Option<Chip8State>, bit: u8) -> (text: String)
    ensures
        text@ == shifted_text(head@, state_view(*state), bit as int),
{
    let mut text: String = head;
    if state.is_some() {
        text.append(" → vF = ");
        push_low(&mut text, bit as u16);
    }
    text
}

fn disas_return(state: &Option<Chip8State>) -> (text: String)
    ensures
        text@ == return_text(state_view(*state)),
{
    match state {
        Some(s) => {
            if s.sp < CHIP8_STACK_BASE_ADDR + 2 {
                String::from_str("INVALID RTS from subroutine")
            } else {
                match s.ram.get(s.sp - 2, 2) {
                    Ok(bytes) => {
                        let mut text: String = String::from_str("RTS (→ ");
                        push_low(&mut text, bytes[0] as u16 * 256 + bytes[1] as u16);
                        text.append(")");
                        text
                    },
                    Err(_) => String::from_str("RTS"),
                }
            }
        },
        None => String::from_str("RTS"),
    }
}

fn disas_sum(x: u8, y: u8, vx: u8, vy: u8, state: &Option<Chip8State>) -> (text: String)
    ensures
        text@ == result_text(
            two_regs_text("ADD "@, x, y),
            state_view(*state),
            (vx + vy) % 256,
            vx + vy > 255,
        ),
{
    let sum: u16 = vx as u16 + vy as u16;
    with_result(two_regs("ADD ", x, y), state, (sum % 256) as u8, sum > 255)
}

fn disas_difference(x: u8, y: u8, vx: u8, vy: u8, state: &Option<Chip8State>) -> (text: String)
    ensures
        text@ == result_text(
            two_regs_text("SUB "@, x, y),
            state_view(*state),
            (vx - vy) % 256,
            vx >= vy,
        ),
{
    let (val, _) = wrapping_difference(vx, vy);
    with_result(two_regs("SUB ", x, y), state, val, vx >= vy)
}

fn disas_alu(x: u8, y: u8, n: u8, state: &Option<Chip8State>) -> (text: String)
    requires
        x < 16,
        y < 16,
    ensures
        text@ == alu_text(x, y, n, state_view(*state)),
{
    let vx: u8 = match state {
        Some(s) => s.v[x as usize],
        None => 0,
    };
    let vy: u8 = match state {
        Some(s) => s.v[y as usize],
        None => 0,
    };
    match n {
        0x0 => two_regs("MOV ", x, y),
        0x1 => two_regs("OR ", x, y),
        0x2 => two_regs("AND ", x, y),
        0x3 => two_regs("XOR ", x, y),
        0x4 => disas_sum(x, y, vx, vy, state),
        0x5 => disas_difference(x, y, vx, vy, state),
        0x6 => with_shifted(two_regs("SHR ", x, y), state, vy % 2),
        0x7 => disas_difference(y, x, vy, vx, state),
        0xE => with_shifted(two_regs("SHL ", x, y), state, vy / 128),
        _ => String::from_str("INVALID"),
    }
}

fn disas_jump_rel(addr: u16, state: &Option<Chip8State>) -> (text: String)
    requires
        addr < 4096,
    ensures
        text@ == jump_rel_text(addr as int, state_view(*state)),
{
    let mut text: String = String::from_str("JR v0, ");
    push_low(&mut text, addr);
    match state {
        Some(s) => {
            text.append(" → ");
            push_low(&mut text, (s.v[0] as u16 + addr) % 4096);
        },
        None => {},
    }
    text
}

fn disas_draw(x: u8, y: u8, n: u8, state: &Option<Chip8State>) -> (text: String)
    requires
        x < 16,
        y < 16,
    ensures
        text@ == draw_text(x, y, n, state_view(*state)),
{
    match state {
        Some(s) => {
            match s.ram.get(s.i, n as u16) {
                Ok(sprite) => {
                    let mut text: String = String::from_str("DRAW ");
                    push_reg(&mut text, x);
                    text.append("(");
                    push_low(&mut text, s.v[x as usize] as u16);
                    text.append("), ");
                    push_reg(&mut text, y);
                    text.append("(");
                    push_low(&mut text, s.v[y as usize] as u16);
                    text.append("), ");
                    push_low(&mut text, n as u16);
                    text.append("\n");
                    push_sprite(&mut text, sprite);
                    text
                },
                Err(_) => String::from_str("DRAW (invalid sprite)"),
            }
        },
        None => {
            let mut text: String = String::from_str("DRAW ");
            push_reg(&mut text, x);
            text.append(", ");
            push_reg(&mut text, y);
            text.append(", ");
            push_low(&mut text, n as u16);
            text
        },
    }
}

fn disas_misc(x: u8, kk: u8) -> (text: String)
    ensures
        text@ == misc_text(x, kk as int),
{
    match kk {
        0x07 => one_reg("GETD ", x),
        0x0A => one_reg("WAITKEY ", x),
        0x15 => one_reg("SETD ", x),
        0x18 => one_reg("GETS ", x),
        0x1E => one_reg("ADDI ", x),
        0x29 => one_reg("LOADFNT ", x),
        0x33 => one_reg("DCB ", x),
        0x55 => {
            let mut text: String = String::from_str("STORE ");
            push_hex(&mut text, x as u64, true);
            text
        },
        0x65 => {
            let mut text: String = String::from_str("LOAD ");
            push_hex(&mut text, x as u64, true);
            text
        },
        _ => String::from_str("INVALID"),
    }
}

/// Describes the instruction with the digits `opcode`. With the state in which the
/// instruction is about to be carried out, the text also tells what a skip, a sum, a
/// difference, a shift, a relative jump, a return or a drawing is going to do.
pub fn disas_instruction(opcode: (u8, u8, u8, u8), state: Option<Chip8State>) -> (text: String)
    requires
        opcode_ok(opcode),
    ensures
        text@ == disas_text(opcode, state_view(state)),
{
    let (a, x, y, n) = opcode;
    let kk: u8 = y * 16 + n;
    let addr: u16 = x as u16 * 256 + y as u16 * 16 + n as u16;
    let vx: u8 = match &state {
        Some(s) => s.v[x as usize],
        None => 0,
    };
    let vy: u8 = match &state {
        Some(s) => s.v[y as usize],
        None => 0,
    };
    match a {
        0x0 => {
            if addr == 0x0E0 {
                String::from_str("CLS")
            } else if addr == 0x0EE {
                disas_return(&state)
            } else {
                String::from_str("INVALID")
            }
        },
        0x1 => three_digits("JMP ", x, y, n),
        0x2 => three_digits("CALL ", x, y, n),
        0x3 => branch(reg_byte("SKIP.EQ ", x, y, n), vx == kk, &state),
        0x4 => branch(reg_byte("SKIP.NE ", x, y, n), vx != kk, &state),
        0x5 => {
            if n == 0 {
                branch(two_regs("SKIP.EQ ", x, y), vx == vy, &state)
            } else {
                String::from_str("INVALID")
            }
        },
        0x6 => reg_value("SET ", x, ", ", kk as u16),
        0x7 => reg_value("ADD ", x, ", ", kk as u16),
        0x8 => disas_alu(x, y, n, &state),
        0x9 => {
            if n == 0 {
                branch(two_regs("SKIP.NEQ ", x, y), vx != vy, &state)
            } else {
                String::from_str("INVALID")
            }
        },
        0xA => {
            let mut text: String = String::from_str("SETI ");
            push_low(&mut text, addr);
            text
        },
        0xB => disas_jump_rel(addr, &state),
        0xC => reg_value("RAND ", x, " ", kk as u16),
        0xD => disas_draw(x, y, n, &state),
        0xE => {
            if kk == 0x9E {
                one_reg("PRESS ", x)
            } else if kk == 0xA1 {
                one_reg("NPRESS ", x)
            } else {
                String::from_str("INVALID")
            }
        },
        _ => disas_misc(x, kk),
    }
}

} // verus!
