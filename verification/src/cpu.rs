//! What each instruction does to the registers, the timers and the memory.

use vstd::prelude::*;
use vstd::slice::{slice_subrange, slice_to_vec};
use crate::errors::{Chip8Error, Fault, InvalidAccessError, InvalidInstructionError};
use crate::input::Keypad;
use crate::isa::{decoded, Instruction};
use crate::mem::{
    blit,
    blit_collides,
    byte_write_error,
    byte_write_reason,
    unreachable_reason,
    written,
    Memory16Bit,
};
use crate::systems::{
    Chip8State,
    StateView,
    CHIP8_DISP_BUF_ADDR,
    CHIP8_DISP_BUF_LEN,
    CHIP8_FONT_HEIGHT,
    CHIP8_FONT_START,
    CHIP8_STACK_BASE_ADDR,
};
use crate::text::{hex_digits, hex_padded, push_hex, push_hex_padded};

verus! {

broadcast use crate::mem::lemma_mem_size;

/// What the host or the machine around the state has to do once an instruction has
/// been carried out.
#[derive(Clone, Copy, Debug, PartialEq, Eq, Structural)]
pub enum Effect {
    /// Nothing.
    Retired,
    /// A tone is to sound for this many ticks.
    Tone(u8),
    /// A sprite was drawn.
    Drew,
    /// The instruction waits for a key, whose number is to go to this register. The
    /// state is as it was.
    AwaitKey(u8),
}

/// The address of the instruction after the one at `pc`.
pub open spec fn next_pc(pc: u16) -> u16 {
    ((pc + 2) % 4096) as u16
}

/// The address of the instruction after the one at `pc`, or of the one after that.
pub open spec fn skip_pc(pc: u16, skip: bool) -> u16 {
    if skip {
        ((pc + 4) % 4096) as u16
    } else {
        next_pc(pc)
    }
}

/// The two bytes at `addr` as one number, the high byte first.
pub open spec fn word_at(ram: Seq<u8>, addr: int) -> u16 {
    (ram[addr] * 256 + ram[addr + 1]) as u16
}

/// One for true, zero for false.
pub open spec fn flag(b: bool) -> u8 {
    if b {
        1
    } else {
        0
    }
}

/// The memory `ram` with every pixel of the display put out.
pub open spec fn cleared(ram: Seq<u8>) -> Seq<u8> {
    Seq::new(
        ram.len(),
        |a: int|
            if CHIP8_DISP_BUF_ADDR as int <= a < CHIP8_DISP_BUF_ADDR + CHIP8_DISP_BUF_LEN {
                0u8
            } else {
                ram[a]
            },
    )
}

/// The three decimal digits of `b`, the hundreds first.
pub open spec fn bcd_digits(b: u8) -> Seq<u8> {
    seq![b / 100, b % 100 / 10, b % 10]
}

/// The first address from `addr` on that lies outside the memory.
pub open spec fn first_outside(addr: u16) -> u16 {
    if addr >= 4096 {
        addr
    } else {
        4096
    }
}

/// Reason of a return with nothing on the call stack.
pub open spec fn underflow_reason() -> Seq<char> {
    "tried to return from main subroutine (SP decreased below EA0)"@
}

/// Reason of a call with the call stack full.
pub open spec fn overflow_reason() -> Seq<char> {
    "exceeded stack frame limit"@
}

/// Reason of a failure to write the registers up to `x` at `i`.
pub open spec fn store_reason(x: u8, i: u16) -> Seq<char> {
    "Cannot STORE "@ + hex_digits(x as nat, true) + " bytes of data at 0x"@ + hex_padded(
        i as nat,
        true,
        3,
    )
}

/// Reason of a failure to read the registers up to `x` at `i`.
pub open spec fn load_reason(x: u8, i: u16) -> Seq<char> {
    "Cannot LOAD "@ + hex_digits(x as nat, true) + " bytes of data from 0x"@ + hex_padded(
        i as nat,
        true,
        3,
    )
}

impl StateView {
    /// Whether the program counter and the index register have twelve bits, and the
    /// stack pointer marks a whole number of calls on a stack that lies between its
    /// base and the display buffer.
    pub open spec fn in_bounds(self) -> bool {
        &&& self.pc < 0x1000
        &&& self.i < 0x1000
        &&& CHIP8_STACK_BASE_ADDR <= self.sp <= CHIP8_DISP_BUF_ADDR
        &&& (self.sp - CHIP8_STACK_BASE_ADDR) % 2 == 0
    }

    /// The register `Vx`.
    pub open spec fn reg(self, x: u8) -> u8 {
        self.v[x as int]
    }

    /// The state with `val` in `Vx`.
    pub open spec fn with_reg(self, x: u8, val: u8) -> StateView {
        StateView { v: self.v.update(x as int, val), ..self }
    }

    /// The state with `val` in `Vx` and then `vf` in `VF`.
    pub open spec fn with_flag(self, x: u8, val: u8, vf: u8) -> StateView {
        StateView { v: self.v.update(x as int, val).update(0xF, vf), ..self }
    }

    /// The state with the program counter at the next instruction.
    pub open spec fn advanced(self) -> StateView {
        StateView { pc: next_pc(self.pc), ..self }
    }

    /// The state with the program counter past the next instruction if `skip`, at it
    /// if not.
    pub open spec fn skipping(self, skip: bool) -> StateView {
        StateView { pc: skip_pc(self.pc, skip), ..self }
    }

    /// The instruction word at the program counter; `OutOfRange` where its two bytes
    /// do not lie in the memory.
    pub open spec fn fetched(self) -> Result<u16, Fault> {
        if self.pc + 2 > 4096 {
            Err(Fault::OutOfRange(unreachable_reason(self.pc)))
        } else {
            Ok(word_at(self.ram, self.pc as int))
        }
    }

    /// The instruction that lies at the program counter, where its two bytes can be
    /// read and encode one.
    pub open spec fn next_instruction(self) -> Option<Instruction> {
        match self.fetched() {
            Ok(word) => match decoded(word) {
                Ok(instr) => Some(instr),
                Err(reason) => None,
            },
            Err(fault) => None,
        }
    }

    /// A return: the stack pointer goes down by two and the machine goes on after the
    /// call whose address lies there. `StackUnderflow` where the stack is empty.
    pub open spec fn returned(self) -> Result<(StateView, Effect), Fault> {
        if self.sp < CHIP8_STACK_BASE_ADDR + 2 {
            Err(Fault::StackUnderflow(underflow_reason()))
        } else if self.sp > 4096 {
            Err(Fault::OutOfRange(unreachable_reason((self.sp - 2) as u16)))
        } else {
            Ok(
                (
                    StateView {
                        sp: (self.sp - 2) as u16,
                        pc: next_pc(word_at(self.ram, self.sp - 2)),
                        ..self
                    },
                    Effect::Retired,
                ),
            )
        }
    }

    /// A call: the address of the call goes on the stack, the stack pointer up by
    /// two, and the machine goes on at `addr`. `StackOverflow` where the stack is full.
    pub open spec fn called(self, addr: u16) -> Result<(StateView, Effect), Fault> {
        if self.sp >= CHIP8_DISP_BUF_ADDR {
            Err(Fault::StackOverflow(overflow_reason()))
        } else {
            Ok(
                (
                    StateView {
                        ram: written(
                            self.ram,
                            self.sp as int,
                            seq![(self.pc / 256) as u8, (self.pc % 256) as u8],
                        ),
                        sp: (self.sp + 2) as u16,
                        pc: addr,
                        ..self
                    },
                    Effect::Retired,
                ),
            )
        }
    }

    /// Drawing the `n` bytes at `I` as a sprite at column `Vx`, row `Vy`. `VF` tells
    /// whether a lit pixel was put out. `OutOfRange` where the sprite does not lie in
    /// the memory.
    pub open spec fn drawn(self, x: u8, y: u8, n: u8) -> Result<(StateView, Effect), Fault> {
        if self.i + n > 4096 {
            Err(Fault::OutOfRange(unreachable_reason(self.i)))
        } else {
            let sprite = self.ram.subrange(self.i as int, self.i + n);
            Ok(
                (
                    StateView {
                        ram: blit(self.ram, sprite, self.reg(x), self.reg(y), n),
                        v: self.v.update(
                            0xF,
                            flag(blit_collides(self.ram, sprite, self.reg(x), self.reg(y), n)),
                        ),
                        ..self
                    }.advanced(),
                    Effect::Drew,
                ),
            )
        }
    }

    /// Writing the decimal digits of `Vx` at `I`. Where the three bytes do not all lie
    /// in the memory, nothing is written, and the failure is `OutOfRange` with the
    /// first of their addresses that lies outside.
    pub open spec fn bcd_stored(self, x: u8) -> Result<(StateView, Effect), Fault> {
        if self.i + 3 > 4096 {
            Err(Fault::OutOfRange(byte_write_reason(first_outside(self.i))))
        } else {
            Ok(
                (
                    StateView {
                        ram: written(self.ram, self.i as int, bcd_digits(self.reg(x))),
                        ..self
                    }.advanced(),
                    Effect::Retired,
                ),
            )
        }
    }

    /// Writing `V0` to `Vx` at `I`, which then points behind them. `OutOfRange`, and
    /// nothing written, where they do not lie in the memory.
    pub open spec fn stored(self, x: u8) -> Result<(StateView, Effect), Fault> {
        if self.i + x > 0xFFF {
            Err(Fault::OutOfRange(store_reason(x, self.i)))
        } else {
            Ok(
                (
                    StateView {
                        ram: written(self.ram, self.i as int, self.v.subrange(0, x + 1)),
                        i: ((self.i + x + 1) % 4096) as u16,
                        ..self
                    }.advanced(),
                    Effect::Retired,
                ),
            )
        }
    }

    /// Reading `V0` to `Vx` from `I`, which then points behind them. `OutOfRange`, and
    /// nothing read, where they do not lie in the memory.
    pub open spec fn loaded(self, x: u8) -> Result<(StateView, Effect), Fault> {
        if self.i + x > 0xFFF {
            Err(Fault::OutOfRange(load_reason(x, self.i)))
        } else {
            Ok(
                (
                    StateView {
                        v: self.ram.subrange(self.i as int, self.i + x + 1) + self.v.subrange(
                            x + 1,
                            16,
                        ),
                        i: ((self.i + x + 1) % 4096) as u16,
                        ..self
                    }.advanced(),
                    Effect::Retired,
                ),
            )
        }
    }

    /// The state after `instr`, with what is left to do; or why `instr` cannot be
    /// carried out. `keys` is the keypad, `random` the byte that chance gave.
    pub open spec fn executed(self, instr: Instruction, keys: Keypad, random: u8) -> Result<
        (StateView, Effect),
        Fault,
    > {
        match instr {
            Instruction::Clear => Ok(
                (StateView { ram: cleared(self.ram), ..self }.advanced(), Effect::Retired),
            ),
            Instruction::Return => self.returned(),
            Instruction::Jump { addr } => Ok((StateView { pc: addr, ..self }, Effect::Retired)),
            Instruction::Call { addr } => self.called(addr),
            Instruction::SkipEqImm { x, kk } => Ok(
                (self.skipping(self.reg(x) == kk), Effect::Retired),
            ),
            Instruction::SkipNeImm { x, kk } => Ok(
                (self.skipping(self.reg(x) != kk), Effect::Retired),
            ),
            Instruction::SkipEqReg { x, y } => Ok(
                (self.skipping(self.reg(x) == self.reg(y)), Effect::Retired),
            ),
            Instruction::SkipNeReg { x, y } => Ok(
                (self.skipping(self.reg(x) != self.reg(y)), Effect::Retired),
            ),
            Instruction::LoadImm { x, kk } => Ok((self.with_reg(x, kk).advanced(), Effect::Retired)),
            Instruction::AddImm { x, kk } => Ok(
                (
                    self.with_reg(x, ((self.reg(x) + kk) % 256) as u8).advanced(),
                    Effect::Retired,
                ),
            ),
            Instruction::Mov { x, y } => Ok(
                (self.with_reg(x, self.reg(y)).advanced(), Effect::Retired),
            ),
            Instruction::Or { x, y } => Ok(
                (self.with_flag(x, self.reg(x) | self.reg(y), 0).advanced(), Effect::Retired),
            ),
            Instruction::And { x, y } => Ok(
                (self.with_flag(x, self.reg(x) & self.reg(y), 0).advanced(), Effect::Retired),
            ),
            Instruction::Xor { x, y } => Ok(
                (self.with_flag(x, self.reg(x) ^ self.reg(y), 0).advanced(), Effect::Retired),
            ),
            Instruction::Add { x, y } => Ok(
                (
                    self.with_flag(
                        x,
                        ((self.reg(x) + self.reg(y)) % 256) as u8,
                        flag(self.reg(x) + self.reg(y) > 255),
                    ).advanced(),
                    Effect::Retired,
                ),
            ),
            Instruction::Sub { x, y } => Ok(
                (
                    self.with_flag(
                        x,
                        ((self.reg(x) - self.reg(y)) % 256) as u8,
                        flag(self.reg(x) >= self.reg(y)),
                    ).advanced(),
                    Effect::Retired,
                ),
            ),
            Instruction::Shr { x, y } => Ok(
                (
                    self.with_flag(x, self.reg(y) / 2, self.reg(y) % 2).advanced(),
                    Effect::Retired,
                ),
            ),
            Instruction::SubN { x, y } => Ok(
                (
                    self.with_flag(
                        x,
                        ((self.reg(y) - self.reg(x)) % 256) as u8,
                        flag(self.reg(y) >= self.reg(x)),
                    ).advanced(),
                    Effect::Retired,
                ),
            ),
            Instruction::Shl { x, y } => Ok(
                (
                    self.with_flag(
                        x,
                        ((self.reg(y) * 2) % 256) as u8,
                        self.reg(y) / 128,
                    ).advanced(),
                    Effect::Retired,
                ),
            ),
            Instruction::LoadIndex { addr } => Ok(
                (StateView { i: addr, ..self }.advanced(), Effect::Retired),
            ),
            Instruction::JumpRel { addr } => Ok(
                (
                    StateView { pc: ((self.reg(0) + addr) % 4096) as u16, ..self },
                    Effect::Retired,
                ),
            ),
            Instruction::Random { x, kk } => Ok(
                (self.with_reg(x, random & kk).advanced(), Effect::Retired),
            ),
            Instruction::Draw { x, y, n } => self.drawn(x, y, n),
            Instruction::SkipKey { x } => Ok(
                (self.skipping(keys.is_held(self.reg(x))), Effect::Retired),
            ),
            Instruction::SkipNoKey { x } => Ok(
                (self.skipping(!keys.is_held(self.reg(x))), Effect::Retired),
            ),
            Instruction::GetDelay { x } => Ok(
                (self.with_reg(x, self.delay).advanced(), Effect::Retired),
            ),
            Instruction::WaitKey { x } => Ok((self, Effect::AwaitKey(x))),
            Instruction::SetDelay { x } => Ok(
                (StateView { delay: self.reg(x), ..self }.advanced(), Effect::Retired),
            ),
            Instruction::SetSound { x } => Ok(
                (
                    StateView { sound: self.reg(x), ..self }.advanced(),
                    Effect::Tone(self.reg(x)),
                ),
            ),
            Instruction::AddIndex { x } => Ok(
                (
                    StateView { i: ((self.i + self.reg(x)) % 4096) as u16, ..self }.advanced(),
                    Effect::Retired,
                ),
            ),
            Instruction::FontAddr { x } => Ok(
                (
                    StateView {
                        i: (CHIP8_FONT_START + CHIP8_FONT_HEIGHT * (self.reg(x) % 16)) as u16,
                        ..self
                    }.advanced(),
                    Effect::Retired,
                ),
            ),
            Instruction::Bcd { x } => self.bcd_stored(x),
            Instruction::Store { x } => self.stored(x),
            Instruction::LoadRegs { x } => self.loaded(x),
        }
    }
}

/// Whether a state that an instruction may have left is well formed and in bounds.
pub open spec fn kept_in_bounds(outcome: Result<(StateView, Effect), Fault>) -> bool {
    outcome matches Ok((after, effect)) ==> after.wf() && after.in_bounds()
}

proof fn lemma_stack_in_bounds(s: StateView, addr: u16)
    requires
        s.wf(),
        s.in_bounds(),
        addr < 0x1000,
    ensures
        kept_in_bounds(s.returned()),
        kept_in_bounds(s.called(addr)),
{
}

proof fn lemma_memory_in_bounds(s: StateView, x: u8, y: u8, n: u8)
    requires
        s.wf(),
        s.in_bounds(),
        x < 16,
        y < 16,
    ensures
        kept_in_bounds(s.drawn(x, y, n)),
        kept_in_bounds(s.bcd_stored(x)),
        kept_in_bounds(s.stored(x)),
        kept_in_bounds(s.loaded(x)),
{
}

/// No instruction takes a state out of bounds: after any well-formed instruction
/// the program counter and the index register still have twelve bits, and the stack
/// still lies between its base and the display buffer.
pub proof fn lemma_executed_in_bounds(s: StateView, instr: Instruction, keys: Keypad, random: u8)
    requires
        s.wf(),
        s.in_bounds(),
        instr.wf(),
    ensures
        kept_in_bounds(s.executed(instr, keys, random)),
{
    match instr {
        Instruction::Return => {
            lemma_stack_in_bounds(s, 0);
        },
        Instruction::Call { addr } => {
            lemma_stack_in_bounds(s, addr);
        },
        Instruction::Draw { x, y, n } => {
            lemma_memory_in_bounds(s, x, y, n);
        },
        Instruction::Bcd { x } => {
            lemma_memory_in_bounds(s, x, 0, 0);
        },
        Instruction::Store { x } => {
            lemma_memory_in_bounds(s, x, 0, 0);
        },
        Instruction::LoadRegs { x } => {
            lemma_memory_in_bounds(s, x, 0, 0);
        },
        _ => {},
    }
}

fn range_error(verb: &str, x: u8, link: &str, i: u16) -> (e: Chip8Error)
    ensures
        e@ == Fault::OutOfRange(
            verb@ + hex_digits(x as nat, true) + link@ + hex_padded(i as nat, true, 3),
        ),
{
    let mut reason: String = String::from_str(verb);
    push_hex(&mut reason, x as u64, true);
    reason.append(link);
    push_hex_padded(&mut reason, i as u64, true, 3);
    Chip8Error::OutOfRange(InvalidAccessError::new(reason.as_str()))
}

impl Chip8State {
    /// The instruction word at the program counter.
    pub fn fetch(&self) -> (res: Result<u16, Chip8Error>)
        ensures
            match self@.fetched() {
                Ok(word) => res == Ok::<u16, Chip8Error>(word),
                Err(fault) => res is Err && res->Err_0@ == fault,
            },
    {
        match self.ram.get(self.pc, 2) {
            Ok(bytes) => Ok(bytes[0] as u16 * 256 + bytes[1] as u16),
            Err(e) => Err(e),
        }
    }

    fn advance(&mut self)
        ensures
            final(self)@ == old(self)@.advanced(),
    {
        self.pc = ((self.pc as u32 + 2) % 4096) as u16;
    }

    fn skip(&mut self, skip: bool)
        ensures
            final(self)@ == old(self)@.skipping(skip),
    {
        if skip {
            self.pc = ((self.pc as u32 + 4) % 4096) as u16;
        } else {
            self.pc = ((self.pc as u32 + 2) % 4096) as u16;
        }
    }

    fn set_flagged(&mut self, x: u8, val: u8, vf: u8)
        requires
            x < 16,
        ensures
            final(self)@ == old(self)@.with_flag(x, val, vf).advanced(),
    {
        self.v[x as usize] = val;
        self.v[0xF] = vf;
        self.advance();
    }

    fn set_reg(&mut self, x: u8, val: u8)
        requires
            x < 16,
        ensures
            final(self)@ == old(self)@.with_reg(x, val).advanced(),
    {
        self.v[x as usize] = val;
        self.advance();
    }

    fn ret(&mut self) -> (res: Result<Effect, Chip8Error>)
        ensures
            match old(self)@.returned() {
                Ok((state, effect)) => res == Ok::<Effect, Chip8Error>(effect) && final(self)@
                    == state,
                Err(fault) => res is Err && res->Err_0@ == fault && final(self)@ == old(self)@,
            },
    {
        if self.sp < CHIP8_STACK_BASE_ADDR + 2 {
            return Err(
                Chip8Error::StackUnderflow(
                    InvalidInstructionError::new(
                        "tried to return from main subroutine (SP decreased below EA0)",
                    ),
                ),
            );
        }
        let top: u16 = self.sp - 2;
        let addr: u16 = match self.ram.get(top, 2) {
            Ok(bytes) => bytes[0] as u16 * 256 + bytes[1] as u16,
            Err(e) => { return Err(e); },
        };
        self.sp = top;
        self.pc = ((addr as u32 + 2) % 4096) as u16;
        Ok(Effect::Retired)
    }

    fn call(&mut self, addr: u16) -> (res: Result<Effect, Chip8Error>)
        ensures
            match old(self)@.called(addr) {
                Ok((state, effect)) => res == Ok::<Effect, Chip8Error>(effect) && final(self)@
                    == state,
                Err(fault) => res is Err && res->Err_0@ == fault && final(self)@ == old(self)@,
            },
    {
        if self.sp >= CHIP8_DISP_BUF_ADDR {
            return Err(
                Chip8Error::StackOverflow(InvalidInstructionError::new("exceeded stack frame limit")),
            );
        }
        let frame: [u8; 2] = [(self.pc / 256) as u8, (self.pc % 256) as u8];
        match self.ram.set(self.sp, &frame) {
            Ok(()) => {},
            Err(e) => { return Err(e); },
        }
        self.sp = self.sp + 2;
        self.pc = addr;
        Ok(Effect::Retired)
    }

    fn draw(&mut self, x: u8, y: u8, n: u8) -> (res: Result<Effect, Chip8Error>)
        requires
            x < 16,
            y < 16,
        ensures
            match old(self)@.drawn(x, y, n) {
                Ok((state, effect)) => res == Ok::<Effect, Chip8Error>(effect) && final(self)@
                    == state,
                Err(fault) => res is Err && res->Err_0@ == fault && final(self)@ == old(self)@,
            },
    {
        let sprite: Vec<u8> = match self.ram.get(self.i, n as u16) {
            Ok(bytes) => slice_to_vec(bytes),
            Err(e) => { return Err(e); },
        };
        let column: u8 = self.v[x as usize];
        let row: u8 = self.v[y as usize];
        let collision: bool = self.ram.load_sprite(sprite.as_slice(), column, row, n);
        self.v[0xF] = if collision {
            1
        } else {
            0
        };
        self.advance();
        Ok(Effect::Drew)
    }

    fn store_bcd(&mut self, x: u8) -> (res: Result<Effect, Chip8Error>)
        requires
            x < 16,
        ensures
            match old(self)@.bcd_stored(x) {
                Ok((state, effect)) => res == Ok::<Effect, Chip8Error>(effect) && final(self)@
                    == state,
                Err(fault) => res is Err && res->Err_0@ == fault && final(self)@ == old(self)@,
            },
    {
        if self.i as u32 + 3 > 4096 {
            return Err(byte_write_error(if self.i >= 4096 {
                self.i
            } else {
                4096
            }));
        }
        let byte: u8 = self.v[x as usize];
        let digits: [u8; 3] = [byte / 100, byte % 100 / 10, byte % 10];
        assert(digits@ =~= bcd_digits(byte));
        match self.ram.set(self.i, &digits) {
            Ok(()) => {},
            Err(e) => { return Err(e); },
        }
        self.advance();
        Ok(Effect::Retired)
    }

    fn store(&mut self, x: u8) -> (res: Result<Effect, Chip8Error>)
        requires
            x < 16,
        ensures
            match old(self)@.stored(x) {
                Ok((state, effect)) => res == Ok::<Effect, Chip8Error>(effect) && final(self)@
                    == state,
                Err(fault) => res is Err && res->Err_0@ == fault && final(self)@ == old(self)@,
            },
    {
        if self.i as u32 + x as u32 > 0xFFF {
            return Err(range_error("Cannot STORE ", x, " bytes of data at 0x", self.i));
        }
        let registers: Vec<u8> = slice_to_vec(
            slice_subrange(self.v.as_slice(), 0, x as usize + 1),
        );
        match self.ram.set(self.i, registers.as_slice()) {
            Ok(()) => {},
            Err(e) => { return Err(e); },
        }
        self.i = ((self.i as u32 + x as u32 + 1) % 4096) as u16;
        self.advance();
        Ok(Effect::Retired)
    }

    fn load(&mut self, x: u8) -> (res: Result<Effect, Chip8Error>)
        requires
            x < 16,
        ensures
            match old(self)@.loaded(x) {
                Ok((state, effect)) => res == Ok::<Effect, Chip8Error>(effect) && final(self)@
                    == state,
                Err(fault) => res is Err && res->Err_0@ == fault && final(self)@ == old(self)@,
            },
    {
        if self.i as u32 + x as u32 > 0xFFF {
            return Err(range_error("Cannot LOAD ", x, " bytes of data from 0x", self.i));
        }
        let bytes: Vec<u8> = match self.ram.get(self.i, x as u16 + 1) {
            Ok(bytes) => slice_to_vec(bytes),
            Err(e) => { return Err(e); },
        };
        let ghost before = self.v@;
        let mut k: usize = 0;
        while k <= x as usize
            invariant
                x < 16,
                k <= x + 1,
                bytes@.len() == x + 1,
                self.v@ == bytes@.subrange(0, k as int) + before.subrange(k as int, 16),
                self.i == old(self).i,
                self.sp == old(self).sp,
                self.pc == old(self).pc,
                self.delay == old(self).delay,
                self.sound == old(self).sound,
                self.ram == old(self).ram,
                before == old(self).v@,
            decreases x + 1 - k,
        {
            self.v[k] = bytes[k];
            k = k + 1;
            assert(self.v@ =~= bytes@.subrange(0, k as int) + before.subrange(k as int, 16));
        }
        assert(bytes@.subrange(0, x + 1) =~= bytes@);
        self.i = ((self.i as u32 + x as u32 + 1) % 4096) as u16;
        self.advance();
        Ok(Effect::Retired)
    }

    /// Carries out one instruction. On a failure the state is as it was.
    pub fn execute(&mut self, instr: Instruction, keys: &Keypad, random: u8) -> (res: Result<
        Effect,
        Chip8Error,
    >)
        requires
            instr.wf(),
        ensures
            match old(self)@.executed(instr, *keys, random) {
                Ok((state, effect)) => res == Ok::<Effect, Chip8Error>(effect) && final(self)@
                    == state,
                Err(fault) => res is Err && res->Err_0@ == fault && final(self)@ == old(self)@,
            },
    {
        match instr {
            Instruction::Clear => {
                let dark: [u8; 256] = [0;256];
                match self.ram.set(CHIP8_DISP_BUF_ADDR, &dark) {
                    Ok(()) => {},
                    Err(e) => { return Err(e); },
                }
                assert(self.ram@ =~= cleared(old(self).ram@));
                self.advance();
            },
            Instruction::Return => { return self.ret(); },
            Instruction::Jump { addr } => {
                self.pc = addr;
            },
            Instruction::Call { addr } => { return self.call(addr); },
            Instruction::SkipEqImm { x, kk } => {
                let skip: bool = self.v[x as usize] == kk;
                self.skip(skip);
            },
            Instruction::SkipNeImm { x, kk } => {
                let skip: bool = self.v[x as usize] != kk;
                self.skip(skip);
            },
            Instruction::SkipEqReg { x, y } => {
                let skip: bool = self.v[x as usize] == self.v[y as usize];
                self.skip(skip);
            },
            Instruction::SkipNeReg { x, y } => {
                let skip: bool = self.v[x as usize] != self.v[y as usize];
                self.skip(skip);
            },
            Instruction::LoadImm { x, kk } => {
                self.set_reg(x, kk);
            },
            Instruction::AddImm { x, kk } => {
                let sum: u16 = self.v[x as usize] as u16 + kk as u16;
                self.set_reg(x, (sum % 256) as u8);
            },
            Instruction::Mov { x, y } => {
                let val: u8 = self.v[y as usize];
                self.set_reg(x, val);
            },
            Instruction::Or { x, y } => {
                let val: u8 = self.v[x as usize] | self.v[y as usize];
                self.set_flagged(x, val, 0);
            },
            Instruction::And { x, y } => {
                let val: u8 = self.v[x as usize] & self.v[y as usize];
                self.set_flagged(x, val, 0);
            },
            Instruction::Xor { x, y } => {
                let val: u8 = self.v[x as usize] ^ self.v[y as usize];
                self.set_flagged(x, val, 0);
            },
            Instruction::Add { x, y } => {
                let sum: u16 = self.v[x as usize] as u16 + self.v[y as usize] as u16;
                let carry: u8 = if sum > 255 {
                    1
                } else {
                    0
                };
                self.set_flagged(x, (sum % 256) as u8, carry);
            },
            Instruction::Sub { x, y } => {
                let (val, vf) = wrapping_difference(self.v[x as usize], self.v[y as usize]);
                self.set_flagged(x, val, vf);
            },
            Instruction::Shr { x, y } => {
                let source: u8 = self.v[y as usize];
                self.set_flagged(x, source / 2, source % 2);
            },
            Instruction::SubN { x, y } => {
                let (val, vf) = wrapping_difference(self.v[y as usize], self.v[x as usize]);
                self.set_flagged(x, val, vf);
            },
            Instruction::Shl { x, y } => {
                let source: u8 = self.v[y as usize];
                self.set_flagged(x, ((source as u16 * 2) % 256) as u8, source / 128);
            },
            Instruction::LoadIndex { addr } => {
                self.i = addr;
                self.advance();
            },
            Instruction::JumpRel { addr } => {
                self.pc = ((self.v[0] as u32 + addr as u32) % 4096) as u16;
            },
            Instruction::Random { x, kk } => {
                self.set_reg(x, random & kk);
            },
            Instruction::Draw { x, y, n } => { return self.draw(x, y, n); },
            Instruction::SkipKey { x } => {
                let skip: bool = keys.held(self.v[x as usize]);
                self.skip(skip);
            },
            Instruction::SkipNoKey { x } => {
                let skip: bool = !keys.held(self.v[x as usize]);
                self.skip(skip);
            },
            Instruction::GetDelay { x } => {
                let val: u8 = self.delay;
                self.set_reg(x, val);
            },
            Instruction::WaitKey { x } => { return Ok(Effect::AwaitKey(x)); },
            Instruction::SetDelay { x } => {
                self.delay = self.v[x as usize];
                self.advance();
            },
            Instruction::SetSound { x } => {
                let ticks: u8 = self.v[x as usize];
                self.sound = ticks;
                self.advance();
                return Ok(Effect::Tone(ticks));
            },
            Instruction::AddIndex { x } => {
                self.i = ((self.i as u32 + self.v[x as usize] as u32) % 4096) as u16;
                self.advance();
            },
            Instruction::FontAddr { x } => {
                let digit: u8 = self.v[x as usize] % 16;
                self.i = CHIP8_FONT_START + CHIP8_FONT_HEIGHT as u16 * digit as u16;
                self.advance();
            },
            Instruction::Bcd { x } => { return self.store_bcd(x); },
            Instruction::Store { x } => { return self.store(x); },
            Instruction::LoadRegs { x } => { return self.load(x); },
        }
        Ok(Effect::Retired)
    }
}

/// `a` less `b` in eight bits, and one unless there was a borrow.
pub(crate) fn wrapping_difference(a: u8, b: u8) -> (res: (u8, u8))
    ensures
        res.0 == ((a - b) % 256) as u8,
        res.1 == flag(a >= b),
{
    if a >= b {
        (a - b, 1)
    } else {
        ((256 + a as u16 - b as u16) as u8, 0)
    }
}

} // verus!
