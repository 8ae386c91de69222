//! The machine: its registers, its timers and the meaning of each instruction.

use rand::rngs::StdRng;
use vstd::prelude::*;
use crate::cpu::{lemma_executed_in_bounds, Effect};
use crate::debug::{keep_last, Backtrace};
use crate::disas::{disas_instruction, disas_text};
use crate::display::{paint_rgba, rgba};
use crate::errors::{Chip8Error, Fault, ProgramLoadingError};
use crate::input::{lemma_last_set, Keypad};
use crate::isa::{decode, decoded, lemma_decoded_wf, nibbles, split_opcode, Instruction};
use crate::mem::{written, Chip8Mem, Memory16Bit};
use crate::rng::{os_rng, random_byte, seeded_rng};
use crate::text::{dec_digits, push_dec};
use crate::timing::TimingGate;

verus! {

broadcast use crate::mem::lemma_mem_size;

/// Address at which a program starts.
pub const CHIP8_PC_START: u16 = 0x200;

/// Longest program image that can be loaded: the room between the start of the
/// program and the call stack.
pub const CHIP8_MAX_PROG_SIZE: u16 = CHIP8_STACK_BASE_ADDR - CHIP8_PC_START;

/// First address of the display buffer.
pub const CHIP8_DISP_BUF_ADDR: u16 = 0xF00;

/// Length of the display buffer in bytes: one bit for each pixel.
pub const CHIP8_DISP_BUF_LEN: u16 = 0x100;

/// Width of the display in pixels.
pub const CHIP8_DISP_WIDTH: u16 = 64;

/// Height of the display in pixels.
pub const CHIP8_DISP_HEIGHT: u16 = 32;

/// First address of the call stack, which grows upwards, two bytes for each call.
pub const CHIP8_STACK_BASE_ADDR: u16 = 0xEA0;

/// First address of the font table.
pub const CHIP8_FONT_START: u16 = 0x50;

/// Number of bytes of one glyph of the font.
pub const CHIP8_FONT_HEIGHT: u8 = 0x5;

/// The glyphs of the sixteen hexadecimal digits, five rows each.
pub const CHIP8_FONT: [u8; 80] = [
    0xF0, 0x90, 0x90, 0x90, 0xF0,
    0x20, 0x60, 0x20, 0x20, 0x70,
    0xF0, 0x10, 0xF0, 0x80, 0xF0,
    0xF0, 0x10, 0xF0, 0x10, 0xF0,
    0x90, 0x90, 0xF0, 0x10, 0x10,
    0xF0, 0x80, 0xF0, 0x10, 0xF0,
    0xF0, 0x80, 0xF0, 0x90, 0xF0,
    0xF0, 0x10, 0x20, 0x40, 0x40,
    0xF0, 0x90, 0xF0, 0x90, 0xF0,
    0xF0, 0x90, 0xF0, 0x10, 0xF0,
    0xF0, 0x90, 0xF0, 0x90, 0x90,
    0xE0, 0x90, 0xE0, 0x90, 0xE0,
    0xF0, 0x80, 0x80, 0x80, 0xF0,
    0xE0, 0x90, 0x90, 0x90, 0xE0,
    0xF0, 0x80, 0xF0, 0x80, 0xF0,
    0xF0, 0x80, 0xF0, 0x80, 0x80,
];

/// Number of retired instructions that the machine remembers.
pub const CHIP8_BACKTRACE_LEN: usize = 100;

/// The registers, the timers and the memory of the machine.
#[derive(Clone, Copy, Debug)]
pub struct Chip8State {
    /// The index register `I`.
    pub i: u16,
    /// The stack pointer: the address above the last return address.
    pub sp: u16,
    /// The program counter: the address of the next instruction.
    pub pc: u16,
    /// The registers `V0` to `VF`.
    pub v: [u8; 16],
    /// The delay timer.
    pub delay: u8,
    /// The sound timer.
    pub sound: u8,
    /// The memory.
    pub ram: Chip8Mem,
}

/// A state of the machine as a mathematical value.
#[verifier::ext_equal]
pub struct StateView {
    pub i: u16,
    pub sp: u16,
    pub pc: u16,
    pub v: Seq<u8>,
    pub delay: u8,
    pub sound: u8,
    pub ram: Seq<u8>,
}

impl View for Chip8State {
    type V = StateView;

    open spec fn view(&self) -> StateView {
        StateView {
            i: self.i,
            sp: self.sp,
            pc: self.pc,
            v: self.v@,
            delay: self.delay,
            sound: self.sound,
            ram: self.ram@,
        }
    }
}

impl StateView {
    /// Whether there are sixteen registers and 4096 bytes of memory.
    pub open spec fn wf(self) -> bool {
        self.v.len() == 16 && self.ram.len() == 4096
    }
}

/// A key that went down while the machine waited for one, and the register that its
/// number goes to once it is up again.
#[derive(Clone, Copy, Debug, PartialEq, Eq, Structural)]
pub struct KeyWait {
    pub key: u8,
    pub reg: u8,
}

/// How far one step took the machine.
#[derive(Clone, Copy, Debug, PartialEq, Eq, Structural)]
pub enum Progress {
    /// An instruction was carried out.
    Retired,
    /// An instruction was carried out, and a tone is to sound for this many ticks.
    RetiredWithTone(u8),
    /// The machine waits: for a tick before it draws, or for a key.
    Stalled,
}

/// What a step has found to do.
#[derive(Clone, Copy, Debug, PartialEq, Eq, Structural)]
pub enum Phase {
    /// The step is over.
    Done(Progress),
    /// This instruction, read from this word, is to be carried out.
    Run(u16, Instruction),
}

/// One retired instruction.
#[derive(Debug)]
pub struct TraceEntry {
    /// Where the instruction stood.
    pub pc: u16,
    /// The instruction in words, as it looked before it was carried out.
    pub text: String,
    /// The state that the instruction left.
    pub state: Chip8State,
}

/// One retired instruction as a mathematical value.
#[verifier::ext_equal]
pub struct TraceEntryView {
    pub pc: u16,
    pub text: Seq<char>,
    pub state: StateView,
}

impl View for TraceEntry {
    type V = TraceEntryView;

    open spec fn view(&self) -> TraceEntryView {
        TraceEntryView { pc: self.pc, text: self.text@, state: self.state@ }
    }
}

/// The views of the entries of a log.
pub open spec fn entry_views(entries: Seq<TraceEntry>) -> Seq<TraceEntryView> {
    entries.map_values(|e: TraceEntry| e@)
}

/// The machine as a mathematical value.
#[verifier::ext_equal]
pub struct Chip8View {
    /// Registers, timers and memory.
    pub state: StateView,
    /// The last tick and the leave to draw.
    pub gate: TimingGate,
    /// The key that the machine waits to see released, if any.
    pub key_wait: Option<KeyWait>,
    /// The retired instructions that are remembered, the oldest first.
    pub history: Seq<TraceEntryView>,
    /// How many retired instructions are remembered at most.
    pub capacity: nat,
}

/// A timer after a tick.
pub open spec fn counted_down(timer: u8) -> u8 {
    if timer > 0 {
        (timer - 1) as u8
    } else {
        0
    }
}

/// The word of the instruction that waits for a key for register `reg`.
pub open spec fn wait_key_word(reg: u8) -> u16 {
    (0xF00A + 256 * reg) as u16
}

/// Reason of a failure to load a program of `len` bytes.
pub open spec fn too_long_reason(len: nat) -> Seq<char> {
    "Program too long, "@ + dec_digits(len) + "B > 3232B"@
}

impl Chip8View {
    /// Whether a key is pending for register `reg` rightly: the register is one of
    /// the sixteen, and the instruction at the program counter is the wait for a key
    /// for that register.
    pub open spec fn waits_for(self, reg: u8) -> bool {
        reg < 16 && self.state.next_instruction() == Some(Instruction::WaitKey { x: reg })
    }

    /// Whether the state is well formed and in bounds, a key is pending only while
    /// the machine stands at the wait for it, and no more is remembered than there
    /// is room for.
    pub open spec fn wf(self) -> bool {
        &&& self.state.wf()
        &&& self.state.in_bounds()
        &&& self.key_wait matches Some(w) ==> self.waits_for(w.reg)
        &&& self.history.len() <= self.capacity
    }

    /// Whether the instruction `instr`, read from `word`, is what the machine is to
    /// carry out next: no key is pending, `word` lies at the program counter and
    /// encodes `instr`, and a drawing is not made to wait for a tick.
    pub open spec fn ready(self, word: u16, instr: Instruction) -> bool {
        &&& self.key_wait is None
        &&& self.state.fetched() == Ok::<u16, Fault>(word)
        &&& decoded(word) == Ok::<Instruction, Seq<char>>(instr)
        &&& instr is Draw ==> self.gate.draw_open
    }

    /// The machine once it has been told the time: if a tick is due, both timers
    /// count down and a sprite may be drawn again.
    pub open spec fn ticked(self, now: u64) -> Chip8View {
        if self.gate.due(now) {
            Chip8View {
                state: StateView {
                    delay: counted_down(self.state.delay),
                    sound: counted_down(self.state.sound),
                    ..self.state
                },
                gate: self.gate.updated(now),
                ..self
            }
        } else {
            self
        }
    }

    /// The history after the instruction of `word`, met in the state `before`, has
    /// left the state `after`.
    pub open spec fn logged(self, before: StateView, word: u16, after: StateView) -> Seq<
        TraceEntryView,
    > {
        keep_last(
            self.history.push(
                TraceEntryView {
                    pc: before.pc,
                    text: disas_text(nibbles(word), Some(before)),
                    state: after,
                },
            ),
            self.capacity,
        )
    }

    /// The machine with `after` as its state and the instruction of `word` added to
    /// its history.
    pub open spec fn retired(self, word: u16, after: StateView) -> Chip8View {
        Chip8View { state: after, history: self.logged(self.state, word, after), ..self }
    }

    /// The first part of a step, in which chance has no say. The time is taken; then
    /// a pending key is looked after: while it is down the step ends there, once it
    /// is up its number goes to its register and the instruction that waited
    /// retires. With no key pending the next instruction is read and decoded; a
    /// drawing ends the step where no sprite may be drawn before the next tick.
    pub open spec fn begun(self, now: u64, keys: Keypad) -> (Chip8View, Result<Phase, Fault>) {
        let t = self.ticked(now);
        match t.key_wait {
            Some(w) => if keys.is_released(w.key) {
                (
                    Chip8View {
                        key_wait: None,
                        ..t.retired(
                            wait_key_word(w.reg),
                            t.state.with_reg(w.reg, w.key).advanced(),
                        )
                    },
                    Ok(Phase::Done(Progress::Retired)),
                )
            } else {
                (t, Ok(Phase::Done(Progress::Stalled)))
            },
            None => match t.state.fetched() {
                Err(fault) => (t, Err(fault)),
                Ok(word) => match decoded(word) {
                    Err(reason) => (t, Err(Fault::InvalidInstruction(reason))),
                    Ok(instr) => if instr is Draw && !t.gate.draw_open {
                        (t, Ok(Phase::Done(Progress::Stalled)))
                    } else {
                        (t, Ok(Phase::Run(word, instr)))
                    },
                },
            },
        }
    }

    /// The second part of a step: the instruction `instr`, read from `word`, is
    /// carried out with the byte `random` that chance gave. An instruction that
    /// waits for a key notes the key that went down, if one did, and does not
    /// retire. A drawing uses up the leave to draw. On a failure nothing changes.
    pub open spec fn finished(self, word: u16, instr: Instruction, keys: Keypad, random: u8) -> (
        Chip8View,
        Result<Progress, Fault>,
    ) {
        match self.state.executed(instr, keys, random) {
            Err(fault) => (self, Err(fault)),
            Ok((after, effect)) => match effect {
                Effect::AwaitKey(reg) => (
                    Chip8View {
                        key_wait: match keys.newly_pressed() {
                            Some(key) => Some(KeyWait { key, reg }),
                            None => None,
                        },
                        ..self
                    },
                    Ok(Progress::Stalled),
                ),
                Effect::Drew => (
                    Chip8View { gate: self.gate.drawn(), ..self.retired(word, after) },
                    Ok(Progress::Retired),
                ),
                Effect::Tone(ticks) => (
                    self.retired(word, after),
                    Ok(Progress::RetiredWithTone(ticks)),
                ),
                Effect::Retired => (self.retired(word, after), Ok(Progress::Retired)),
            },
        }
    }

    /// One step of the machine at time `now`, with the keypad `keys` and the byte
    /// `random` that chance gave.
    pub open spec fn step(self, now: u64, keys: Keypad, random: u8) -> (
        Chip8View,
        Result<Progress, Fault>,
    ) {
        let (t, phase) = self.begun(now, keys);
        match phase {
            Err(fault) => (t, Err(fault)),
            Ok(Phase::Done(progress)) => (t, Ok(progress)),
            Ok(Phase::Run(word, instr)) => t.finished(word, instr, keys, random),
        }
    }

    /// The machine with the font and the program `image` in its memory, and with no
    /// key pending any more; unchanged, with `ProgramTooLarge`, where the program is
    /// too long.
    pub open spec fn loaded(self, image: Seq<u8>) -> (Chip8View, Result<(), Fault>) {
        if image.len() > CHIP8_MAX_PROG_SIZE {
            (self, Err(Fault::ProgramTooLarge(too_long_reason(image.len()))))
        } else {
            (
                Chip8View {
                    key_wait: None,
                    state: StateView {
                        ram: written(
                            written(self.state.ram, CHIP8_FONT_START as int, CHIP8_FONT@),
                            CHIP8_PC_START as int,
                            image,
                        ),
                        ..self.state
                    },
                    ..self
                },
                Ok(()),
            )
        }
    }
}

/// A step keeps a machine well formed: its program counter and its index register
/// keep to twelve bits, its stack to the room between its base and the display
/// buffer, its history to its capacity, and a key is pending only while the machine
/// stands at the wait for it. So does the loading of a program. What the first part
/// of a step hands on is ready to be carried out.
pub proof fn lemma_step_keeps_wf(c: Chip8View, now: u64, keys: Keypad, random: u8)
    requires
        c.wf(),
    ensures
        initial().wf(),
        c.ticked(now).wf(),
        c.begun(now, keys).0.wf(),
        c.begun(now, keys).1 matches Ok(Phase::Run(word, instr)) ==> instr.wf() && c.begun(
            now,
            keys,
        ).0.ready(word, instr),
        forall|word: u16, instr: Instruction|
            c.ready(word, instr) ==> (#[trigger] c.finished(word, instr, keys, random)).0.wf(),
        c.step(now, keys, random).0.wf(),
        forall|image: Seq<u8>| (#[trigger] c.loaded(image)).0.wf(),
{
    let t = c.ticked(now);
    assert(t.state.fetched() == c.state.fetched());
    assert(t.wf());
    assert(c.begun(now, keys).0.wf());
    assert forall|word: u16, instr: Instruction| c.ready(word, instr) implies (#[trigger] c.finished(
        word,
        instr,
        keys,
        random,
    )).0.wf() by {
        lemma_finished_keeps_wf(c, word, instr, keys, random);
    }
    let b = c.begun(now, keys);
    match b.1 {
        Ok(Phase::Run(word, instr)) => {
            lemma_decoded_wf(word);
            lemma_finished_keeps_wf(b.0, word, instr, keys, random);
        },
        _ => {},
    }
}

/// The second part of a step keeps a machine well formed where the instruction is
/// the one that the machine is ready for.
pub proof fn lemma_finished_keeps_wf(
    c: Chip8View,
    word: u16,
    instr: Instruction,
    keys: Keypad,
    random: u8,
)
    requires
        c.wf(),
        c.ready(word, instr),
    ensures
        instr.wf(),
        c.finished(word, instr, keys, random).0.wf(),
{
    lemma_decoded_wf(word);
    lemma_executed_in_bounds(c.state, instr, keys, random);
    lemma_last_set(keys.pressed@, 16);
}

/// Whether `after` and `res` are what the step `outcome` asks for.
pub open spec fn agrees<T>(
    outcome: (Chip8View, Result<T, Fault>),
    after: Chip8View,
    res: Result<T, Chip8Error>,
) -> bool {
    &&& after == outcome.0
    &&& match outcome.1 {
        Ok(value) => res == Ok::<T, Chip8Error>(value),
        Err(fault) => res is Err && res->Err_0@ == fault,
    }
}

/// The machine that was switched on: nothing in its registers and its memory, the
/// program counter at the start of the program, the stack empty, no key pending and
/// nothing remembered.
pub open spec fn initial() -> Chip8View {
    Chip8View {
        state: StateView {
            i: 0,
            sp: CHIP8_STACK_BASE_ADDR,
            pc: CHIP8_PC_START,
            v: Seq::new(16, |x: int| 0u8),
            delay: 0,
            sound: 0,
            ram: Seq::new(4096, |a: int| 0u8),
        },
        gate: TimingGate { last_tick: 0, draw_open: true },
        key_wait: None,
        history: Seq::empty(),
        capacity: CHIP8_BACKTRACE_LEN as nat,
    }
}

/// A machine that a program can be loaded into and that carries out one instruction
/// at a time.
pub trait System: Sized {
    /// What holds of every machine that this crate hands out.
    spec fn wf(&self) -> bool;

    /// A machine that was switched on.
    fn init() -> (system: Self)
        ensures
            system.wf(),
    ;

    /// Loads the font and a program.
    fn load_program(&mut self, program_data: &[u8]) -> (res: Result<(), Chip8Error>)
        requires
            old(self).wf(),
        ensures
            final(self).wf(),
    ;

    /// Takes one step at time `now`, a reading in nanoseconds of a clock that never
    /// goes back, with the keys as `keys` tells them.
    fn exec_instruction(&mut self, now: u64, keys: &Keypad) -> (res: Result<
        Progress,
        Chip8Error,
    >)
        requires
            old(self).wf(),
        ensures
            final(self).wf(),
    ;
}

/// The machine.
pub struct Chip8 {
    state: Chip8State,
    gate: TimingGate,
    key_wait: Option<KeyWait>,
    rng: StdRng,
    pc_backtrace: Backtrace<TraceEntry>,
}

impl View for Chip8 {
    type V = Chip8View;

    closed spec fn view(&self) -> Chip8View {
        Chip8View {
            state: self.state@,
            gate: self.gate,
            key_wait: self.key_wait,
            history: entry_views(self.pc_backtrace@),
            capacity: self.pc_backtrace.capacity(),
        }
    }
}

impl Chip8 {
    /// The state of the machine.
    pub closed spec fn state_spec(&self) -> Chip8State {
        self.state
    }

    /// The log of the machine.
    pub closed spec fn backtrace_spec(&self) -> Backtrace<TraceEntry> {
        self.pc_backtrace
    }

    /// How the parts of the machine make up its view.
    pub proof fn lemma_view(&self)
        requires
            self.wf(),
        ensures
            self@.wf(),
            self@.state == self.state_spec()@,
            self@.history == entry_views(self.backtrace_spec()@),
            self@.capacity == self.backtrace_spec().capacity(),
            self.backtrace_spec().wf(),
    {
        self.pc_backtrace.lemma_bounded();
    }

    fn build(rng: StdRng) -> (chip8: Self)
        ensures
            chip8.wf(),
            chip8@ == initial(),
    {
        let chip8 = Self {
            state: Chip8State {
                i: 0,
                sp: CHIP8_STACK_BASE_ADDR,
                pc: CHIP8_PC_START,
                v: [0;16],
                delay: 0,
                sound: 0,
                ram: Chip8Mem::new(),
            },
            gate: TimingGate::new(),
            key_wait: None,
            rng,
            pc_backtrace: Backtrace::new(CHIP8_BACKTRACE_LEN),
        };
        assert(chip8@ =~~= initial());
        chip8
    }

    /// A machine that was switched on, whose chance follows from `seed` alone.
    pub fn with_seed(seed: u64) -> (chip8: Self)
        ensures
            chip8.wf(),
            chip8@ == initial(),
    {
        Self::build(seeded_rng(seed))
    }

    /// A copy of the registers, the timers and the memory.
    pub fn get_state(&self) -> (state: Chip8State)
        ensures
            state == self.state_spec(),
            state@ == self@.state,
    {
        self.state
    }

    /// The memory.
    pub fn get_mem(&self) -> (mem: &Chip8Mem)
        ensures
            mem@ == self@.state.ram,
    {
        &self.state.ram
    }

    /// The retired instructions that are remembered.
    pub fn get_backtrace(&self) -> (log: &Backtrace<TraceEntry>)
        ensures
            *log == self.backtrace_spec(),
            entry_views(log@) == self@.history,
    {
        &self.pc_backtrace
    }

    /// The key that the machine waits to see released, if any.
    pub fn get_key_wait(&self) -> (wait: Option<KeyWait>)
        ensures
            wait == self@.key_wait,
    {
        self.key_wait
    }

    /// The last tick and the leave to draw.
    pub fn get_gate(&self) -> (gate: TimingGate)
        ensures
            gate == self@.gate,
    {
        self.gate
    }

    /// Paints the display into the start of `frame`, four bytes for each of its 2048
    /// pixels.
    pub fn set_pixels_frame(&self, frame: &mut [u8])
        requires
            old(frame)@.len() >= 32 * CHIP8_DISP_BUF_LEN,
        ensures
            final(frame)@ == rgba(
                self@.state.ram.subrange(
                    CHIP8_DISP_BUF_ADDR as int,
                    CHIP8_DISP_BUF_ADDR + CHIP8_DISP_BUF_LEN,
                ),
            ) + old(frame)@.subrange(32 * CHIP8_DISP_BUF_LEN, old(frame)@.len() as int),
    {
        match self.state.ram.get(CHIP8_DISP_BUF_ADDR, CHIP8_DISP_BUF_LEN) {
            Ok(pixels) => paint_rgba(pixels, frame),
            Err(_) => {},
        }
    }

    fn tick(&mut self, now: u64)
        requires
            old(self).wf(),
        ensures
            final(self).wf(),
            final(self)@ == old(self)@.ticked(now),
    {
        if self.gate.update(now) {
            if self.state.delay > 0 {
                self.state.delay = self.state.delay - 1;
            }
            if self.state.sound > 0 {
                self.state.sound = self.state.sound - 1;
            }
        }
        assert(self@ =~~= old(self)@.ticked(now));
    }

    fn retire(&mut self, before: Chip8State, word: u16)
        requires
            old(self).wf(),
        ensures
            final(self).wf(),
            final(self)@ == (Chip8View {
                history: old(self)@.logged(before@, word, old(self)@.state),
                ..old(self)@
            }),
    {
        let ghost kept = self.pc_backtrace@;
        let text: String = disas_instruction(split_opcode(word), Some(before));
        let entry = TraceEntry { pc: before.pc, text, state: self.state };
        let ghost added = entry@;
        self.pc_backtrace.refresh(entry);
        proof {
            let cap = self.pc_backtrace.capacity();
            assert(entry_views(kept.push(entry)) =~= entry_views(kept).push(added));
            assert(entry_views(keep_last(kept.push(entry), cap)) =~= keep_last(
                entry_views(kept).push(added),
                cap,
            ));
            assert(self@ =~~= (Chip8View {
                history: old(self)@.logged(before@, word, old(self)@.state),
                ..old(self)@
            }));
        }
    }

    /// The first part of a step: takes the time, looks after a pending key, and reads
    /// the next instruction.
    pub fn begin(&mut self, now: u64, keys: &Keypad) -> (res: Result<Phase, Chip8Error>)
        requires
            old(self).wf(),
        ensures
            final(self).wf(),
            agrees(old(self)@.begun(now, *keys), final(self)@, res),
            res matches Ok(Phase::Run(word, instr)) ==> instr.wf() && final(self)@.ready(
                word,
                instr,
            ),
    {
        self.tick(now);
        let ghost t = self@;
        match self.key_wait {
            Some(w) => {
                if keys.released(w.key) {
                    let before: Chip8State = self.state;
                    self.state.v[w.reg as usize] = w.key;
                    self.state.pc = ((self.state.pc as u32 + 2) % 4096) as u16;
                    self.key_wait = None;
                    assert(self.state@ =~= t.state.with_reg(w.reg, w.key).advanced());
                    self.retire(before, 0xF00A + 256 * w.reg as u16);
                    assert(self@ =~~= old(self)@.begun(now, *keys).0);
                    return Ok(Phase::Done(Progress::Retired));
                }
                return Ok(Phase::Done(Progress::Stalled));
            },
            None => {},
        }
        let word: u16 = match self.state.fetch() {
            Ok(word) => word,
            Err(e) => { return Err(e); },
        };
        let instr: Instruction = match decode(word) {
            Ok(instr) => instr,
            Err(e) => { return Err(e); },
        };
        match instr {
            Instruction::Draw { .. } => {
                if !self.gate.draw_open {
                    return Ok(Phase::Done(Progress::Stalled));
                }
            },
            _ => {},
        }
        Ok(Phase::Run(word, instr))
    }

    /// The second part of a step: carries out `instr`, read from `word`, with the
    /// byte `random` as what chance gave. It is for the instruction that the first
    /// part has handed on.
    pub fn finish(
        &mut self,
        word: u16,
        instr: Instruction,
        keys: &Keypad,
        random: u8,
    ) -> (res: Result<Progress, Chip8Error>)
        requires
            old(self).wf(),
            old(self)@.ready(word, instr),
        ensures
            final(self).wf(),
            agrees(old(self)@.finished(word, instr, *keys, random), final(self)@, res),
    {
        let before: Chip8State = self.state;
        proof {
            lemma_finished_keeps_wf(self@, word, instr, *keys, random);
        }
        let effect: Effect = match self.state.execute(instr, keys, random) {
            Ok(effect) => effect,
            Err(e) => {
                assert(self@ =~~= old(self)@);
                return Err(e);
            },
        };
        match effect {
            Effect::AwaitKey(reg) => {
                self.key_wait = match keys.just_pressed() {
                    Some(key) => Some(KeyWait { key, reg }),
                    None => None,
                };
                assert(self@ =~~= old(self)@.finished(word, instr, *keys, random).0);
                Ok(Progress::Stalled)
            },
            Effect::Drew => {
                self.gate.close();
                self.retire(before, word);
                assert(self@ =~~= old(self)@.finished(word, instr, *keys, random).0);
                Ok(Progress::Retired)
            },
            Effect::Tone(ticks) => {
                self.retire(before, word);
                assert(self@ =~~= old(self)@.finished(word, instr, *keys, random).0);
                Ok(Progress::RetiredWithTone(ticks))
            },
            Effect::Retired => {
                self.retire(before, word);
                assert(self@ =~~= old(self)@.finished(word, instr, *keys, random).0);
                Ok(Progress::Retired)
            },
        }
    }

    /// Takes one step at time `now` with `random` as the byte that chance gives.
    pub fn exec_instruction_with(&mut self, now: u64, keys: &Keypad, random: u8) -> (res: Result<
        Progress,
        Chip8Error,
    >)
        requires
            old(self).wf(),
        ensures
            final(self).wf(),
            agrees(old(self)@.step(now, *keys, random), final(self)@, res),
    {
        match self.begin(now, keys) {
            Err(e) => Err(e),
            Ok(Phase::Done(progress)) => Ok(progress),
            Ok(Phase::Run(word, instr)) => self.finish(word, instr, keys, random),
        }
    }
}

impl<'a> From<&'a Chip8> for Chip8State {
    /// A copy of the registers, the timers and the memory of the machine.
    fn from(chip8: &'a Chip8) -> (state: Chip8State) {
        chip8.get_state()
    }
}

impl<'a> vstd::std_specs::convert::FromSpecImpl<&'a Chip8> for Chip8State {
    open spec fn obeys_from_spec() -> bool {
        true
    }

    open spec fn from_spec(chip8: &'a Chip8) -> Chip8State {
        chip8.state_spec()
    }
}

impl System for Chip8 {
    closed spec fn wf(&self) -> bool {
        &&& self.pc_backtrace.wf()
        &&& self@.wf()
    }

    /// A machine that was switched on. Its chance comes from the operating system;
    /// where that gives none, from the seed zero.
    fn init() -> (system: Self)
        ensures
            system@ == initial(),
    {
        let rng: StdRng = match os_rng() {
            Some(rng) => rng,
            None => seeded_rng(0),
        };
        Self::build(rng)
    }

    /// Loads the font and the program `program_data`. Fails with `ProgramTooLarge`,
    /// and leaves the machine as it was, where the program is longer than
    /// `CHIP8_MAX_PROG_SIZE`.
    fn load_program(&mut self, program_data: &[u8]) -> (res: Result<(), Chip8Error>)
        ensures
            agrees(old(self)@.loaded(program_data@), final(self)@, res),
    {
        if program_data.len() > CHIP8_MAX_PROG_SIZE as usize {
            let mut reason: String = String::from_str("Program too long, ");
            push_dec(&mut reason, program_data.len() as u64);
            reason.append("B > 3232B");
            return Err(Chip8Error::ProgramTooLarge(ProgramLoadingError::new(reason.as_str())));
        }
        match self.state.ram.set(CHIP8_FONT_START, &CHIP8_FONT) {
            Ok(()) => {},
            Err(e) => { return Err(e); },
        }
        match self.state.ram.set(CHIP8_PC_START, program_data) {
            Ok(()) => {},
            Err(e) => { return Err(e); },
        }
        self.key_wait = None;
        assert(self@ =~~= old(self)@.loaded(program_data@).0);
        Ok(())
    }

    /// Takes one step. Whatever byte chance gives to an instruction that asks for
    /// one, the step is the step with that byte.
    fn exec_instruction(&mut self, now: u64, keys: &Keypad) -> (res: Result<Progress, Chip8Error>)
        ensures
            exists|random: u8|
                agrees(#[trigger] old(self)@.step(now, *keys, random), final(self)@, res),
    {
        match self.begin(now, keys) {
            Err(e) => {
                assert(agrees(
                    old(self)@.step(now, *keys, 0),
                    self@,
                    Err::<Progress, Chip8Error>(e),
                ));
                Err(e)
            },
            Ok(Phase::Done(progress)) => {
                assert(agrees(
                    old(self)@.step(now, *keys, 0),
                    self@,
                    Ok::<Progress, Chip8Error>(progress),
                ));
                Ok(progress)
            },
            Ok(Phase::Run(word, instr)) => {
                let random: u8 = match instr {
                    Instruction::Random { .. } => random_byte(&mut self.rng),
                    _ => 0,
                };
                let res = self.finish(word, instr, keys, random);
                assert(agrees(old(self)@.step(now, *keys, random), self@, res));
                res
            },
        }
    }
}

} // verus!
