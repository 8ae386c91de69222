//! What holds of the machine whatever program it runs: calls and returns, the
//! wait for a tick before a second drawing, and the wait for a key.

use vstd::prelude::*;
use crate::cpu::{next_pc, Effect};
use crate::errors::Fault;
use crate::input::{lemma_last_set, Keypad};
use crate::isa::Instruction;
use crate::systems::{
    Chip8View,
    KeyWait,
    Progress,
    StateView,
    CHIP8_DISP_BUF_ADDR,
    CHIP8_STACK_BASE_ADDR,
};

verus! {

/// Number of calls that the call stack has room for.
pub const CHIP8_STACK_FRAMES: u16 = (CHIP8_DISP_BUF_ADDR - CHIP8_STACK_BASE_ADDR) / 2;

/// The state after calls to each of `targets` in turn, each call made where the one
/// before it led; or the failure of the first call that fails.
pub open spec fn after_calls(s: StateView, targets: Seq<u16>, keys: Keypad) -> Result<
    StateView,
    Fault,
>
    decreases targets.len(),
{
    if targets.len() == 0 {
        Ok(s)
    } else {
        match after_calls(s, targets.drop_last(), keys) {
            Ok(inner) => match inner.executed(Instruction::Call { addr: targets.last() }, keys, 0) {
                Ok((state, effect)) => Ok(state),
                Err(fault) => Err(fault),
            },
            Err(fault) => Err(fault),
        }
    }
}

/// The machine after one step for each of `events`: a time, a keypad and the byte
/// that chance gives.
pub open spec fn after_steps(c: Chip8View, events: Seq<(u64, Keypad, u8)>) -> Chip8View
    decreases events.len(),
{
    if events.len() == 0 {
        c
    } else {
        let event = events.last();
        after_steps(c, events.drop_last()).step(event.0, event.1, event.2).0
    }
}

/// A return that follows a call leads to the instruction after the call, with the
/// stack pointer, the registers and the timers as they were before the call.
pub proof fn lemma_call_then_return(s: StateView, addr: u16, keys: Keypad, random: u8)
    requires
        s.wf(),
        CHIP8_STACK_BASE_ADDR <= s.sp < CHIP8_DISP_BUF_ADDR,
    ensures
        s.executed(Instruction::Call { addr }, keys, random) is Ok,
        ({
            let inner = s.executed(Instruction::Call { addr }, keys, random)->Ok_0.0;
            let back = inner.executed(Instruction::Return, keys, random);
            &&& inner.pc == addr
            &&& inner.sp == s.sp + 2
            &&& back is Ok
            &&& back->Ok_0.0.pc == next_pc(s.pc)
            &&& back->Ok_0.0.sp == s.sp
            &&& back->Ok_0.0.v == s.v
            &&& back->Ok_0.0.i == s.i
            &&& back->Ok_0.0.delay == s.delay
            &&& back->Ok_0.0.sound == s.sound
        }),
{
}

/// A call succeeds exactly where the stack pointer lies below the display buffer;
/// where it does not, the call fails with `StackOverflow` and a return below the
/// base of the stack with `StackUnderflow`.
pub proof fn lemma_stack_limits(s: StateView, addr: u16, keys: Keypad, random: u8)
    ensures
        s.executed(Instruction::Call { addr }, keys, random) is Ok <==> s.sp
            < CHIP8_DISP_BUF_ADDR,
        s.sp >= CHIP8_DISP_BUF_ADDR ==> s.executed(
            Instruction::Call { addr },
            keys,
            random,
        )->Err_0 is StackOverflow,
        s.sp < CHIP8_STACK_BASE_ADDR + 2 ==> s.executed(Instruction::Return, keys, random) is Err
            && s.executed(Instruction::Return, keys, random)->Err_0 is StackUnderflow,
{
}

/// From an empty stack, calls nested up to the room of the stack all succeed and
/// raise the stack pointer by two each; one call more fails with `StackOverflow`.
pub proof fn lemma_nested_calls(s: StateView, targets: Seq<u16>, keys: Keypad)
    requires
        s.wf(),
        s.sp == CHIP8_STACK_BASE_ADDR,
        targets.len() <= CHIP8_STACK_FRAMES + 1,
    ensures
        targets.len() <= CHIP8_STACK_FRAMES ==> after_calls(s, targets, keys) is Ok && after_calls(
            s,
            targets,
            keys,
        )->Ok_0.sp == CHIP8_STACK_BASE_ADDR + 2 * targets.len() && after_calls(
            s,
            targets,
            keys,
        )->Ok_0.wf(),
        targets.len() == CHIP8_STACK_FRAMES + 1 ==> after_calls(s, targets, keys) is Err
            && after_calls(s, targets, keys)->Err_0 is StackOverflow,
    decreases targets.len(),
{
    if targets.len() > 0 {
        lemma_nested_calls(s, targets.drop_last(), keys);
    }
}

/// A drawing that is met when no sprite may be drawn, and no tick is due, changes
/// nothing: the display stays, and the program counter stays at the drawing.
pub proof fn lemma_draw_waits_for_tick(c: Chip8View, now: u64, keys: Keypad, random: u8)
    requires
        c.wf(),
        c.state.next_instruction() matches Some(instr) && instr is Draw,
        !c.gate.draw_open,
        !c.gate.due(now),
    ensures
        c.step(now, keys, random) == (c, Ok::<Progress, Fault>(Progress::Stalled)),
{
}

/// A drawing that is met while a sprite may be drawn, or when a tick is due, does
/// not wait: it is carried out in that very step.
pub proof fn lemma_draw_runs(c: Chip8View, now: u64, keys: Keypad, random: u8)
    requires
        c.wf(),
        c.state.next_instruction() matches Some(instr) && instr is Draw,
        c.gate.draw_open || c.gate.due(now),
    ensures
        c.step(now, keys, random) == c.ticked(now).finished(
            c.state.fetched()->Ok_0,
            c.state.next_instruction()->0,
            keys,
            random,
        ),
        c.step(now, keys, random).1 != Ok::<Progress, Fault>(Progress::Stalled),
{
}

/// A drawing that was carried out uses up the leave to draw. A second drawing that
/// is met before a tick is due, and so one that is met at the same time as the
/// first, changes nothing; once a tick is due it does not wait.
pub proof fn lemma_second_draw_waits(
    c: Chip8View,
    now: u64,
    later: u64,
    keys: Keypad,
    random: u8,
)
    requires
        c.wf(),
        c.state.next_instruction() matches Some(instr) && instr is Draw,
        c.step(now, keys, random).1 == Ok::<Progress, Fault>(Progress::Retired),
        c.step(now, keys, random).0.state.next_instruction() matches Some(instr) && instr is Draw,
    ensures
        ({
            let first = c.step(now, keys, random).0;
            &&& !first.gate.draw_open
            &&& !first.gate.due(now)
            &&& first.step(now, keys, random) == (first, Ok::<Progress, Fault>(Progress::Stalled))
            &&& !first.gate.due(later) ==> first.step(later, keys, random) == (
                first,
                Ok::<Progress, Fault>(Progress::Stalled),
            )
            &&& first.gate.due(later) ==> first.step(later, keys, random).1 != Ok::<
                Progress,
                Fault,
            >(Progress::Stalled)
        }),
{
}

/// While the machine stands at a wait for a key and no key has gone down, a step
/// only takes the time: the program counter, the registers and the memory stay.
pub proof fn lemma_wait_key_spins(c: Chip8View, x: u8, now: u64, keys: Keypad, random: u8)
    requires
        c.wf(),
        c.key_wait is None,
        c.state.next_instruction() == Some(Instruction::WaitKey { x }),
        keys.newly_pressed() is None,
    ensures
        c.step(now, keys, random) == (c.ticked(now), Ok::<Progress, Fault>(Progress::Stalled)),
        c.ticked(now).state.pc == c.state.pc,
        c.ticked(now).state.v == c.state.v,
        c.ticked(now).state.ram == c.state.ram,
        c.ticked(now).key_wait is None,
        c.ticked(now).state.next_instruction() == Some(Instruction::WaitKey { x }),
        c.ticked(now).wf(),
{
}

/// However often the machine steps at a wait for a key while no key goes down, the
/// program counter stays at the wait.
pub proof fn lemma_wait_key_spins_on(c: Chip8View, x: u8, events: Seq<(u64, Keypad, u8)>)
    requires
        c.wf(),
        c.key_wait is None,
        c.state.next_instruction() == Some(Instruction::WaitKey { x }),
        forall|k: int| 0 <= k < events.len() ==> (#[trigger] events[k]).1.newly_pressed() is None,
    ensures
        after_steps(c, events).state.pc == c.state.pc,
        after_steps(c, events).state.v == c.state.v,
        after_steps(c, events).state.ram == c.state.ram,
        after_steps(c, events).key_wait is None,
        after_steps(c, events).state.next_instruction() == Some(Instruction::WaitKey { x }),
        after_steps(c, events).wf(),
    decreases events.len(),
{
    if events.len() > 0 {
        let earlier = events.drop_last();
        assert forall|k: int| 0 <= k < earlier.len() implies (#[trigger] earlier[k]).1.newly_pressed()
            is None by {
            assert(earlier[k] == events[k]);
        }
        lemma_wait_key_spins_on(c, x, earlier);
        let event = events.last();
        assert(event == events[events.len() - 1]);
        lemma_wait_key_spins(after_steps(c, earlier), x, event.0, event.1, event.2);
    }
}

/// When a key goes down while the machine stands at a wait for a key, the machine
/// notes the key and the register; the program counter and the registers stay.
pub proof fn lemma_wait_key_notes(c: Chip8View, x: u8, now: u64, keys: Keypad, random: u8)
    requires
        c.wf(),
        c.key_wait is None,
        c.state.next_instruction() == Some(Instruction::WaitKey { x }),
        keys.newly_pressed() is Some,
    ensures
        c.step(now, keys, random) == (
            Chip8View {
                key_wait: Some(KeyWait { key: keys.newly_pressed()->0, reg: x }),
                ..c.ticked(now)
            },
            Ok::<Progress, Fault>(Progress::Stalled),
        ),
        c.step(now, keys, random).0.state.pc == c.state.pc,
        c.step(now, keys, random).0.state.v == c.state.v,
        c.step(now, keys, random).0.wf(),
        keys.newly_pressed()->0 < 16,
{
    lemma_last_set(keys.pressed@, 16);
    crate::isa::lemma_decoded_wf(c.state.fetched()->Ok_0);
}

/// While the key that the machine has noted is not up again, a step only takes the
/// time. On the step that sees it up, its number goes to the register, the wait is
/// over, and the program counter moves on by one instruction.
pub proof fn lemma_wait_key_ends(c: Chip8View, now: u64, keys: Keypad, random: u8)
    requires
        c.wf(),
        c.key_wait is Some,
    ensures
        ({
            let wait = c.key_wait->0;
            let (after, progress) = c.step(now, keys, random);
            &&& !keys.is_released(wait.key) ==> after == c.ticked(now) && progress == Ok::<
                Progress,
                Fault,
            >(Progress::Stalled) && after.state.pc == c.state.pc && after.key_wait == c.key_wait
            &&& keys.is_released(wait.key) ==> progress == Ok::<Progress, Fault>(Progress::Retired)
                && after.key_wait is None && after.state.pc == next_pc(c.state.pc)
                && after.state.v == c.state.v.update(wait.reg as int, wait.key)
                && after.state.v[wait.reg as int] == wait.key && after.state.ram == c.state.ram
        }),
{
}

} // verus!
