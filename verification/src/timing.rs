//! The sixty ticks a second that drive the timers and let the display be drawn to.

use vstd::prelude::*;

verus! {

/// Length of one tick in nanoseconds: a sixtieth of a second.
pub const CHIP8_TICK_NANOS: u64 = 16_666_666;

/// Keeps the time of the last tick, and whether a sprite may be drawn: one may be
/// drawn once after each tick.
#[derive(Clone, Copy, Debug, PartialEq, Eq, Structural)]
pub struct TimingGate {
    /// Time of the last tick, in nanoseconds of the host's clock.
    pub last_tick: u64,
    /// Whether no sprite has been drawn since the last tick.
    pub draw_open: bool,
}

impl TimingGate {
    /// Whether a tick is due at time `now`.
    pub open spec fn due(self, now: u64) -> bool {
        now - self.last_tick >= CHIP8_TICK_NANOS
    }

    /// What this is once it has been told the time `now`.
    pub open spec fn updated(self, now: u64) -> TimingGate {
        if self.due(now) {
            TimingGate { last_tick: now, draw_open: true }
        } else {
            self
        }
    }

    /// What this is once a sprite has been drawn.
    pub open spec fn drawn(self) -> TimingGate {
        TimingGate { last_tick: self.last_tick, draw_open: false }
    }

    /// A gate whose last tick was at time zero and that lets a sprite be drawn.
    pub fn new() -> (gate: Self)
        ensures
            gate == (TimingGate { last_tick: 0, draw_open: true }),
    {
        TimingGate { last_tick: 0, draw_open: true }
    }

    /// Takes the time. Returns whether a tick was due; if so, `now` becomes the time of
    /// the last tick and one sprite may be drawn again.
    pub fn update(&mut self, now: u64) -> (ticked: bool)
        ensures
            ticked == old(self).due(now),
            *final(self) == old(self).updated(now),
    {
        if now >= self.last_tick && now - self.last_tick >= CHIP8_TICK_NANOS {
            self.last_tick = now;
            self.draw_open = true;
            true
        } else {
            false
        }
    }

    /// Notes that a sprite has been drawn: none may be drawn before the next tick.
    pub fn close(&mut self)
        ensures
            *final(self) == old(self).drawn(),
    {
        self.draw_open = false;
    }
}

} // verus!
