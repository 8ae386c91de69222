//! The sixteen keys of the machine, as the host reports them.

use vstd::prelude::*;

verus! {

/// Number of keys.
pub const CHIP8_KEY_COUNT: usize = 16;

/// What the host knows of the sixteen keys at one moment. Key `k` stands at index `k`.
#[derive(Clone, Copy, Debug)]
pub struct Keypad {
    /// The keys that are down.
    pub held: [bool; 16],
    /// The keys that went down since the host last looked.
    pub pressed: [bool; 16],
    /// The keys that are up again since the host last looked.
    pub released: [bool; 16],
}

/// The greatest index below `limit` at which `flags` holds `true`, if there is one.
pub open spec fn last_set(flags: Seq<bool>, limit: int) -> Option<u8>
    decreases limit,
{
    if limit <= 0 {
        None
    } else if flags[limit - 1] {
        Some((limit - 1) as u8)
    } else {
        last_set(flags, limit - 1)
    }
}

impl Keypad {
    /// Whether key `key` is down. A number that names no key is never down.
    pub open spec fn is_held(&self, key: u8) -> bool {
        key < CHIP8_KEY_COUNT && self.held@[key as int]
    }

    /// Whether key `key` is up again. A number that names no key never is.
    pub open spec fn is_released(&self, key: u8) -> bool {
        key < CHIP8_KEY_COUNT && self.released@[key as int]
    }

    /// The key that went down; of several, the one with the greatest number.
    pub open spec fn newly_pressed(&self) -> Option<u8> {
        last_set(self.pressed@, CHIP8_KEY_COUNT as int)
    }

    /// A keypad on which nothing happens.
    pub fn idle() -> (keys: Self)
        ensures
            keys.held@ == Seq::new(CHIP8_KEY_COUNT as nat, |k: int| false),
            keys.pressed@ == Seq::new(CHIP8_KEY_COUNT as nat, |k: int| false),
            keys.released@ == Seq::new(CHIP8_KEY_COUNT as nat, |k: int| false),
            forall|k: u8| !keys.is_held(k) && !keys.is_released(k),
            keys.newly_pressed() is None,
    {
        let keys = Keypad { held: [false;16], pressed: [false;16], released: [false;16] };
        proof {
            lemma_last_set_none(keys.pressed@, CHIP8_KEY_COUNT as int);
        }
        keys
    }

    /// A keypad from what a host has seen: the keys that are down, those that went
    /// down and those that went up since it last looked. A key counts as up again
    /// where it went up or is not down.
    pub fn observed(held: [bool; 16], pressed: [bool; 16], went_up: [bool; 16]) -> (keys: Self)
        ensures
            keys.held@ == held@,
            keys.pressed@ == pressed@,
            keys.released@ == Seq::new(
                CHIP8_KEY_COUNT as nat,
                |k: int| went_up@[k] || !held@[k],
            ),
    {
        let mut released: [bool; 16] = [false;16];
        let mut k: usize = 0;
        while k < CHIP8_KEY_COUNT
            invariant
                k <= CHIP8_KEY_COUNT,
                forall|j: int| 0 <= j < k ==> released@[j] == (went_up@[j] || !held@[j]),
            decreases CHIP8_KEY_COUNT - k,
        {
            released[k] = went_up[k] || !held[k];
            k = k + 1;
        }
        assert(released@ =~= Seq::new(CHIP8_KEY_COUNT as nat, |k: int| went_up@[k] || !held@[k]));
        Keypad { held, pressed, released }
    }

    /// Whether key `key` is down.
    pub fn held(&self, key: u8) -> (down: bool)
        ensures
            down == self.is_held(key),
    {
        (key as usize) < CHIP8_KEY_COUNT && self.held[key as usize]
    }

    /// Whether key `key` is up again.
    pub fn released(&self, key: u8) -> (up: bool)
        ensures
            up == self.is_released(key),
    {
        (key as usize) < CHIP8_KEY_COUNT && self.released[key as usize]
    }

    /// The key that went down, if one did; of several, the one with the greatest
    /// number.
    pub fn just_pressed(&self) -> (key: Option<u8>)
        ensures
            key == self.newly_pressed(),
    {
        let mut k: usize = CHIP8_KEY_COUNT;
        while k > 0
            invariant
                k <= CHIP8_KEY_COUNT,
                self.newly_pressed() == last_set(self.pressed@, k as int),
            decreases k,
        {
            if self.pressed[k - 1] {
                return Some((k - 1) as u8);
            }
            k = k - 1;
        }
        None
    }
}

/// Where no flag is set there is no last one.
pub proof fn lemma_last_set_none(flags: Seq<bool>, limit: int)
    requires
        forall|k: int| 0 <= k < limit ==> !flags[k],
    ensures
        last_set(flags, limit) is None,
    decreases limit,
{
    if limit > 0 {
        lemma_last_set_none(flags, limit - 1);
    }
}

/// What `last_set` finds is set, lies below the limit, and nothing above it is set;
/// it finds nothing only where nothing is set.
pub proof fn lemma_last_set(flags: Seq<bool>, limit: int)
    requires
        0 <= limit <= 256,
    ensures
        match last_set(flags, limit) {
            Some(k) => k < limit && flags[k as int] && forall|j: int| k < j < limit ==> !flags[j],
            None => forall|j: int| 0 <= j < limit ==> !flags[j],
        },
    decreases limit,
{
    if limit > 0 && !flags[limit - 1] {
        lemma_last_set(flags, limit - 1);
    }
}

} // verus!
