//! What is kept and shown for looking back after a failure: a log of the last
//! values given to it, and the machine, its memory and its log in words.

use vstd::prelude::*;
use crate::cpu::word_at;
use crate::mem::{Chip8Mem, Memory16Bit};
use crate::systems::{entry_views, Chip8, Chip8State, StateView, System, TraceEntry, TraceEntryView};
use crate::text::{hex_digits, hex_padded, push_hex, push_hex_padded};

verus! {

broadcast use crate::mem::lemma_mem_size;

/// The last `k` values of `s`; all of `s` where it has no more than `k`.
pub open spec fn keep_last<T>(s: Seq<T>, k: nat) -> Seq<T> {
    if s.len() <= k {
        s
    } else {
        s.subrange(s.len() - k, s.len() as int)
    }
}

/// A log of fixed capacity that keeps the values last given to it. Its view is what
/// it keeps, the oldest value first.
pub struct Backtrace<T> {
    trace: Vec<T>,
    /// Index of the oldest value once the log is full; before that, the number of
    /// values kept.
    oldest: usize,
    size: usize,
}

impl<T> View for Backtrace<T> {
    type V = Seq<T>;

    closed spec fn view(&self) -> Seq<T> {
        self.trace@.subrange(self.oldest as int, self.trace@.len() as int) + self.trace@.subrange(
            0,
            self.oldest as int,
        )
    }
}

impl<T> Backtrace<T> {
    /// What holds of every log: it keeps no more than its capacity, and it goes round
    /// only once it is full.
    pub closed spec fn wf(&self) -> bool {
        &&& self.trace@.len() <= self.size
        &&& self.oldest <= self.trace@.len()
        &&& self.trace@.len() < self.size ==> self.oldest == self.trace@.len()
        &&& self.trace@.len() == self.size && self.size > 0 ==> self.oldest < self.size
    }

    /// The number of values that the log can keep.
    pub closed spec fn capacity(&self) -> nat {
        self.size as nat
    }

    /// A log never keeps more than its capacity.
    pub proof fn lemma_bounded(&self)
        requires
            self.wf(),
        ensures
            self@.len() <= self.capacity(),
    {
    }

    /// An empty log that can keep `size` values.
    pub fn new(size: usize) -> (log: Self)
        ensures
            log.wf(),
            log.capacity() == size,
            log@ == Seq::<T>::empty(),
    {
        let log = Self { trace: Vec::new(), oldest: 0, size };
        assert(log@ =~= Seq::<T>::empty());
        log
    }

    /// Gives the log a new value. Where the log is full, its oldest value leaves.
    pub fn refresh(&mut self, new_val: T)
        requires
            old(self).wf(),
        ensures
            final(self).wf(),
            final(self).capacity() == old(self).capacity(),
            final(self)@ == keep_last(old(self)@.push(new_val), old(self).capacity()),
    {
        let ghost before = self@;
        if self.size == 0 {
            assert(self@ =~= keep_last(before.push(new_val), 0));
        } else if self.trace.len() < self.size {
            self.trace.push(new_val);
            self.oldest = if self.trace.len() == self.size {
                0
            } else {
                self.trace.len()
            };
            assert(self@ =~= keep_last(before.push(new_val), self.size as nat));
        } else {
            self.trace[self.oldest] = new_val;
            self.oldest = if self.oldest + 1 == self.size {
                0
            } else {
                self.oldest + 1
            };
            assert(self@ =~= keep_last(before.push(new_val), self.size as nat));
        }
    }

    /// The number of values that the log can keep.
    pub fn size(&self) -> (size: usize)
        ensures
            size == self.capacity(),
    {
        self.size
    }

    /// The number of values kept.
    pub fn len(&self) -> (len: usize)
        requires
            self.wf(),
        ensures
            len == self@.len(),
    {
        self.trace.len()
    }

    /// The value at place `k`, counted from the oldest.
    pub fn get(&self, k: usize) -> (val: Option<&T>)
        requires
            self.wf(),
        ensures
            k < self@.len() ==> val == Some(&self@[k as int]),
            k >= self@.len() ==> val is None,
    {
        let len: usize = self.trace.len();
        if k >= len {
            None
        } else if k < len - self.oldest {
            Some(&self.trace[self.oldest + k])
        } else {
            Some(&self.trace[k - (len - self.oldest)])
        }
    }
}

/// The registers `V0` to the one before `Vk`, four to a line.
pub open spec fn registers_text(v: Seq<u8>, k: int) -> Seq<char>
    decreases k,
{
    if k <= 0 {
        Seq::empty()
    } else {
        registers_text(v, k - 1) + "V"@ + hex_digits((k - 1) as nat, true) + " : 0x"@ + hex_padded(
            v[k - 1] as nat,
            false,
            2,
        ) + (if (k - 1) % 4 == 3 {
            "\n"@
        } else {
            "  "@
        })
    }
}

/// The word that the program counter points at, where it can be read.
pub open spec fn next_word_text(s: StateView) -> Seq<char> {
    if s.pc + 2 <= 4096 {
        " -> 0x"@ + hex_padded(word_at(s.ram, s.pc as int) as nat, false, 4)
            + " (next instruction)"@
    } else {
        Seq::empty()
    }
}

/// The registers and the timers of a state in words.
pub open spec fn state_text(s: StateView) -> Seq<char> {
    "\x1b[1mCurrent state : \x1b[0m\nI : 0x"@ + hex_padded(s.i as nat, false, 3) + "  SP : 0x"@
        + hex_padded(s.sp as nat, false, 3) + "  PC : 0x"@ + hex_padded(s.pc as nat, false, 3)
        + next_word_text(s) + "\n"@ + registers_text(s.v, 16) + "delay : 0x"@ + hex_padded(
        s.delay as nat,
        false,
        2,
    ) + "  sound : 0x"@ + hex_padded(s.sound as nat, false, 2) + "\n"@
}

/// The first `k` pairs of bytes of line `line` of a dump of `mem`.
pub open spec fn pairs_text(mem: Seq<u8>, line: int, k: int) -> Seq<char>
    decreases k,
{
    if k <= 0 {
        Seq::empty()
    } else {
        pairs_text(mem, line, k - 1) + " "@ + hex_padded(
            mem[16 * line + 2 * (k - 1)] as nat,
            true,
            2,
        ) + hex_padded(mem[16 * line + 2 * (k - 1) + 1] as nat, true, 2)
    }
}

/// Line `line` of a dump of `mem`: the address of its first byte, and its sixteen
/// bytes in pairs.
pub open spec fn line_text(mem: Seq<u8>, line: int) -> Seq<char> {
    "\x1b[37m0x"@ + hex_padded((16 * line) as nat, true, 3) + " :\x1b[0m"@ + pairs_text(
        mem,
        line,
        8,
    ) + "\n"@
}

/// The first `k` lines of a dump of `mem`.
pub open spec fn lines_text(mem: Seq<u8>, k: int) -> Seq<char>
    decreases k,
{
    if k <= 0 {
        Seq::empty()
    } else {
        lines_text(mem, k - 1) + line_text(mem, k - 1)
    }
}

/// A dump of `mem`, sixteen bytes to a line.
pub open spec fn mem_text(mem: Seq<u8>) -> Seq<char> {
    "\x1b[1mRAM dump :\x1b[0m\n"@ + lines_text(mem, mem.len() as int / 16)
}

/// The addresses of the first `k` of `entries`, with a comma between two of them.
pub open spec fn addresses_text(entries: Seq<TraceEntryView>, k: int) -> Seq<char>
    decreases k,
{
    if k <= 0 {
        Seq::empty()
    } else if k == 1 {
        hex_digits(entries[0].pc as nat, false)
    } else {
        addresses_text(entries, k - 1) + ", "@ + hex_digits(entries[k - 1].pc as nat, false)
    }
}

/// The addresses of the retired instructions of a log, the oldest first.
pub open spec fn backtrace_text(entries: Seq<TraceEntryView>) -> Seq<char> {
    "PC Backtrace: "@ + addresses_text(entries, entries.len() as int)
}

impl Chip8State {
    /// The registers and the timers in words, with the word that the program counter
    /// points at where there is one.
    pub fn to_text(&self) -> (text: String)
        ensures
            text@ == state_text(self@),
    {
        let mut text: String = String::from_str("\x1b[1mCurrent state : \x1b[0m\nI : 0x");
        push_hex_padded(&mut text, self.i as u64, false, 3);
        text.append("  SP : 0x");
        push_hex_padded(&mut text, self.sp as u64, false, 3);
        text.append("  PC : 0x");
        push_hex_padded(&mut text, self.pc as u64, false, 3);
        let ghost head = text@;
        match self.ram.get(self.pc, 2) {
            Ok(bytes) => {
                text.append(" -> 0x");
                push_hex_padded(&mut text, (bytes[0] as u16 * 256 + bytes[1] as u16) as u64, false, 4);
                text.append(" (next instruction)");
            },
            Err(_) => {},
        }
        assert(text@ =~= head + next_word_text(self@));
        text.append("\n");
        let ghost start = text@;
        let mut k: usize = 0;
        assert(text@ =~= start + registers_text(self.v@, 0));
        while k < 16
            invariant
                k <= 16,
                text@ == start + registers_text(self.v@, k as int),
            decreases 16 - k,
        {
            text.append("V");
            push_hex(&mut text, k as u64, true);
            text.append(" : 0x");
            push_hex_padded(&mut text, self.v[k] as u64, false, 2);
            if k % 4 == 3 {
                text.append("\n");
            } else {
                text.append("  ");
            }
            k = k + 1;
            assert(text@ =~= start + registers_text(self.v@, k as int));
        }
        text.append("delay : 0x");
        push_hex_padded(&mut text, self.delay as u64, false, 2);
        text.append("  sound : 0x");
        push_hex_padded(&mut text, self.sound as u64, false, 2);
        text.append("\n");
        text
    }
}

impl Chip8 {
    /// The registers and the timers of the machine in words.
    pub fn to_text(&self) -> (text: String)
        ensures
            text@ == state_text(self@.state),
    {
        self.get_state().to_text()
    }
}

impl Chip8Mem {
    /// A dump of the memory: 256 lines of sixteen bytes, each behind the address of
    /// its first byte.
    pub fn to_text(&self) -> (text: String)
        ensures
            text@ == mem_text(self@),
    {
        let bytes: &[u8] = self.dump();
        let mut text: String = String::from_str("\x1b[1mRAM dump :\x1b[0m\n");
        let ghost start = text@;
        let mut line: usize = 0;
        assert(text@ =~= start + lines_text(self@, 0));
        while line < 256
            invariant
                line <= 256,
                bytes@ == self@,
                bytes@.len() == 4096,
                text@ == start + lines_text(self@, line as int),
            decreases 256 - line,
        {
            let ghost done = text@;
            text.append("\x1b[37m0x");
            push_hex_padded(&mut text, (16 * line) as u64, true, 3);
            text.append(" :\x1b[0m");
            let ghost head = text@;
            let mut k: usize = 0;
            assert(text@ =~= head + pairs_text(self@, line as int, 0));
            while k < 8
                invariant
                    k <= 8,
                    line < 256,
                    bytes@ == self@,
                    bytes@.len() == 4096,
                    text@ == head + pairs_text(self@, line as int, k as int),
                decreases 8 - k,
            {
                text.append(" ");
                push_hex_padded(&mut text, bytes[16 * line + 2 * k] as u64, true, 2);
                push_hex_padded(&mut text, bytes[16 * line + 2 * k + 1] as u64, true, 2);
                k = k + 1;
                assert(text@ =~= head + pairs_text(self@, line as int, k as int));
            }
            text.append("\n");
            assert(text@ =~= done + line_text(self@, line as int));
            line = line + 1;
            assert(text@ =~= start + lines_text(self@, line as int));
        }
        text
    }
}

impl Backtrace<TraceEntry> {
    /// The addresses of the retired instructions that are kept, the oldest first.
    pub fn to_text(&self) -> (text: String)
        requires
            self.wf(),
        ensures
            text@ == backtrace_text(entry_views(self@)),
    {
        let mut text: String = String::from_str("PC Backtrace: ");
        let ghost start = text@;
        let ghost entries = entry_views(self@);
        let len: usize = self.len();
        let mut k: usize = 0;
        assert(text@ =~= start + addresses_text(entries, 0));
        while k < len
            invariant
                k <= len,
                len == self@.len(),
                self.wf(),
                entries == entry_views(self@),
                text@ == start + addresses_text(entries, k as int),
            decreases len - k,
        {
            if k > 0 {
                text.append(", ");
            }
            match self.get(k) {
                Some(entry) => {
                    push_hex(&mut text, entry.pc as u64, false);
                    assert(entry@ == entries[k as int]);
                },
                None => {},
            }
            k = k + 1;
            assert(text@ =~= start + addresses_text(entries, k as int));
        }
        text
    }
}

} // verus!
