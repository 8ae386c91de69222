//! The address space: 4096 bytes with checked reads and writes, and the drawing of
//! sprites into the display buffer that lies at its end.

use vstd::prelude::*;
use vstd::slice::slice_subrange;
use crate::display::pixel_lit;
use crate::errors::{Chip8Error, Fault, InvalidAccessError};
use crate::systems::{CHIP8_DISP_BUF_ADDR, CHIP8_DISP_BUF_LEN};
use crate::text::{hex_digits, hex_padded, push_hex, push_hex_padded};

verus! {

/// Number of bytes in the address space.
pub const CHIP8_MEM_SIZE: usize = 4096;

/// A memory whose addresses are sixteen bits wide. Its view is all that it holds,
/// byte for byte from address zero.
pub trait Memory16Bit: View<V = Seq<u8>> {
    /// The `len` bytes from `addr` on. Fails when they do not all lie in the memory.
    fn get(&self, addr: u16, len: u16) -> (res: Result<&[u8], Chip8Error>)
        ensures
            addr + len <= self@.len() ==> res is Ok && res->Ok_0@ == self@.subrange(
                addr as int,
                addr + len,
            ),
            addr + len > self@.len() ==> res is Err && res->Err_0@ is OutOfRange,
    ;

    /// Writes `content` from `addr` on. Fails, and writes nothing, when it does not all
    /// fit in the memory.
    fn set(&mut self, addr: u16, content: &[u8]) -> (res: Result<(), Chip8Error>)
        ensures
            addr + content@.len() <= old(self)@.len() ==> res is Ok && final(self)@ == written(
                old(self)@,
                addr as int,
                content@,
            ),
            addr + content@.len() > old(self)@.len() ==> final(self)@ == old(self)@ && res is Err
                && res->Err_0@ is OutOfRange,
    ;

    /// Writes one byte at `addr`. Fails, and writes nothing, when `addr` is outside the
    /// memory.
    fn set_byte(&mut self, addr: u16, content: u8) -> (res: Result<(), Chip8Error>)
        ensures
            addr < old(self)@.len() ==> res is Ok && final(self)@ == old(self)@.update(
                addr as int,
                content,
            ),
            addr >= old(self)@.len() ==> final(self)@ == old(self)@ && res is Err
                && res->Err_0@ is OutOfRange,
    ;

    /// All of the memory.
    fn dump(&self) -> (bytes: &[u8])
        ensures
            bytes@ == self@,
    ;
}

/// The memory `mem` after `content` has been written from `addr` on.
pub open spec fn written(mem: Seq<u8>, addr: int, content: Seq<u8>) -> Seq<u8> {
    Seq::new(
        mem.len(),
        |a: int|
            if addr <= a < addr + content.len() {
                content[a - addr]
            } else {
                mem[a]
            },
    )
}

/// Reason of a failed read at `addr`.
pub open spec fn unreachable_reason(addr: u16) -> Seq<char> {
    "Address 0x"@ + hex_digits(addr as nat, true) + " unreachable"@
}

/// Reason of a failed write of `len` bytes at `addr`.
pub open spec fn oversized_write_reason(addr: u16, len: nat) -> Seq<char> {
    "Cannot set 0x"@ + hex_digits(len, true) + " bytes starting from 0x"@ + hex_padded(
        addr as nat,
        true,
        3,
    ) + ", too big for emulated memory !"@
}

/// Reason of a failed write of one byte at `addr`.
pub open spec fn byte_write_reason(addr: u16) -> Seq<char> {
    "Cannot set a bytes starting from 0x"@ + hex_padded(addr as nat, true, 3)
        + ", too big for emulated memory !"@
}

/// The part of a sprite's row `s` that falls into the byte in which column `x` lies.
pub open spec fn sprite_high(s: u8, x: u8) -> u8 {
    s >> (x % 8)
}

/// The part of a sprite's row `s`, drawn from column `x`, that falls into the byte to
/// the right of the one in which column `x` lies.
pub open spec fn sprite_low(s: u8, x: u8) -> u8 {
    if x % 8 == 0 {
        0
    } else {
        s << ((8 - x % 8) as u8)
    }
}

/// The pixels that a sprite of `n` rows, drawn at column `x` and row `y`, covers in
/// byte `cell` of the display buffer. Column and row of the corner wrap around the
/// display; the sprite itself is cut off at the right and at the bottom.
pub open spec fn sprite_mask(sprite: Seq<u8>, x: u8, y: u8, n: u8, cell: int) -> u8 {
    let left = (x % 64) as int / 8;
    let row = cell / 8 - (y % 32) as int;
    if 0 <= cell < CHIP8_DISP_BUF_LEN as int && 0 <= row < n {
        if cell % 8 == left {
            sprite_high(sprite[row], x)
        } else if cell % 8 == left + 1 {
            sprite_low(sprite[row], x)
        } else {
            0
        }
    } else {
        0
    }
}

/// The memory `mem` after the sprite has been drawn: each byte of the display buffer
/// combined by exclusive or with the pixels that the sprite covers in it.
pub open spec fn blit(mem: Seq<u8>, sprite: Seq<u8>, x: u8, y: u8, n: u8) -> Seq<u8> {
    Seq::new(
        mem.len(),
        |a: int|
            if CHIP8_DISP_BUF_ADDR as int <= a < CHIP8_DISP_BUF_ADDR + CHIP8_DISP_BUF_LEN {
                mem[a] ^ sprite_mask(sprite, x, y, n, a - CHIP8_DISP_BUF_ADDR)
            } else {
                mem[a]
            },
    )
}

/// The lit pixels of byte `cell` of the display buffer that the sprite covers, and
/// that drawing it therefore puts out.
pub open spec fn erased(mem: Seq<u8>, sprite: Seq<u8>, x: u8, y: u8, n: u8, cell: int) -> u8 {
    mem[CHIP8_DISP_BUF_ADDR + cell] & sprite_mask(sprite, x, y, n, cell)
}

/// The dark pixels of byte `cell` of the display buffer that the sprite covers, and
/// that drawing it therefore lights.
pub open spec fn lit(mem: Seq<u8>, sprite: Seq<u8>, x: u8, y: u8, n: u8, cell: int) -> u8 {
    !mem[CHIP8_DISP_BUF_ADDR + cell] & sprite_mask(sprite, x, y, n, cell)
}

/// Whether drawing the sprite puts out a lit pixel.
pub open spec fn blit_collides(mem: Seq<u8>, sprite: Seq<u8>, x: u8, y: u8, n: u8) -> bool {
    exists|cell: int|
        0 <= cell < CHIP8_DISP_BUF_LEN as int && #[trigger] erased(mem, sprite, x, y, n, cell)
            != 0
}

/// Whether drawing the sprite lights a dark pixel.
pub open spec fn blit_lights(mem: Seq<u8>, sprite: Seq<u8>, x: u8, y: u8, n: u8) -> bool {
    exists|cell: int|
        0 <= cell < CHIP8_DISP_BUF_LEN as int && #[trigger] lit(mem, sprite, x, y, n, cell) != 0
}

/// Whether the pixel in column `col` of row `row` of the display is lit.
pub open spec fn display_pixel(mem: Seq<u8>, col: int, row: int) -> bool {
    pixel_lit(mem[CHIP8_DISP_BUF_ADDR + 8 * row + col / 8], col % 8)
}

/// Whether a lit pixel of the sprite falls on column `col` of row `row` when the
/// sprite is drawn with its corner at column `x` and row `y`, both taken around the
/// display.
pub open spec fn sprite_pixel(sprite: Seq<u8>, x: u8, y: u8, n: u8, col: int, row: int) -> bool {
    let c = col - x % 64;
    let r = row - y % 32;
    0 <= r < n && 0 <= c < 8 && pixel_lit(sprite[r], c)
}

/// The address space of the machine.
#[derive(Clone, Copy, Debug)]
pub struct Chip8Mem {
    ram: [u8; 4096],
}

impl View for Chip8Mem {
    type V = Seq<u8>;

    closed spec fn view(&self) -> Seq<u8> {
        self.ram@
    }
}

/// The address space always holds 4096 bytes.
pub broadcast proof fn lemma_mem_size(mem: Chip8Mem)
    ensures
        #[trigger] mem@.len() == CHIP8_MEM_SIZE,
{
}

impl Chip8Mem {
    /// A memory of zeros.
    pub fn new() -> (mem: Self)
        ensures
            mem@ == Seq::new(CHIP8_MEM_SIZE as nat, |a: int| 0u8),
    {
        Self { ram: [0;4096] }
    }

    /// Draws a sprite of `n` rows, eight pixels wide, with its upper left corner at
    /// column `x_uncapped` and row `y_uncapped`, both taken around the display. Each
    /// pixel of the sprite flips the pixel under it. Returns whether a lit pixel was
    /// put out.
    pub fn load_sprite(
        &mut self,
        sprite: &[u8],
        x_uncapped: u8,
        y_uncapped: u8,
        n: u8,
    ) -> (collision: bool)
        requires
            n <= sprite@.len(),
        ensures
            final(self)@ == blit(old(self)@, sprite@, x_uncapped, y_uncapped, n),
            collision == blit_collides(old(self)@, sprite@, x_uncapped, y_uncapped, n),
    {
        let x: u8 = x_uncapped % 64;
        let y: u8 = y_uncapped % 32;
        let left: usize = (x / 8) as usize;
        let shift: u8 = x % 8;
        let ghost before = self@;
        let ghost pixels = sprite@;
        let mut flag: bool = false;
        let mut r: u8 = 0;
        proof {
            lemma_xor_zero();
            assert(self@ =~= blit(before, pixels, x_uncapped, y_uncapped, 0));
            assert(!blit_collides(before, pixels, x_uncapped, y_uncapped, 0)) by {
                lemma_and_zero();
            }
        }
        while r < n && (y as usize) + (r as usize) < 32
            invariant
                r <= n,
                n <= sprite@.len(),
                pixels == sprite@,
                before.len() == CHIP8_MEM_SIZE,
                x == x_uncapped % 64,
                y == y_uncapped % 32,
                left == x / 8,
                shift == x_uncapped % 8,
                self@ == blit(before, pixels, x_uncapped, y_uncapped, r),
                flag == blit_collides(before, pixels, x_uncapped, y_uncapped, r),
            decreases n - r,
        {
            let s: u8 = sprite[r as usize];
            let cell: usize = ((y as usize) + (r as usize)) * 8 + left;
            let at: usize = CHIP8_DISP_BUF_ADDR as usize + cell;
            let high: u8 = s >> shift;
            let low: u8 = if shift == 0 {
                0
            } else {
                s << (8 - shift)
            };
            let under_high: u8 = self.ram[at];
            let hit_high: bool = under_high & high != 0;
            self.ram[at] = under_high ^ high;
            let mut hit_low: bool = false;
            if left < 7 {
                let under_low: u8 = self.ram[at + 1];
                hit_low = under_low & low != 0;
                self.ram[at + 1] = under_low ^ low;
            }
            proof {
                lemma_xor_zero();
                lemma_and_zero();
                let next = (r + 1) as u8;
                assert(high == sprite_high(s, x_uncapped));
                assert(low == sprite_low(s, x_uncapped));
                assert(sprite_mask(pixels, x_uncapped, y_uncapped, next, cell as int) == high);
                assert(left < 7 ==> sprite_mask(pixels, x_uncapped, y_uncapped, next, cell + 1)
                    == low);
                assert forall|c: int| c != cell && c != cell + 1 implies #[trigger] sprite_mask(
                    pixels,
                    x_uncapped,
                    y_uncapped,
                    next,
                    c,
                ) == sprite_mask(pixels, x_uncapped, y_uncapped, r, c) by {}
                assert(sprite_mask(pixels, x_uncapped, y_uncapped, r, cell as int) == 0);
                assert(sprite_mask(pixels, x_uncapped, y_uncapped, r, cell + 1) == 0);
                assert(left == 7 ==> sprite_mask(pixels, x_uncapped, y_uncapped, next, cell + 1)
                    == 0);
                assert(under_high == before[at as int]);
                assert(left < 7 ==> self.ram@[at + 1] == before[at + 1] ^ low);
                assert(self@ =~= blit(before, pixels, x_uncapped, y_uncapped, next));
                let hit = hit_high || hit_low;
                if hit_high {
                    assert(erased(before, pixels, x_uncapped, y_uncapped, next, cell as int) != 0);
                }
                if hit_low {
                    assert(erased(before, pixels, x_uncapped, y_uncapped, next, cell + 1) != 0);
                }
                if flag {
                    let c = choose|c: int|
                        0 <= c < CHIP8_DISP_BUF_LEN as int && #[trigger] erased(
                            before,
                            pixels,
                            x_uncapped,
                            y_uncapped,
                            r,
                            c,
                        ) != 0;
                    assert(c != cell && c != cell + 1);
                    assert(erased(before, pixels, x_uncapped, y_uncapped, next, c) != 0);
                }
                if blit_collides(before, pixels, x_uncapped, y_uncapped, next) {
                    let c = choose|c: int|
                        0 <= c < CHIP8_DISP_BUF_LEN as int && #[trigger] erased(
                            before,
                            pixels,
                            x_uncapped,
                            y_uncapped,
                            next,
                            c,
                        ) != 0;
                    if c != cell && c != cell + 1 {
                        assert(erased(before, pixels, x_uncapped, y_uncapped, r, c) != 0);
                    }
                }
                assert((flag || hit) == blit_collides(
                    before,
                    pixels,
                    x_uncapped,
                    y_uncapped,
                    next,
                ));
            }
            flag = flag || hit_high || hit_low;
            r = r + 1;
        }
        proof {
            assert forall|c: int| #[trigger]
                sprite_mask(pixels, x_uncapped, y_uncapped, n, c) == sprite_mask(
                    pixels,
                    x_uncapped,
                    y_uncapped,
                    r,
                    c,
                ) by {}
            assert(self@ =~= blit(before, pixels, x_uncapped, y_uncapped, n));
            if flag {
                let c = choose|c: int|
                    0 <= c < CHIP8_DISP_BUF_LEN as int && #[trigger] erased(
                        before,
                        pixels,
                        x_uncapped,
                        y_uncapped,
                        r,
                        c,
                    ) != 0;
                assert(erased(before, pixels, x_uncapped, y_uncapped, n, c) != 0);
            }
            if blit_collides(before, pixels, x_uncapped, y_uncapped, n) {
                let c = choose|c: int|
                    0 <= c < CHIP8_DISP_BUF_LEN as int && #[trigger] erased(
                        before,
                        pixels,
                        x_uncapped,
                        y_uncapped,
                        n,
                        c,
                    ) != 0;
                assert(erased(before, pixels, x_uncapped, y_uncapped, r, c) != 0);
            }
        }
        flag
    }
}

/// Exclusive or with no pixel changes nothing.
proof fn lemma_xor_zero()
    ensures
        forall|b: u8| #[trigger] (b ^ 0) == b,
{
    assert(forall|b: u8| #[trigger] (b ^ 0) == b) by (bit_vector);
}

/// No pixel is covered by an empty mask.
proof fn lemma_and_zero()
    ensures
        forall|b: u8| #[trigger] (b & 0) == 0,
{
    assert(forall|b: u8| #[trigger] (b & 0) == 0) by (bit_vector);
}

/// Drawing the same sprite twice at the same place restores the memory. The second
/// drawing puts out, byte for byte, the very pixels that the first one lit, so it
/// reports a collision exactly when the first one lit a pixel.
pub proof fn lemma_blit_twice_restores(mem: Seq<u8>, sprite: Seq<u8>, x: u8, y: u8, n: u8)
    requires
        mem.len() == CHIP8_MEM_SIZE,
    ensures
        blit(blit(mem, sprite, x, y, n), sprite, x, y, n) == mem,
        forall|cell: int|
            0 <= cell < CHIP8_DISP_BUF_LEN as int ==> #[trigger] erased(
                blit(mem, sprite, x, y, n),
                sprite,
                x,
                y,
                n,
                cell,
            ) == lit(mem, sprite, x, y, n, cell),
        blit_collides(blit(mem, sprite, x, y, n), sprite, x, y, n) == blit_lights(
            mem,
            sprite,
            x,
            y,
            n,
        ),
{
    let once = blit(mem, sprite, x, y, n);
    assert(forall|b: u8, m: u8| #[trigger] ((b ^ m) ^ m) == b) by (bit_vector);
    assert(forall|b: u8, m: u8| #[trigger] ((b ^ m) & m) == !b & m) by (bit_vector);
    assert(blit(once, sprite, x, y, n) =~= mem);
    assert forall|cell: int| 0 <= cell < CHIP8_DISP_BUF_LEN as int implies #[trigger] erased(
        once,
        sprite,
        x,
        y,
        n,
        cell,
    ) == lit(mem, sprite, x, y, n, cell) by {
        let a = CHIP8_DISP_BUF_ADDR + cell;
        assert(once[a] == mem[a] ^ sprite_mask(sprite, x, y, n, cell));
    }
    if blit_collides(once, sprite, x, y, n) {
        let c = choose|c: int|
            0 <= c < CHIP8_DISP_BUF_LEN as int && #[trigger] erased(once, sprite, x, y, n, c) != 0;
        assert(lit(mem, sprite, x, y, n, c) != 0);
    }
    if blit_lights(mem, sprite, x, y, n) {
        let c = choose|c: int|
            0 <= c < CHIP8_DISP_BUF_LEN as int && #[trigger] lit(mem, sprite, x, y, n, c) != 0;
        assert(erased(once, sprite, x, y, n, c) != 0);
    }
}

/// Pixel by pixel: drawing a sprite flips the pixels of the display on which a lit
/// pixel of the sprite falls, and no others. What of the sprite would lie beyond the
/// right or the lower edge is not drawn.
pub proof fn lemma_blit_pixels(
    mem: Seq<u8>,
    sprite: Seq<u8>,
    x: u8,
    y: u8,
    n: u8,
    col: int,
    row: int,
)
    requires
        mem.len() == CHIP8_MEM_SIZE,
        0 <= col < 64,
        0 <= row < 32,
    ensures
        display_pixel(blit(mem, sprite, x, y, n), col, row) == (display_pixel(mem, col, row)
            != sprite_pixel(sprite, x, y, n, col, row)),
{
    let cell = 8 * row + col / 8;
    let under = mem[CHIP8_DISP_BUF_ADDR + cell];
    let mask = sprite_mask(sprite, x, y, n, cell);
    let k = (col % 8) as u8;
    let shift = (x % 8) as u8;
    let left = (x % 64) as int / 8;
    let r = row - y % 32;
    assert(blit(mem, sprite, x, y, n)[CHIP8_DISP_BUF_ADDR + cell] == under ^ mask);
    assert(((under ^ mask) & (0x80u8 >> k) != 0) == ((under & (0x80u8 >> k) != 0) != (mask & (0x80u8
        >> k) != 0))) by (bit_vector);
    assert(0u8 & (0x80u8 >> k) == 0) by (bit_vector);
    if 0 <= r < n {
        let s = sprite[r];
        if col / 8 == left {
            assert(mask == s >> shift);
            if k >= shift {
                let c = (k - shift) as u8;
                assert(((s >> shift) & (0x80u8 >> k) != 0) == (s & (0x80u8 >> c) != 0))
                    by (bit_vector)
                    requires
                        shift <= k < 8,
                        c == k - shift,
                ;
            } else {
                assert((s >> shift) & (0x80u8 >> k) == 0) by (bit_vector)
                    requires
                        k < shift < 8,
                ;
            }
        } else if col / 8 == left + 1 {
            if shift == 0 {
                assert(mask == 0);
            } else {
                let back = (8 - shift) as u8;
                assert(mask == s << back);
                if k < shift {
                    let c = (k + 8 - shift) as u8;
                    assert(((s << back) & (0x80u8 >> k) != 0) == (s & (0x80u8 >> c) != 0))
                        by (bit_vector)
                        requires
                            k < shift < 8,
                            back == 8 - shift,
                            c == k + 8 - shift,
                    ;
                } else {
                    assert((s << back) & (0x80u8 >> k) == 0) by (bit_vector)
                        requires
                            0 < shift <= k < 8,
                            back == 8 - shift,
                    ;
                }
            }
        }
    }
}

/// The failure of a write of one byte at `addr`.
pub(crate) fn byte_write_error(addr: u16) -> (e: Chip8Error)
    ensures
        e@ == Fault::OutOfRange(byte_write_reason(addr)),
{
    let mut reason: String = String::from_str("Cannot set a bytes starting from 0x");
    push_hex_padded(&mut reason, addr as u64, true, 3);
    reason.append(", too big for emulated memory !");
    Chip8Error::OutOfRange(InvalidAccessError::new(reason.as_str()))
}

impl Memory16Bit for Chip8Mem {
    fn get(&self, addr: u16, len: u16) -> (res: Result<&[u8], Chip8Error>)
        ensures
            addr + len <= CHIP8_MEM_SIZE ==> res is Ok && res->Ok_0@ == self@.subrange(
                addr as int,
                addr + len,
            ),
            addr + len > CHIP8_MEM_SIZE ==> res is Err && res->Err_0@ == Fault::OutOfRange(
                unreachable_reason(addr),
            ),
    {
        let end: usize = addr as usize + len as usize;
        if end > CHIP8_MEM_SIZE {
            let mut reason: String = String::from_str("Address 0x");
            push_hex(&mut reason, addr as u64, true);
            reason.append(" unreachable");
            return Err(Chip8Error::OutOfRange(InvalidAccessError::new(reason.as_str())));
        }
        Ok(slice_subrange(self.ram.as_slice(), addr as usize, end))
    }

    fn set(&mut self, addr: u16, content: &[u8]) -> (res: Result<(), Chip8Error>)
        ensures
            addr + content@.len() <= CHIP8_MEM_SIZE ==> res is Ok && final(self)@ == written(
                old(self)@,
                addr as int,
                content@,
            ),
            addr + content@.len() > CHIP8_MEM_SIZE ==> final(self)@ == old(self)@ && res is Err
                && res->Err_0@ == Fault::OutOfRange(
                oversized_write_reason(addr, content@.len()),
            ),
    {
        let len: usize = content.len();
        if len > CHIP8_MEM_SIZE || addr as usize > CHIP8_MEM_SIZE - len {
            let mut reason: String = String::from_str("Cannot set 0x");
            push_hex(&mut reason, len as u64, true);
            reason.append(" bytes starting from 0x");
            push_hex_padded(&mut reason, addr as u64, true, 3);
            reason.append(", too big for emulated memory !");
            return Err(Chip8Error::OutOfRange(InvalidAccessError::new(reason.as_str())));
        }
        let ghost before = self@;
        let mut k: usize = 0;
        assert(self@ =~= written(before, addr as int, content@.subrange(0, 0)));
        while k < len
            invariant
                k <= len,
                len == content@.len(),
                addr + len <= CHIP8_MEM_SIZE,
                self@ == written(before, addr as int, content@.subrange(0, k as int)),
            decreases len - k,
        {
            self.ram[addr as usize + k] = content[k];
            k = k + 1;
            assert(self@ =~= written(before, addr as int, content@.subrange(0, k as int)));
        }
        assert(content@.subrange(0, len as int) =~= content@);
        Ok(())
    }

    fn set_byte(&mut self, addr: u16, content: u8) -> (res: Result<(), Chip8Error>)
        ensures
            addr < CHIP8_MEM_SIZE ==> res is Ok && final(self)@ == old(self)@.update(
                addr as int,
                content,
            ),
            addr >= CHIP8_MEM_SIZE ==> final(self)@ == old(self)@ && res is Err && res->Err_0@
                == Fault::OutOfRange(byte_write_reason(addr)),
    {
        if addr as usize >= CHIP8_MEM_SIZE {
            return Err(byte_write_error(addr));
        }
        self.ram[addr as usize] = content;
        Ok(())
    }

    fn dump(&self) -> (bytes: &[u8]) {
        self.ram.as_slice()
    }
}

} // verus!
