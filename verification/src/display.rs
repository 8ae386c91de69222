//! From the bits of the display buffer to the colours of a frame.

use vstd::prelude::*;

verus! {

/// Colour of a lit pixel in a plain frame.
pub const FB_COLOR_ON: u32 = 0xFFFFFFFF;

/// Colour of a dark pixel in a plain frame.
pub const FB_COLOR_OFF: u32 = 0xFF000000;

/// Colour of a lit pixel in a tinted frame.
pub const MINIFB_COLOR_FG: u32 = 0xFFFF9900;

/// Colour of a dark pixel in a tinted frame.
pub const MINIFB_COLOR_BG: u32 = 0xFF221110;

/// Whether pixel `k` of the eight pixels in `byte` is lit. Pixel zero is the leftmost
/// and lies in the highest bit.
pub open spec fn pixel_lit(byte: u8, k: int) -> bool {
    byte & (0x80u8 >> (k as u8)) != 0
}

/// One colour for each pixel of `bytes`: `on` for a lit pixel, `off` for a dark one.
pub open spec fn colours(bytes: Seq<u8>, on: u32, off: u32) -> Seq<u32> {
    Seq::new(
        8 * bytes.len(),
        |p: int|
            if pixel_lit(bytes[p / 8], p % 8) {
                on
            } else {
                off
            },
    )
}

/// Red, green, blue and opacity of a lit pixel.
pub const RGBA_FG: [u8; 4] = [0xFF, 0x99, 0x00, 0xFF];

/// Red, green, blue and opacity of a dark pixel.
pub const RGBA_BG: [u8; 4] = [0x22, 0x11, 0x10, 0xFF];

/// Four bytes for each pixel of `bytes`: red, green, blue and opacity.
pub open spec fn rgba(bytes: Seq<u8>) -> Seq<u8> {
    Seq::new(
        32 * bytes.len(),
        |p: int|
            if pixel_lit(bytes[p / 32], p % 32 / 4) {
                RGBA_FG@[p % 4]
            } else {
                RGBA_BG@[p % 4]
            },
    )
}

/// Whether pixel `k` of `byte` is lit.
pub fn is_lit(byte: u8, k: u8) -> (lit: bool)
    requires
        k < 8,
    ensures
        lit == pixel_lit(byte, k as int),
{
    byte & (0x80u8 >> k) != 0
}

/// One colour for each pixel of `bytes`, row by row from the left.
pub fn paint(bytes: &[u8], on: u32, off: u32) -> (frame: Vec<u32>)
    ensures
        frame@ == colours(bytes@, on, off),
{
    let mut frame: Vec<u32> = Vec::new();
    let mut at: usize = 0;
    while at < bytes.len()
        invariant
            at <= bytes@.len(),
            frame@ == colours(bytes@.subrange(0, at as int), on, off),
        decreases bytes@.len() - at,
    {
        let byte: u8 = bytes[at];
        let ghost done = frame@;
        let mut k: u8 = 0;
        while k < 8
            invariant
                k <= 8,
                at < bytes@.len(),
                byte == bytes@[at as int],
                done == colours(bytes@.subrange(0, at as int), on, off),
                frame@.len() == 8 * at + k,
                forall|p: int| 0 <= p < 8 * at ==> frame@[p] == done[p],
                forall|j: int|
                    0 <= j < k ==> frame@[8 * at + j] == (if pixel_lit(byte, j) {
                        on
                    } else {
                        off
                    }),
            decreases 8 - k,
        {
            frame.push(if is_lit(byte, k) {
                on
            } else {
                off
            });
            k = k + 1;
        }
        at = at + 1;
        proof {
            let wanted = colours(bytes@.subrange(0, at as int), on, off);
            assert forall|p: int| 0 <= p < 8 * at implies frame@[p] == wanted[p] by {
                if p < 8 * (at - 1) {
                    assert(frame@[p] == done[p]);
                } else {
                    let j = p - 8 * (at - 1);
                    assert(frame@[8 * (at - 1) + j] == (if pixel_lit(byte, j) {
                        on
                    } else {
                        off
                    }));
                }
            }
            assert(frame@ =~= wanted);
        }
    }
    assert(bytes@.subrange(0, at as int) =~= bytes@);
    frame
}

/// Writes four bytes for each pixel of `bytes` to the start of `frame`: red, green,
/// blue and opacity, amber for a lit pixel and brown for a dark one. What lies
/// behind them in `frame` stays.
pub fn paint_rgba(bytes: &[u8], frame: &mut [u8])
    requires
        32 * bytes@.len() <= old(frame)@.len(),
    ensures
        final(frame)@ == rgba(bytes@) + old(frame)@.subrange(
            32 * bytes@.len() as int,
            old(frame)@.len() as int,
        ),
{
    let ghost rest = frame@;
    let total: usize = frame.len();
    let mut at: usize = 0;
    while at < bytes.len()
        invariant
            at <= bytes@.len(),
            frame@.len() == rest.len(),
            rest.len() == total,
            32 * bytes@.len() <= rest.len(),
            forall|p: int| 0 <= p < 32 * at ==> frame@[p] == rgba(bytes@)[p],
            forall|p: int| 32 * at <= p < rest.len() ==> frame@[p] == rest[p],
        decreases bytes@.len() - at,
    {
        let byte: u8 = bytes[at];
        let mut j: usize = 0;
        while j < 32
            invariant
                j <= 32,
                at < bytes@.len(),
                byte == bytes@[at as int],
                frame@.len() == rest.len(),
                rest.len() == total,
                32 * bytes@.len() <= rest.len(),
                forall|p: int| 0 <= p < 32 * at + j ==> frame@[p] == rgba(bytes@)[p],
                forall|p: int| 32 * at + j <= p < rest.len() ==> frame@[p] == rest[p],
            decreases 32 - j,
        {
            let colour: [u8; 4] = if is_lit(byte, (j / 4) as u8) {
                RGBA_FG
            } else {
                RGBA_BG
            };
            let p: usize = 32 * at + j;
            assert(p / 32 == at && p % 32 == j && p % 4 == j % 4);
            frame[p] = colour[j % 4];
            j = j + 1;
        }
        at = at + 1;
    }
    assert(frame@ =~= rgba(bytes@) + rest.subrange(32 * bytes@.len() as int, rest.len() as int));
}

/// The pixels of `bytes` in white on black.
pub fn fb_from_bytes(bytes: &[u8]) -> (frame: Vec<u32>)
    ensures
        frame@ == colours(bytes@, FB_COLOR_ON, FB_COLOR_OFF),
{
    paint(bytes, FB_COLOR_ON, FB_COLOR_OFF)
}

/// The pixels of `bytes` in amber on brown.
pub fn minifb_from_bytes(bytes: &[u8]) -> (frame: Vec<u32>)
    ensures
        frame@ == colours(bytes@, MINIFB_COLOR_FG, MINIFB_COLOR_BG),
{
    paint(bytes, MINIFB_COLOR_FG, MINIFB_COLOR_BG)
}

} // verus!
