//! The integer side of the top bar icon: the minutes printed in the ring,
//! and the conversion of the drawn pixels into the format the status
//! notifier protocol expects. The drawing itself is left to the program
//! around the library.
use vstd::prelude::*;

use crate::display::{decimal, push_decimal};

verus! {

/// Whole minutes shown in the ring: the remaining time rounded up to a
/// minute, at most 99.
pub open spec fn ring_minutes(remaining: nat) -> nat {
    let minutes = (remaining + 59) / 60;
    if minutes > 99 {
        99
    } else {
        minutes
    }
}

/// The text printed in the ring while the countdown runs.
pub fn ring_minutes_text(remaining: u32) -> (s: String)
    ensures
        s@ == decimal(ring_minutes(remaining as nat)),
{
    let minutes = remaining / 60 + if remaining % 60 == 0 {
        0
    } else {
        1
    };
    let shown = if minutes > 99 {
        99
    } else {
        minutes
    };
    let mut s = String::new();
    push_decimal(&mut s, shown as u64);
    s
}

/// The `u32` whose little-endian bytes are `b0..b3`.
pub open spec fn le_u32(b0: u8, b1: u8, b2: u8, b3: u8) -> int {
    b0 + 0x100 * b1 + 0x10000 * b2 + 0x1000000 * b3
}

/// The `u32` whose big-endian bytes are `b0..b3`.
pub open spec fn be_u32(b0: u8, b1: u8, b2: u8, b3: u8) -> int {
    b3 + 0x100 * b2 + 0x10000 * b1 + 0x1000000 * b0
}

/// Reads four bytes as a `u32` in the machine's byte order, through
/// `u32::from_ne_bytes`. Claims that the value is the little-endian or the
/// big-endian reading of the bytes; which of the two depends on the machine
/// and is not stated.
#[verifier::external_body]
fn native_u32(b0: u8, b1: u8, b2: u8, b3: u8) -> (px: u32)
    ensures
        px == le_u32(b0, b1, b2, b3) || px == be_u32(b0, b1, b2, b3),
{
    u32::from_ne_bytes([b0, b1, b2, b3])
}

/// One colour channel with the alpha premultiplication undone.
pub open spec fn unpremultiply(c: int, a: int) -> int {
    if a == 0 {
        0
    } else if c * 255 / a > 255 {
        255
    } else {
        c * 255 / a
    }
}

/// The alpha, red, green and blue channels of a pixel `0xAARRGGBB`.
pub open spec fn channel(px: int, shift: int) -> int {
    (px / shift) % 256
}

/// A premultiplied `0xAARRGGBB` pixel as straight ARGB bytes, alpha first.
pub open spec fn straight_pixel(px: int) -> Seq<u8> {
    let a = channel(px, 0x1000000);
    seq![
        a as u8,
        unpremultiply(channel(px, 0x10000), a) as u8,
        unpremultiply(channel(px, 0x100), a) as u8,
        unpremultiply(channel(px, 1), a) as u8,
    ]
}

/// Where the pixel at row `y`, column `x` starts in the drawn surface.
pub open spec fn source_offset(stride: int, y: int, x: int) -> int {
    y * stride + 4 * x
}

/// The converted bytes of pixel number `p` are those of the drawn pixel it
/// comes from, read in one of the two byte orders.
pub open spec fn pixel_converted(src: Seq<u8>, out: Seq<u8>, stride: int, y: int, x: int, p: int) -> bool {
    let i = source_offset(stride, y, x);
    let px = out.subrange(4 * p, 4 * p + 4);
    ||| px == straight_pixel(le_u32(src[i], src[i + 1], src[i + 2], src[i + 3]))
    ||| px == straight_pixel(be_u32(src[i], src[i + 1], src[i + 2], src[i + 3]))
}

fn unpremultiply_channel(c: u32, a: u32) -> (r: u8)
    requires
        c < 256,
        a < 256,
    ensures
        r == unpremultiply(c as int, a as int),
{
    if a == 0 {
        0
    } else {
        let q = c * 255 / a;
        if q > 255 {
            255
        } else {
            q as u8
        }
    }
}

proof fn lemma_channels(px: u32)
    ensures
        (px >> 24) & 0xff == channel(px as int, 0x1000000),
        (px >> 16) & 0xff == channel(px as int, 0x10000),
        (px >> 8) & 0xff == channel(px as int, 0x100),
        px & 0xff == channel(px as int, 1),
        (px >> 24) & 0xff < 256,
        (px >> 16) & 0xff < 256,
        (px >> 8) & 0xff < 256,
        px & 0xff < 256,
{
    assert((px >> 24) & 0xff == (px / 0x1000000) % 256) by (bit_vector);
    assert((px >> 16) & 0xff == (px / 0x10000) % 256) by (bit_vector);
    assert((px >> 8) & 0xff == (px / 0x100) % 256) by (bit_vector);
    assert(px & 0xff == px % 256) by (bit_vector);
}

/// Convert a `size` x `size` surface of premultiplied, machine-order ARGB32
/// pixels, `stride` bytes per row, into straight ARGB bytes in network
/// order, row by row.
pub fn straight_argb(src: &[u8], stride: usize, size: usize) -> (out: Vec<u8>)
    requires
        4 * size <= stride,
        size * size * 4 <= usize::MAX,
        size > 0 ==> (size - 1) * stride + 4 * size <= src@.len(),
    ensures
        out@.len() == size * size * 4,
        forall|y: int, x: int|
            0 <= y < size && 0 <= x < size ==> #[trigger] pixel_converted(
                src@,
                out@,
                stride as int,
                y,
                x,
                y * size + x,
            ),
{
    let src_len = src.len();
    let mut out: Vec<u8> = Vec::new();
    let mut y: usize = 0;
    while y < size
        invariant
            y <= size,
            4 * size <= stride,
            size * size * 4 <= usize::MAX,
            size > 0 ==> (size - 1) * stride + 4 * size <= src@.len(),
            src_len == src@.len(),
            out@.len() == y * size * 4,
            forall|yy: int, x: int|
                0 <= yy < y && 0 <= x < size ==> #[trigger] pixel_converted(
                    src@,
                    out@,
                    stride as int,
                    yy,
                    x,
                    yy * size + x,
                ),
        decreases size - y,
    {
        assert(y * stride <= (size - 1) * stride) by (nonlinear_arith)
            requires
                y < size,
        ;
        assert((y + 1) * size * 4 <= size * size * 4) by (nonlinear_arith)
            requires
                y < size,
        ;
        assert((y + 1) * size * 4 == y * size * 4 + size * 4) by (nonlinear_arith);
        let row = y * stride;
        let mut x: usize = 0;
        while x < size
            invariant
                y < size,
                x <= size,
                4 * size <= stride,
                row == y * stride,
                row + 4 * size <= src@.len(),
                src_len == src@.len(),
                (y + 1) * size * 4 <= usize::MAX,
                out@.len() == y * size * 4 + x * 4,
                forall|yy: int, xx: int|
                    0 <= yy < y && 0 <= xx < size ==> #[trigger] pixel_converted(
                        src@,
                        out@,
                        stride as int,
                        yy,
                        xx,
                        yy * size + xx,
                    ),
                forall|xx: int|
                    0 <= xx < x ==> #[trigger] pixel_converted(
                        src@,
                        out@,
                        stride as int,
                        y as int,
                        xx,
                        y * size + xx,
                    ),
            decreases size - x,
        {
            let i = row + 4 * x;
            let px = native_u32(src[i], src[i + 1], src[i + 2], src[i + 3]);
            proof {
                lemma_channels(px);
            }
            let a = (px >> 24) & 0xff;
            let r = unpremultiply_channel((px >> 16) & 0xff, a);
            let g = unpremultiply_channel((px >> 8) & 0xff, a);
            let b = unpremultiply_channel(px & 0xff, a);
            let ghost before = out@;
            out.push(a as u8);
            out.push(r);
            out.push(g);
            out.push(b);
            proof {
                let p = y * size + x;
                assert(4 * p == y * size * 4 + x * 4) by (nonlinear_arith)
                    requires
                        p == y * size + x,
                ;
                assert(out@.subrange(4 * p, 4 * p + 4) == straight_pixel(px as int));
                assert(out@.subrange(0, before.len() as int) == before);
                assert forall|yy: int, xx: int|
                    0 <= yy < y && 0 <= xx < size implies #[trigger] pixel_converted(
                        src@,
                        out@,
                        stride as int,
                        yy,
                        xx,
                        yy * size + xx,
                    ) by {
                    assert(pixel_converted(src@, before, stride as int, yy, xx, yy * size + xx));
                    assert(yy * size + xx < y * size) by (nonlinear_arith)
                        requires
                            0 <= yy < y,
                            0 <= xx < size,
                    ;
                    assert(out@.subrange(4 * (yy * size + xx), 4 * (yy * size + xx) + 4)
                        == before.subrange(4 * (yy * size + xx), 4 * (yy * size + xx) + 4));
                }
                assert forall|xx: int| 0 <= xx < x + 1 implies #[trigger] pixel_converted(
                    src@,
                    out@,
                    stride as int,
                    y as int,
                    xx,
                    y * size + xx,
                ) by {
                    if xx < x {
                        assert(pixel_converted(src@, before, stride as int, y as int, xx, y * size + xx));
                        assert(out@.subrange(4 * (y * size + xx), 4 * (y * size + xx) + 4)
                            == before.subrange(4 * (y * size + xx), 4 * (y * size + xx) + 4));
                    }
                }
            }
            x = x + 1;
        }
        y = y + 1;
    }
    out
}

/// Undoing the premultiplication leaves fully opaque colours as they are and
/// turns every fully transparent pixel into transparent black; no channel
/// ever exceeds 255.
pub proof fn lemma_unpremultiply_bounds(c: int, a: int)
    requires
        0 <= c < 256,
        0 <= a < 256,
    ensures
        0 <= unpremultiply(c, a) <= 255,
        a == 255 ==> unpremultiply(c, a) == c,
        a == 0 ==> unpremultiply(c, a) == 0,
{
    if a > 0 {
        assert(c * 255 / a >= 0) by (nonlinear_arith)
            requires
                c >= 0,
                a > 0,
        ;
    }
    if a == 255 {
        assert(c * 255 / 255 == c) by (nonlinear_arith);
    }
}

} // verus!
