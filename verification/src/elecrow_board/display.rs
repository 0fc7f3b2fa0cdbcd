//! ILI9488 command framing and pixel wire format.
//!
//! The framebuffer stores 3 bytes per pixel `[r, g, b]`, each in 0–63; the
//! ILI9488 in 18-bit mode expects each channel in the top six bits of a
//! byte.  A region is flushed by setting the column and page address window
//! and streaming the converted pixels row by row.

use vstd::prelude::*;

verus! {

/// Column Address Set.
pub const CMD_COLUMN_ADDRESS_SET: u8 = 0x2A;

/// Page Address Set.
pub const CMD_PAGE_ADDRESS_SET: u8 = 0x2B;

/// Memory Write.
pub const CMD_MEMORY_WRITE: u8 = 0x2C;

/// Wire-format conversion buffer size (matches the DMA TX chunk capacity);
/// a multiple of 3, so chunks hold whole pixels.
pub const WIRE_BUF_SIZE: usize = 4092;

/// The parameter bytes of an address-set command for the window
/// `[start, end]`: both bounds big-endian.
pub open spec fn window_args(start: u16, end: u16) -> Seq<u8> {
    seq![(start / 256) as u8, (start % 256) as u8, (end / 256) as u8, (end % 256) as u8]
}

/// Parameter bytes of the Column/Page Address Set commands for `[start, end]`.
pub fn address_window_args(start: u16, end: u16) -> (a: Vec<u8>)
    ensures
        a@ == window_args(start, end),
{
    proof {
        assert((start >> 8u16) as u8 == (start / 256) as u8) by (bit_vector);
        assert(start as u8 == (start % 256) as u8) by (bit_vector);
        assert((end >> 8u16) as u8 == (end / 256) as u8) by (bit_vector);
        assert(end as u8 == (end % 256) as u8) by (bit_vector);
    }
    vec![(start >> 8) as u8, start as u8, (end >> 8) as u8, end as u8]
}

/// The address window `(sx, sy, ex, ey)` for a `w × h` region at
/// `(sx, sy)`, or `None` when the region is empty and nothing is sent.
pub fn flush_window(sx: u16, sy: u16, w: u16, h: u16) -> (r: Option<(u16, u16, u16, u16)>)
    requires
        w > 0 && h > 0 ==> sx + w <= u16::MAX && sy + h <= u16::MAX,
    ensures
        match r {
            Some((a, b, c, d)) => w > 0 && h > 0 && a == sx && b == sy && c == sx + w - 1 && d
                == sy + h - 1,
            None => w == 0 || h == 0,
        },
{
    if w == 0 || h == 0 {
        return None;
    }
    Some((sx, sy, sx + w - 1, sy + h - 1))
}

/// A framebuffer byte in wire format: the 6-bit value in the top bits.
pub open spec fn wire_byte(b: u8) -> u8 {
    ((b as int * 4) % 256) as u8
}

/// Convert the `w × h` region at `(sx, sy)` of a framebuffer `fb_width`
/// pixels wide to the ILI9488 wire format, row by row.
pub fn encode_region(fb_buf: &[u8], fb_width: u32, sx: u16, sy: u16, w: u16, h: u16) -> (wire: Vec<
    u8,
>)
    requires
        sx + w <= fb_width,
        (sy + h) * fb_width * 3 <= fb_buf@.len(),
    ensures
        wire@.len() == w * h * 3,
        forall|row: int, col: int, k: int|
            0 <= row < h && 0 <= col < w && 0 <= k < 3 ==> #[trigger] wire@[(row * w + col) * 3 + k]
                == wire_byte(fb_buf@[((sy + row) * fb_width + sx + col) * 3 + k]),
{
    let mut wire: Vec<u8> = Vec::new();
    let mut row: usize = 0;
    while row < h as usize
        invariant
            sx + w <= fb_width,
            (sy + h) * fb_width * 3 <= fb_buf@.len(),
            row <= h,
            wire@.len() == row * w * 3,
            forall|r: int, c: int, k: int|
                0 <= r < row && 0 <= c < w && 0 <= k < 3 ==> #[trigger] wire@[(r * w + c) * 3 + k]
                    == wire_byte(fb_buf@[((sy + r) * fb_width + sx + c) * 3 + k]),
        decreases h - row,
    {
        let mut col: usize = 0;
        while col < w as usize
            invariant
                sx + w <= fb_width,
                (sy + h) * fb_width * 3 <= fb_buf@.len(),
                row < h,
                col <= w,
                wire@.len() == (row * w + col) * 3,
                forall|r: int, c: int, k: int|
                    0 <= r < row && 0 <= c < w && 0 <= k < 3 ==> #[trigger] wire@[(r * w + c) * 3
                        + k] == wire_byte(fb_buf@[((sy + r) * fb_width + sx + c) * 3 + k]),
                forall|c: int, k: int|
                    0 <= c < col && 0 <= k < 3 ==> #[trigger] wire@[(row * w + c) * 3 + k]
                        == wire_byte(fb_buf@[((sy + row) * fb_width + sx + c) * 3 + k]),
            decreases w - col,
        {
            proof {
                assert(((sy + row) * fb_width + sx + col) * 3 + 3 <= (sy + h) * fb_width * 3)
                    by (nonlinear_arith)
                    requires
                        row < h,
                        sx + col < fb_width,
                ;
                assert((sy + row) * fb_width <= ((sy + row) * fb_width + sx + col) * 3)
                    by (nonlinear_arith)
                    requires
                        row >= 0,
                ;
                assert(fb_buf@.len() == fb_buf.len());
            }
            let fb_idx = ((sy as usize + row) * fb_width as usize + (sx as usize + col)) * 3;
            let ghost before = wire@;
            let mut k: usize = 0;
            while k < 3
                invariant
                    fb_idx + 3 <= fb_buf.len(),
                    k <= 3,
                    wire@.len() == before.len() + k,
                    forall|p: int| 0 <= p < before.len() ==> #[trigger] wire@[p] == before[p],
                    forall|q: int| 0 <= q < k ==> #[trigger] wire@[before.len() + q] == wire_byte(
                        fb_buf@[fb_idx + q],
                    ),
                decreases 3 - k,
            {
                let v = fb_buf[fb_idx + k];
                proof {
                    assert(v << 2u8 == ((v as int * 4) % 256) as u8) by (bit_vector);
                }
                wire.push(v << 2);
                k = k + 1;
            }
            proof {
                assert forall|r: int, c: int, kk: int|
                    0 <= r < row && 0 <= c < w && 0 <= kk < 3 implies #[trigger] wire@[(r * w
                    + c) * 3 + kk] == wire_byte(fb_buf@[((sy + r) * fb_width + sx + c) * 3 + kk]) by {
                    assert((r * w + c) * 3 + kk < (row * w + col) * 3) by (nonlinear_arith)
                        requires
                            0 <= r < row,
                            0 <= c < w,
                            0 <= kk < 3,
                            col >= 0,
                    ;
                }
                assert forall|c: int, kk: int|
                    0 <= c < col + 1 && 0 <= kk < 3 implies #[trigger] wire@[(row * w + c) * 3
                    + kk] == wire_byte(fb_buf@[((sy + row) * fb_width + sx + c) * 3 + kk]) by {
                    if c < col {
                        assert((row * w + c) * 3 + kk < (row * w + col) * 3) by (nonlinear_arith)
                            requires
                                c < col,
                                0 <= kk < 3,
                        ;
                    } else {
                        assert((row * w + c) * 3 + kk == before.len() + kk);
                    }
                }
            }
            col = col + 1;
        }
        proof {
            assert((row + 1) * w * 3 == (row * w + w) * 3) by (nonlinear_arith);
        }
        row = row + 1;
    }
    proof {
        assert(h * w * 3 == w * h * 3) by (nonlinear_arith);
    }
    wire
}

} // verus!
