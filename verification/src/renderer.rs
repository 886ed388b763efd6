//! Screenshot read-back: the padded row stride of a texture-to-buffer copy,
//! the unpadding and channel reordering of the mapped rows, and the PNG
//! encoding of the result.

use vstd::prelude::*;
use crate::png_io::{png_encode_rgba8, png_rgba8_file};

verus! {

/// Row strides of texture-to-buffer copies are multiples of this many bytes.
pub const COPY_BYTES_PER_ROW_ALIGNMENT: u32 = 256;

/// Widest screenshot whose padded row stride fits in a `u32`.
pub const MAX_CAPTURE_WIDTH: u32 = 1_073_741_759;

/// Bytes per row of a read-back buffer for `width` RGBA pixels: `4 * width`
/// rounded up to the copy alignment.
pub fn padded_row_bytes(width: u32) -> (r: u32)
    requires
        width <= MAX_CAPTURE_WIDTH,
    ensures
        r as int == ((4 * width as int + 255) / 256) * 256,
        r >= 4 * width,
        r < 4 * width + 256,
        r % 256 == 0,
{
    let unpadded = 4 * width;
    let blocks = unpadded / 256 + if unpadded % 256 != 0 {
        1u32
    } else {
        0u32
    };
    let ghost u = unpadded as int;
    assert(blocks as int == (u + 255) / 256 && ((u + 255) / 256) * 256 >= u && ((u + 255) / 256)
        * 256 < u + 256 && ((u + 255) / 256) * 256 <= u32::MAX) by (nonlinear_arith)
        requires
            0 <= u <= 4 * 1_073_741_759,
            blocks as int == u / 256 + if u % 256 != 0 {
                1int
            } else {
                0int
            },
    ;
    blocks * 256
}

/// Byte of row `rem` (within a row of `4 * width` bytes) that lands at
/// `rem` in the output: BGRA rows have red and blue swapped.
pub open spec fn source_offset(rem: int, is_bgra: bool) -> int {
    if is_bgra {
        let ch = rem % 4;
        rem - ch + if ch == 0 {
            2int
        } else if ch == 2 {
            0int
        } else {
            ch
        }
    } else {
        rem
    }
}

/// The tightly packed RGBA rows read back from a mapped buffer whose rows
/// start every `padded_row` bytes.
pub open spec fn unpadded_rgba(
    mapped: Seq<u8>,
    width: nat,
    height: nat,
    padded_row: nat,
    is_bgra: bool,
) -> Seq<u8> {
    Seq::new(
        height * width * 4,
        |k: int|
            mapped[(k / (4 * width as int)) * padded_row as int + source_offset(
                k % (4 * width as int),
                is_bgra,
            )],
    )
}

/// Strip the row padding of a mapped read-back buffer and reorder BGRA
/// pixels to RGBA.
pub fn unpad_rows(mapped: &Vec<u8>, width: u32, height: u32, padded_row: u32, is_bgra: bool) -> (r:
    Vec<u8>)
    requires
        width > 0,
        4 * width <= padded_row,
        height * padded_row <= mapped@.len(),
    ensures
        r@ == unpadded_rgba(mapped@, width as nat, height as nat, padded_row as nat, is_bgra),
{
    let ghost target = unpadded_rgba(
        mapped@,
        width as nat,
        height as nat,
        padded_row as nat,
        is_bgra,
    );
    let row_len: usize = 4 * width as usize;
    let mlen = mapped.len();
    assert(height as int * row_len as int <= mlen && height * width * 4 == height * row_len)
        by (nonlinear_arith)
        requires
            row_len <= padded_row,
            row_len == 4 * width,
            height * padded_row <= mlen,
    ;
    let total: usize = height as usize * row_len;
    let mut r: Vec<u8> = Vec::new();
    let mut k: usize = 0;
    while k < total
        invariant
            width > 0,
            row_len == 4 * width,
            row_len <= padded_row,
            height * padded_row <= mapped@.len(),
            mlen == mapped@.len(),
            total == height * row_len,
            target.len() == total,
            k <= total,
            target == unpadded_rgba(
                mapped@,
                width as nat,
                height as nat,
                padded_row as nat,
                is_bgra,
            ),
            r@ == target.subrange(0, k as int),
        decreases total - k,
    {
        let row = k / row_len;
        let rem = k % row_len;
        let ch = rem % 4;
        let off = if is_bgra {
            if ch == 0 {
                rem + 2
            } else if ch == 2 {
                rem - 2
            } else {
                rem
            }
        } else {
            rem
        };
        proof {
            assert(row < height && rem < row_len) by (nonlinear_arith)
                requires
                    row == k / row_len,
                    rem == k % row_len,
                    k < total,
                    total == height * row_len,
                    row_len > 0,
            ;
            assert(rem - ch + 3 < row_len) by (nonlinear_arith)
                requires
                    rem < row_len,
                    row_len == 4 * width,
                    ch == rem % 4,
            ;
            assert(row * padded_row + row_len <= mlen) by (nonlinear_arith)
                requires
                    row < height,
                    height * padded_row <= mlen,
                    row_len <= padded_row,
            ;
        }
        let idx = row * (padded_row as usize) + off;
        r.push(mapped[idx]);
        proof {
            assert(off as int == source_offset(rem as int, is_bgra));
            assert(r@ =~= target.subrange(0, k + 1));
        }
        k = k + 1;
    }
    proof {
        assert(target.subrange(0, total as int) =~= target);
    }
    r
}

/// Encode a mapped screenshot read-back buffer (`height` rows of
/// [`padded_row_bytes`] each) as an 8-bit RGBA PNG file.
pub fn screenshot_png(mapped: &Vec<u8>, width: u32, height: u32, is_bgra: bool) -> (r: Vec<u8>)
    requires
        0 < width <= MAX_CAPTURE_WIDTH,
        height > 0,
        height * (((4 * width as int + 255) / 256) * 256) <= mapped@.len(),
    ensures
        r@ == png_rgba8_file(
            width,
            height,
            unpadded_rgba(
                mapped@,
                width as nat,
                height as nat,
                (((4 * width as int + 255) / 256) * 256) as nat,
                is_bgra,
            ),
        ),
{
    let padded = padded_row_bytes(width);
    let pixels = unpad_rows(mapped, width, height, padded, is_bgra);
    proof {
        assert(height * width * 4 == width * height * 4) by (nonlinear_arith);
    }
    png_encode_rgba8(pixels.as_slice(), width, height)
}

} // verus!
