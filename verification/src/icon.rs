//! The application icon's PNG encoding.

use vstd::prelude::*;
use crate::png_io::{png_encode_rgba8, png_rgba8_file};

verus! {

/// Side of the square application icon, in pixels.
pub const ICON_SIZE: u32 = 64;

/// Encode the icon's RGBA pixels (`ICON_SIZE × ICON_SIZE`, 4 bytes each) as
/// a PNG file.
pub fn icon_png_bytes(pixels: &Vec<u8>) -> (r: Vec<u8>)
    requires
        pixels@.len() == ICON_SIZE * ICON_SIZE * 4,
    ensures
        r@ == png_rgba8_file(ICON_SIZE, ICON_SIZE, pixels@),
{
    png_encode_rgba8(pixels.as_slice(), ICON_SIZE, ICON_SIZE)
}

} // verus!
