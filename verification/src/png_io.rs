//! The two calls into the `png` crate: decoding a file's first frame and
//! encoding an 8-bit RGBA image.

use vstd::prelude::*;

verus! {

/// What `png` decodes from `bytes`: the first frame's width, height,
/// colour-type code (0 grey, 2 RGB, 3 indexed, 4 grey+alpha, 6 RGBA) and
/// sample bytes; `None` when the crate rejects the file.
pub uninterp spec fn png_decoded_frame(bytes: Seq<u8>) -> Option<(u32, u32, u8, Seq<u8>)>;

/// The file `png` writes for an 8-bit RGBA image of the given size.
pub uninterp spec fn png_rgba8_file(width: u32, height: u32, pixels: Seq<u8>) -> Seq<u8>;

/// `png::Decoder::new(..).read_info()` then `Reader::next_frame`, keeping
/// `OutputInfo::buffer_size()` bytes of the frame.  The frame is named.
/// As the crate's source shows, an RGB frame (8 or 16 bits per sample) is
/// a whole number of 3-sample pixels, so its byte count is a multiple of 3.
#[verifier::external_body]
pub(crate) fn png_decode_first_frame(bytes: &[u8]) -> (r: Option<(u32, u32, u8, Vec<u8>)>)
    ensures
        match r {
            Some(f) => png_decoded_frame(bytes@) == Some((f.0, f.1, f.2, f.3@)) && (f.2 == 2
                ==> f.3@.len() % 3 == 0),
            None => png_decoded_frame(bytes@) is None,
        },
{
    let decoder = png::Decoder::new(std::io::Cursor::new(bytes));
    let mut reader = decoder.read_info().ok()?;
    let mut buf = vec![0u8; reader.output_buffer_size()];
    let info = reader.next_frame(&mut buf).ok()?;
    buf.truncate(info.buffer_size());
    Some((info.width, info.height, info.color_type as u8, buf))
}

/// `png::Encoder` with `ColorType::Rgba` and `BitDepth::Eight`, then
/// `write_header` and `write_image_data`.  The file is named.  The crate
/// rejects a zero width or height and a sample count other than
/// `width * height * 4`, which the precondition excludes.
#[verifier::external_body]
pub(crate) fn png_encode_rgba8(pixels: &[u8], width: u32, height: u32) -> (r: Vec<u8>)
    requires
        width > 0,
        height > 0,
        pixels@.len() == width * height * 4,
    ensures
        r@ == png_rgba8_file(width, height, pixels@),
{
    let mut out = Vec::new();
    let mut enc = png::Encoder::new(&mut out, width, height);
    enc.set_color(png::ColorType::Rgba);
    enc.set_depth(png::BitDepth::Eight);
    enc.write_header().expect("png header").write_image_data(pixels).expect("png data");
    out
}

} // verus!
