//! PNG encoding of a finished raster, done by the `image` crate.

use vstd::prelude::*;

verus! {

/// The PNG encoding of a 300x300 RGB pixel buffer. The encoder writes a
/// byte stream that is a function of the pixel bytes alone; nothing further
/// is assumed about its shape.
pub uninterp spec fn png_encoding(pixels: Seq<u8>) -> Seq<u8>;

/// Relies on `image::write_buffer_with_format` with `ImageOutputFormat::Png`:
/// it writes the PNG encoding of the given 300x300 RGB buffer, a
/// deterministic function of the buffer's bytes, and succeeds on an
/// in-memory writer when the buffer length matches the dimensions.
#[verifier::external_body]
pub(crate) fn encode_png(pixels: &Vec<u8>) -> (r: Vec<u8>)
    requires
        pixels@.len() == 270000,
    ensures
        r@ == png_encoding(pixels@),
{
    let mut writer = std::io::Cursor::new(Vec::new());
    image::write_buffer_with_format(
        &mut writer,
        pixels,
        300,
        300,
        image::ColorType::Rgb8,
        image::ImageOutputFormat::Png,
    ).expect("encoding a 300x300 rgb raster into memory");
    writer.into_inner()
}

} // verus!
