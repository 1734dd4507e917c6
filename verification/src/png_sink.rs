//! The one place where the library hands pixel data to the `png` crate.

use vstd::prelude::*;

verus! {

/// The error type of the `png` crate's encoder, carried through unopened.
#[verifier::external_type_specification]
#[verifier::external_body]
pub struct ExEncodingError(png::EncodingError);

/// The PNG stream that the `png` crate's encoder, left at its default
/// settings, writes for an image of the given size whose 8-bit RGBA data is
/// `data`.
pub uninterp spec fn png_stream(width: u32, height: u32, data: Seq<u8>) -> Seq<u8>;

/// Runs `png::Encoder` (`new`, `set_color`, `set_depth`, `write_header`) and
/// `png::Writer::write_image_data` over an in-memory buffer.
///
/// Trusted, from the encoder's source: a stream that comes back is the one
/// named by [`png_stream`], and it opens with the PNG signature. Writing
/// into memory cannot fail, so the encoder refuses only what it checks
/// itself, a zero width, a zero height and data of the wrong length, and
/// succeeds on everything else. The size bound keeps the encoder's own
/// length arithmetic in range.
#[verifier::external_body]
pub(crate) fn encode_rgba8(width: u32, height: u32, data: &Vec<u8>) -> (r: Result<
    Vec<u8>,
    png::EncodingError,
>)
    requires
        4 * width * height <= usize::MAX,
    ensures
        r matches Ok(stream) ==> stream@ == png_stream(width, height, data@)
            && stream@.len() >= 8
            && stream@.subrange(0, 8) == crate::image::png_signature(),
        width != 0 && height != 0 && data@.len() == 4 * width * height ==> r is Ok,
{
    let mut stream: Vec<u8> = Vec::new();
    let mut encoder = png::Encoder::new(&mut stream, width, height);
    encoder.set_color(png::ColorType::Rgba);
    encoder.set_depth(png::BitDepth::Eight);
    let mut writer = encoder.write_header()?;
    writer.write_image_data(data)?;
    drop(writer);
    Ok(stream)
}

} // verus!
