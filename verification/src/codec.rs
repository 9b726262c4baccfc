//! The codec: pictures from bytes, bytes from pictures, and the compositing
//! of one pixel over another. All three are the work of the `image` crate;
//! this module says of each what can be relied on.

use vstd::prelude::*;
use image::{DynamicImage, ImageError, ImageOutputFormat, Rgba, RgbaImage};
use crate::buffer::{raw_of, PixelBuffer, Raster};
use crate::error::GlitchError;
use crate::pixel::Pixel;

verus! {

/// The error of the `image` crate, carried through as an opaque value.
#[verifier::external_type_specification]
#[verifier::external_body]
pub struct ExImageError(image::ImageError);

/// A format to write a picture in.
#[derive(Clone, Copy, Debug, PartialEq, Eq, Structural)]
pub enum Encoding {
    /// PNG, which loses nothing.
    Png,
    /// JPEG at the given quality, from 1 (worst) to 100 (best).
    Jpeg(u8),
}

impl Encoding {
    /// The JPEG quality of this format, `None` for PNG.
    pub open spec fn quality(self) -> Option<u8> {
        match self {
            Encoding::Png => None,
            Encoding::Jpeg(q) => Some(q),
        }
    }
}

/// What `DynamicImage::write_to` writes for the 8-bit RGBA picture with the
/// samples `raw`: as PNG where `quality` is `None`, else as JPEG at that
/// quality; `None` where it reports an error. The PNG encoder is integer
/// code; the JPEG encoder converts colour and quantises in single precision,
/// one rounded operation at a time. Neither chooses its path by the machine.
pub uninterp spec fn encoded(width: u32, height: u32, raw: Seq<u8>, quality: Option<u8>) -> Option<
    Seq<u8>,
>;

/// What `image::Pixel::blend` leaves in the RGBA pixel `below` when `above`
/// is blended into it, the channels in the order red, green, blue, alpha.
pub uninterp spec fn composite(below: (u8, u8, u8, u8), above: (u8, u8, u8, u8)) -> (u8, u8, u8, u8);

/// The pixel seen where `above` lies over `below`. A fully transparent pixel
/// on top shows what is below it, a fully opaque one hides it; anything
/// between is the codec's source-over compositing.
pub open spec fn blended(below: Pixel, above: Pixel) -> Pixel {
    if above.a == 0 {
        below
    } else if above.a == 255 {
        above
    } else {
        let mixed = composite((below.r, below.g, below.b, below.a), (above.r, above.g, above.b, above.a));
        Pixel { r: mixed.0, g: mixed.1, b: mixed.2, a: mixed.3 }
    }
}

/// `image::load_from_memory`, then `DynamicImage::to_rgba8` and
/// `ImageBuffer::into_raw` on what it returns: the width, the height and the
/// samples row by row, four bytes a pixel.
///
/// Nothing is claimed of the outcome, not even that the number of samples
/// fits the dimensions, which callers test. The JPEG decoder rounds as the
/// processor it finds allows, so the outcome is no function of the bytes.
#[verifier::external_body]
fn load(bytes: &[u8]) -> Result<(u32, u32, Vec<u8>), ImageError> {
    let picture = image::load_from_memory(bytes)?.to_rgba8();
    Ok((picture.width(), picture.height(), picture.into_raw()))
}

/// `DynamicImage::write_to` into a buffer in memory, on the picture that
/// `ImageBuffer::from_raw` makes of `raw`.
///
/// The contract claims that the outcome is a function of the dimensions, the
/// samples and the format alone (`encoded`), and nothing of what it is.
/// `from_raw` and the encoders reject a sample count that does not fit the
/// dimensions, by `None` or a panic: the `requires` rules that out.
#[verifier::external_body]
fn store(width: u32, height: u32, raw: Vec<u8>, format: Encoding) -> (outcome: Result<
    Vec<u8>,
    ImageError,
>)
    requires
        raw@.len() == 4 * (width * height),
    ensures
        match outcome {
            Ok(bytes) => encoded(width, height, raw@, format.quality()) == Some(bytes@),
            Err(_) => encoded(width, height, raw@, format.quality()) is None,
        },
{
    let picture = DynamicImage::ImageRgba8(RgbaImage::from_raw(width, height, raw).unwrap());
    let mut sink = std::io::Cursor::new(Vec::new());
    let format = match format {
        Encoding::Png => ImageOutputFormat::Png,
        Encoding::Jpeg(quality) => ImageOutputFormat::Jpeg(quality),
    };
    picture.write_to(&mut sink, format)?;
    Ok(sink.into_inner())
}

/// `image::Pixel::blend` for `Rgba<u8>`, with `below` as the pixel blended
/// into and `above` as the one blended in.
///
/// The contract claims what the source shows at a glance: a fully
/// transparent `above` leaves `below` as it is, a fully opaque one replaces
/// it. For the rest, computed there in single precision one operation at a
/// time, it claims only that the result is a function of the two pixels
/// (`composite`).
#[verifier::external_body]
pub(crate) fn blend(below: Pixel, above: Pixel) -> (mixed: Pixel)
    ensures
        above.a == 0 ==> mixed == below,
        above.a == 255 ==> mixed == above,
        0 < above.a < 255 ==> (mixed.r, mixed.g, mixed.b, mixed.a) == composite(
            (below.r, below.g, below.b, below.a),
            (above.r, above.g, above.b, above.a),
        ),
{
    let mut under = Rgba([below.r, below.g, below.b, below.a]);
    image::Pixel::blend(&mut under, &Rgba([above.r, above.g, above.b, above.a]));
    Pixel { r: under.0[0], g: under.0[1], b: under.0[2], a: under.0[3] }
}

/// The text that `ImageError` displays. Nothing is claimed of it.
#[verifier::external_body]
fn describe(error: &ImageError) -> String {
    error.to_string()
}

/// The bytes of a `width` by `height` picture in `format`, where the codec
/// can write it.
pub open spec fn written(picture: Raster, width: u32, height: u32, format: Encoding) -> Option<Seq<u8>> {
    encoded(width, height, raw_of(picture, width as int, height as int), format.quality())
}

/// Decodes a picture, whatever its format, into 8-bit RGBA. Whether the
/// bytes are a picture, and which, is for the codec to say: what comes back
/// is a whole buffer or a `Decode` error.
pub fn decode(bytes: &[u8]) -> (outcome: Result<PixelBuffer, GlitchError>)
    ensures
        match outcome {
            Ok(buffer) => buffer.wf(),
            Err(error) => error is Decode,
        },
{
    match load(bytes) {
        Ok((width, height, raw)) => match PixelBuffer::from_raw(width, height, raw.as_slice()) {
            Some(buffer) => Ok(buffer),
            None => Err(GlitchError::Decode("the picture is not whole".to_owned())),
        },
        Err(error) => Err(GlitchError::Decode(describe(&error))),
    }
}

/// Encodes a picture in `format`.
pub fn encode(picture: &PixelBuffer, format: Encoding) -> (outcome: Result<Vec<u8>, GlitchError>)
    requires
        picture.wf(),
    ensures
        match written(picture@, picture.columns() as u32, picture.rows() as u32, format) {
            Some(bytes) => outcome matches Ok(made) && made@ == bytes,
            None => outcome matches Err(GlitchError::Encode(_)),
        },
{
    match store(picture.width(), picture.height(), picture.to_raw(), format) {
        Ok(made) => Ok(made),
        Err(error) => Err(GlitchError::Encode(describe(&error))),
    }
}

} // verus!
