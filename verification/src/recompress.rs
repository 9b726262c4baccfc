//! The recompression ghost: the picture is written as a low-quality JPEG,
//! read back, washed with white and laid over the picture itself.

use vstd::prelude::*;
use rand::rngs::StdRng;
use crate::buffer::{passed, rectangular, PixelBuffer, Raster};
use crate::codec::{blend, blended, decode, encode, written, Encoding};
use crate::error::GlitchError;
use crate::pixel::Pixel;
use crate::random::{draw, draw_of, generator_state};

verus! {

/// Solid white at the given opacity.
pub open spec fn white(opacity: u8) -> Pixel {
    Pixel { r: 255, g: 255, b: 255, a: opacity }
}

/// One pixel of the ghost: `read`, the pixel read back, lies below white at
/// `opacity`, and what is seen of the two lies over `own`, the pixel of the
/// picture itself.
pub open spec fn ghosted_pixel(own: Pixel, read: Pixel, opacity: u8) -> Pixel {
    blended(own, blended(read, white(opacity)))
}

/// The picture after the ghost `read` has been laid over the top-left
/// `width` by `height` region of `output`.
pub open spec fn ghosted(output: Raster, read: Raster, width: int, height: int, opacity: u8) -> Raster {
    Seq::new(
        output.len(),
        |y: int|
            Seq::new(
                output[y].len(),
                |x: int|
                    if 0 <= x < width && 0 <= y < height {
                        ghosted_pixel(output[y][x], read[y][x], opacity)
                    } else {
                        output[y][x]
                    },
            ),
    )
}

/// Takes what the codec read back if it is a picture of `columns` by `rows`
/// pixels. An error of the codec is handed on as it is; a picture of another
/// size is a `Decode` error.
pub fn accept(read: Result<PixelBuffer, GlitchError>, columns: u32, rows: u32) -> (outcome: Result<
    PixelBuffer,
    GlitchError,
>)
    ensures
        match read {
            Err(error) => outcome == Err::<PixelBuffer, GlitchError>(error),
            Ok(buffer) => if buffer.columns() == columns && buffer.rows() == rows {
                outcome == Ok::<PixelBuffer, GlitchError>(buffer)
            } else {
                outcome matches Err(GlitchError::Decode(_))
            },
        },
{
    match read {
        Err(error) => Err(error),
        Ok(buffer) => if buffer.width() == columns && buffer.height() == rows {
            Ok(buffer)
        } else {
            Err(GlitchError::Decode("the picture read back has another size".to_owned()))
        },
    }
}

/// Writes `picture` as a JPEG at `quality` and reads it back. What is read
/// is for the codec to say; it is accepted only if it has the size of
/// `picture`. The error is `Encode` exactly where the codec cannot write the
/// picture.
pub fn recompress(picture: &PixelBuffer, quality: u8) -> (outcome: Result<PixelBuffer, GlitchError>)
    requires
        picture.wf(),
    ensures
        outcome matches Ok(read) ==> {
            &&& read.wf()
            &&& read.columns() == picture.columns()
            &&& read.rows() == picture.rows()
        },
        (outcome matches Err(GlitchError::Encode(_))) <==> (written(
            picture@,
            picture.columns() as u32,
            picture.rows() as u32,
            Encoding::Jpeg(quality),
        ) is None),
{
    match encode(picture, Encoding::Jpeg(quality)) {
        Ok(bytes) => accept(decode(bytes.as_slice()), picture.width(), picture.height()),
        Err(error) => Err(error),
    }
}

/// Lays the ghost `read` over the top-left `width` by `height` region of `output`.
pub fn lay_over(output: &mut PixelBuffer, read: &PixelBuffer, width: u32, height: u32, opacity: u8)
    requires
        old(output).wf(),
        read.wf(),
        read.columns() == old(output).columns(),
        read.rows() == old(output).rows(),
        width <= old(output).columns(),
        height <= old(output).rows(),
    ensures
        final(output).wf(),
        final(output).columns() == old(output).columns(),
        final(output).rows() == old(output).rows(),
        final(output)@ == ghosted(old(output)@, read@, width as int, height as int, opacity),
{
    let ghost target = ghosted(old(output)@, read@, width as int, height as int, opacity);
    let wash: Pixel = Pixel::new(255, 255, 255, opacity);
    let mut y: u32 = 0;
    while y < height
        invariant
            output.wf(),
            old(output).wf(),
            read.wf(),
            read.columns() == output.columns() == old(output).columns(),
            read.rows() == output.rows() == old(output).rows(),
            width <= output.columns(),
            height <= output.rows(),
            y <= height,
            wash == white(opacity),
            target == ghosted(old(output)@, read@, width as int, height as int, opacity),
            passed(output@, old(output)@, target, 0, y as int),
        decreases height - y,
    {
        let mut x: u32 = 0;
        while x < width
            invariant
                output.wf(),
                old(output).wf(),
                read.wf(),
                read.columns() == output.columns() == old(output).columns(),
                read.rows() == output.rows() == old(output).rows(),
                width <= output.columns(),
                height <= output.rows(),
                y < height,
                x <= width,
                wash == white(opacity),
                target == ghosted(old(output)@, read@, width as int, height as int, opacity),
                passed(output@, old(output)@, target, x as int, y as int),
            decreases width - x,
        {
            let washed: Pixel = blend(read.get(x, y), wash);
            let seen: Pixel = blend(output.get(x, y), washed);
            proof {
                assert(target[y as int][x as int] == seen);
            }
            output.put(x, y, seen);
            x = x + 1;
        }
        proof {
            assert(passed(output@, old(output)@, target, 0, y + 1));
        }
        y = y + 1;
    }
    proof {
        assert(output@ =~~= target);
    }
}

/// Lays over the region what the codec read back, if it read a picture of
/// the size of `output`. An error of the codec is handed on as it is, a
/// picture of another size is a `Decode` error, and either leaves `output`
/// as it was.
pub fn lay_read(
    output: &mut PixelBuffer,
    read: Result<PixelBuffer, GlitchError>,
    width: u32,
    height: u32,
    opacity: u8,
) -> (outcome: Result<(), GlitchError>)
    requires
        old(output).wf(),
        width <= old(output).columns(),
        height <= old(output).rows(),
        read matches Ok(buffer) ==> buffer.wf(),
    ensures
        final(output).wf(),
        final(output).columns() == old(output).columns(),
        final(output).rows() == old(output).rows(),
        match read {
            Err(error) => outcome == Err::<(), GlitchError>(error) && final(output)@ == old(output)@,
            Ok(buffer) => if buffer.columns() == old(output).columns() && buffer.rows() == old(
                output,
            ).rows() {
                outcome is Ok && final(output)@ == ghosted(
                    old(output)@,
                    buffer@,
                    width as int,
                    height as int,
                    opacity,
                )
            } else {
                (outcome matches Err(GlitchError::Decode(_))) && final(output)@ == old(output)@
            },
        },
{
    match accept(read, output.width(), output.height()) {
        Ok(buffer) => {
            lay_over(output, &buffer, width, height, opacity);
            Ok(())
        },
        Err(error) => Err(error),
    }
}

/// How a ghost at `quality` and `opacity` ends. Where the picture could be
/// written and read back, some picture of its size has been laid over the
/// region as a ghost. Else the picture is as it was, and the error is
/// `Encode` exactly where the codec cannot write the picture.
pub open spec fn ghost_ends(
    before: Raster,
    after: Raster,
    outcome: Result<(), GlitchError>,
    columns: u32,
    rows: u32,
    width: int,
    height: int,
    quality: u8,
    opacity: u8,
) -> bool {
    &&& (outcome matches Err(GlitchError::Encode(_))) <==> (written(
        before,
        columns,
        rows,
        Encoding::Jpeg(quality),
    ) is None)
    &&& match outcome {
        Ok(_) => exists|read: Raster|
            rectangular(read, columns as int, rows as int) && after == #[trigger] ghosted(
                before,
                read,
                width,
                height,
                opacity,
            ),
        Err(_) => after == before,
    }
}

/// Recompresses `output` at `quality` and lays the ghost over its
/// top-left `width` by `height` region, below white at `opacity`.
pub fn ghost_with(output: &mut PixelBuffer, width: u32, height: u32, quality: u8, opacity: u8) -> (outcome:
    Result<(), GlitchError>)
    requires
        old(output).wf(),
        width <= old(output).columns(),
        height <= old(output).rows(),
    ensures
        final(output).wf(),
        final(output).columns() == old(output).columns(),
        final(output).rows() == old(output).rows(),
        ghost_ends(
            old(output)@,
            final(output)@,
            outcome,
            old(output).columns() as u32,
            old(output).rows() as u32,
            width as int,
            height as int,
            quality,
            opacity,
        ),
{
    let bytes: Vec<u8> = match encode(output, Encoding::Jpeg(quality)) {
        Ok(bytes) => bytes,
        Err(error) => {
            return Err(error);
        },
    };
    let read: Result<PixelBuffer, GlitchError> = decode(bytes.as_slice());
    let ghost seen = read;
    let outcome = lay_read(output, read, width, height, opacity);
    proof {
        if outcome is Ok {
            let buffer = seen->Ok_0;
            assert(rectangular(buffer@, old(output).columns(), old(output).rows()) && output@
                == ghosted(old(output)@, buffer@, width as int, height as int, opacity));
        }
    }
    outcome
}

/// The quality and the opacity that a ghost draws from a generator in the
/// given state, and the state it leaves: first the quality, from 1 to 10,
/// then the opacity, from 0 to 255.
pub open spec fn ghost_draws(state: Seq<u8>) -> (u8, u8, Seq<u8>) {
    let first = draw_of(state, 1, 10);
    let second = draw_of(first.1, 0, 255);
    (first.0 as u8, second.0 as u8, second.1)
}

/// A ghost with a quality from 1 to 10 and an opacity both drawn from `rng`.
pub(crate) fn ghost(output: &mut PixelBuffer, rng: &mut StdRng, width: u32, height: u32) -> (outcome:
    Result<(), GlitchError>)
    requires
        old(output).wf(),
        width <= old(output).columns(),
        height <= old(output).rows(),
    ensures
        final(output).wf(),
        final(output).columns() == old(output).columns(),
        final(output).rows() == old(output).rows(),
        ({
            let drawn = ghost_draws(generator_state(*old(rng)));
            &&& 1 <= drawn.0 <= 10
            &&& ghost_ends(
                old(output)@,
                final(output)@,
                outcome,
                old(output).columns() as u32,
                old(output).rows() as u32,
                width as int,
                height as int,
                drawn.0,
                drawn.1,
            )
            &&& generator_state(*final(rng)) == drawn.2
        }),
{
    let quality: u8 = draw(rng, 1, 10) as u8;
    let opacity: u8 = draw(rng, 0, 255) as u8;
    ghost_with(output, width, height, quality, opacity)
}

} // verus!
