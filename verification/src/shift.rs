//! Channel shifts: the three colour channels of every pixel change places,
//! alpha stays.

use vstd::prelude::*;
use crate::buffer::{passed, PixelBuffer, Raster};
use crate::pixel::Pixel;

verus! {

/// The picture with the colour channels of every pixel of the top-left
/// `width` by `height` region moved one place: to the left when `leftward`
/// holds, (R, G, B) becoming (G, B, R), else to the right, (R, G, B) becoming
/// (B, R, G). Cells outside the region are as in `output`.
pub open spec fn shifted(output: Raster, width: int, height: int, leftward: bool) -> Raster {
    Seq::new(
        output.len(),
        |y: int|
            Seq::new(
                output[y].len(),
                |x: int|
                    if 0 <= x < width && 0 <= y < height {
                        if leftward {
                            output[y][x].rotated_left()
                        } else {
                            output[y][x].rotated_right()
                        }
                    } else {
                        output[y][x]
                    },
            ),
    )
}

/// The picture after a channel shift to the left.
pub open spec fn shifted_left(output: Raster, width: int, height: int) -> Raster {
    shifted(output, width, height, true)
}

/// The picture after a channel shift to the right.
pub open spec fn shifted_right(output: Raster, width: int, height: int) -> Raster {
    shifted(output, width, height, false)
}

fn shift_channels(output: &mut PixelBuffer, width: u32, height: u32, leftward: bool)
    requires
        old(output).wf(),
        width <= old(output).columns(),
        height <= old(output).rows(),
    ensures
        final(output).wf(),
        final(output).columns() == old(output).columns(),
        final(output).rows() == old(output).rows(),
        final(output)@ == shifted(old(output)@, width as int, height as int, leftward),
{
    let ghost target = shifted(old(output)@, width as int, height as int, leftward);
    let mut y: u32 = 0;
    while y < height
        invariant
            output.wf(),
            old(output).wf(),
            output.columns() == old(output).columns(),
            output.rows() == old(output).rows(),
            width <= output.columns(),
            height <= output.rows(),
            y <= height,
            target == shifted(old(output)@, width as int, height as int, leftward),
            passed(output@, old(output)@, target, 0, y as int),
        decreases height - y,
    {
        let mut x: u32 = 0;
        while x < width
            invariant
                output.wf(),
                old(output).wf(),
                output.columns() == old(output).columns(),
                output.rows() == old(output).rows(),
                width <= output.columns(),
                height <= output.rows(),
                y < height,
                x <= width,
                target == shifted(old(output)@, width as int, height as int, leftward),
                passed(output@, old(output)@, target, x as int, y as int),
            decreases width - x,
        {
            let pixel: Pixel = output.get(x, y);
            let turned: Pixel = if leftward {
                pixel.rotate_left()
            } else {
                pixel.rotate_right()
            };
            proof {
                assert(target[y as int][x as int] == turned);
            }
            output.put(x, y, turned);
            x = x + 1;
        }
        proof {
            assert(passed(output@, old(output)@, target, 0, y + 1));
        }
        y = y + 1;
    }
    proof {
        assert(output@ =~~= target);
    }
}

/// Moves the colour channels of every pixel of the region one place to the left.
pub fn shift_left(output: &mut PixelBuffer, width: u32, height: u32)
    requires
        old(output).wf(),
        width <= old(output).columns(),
        height <= old(output).rows(),
    ensures
        final(output).wf(),
        final(output).columns() == old(output).columns(),
        final(output).rows() == old(output).rows(),
        final(output)@ == shifted_left(old(output)@, width as int, height as int),
{
    shift_channels(output, width, height, true);
}

/// Moves the colour channels of every pixel of the region one place to the right.
pub fn shift_right(output: &mut PixelBuffer, width: u32, height: u32)
    requires
        old(output).wf(),
        width <= old(output).columns(),
        height <= old(output).rows(),
    ensures
        final(output).wf(),
        final(output).columns() == old(output).columns(),
        final(output).rows() == old(output).rows(),
        final(output)@ == shifted_right(old(output)@, width as int, height as int),
{
    shift_channels(output, width, height, false);
}

/// A shift to the left followed by one to the right over the same region
/// gives back the picture, and so does a shift to the right followed by one to
/// the left.
pub proof fn lemma_shifts_cancel(output: Raster, width: int, height: int)
    ensures
        shifted_right(shifted_left(output, width, height), width, height) == output,
        shifted_left(shifted_right(output, width, height), width, height) == output,
{
    assert(shifted_right(shifted_left(output, width, height), width, height) =~~= output);
    assert(shifted_left(shifted_right(output, width, height), width, height) =~~= output);
}

/// A pixel whose three colour channels are equal is the same after a shift.
pub proof fn lemma_grey_is_fixed(p: Pixel)
    requires
        p.r == p.g,
        p.g == p.b,
    ensures
        p.rotated_left() == p,
        p.rotated_right() == p,
{
}

} // verus!
