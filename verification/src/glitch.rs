//! The glitcher: a decoded picture, a working copy of it, and the effects
//! that distort the working copy.

use vstd::prelude::*;
use rand::rngs::StdRng;
use crate::buffer::{rectangular, PixelBuffer, Raster};
use crate::burst::{burst, prism, prism_draws, widest_offset};
use crate::codec::{decode, encode, written, Encoding};
use crate::error::GlitchError;
use crate::pixel::Pixel;
use crate::random::{draw, draw_of, generator_state, seeded, seeded_state};
use crate::recompress::{ghost, ghost_draws, ghost_ends};
use crate::shift::{shift_left, shift_right, shifted_left, shifted_right};
use crate::streak::{half_life, starts_drawn, starts_within, struck_all};
use crate::transpose::{columns_rolled, roll_columns, roll_rows, rows_rolled};

verus! {

/// A picture under distortion.
///
/// `input` is the picture as decoded and never changes. `output` starts as
/// a copy of it and is what the effects rewrite, each on what the one before
/// left. The effects work on the top-left `width` by `height` pixels, which
/// is the whole picture unless `set_bounds` has narrowed it.
pub struct Glitch {
    input: PixelBuffer,
    output: PixelBuffer,
    width: u32,
    height: u32,
    filetype: Encoding,
    rng: StdRng,
}

/// The effects that draw nothing are repeatable: from equal pictures, over
/// equal regions and with equal parameters, each of them ends in the same
/// picture every time. So does the prism burst once its offset and weight
/// are drawn.
pub proof fn lemma_repeatable(
    once: Glitch,
    again: Glitch,
    band: int,
    shift: int,
    first: bool,
    offset: nat,
    weight: int,
)
    requires
        once.source() == again.source(),
        once.picture() == again.picture(),
        once.bound_width() == again.bound_width(),
        once.bound_height() == again.bound_height(),
    ensures
        rows_rolled(
            once.source(),
            once.picture(),
            once.bound_width(),
            once.bound_height(),
            band,
            shift,
            first,
        ) == rows_rolled(
            again.source(),
            again.picture(),
            again.bound_width(),
            again.bound_height(),
            band,
            shift,
            first,
        ),
        columns_rolled(
            once.source(),
            once.picture(),
            once.bound_width(),
            once.bound_height(),
            band,
            shift,
            first,
        ) == columns_rolled(
            again.source(),
            again.picture(),
            again.bound_width(),
            again.bound_height(),
            band,
            shift,
            first,
        ),
        shifted_left(once.picture(), once.bound_width(), once.bound_height()) == shifted_left(
            again.picture(),
            again.bound_width(),
            again.bound_height(),
        ),
        shifted_right(once.picture(), once.bound_width(), once.bound_height()) == shifted_right(
            again.picture(),
            again.bound_width(),
            again.bound_height(),
        ),
        burst(once.picture(), once.bound_width(), once.bound_height(), offset, weight) == burst(
            again.picture(),
            again.bound_width(),
            again.bound_height(),
            offset,
            weight,
        ),
{
}

/// The effects that draw are repeatable from one state of the generator:
/// two glitchers with equal output pictures, equal regions and generators
/// in one state, as after one seed, draw the same starts, the same offset
/// and weight and the same quality and opacity, and so end their streaks
/// and bursts in the same picture.
pub proof fn lemma_repeatable_from_one_state(once: Glitch, again: Glitch, strikes: nat, length: int)
    requires
        once.picture() == again.picture(),
        once.bound_width() == again.bound_width(),
        once.bound_height() == again.bound_height(),
        once.generator() == again.generator(),
    ensures
        starts_drawn(
            once.generator(),
            once.bound_width() as u32,
            once.bound_height() as u32,
            strikes,
        ) == starts_drawn(
            again.generator(),
            again.bound_width() as u32,
            again.bound_height() as u32,
            strikes,
        ),
        struck_all(
            once.picture(),
            starts_drawn(
                once.generator(),
                once.bound_width() as u32,
                once.bound_height() as u32,
                strikes,
            ).0,
            length,
            once.bound_width(),
        ) == struck_all(
            again.picture(),
            starts_drawn(
                again.generator(),
                again.bound_width() as u32,
                again.bound_height() as u32,
                strikes,
            ).0,
            length,
            again.bound_width(),
        ),
        prism_draws(once.generator(), once.bound_height() as u32) == prism_draws(
            again.generator(),
            again.bound_height() as u32,
        ),
        ghost_draws(once.generator()) == ghost_draws(again.generator()),
{
}

impl Glitch {
    /// The picture as decoded.
    pub closed spec fn source(&self) -> Raster {
        self.input@
    }

    /// The picture as the effects have left it.
    pub closed spec fn picture(&self) -> Raster {
        self.output@
    }

    /// The number of columns of both pictures.
    pub closed spec fn columns(&self) -> int {
        self.input.columns()
    }

    /// The number of rows of both pictures.
    pub closed spec fn rows(&self) -> int {
        self.input.rows()
    }

    /// The width of the region that the effects work on.
    pub closed spec fn bound_width(&self) -> int {
        self.width as int
    }

    /// The height of the region that the effects work on.
    pub closed spec fn bound_height(&self) -> int {
        self.height as int
    }

    /// The state of the random generator, which fixes every draw to come.
    pub closed spec fn generator(&self) -> Seq<u8> {
        generator_state(self.rng)
    }

    /// The format that `write` writes.
    pub closed spec fn format(&self) -> Encoding {
        self.filetype
    }

    /// Both buffers are whole and of one size.
    pub closed spec fn whole(&self) -> bool {
        &&& self.input.wf()
        &&& self.output.wf()
        &&& self.output.columns() == self.input.columns()
        &&& self.output.rows() == self.input.rows()
    }

    /// Both pictures are whole rectangles of one size, and the region that
    /// the effects work on lies within them.
    pub open spec fn wf(&self) -> bool {
        &&& self.whole()
        &&& 0 <= self.bound_width() <= self.columns() <= u32::MAX
        &&& 0 <= self.bound_height() <= self.rows() <= u32::MAX
        &&& rectangular(self.source(), self.columns(), self.rows())
        &&& rectangular(self.picture(), self.columns(), self.rows())
    }

    /// `self` differs from `before` in nothing but the output picture and
    /// the state of the random generator.
    pub open spec fn kept(&self, before: &Glitch) -> bool {
        &&& self.wf()
        &&& self.source() == before.source()
        &&& self.columns() == before.columns()
        &&& self.rows() == before.rows()
        &&& self.bound_width() == before.bound_width()
        &&& self.bound_height() == before.bound_height()
        &&& self.format() == before.format()
    }

    /// Decodes `bytes` and starts a glitcher over the picture: the output is
    /// a copy of it, the effects work on all of it, `write` writes PNG, and
    /// the random generator starts from `seed`. Whether the bytes are a
    /// picture, and which, is for the codec to say.
    pub fn new(bytes: &[u8], seed: u64) -> (outcome: Result<Glitch, GlitchError>)
        ensures
            match outcome {
                Ok(glitch) => {
                    &&& glitch.wf()
                    &&& glitch.bound_width() == glitch.columns()
                    &&& glitch.bound_height() == glitch.rows()
                    &&& glitch.picture() == glitch.source()
                    &&& glitch.format() == Encoding::Png
                    &&& glitch.generator() == seeded_state(seed)
                },
                Err(error) => error is Decode,
            },
    {
        match decode(bytes) {
            Ok(input) => Ok(Glitch::over(input, seed)),
            Err(error) => Err(error),
        }
    }

    /// A glitcher over a picture already decoded. The output starts as a
    /// copy of it, the effects work on all of it, `write` writes PNG, and
    /// the random generator starts from `seed`.
    pub fn over(input: PixelBuffer, seed: u64) -> (glitch: Glitch)
        requires
            input.wf(),
        ensures
            glitch.generator() == seeded_state(seed),
            glitch.wf(),
            glitch.columns() == input.columns(),
            glitch.rows() == input.rows(),
            glitch.bound_width() == input.columns(),
            glitch.bound_height() == input.rows(),
            glitch.source() == input@,
            glitch.picture() == input@,
            glitch.format() == Encoding::Png,
    {
        let output: PixelBuffer = input.duplicate();
        let width: u32 = input.width();
        let height: u32 = input.height();
        Glitch { input, output, width, height, filetype: Encoding::Png, rng: seeded(seed) }
    }

    /// Narrows or widens the region that the effects work on.
    pub fn set_bounds(&mut self, width: u32, height: u32)
        requires
            old(self).wf(),
            width <= old(self).columns(),
            height <= old(self).rows(),
        ensures
            final(self).wf(),
            final(self).bound_width() == width,
            final(self).bound_height() == height,
            final(self).source() == old(self).source(),
            final(self).picture() == old(self).picture(),
            final(self).columns() == old(self).columns(),
            final(self).rows() == old(self).rows(),
            final(self).format() == old(self).format(),
            final(self).generator() == old(self).generator(),
    {
        self.width = width;
        self.height = height;
    }

    /// Restarts the random generator from `seed`: it is left in the state
    /// that this seed gives every time, whatever it had drawn before.
    pub fn seed(&mut self, seed: u64)
        requires
            old(self).wf(),
        ensures
            final(self).kept(old(self)),
            final(self).picture() == old(self).picture(),
            final(self).generator() == seeded_state(seed),
    {
        self.rng = seeded(seed);
    }

    /// The output picture in the glitcher's format.
    pub fn write(&self) -> (outcome: Result<Vec<u8>, GlitchError>)
        requires
            self.wf(),
        ensures
            match written(self.picture(), self.columns() as u32, self.rows() as u32, self.format()) {
                Some(bytes) => outcome matches Ok(made) && made@ == bytes,
                None => outcome matches Err(GlitchError::Encode(_)),
            },
    {
        encode(&self.output, self.filetype)
    }

    /// Makes the output a copy of the input again.
    pub fn copy(&mut self)
        requires
            old(self).wf(),
        ensures
            final(self).kept(old(self)),
            final(self).picture() == old(self).source(),
            final(self).generator() == old(self).generator(),
    {
        self.output = self.input.duplicate();
    }

    /// Horizontal band transpose: bands of `height` rows, every other one
    /// rolled by `width` columns, the first one if `transpose` holds.
    pub fn transpose_input(&mut self, height: u32, width: u32, transpose: bool)
        requires
            old(self).wf(),
        ensures
            final(self).kept(old(self)),
            final(self).generator() == old(self).generator(),
            final(self).picture() == rows_rolled(
                old(self).source(),
                old(self).picture(),
                old(self).bound_width(),
                old(self).bound_height(),
                height as int,
                width as int,
                transpose,
            ),
    {
        roll_rows(&self.input, &mut self.output, self.width, self.height, height, width, transpose);
    }

    /// Vertical band transpose: stripes of `width` columns, every other one
    /// rolled by `height` rows, the first one if `transpose` holds.
    pub fn vertical_transpose_input(&mut self, width: u32, height: u32, transpose: bool)
        requires
            old(self).wf(),
        ensures
            final(self).kept(old(self)),
            final(self).generator() == old(self).generator(),
            final(self).picture() == columns_rolled(
                old(self).source(),
                old(self).picture(),
                old(self).bound_width(),
                old(self).bound_height(),
                width as int,
                height as int,
                transpose,
            ),
    {
        roll_columns(&self.input, &mut self.output, self.width, self.height, width, height, transpose);
    }

    /// Channel shift to the left: (R, G, B) becomes (G, B, R) in every pixel
    /// of the region.
    pub fn channel_shift_left(&mut self)
        requires
            old(self).wf(),
        ensures
            final(self).kept(old(self)),
            final(self).generator() == old(self).generator(),
            final(self).picture() == shifted_left(
                old(self).picture(),
                old(self).bound_width(),
                old(self).bound_height(),
            ),
    {
        shift_left(&mut self.output, self.width, self.height);
    }

    /// Channel shift to the right: (R, G, B) becomes (B, R, G) in every pixel
    /// of the region.
    pub fn channel_shift_right(&mut self)
        requires
            old(self).wf(),
        ensures
            final(self).kept(old(self)),
            final(self).generator() == old(self).generator(),
            final(self).picture() == shifted_right(
                old(self).picture(),
                old(self).bound_width(),
                old(self).bound_height(),
            ),
    {
        shift_right(&mut self.output, self.width, self.height);
    }

    /// `strikes` decaying streaks to the right, each from a pixel of the
    /// region drawn at random and at most `length` pixels long; a negative
    /// `length` lets every streak run to the edge of the region. The starts
    /// are those that the generator gives from the state it is in.
    pub fn half_life_right(&mut self, strikes: u32, length: i32)
        requires
            old(self).wf(),
            strikes > 0 ==> old(self).bound_width() > 0 && old(self).bound_height() > 0,
        ensures
            final(self).kept(old(self)),
            ({
                let drawn = starts_drawn(
                    old(self).generator(),
                    old(self).bound_width() as u32,
                    old(self).bound_height() as u32,
                    strikes as nat,
                );
                &&& starts_within(drawn.0, old(self).bound_width(), old(self).bound_height())
                &&& final(self).picture() == struck_all(
                    old(self).picture(),
                    drawn.0,
                    length as int,
                    old(self).bound_width(),
                )
                &&& final(self).generator() == drawn.1
            }),
    {
        half_life(&mut self.output, &mut self.rng, self.width, self.height, strikes, length);
    }

    /// A prism burst over the region, its offset drawn from 1 to a tenth of
    /// the region's height (1 where that is less) and its weight from the
    /// whole 16-bit range.
    pub fn prism_burst(&mut self)
        requires
            old(self).wf(),
        ensures
            final(self).kept(old(self)),
            ({
                let drawn = prism_draws(old(self).generator(), old(self).bound_height() as u32);
                &&& 1 <= drawn.0 <= widest_offset(old(self).bound_height())
                &&& 0 <= drawn.1 <= 65535
                &&& final(self).picture() == burst(
                    old(self).picture(),
                    old(self).bound_width(),
                    old(self).bound_height(),
                    drawn.0 as nat,
                    drawn.1 as int,
                )
                &&& final(self).generator() == drawn.2
            }),
    {
        prism(&mut self.output, &mut self.rng, self.width, self.height);
    }

    /// A recompression ghost over the region, its JPEG quality drawn from
    /// 1 to 10 and the opacity of its white wash from 0 to 255. Where the
    /// codec fails the picture stays as it was and the error is returned.
    pub fn compression_ghost(&mut self) -> (outcome: Result<(), GlitchError>)
        requires
            old(self).wf(),
        ensures
            final(self).kept(old(self)),
            ({
                let drawn = ghost_draws(old(self).generator());
                &&& 1 <= drawn.0 <= 10
                &&& ghost_ends(
                    old(self).picture(),
                    final(self).picture(),
                    outcome,
                    old(self).columns() as u32,
                    old(self).rows() as u32,
                    old(self).bound_width(),
                    old(self).bound_height(),
                    drawn.0,
                    drawn.1,
                )
                &&& final(self).generator() == drawn.2
            }),
    {
        ghost(&mut self.output, &mut self.rng, self.width, self.height)
    }

    /// Draws a number from `low` to `high` from the glitcher's generator:
    /// the one that the generator gives from the state it is in.
    pub fn draw(&mut self, low: u32, high: u32) -> (drawn: u32)
        requires
            old(self).wf(),
            low <= high,
        ensures
            final(self).kept(old(self)),
            final(self).picture() == old(self).picture(),
            low <= drawn <= high,
            (drawn, final(self).generator()) == draw_of(old(self).generator(), low, high),
    {
        draw(&mut self.rng, low, high)
    }

    /// The width of the region that the effects work on.
    pub fn width(&self) -> (w: u32)
        ensures
            w == self.bound_width(),
    {
        self.width
    }

    /// The height of the region that the effects work on.
    pub fn height(&self) -> (h: u32)
        ensures
            h == self.bound_height(),
    {
        self.height
    }

    /// The picture as decoded.
    pub fn input(&self) -> (buffer: &PixelBuffer)
        requires
            self.wf(),
        ensures
            buffer.wf(),
            buffer@ == self.source(),
            buffer.columns() == self.columns(),
            buffer.rows() == self.rows(),
    {
        &self.input
    }

    /// The picture as the effects have left it.
    pub fn output(&self) -> (buffer: &PixelBuffer)
        requires
            self.wf(),
        ensures
            buffer.wf(),
            buffer@ == self.picture(),
            buffer.columns() == self.columns(),
            buffer.rows() == self.rows(),
    {
        &self.output
    }

    /// Gives the pixel in column `x` of row `y` of the region the colour
    /// (`r`, `g`, `b`) and leaves its alpha as it was.
    pub fn recolour(&mut self, x: u32, y: u32, r: u8, g: u8, b: u8)
        requires
            old(self).wf(),
            x < old(self).bound_width(),
            y < old(self).bound_height(),
        ensures
            final(self).kept(old(self)),
            final(self).generator() == old(self).generator(),
            final(self).picture() == old(self).picture().update(
                y as int,
                old(self).picture()[y as int].update(
                    x as int,
                    (Pixel { r, g, b, a: old(self).picture()[y as int][x as int].a }),
                ),
            ),
    {
        let a: u8 = self.output.get(x, y).a;
        self.output.put(x, y, Pixel::new(r, g, b, a));
    }
}

} // verus!
