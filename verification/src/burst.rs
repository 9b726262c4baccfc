//! The prism burst: every channel of a pixel is drawn from a neighbour on
//! its own diagonal and weighed against the pixel's own channel.

use vstd::prelude::*;
use rand::rngs::StdRng;
use crate::buffer::{passed, scanned_before, PixelBuffer, Raster};
use crate::pixel::{c, larger, min_int, rescaled, smaller, Pixel, MAXC};
use crate::random::{draw, draw_of, generator_state};

verus! {

/// A channel value on the 16-bit scale, where 255 becomes 65535.
pub open spec fn lifted(v: int) -> int {
    v * 257
}

/// The weight given to a sampled channel when the pixel's own channel has
/// `weight`: what remains of the full weight once `weight` has been scaled
/// by the pixel's alpha. For an opaque pixel the two weights add up to the
/// full weight.
pub open spec fn counterweight(alpha: int, weight: int) -> int {
    65535 - lifted(alpha) * weight / 65535
}

/// One channel of a burst pixel: the sampled channel and the pixel's own are
/// weighed on the 16-bit scale, their sum is brought back under the full
/// weight and then into a channel.
pub open spec fn burst_channel(sampled: int, own: int, alpha: int, weight: int) -> int {
    rescaled((lifted(sampled) * counterweight(alpha, weight) + lifted(own) * weight) / 65535)
}

/// The pixel that a burst writes where `own` stood, given the four pixels it
/// samples: `red` from below right, `green` from below left, `blue` from above
/// right and `alpha` from above left. Each lends the channel it is named after.
pub open spec fn burst_of(own: Pixel, red: Pixel, green: Pixel, blue: Pixel, alpha: Pixel, weight: int) -> Pixel {
    Pixel {
        r: burst_channel(red.r as int, own.r as int, own.a as int, weight) as u8,
        g: burst_channel(green.g as int, own.g as int, own.a as int, weight) as u8,
        b: burst_channel(blue.b as int, own.b as int, own.a as int, weight) as u8,
        a: burst_channel(alpha.a as int, own.a as int, own.a as int, weight) as u8,
    }
}

/// What the burst writes at (`x`, `y`) of the top-left `width` by `height`
/// region of `output`.
///
/// The cells are rewritten in place, row by row from the top and each row
/// from the left. A sample is taken `offset` cells away along both axes, held
/// at the edge of the region. It therefore reads the burst's own result where
/// the sampled cell comes earlier in that order, and `output` where it does not.
pub open spec fn burst_pixel(
    output: Raster,
    width: int,
    height: int,
    offset: nat,
    weight: int,
    x: int,
    y: int,
) -> Pixel
    decreases y, x,
{
    if 0 <= x < width && 0 <= y < height {
        let right = smaller(x + offset, width - 1);
        let left = larger(x - offset, 0);
        let below = smaller(y + offset, height - 1);
        let above = larger(y - offset, 0);
        let red = if scanned_before(right, below, x, y) {
            burst_pixel(output, width, height, offset, weight, right, below)
        } else {
            output[below][right]
        };
        let green = if scanned_before(left, below, x, y) {
            burst_pixel(output, width, height, offset, weight, left, below)
        } else {
            output[below][left]
        };
        let blue = if scanned_before(right, above, x, y) {
            burst_pixel(output, width, height, offset, weight, right, above)
        } else {
            output[above][right]
        };
        let alpha = if scanned_before(left, above, x, y) {
            burst_pixel(output, width, height, offset, weight, left, above)
        } else {
            output[above][left]
        };
        burst_of(output[y][x], red, green, blue, alpha, weight)
    } else {
        output[y][x]
    }
}

/// The picture after a burst over the top-left `width` by `height` region.
pub open spec fn burst(output: Raster, width: int, height: int, offset: nat, weight: int) -> Raster {
    Seq::new(
        output.len(),
        |y: int|
            Seq::new(
                output[y].len(),
                |x: int| burst_pixel(output, width, height, offset, weight, x, y),
            ),
    )
}

/// Every cell of the top-left `width` by `height` region of `output` holds `colour`.
pub open spec fn uniform(output: Raster, width: int, height: int, colour: Pixel) -> bool {
    forall|x: int, y: int| 0 <= x < width && 0 <= y < height ==> (#[trigger] output[y][x]) == colour
}

/// A colour is steady under `weight` when a pixel of that colour, sampling
/// four pixels of that colour, is written back unchanged.
pub open spec fn steady(colour: Pixel, weight: int) -> bool {
    burst_of(colour, colour, colour, colour, colour, weight) == colour
}

proof fn lemma_uniform_pixel(
    output: Raster,
    width: int,
    height: int,
    offset: nat,
    weight: int,
    colour: Pixel,
    x: int,
    y: int,
)
    requires
        uniform(output, width, height, colour),
        steady(colour, weight),
        0 <= x < width,
        0 <= y < height,
    ensures
        burst_pixel(output, width, height, offset, weight, x, y) == colour,
    decreases y, x,
{
    let right = smaller(x + offset, width - 1);
    let left = larger(x - offset, 0);
    let below = smaller(y + offset, height - 1);
    let above = larger(y - offset, 0);
    if scanned_before(right, below, x, y) {
        lemma_uniform_pixel(output, width, height, offset, weight, colour, right, below);
    }
    if scanned_before(left, below, x, y) {
        lemma_uniform_pixel(output, width, height, offset, weight, colour, left, below);
    }
    if scanned_before(right, above, x, y) {
        lemma_uniform_pixel(output, width, height, offset, weight, colour, right, above);
    }
    if scanned_before(left, above, x, y) {
        lemma_uniform_pixel(output, width, height, offset, weight, colour, left, above);
    }
}

/// A region of one steady colour is a fixed point of the burst: the picture
/// comes out as it went in.
pub proof fn lemma_uniform_is_fixed(
    output: Raster,
    width: int,
    height: int,
    offset: nat,
    weight: int,
    colour: Pixel,
)
    requires
        uniform(output, width, height, colour),
        steady(colour, weight),
    ensures
        burst(output, width, height, offset, weight) == output,
{
    assert forall|x: int, y: int| 0 <= x < width && 0 <= y < height implies burst_pixel(
        output,
        width,
        height,
        offset,
        weight,
        x,
        y,
    ) == output[y][x] by {
        lemma_uniform_pixel(output, width, height, offset, weight, colour, x, y);
    }
    assert(burst(output, width, height, offset, weight) =~~= output);
}

/// Only a steady colour can be a fixed point: where a region that is not
/// empty has one colour and the burst leaves the picture as it was, that
/// colour is steady.
pub proof fn lemma_fixed_is_steady(
    output: Raster,
    width: int,
    height: int,
    offset: nat,
    weight: int,
    colour: Pixel,
)
    requires
        0 < width <= output[0].len(),
        0 < height <= output.len(),
        uniform(output, width, height, colour),
        burst(output, width, height, offset, weight) == output,
    ensures
        steady(colour, weight),
{
    assert(burst(output, width, height, offset, weight)[0][0] == burst_pixel(
        output,
        width,
        height,
        offset,
        weight,
        0,
        0,
    ));
    let right = smaller(offset as int, width - 1);
    let below = smaller(offset as int, height - 1);
    assert(output[below][right] == colour);
    assert(output[below][0] == colour);
    assert(output[0][right] == colour);
    assert(output[0][0] == colour);
}

/// A channel lifted to the 16-bit scale comes back as it was.
pub proof fn lemma_lift_comes_back(v: int)
    requires
        0 <= v <= 255,
    ensures
        rescaled(lifted(v)) == v,
{
}

/// Without weight of its own a pixel takes the sampled channel as it is.
pub proof fn lemma_weightless_takes_sample(sampled: int, own: int, alpha: int)
    requires
        0 <= sampled <= 255,
        0 <= own <= 255,
        0 <= alpha <= 255,
    ensures
        burst_channel(sampled, own, alpha, 0) == sampled,
{
    assert(lifted(sampled) * 65535 / 65535 == lifted(sampled));
}

/// On an opaque pixel the channel written lies between the sampled channel
/// and the pixel's own: it is their weighted average.
pub proof fn lemma_opaque_is_average(sampled: int, own: int, weight: int)
    requires
        0 <= sampled <= 255,
        0 <= own <= 255,
        0 <= weight <= 65535,
    ensures
        smaller(sampled, own) <= burst_channel(sampled, own, 255, weight) <= larger(sampled, own),
{
    let rest = counterweight(255, weight);
    assert(65535 * weight / 65535 == weight);
    assert(rest == 65535 - weight);
    let low = lifted(smaller(sampled, own));
    let high = lifted(larger(sampled, own));
    let sum = lifted(sampled) * rest + lifted(own) * weight;
    assert(low * 65535 <= sum <= high * 65535) by (nonlinear_arith)
        requires
            sum == lifted(sampled) * rest + lifted(own) * weight,
            rest == 65535 - weight,
            0 <= weight <= 65535,
            low <= lifted(sampled) <= high,
            low <= lifted(own) <= high,
    ;
    assert(low <= sum / 65535 <= high);
}

/// An opaque colour is steady under every weight, and every colour is
/// steady without weight.
pub proof fn lemma_steady_colours(colour: Pixel, weight: int)
    requires
        0 <= weight <= 65535,
        colour.a == 255 || weight == 0,
    ensures
        steady(colour, weight),
{
    if weight == 0 {
        lemma_weightless_takes_sample(colour.r as int, colour.r as int, colour.a as int);
        lemma_weightless_takes_sample(colour.g as int, colour.g as int, colour.a as int);
        lemma_weightless_takes_sample(colour.b as int, colour.b as int, colour.a as int);
        lemma_weightless_takes_sample(colour.a as int, colour.a as int, colour.a as int);
    } else {
        lemma_opaque_is_average(colour.r as int, colour.r as int, weight);
        lemma_opaque_is_average(colour.g as int, colour.g as int, weight);
        lemma_opaque_is_average(colour.b as int, colour.b as int, weight);
        lemma_opaque_is_average(colour.a as int, colour.a as int, weight);
    }
}

/// A region of one opaque colour is a fixed point of the burst, whatever
/// offset and weight it is given; so is a region of any one colour where the
/// burst has no weight.
pub proof fn lemma_opaque_uniform_is_fixed(
    output: Raster,
    width: int,
    height: int,
    offset: nat,
    weight: int,
    colour: Pixel,
)
    requires
        uniform(output, width, height, colour),
        0 <= weight <= 65535,
        colour.a == 255 || weight == 0,
    ensures
        burst(output, width, height, offset, weight) == output,
{
    lemma_steady_colours(colour, weight);
    lemma_uniform_is_fixed(output, width, height, offset, weight, colour);
}

/// The red of a burst pixel never reads what the burst has written: its
/// sample lies below and to the right, which the pass has yet to reach. It
/// is the red of the picture as it was, `offset` cells down the diagonal and
/// held at the edge of the region, weighed against the pixel's own red.
pub proof fn lemma_red_reads_the_picture(
    output: Raster,
    width: int,
    height: int,
    offset: nat,
    weight: int,
    x: int,
    y: int,
)
    requires
        0 <= x < width,
        0 <= y < height,
    ensures
        burst_pixel(output, width, height, offset, weight, x, y).r == burst_channel(
            output[smaller(y + offset, height - 1)][smaller(x + offset, width - 1)].r as int,
            output[y][x].r as int,
            output[y][x].a as int,
            weight,
        ) as u8,
{
}

/// One channel of a burst pixel.
fn mix(sampled: u8, own: u8, alpha: u8, weight: u16) -> (r: u8)
    ensures
        r == burst_channel(sampled as int, own as int, alpha as int, weight as int),
{
    let full: u64 = MAXC as u64;
    let high: u64 = alpha as u64 * 257;
    assert(high * weight <= 65535 * 65535) by (nonlinear_arith)
        requires
            0 <= high <= 65535,
            0 <= weight <= 65535,
    ;
    let rest: u64 = full - high * weight as u64 / full;
    let far: u64 = sampled as u64 * 257;
    let near: u64 = own as u64 * 257;
    assert(far * rest <= 65535 * 65535) by (nonlinear_arith)
        requires
            0 <= far <= 65535,
            0 <= rest <= 65535,
    ;
    assert(near * weight <= 65535 * 65535) by (nonlinear_arith)
        requires
            0 <= near <= 65535,
            0 <= weight <= 65535,
    ;
    let mean: u64 = (far * rest + near * weight as u64) / full;
    c(mean as u32)
}

/// Bursts the top-left `width` by `height` region of `output`, sampling
/// `offset` cells away and giving each pixel's own channels the weight `weight`.
pub fn burst_by(output: &mut PixelBuffer, width: u32, height: u32, offset: u32, weight: u16)
    requires
        old(output).wf(),
        width <= old(output).columns(),
        height <= old(output).rows(),
    ensures
        final(output).wf(),
        final(output).columns() == old(output).columns(),
        final(output).rows() == old(output).rows(),
        final(output)@ == burst(
            old(output)@,
            width as int,
            height as int,
            offset as nat,
            weight as int,
        ),
{
    let ghost target = burst(old(output)@, width as int, height as int, offset as nat, weight as int);
    let mut y: u32 = 0;
    while y < height
        invariant
            output.wf(),
            old(output).wf(),
            output.columns() == old(output).columns(),
            output.rows() == old(output).rows(),
            width <= output.columns(),
            height <= output.rows(),
            y <= height,
            target == burst(
                old(output)@,
                width as int,
                height as int,
                offset as nat,
                weight as int,
            ),
            passed(output@, old(output)@, target, 0, y as int),
        decreases height - y,
    {
        let mut x: u32 = 0;
        while x < width
            invariant
                output.wf(),
                old(output).wf(),
                output.columns() == old(output).columns(),
                output.rows() == old(output).rows(),
                width <= output.columns(),
                height <= output.rows(),
                y < height,
                x <= width,
                target == burst(
                    old(output)@,
                    width as int,
                    height as int,
                    offset as nat,
                    weight as int,
                ),
                passed(output@, old(output)@, target, x as int, y as int),
            decreases width - x,
        {
            let right: u32 = min_int(x.saturating_add(offset), width - 1);
            let left: u32 = x.saturating_sub(offset);
            let below: u32 = min_int(y.saturating_add(offset), height - 1);
            let above: u32 = y.saturating_sub(offset);
            let own: Pixel = output.get(x, y);
            let red: Pixel = output.get(right, below);
            let green: Pixel = output.get(left, below);
            let blue: Pixel = output.get(right, above);
            let alpha: Pixel = output.get(left, above);
            let mixed: Pixel = Pixel::new(
                mix(red.r, own.r, own.a, weight),
                mix(green.g, own.g, own.a, weight),
                mix(blue.b, own.b, own.a, weight),
                mix(alpha.a, own.a, own.a, weight),
            );
            proof {
                assert(right == smaller(x + offset, width - 1));
                assert(left == larger(x - offset, 0));
                assert(below == smaller(y + offset, height - 1));
                assert(above == larger(y - offset, 0));
                assert(mixed == burst_of(own, red, green, blue, alpha, weight as int));
                assert(target[y as int][x as int] == mixed);
            }
            output.put(x, y, mixed);
            x = x + 1;
        }
        proof {
            assert(passed(output@, old(output)@, target, 0, y + 1));
        }
        y = y + 1;
    }
    proof {
        assert(output@ =~~= target);
    }
}

/// The largest offset a burst may draw for a region `height` rows high: a
/// tenth of the height, and at least one.
pub open spec fn widest_offset(height: int) -> int {
    larger(height / 10, 1)
}

/// The offset and the weight that a burst over a region `height` rows high
/// draws from a generator in the given state, and the state it leaves: first
/// the offset, from 1 to the widest, then the weight, from the whole 16-bit
/// range.
pub open spec fn prism_draws(state: Seq<u8>, height: u32) -> (u32, u32, Seq<u8>) {
    let first = draw_of(state, 1, widest_offset(height as int) as u32);
    let second = draw_of(first.1, 0, 65535);
    (first.0, second.0, second.1)
}

/// Bursts the region with an offset and a weight drawn from `rng`.
pub(crate) fn prism(output: &mut PixelBuffer, rng: &mut StdRng, width: u32, height: u32)
    requires
        old(output).wf(),
        width <= old(output).columns(),
        height <= old(output).rows(),
    ensures
        final(output).wf(),
        final(output).columns() == old(output).columns(),
        final(output).rows() == old(output).rows(),
        ({
            let drawn = prism_draws(generator_state(*old(rng)), height);
            &&& 1 <= drawn.0 <= widest_offset(height as int)
            &&& 0 <= drawn.1 <= 65535
            &&& final(output)@ == burst(
                old(output)@,
                width as int,
                height as int,
                drawn.0 as nat,
                drawn.1 as int,
            )
            &&& generator_state(*final(rng)) == drawn.2
        }),
{
    let tenth: u32 = height / 10;
    let widest: u32 = if tenth < 1 {
        1
    } else {
        tenth
    };
    let offset: u32 = draw(rng, 1, widest);
    let weight: u32 = draw(rng, 0, MAXC);
    burst_by(output, width, height, offset, weight as u16);
}

} // verus!
