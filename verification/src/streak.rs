//! Decaying streaks: from a starting pixel a running colour is carried to the
//! right, blended with every pixel it meets and written back over it.

use vstd::prelude::*;
use rand::rngs::StdRng;
use crate::buffer::{PixelBuffer, Raster};
use crate::pixel::{faded, min_int, smaller, Pixel};
use crate::random::{draw, draw_of, generator_state};

verus! {

/// The column at which a streak that starts in column `x` ends (the first one
/// it does not write): `length` columns on, or at `width` if that comes
/// first. A negative `length` lets the streak run to `width`.
pub open spec fn streak_end(x: int, length: int, width: int) -> int {
    if length < 0 {
        width
    } else {
        smaller(x + length, width)
    }
}

/// The running colour of a streak along `row` that started in column `start`
/// and has passed `steps` pixels. It begins as the pixel at `start` and is
/// blended with each pixel as it passes, the one at `start` first.
pub open spec fn running_colour(row: Seq<Pixel>, start: int, steps: nat) -> Pixel
    decreases steps,
{
    if steps == 0 {
        row[start]
    } else {
        running_colour(row, start, (steps - 1) as nat).faded_by(row[start + steps - 1])
    }
}

/// A row after a streak from column `start` up to column `end`: each pixel
/// passed holds the running colour as it stood once blended with that pixel.
pub open spec fn struck_row(row: Seq<Pixel>, start: int, end: int) -> Seq<Pixel> {
    Seq::new(
        row.len(),
        |x: int|
            if start <= x < end {
                running_colour(row, start, (x - start + 1) as nat)
            } else {
                row[x]
            },
    )
}

/// The picture after one streak that starts at (`x`, `y`), over a region
/// `width` wide.
pub open spec fn struck(output: Raster, x: int, y: int, length: int, width: int) -> Raster {
    output.update(y, struck_row(output[y], x, streak_end(x, length, width)))
}

/// The picture after one streak from each of `starts`, in their order, each
/// on the picture as the one before left it.
pub open spec fn struck_all(output: Raster, starts: Seq<(int, int)>, length: int, width: int) -> Raster
    decreases starts.len(),
{
    if starts.len() == 0 {
        output
    } else {
        struck(
            struck_all(output, starts.drop_last(), length, width),
            starts.last().0,
            starts.last().1,
            length,
            width,
        )
    }
}

/// Every start of `starts` lies in the top-left `width` by `height` region.
pub open spec fn starts_within(starts: Seq<(int, int)>, width: int, height: int) -> bool {
    forall|n: int|
        0 <= n < starts.len() ==> 0 <= (#[trigger] starts[n]).0 < width && 0 <= starts[n].1 < height
}

/// A blend of two intensities that are both at most `top` is at most `top`,
/// and below `top` as soon as one of the two is.
proof fn lemma_fade_below(kept: int, met: int, top: int)
    requires
        0 <= kept <= top,
        0 <= met <= top,
    ensures
        0 <= faded(kept, met) <= top,
        kept < top || met < top ==> faded(kept, met) < top,
{
}

/// Each channel of a blended pixel is the blend of the two pixels' channels.
proof fn lemma_faded_channel(kept: Pixel, met: Pixel, which: int)
    ensures
        kept.faded_by(met).channel(which) == faded(kept.channel(which), met.channel(which)),
        0 <= kept.channel(which) <= 255,
{
}

/// Streaks decay. Take one channel of a streak that meets no pixel brighter
/// than its starting pixel: the running colour never exceeds the starting
/// colour, and once the streak has met a darker pixel the running colour is
/// darker than the starting colour.
pub proof fn lemma_streak_decays(row: Seq<Pixel>, start: int, steps: nat, which: int)
    requires
        forall|x: int|
            start <= x < start + steps ==> (#[trigger] row[x]).channel(which) <= row[start].channel(
                which,
            ),
    ensures
        running_colour(row, start, steps).channel(which) <= row[start].channel(which),
        (exists|x: int|
            start <= x < start + steps && (#[trigger] row[x]).channel(which) < row[start].channel(
                which,
            )) ==> running_colour(row, start, steps).channel(which) < row[start].channel(which),
    decreases steps,
{
    if steps > 0 {
        let shorter = (steps - 1) as nat;
        let kept = running_colour(row, start, shorter);
        let met = row[start + steps - 1];
        let top = row[start].channel(which);
        lemma_streak_decays(row, start, shorter, which);
        lemma_faded_channel(kept, met, which);
        lemma_faded_channel(met, kept, which);
        lemma_fade_below(kept.channel(which), met.channel(which), top);
        if exists|x: int|
            start <= x < start + steps && (#[trigger] row[x]).channel(which) < row[start].channel(
                which,
            ) {
            let x = choose|x: int|
                start <= x < start + steps && (#[trigger] row[x]).channel(which)
                    < row[start].channel(which);
            if x < start + shorter {
                assert(kept.channel(which) < top);
            } else {
                assert(met.channel(which) < top);
            }
        }
    }
}

/// Over pixels that all equal the starting pixel, with every channel a
/// multiple of four, the running colour of a streak stays the starting colour.
pub proof fn lemma_uniform_colour_stays(row: Seq<Pixel>, start: int, steps: nat)
    requires
        forall|x: int| start <= x < start + steps ==> #[trigger] row[x] == row[start],
        forall|which: int| 0 <= which < 4 ==> #[trigger] row[start].channel(which) % 4 == 0,
    ensures
        running_colour(row, start, steps) == row[start],
    decreases steps,
{
    let colour = row[start];
    assert(colour.channel(0) % 4 == 0 && colour.channel(1) % 4 == 0 && colour.channel(2) % 4 == 0
        && colour.channel(3) % 4 == 0);
    assert(colour.faded_by(colour) == colour);
    if steps > 0 {
        lemma_uniform_colour_stays(row, start, (steps - 1) as nat);
    }
}

/// Over pixels that all equal the starting pixel, with every channel a
/// multiple of four, a streak leaves the row as it was.
pub proof fn lemma_streak_over_uniform(row: Seq<Pixel>, start: int, end: int)
    requires
        0 <= start,
        end <= row.len(),
        forall|x: int| start <= x < end ==> #[trigger] row[x] == row[start],
        forall|which: int| 0 <= which < 4 ==> #[trigger] row[start].channel(which) % 4 == 0,
    ensures
        struck_row(row, start, end) == row,
{
    assert forall|x: int| start <= x < end implies running_colour(row, start, (x - start + 1) as nat)
        == row[x] by {
        lemma_uniform_colour_stays(row, start, (x - start + 1) as nat);
    }
    assert(struck_row(row, start, end) =~= row);
}

/// Draws one streak from (`x`, `y`) and returns the running colour it ended with.
pub fn strike(output: &mut PixelBuffer, width: u32, x: u32, y: u32, length: i32) -> (last: Pixel)
    requires
        old(output).wf(),
        width <= old(output).columns(),
        x < width,
        y < old(output).rows(),
    ensures
        final(output).wf(),
        final(output).columns() == old(output).columns(),
        final(output).rows() == old(output).rows(),
        final(output)@ == struck(old(output)@, x as int, y as int, length as int, width as int),
        last == running_colour(
            old(output)@[y as int],
            x as int,
            (streak_end(x as int, length as int, width as int) - x) as nat,
        ),
{
    let end: u32 = if length < 0 {
        width
    } else {
        min_int(x.saturating_add(length as u32), width)
    };
    let ghost row = old(output)@[y as int];
    let mut running: Pixel = output.get(x, y);
    let mut at: u32 = x;
    proof {
        assert(struck_row(row, x as int, x as int) =~= row);
        assert(old(output)@.update(y as int, row) =~= old(output)@);
    }
    while at < end
        invariant
            output.wf(),
            old(output).wf(),
            output.columns() == old(output).columns(),
            output.rows() == old(output).rows(),
            width <= output.columns(),
            y < output.rows(),
            x <= at <= end <= width,
            row == old(output)@[y as int],
            running == running_colour(row, x as int, (at - x) as nat),
            output@ == old(output)@.update(y as int, struck_row(row, x as int, at as int)),
        decreases end - at,
    {
        let met: Pixel = output.get(at, y);
        running = running.fade(met);
        let ghost before = output@;
        output.put(at, y, running);
        proof {
            assert(met == row[at as int]);
            assert(before[y as int].update(at as int, running) =~= struck_row(
                row,
                x as int,
                at + 1,
            ));
        }
        at = at + 1;
    }
    proof {
        assert(end == streak_end(x as int, length as int, width as int));
    }
    running
}

/// The starts that `strikes` streaks over a `width` by `height` region draw
/// from a generator in the given state, in their order, and the state it is
/// left in: for each streak first a column, then a row. No streak draws
/// nothing and leaves the state as it was.
pub open spec fn starts_drawn(state: Seq<u8>, width: u32, height: u32, strikes: nat) -> (
    Seq<(int, int)>,
    Seq<u8>,
)
    decreases strikes,
{
    if strikes == 0 {
        (Seq::empty(), state)
    } else {
        let before = starts_drawn(state, width, height, (strikes - 1) as nat);
        let column = draw_of(before.1, 0, (width - 1) as u32);
        let row = draw_of(column.1, 0, (height - 1) as u32);
        (before.0.push((column.0 as int, row.0 as int)), row.1)
    }
}

/// Draws `strikes` streaks, each from a start drawn from `rng` within the
/// top-left `width` by `height` region.
pub(crate) fn half_life(
    output: &mut PixelBuffer,
    rng: &mut StdRng,
    width: u32,
    height: u32,
    strikes: u32,
    length: i32,
)
    requires
        old(output).wf(),
        width <= old(output).columns(),
        height <= old(output).rows(),
        strikes > 0 ==> width > 0 && height > 0,
    ensures
        final(output).wf(),
        final(output).columns() == old(output).columns(),
        final(output).rows() == old(output).rows(),
        ({
            let drawn = starts_drawn(generator_state(*old(rng)), width, height, strikes as nat);
            &&& starts_within(drawn.0, width as int, height as int)
            &&& final(output)@ == struck_all(old(output)@, drawn.0, length as int, width as int)
            &&& generator_state(*final(rng)) == drawn.1
        }),
{
    let ghost first = generator_state(*rng);
    let ghost mut starts: Seq<(int, int)> = Seq::empty();
    let mut done: u32 = 0;
    while done < strikes
        invariant
            output.wf(),
            old(output).wf(),
            output.columns() == old(output).columns(),
            output.rows() == old(output).rows(),
            width <= output.columns(),
            height <= output.rows(),
            strikes > 0 ==> width > 0 && height > 0,
            done <= strikes,
            starts.len() == done,
            starts == starts_drawn(first, width, height, done as nat).0,
            generator_state(*rng) == starts_drawn(first, width, height, done as nat).1,
            starts_within(starts, width as int, height as int),
            output@ == struck_all(old(output)@, starts, length as int, width as int),
        decreases strikes - done,
    {
        let x: u32 = draw(rng, 0, width - 1);
        let y: u32 = draw(rng, 0, height - 1);
        let ghost earlier = starts;
        strike(output, width, x, y, length);
        proof {
            starts = earlier.push((x as int, y as int));
            assert(starts.drop_last() =~= earlier);
        }
        done = done + 1;
    }
}

} // verus!
