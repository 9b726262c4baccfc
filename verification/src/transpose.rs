//! Band transposes: alternate bands of the picture are rolled cyclically,
//! the bands between them are left alone.

use vstd::prelude::*;
use vstd::arithmetic::div_mod::{lemma_fundamental_div_mod_converse, lemma_mod_bound};
use crate::buffer::{passed, PixelBuffer, Raster};
use crate::pixel::Pixel;

verus! {

/// Whether position `pos` (a row, or a column) lies in a band that is rolled.
///
/// Bands are `band` positions wide and follow each other from position 0.
/// They alternate between rolled and skipped, the first one rolled when
/// `first` holds. A band that would reach past `limit` ends the pass: neither
/// it nor anything after it is rolled. Bands of no width roll nothing.
pub open spec fn in_rolled_band(pos: int, band: int, limit: int, first: bool) -> bool {
    &&& band > 0
    &&& 0 <= pos < limit
    &&& (pos / band + 1) * band <= limit
    &&& ((pos / band) % 2 == 0) == first
}

/// The picture after a horizontal band transpose over the top-left `width` by
/// `height` region: in each rolled band of `band` rows, the cell in column `x`
/// holds what `input` has `shift` columns further right in the same row,
/// wrapping round at `width`. All other cells keep what `output` had.
pub open spec fn rows_rolled(
    input: Raster,
    output: Raster,
    width: int,
    height: int,
    band: int,
    shift: int,
    first: bool,
) -> Raster {
    Seq::new(
        output.len(),
        |y: int|
            Seq::new(
                output[y].len(),
                |x: int|
                    if in_rolled_band(y, band, height, first) && 0 <= x < width {
                        input[y][(x + shift) % width]
                    } else {
                        output[y][x]
                    },
            ),
    )
}

/// The picture after a vertical band transpose over the top-left `width` by
/// `height` region: in each rolled stripe of `band` columns, the cell in row
/// `y` holds what `input` has `shift` rows further down in the same column,
/// wrapping round at `height`. All other cells keep what `output` had.
pub open spec fn columns_rolled(
    input: Raster,
    output: Raster,
    width: int,
    height: int,
    band: int,
    shift: int,
    first: bool,
) -> Raster {
    Seq::new(
        output.len(),
        |y: int|
            Seq::new(
                output[y].len(),
                |x: int|
                    if in_rolled_band(x, band, width, first) && 0 <= y < height {
                        input[(y + shift) % height][x]
                    } else {
                        output[y][x]
                    },
            ),
    )
}

/// A horizontal band transpose keeps the shape of the picture and invents no
/// colour: a cell of a rolled band holds a pixel that the input has in the
/// same row, within the region, and every other cell holds what it held.
pub proof fn lemma_rows_relocated(
    input: Raster,
    output: Raster,
    width: int,
    height: int,
    band: int,
    shift: int,
    first: bool,
    x: int,
    y: int,
)
    requires
        0 <= y < output.len(),
        0 <= x < output[y].len(),
    ensures
        ({
            let after = rows_rolled(input, output, width, height, band, shift, first);
            &&& after.len() == output.len()
            &&& after[y].len() == output[y].len()
            &&& if in_rolled_band(y, band, height, first) && x < width {
                exists|from: int| 0 <= from < width && after[y][x] == #[trigger] input[y][from]
            } else {
                after[y][x] == output[y][x]
            }
        }),
{
    if in_rolled_band(y, band, height, first) && x < width {
        lemma_mod_bound(x + shift, width);
        let from = (x + shift) % width;
        assert(rows_rolled(input, output, width, height, band, shift, first)[y][x] == input[y][from]);
    }
}

/// A vertical band transpose keeps the shape of the picture and invents no
/// colour: a cell of a rolled stripe holds a pixel that the input has in the
/// same column, within the region, and every other cell holds what it held.
pub proof fn lemma_columns_relocated(
    input: Raster,
    output: Raster,
    width: int,
    height: int,
    band: int,
    shift: int,
    first: bool,
    x: int,
    y: int,
)
    requires
        0 <= y < output.len(),
        0 <= x < output[y].len(),
    ensures
        ({
            let after = columns_rolled(input, output, width, height, band, shift, first);
            &&& after.len() == output.len()
            &&& after[y].len() == output[y].len()
            &&& if in_rolled_band(x, band, width, first) && y < height {
                exists|from: int| 0 <= from < height && after[y][x] == (#[trigger] input[from])[x]
            } else {
                after[y][x] == output[y][x]
            }
        }),
{
    if in_rolled_band(x, band, width, first) && y < height {
        lemma_mod_bound(y + shift, height);
        let from = (y + shift) % height;
        assert(columns_rolled(input, output, width, height, band, shift, first)[y][x] == input[from][x]);
    }
}

/// Every position from `start` up to the end of the band that begins there
/// lies in band number `k`.
proof fn lemma_band_of(pos: int, k: int, band: int)
    requires
        band > 0,
        0 <= k,
        k * band <= pos < k * band + band,
    ensures
        pos / band == k,
        (pos / band + 1) * band == k * band + band,
{
    lemma_fundamental_div_mod_converse(pos, band, k, pos - k * band);
    assert((k + 1) * band == k * band + band) by (nonlinear_arith);
}

/// Rolls alternate bands of rows of `output` from `input`.
pub fn roll_rows(
    input: &PixelBuffer,
    output: &mut PixelBuffer,
    width: u32,
    height: u32,
    band: u32,
    shift: u32,
    first: bool,
)
    requires
        input.wf(),
        old(output).wf(),
        input.columns() == old(output).columns(),
        input.rows() == old(output).rows(),
        width <= input.columns(),
        height <= input.rows(),
    ensures
        final(output).wf(),
        final(output).columns() == old(output).columns(),
        final(output).rows() == old(output).rows(),
        final(output)@ == rows_rolled(
            input@,
            old(output)@,
            width as int,
            height as int,
            band as int,
            shift as int,
            first,
        ),
{
    let ghost target = rows_rolled(
        input@,
        old(output)@,
        width as int,
        height as int,
        band as int,
        shift as int,
        first,
    );
    if band == 0 {
        proof {
            assert(output@ =~~= target);
        }
        return ;
    }
    let mut cursor: u64 = 0;
    let mut rolling: bool = first;
    let ghost mut k: int = 0;
    while cursor < height as u64
        invariant
            input.wf(),
            output.wf(),
            input.columns() == output.columns() == old(output).columns(),
            input.rows() == output.rows() == old(output).rows(),
            old(output).wf(),
            width <= input.columns(),
            height <= input.rows(),
            band > 0,
            0 <= k,
            cursor == k * band,
            cursor <= height + band,
            rolling == ((k % 2 == 0) == first),
            target == rows_rolled(
                input@,
                old(output)@,
                width as int,
                height as int,
                band as int,
                shift as int,
                first,
            ),
            passed(output@, old(output)@, target, 0, cursor as int),
        decreases height + band - cursor,
    {
        let next: u64 = cursor + band as u64;
        proof {
            assert forall|y: int| cursor <= y < next implies #[trigger] (y / (band as int)) == k by {
                lemma_band_of(y, k, band as int);
            }
            assert((k + 1) * band == k * band + band) by (nonlinear_arith);
        }
        if rolling {
            if next > height as u64 {
                proof {
                    assert(output@ =~~= target);
                }
                return ;
            }
            let mut y: u32 = cursor as u32;
            while y < next as u32
                invariant
                    input.wf(),
                    output.wf(),
                    input.columns() == output.columns() == old(output).columns(),
                    input.rows() == output.rows() == old(output).rows(),
                    old(output).wf(),
                    width <= input.columns(),
                    height <= input.rows(),
                    band > 0,
                    cursor <= y <= next <= height,
                    rolling,
                    rolling == ((k % 2 == 0) == first),
                    forall|j: int| cursor <= j < next ==> #[trigger] (j / (band as int)) == k,
                    (k + 1) * band == next,
                    target == rows_rolled(
                        input@,
                        old(output)@,
                        width as int,
                        height as int,
                        band as int,
                        shift as int,
                        first,
                    ),
                    passed(output@, old(output)@, target, 0, y as int),
                decreases next - y,
            {
                let mut x: u32 = 0;
                while x < width
                    invariant
                        input.wf(),
                        output.wf(),
                        input.columns() == output.columns() == old(output).columns(),
                        input.rows() == output.rows() == old(output).rows(),
                        old(output).wf(),
                        width <= input.columns(),
                        height <= input.rows(),
                        band > 0,
                        cursor <= y < next <= height,
                        x <= width,
                        rolling == ((k % 2 == 0) == first),
                        rolling,
                        (y as int) / (band as int) == k,
                        (k + 1) * band == next,
                        target == rows_rolled(
                            input@,
                            old(output)@,
                            width as int,
                            height as int,
                            band as int,
                            shift as int,
                            first,
                        ),
                        passed(output@, old(output)@, target, x as int, y as int),
                    decreases width - x,
                {
                    let from: u32 = ((x as u64 + shift as u64) % (width as u64)) as u32;
                    let colour: Pixel = input.get(from, y);
                    proof {
                        assert(in_rolled_band(y as int, band as int, height as int, first));
                        assert(target[y as int][x as int] == colour);
                    }
                    output.put(x, y, colour);
                    x = x + 1;
                }
                proof {
                    assert(passed(output@, old(output)@, target, 0, y + 1));
                }
                y = y + 1;
            }
        } else {
            proof {
                assert forall|j: int, i: int|
                    0 <= j < output@.len() && 0 <= i < output@[j].len() && cursor <= j
                        < next implies target[j][i] == old(output)@[j][i] by {
                    if j < height {
                        assert(j / (band as int) == k);
                    }
                }
            }
        }
        cursor = next;
        rolling = !rolling;
        proof {
            k = k + 1;
            assert(k * band == (k - 1) * band + band) by (nonlinear_arith);
        }
    }
    proof {
        assert(output@ =~~= target);
    }
}

/// A column-by-column pass from `before` towards `target` that has come to
/// cell (`x`, `y`): `now` has the shape of `before`, holds `target` in the
/// cells already passed and `before` in the others.
spec fn passed_down(now: Raster, before: Raster, target: Raster, x: int, y: int) -> bool {
    &&& now.len() == before.len()
    &&& forall|j: int| 0 <= j < now.len() ==> (#[trigger] now[j]).len() == before[j].len()
    &&& forall|j: int, i: int|
        0 <= j < now.len() && 0 <= i < now[j].len() ==> (#[trigger] now[j][i]) == (if i < x || (i
            == x && j < y) {
            target[j][i]
        } else {
            before[j][i]
        })
}

/// Rolls alternate stripes of columns of `output` from `input`.
pub fn roll_columns(
    input: &PixelBuffer,
    output: &mut PixelBuffer,
    width: u32,
    height: u32,
    band: u32,
    shift: u32,
    first: bool,
)
    requires
        input.wf(),
        old(output).wf(),
        input.columns() == old(output).columns(),
        input.rows() == old(output).rows(),
        width <= input.columns(),
        height <= input.rows(),
    ensures
        final(output).wf(),
        final(output).columns() == old(output).columns(),
        final(output).rows() == old(output).rows(),
        final(output)@ == columns_rolled(
            input@,
            old(output)@,
            width as int,
            height as int,
            band as int,
            shift as int,
            first,
        ),
{
    let ghost target = columns_rolled(
        input@,
        old(output)@,
        width as int,
        height as int,
        band as int,
        shift as int,
        first,
    );
    if band == 0 {
        proof {
            assert(output@ =~~= target);
        }
        return ;
    }
    let mut cursor: u64 = 0;
    let mut rolling: bool = first;
    let ghost mut k: int = 0;
    while cursor < width as u64
        invariant
            input.wf(),
            output.wf(),
            input.columns() == output.columns() == old(output).columns(),
            input.rows() == output.rows() == old(output).rows(),
            old(output).wf(),
            width <= input.columns(),
            height <= input.rows(),
            band > 0,
            0 <= k,
            cursor == k * band,
            cursor <= width + band,
            rolling == ((k % 2 == 0) == first),
            target == columns_rolled(
                input@,
                old(output)@,
                width as int,
                height as int,
                band as int,
                shift as int,
                first,
            ),
            passed_down(output@, old(output)@, target, cursor as int, 0),
        decreases width + band - cursor,
    {
        let next: u64 = cursor + band as u64;
        proof {
            assert forall|x: int| cursor <= x < next implies #[trigger] (x / (band as int)) == k by {
                lemma_band_of(x, k, band as int);
            }
            assert((k + 1) * band == k * band + band) by (nonlinear_arith);
        }
        if rolling {
            if next > width as u64 {
                proof {
                    assert(output@ =~~= target);
                }
                return ;
            }
            let mut x: u32 = cursor as u32;
            while x < next as u32
                invariant
                    input.wf(),
                    output.wf(),
                    input.columns() == output.columns() == old(output).columns(),
                    input.rows() == output.rows() == old(output).rows(),
                    old(output).wf(),
                    width <= input.columns(),
                    height <= input.rows(),
                    band > 0,
                    cursor <= x <= next <= width,
                    rolling,
                    rolling == ((k % 2 == 0) == first),
                    forall|i: int| cursor <= i < next ==> #[trigger] (i / (band as int)) == k,
                    (k + 1) * band == next,
                    target == columns_rolled(
                        input@,
                        old(output)@,
                        width as int,
                        height as int,
                        band as int,
                        shift as int,
                        first,
                    ),
                    passed_down(output@, old(output)@, target, x as int, 0),
                decreases next - x,
            {
                let mut y: u32 = 0;
                while y < height
                    invariant
                        input.wf(),
                        output.wf(),
                        input.columns() == output.columns() == old(output).columns(),
                        input.rows() == output.rows() == old(output).rows(),
                        old(output).wf(),
                        width <= input.columns(),
                        height <= input.rows(),
                        band > 0,
                        cursor <= x < next <= width,
                        y <= height,
                        rolling == ((k % 2 == 0) == first),
                        rolling,
                        (x as int) / (band as int) == k,
                        (k + 1) * band == next,
                        target == columns_rolled(
                            input@,
                            old(output)@,
                            width as int,
                            height as int,
                            band as int,
                            shift as int,
                            first,
                        ),
                        passed_down(output@, old(output)@, target, x as int, y as int),
                    decreases height - y,
                {
                    let from: u32 = ((y as u64 + shift as u64) % (height as u64)) as u32;
                    let colour: Pixel = input.get(x, from);
                    proof {
                        assert(in_rolled_band(x as int, band as int, width as int, first));
                        assert(target[y as int][x as int] == colour);
                    }
                    output.put(x, y, colour);
                    y = y + 1;
                }
                proof {
                    assert(passed_down(output@, old(output)@, target, x + 1, 0));
                }
                x = x + 1;
            }
        } else {
            proof {
                assert forall|j: int, i: int|
                    0 <= j < output@.len() && 0 <= i < output@[j].len() && cursor <= i
                        < next implies target[j][i] == old(output)@[j][i] by {
                    if i < width {
                        assert(i / (band as int) == k);
                    }
                }
            }
        }
        cursor = next;
        rolling = !rolling;
        proof {
            k = k + 1;
            assert(k * band == (k - 1) * band + band) by (nonlinear_arith);
        }
    }
    proof {
        assert(output@ =~~= target);
    }
}

} // verus!
