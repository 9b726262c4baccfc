//! The pixel buffer: a rectangle of samples, stored row by row.

use vstd::prelude::*;
use vstd::arithmetic::div_mod::lemma_fundamental_div_mod;
use crate::pixel::Pixel;

verus! {

/// The mathematical picture: a sequence of rows, each a sequence of pixels.
/// `raster[y][x]` is the sample in column `x` of row `y`, the origin top left.
pub type Raster = Seq<Seq<Pixel>>;

/// Every row of `raster` is `width` long and there are `height` rows.
pub open spec fn rectangular(raster: Raster, width: int, height: int) -> bool {
    &&& raster.len() == height
    &&& forall|y: int| 0 <= y < height ==> (#[trigger] raster[y]).len() == width
}

/// The picture that `pixels` holds row by row.
pub open spec fn raster_of(width: int, height: int, pixels: Seq<Pixel>) -> Raster {
    Seq::new(height as nat, |y: int| Seq::new(width as nat, |x: int| pixels[y * width + x]))
}

/// The pixels that `raw` holds, four bytes each: red, green, blue, alpha.
pub open spec fn pixels_of(raw: Seq<u8>) -> Seq<Pixel> {
    Seq::new(
        raw.len() / 4,
        |i: int| Pixel { r: raw[4 * i], g: raw[4 * i + 1], b: raw[4 * i + 2], a: raw[4 * i + 3] },
    )
}

/// The picture of `width` by `height` pixels that `raw` holds row by row.
pub open spec fn pictured(width: int, height: int, raw: Seq<u8>) -> Raster {
    raster_of(width, height, pixels_of(raw))
}

/// The samples of a `width` by `height` picture row by row, four bytes a
/// pixel: red, green, blue, alpha.
pub open spec fn raw_of(picture: Raster, width: int, height: int) -> Seq<u8> {
    Seq::new(
        (4 * (width * height)) as nat,
        |i: int| picture[(i / 4) / width][(i / 4) % width].channel(i % 4) as u8,
    )
}

/// A place in row-major order below `width * height` is that of one cell,
/// in row `k / width` and column `k % width`.
proof fn lemma_place_cell(k: int, width: int, height: int)
    requires
        0 <= k < width * height,
        0 <= width,
        0 <= height,
    ensures
        0 <= k / width < height,
        0 <= k % width < width,
        (k / width) * width + k % width == k,
{
    assert(width > 0) by (nonlinear_arith)
        requires
            0 <= k < width * height,
            0 <= width,
            0 <= height,
    ;
    lemma_fundamental_div_mod(k, width);
    let q = k / width;
    assert(width * q == q * width) by (nonlinear_arith);
    assert(0 <= k % width < width);
    assert(q >= 0) by (nonlinear_arith)
        requires
            q * width + k % width == k,
            0 <= k,
            0 <= k % width < width,
    ;
    assert(q < height) by (nonlinear_arith)
        requires
            q * width + k % width == k,
            k < width * height,
            0 <= k % width,
            0 < width,
    ;
}

/// Cell (`px`, `py`) comes before cell (`x`, `y`) when the rows are read from
/// the top, each from the left.
pub open spec fn scanned_before(px: int, py: int, x: int, y: int) -> bool {
    py < y || (py == y && px < x)
}

/// A row-by-row pass from `before` towards `target` that has come to cell
/// (`x`, `y`): `now` has the shape of `before`, holds `target` in the cells
/// already passed and `before` in the others.
pub open spec fn passed(now: Raster, before: Raster, target: Raster, x: int, y: int) -> bool {
    &&& now.len() == before.len()
    &&& forall|j: int| 0 <= j < now.len() ==> (#[trigger] now[j]).len() == before[j].len()
    &&& forall|j: int, i: int|
        0 <= j < now.len() && 0 <= i < now[j].len() ==> (#[trigger] now[j][i]) == (if scanned_before(
            i,
            j,
            x,
            y,
        ) {
            target[j][i]
        } else {
            before[j][i]
        })
}

/// A cell of a `width`-wide grid has one place in row-major order, below `width * height`.
proof fn lemma_cell_index(x: int, y: int, width: int, height: int)
    requires
        0 <= x < width,
        0 <= y < height,
    ensures
        0 <= y * width + x < width * height,
        0 <= y * width <= (height - 1) * width,
{
    assert(y * width <= (height - 1) * width) by (nonlinear_arith)
        requires
            0 <= y <= height - 1,
            0 <= width,
    ;
    assert((height - 1) * width + width == width * height) by (nonlinear_arith);
    assert(0 <= y * width) by (nonlinear_arith)
        requires
            0 <= y,
            0 <= width,
    ;
}

/// Two cells of a grid that share their place in row-major order are one cell.
proof fn lemma_cell_unique(x1: int, y1: int, x2: int, y2: int, width: int)
    requires
        0 <= x1 < width,
        0 <= x2 < width,
        y1 * width + x1 == y2 * width + x2,
    ensures
        x1 == x2,
        y1 == y2,
{
    if y1 < y2 {
        assert((y1 + 1) * width <= y2 * width) by (nonlinear_arith)
            requires
                y1 + 1 <= y2,
                0 <= width,
        ;
        assert((y1 + 1) * width == y1 * width + width) by (nonlinear_arith);
    } else if y2 < y1 {
        assert((y2 + 1) * width <= y1 * width) by (nonlinear_arith)
            requires
                y2 + 1 <= y1,
                0 <= width,
        ;
        assert((y2 + 1) * width == y2 * width + width) by (nonlinear_arith);
    }
}

/// A `width` by `height` rectangle of pixels.
pub struct PixelBuffer {
    width: u32,
    height: u32,
    data: Vec<Pixel>,
}

impl View for PixelBuffer {
    type V = Raster;

    closed spec fn view(&self) -> Raster {
        raster_of(self.width as int, self.height as int, self.data@)
    }
}

impl PixelBuffer {
    /// The number of columns.
    pub closed spec fn columns(&self) -> int {
        self.width as int
    }

    /// The number of rows.
    pub closed spec fn rows(&self) -> int {
        self.height as int
    }

    /// The store holds exactly one pixel per cell.
    pub closed spec fn filled(&self) -> bool {
        self.data@.len() == self.width * self.height
    }

    /// The buffer is a full rectangle: what every operation asks for and keeps.
    pub open spec fn wf(&self) -> bool {
        &&& self.filled()
        &&& 0 <= self.columns() <= u32::MAX
        &&& 0 <= self.rows() <= u32::MAX
        &&& rectangular(self@, self.columns(), self.rows())
    }

    /// A buffer over `pixels`, taken row by row, if there is exactly one for each cell.
    pub fn from_pixels(width: u32, height: u32, pixels: Vec<Pixel>) -> (made: Option<PixelBuffer>)
        ensures
            made is Some <==> pixels@.len() == width * height,
            made matches Some(buffer) ==> {
                &&& buffer.wf()
                &&& buffer.columns() == width
                &&& buffer.rows() == height
                &&& buffer@ == raster_of(width as int, height as int, pixels@)
            },
    {
        assert(width * height <= u32::MAX * u32::MAX) by (nonlinear_arith)
            requires
                0 <= width <= u32::MAX,
                0 <= height <= u32::MAX,
        ;
        let cells: u64 = width as u64 * height as u64;
        if pixels.len() as u64 == cells {
            Some(PixelBuffer { width, height, data: pixels })
        } else {
            None
        }
    }

    /// A buffer over the samples `raw`, taken row by row and four bytes a
    /// pixel, if there are exactly four for each cell.
    pub fn from_raw(width: u32, height: u32, raw: &[u8]) -> (made: Option<PixelBuffer>)
        ensures
            made is Some <==> raw@.len() == 4 * (width * height),
            made matches Some(buffer) ==> {
                &&& buffer.wf()
                &&& buffer.columns() == width
                &&& buffer.rows() == height
                &&& buffer@ == pictured(width as int, height as int, raw@)
            },
    {
        assert(width * height <= u32::MAX * u32::MAX) by (nonlinear_arith)
            requires
                0 <= width <= u32::MAX,
                0 <= height <= u32::MAX,
        ;
        let cells: u64 = width as u64 * height as u64;
        let count: usize = raw.len();
        if count % 4 != 0 || (count / 4) as u64 != cells {
            return None;
        }
        let mut pixels: Vec<Pixel> = Vec::new();
        let mut k: usize = 0;
        while k < count / 4
            invariant
                count == raw@.len(),
                count % 4 == 0,
                k <= count / 4,
                pixels@.len() == k,
                forall|i: int| 0 <= i < k ==> #[trigger] pixels@[i] == pixels_of(raw@)[i],
            decreases count / 4 - k,
        {
            pixels.push(Pixel { r: raw[4 * k], g: raw[4 * k + 1], b: raw[4 * k + 2], a: raw[4 * k + 3] });
            k = k + 1;
        }
        proof {
            assert(pixels@ =~= pixels_of(raw@));
        }
        PixelBuffer::from_pixels(width, height, pixels)
    }

    /// The samples of the picture row by row, four bytes a pixel.
    pub fn to_raw(&self) -> (raw: Vec<u8>)
        requires
            self.wf(),
        ensures
            raw@ == raw_of(self@, self.columns(), self.rows()),
            raw@.len() == 4 * (self.columns() * self.rows()),
    {
        let mut raw: Vec<u8> = Vec::new();
        let count: usize = self.data.len();
        let ghost width = self.width as int;
        let ghost height = self.height as int;
        let ghost want = raw_of(self@, width, height);
        let mut k: usize = 0;
        while k < count
            invariant
                self.wf(),
                count == self.data@.len(),
                count == width * height,
                width == self.width,
                height == self.height,
                want == raw_of(self@, width, height),
                k <= count,
                raw@.len() == 4 * k,
                forall|i: int| 0 <= i < 4 * k ==> #[trigger] raw@[i] == want[i],
            decreases count - k,
        {
            let p: Pixel = self.data[k];
            proof {
                lemma_place_cell(k as int, width, height);
                assert(self@[(k as int) / width][(k as int) % width] == p);
                assert((4 * k) / 4 == k && (4 * k + 1) / 4 == k && (4 * k + 2) / 4 == k && (4 * k + 3)
                    / 4 == k);
            }
            raw.push(p.r);
            raw.push(p.g);
            raw.push(p.b);
            raw.push(p.a);
            k = k + 1;
        }
        proof {
            assert(raw@ =~= want);
        }
        raw
    }

    /// The number of columns.
    pub fn width(&self) -> (w: u32)
        ensures
            w == self.columns(),
    {
        self.width
    }

    /// The number of rows.
    pub fn height(&self) -> (h: u32)
        ensures
            h == self.rows(),
    {
        self.height
    }

    /// Where the store keeps column `x` of row `y`.
    fn place(&self, x: u32, y: u32) -> (i: usize)
        requires
            self.wf(),
            x < self.columns(),
            y < self.rows(),
        ensures
            i == y * self.width + x,
            i < self.data@.len(),
    {
        let cells: usize = self.data.len();
        proof {
            lemma_cell_index(x as int, y as int, self.width as int, self.height as int);
            assert(y * self.width + x < cells);
        }
        y as usize * self.width as usize + x as usize
    }

    /// The pixel in column `x` of row `y`.
    pub fn get(&self, x: u32, y: u32) -> (p: Pixel)
        requires
            self.wf(),
            x < self.columns(),
            y < self.rows(),
        ensures
            p == self@[y as int][x as int],
    {
        let i: usize = self.place(x, y);
        self.data[i]
    }

    /// Writes `p` to column `x` of row `y` and leaves every other cell as it was.
    pub fn put(&mut self, x: u32, y: u32, p: Pixel)
        requires
            old(self).wf(),
            x < old(self).columns(),
            y < old(self).rows(),
        ensures
            final(self).wf(),
            final(self).columns() == old(self).columns(),
            final(self).rows() == old(self).rows(),
            final(self)@ == old(self)@.update(y as int, old(self)@[y as int].update(x as int, p)),
    {
        let ghost width = self.width as int;
        let i: usize = self.place(x, y);
        self.data.set(i, p);
        proof {
            let want = old(self)@.update(y as int, old(self)@[y as int].update(x as int, p));
            assert forall|j: int, i: int| 0 <= j < self.height && 0 <= i < self.width implies (
            #[trigger] self@[j][i]) == want[j][i] by {
                lemma_cell_index(i, j, self.width as int, self.height as int);
                if j * width + i == y * width + x {
                    lemma_cell_unique(i, j, x as int, y as int, width);
                }
            }
            assert(self@ =~~= want);
        }
    }

    /// A second buffer holding the same picture.
    pub fn duplicate(&self) -> (copy: PixelBuffer)
        requires
            self.wf(),
        ensures
            copy.wf(),
            copy.columns() == self.columns(),
            copy.rows() == self.rows(),
            copy@ == self@,
    {
        let copy = PixelBuffer { width: self.width, height: self.height, data: self.data.clone() };
        assert(copy.data@ =~= self.data@);
        copy
    }
}

} // verus!
