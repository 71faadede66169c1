//! The rendered picture: its size, the settings it is rendered with, and the
//! grid of 8-bit RGB pixels that the renderer fills.
use vstd::prelude::*;

verus! {

/// A setting that leaves nothing to render.
#[derive(Clone, Copy, Debug, PartialEq, Eq, Structural)]
pub enum ConfigError {
    /// The picture would have no columns.
    ZeroWidth,
    /// A pixel would be the mean of no samples.
    ZeroSamples,
}

/// Accepts the settings of a render before any ray is cast.
pub fn check_config(image_width: u32, samples_per_pixel: u32) -> (r: Result<(), ConfigError>)
    ensures
        r == Err::<(), ConfigError>(ConfigError::ZeroWidth) <==> image_width == 0,
        r == Err::<(), ConfigError>(ConfigError::ZeroSamples) <==> image_width > 0
            && samples_per_pixel == 0,
        r is Ok <==> image_width > 0 && samples_per_pixel > 0,
{
    if image_width == 0 {
        Err(ConfigError::ZeroWidth)
    } else if samples_per_pixel == 0 {
        Err(ConfigError::ZeroSamples)
    } else {
        Ok(())
    }
}

/// The number of rows, from the width divided by the aspect ratio and
/// rounded: at least one.
pub fn image_height(rounded_rows: u32) -> (r: u32)
    ensures
        r == if rounded_rows < 1 { 1 } else { rounded_rows },
{
    if rounded_rows < 1 {
        1
    } else {
        rounded_rows
    }
}

/// Where the red byte of pixel `(x, y)` lies: rows top to bottom, pixels left
/// to right, three bytes each.
pub open spec fn byte_index(width: int, x: int, y: int) -> int {
    3 * (y * width + x)
}

/// A pixel inside a `width` by `height` grid has its three bytes inside it.
proof fn lemma_index_in_grid(width: int, height: int, x: int, y: int)
    requires
        0 <= x < width,
        0 <= y < height,
    ensures
        0 <= y * width <= byte_index(width, x, y),
        byte_index(width, x, y) + 3 <= 3 * width * height,
        3 * width * height == 3 * (width * height),
{
    assert(0 <= y * width) by (nonlinear_arith)
        requires
            0 <= x < width,
            0 <= y,
    ;
    assert(y * width + x + 1 <= width * height) by (nonlinear_arith)
        requires
            0 <= x < width,
            0 <= y < height,
    ;
    assert(3 * width * height == 3 * (width * height)) by (nonlinear_arith);
}

/// A `width` by `height` grid of RGB pixels, one byte per channel.
pub struct PixelGrid {
    width: u32,
    height: u32,
    data: Vec<u8>,
}

impl PixelGrid {
    pub closed spec fn width_spec(&self) -> nat {
        self.width as nat
    }

    pub closed spec fn height_spec(&self) -> nat {
        self.height as nat
    }

    /// The bytes of the grid, row by row.
    pub closed spec fn bytes(&self) -> Seq<u8> {
        self.data@
    }

    pub open spec fn wf(&self) -> bool {
        self.bytes().len() == 3 * self.width_spec() * self.height_spec()
    }

    /// The pixel at column `x`, row `y`.
    pub open spec fn pixel(&self, x: int, y: int) -> (u8, u8, u8) {
        let i = byte_index(self.width_spec() as int, x, y);
        (self.bytes()[i], self.bytes()[i + 1], self.bytes()[i + 2])
    }

    /// A black grid.
    pub fn new(width: u32, height: u32) -> (r: PixelGrid)
        requires
            3 * width * height <= usize::MAX,
        ensures
            r.wf(),
            r.width_spec() == width,
            r.height_spec() == height,
            forall|i: int| 0 <= i < r.bytes().len() ==> #[trigger] r.bytes()[i] == 0,
    {
        proof {
            assert(width * height <= 3 * width * height) by (nonlinear_arith);
            assert(3 * width * height == 3 * (width * height)) by (nonlinear_arith);
        }
        let n: usize = 3 * ((width as usize) * (height as usize));
        let mut data: Vec<u8> = Vec::new();
        let mut i: usize = 0;
        while i < n
            invariant
                i <= n,
                data@.len() == i,
                forall|k: int| 0 <= k < i ==> #[trigger] data@[k] == 0,
            decreases n - i,
        {
            data.push(0);
            i += 1;
        }
        PixelGrid { width, height, data }
    }

    pub fn width(&self) -> (r: u32)
        ensures
            r == self.width_spec(),
    {
        self.width
    }

    pub fn height(&self) -> (r: u32)
        ensures
            r == self.height_spec(),
    {
        self.height
    }

    /// Sets the pixel at column `x`, row `y`; every other byte stays.
    pub fn put_pixel(&mut self, x: u32, y: u32, rgb: (u8, u8, u8))
        requires
            old(self).wf(),
            x < old(self).width_spec(),
            y < old(self).height_spec(),
        ensures
            final(self).wf(),
            final(self).width_spec() == old(self).width_spec(),
            final(self).height_spec() == old(self).height_spec(),
            final(self).pixel(x as int, y as int) == rgb,
            forall|i: int|
                0 <= i < old(self).bytes().len() && (i < byte_index(
                    old(self).width_spec() as int,
                    x as int,
                    y as int,
                ) || i >= byte_index(old(self).width_spec() as int, x as int, y as int) + 3)
                    ==> #[trigger] final(self).bytes()[i] == old(self).bytes()[i],
    {
        proof {
            lemma_index_in_grid(self.width as int, self.height as int, x as int, y as int);
        }
        let len = self.data.len();
        let i: usize = 3 * ((y as usize) * (self.width as usize) + (x as usize));
        self.data.set(i, rgb.0);
        self.data.set(i + 1, rgb.1);
        self.data.set(i + 2, rgb.2);
    }

    /// Sets row `y` to `row`, left to right; the other rows stay.
    pub fn put_row(&mut self, y: u32, row: &Vec<(u8, u8, u8)>)
        requires
            old(self).wf(),
            y < old(self).height_spec(),
            row.len() == old(self).width_spec(),
        ensures
            final(self).wf(),
            final(self).width_spec() == old(self).width_spec(),
            final(self).height_spec() == old(self).height_spec(),
            forall|x: int| 0 <= x < row.len() ==> #[trigger] final(self).pixel(x, y as int) == row@[x],
            forall|i: int|
                0 <= i < old(self).bytes().len() && (i < byte_index(
                    old(self).width_spec() as int,
                    0,
                    y as int,
                ) || i >= byte_index(old(self).width_spec() as int, 0, y as int + 1))
                    ==> #[trigger] final(self).bytes()[i] == old(self).bytes()[i],
    {
        let ghost w = self.width as int;
        let ghost start = byte_index(w, 0, y as int);
        let ghost before = self.bytes();
        let mut x: u32 = 0;
        while x < self.width
            invariant
                self.wf(),
                self.width_spec() == w,
                self.height_spec() == old(self).height_spec(),
                y < self.height_spec(),
                row.len() == w,
                before == old(self).bytes(),
                before.len() == 3 * w * self.height_spec(),
                start == byte_index(w, 0, y as int),
                x <= w,
                forall|k: int| 0 <= k < x ==> #[trigger] self.pixel(k, y as int) == row@[k],
                forall|i: int|
                    0 <= i < before.len() && (i < start || i >= byte_index(w, x as int, y as int))
                        ==> #[trigger] self.bytes()[i] == before[i],
            decreases w - x,
        {
            let ghost prev = *self;
            self.put_pixel(x, y, row[x as usize]);
            proof {
                lemma_index_in_grid(w, self.height_spec() as int, x as int, y as int);
                assert forall|i: int|
                    0 <= i < before.len() && (i < start || i >= byte_index(w, x + 1, y as int))
                        implies #[trigger] self.bytes()[i] == before[i] by {
                    assert(start <= byte_index(w, x as int, y as int));
                    assert(byte_index(w, x + 1, y as int) == byte_index(w, x as int, y as int) + 3);
                    assert(i < byte_index(w, x as int, y as int) || i >= byte_index(
                        w,
                        x as int,
                        y as int,
                    ) + 3);
                    assert(prev.bytes()[i] == before[i]);
                }
                assert forall|k: int| 0 <= k < x + 1 implies #[trigger] self.pixel(k, y as int)
                    == row@[k] by {
                    lemma_index_in_grid(w, self.height_spec() as int, k, y as int);
                    if k < x {
                        assert(prev.pixel(k, y as int) == row@[k]);
                    }
                }
            }
            x += 1;
        }
        assert(byte_index(w, x as int, y as int) == byte_index(w, 0, y as int + 1)) by {
            assert(y * w + w == (y + 1) * w) by (nonlinear_arith);
        }
    }

    /// The bytes of the grid, row by row, three per pixel.
    pub fn into_raw(self) -> (r: Vec<u8>)
        ensures
            r@ == self.bytes(),
    {
        self.data
    }
}

} // verus!
