use vstd::prelude::*;
use crate::color::{Rgba, black_spec};

verus! {

/// Color of a pixel whose escape count is `count`; a count that the palette
/// does not cover, as a faulty evaluation may give, takes the fallback black.
pub open spec fn pixel_color_spec(palette: Seq<Rgba>, count: int) -> Rgba {
    if 0 <= count < palette.len() {
        palette[count]
    } else {
        black_spec()
    }
}

/// Position of pixel `(x, y)` in a row-major buffer `width` pixels wide.
pub open spec fn pixel_offset(width: int, x: int, y: int) -> int {
    y * width + x
}

/// The pixel buffer of one band, row-major, `width * height` pixels.
pub struct Band {
    width: u32,
    height: u32,
    pixels: Vec<Rgba>,
}

impl Band {
    pub closed spec fn width_spec(self) -> nat {
        self.width as nat
    }

    pub closed spec fn height_spec(self) -> nat {
        self.height as nat
    }

    pub closed spec fn pixels_spec(self) -> Seq<Rgba> {
        self.pixels@
    }

    pub open spec fn wf(self) -> bool {
        self.pixels_spec().len() == self.width_spec() * self.height_spec()
    }

    /// A band whose every pixel is `color`.
    pub fn filled(width: u32, height: u32, color: Rgba) -> (b: Band)
        requires
            width * height <= usize::MAX,
        ensures
            b.wf(),
            b.width_spec() == width,
            b.height_spec() == height,
            forall|k: int| 0 <= k < b.pixels_spec().len() ==> #[trigger] b.pixels_spec()[k] == color,
    {
        let n: usize = (width as usize) * (height as usize);
        let mut pixels: Vec<Rgba> = Vec::new();
        let mut k: usize = 0;
        while k < n
            invariant
                k <= n,
                pixels@.len() == k,
                forall|i: int| 0 <= i < k ==> #[trigger] pixels@[i] == color,
            decreases n - k,
        {
            pixels.push(color);
            k = k + 1;
        }
        Band { width, height, pixels }
    }

    /// Colors a band from the escape counts of its pixels, given row-major.
    pub fn from_counts(width: u32, height: u32, counts: &Vec<usize>, palette: &Vec<Rgba>) -> (b:
        Band)
        requires
            counts@.len() == width * height,
        ensures
            b.wf(),
            b.width_spec() == width,
            b.height_spec() == height,
            forall|k: int|
                0 <= k < counts@.len() ==> #[trigger] b.pixels_spec()[k] == pixel_color_spec(
                    palette@,
                    counts@[k] as int,
                ),
    {
        let mut pixels: Vec<Rgba> = Vec::new();
        let mut k: usize = 0;
        while k < counts.len()
            invariant
                k <= counts@.len(),
                pixels@.len() == k,
                forall|i: int|
                    0 <= i < k ==> #[trigger] pixels@[i] == pixel_color_spec(
                        palette@,
                        counts@[i] as int,
                    ),
            decreases counts@.len() - k,
        {
            let count = counts[k];
            let c = if count < palette.len() {
                palette[count]
            } else {
                Rgba::black()
            };
            pixels.push(c);
            k = k + 1;
        }
        Band { width, height, pixels }
    }

    pub fn width(&self) -> (r: u32)
        ensures
            r == self.width_spec(),
    {
        self.width
    }

    pub fn height(&self) -> (r: u32)
        ensures
            r == self.height_spec(),
    {
        self.height
    }

    /// The pixels in row-major order.
    pub fn pixels(&self) -> (r: &Vec<Rgba>)
        ensures
            r@ == self.pixels_spec(),
    {
        &self.pixels
    }

    /// The pixel in column `x` of row `y`.
    pub fn pixel(&self, x: u32, y: u32) -> (r: Rgba)
        requires
            self.wf(),
            x < self.width_spec(),
            y < self.height_spec(),
        ensures
            r == self.pixels_spec()[pixel_offset(self.width_spec() as int, x as int, y as int)],
    {
        let n = self.pixels.len();
        proof {
            let w = self.width as int;
            let h = self.height as int;
            assert(y * w + x < w * h && y * w <= y * w + x) by (nonlinear_arith)
                requires 0 <= x < w, 0 <= y < h;
            assert(w * h == n);
        }
        self.pixels[(y as usize) * (self.width as usize) + (x as usize)]
    }
}

} // verus!
