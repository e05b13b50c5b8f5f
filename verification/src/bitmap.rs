//! In-memory decoded images.
//!
//! The compositor consumes already-decoded bitmaps: dense row-major RGBA
//! pixel rectangles. Decoding image files into this form is the business of
//! the presentation layer, not of the runtime core.

use vstd::prelude::*;

verus! {

/// One RGBA pixel: red, green, blue and alpha channels.
pub type Pixel = (u8, u8, u8, u8);

/// The abstract value of a bitmap: its dimensions and its row-major pixels.
pub struct BitmapView {
    pub width: int,
    pub height: int,
    pub pixels: Seq<Pixel>,
}

impl BitmapView {
    /// Dimensions fit in `u32` and the pixel data covers the rectangle exactly.
    pub open spec fn wf(self) -> bool {
        &&& 0 <= self.width <= u32::MAX
        &&& 0 <= self.height <= u32::MAX
        &&& self.pixels.len() == self.width * self.height
    }

    /// The pixel in column `x` of row `y`, counting rows from the top.
    pub open spec fn pixel_at(self, x: int, y: int) -> Pixel {
        self.pixels[y * self.width + x]
    }
}

/// An immutable decoded image: a width, a height, and exactly
/// `width * height` RGBA pixels in row-major order, origin top-left.
pub struct Bitmap {
    width: u32,
    height: u32,
    pixels: Vec<Pixel>,
}

impl View for Bitmap {
    type V = BitmapView;

    closed spec fn view(&self) -> BitmapView {
        BitmapView {
            width: self.width as int,
            height: self.height as int,
            pixels: self.pixels@,
        }
    }
}

impl Bitmap {
    #[verifier::type_invariant]
    spec fn inv(self) -> bool {
        self@.wf()
    }

    /// Builds a bitmap from row-major pixel data covering the rectangle exactly.
    pub fn from_pixels(width: u32, height: u32, pixels: Vec<Pixel>) -> (r: Bitmap)
        requires
            pixels@.len() == width * height,
        ensures
            r@ == (BitmapView {
                width: width as int,
                height: height as int,
                pixels: pixels@,
            }),
    {
        Bitmap { width, height, pixels }
    }

    /// Builds a bitmap with every pixel set to the same color.
    pub fn filled(width: u32, height: u32, color: Pixel) -> (r: Bitmap)
        requires
            width * height <= usize::MAX,
        ensures
            r@.width == width,
            r@.height == height,
            r@.pixels.len() == width * height,
            forall|i: int| 0 <= i < r@.pixels.len() ==> r@.pixels[i] == color,
    {
        let total: usize = (width as usize) * (height as usize);
        let mut pixels: Vec<Pixel> = Vec::new();
        let mut i: usize = 0;
        while i < total
            invariant
                i <= total,
                pixels@.len() == i,
                forall|j: int| 0 <= j < i ==> pixels@[j] == color,
            decreases total - i,
        {
            pixels.push(color);
            i = i + 1;
        }
        Bitmap { width, height, pixels }
    }

    /// Width of the image in pixels. Also reveals that the bitmap's
    /// abstract value is well formed, which holds of every bitmap.
    pub fn width(&self) -> (r: u32)
        ensures
            r == self@.width,
            self@.wf(),
    {
        proof {
            use_type_invariant(self);
        }
        self.width
    }

    /// Height of the image in pixels. Also reveals that the bitmap's
    /// abstract value is well formed, which holds of every bitmap.
    pub fn height(&self) -> (r: u32)
        ensures
            r == self@.height,
            self@.wf(),
    {
        proof {
            use_type_invariant(self);
        }
        self.height
    }

    /// Reads the pixel in column `x` of row `y`.
    pub fn get_pixel(&self, x: u32, y: u32) -> (r: Pixel)
        requires
            x < self@.width,
            y < self@.height,
        ensures
            r == self@.pixel_at(x as int, y as int),
            self@.wf(),
    {
        proof {
            use_type_invariant(self);
            assert((y as int) * (self@.width as int) + (x as int) < self@.width
                * self@.height) by (nonlinear_arith)
                requires
                    0 <= x < self@.width,
                    0 <= y < self@.height,
            ;
        }
        let n: usize = self.pixels.len();
        assert((y as int) * (self@.width as int) + (x as int) < n);
        let idx: usize = (y as usize) * (self.width as usize) + (x as usize);
        self.pixels[idx]
    }

    /// Copies the bitmap pixel for pixel.
    pub fn duplicate(&self) -> (r: Bitmap)
        ensures
            r@ == self@,
            self@.wf(),
    {
        proof {
            use_type_invariant(self);
        }
        let mut pixels: Vec<Pixel> = Vec::new();
        let n: usize = self.pixels.len();
        let mut i: usize = 0;
        while i < n
            invariant
                i <= n,
                n == self.pixels@.len(),
                pixels@.len() == i,
                forall|j: int| 0 <= j < i ==> pixels@[j] == self.pixels@[j],
            decreases n - i,
        {
            pixels.push(self.pixels[i]);
            i = i + 1;
        }
        assert(pixels@ =~= self.pixels@);
        Bitmap { width: self.width, height: self.height, pixels }
    }
}

} // verus!
