//! Initial frame buffers.
//!
//! A render pass starts from a frame either sampled pixel for pixel from
//! the top-left window of a background bitmap, or filled with the default
//! background color when no background is set or the background is smaller
//! than the target resolution.

use crate::bitmap::{Bitmap, BitmapView, Pixel};
use crate::renderer::DEFAULT_BACKGROUND_COLOR;
use crate::screen::{HEIGHT, WIDTH};
use crate::Resolution;
use vstd::prelude::*;

verus! {

/// A frame of the given size with every pixel the default background color.
pub open spec fn default_background_fill(width: int, height: int) -> Seq<Pixel> {
    Seq::new((width * height) as nat, |i: int| DEFAULT_BACKGROUND_COLOR)
}

/// A frame of the given size sampled from the top-left window of `b`.
pub open spec fn background_sample(b: BitmapView, width: int, height: int) -> Seq<Pixel> {
    Seq::new((width * height) as nat, |i: int| b.pixel_at(i % width, i / width))
}

/// The abstract value of an optional background bitmap.
pub open spec fn bg_view(background: Option<Bitmap>) -> Option<BitmapView> {
    match background {
        Some(b) => Some(b@),
        None => None,
    }
}

/// The initial frame for a given background and target size: sampled from
/// the background where one is set and large enough, the default fill
/// otherwise.
pub open spec fn init_frame_spec(bg: Option<BitmapView>, width: int, height: int) -> Seq<Pixel> {
    match bg {
        None => default_background_fill(width, height),
        Some(b) => if b.width < width || b.height < height {
            default_background_fill(width, height)
        } else {
            background_sample(b, width, height)
        },
    }
}

/// Fills a frame of the given resolution with the default background color.
fn fill_default(resolution: Resolution) -> (r: Vec<Pixel>)
    requires
        resolution.width * resolution.height <= usize::MAX,
    ensures
        r@ == default_background_fill(resolution.width as int, resolution.height as int),
{
    let total: usize = (resolution.width as usize) * (resolution.height as usize);
    let mut pixels: Vec<Pixel> = Vec::new();
    let mut i: usize = 0;
    while i < total
        invariant
            i <= total,
            pixels@.len() == i,
            forall|j: int| 0 <= j < i ==> pixels@[j] == DEFAULT_BACKGROUND_COLOR,
        decreases total - i,
    {
        pixels.push(DEFAULT_BACKGROUND_COLOR);
        i = i + 1;
    }
    assert(pixels@ =~= default_background_fill(
        resolution.width as int,
        resolution.height as int,
    ));
    pixels
}

/// Creates a vector filled with the default background color, sized to the
/// fixed screen resolution.
pub fn make_init_default_background() -> (r: Vec<Pixel>)
    ensures
        r@ == default_background_fill(WIDTH as int, HEIGHT as int),
{
    fill_default(Resolution::new(WIDTH, HEIGHT))
}

/// Creates an initial framebuffer of the given resolution from an optional
/// background image. A missing or too-small background falls back to the
/// default fill; otherwise the top-left window of the image is copied
/// pixel for pixel.
#[verifier::loop_isolation(false)]
pub fn make_init_frame(image: &Option<Bitmap>, resolution: Resolution) -> (r: Vec<Pixel>)
    requires
        resolution.width * resolution.height <= usize::MAX,
    ensures
        r@ == init_frame_spec(bg_view(*image), resolution.width as int, resolution.height as int),
{
    match image {
        None => fill_default(resolution),
        Some(b) => {
            if b.width() < resolution.width || b.height() < resolution.height {
                fill_default(resolution)
            } else {
                let w: u32 = resolution.width;
                let h: u32 = resolution.height;
                let mut pixels: Vec<Pixel> = Vec::new();
                let mut y: u32 = 0;
                while y < h
                    invariant
                        y <= h,
                        pixels@.len() == y * w,
                        forall|i: int|
                            0 <= i < pixels@.len() ==> pixels@[i] == b@.pixel_at(
                                i % (w as int),
                                i / (w as int),
                            ),
                    decreases h - y,
                {
                    let mut x: u32 = 0;
                    while x < w
                        invariant
                            x <= w,
                            y < h,
                            pixels@.len() == y * w + x,
                            forall|i: int|
                                0 <= i < pixels@.len() ==> pixels@[i] == b@.pixel_at(
                                    i % (w as int),
                                    i / (w as int),
                                ),
                        decreases w - x,
                    {
                        proof {
                            assert((y as int) * (w as int) + (x as int) < (w as int) * (
                            h as int)) by (nonlinear_arith)
                                requires
                                    0 <= x < w,
                                    0 <= y < h,
                            ;
                        }
                        let px = b.get_pixel(x, y);
                        pixels.push(px);
                        proof {
                            vstd::arithmetic::div_mod::lemma_fundamental_div_mod_converse(
                                (y as int) * (w as int) + (x as int),
                                w as int,
                                y as int,
                                x as int,
                            );
                        }
                        x = x + 1;
                    }
                    proof {
                        assert(((y + 1) as int) * (w as int) == (y as int) * (w as int) + (
                        w as int)) by (nonlinear_arith);
                    }
                    y = y + 1;
                }
                proof {
                    assert((h as int) * (w as int) == (w as int) * (h as int)) by (nonlinear_arith);
                }
                assert(pixels@ =~= background_sample(
                    b@,
                    resolution.width as int,
                    resolution.height as int,
                ));
                pixels
            }
        },
    }
}

} // verus!
