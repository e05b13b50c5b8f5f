//! A small 2D game runtime: positioned, component-bearing objects are
//! composited into a pixel frame relative to a camera object.
//!
//! The crate models decoded bitmaps, a bounded object registry with id
//! recycling, scenes, and the camera-relative sprite compositor with alpha
//! and drop-shadow blending.

use vstd::prelude::*;

pub mod bitmap;
pub mod config;
pub mod component;
pub mod game_object;
pub mod object_manager;
pub mod interface;
pub mod position;
pub mod render_utils;
pub mod renderer;
pub mod scene;
pub mod scene_manager;
pub mod screen;
pub mod script;

verus! {

/// Represents screen resolution.
///
/// Holds the width and height in pixels, encapsulating display dimensions.
#[derive(Copy, Clone)]
pub struct Resolution {
    /// Width of the screen or rendering area in pixels.
    pub width: u32,
    /// Height of the screen or rendering area in pixels.
    pub height: u32,
}

impl Resolution {
    /// Creates a new `Resolution` instance with specified width and height.
    pub fn new(width: u32, height: u32) -> (r: Self)
        ensures
            r.width == width,
            r.height == height,
    {
        Self { width, height }
    }
}

} // verus!
