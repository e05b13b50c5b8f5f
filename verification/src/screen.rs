//! The boundary toward the presentation layer: the fixed screen size, the
//! shared key-press flags the input source writes, and the derivation of
//! the camera displacement from those flags.
//!
//! Each flag has a single writer (the input source) and is read once per
//! compositor iteration with relaxed ordering; staleness by one frame is
//! acceptable for an interactive control loop, so nothing can be promised
//! about a loaded value beyond its type.

use crate::bitmap::Pixel;
use std::sync::atomic::AtomicBool;
use std::sync::atomic::Ordering;
use vstd::prelude::*;

verus! {

/// Screen width in pixels.
pub const WIDTH: u32 = 300;

/// Screen height in pixels.
pub const HEIGHT: u32 = 300;

/// Holds the pressed state of the movement keys (WASD) via atomic booleans
/// for thread-safe access.
pub struct Keys {
    pub w: AtomicBool,
    pub a: AtomicBool,
    pub s: AtomicBool,
    pub d: AtomicBool,
}

/// Derives the camera's per-tick displacement from the four direction
/// flags: east minus west, north minus south. Opposite simultaneous
/// presses cancel to zero.
pub fn derive_displacement(w: bool, a: bool, s: bool, d: bool) -> (r: (i32, i32))
    ensures
        r.0 == (if d { 1int } else { 0int }) - (if a { 1int } else { 0int }),
        r.1 == (if w { 1int } else { 0int }) - (if s { 1int } else { 0int }),
{
    let dx: i32 = (if d { 1i32 } else { 0i32 }) - (if a { 1i32 } else { 0i32 });
    let dy: i32 = (if w { 1i32 } else { 0i32 }) - (if s { 1i32 } else { 0i32 });
    (dx, dy)
}

/// One frame of the demo gradient: derives an RGBA color from a frame
/// counter, cycling through the color cube; alpha is fully opaque.
pub fn gradient_color(frame_count: u32) -> (r: Pixel)
    ensures
        ({
            let c = ((frame_count as int) * 0x10001 + 0x10000) % 0xFFFFFF;
            r == (
                ((c / 0x10000) % 0x100) as u8,
                ((c / 0x100) % 0x100) as u8,
                (c % 0x100) as u8,
                255u8,
            )
        }),
{
    let c: u64 = ((frame_count as u64) * 0x10001 + 0x10000) % 0xFFFFFF;
    let red = ((c / 0x10000) % 0x100) as u8;
    let green = ((c / 0x100) % 0x100) as u8;
    let blue = (c % 0x100) as u8;
    (red, green, blue, 255)
}

impl Keys {
    /// Reads the four flags once with relaxed ordering and derives the
    /// displacement. Concurrent writers may change the flags at any time,
    /// so only the range of the result is promised.
    pub fn read_displacement(&self) -> (r: (i32, i32))
        ensures
            -1 <= r.0 <= 1,
            -1 <= r.1 <= 1,
    {
        let w = self.w.load(Ordering::Relaxed);
        let a = self.a.load(Ordering::Relaxed);
        let s = self.s.load(Ordering::Relaxed);
        let d = self.d.load(Ordering::Relaxed);
        derive_displacement(w, a, s, d)
    }
}

} // verus!
