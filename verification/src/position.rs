//! Represents a position in the game world.
//!
//! World coordinates are integers; `y` grows upward, and `z` is the
//! painter's-algorithm depth key: lower values are painted first (farther),
//! higher values later (nearer).

use vstd::prelude::*;

verus! {

/// A 3D position with optional relativity.
///
/// - `x`, `y`, `z`: Coordinates in the game world's 3D space.
/// - `is_relative`: Flag indicating if the position is relative (true) or absolute (false).
#[derive(Debug, Clone, Copy)]
pub struct Position {
    pub x: i32,
    pub y: i32,
    pub z: i32,
    pub is_relative: bool,
}

} // verus!
