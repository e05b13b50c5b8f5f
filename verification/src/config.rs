//! Engine configuration: the screen resolution the engine renders at.

use crate::Resolution;
use vstd::prelude::*;

verus! {

/// Trait defining the configuration interface for engine settings:
/// setting and retrieving the screen resolution.
pub trait Config: Sized {
    /// The resolution the configuration currently holds.
    spec fn spec_resolution(&self) -> Resolution;

    /// Sets the resolution width and height.
    fn set_resolution(&mut self, width: u32, height: u32)
        ensures
            final(self).spec_resolution().width == width,
            final(self).spec_resolution().height == height,
    ;

    /// Gets the current resolution.
    fn get_resolution(&self) -> (r: Resolution)
        ensures
            r.width == self.spec_resolution().width,
            r.height == self.spec_resolution().height,
    ;

    /// Creates a new configuration instance with the given resolution.
    fn new(resolution: Resolution) -> (r: Self)
        ensures
            r.spec_resolution().width == resolution.width,
            r.spec_resolution().height == resolution.height,
    ;
}

/// Concrete implementation of the engine configuration.
pub struct EngineConfig {
    /// The current resolution settings.
    pub resolution: Resolution,
}

impl Config for EngineConfig {
    open spec fn spec_resolution(&self) -> Resolution {
        self.resolution
    }

    fn set_resolution(&mut self, width: u32, height: u32) {
        self.resolution.width = width;
        self.resolution.height = height;
    }

    fn get_resolution(&self) -> (r: Resolution) {
        Resolution { width: self.resolution.width, height: self.resolution.height }
    }

    fn new(resolution: Resolution) -> (r: Self) {
        EngineConfig { resolution }
    }
}

} // verus!
