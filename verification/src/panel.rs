//! The panel surface: sizes in physical pixels and the commands that
//! show or hide the surface.

use vstd::prelude::*;

use crate::outputs::OutputId;

verus! {

/// A length in physical pixels together with the output's scale factor,
/// so receivers can convert to logical (scaled) coordinates.
#[derive(Clone, Copy, Debug, PartialEq, Eq, Structural)]
pub struct PixelSize {
    pub pixels: u32,
    pub scale_factor: u32,
}

/// `ceil(pixels / scale_factor)`.
pub open spec fn spec_scaled_ceiling(pixels: u32, scale_factor: u32) -> int
    recommends
        scale_factor >= 1,
{
    (pixels + scale_factor - 1) / (scale_factor as int)
}

impl PixelSize {
    /// The length in logical pixels, rounded up.
    pub fn as_scaled_ceiling(&self) -> (r: u32)
        requires
            self.scale_factor >= 1,
        ensures
            r == spec_scaled_ceiling(self.pixels, self.scale_factor),
    {
        let wide: u64 = (self.pixels as u64 + self.scale_factor as u64 - 1)
            / (self.scale_factor as u64);
        proof {
            let p = self.pixels as int;
            let s = self.scale_factor as int;
            assert((p + s - 1) / s <= p) by (nonlinear_arith)
                requires
                    s >= 1,
                    p >= 0,
            ;
        }
        wide as u32
    }
}

/// Visibility command sent to the panel surface.
#[derive(Clone, Copy, Debug, PartialEq, Eq, Structural)]
pub enum Command {
    Show { output: OutputId, height: PixelSize },
    Hide,
}

} // verus!
