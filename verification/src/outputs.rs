//! Descriptions of the displays the keyboard can appear on.
//!
//! The compositor reports each output's pixel mode, physical dimensions,
//! scale and rotation.  The panel logic only ever needs the effective pixel
//! and physical sizes, i.e. the reported ones with width and height swapped
//! when the output is rotated by a quarter turn.

use vstd::prelude::*;

verus! {

/// Identifies one output for as long as it is connected.
#[derive(Clone, Copy, Debug, PartialEq, Eq, Structural)]
pub struct OutputId(pub u32);

/// A physical length reported by the compositor, in millimetres.
#[derive(Clone, Copy, Debug, PartialEq, Eq, Structural)]
pub struct Millimeter(pub u32);

/// The pixel resolution of an output, as reported (before rotation).
#[derive(Clone, Copy, Debug, PartialEq, Eq, Structural)]
pub struct Mode {
    pub width: u32,
    pub height: u32,
}

/// Physical size of an output; either dimension may be unknown.
#[derive(Clone, Copy, Debug, PartialEq, Eq, Structural)]
pub struct Size {
    pub width: Option<Millimeter>,
    pub height: Option<Millimeter>,
}

/// The rotation/mirroring the compositor applies to an output.
#[derive(Clone, Copy, Debug, PartialEq, Eq, Structural)]
pub enum Transform {
    Normal,
    Rotated90,
    Rotated180,
    Rotated270,
    Flipped,
    FlippedRotated90,
    FlippedRotated180,
    FlippedRotated270,
}

impl Transform {
    /// A quarter-turn rotation swaps the reported width and height.
    pub open spec fn spec_swaps_axes(self) -> bool {
        match self {
            Transform::Rotated90
            | Transform::Rotated270
            | Transform::FlippedRotated90
            | Transform::FlippedRotated270 => true,
            _ => false,
        }
    }

    #[verifier::when_used_as_spec(spec_swaps_axes)]
    pub fn swaps_axes(self) -> (r: bool)
        ensures
            r == self.spec_swaps_axes(),
    {
        match self {
            Transform::Rotated90
            | Transform::Rotated270
            | Transform::FlippedRotated90
            | Transform::FlippedRotated270 => true,
            _ => false,
        }
    }
}

/// Placement data of an output: physical size and rotation.
#[derive(Clone, Copy, Debug, PartialEq, Eq, Structural)]
pub struct Geometry {
    pub transform: Transform,
    pub phys_size: Size,
}

/// Everything the panel logic keeps about one output.
#[derive(Clone, Copy, Debug, PartialEq, Eq, Structural)]
pub struct OutputState {
    pub current_mode: Option<Mode>,
    pub geometry: Option<Geometry>,
    pub scale: u32,
}

impl OutputState {
    /// The compositor guarantees a positive scale, and physical
    /// dimensions, when reported, are positive lengths.
    pub open spec fn wf(self) -> bool {
        &&& self.scale >= 1
        &&& match self.geometry {
            Some(g) => (match g.phys_size.width {
                Some(w) => w.0 >= 1,
                None => true,
            }) && (match g.phys_size.height {
                Some(h) => h.0 >= 1,
                None => true,
            }),
            None => true,
        }
    }

    /// Pixel size after accounting for rotation.
    pub open spec fn spec_pixel_size(self) -> Option<Mode> {
        match (self.current_mode, self.geometry) {
            (Some(mode), Some(geometry)) => {
                if geometry.transform.spec_swaps_axes() {
                    Some(Mode { width: mode.height, height: mode.width })
                } else {
                    Some(mode)
                }
            },
            (Some(mode), None) => Some(mode),
            (None, _) => None,
        }
    }

    /// Physical size after accounting for rotation.
    pub open spec fn spec_physical_size(self) -> Option<Size> {
        match self.geometry {
            Some(geometry) => {
                if geometry.transform.spec_swaps_axes() {
                    Some(Size {
                        width: geometry.phys_size.height,
                        height: geometry.phys_size.width,
                    })
                } else {
                    Some(geometry.phys_size)
                }
            },
            None => None,
        }
    }

    pub fn get_pixel_size(&self) -> (r: Option<Mode>)
        ensures
            r == self.spec_pixel_size(),
    {
        match (self.current_mode, self.geometry) {
            (Some(mode), Some(geometry)) => {
                if geometry.transform.swaps_axes() {
                    Some(Mode { width: mode.height, height: mode.width })
                } else {
                    Some(mode)
                }
            },
            (Some(mode), None) => Some(mode),
            (None, _) => None,
        }
    }

    pub fn get_physical_size(&self) -> (r: Option<Size>)
        ensures
            r == self.spec_physical_size(),
    {
        match self.geometry {
            Some(geometry) => {
                if geometry.transform.swaps_axes() {
                    Some(Size {
                        width: geometry.phys_size.height,
                        height: geometry.phys_size.width,
                    })
                } else {
                    Some(geometry.phys_size)
                }
            },
            None => None,
        }
    }
}

/// What happened to an output.
#[derive(Clone, Copy, Debug)]
pub enum ChangeType {
    Altered(OutputState),
    Removed,
}

/// An output appeared, changed, or went away.
#[derive(Clone, Copy, Debug)]
pub struct Event {
    pub output: OutputId,
    pub change: ChangeType,
}

} // verus!
