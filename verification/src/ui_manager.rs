//! Centrally manages the shape of the UI widgets.
//!
//! Tracks the output the panel sits on and derives the height of the
//! layer surface containing all the keyboard widgets.

use vstd::prelude::*;

use crate::outputs::{OutputId, OutputState};

verus! {

/// Saturation bound: heights never exceed what fits a `u32`.
pub const HEIGHT_SAT: u64 = 0xFFFF_FFFF;

/// The physical size in millimetres, swapped for rotation, when both
/// dimensions are known.
pub open spec fn spec_phys_size(o: OutputState) -> Option<(u32, u32)> {
    match o.spec_physical_size() {
        Some(size) => match (size.width, size.height) {
            (Some(w), Some(h)) => Some((w.0, h.0)),
            _ => None,
        },
        None => None,
    }
}

/// The largest ideal height for the keyboard as a whole, judged by the
/// ease of hitting targets within: roughly 9.5 mm per finger-sized row,
/// four rows, converted through the output's pixel density; without
/// physical-size data, 210 physical pixels per scale unit.
pub open spec fn spec_max_target_height(o: OutputState) -> int {
    let raw = match (o.spec_pixel_size(), spec_phys_size(o)) {
        (Some(px), Some(phys)) => 54600 * (px.height as int) / (1440 * (phys.1 as int)),
        _ => (o.scale as int) * 210,
    };
    if raw > HEIGHT_SAT as int {
        HEIGHT_SAT as int
    } else {
        raw
    }
}

/// The perceptual height in logical pixels: a width-dependent base
/// height (taller on narrow screens, smoothly approaching 360 past
/// 720 pixels of width), capped by half the display and by the ideal
/// target height, divided by the scale.
pub open spec fn spec_perceptual_height(s: ManagerState) -> Option<int> {
    match s.current_output {
        Some((_, os)) => match os.spec_pixel_size() {
            Some(px) => {
                let base: int = if px.width < 720 && px.width > 0 {
                    (px.width as int) * 7 / 12
                } else if px.width < 1080 {
                    360 + (1080 - px.width as int) * 60 / 360
                } else {
                    360
                };
                let capped: int = if base > px.height as int / 2 {
                    px.height as int / 2
                } else {
                    base
                };
                let target = spec_max_target_height(os);
                let best: int = if capped > target {
                    target
                } else {
                    capped
                };
                Some(best / (os.scale as int))
            },
            None => Some((360 as int) / (os.scale as int)),
        },
        None => None,
    }
}

/// Stores the current state of the things influencing what the UI
/// should look like.
#[derive(Clone, Copy, Debug)]
pub struct ManagerState {
    pub current_output: Option<(OutputId, OutputState)>,
}

impl ManagerState {
    /// The tracked output's description is well-formed.
    pub open spec fn wf(self) -> bool {
        match self.current_output {
            Some((_, os)) => os.wf(),
            None => true,
        }
    }

    pub fn new() -> (r: ManagerState)
        ensures
            r.current_output is None,
            r.wf(),
    {
        ManagerState { current_output: None }
    }

    /// See [`spec_max_target_height`].
    pub fn get_max_target_height(output: &OutputState) -> (r: u32)
        requires
            output.wf(),
        ensures
            r == spec_max_target_height(*output),
    {
        let raw: u64 = match (output.get_pixel_size(), Self::get_phys_size(output)) {
            (Some(px), Some(phys)) => {
                54600u64 * px.height as u64 / (1440u64 * phys.1 as u64)
            },
            _ => output.scale as u64 * 210,
        };
        if raw > HEIGHT_SAT {
            HEIGHT_SAT as u32
        } else {
            raw as u32
        }
    }

    /// The physical size when both dimensions are known.
    pub fn get_phys_size(output: &OutputState) -> (r: Option<(u32, u32)>)
        ensures
            r == spec_phys_size(*output),
    {
        match output.get_physical_size() {
            Some(size) => match (size.width, size.height) {
                (Some(w), Some(h)) => Some((w.0, h.0)),
                _ => None,
            },
            None => None,
        }
    }

    /// See [`spec_perceptual_height`].
    pub fn get_perceptual_height(&self) -> (r: Option<u32>)
        requires
            self.wf(),
        ensures
            match r {
                Some(h) => spec_perceptual_height(*self) == Some(h as int),
                None => spec_perceptual_height(*self) is None,
            },
    {
        match self.current_output {
            Some((_, os)) => match os.get_pixel_size() {
                Some(px) => {
                    let base: u64 = if px.width < 720 && px.width > 0 {
                        px.width as u64 * 7 / 12
                    } else if px.width < 1080 {
                        360 + (1080 - px.width as u64) * 60 / 360
                    } else {
                        360
                    };
                    let half: u64 = px.height as u64 / 2;
                    let capped = if base > half {
                        half
                    } else {
                        base
                    };
                    let target = Self::get_max_target_height(&os) as u64;
                    let best = if capped > target {
                        target
                    } else {
                        capped
                    };
                    Some((best / os.scale as u64) as u32)
                },
                None => Some(360 / os.scale),
            },
            None => None,
        }
    }

    /// Folds a change of one output's description into the state:
    /// changes to outputs other than the tracked one (or when none is
    /// tracked, or the description went away) are ignored; otherwise the
    /// new description replaces the old, and when the perceptual height
    /// changed and is computable, it is returned so the shell can
    /// resize the surface.
    pub fn handle_output_change(&self, id: OutputId, new_output_state: Option<OutputState>) -> (r:
        (ManagerState, Option<u32>))
        requires
            self.wf(),
            match new_output_state {
                Some(os) => os.wf(),
                None => true,
            },
        ensures
            r.0.wf(),
            r == spec_handle_output_change(*self, id, new_output_state),
    {
        let (current_id, current_state) = match self.current_output {
            Some(c) => c,
            None => {
                return (*self, None);
            },
        };
        if current_id != id {
            return (*self, None);
        }
        match new_output_state {
            Some(new_state) => {
                if new_state == current_state {
                    (*self, None)
                } else {
                    let new_manager = ManagerState { current_output: Some((current_id, new_state)) };
                    let old_height = self.get_perceptual_height();
                    let new_height = new_manager.get_perceptual_height();
                    let changed = match (old_height, new_height) {
                        (Some(a), Some(b)) => a != b,
                        (None, None) => false,
                        _ => true,
                    };
                    if changed {
                        (new_manager, new_height)
                    } else {
                        (new_manager, None)
                    }
                }
            },
            None => (*self, None),
        }
    }
}

/// What a change of one output's description does to the manager state,
/// and the height the surface has to take, if any.
pub open spec fn spec_handle_output_change(
    s: ManagerState,
    id: OutputId,
    new_output_state: Option<OutputState>,
) -> (ManagerState, Option<u32>) {
    match s.current_output {
        Some((current_id, current_state)) => {
            if current_id != id {
                (s, None)
            } else {
                match new_output_state {
                    Some(new_state) => {
                        if new_state == current_state {
                            (s, None)
                        } else {
                            let ns = ManagerState {
                                current_output: Some((current_id, new_state)),
                            };
                            if spec_perceptual_height(ns) != spec_perceptual_height(s) {
                                (
                                    ns,
                                    match spec_perceptual_height(ns) {
                                        Some(h) => Some(h as u32),
                                        None => None,
                                    },
                                )
                            } else {
                                (ns, None)
                            }
                        }
                    },
                    None => (s, None),
                }
            }
        },
        None => (s, None),
    }
}

} // verus!
