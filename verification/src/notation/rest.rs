use vstd::prelude::*;
use crate::notation::figure::{NoteFigure, TimeModification};
use crate::notation::pitch::Step;

verus! {

/// A rest.
#[derive(Clone, Copy, PartialEq, Eq, Debug, Structural)]
pub struct Rest {
    pub figure: NoteFigure,
    /// Number of dots (0 to 3).
    pub dotted: u8,
    /// Irregular grouping that changes the sounding length.
    pub time_modification: Option<TimeModification>,
    /// Optional display position on the staff.
    pub display_step: Option<Step>,
    pub display_octave: Option<i8>,
    /// Whole-measure rest (centred, ignores the other elements).
    pub measure: bool,
}

} // verus!
