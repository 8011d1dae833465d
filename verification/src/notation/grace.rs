use vstd::prelude::*;
use crate::notation::pitch::{Accidental, Pitch, Step};

verus! {

/// Grace note.
#[derive(Clone, Copy, PartialEq, Eq, Debug, Structural)]
pub struct GraceNote {
    pub pitch: Pitch,
    /// true: acciaccatura (slashed); false: appoggiatura.
    pub slash: bool,
    /// Percentage (0 to 100) of the previous note's time taken.
    pub steal_previous: u8,
    /// Percentage (0 to 100) of the following note's time taken.
    pub steal_following: u8,
    /// The grace note has a rhythmic value of its own.
    pub make_time: bool,
}

impl Default for GraceNote {
    fn default() -> (g: Self)
        ensures
            g == (GraceNote {
                pitch: Pitch { step: Step::C, accidental: Accidental::Natural, octave: 4 },
                slash: true,
                steal_previous: 50,
                steal_following: 50,
                make_time: false,
            }),
    {
        GraceNote {
            pitch: Pitch { step: Step::C, accidental: Accidental::Natural, octave: 4 },
            slash: true,
            steal_previous: 50,
            steal_following: 50,
            make_time: false,
        }
    }
}

} // verus!
