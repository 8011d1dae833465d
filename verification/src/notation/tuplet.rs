use vstd::prelude::*;
use crate::notation::attachment::Placement;

verus! {

/// Irregular rhythmic grouping (triplet, quintuplet, ...).
#[derive(Clone, Copy, PartialEq, Eq, Debug, Structural)]
pub struct Tuplet {
    /// Actual number of notes in the group (3 for a triplet).
    pub number: u8,
    /// Draw a bracket over or under the group.
    pub bracket: bool,
    pub show_number: Option<TupletShow>,
    pub show_type: Option<TupletShow>,
    pub placement: Placement,
}

impl Default for Tuplet {
    fn default() -> (t: Self)
        ensures
            t == (Tuplet {
                number: 3,
                bracket: true,
                show_number: Some(TupletShow::Actual),
                show_type: None,
                placement: Placement::Above,
            }),
    {
        Tuplet {
            number: 3,
            bracket: true,
            show_number: Some(TupletShow::Actual),
            show_type: None,
            placement: Placement::Above,
        }
    }
}

#[derive(Clone, Copy, PartialEq, Eq, Debug, Structural)]
pub enum TupletShow {
    Actual,
    Both,
    /// Nothing shown.
    Hidden,
}

} // verus!
