use vstd::prelude::*;
use crate::notation::staff::Staff;

verus! {

/// A system: staves that sound together.
#[derive(Clone, Debug)]
pub struct System {
    pub staves: Vec<Staff>,
    /// Left indentation of the system, in points.
    pub left_margin: u32,
    /// Brace or bracket grouping the staves.
    pub bracket: Option<GroupBracket>,
}

/// Brace or bracket grouping staves.
#[derive(Clone, Copy, PartialEq, Eq, Debug, Structural)]
pub enum GroupBracket {
    /// Brace (piano, harp).
    Brace,
    /// Bracket (instrument groups).
    Bracket,
    /// Single line.
    Line,
    /// Square bracket.
    Square,
}

} // verus!
