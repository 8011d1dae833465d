use vstd::prelude::*;

verus! {

/// Identifies one note of the score (used to highlight what is playing).
#[derive(Clone, Copy, Debug, PartialEq, Eq, Hash, Structural)]
pub struct NoteRef {
    pub system_idx: usize,
    pub staff_idx: usize,
    pub measure_idx: usize,
    pub element_idx: usize,
    /// 0 for a bare `Note` element; the index inside the chord otherwise.
    pub subnote_idx: usize,
}

} // verus!
