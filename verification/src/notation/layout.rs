use vstd::prelude::*;

verus! {

/// Layout settings for systems, in points.
#[derive(Clone, Copy, PartialEq, Eq, Debug, Structural)]
pub struct SystemLayout {
    /// Vertical distance between consecutive systems.
    pub system_distance: u32,
    /// Distance from the top margin to the first system.
    pub top_system_distance: u32,
    /// System dividers (// at the start of a line).
    pub system_dividers: Option<SystemDividers>,
}

#[derive(Clone, Copy, PartialEq, Eq, Debug, Structural)]
pub struct SystemDividers {
    pub left: bool,
    pub right: bool,
}

impl Default for SystemLayout {
    fn default() -> (l: Self)
        ensures
            l == (SystemLayout { system_distance: 60, top_system_distance: 80, system_dividers: None }),
    {
        SystemLayout { system_distance: 60, top_system_distance: 80, system_dividers: None }
    }
}

} // verus!
