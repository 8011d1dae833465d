//! Which view of a document the window shows.

use vstd::prelude::*;

verus! {

/// The active view: the score (default) or the theme map.
#[derive(Clone, Copy, PartialEq, Eq, Debug, Structural)]
pub enum ViewMode {
    Score,
    ThemeMap,
}

impl ViewMode {
    /// The other view, as the toolbar toggle switches.
    pub fn toggled(self) -> (v: ViewMode)
        ensures
            v != self,
            v.toggled_spec() == self,
            v == self.toggled_spec(),
    {
        match self {
            ViewMode::Score => ViewMode::ThemeMap,
            ViewMode::ThemeMap => ViewMode::Score,
        }
    }

    pub open spec fn toggled_spec(self) -> ViewMode {
        match self {
            ViewMode::Score => ViewMode::ThemeMap,
            ViewMode::ThemeMap => ViewMode::Score,
        }
    }

    /// Icon of the toggle: the view it leads back to (a score while the map
    /// is shown, a map otherwise).
    pub fn toggle_icon(self) -> (s: &'static str)
        ensures
            s@ == (match self {
                ViewMode::ThemeMap => "🎼"@,
                ViewMode::Score => "🗺️"@,
            }),
    {
        match self {
            ViewMode::ThemeMap => "🎼",
            ViewMode::Score => "🗺️",
        }
    }
}

} // verus!
