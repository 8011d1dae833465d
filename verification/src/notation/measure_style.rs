use vstd::prelude::*;
use crate::notation::figure::NoteFigure;

verus! {

/// Repeat-measure or slash notation.
#[derive(Clone, Debug)]
pub enum MeasureStyle {
    /// Measure repeat sign (%), SMuFL U+E500.
    RepeatPercent,
    /// Beat repeat: a single slash.
    BeatRepeat,
    /// Slash notation: figures without a defined pitch.
    Slash(Vec<SlashNote>),
}

/// Slash note (diagonal notehead, usually stemless).
#[derive(Clone, Copy, PartialEq, Eq, Debug, Structural)]
pub struct SlashNote {
    pub figure: NoteFigure,
    pub dotted: bool,
}

} // verus!
