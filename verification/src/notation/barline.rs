use vstd::prelude::*;

verus! {

/// Bar line closing a measure.
#[derive(Clone, Debug)]
pub struct Barline {
    pub style: BarStyle,
    /// Repeat direction (forward or backward).
    pub repeat: Option<RepeatDirection>,
    /// Volta bracket (first or second ending).
    pub ending: Option<Ending>,
}

impl Default for Barline {
    fn default() -> (b: Self)
        ensures
            b.style == BarStyle::Regular,
            b.repeat is None,
            b.ending is None,
    {
        Barline { style: BarStyle::Regular, repeat: None, ending: None }
    }
}

/// Visual style of a bar line.
#[derive(Clone, Copy, PartialEq, Eq, Debug, Structural)]
pub enum BarStyle {
    Regular,
    Dotted,
    Dashed,
    Heavy,
    /// Double thin line.
    LightLight,
    /// Final bar line.
    LightHeavy,
    /// Reverse final bar line.
    HeavyLight,
    HeavyHeavy,
    Tick,
    Short,
    /// No visible bar line (MusicXML bar-style "none").
    Invisible,
}

/// Repeat direction.
#[derive(Clone, Copy, PartialEq, Eq, Debug, Structural)]
pub enum RepeatDirection {
    Forward,
    Backward,
}

/// First/second ending bracket.
#[derive(Clone, Debug)]
pub struct Ending {
    /// "1", "1,2", "1-3".
    pub number: String,
    /// Text such as "D.C.".
    pub text: Option<String>,
    /// Number of measures under the bracket.
    pub length: Option<i32>,
}

} // verus!
