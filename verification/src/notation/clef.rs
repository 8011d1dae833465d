use vstd::prelude::*;

verus! {

/// Musical clef: fixes which pitch sits on which staff line.
#[derive(Clone, Copy, PartialEq, Eq, Debug, Structural)]
pub enum Clef {
    /// G clef (treble), SMuFL U+E050.
    Treble,
    /// F clef (bass), SMuFL U+E062.
    Bass,
    /// C clef on the third line, SMuFL U+E05C.
    Alto,
    /// C clef on the fourth line, SMuFL U+E05C.
    Tenor,
    /// Neutral percussion clef, SMuFL U+E069.
    Percussion,
    /// Tablature clef, SMuFL U+E06D.
    Tab,
}

/// Staff line (1 = bottom) on which the clef sits by default.
pub open spec fn clef_default_line(c: Clef) -> i8 {
    match c {
        Clef::Treble => 2,
        Clef::Bass => 4,
        Clef::Alto => 3,
        Clef::Tenor => 4,
        Clef::Percussion => 3,
        Clef::Tab => 5,
    }
}

/// Diatonic index (C0 = 0, D0 = 1, ...) of the pitch on the clef's middle line.
pub open spec fn clef_reference(c: Clef) -> int {
    match c {
        Clef::Treble => 34,
        Clef::Bass => 22,
        Clef::Alto => 28,
        Clef::Tenor => 28,
        Clef::Percussion => 28,
        Clef::Tab => 28,
    }
}

impl Clef {
    /// SMuFL glyph of the clef (drawn with the Leland font).
    pub fn glyph(self) -> (g: char)
        ensures
            g == (match self {
                Clef::Treble => '\u{E050}',
                Clef::Bass => '\u{E062}',
                Clef::Alto => '\u{E05C}',
                Clef::Tenor => '\u{E05C}',
                Clef::Percussion => '\u{E069}',
                Clef::Tab => '\u{E06D}',
            }),
    {
        match self {
            Clef::Treble => '\u{E050}',
            Clef::Bass => '\u{E062}',
            Clef::Alto => '\u{E05C}',
            Clef::Tenor => '\u{E05C}',
            Clef::Percussion => '\u{E069}',
            Clef::Tab => '\u{E06D}',
        }
    }

    /// Spanish name of the clef.
    pub fn name_es(self) -> (s: &'static str)
        ensures
            s@ == (match self {
                Clef::Treble => "Sol"@,
                Clef::Bass => "Fa"@,
                Clef::Alto => "Do en tercera"@,
                Clef::Tenor => "Do en cuarta"@,
                Clef::Percussion => "Percusión"@,
                Clef::Tab => "Tablatura"@,
            }),
    {
        match self {
            Clef::Treble => "Sol",
            Clef::Bass => "Fa",
            Clef::Alto => "Do en tercera",
            Clef::Tenor => "Do en cuarta",
            Clef::Percussion => "Percusión",
            Clef::Tab => "Tablatura",
        }
    }

    /// English name of the clef.
    pub fn name_en(self) -> (s: &'static str)
        ensures
            s@ == (match self {
                Clef::Treble => "Treble"@,
                Clef::Bass => "Bass"@,
                Clef::Alto => "Alto"@,
                Clef::Tenor => "Tenor"@,
                Clef::Percussion => "Percussion"@,
                Clef::Tab => "Tablature"@,
            }),
    {
        match self {
            Clef::Treble => "Treble",
            Clef::Bass => "Bass",
            Clef::Alto => "Alto",
            Clef::Tenor => "Tenor",
            Clef::Percussion => "Percussion",
            Clef::Tab => "Tablature",
        }
    }

    /// Default staff line of the clef (1 to 5, counted from the bottom).
    pub fn default_line(self) -> (l: i8)
        ensures
            l == clef_default_line(self),
            1 <= l <= 5,
    {
        match self {
            Clef::Treble => 2,
            Clef::Bass => 4,
            Clef::Alto => 3,
            Clef::Tenor => 4,
            Clef::Percussion => 3,
            Clef::Tab => 5,
        }
    }

    /// Diatonic index of the reference (middle) line of the staff.
    pub fn reference_diatonic(self) -> (d: i32)
        ensures
            d == clef_reference(self),
    {
        match self {
            Clef::Treble => 34,
            Clef::Bass => 22,
            Clef::Alto => 28,
            Clef::Tenor => 28,
            Clef::Percussion => 28,
            Clef::Tab => 28,
        }
    }
}

} // verus!
