use vstd::prelude::*;
use vstd::arithmetic::power2::pow2;

verus! {

/// Rhythmic figure: the written relative duration of a note or rest.
#[derive(Clone, Copy, PartialEq, Eq, Debug, Structural)]
pub enum NoteFigure {
    /// Double whole note, SMuFL U+E0A1.
    Breve,
    /// Whole note, SMuFL U+E1D2.
    Whole,
    /// Half note, SMuFL U+E1D3.
    Half,
    /// Quarter note, SMuFL U+E1D5.
    Quarter,
    /// Eighth note, SMuFL U+E1D7.
    Eighth,
    /// Sixteenth note, SMuFL U+E1D9.
    Sixteenth,
    /// Thirty-second note, SMuFL U+E1DB.
    ThirtySecond,
    /// Sixty-fourth note, SMuFL U+E1DD.
    SixtyFourth,
    /// Hundred-twenty-eighth note (drawn with the sixty-fourth glyph).
    HundredTwentyEighth,
}

/// Spanish name of a figure.
pub open spec fn figure_name_es(f: NoteFigure) -> Seq<char> {
    match f {
        NoteFigure::Breve => "Cuadrada"@,
        NoteFigure::Whole => "Redonda"@,
        NoteFigure::Half => "Blanca"@,
        NoteFigure::Quarter => "Negra"@,
        NoteFigure::Eighth => "Corchea"@,
        NoteFigure::Sixteenth => "Semicorchea"@,
        NoteFigure::ThirtySecond => "Fusa"@,
        NoteFigure::SixtyFourth => "Semifusa"@,
        NoteFigure::HundredTwentyEighth => "Garrapatea"@,
    }
}

/// Number of flags (or beams) the figure carries.
pub open spec fn figure_flags(f: NoteFigure) -> int {
    match f {
        NoteFigure::Breve => 0,
        NoteFigure::Whole => 0,
        NoteFigure::Half => 0,
        NoteFigure::Quarter => 0,
        NoteFigure::Eighth => 1,
        NoteFigure::Sixteenth => 2,
        NoteFigure::ThirtySecond => 3,
        NoteFigure::SixtyFourth => 4,
        NoteFigure::HundredTwentyEighth => 5,
    }
}

/// Law of flags: figures of a quarter note or longer carry no flag, the
/// eighth note carries one, and each figure that lasts half as long as a
/// flagged one carries one flag more; so a figure of `2^-k` quarters carries
/// `k` flags (the sixteenth 2, the thirty-second 3, ...). Durations are taken
/// with 64 divisions per quarter, where every figure has an exact length.
pub proof fn lemma_flags_halve_duration(f: NoteFigure, g: NoteFigure)
    ensures
        figure_flags(f) == 0 <==> figure_duration(f, 64) >= 64,
        figure_duration(f, 64) == 32 ==> figure_flags(f) == 1,
        figure_duration(f, 64) < 64 && figure_duration(g, 64) * 2 == figure_duration(f, 64)
            ==> figure_flags(g) == figure_flags(f) + 1,
        figure_flags(f) > 0 ==> figure_duration(f, 64) * pow2(figure_flags(f) as nat) == 64,
{
    vstd::arithmetic::power2::lemma2_to64();
    match f {
        NoteFigure::Eighth => assert(figure_duration(f, 64) * pow2(1) == 64),
        NoteFigure::Sixteenth => assert(figure_duration(f, 64) * pow2(2) == 64),
        NoteFigure::ThirtySecond => assert(figure_duration(f, 64) * pow2(3) == 64),
        NoteFigure::SixtyFourth => assert(figure_duration(f, 64) * pow2(4) == 64),
        NoteFigure::HundredTwentyEighth => assert(figure_duration(f, 64) * pow2(5) == 64),
        _ => {},
    }
}

/// Duration of the figure in divisions, `divisions` being one quarter note;
/// shorter figures divide with truncation.
pub open spec fn figure_duration(f: NoteFigure, divisions: int) -> int {
    match f {
        NoteFigure::Breve => divisions * 8,
        NoteFigure::Whole => divisions * 4,
        NoteFigure::Half => divisions * 2,
        NoteFigure::Quarter => divisions,
        NoteFigure::Eighth => divisions / 2,
        NoteFigure::Sixteenth => divisions / 4,
        NoteFigure::ThirtySecond => divisions / 8,
        NoteFigure::SixtyFourth => divisions / 16,
        NoteFigure::HundredTwentyEighth => divisions / 32,
    }
}

/// Irregular grouping (triplet, quintuplet, ...): `actual_notes` sound in the
/// time of `normal_notes`.
#[derive(Clone, Copy, PartialEq, Eq, Debug, Structural)]
pub struct TimeModification {
    pub actual_notes: u32,
    pub normal_notes: u32,
}

impl NoteFigure {
    /// SMuFL glyph of the whole figure (notehead, stem and flags).
    pub fn glyph(self) -> (g: char)
        ensures
            g == (match self {
                NoteFigure::Breve => '\u{E0A1}',
                NoteFigure::Whole => '\u{E1D2}',
                NoteFigure::Half => '\u{E1D3}',
                NoteFigure::Quarter => '\u{E1D5}',
                NoteFigure::Eighth => '\u{E1D7}',
                NoteFigure::Sixteenth => '\u{E1D9}',
                NoteFigure::ThirtySecond => '\u{E1DB}',
                NoteFigure::SixtyFourth => '\u{E1DD}',
                NoteFigure::HundredTwentyEighth => '\u{E1DD}',
            }),
    {
        match self {
            NoteFigure::Breve => '\u{E0A1}',
            NoteFigure::Whole => '\u{E1D2}',
            NoteFigure::Half => '\u{E1D3}',
            NoteFigure::Quarter => '\u{E1D5}',
            NoteFigure::Eighth => '\u{E1D7}',
            NoteFigure::Sixteenth => '\u{E1D9}',
            NoteFigure::ThirtySecond => '\u{E1DB}',
            NoteFigure::SixtyFourth => '\u{E1DD}',
            NoteFigure::HundredTwentyEighth => '\u{E1DD}',
        }
    }

    /// SMuFL glyph of the bare notehead (no stem, no flag).
    pub fn notehead_glyph(self) -> (g: char)
        ensures
            g == (match self {
                NoteFigure::Breve => '\u{E0A1}',
                NoteFigure::Whole => '\u{E0A2}',
                NoteFigure::Half => '\u{E0A3}',
                _ => '\u{E0A4}',
            }),
    {
        match self {
            NoteFigure::Breve => '\u{E0A1}',
            NoteFigure::Whole => '\u{E0A2}',
            NoteFigure::Half => '\u{E0A3}',
            _ => '\u{E0A4}',
        }
    }

    /// Spanish name of the figure.
    pub fn name_es(self) -> (s: &'static str)
        ensures
            s@ == figure_name_es(self),
    {
        match self {
            NoteFigure::Breve => "Cuadrada",
            NoteFigure::Whole => "Redonda",
            NoteFigure::Half => "Blanca",
            NoteFigure::Quarter => "Negra",
            NoteFigure::Eighth => "Corchea",
            NoteFigure::Sixteenth => "Semicorchea",
            NoteFigure::ThirtySecond => "Fusa",
            NoteFigure::SixtyFourth => "Semifusa",
            NoteFigure::HundredTwentyEighth => "Garrapatea",
        }
    }

    /// English name of the figure.
    pub fn name_en(self) -> (s: &'static str)
        ensures
            s@ == (match self {
                NoteFigure::Breve => "Breve"@,
                NoteFigure::Whole => "Whole"@,
                NoteFigure::Half => "Half"@,
                NoteFigure::Quarter => "Quarter"@,
                NoteFigure::Eighth => "Eighth"@,
                NoteFigure::Sixteenth => "Sixteenth"@,
                NoteFigure::ThirtySecond => "Thirty-second"@,
                NoteFigure::SixtyFourth => "Sixty-fourth"@,
                NoteFigure::HundredTwentyEighth => "Hundred-twenty-eighth"@,
            }),
    {
        match self {
            NoteFigure::Breve => "Breve",
            NoteFigure::Whole => "Whole",
            NoteFigure::Half => "Half",
            NoteFigure::Quarter => "Quarter",
            NoteFigure::Eighth => "Eighth",
            NoteFigure::Sixteenth => "Sixteenth",
            NoteFigure::ThirtySecond => "Thirty-second",
            NoteFigure::SixtyFourth => "Sixty-fourth",
            NoteFigure::HundredTwentyEighth => "Hundred-twenty-eighth",
        }
    }

    /// All figures, from the longest to the shortest.
    pub fn all() -> (a: [NoteFigure; 9])
        ensures
            a@ == seq![
                NoteFigure::Breve,
                NoteFigure::Whole,
                NoteFigure::Half,
                NoteFigure::Quarter,
                NoteFigure::Eighth,
                NoteFigure::Sixteenth,
                NoteFigure::ThirtySecond,
                NoteFigure::SixtyFourth,
                NoteFigure::HundredTwentyEighth,
            ],
    {
        let a = [
            NoteFigure::Breve,
            NoteFigure::Whole,
            NoteFigure::Half,
            NoteFigure::Quarter,
            NoteFigure::Eighth,
            NoteFigure::Sixteenth,
            NoteFigure::ThirtySecond,
            NoteFigure::SixtyFourth,
            NoteFigure::HundredTwentyEighth,
        ];
        assert(a@ =~= seq![
            NoteFigure::Breve,
            NoteFigure::Whole,
            NoteFigure::Half,
            NoteFigure::Quarter,
            NoteFigure::Eighth,
            NoteFigure::Sixteenth,
            NoteFigure::ThirtySecond,
            NoteFigure::SixtyFourth,
            NoteFigure::HundredTwentyEighth,
        ]);
        a
    }

    /// Number of flags: 0 means a bare stem (or no stem), 1 and more are flags.
    pub fn flag_count(self) -> (n: u8)
        ensures
            n == figure_flags(self),
    {
        match self {
            NoteFigure::Breve => 0,
            NoteFigure::Whole => 0,
            NoteFigure::Half => 0,
            NoteFigure::Quarter => 0,
            NoteFigure::Eighth => 1,
            NoteFigure::Sixteenth => 2,
            NoteFigure::ThirtySecond => 3,
            NoteFigure::SixtyFourth => 4,
            NoteFigure::HundredTwentyEighth => 5,
        }
    }

    /// Duration in divisions, where `divisions` is the length of a quarter note.
    pub fn duration_divisions(self, divisions: u32) -> (d: u32)
        requires
            figure_duration(self, divisions as int) <= u32::MAX,
        ensures
            d == figure_duration(self, divisions as int),
    {
        match self {
            NoteFigure::Breve => divisions * 8,
            NoteFigure::Whole => divisions * 4,
            NoteFigure::Half => divisions * 2,
            NoteFigure::Quarter => divisions,
            NoteFigure::Eighth => divisions / 2,
            NoteFigure::Sixteenth => divisions / 4,
            NoteFigure::ThirtySecond => divisions / 8,
            NoteFigure::SixtyFourth => divisions / 16,
            NoteFigure::HundredTwentyEighth => divisions / 32,
        }
    }
}

} // verus!
