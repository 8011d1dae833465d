//! The MusicXML vocabularies: element names and attribute values mapped to
//! the notation model.

use vstd::prelude::*;
use crate::notation::attachment::{DynamicMark, Placement, SlurKind, TieKind};
use crate::notation::figure::NoteFigure;
use crate::notation::pitch::Step;
use crate::text::str_eq;

verus! {

/// `<type>` value of a note or rest (`breve` to `128th`); other values,
/// including `long`, `maxima` and `256th`, are not read.
pub open spec fn spec_note_type(t: Seq<char>) -> Option<NoteFigure> {
    if t == "breve"@ {
        Some(NoteFigure::Breve)
    } else if t == "whole"@ {
        Some(NoteFigure::Whole)
    } else if t == "half"@ {
        Some(NoteFigure::Half)
    } else if t == "quarter"@ {
        Some(NoteFigure::Quarter)
    } else if t == "eighth"@ {
        Some(NoteFigure::Eighth)
    } else if t == "16th"@ {
        Some(NoteFigure::Sixteenth)
    } else if t == "32nd"@ {
        Some(NoteFigure::ThirtySecond)
    } else if t == "64th"@ {
        Some(NoteFigure::SixtyFourth)
    } else if t == "128th"@ {
        Some(NoteFigure::HundredTwentyEighth)
    } else {
        None
    }
}

pub fn parse_note_type(t: &str) -> (r: Option<NoteFigure>)
    ensures
        r == spec_note_type(t@),
{
    if str_eq(t, "breve") {
        Some(NoteFigure::Breve)
    } else if str_eq(t, "whole") {
        Some(NoteFigure::Whole)
    } else if str_eq(t, "half") {
        Some(NoteFigure::Half)
    } else if str_eq(t, "quarter") {
        Some(NoteFigure::Quarter)
    } else if str_eq(t, "eighth") {
        Some(NoteFigure::Eighth)
    } else if str_eq(t, "16th") {
        Some(NoteFigure::Sixteenth)
    } else if str_eq(t, "32nd") {
        Some(NoteFigure::ThirtySecond)
    } else if str_eq(t, "64th") {
        Some(NoteFigure::SixtyFourth)
    } else if str_eq(t, "128th") {
        Some(NoteFigure::HundredTwentyEighth)
    } else {
        None
    }
}

/// Step letter (`A` to `G`).
pub open spec fn spec_step(s: Seq<char>) -> Option<Step> {
    if s == "C"@ {
        Some(Step::C)
    } else if s == "D"@ {
        Some(Step::D)
    } else if s == "E"@ {
        Some(Step::E)
    } else if s == "F"@ {
        Some(Step::F)
    } else if s == "G"@ {
        Some(Step::G)
    } else if s == "A"@ {
        Some(Step::A)
    } else if s == "B"@ {
        Some(Step::B)
    } else {
        None
    }
}

pub fn parse_step_str(s: &str) -> (r: Option<Step>)
    ensures
        r == spec_step(s@),
{
    if str_eq(s, "C") {
        Some(Step::C)
    } else if str_eq(s, "D") {
        Some(Step::D)
    } else if str_eq(s, "E") {
        Some(Step::E)
    } else if str_eq(s, "F") {
        Some(Step::F)
    } else if str_eq(s, "G") {
        Some(Step::G)
    } else if str_eq(s, "A") {
        Some(Step::A)
    } else if str_eq(s, "B") {
        Some(Step::B)
    } else {
        None
    }
}

/// Metronome `<beat-unit>`; unknown values are read as a quarter.
pub open spec fn spec_beat_unit(s: Seq<char>) -> NoteFigure {
    if s == "breve"@ || s == "long"@ {
        NoteFigure::Breve
    } else if s == "whole"@ {
        NoteFigure::Whole
    } else if s == "half"@ {
        NoteFigure::Half
    } else if s == "quarter"@ {
        NoteFigure::Quarter
    } else if s == "eighth"@ {
        NoteFigure::Eighth
    } else if s == "16th"@ {
        NoteFigure::Sixteenth
    } else if s == "32nd"@ {
        NoteFigure::ThirtySecond
    } else if s == "64th"@ {
        NoteFigure::SixtyFourth
    } else if s == "128th"@ {
        NoteFigure::HundredTwentyEighth
    } else {
        NoteFigure::Quarter
    }
}

pub fn parse_beat_unit(s: &str) -> (r: NoteFigure)
    ensures
        r == spec_beat_unit(s@),
{
    if str_eq(s, "breve") || str_eq(s, "long") {
        NoteFigure::Breve
    } else if str_eq(s, "whole") {
        NoteFigure::Whole
    } else if str_eq(s, "half") {
        NoteFigure::Half
    } else if str_eq(s, "quarter") {
        NoteFigure::Quarter
    } else if str_eq(s, "eighth") {
        NoteFigure::Eighth
    } else if str_eq(s, "16th") {
        NoteFigure::Sixteenth
    } else if str_eq(s, "32nd") {
        NoteFigure::ThirtySecond
    } else if str_eq(s, "64th") {
        NoteFigure::SixtyFourth
    } else if str_eq(s, "128th") {
        NoteFigure::HundredTwentyEighth
    } else {
        NoteFigure::Quarter
    }
}

/// The dynamic named by an element name (`pppp` ... `pf`); `None` for any
/// other name.
pub open spec fn spec_known_dynamic(name: Seq<char>) -> Option<DynamicMark> {
    if name == "pppp"@ {
        Some(DynamicMark::PPPP)
    } else if name == "ppp"@ {
        Some(DynamicMark::PPP)
    } else if name == "pp"@ {
        Some(DynamicMark::PP)
    } else if name == "p"@ {
        Some(DynamicMark::P)
    } else if name == "mp"@ {
        Some(DynamicMark::MP)
    } else if name == "mf"@ {
        Some(DynamicMark::MF)
    } else if name == "f"@ {
        Some(DynamicMark::F)
    } else if name == "ff"@ {
        Some(DynamicMark::FF)
    } else if name == "fff"@ {
        Some(DynamicMark::FFF)
    } else if name == "ffff"@ {
        Some(DynamicMark::FFFF)
    } else if name == "sf"@ {
        Some(DynamicMark::SF)
    } else if name == "sfz"@ {
        Some(DynamicMark::SFZ)
    } else if name == "sffz"@ {
        Some(DynamicMark::SFFZ)
    } else if name == "sfp"@ {
        Some(DynamicMark::SFP)
    } else if name == "sfpp"@ {
        Some(DynamicMark::SFPP)
    } else if name == "fp"@ {
        Some(DynamicMark::FP)
    } else if name == "rf"@ {
        Some(DynamicMark::RF)
    } else if name == "rfz"@ {
        Some(DynamicMark::RFZ)
    } else if name == "fz"@ {
        Some(DynamicMark::FZ)
    } else if name == "n"@ {
        Some(DynamicMark::N)
    } else if name == "pf"@ {
        Some(DynamicMark::PF)
    } else {
        None
    }
}

pub fn known_dynamic(name: &str) -> (r: Option<DynamicMark>)
    ensures
        r == spec_known_dynamic(name@),
{
    if str_eq(name, "pppp") {
        Some(DynamicMark::PPPP)
    } else if str_eq(name, "ppp") {
        Some(DynamicMark::PPP)
    } else if str_eq(name, "pp") {
        Some(DynamicMark::PP)
    } else if str_eq(name, "p") {
        Some(DynamicMark::P)
    } else if str_eq(name, "mp") {
        Some(DynamicMark::MP)
    } else if str_eq(name, "mf") {
        Some(DynamicMark::MF)
    } else if str_eq(name, "f") {
        Some(DynamicMark::F)
    } else if str_eq(name, "ff") {
        Some(DynamicMark::FF)
    } else if str_eq(name, "fff") {
        Some(DynamicMark::FFF)
    } else if str_eq(name, "ffff") {
        Some(DynamicMark::FFFF)
    } else if str_eq(name, "sf") {
        Some(DynamicMark::SF)
    } else if str_eq(name, "sfz") {
        Some(DynamicMark::SFZ)
    } else if str_eq(name, "sffz") {
        Some(DynamicMark::SFFZ)
    } else if str_eq(name, "sfp") {
        Some(DynamicMark::SFP)
    } else if str_eq(name, "sfpp") {
        Some(DynamicMark::SFPP)
    } else if str_eq(name, "fp") {
        Some(DynamicMark::FP)
    } else if str_eq(name, "rf") {
        Some(DynamicMark::RF)
    } else if str_eq(name, "rfz") {
        Some(DynamicMark::RFZ)
    } else if str_eq(name, "fz") {
        Some(DynamicMark::FZ)
    } else if str_eq(name, "n") {
        Some(DynamicMark::N)
    } else if str_eq(name, "pf") {
        Some(DynamicMark::PF)
    } else {
        None
    }
}

/// `m` is the dynamic that the element name `name` denotes: a known mark,
/// or `Other(name)` for any other name.
pub open spec fn dynamic_named(m: DynamicMark, name: Seq<char>) -> bool {
    match spec_known_dynamic(name) {
        Some(d) => m == d,
        None => m matches DynamicMark::Other(s) && s@ == name,
    }
}

/// The dynamic named `name`: a known mark or `Other(name)`.
pub fn parse_dynamic_mark(name: &str) -> (r: Option<DynamicMark>)
    ensures
        r matches Some(m) && dynamic_named(m, name@),
{
    match known_dynamic(name) {
        Some(d) => Some(d),
        None => Some(DynamicMark::Other(name.to_string())),
    }
}

/// Default line of a clef sign when `<line>` is absent: G 2, F 4, C 3, other 0.
pub open spec fn spec_default_clef_line(sign: Seq<char>) -> i32 {
    if sign == "G"@ {
        2
    } else if sign == "F"@ {
        4
    } else if sign == "C"@ {
        3
    } else {
        0
    }
}

pub fn default_clef_line(sign: &str) -> (l: i32)
    ensures
        l == spec_default_clef_line(sign@),
{
    if str_eq(sign, "G") {
        2
    } else if str_eq(sign, "F") {
        4
    } else if str_eq(sign, "C") {
        3
    } else {
        0
    }
}

/// Placement attribute: `above`, `below`, otherwise `default`.
pub open spec fn spec_placement_or(v: Option<Seq<char>>, default: Placement) -> Placement {
    if v == Some("above"@) {
        Placement::Above
    } else if v == Some("below"@) {
        Placement::Below
    } else {
        default
    }
}

pub fn placement_or(v: Option<&str>, default: Placement) -> (p: Placement)
    ensures
        p == spec_placement_or(match v { Some(s) => Some(s@), None => None }, default),
{
    match v {
        Some(s) => if str_eq(s, "above") {
            Placement::Above
        } else if str_eq(s, "below") {
            Placement::Below
        } else {
            default
        },
        None => default,
    }
}

/// Tie `type` attribute: start, stop, continue, let-ring; otherwise start.
pub open spec fn spec_tie_kind(v: Option<Seq<char>>) -> TieKind {
    if v == Some("stop"@) {
        TieKind::Stop
    } else if v == Some("continue"@) {
        TieKind::Continue
    } else if v == Some("let-ring"@) {
        TieKind::LetRing
    } else {
        TieKind::Start
    }
}

pub fn tie_kind(v: Option<&str>) -> (k: TieKind)
    ensures
        k == spec_tie_kind(match v { Some(s) => Some(s@), None => None }),
{
    match v {
        Some(s) => if str_eq(s, "stop") {
            TieKind::Stop
        } else if str_eq(s, "continue") {
            TieKind::Continue
        } else if str_eq(s, "let-ring") {
            TieKind::LetRing
        } else {
            TieKind::Start
        },
        None => TieKind::Start,
    }
}

/// Slur `type` attribute: start, stop, continue; otherwise start.
pub open spec fn spec_slur_kind(v: Option<Seq<char>>) -> SlurKind {
    if v == Some("stop"@) {
        SlurKind::Stop
    } else if v == Some("continue"@) {
        SlurKind::Continue
    } else {
        SlurKind::Start
    }
}

pub fn slur_kind(v: Option<&str>) -> (k: SlurKind)
    ensures
        k == spec_slur_kind(match v { Some(s) => Some(s@), None => None }),
{
    match v {
        Some(s) => if str_eq(s, "stop") {
            SlurKind::Stop
        } else if str_eq(s, "continue") {
            SlurKind::Continue
        } else {
            SlurKind::Start
        },
        None => SlurKind::Start,
    }
}

} // verus!
