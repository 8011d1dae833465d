//! Characters and texts drawn for rests, fermatas, dynamics, metronome
//! marks and tablature techniques, and which page credits the header shows.

use vstd::prelude::*;
use crate::notation::attachment::{DynamicMark, FermataShape};
use crate::notation::direction::{Direction, DirectionKind, Metronome};
use crate::notation::figure::NoteFigure;
use crate::notation::score::{Credit, CreditJustify, CreditKind, Score};
use crate::notation::tab::{HarmonicKind, TabTechnique};
use crate::text::{decimal, int_decimal};

verus! {

/// SMuFL rest glyph of a figure (U+E4E2 breve … U+E4EA 128th).
pub open spec fn spec_rest_glyph(figure: NoteFigure) -> char {
    match figure {
        NoteFigure::Breve => '\u{E4E2}',
        NoteFigure::Whole => '\u{E4E3}',
        NoteFigure::Half => '\u{E4E4}',
        NoteFigure::Quarter => '\u{E4E5}',
        NoteFigure::Eighth => '\u{E4E6}',
        NoteFigure::Sixteenth => '\u{E4E7}',
        NoteFigure::ThirtySecond => '\u{E4E8}',
        NoteFigure::SixtyFourth => '\u{E4E9}',
        NoteFigure::HundredTwentyEighth => '\u{E4EA}',
    }
}

pub fn rest_glyph(figure: NoteFigure) -> (c: char)
    ensures
        c == spec_rest_glyph(figure),
{
    match figure {
        NoteFigure::Breve => '\u{E4E2}',
        NoteFigure::Whole => '\u{E4E3}',
        NoteFigure::Half => '\u{E4E4}',
        NoteFigure::Quarter => '\u{E4E5}',
        NoteFigure::Eighth => '\u{E4E6}',
        NoteFigure::Sixteenth => '\u{E4E7}',
        NoteFigure::ThirtySecond => '\u{E4E8}',
        NoteFigure::SixtyFourth => '\u{E4E9}',
        NoteFigure::HundredTwentyEighth => '\u{E4EA}',
    }
}

/// SMuFL fermata glyph: normal, angled and square shapes above (upright) or
/// below; other shapes fall back to the normal one above.
pub fn fermata_glyph(shape: FermataShape, upright: bool) -> (c: char)
    ensures
        c == (match (shape, upright) {
            (FermataShape::Normal, true) => '\u{E4C0}',
            (FermataShape::Normal, false) => '\u{E4C1}',
            (FermataShape::Angled, true) => '\u{E4C2}',
            (FermataShape::Angled, false) => '\u{E4C3}',
            (FermataShape::Square, true) => '\u{E4C4}',
            (FermataShape::Square, false) => '\u{E4C5}',
            _ => '\u{E4C0}',
        }),
{
    match (shape, upright) {
        (FermataShape::Normal, true) => '\u{E4C0}',
        (FermataShape::Normal, false) => '\u{E4C1}',
        (FermataShape::Angled, true) => '\u{E4C2}',
        (FermataShape::Angled, false) => '\u{E4C3}',
        (FermataShape::Square, true) => '\u{E4C4}',
        (FermataShape::Square, false) => '\u{E4C5}',
        _ => '\u{E4C0}',
    }
}

/// The text of a dynamic mark: its usual abbreviation, or the name of an
/// unknown one.
pub open spec fn spec_dynamic_text(m: DynamicMark) -> Seq<char> {
    match m {
        DynamicMark::PPPP => "pppp"@,
        DynamicMark::PPP => "ppp"@,
        DynamicMark::PP => "pp"@,
        DynamicMark::P => "p"@,
        DynamicMark::MP => "mp"@,
        DynamicMark::MF => "mf"@,
        DynamicMark::F => "f"@,
        DynamicMark::FF => "ff"@,
        DynamicMark::FFF => "fff"@,
        DynamicMark::FFFF => "ffff"@,
        DynamicMark::SF => "sf"@,
        DynamicMark::SFZ => "sfz"@,
        DynamicMark::SFFZ => "sffz"@,
        DynamicMark::SFP => "sfp"@,
        DynamicMark::SFPP => "sfpp"@,
        DynamicMark::FP => "fp"@,
        DynamicMark::RF => "rf"@,
        DynamicMark::RFZ => "rfz"@,
        DynamicMark::FZ => "fz"@,
        DynamicMark::N => "n"@,
        DynamicMark::PF => "pf"@,
        DynamicMark::Other(s) => s@,
    }
}

fn dynamic_str(m: &DynamicMark) -> (s: &str)
    ensures
        s@ == spec_dynamic_text(*m),
{
    match m {
        DynamicMark::PPPP => "pppp",
        DynamicMark::PPP => "ppp",
        DynamicMark::PP => "pp",
        DynamicMark::P => "p",
        DynamicMark::MP => "mp",
        DynamicMark::MF => "mf",
        DynamicMark::F => "f",
        DynamicMark::FF => "ff",
        DynamicMark::FFF => "fff",
        DynamicMark::FFFF => "ffff",
        DynamicMark::SF => "sf",
        DynamicMark::SFZ => "sfz",
        DynamicMark::SFFZ => "sffz",
        DynamicMark::SFP => "sfp",
        DynamicMark::SFPP => "sfpp",
        DynamicMark::FP => "fp",
        DynamicMark::RF => "rf",
        DynamicMark::RFZ => "rfz",
        DynamicMark::FZ => "fz",
        DynamicMark::N => "n",
        DynamicMark::PF => "pf",
        DynamicMark::Other(s) => s.as_str(),
    }
}

pub fn dynamic_text(m: &DynamicMark) -> (s: String)
    ensures
        s@ == spec_dynamic_text(*m),
{
    String::from_str(dynamic_str(m))
}

/// Abbreviation written for a harmonic.
pub open spec fn spec_harmonic_label(k: HarmonicKind) -> Seq<char> {
    match k {
        HarmonicKind::Natural => "N.H."@,
        HarmonicKind::Artificial => "A.H."@,
        HarmonicKind::Pinch => "P.H."@,
        HarmonicKind::Tap => "T.H."@,
        HarmonicKind::Semi => "S.H."@,
    }
}

/// The text written by a tablature note for a technique, where the
/// technique is drawn as a text of fixed wording: `H`, `P`, `T`, `P.M.`,
/// the harmonic abbreviations, and `tr` with the trill's fret. Bends (whose
/// label depends on the decimal amount), slides, vibratos, let-ring lines,
/// ghost and dead notes have none.
pub open spec fn spec_technique_label(t: TabTechnique) -> Option<Seq<char>> {
    match t {
        TabTechnique::HammerOn => Some("H"@),
        TabTechnique::PullOff => Some("P"@),
        TabTechnique::Tap => Some("T"@),
        TabTechnique::PalmMute => Some("P.M."@),
        TabTechnique::Harmonic { kind } => Some(spec_harmonic_label(kind)),
        TabTechnique::Trill { fret } => Some("tr"@ + int_decimal(fret as int)),
        _ => None,
    }
}

fn harmonic_str(k: HarmonicKind) -> (s: &'static str)
    ensures
        s@ == spec_harmonic_label(k),
{
    match k {
        HarmonicKind::Natural => "N.H.",
        HarmonicKind::Artificial => "A.H.",
        HarmonicKind::Pinch => "P.H.",
        HarmonicKind::Tap => "T.H.",
        HarmonicKind::Semi => "S.H.",
    }
}

/// The text drawn for a tablature technique, if it is drawn as a text.
pub fn technique_label(t: &TabTechnique) -> (s: Option<String>)
    ensures
        match s {
            Some(x) => spec_technique_label(*t) == Some(x@),
            None => spec_technique_label(*t) is None,
        },
{
    match t {
        TabTechnique::HammerOn => Some(String::from_str("H")),
        TabTechnique::PullOff => Some(String::from_str("P")),
        TabTechnique::Tap => Some(String::from_str("T")),
        TabTechnique::PalmMute => Some(String::from_str("P.M.")),
        TabTechnique::Harmonic { kind } => Some(String::from_str(harmonic_str(*kind))),
        TabTechnique::Trill { fret } => {
            let mut s = String::from_str("tr");
            let d = decimal(*fret as i64);
            s.append(d.as_str());
            Some(s)
        },
        _ => None,
    }
}

/// The texts of `ms` joined with single spaces.
pub open spec fn joined_dynamics(ms: Seq<DynamicMark>) -> Seq<char>
    decreases ms.len(),
{
    if ms.len() == 0 {
        Seq::empty()
    } else if ms.len() == 1 {
        spec_dynamic_text(ms[0])
    } else {
        joined_dynamics(ms.drop_last()) + " "@ + spec_dynamic_text(ms.last())
    }
}

pub fn dynamics_text(ms: &[DynamicMark]) -> (s: String)
    ensures
        s@ == joined_dynamics(ms@),
{
    let mut s = String::new();
    let len = ms.len();
    let mut i: usize = 0;
    while i < len
        invariant
            len == ms@.len(),
            i <= len,
            s@ == joined_dynamics(ms@.take(i as int)),
        decreases len - i,
    {
        proof {
            assert(ms@.take(i + 1).drop_last() =~= ms@.take(i as int));
            assert(ms@.take(i + 1).last() == ms@[i as int]);
        }
        if i > 0 {
            s.append(" ");
        }
        s.append(dynamic_str(&ms[i]));
        proof {
            if i == 0 {
                assert(s@ =~= spec_dynamic_text(ms@[0]));
            }
        }
        i = i + 1;
    }
    proof {
        assert(ms@.take(len as int) =~= ms@);
    }
    s
}

/// Note character of a metronome mark: ♪ for an eighth, ♩ otherwise.
pub fn metronome_note_char(figure: NoteFigure) -> (c: char)
    ensures
        c == (if figure == NoteFigure::Eighth { '\u{266A}' } else { '\u{2669}' }),
{
    match figure {
        NoteFigure::Quarter => '\u{2669}',
        NoteFigure::Eighth => '\u{266A}',
        NoteFigure::Half => '\u{2669}',
        NoteFigure::Whole => '\u{2669}',
        _ => '\u{2669}',
    }
}

/// The first metronome mark among the directions of the first measure of
/// the first staff of the first system.
pub open spec fn spec_first_metronome(score: Score) -> Option<Metronome> {
    if score.systems@.len() == 0 || score.systems@[0].staves@.len() == 0
        || score.systems@[0].staves@[0].measures@.len() == 0 {
        None
    } else {
        first_metronome_in(direction_kinds(score.systems@[0].staves@[0].measures@[0].directions@))
    }
}

/// The kinds of the directions `ds`.
pub open spec fn direction_kinds(ds: Seq<Direction>) -> Seq<DirectionKind> {
    ds.map_values(|d: Direction| d.kind)
}

/// The first metronome mark of `ks`.
pub open spec fn first_metronome_in(ks: Seq<DirectionKind>) -> Option<Metronome>
    decreases ks.len(),
{
    if ks.len() == 0 {
        None
    } else {
        match ks[0] {
            DirectionKind::Metronome(m) => Some(m),
            _ => first_metronome_in(ks.drop_first()),
        }
    }
}

pub fn first_metronome(score: &Score) -> (r: Option<Metronome>)
    ensures
        r == spec_first_metronome(*score),
{
    if score.systems.len() == 0 || score.systems[0].staves.len() == 0 || score.systems[0].staves[0].measures.len() == 0 {
        return None;
    }
    let ds = &score.systems[0].staves[0].measures[0].directions;
    let ghost ks = direction_kinds(ds@);
    let len = ds.len();
    let mut i: usize = 0;
    proof {
        assert(ks.subrange(0, len as int) =~= ks);
    }
    while i < len
        invariant
            len == ds@.len(),
            ks == direction_kinds(ds@),
            spec_first_metronome(*score) == first_metronome_in(ks),
            i <= len,
            first_metronome_in(ks) == first_metronome_in(ks.subrange(i as int, len as int)),
        decreases len - i,
    {
        proof {
            assert(ks.subrange(i as int, len as int).drop_first() =~= ks.subrange(i + 1, len as int));
        }
        assert(ks.subrange(i as int, len as int)[0] == ds@[i as int].kind);
        if let DirectionKind::Metronome(m) = &ds[i].kind {
            assert(first_metronome_in(ks.subrange(i as int, len as int)) == Some(*m));
            return Some(*m);
        }
        i = i + 1;
    }
    None
}

/// Whether the page header shows a credit besides the title and composer
/// block: a worded credit, unless it is centred and repeats the title or
/// the composer (that block already shows them).
pub open spec fn spec_shows_credit(score: Score, credit: Credit) -> bool {
    match credit.kind {
        CreditKind::Words(t) => !(credit.justify == CreditJustify::Center
            && (t@ == score.title@ || t@ == score.composer@)),
        CreditKind::Symbol(_) => false,
    }
}

pub fn shows_credit(score: &Score, credit: &Credit) -> (b: bool)
    ensures
        b == spec_shows_credit(*score, *credit),
{
    match &credit.kind {
        CreditKind::Words(t) => {
            !(credit.justify == CreditJustify::Center
                && (crate::text::str_eq(t.as_str(), score.title.as_str())
                    || crate::text::str_eq(t.as_str(), score.composer.as_str())))
        },
        CreditKind::Symbol(_) => false,
    }
}

} // verus!
