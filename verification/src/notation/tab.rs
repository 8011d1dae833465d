use vstd::prelude::*;
use crate::notation::figure::NoteFigure;
use crate::notation::measure::TimeSignature;
use crate::notation::pitch::{Accidental, Step};

verus! {

/// A tablature staff with its tuning and measures.
#[derive(Clone, Debug)]
pub struct TablatureStaff {
    pub string_count: u8,
    pub tuning: Vec<TuningStep>,
    /// Capo on fret 0 to 12.
    pub capo: Option<u8>,
    pub measures: Vec<TabMeasure>,
}

/// Standard six-string guitar tuning, lowest string first: E2 A2 D3 G3 B3 E4.
pub open spec fn spec_standard_guitar_tuning() -> Seq<TuningStep> {
    seq![
        TuningStep { step: Step::E, alter: Accidental::Natural, octave: 2 },
        TuningStep { step: Step::A, alter: Accidental::Natural, octave: 2 },
        TuningStep { step: Step::D, alter: Accidental::Natural, octave: 3 },
        TuningStep { step: Step::G, alter: Accidental::Natural, octave: 3 },
        TuningStep { step: Step::B, alter: Accidental::Natural, octave: 3 },
        TuningStep { step: Step::E, alter: Accidental::Natural, octave: 4 },
    ]
}

impl Default for TablatureStaff {
    /// Six strings in standard guitar tuning, no capo, no measures.
    fn default() -> (t: Self)
        ensures
            t.string_count == 6,
            t.tuning@ == spec_standard_guitar_tuning(),
            t.capo is None,
            t.measures@.len() == 0,
    {
        TablatureStaff {
            string_count: 6,
            tuning: standard_guitar_tuning(),
            capo: None,
            measures: Vec::new(),
        }
    }
}

/// Standard guitar tuning: E2 A2 D3 G3 B3 E4.
pub fn standard_guitar_tuning() -> (t: Vec<TuningStep>)
    ensures
        t@ == spec_standard_guitar_tuning(),
{
    let mut t = Vec::new();
    t.push(TuningStep { step: Step::E, alter: Accidental::Natural, octave: 2 });
    t.push(TuningStep { step: Step::A, alter: Accidental::Natural, octave: 2 });
    t.push(TuningStep { step: Step::D, alter: Accidental::Natural, octave: 3 });
    t.push(TuningStep { step: Step::G, alter: Accidental::Natural, octave: 3 });
    t.push(TuningStep { step: Step::B, alter: Accidental::Natural, octave: 3 });
    t.push(TuningStep { step: Step::E, alter: Accidental::Natural, octave: 4 });
    assert(t@ =~= spec_standard_guitar_tuning());
    t
}

/// One string's tuning: step, accidental and octave.
#[derive(Clone, Copy, PartialEq, Eq, Debug, Structural)]
pub struct TuningStep {
    pub step: Step,
    pub alter: Accidental,
    pub octave: i8,
}

/// A tablature measure.
#[derive(Clone, Debug)]
pub struct TabMeasure {
    pub time_signature: TimeSignature,
    pub elements: Vec<TabElement>,
}

/// One element of a tablature measure.
#[derive(Clone, Debug)]
pub enum TabElement {
    TabNote(TabNote),
    TabRest(TabRest),
    TabChord { notes: Vec<TabNote> },
}

/// A tablature note.
#[derive(Clone, Debug)]
pub struct TabNote {
    /// String: 1 is the highest, 6 the lowest.
    pub string: u8,
    /// Fret: 0 is the open string, 1 to 24 are fretted.
    pub fret: u8,
    pub figure: NoteFigure,
    pub dotted: u8,
    pub technique: Vec<TabTechnique>,
}

impl TabNote {
    /// A plain note on `string` at `fret`, without dots or techniques.
    pub fn new(string: u8, fret: u8, figure: NoteFigure) -> (n: Self)
        ensures
            n.string == string,
            n.fret == fret,
            n.figure == figure,
            n.dotted == 0,
            n.technique@.len() == 0,
    {
        TabNote { string, fret, figure, dotted: 0, technique: Vec::new() }
    }
}

/// A tablature rest.
#[derive(Clone, Copy, PartialEq, Eq, Debug, Structural)]
pub struct TabRest {
    pub figure: NoteFigure,
}

/// Guitar technique of a tablature note.
#[derive(Clone, Debug)]
pub enum TabTechnique {
    /// Ascending slur (hammer-on).
    HammerOn,
    /// Descending slur (pull-off).
    PullOff,
    /// Bend; `alter` is the bend in semitones as decimal text.
    Bend { alter: String, pre_bend: bool, release: bool },
    /// Slide between frets.
    Slide { kind: SlideKind },
    Vibrato,
    WideVibrato,
    Tap,
    Harmonic { kind: HarmonicKind },
    PalmMute,
    LetRing,
    /// Ghost note (in parentheses).
    GhostNote,
    /// Dead note (X).
    DeadNote,
    /// Trill up to a given fret.
    Trill { fret: u8 },
}

#[derive(Clone, Copy, PartialEq, Eq, Debug, Structural)]
pub enum SlideKind {
    /// From an undetermined note into the note.
    Into,
    /// From the note to an undetermined note.
    OutOf,
    /// Between two defined positions.
    Shift,
}

#[derive(Clone, Copy, PartialEq, Eq, Debug, Structural)]
pub enum HarmonicKind {
    Natural,
    Artificial,
    Pinch,
    Tap,
    Semi,
}

} // verus!
