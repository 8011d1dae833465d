use vstd::prelude::*;
use crate::notation::attachment::NoteAttachment;
use crate::notation::figure::{NoteFigure, TimeModification};
use crate::notation::lyric::Lyric;
use crate::notation::pitch::{Accidental, Pitch, Step};

verus! {

/// Stem direction.
#[derive(Clone, Copy, PartialEq, Eq, Debug, Structural)]
pub enum StemDirection {
    Up,
    Down,
}

/// A note: pitch, figure and dots, with its markings and lyrics.
#[derive(Clone, Debug)]
pub struct Note {
    pub pitch: Pitch,
    pub figure: NoteFigure,
    pub dotted: u8,
    /// Irregular grouping (triplet, ...) that changes the sounding length.
    pub time_modification: Option<TimeModification>,
    pub accidental_override: Option<Accidental>,
    pub stem_direction: StemDirection,
    pub grace: bool,
    pub chord: bool,
    pub attachments: Option<NoteAttachment>,
    /// Lyrics sung on this note.
    pub lyrics: Vec<Lyric>,
}

impl Default for Note {
    /// A plain quarter-note middle C.
    fn default() -> (n: Self)
        ensures
            n.pitch == (Pitch { step: Step::C, accidental: Accidental::Natural, octave: 4 }),
            n.figure == NoteFigure::Quarter,
            n.dotted == 0,
            n.time_modification is None,
            n.accidental_override is None,
            n.stem_direction == StemDirection::Up,
            !n.grace,
            !n.chord,
            n.attachments is None,
            n.lyrics@.len() == 0,
    {
        Note {
            pitch: Pitch { step: Step::C, accidental: Accidental::Natural, octave: 4 },
            figure: NoteFigure::Quarter,
            dotted: 0,
            time_modification: None,
            accidental_override: None,
            stem_direction: StemDirection::Up,
            grace: false,
            chord: false,
            attachments: None,
            lyrics: Vec::new(),
        }
    }
}

} // verus!
