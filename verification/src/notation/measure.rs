use vstd::prelude::*;
use crate::notation::barline::{Barline, Ending};
use crate::notation::direction::Direction;
use crate::notation::key::KeySignature;
use crate::notation::multirest::MultipleRest;
use crate::notation::note::Note;
use crate::notation::rest::Rest;

verus! {

/// How a time signature is drawn.
#[derive(Clone, Copy, PartialEq, Eq, Debug, Structural)]
pub enum TimeSignatureStyle {
    /// 4/4, 3/4, ...
    Numeric,
    /// C, SMuFL U+E08A.
    Common,
    /// Cut time, SMuFL U+E08B.
    Cut,
}

/// Time signature.
#[derive(Clone, Copy, PartialEq, Eq, Debug, Structural)]
pub struct TimeSignature {
    pub numerator: u8,
    pub denominator: u8,
    pub style: TimeSignatureStyle,
}

/// One element of a measure.
#[derive(Clone, Debug)]
pub enum MeasureElement {
    Note(Note),
    Rest(Rest),
    Chord(Vec<Note>),
    Backup(u32),
    Forward(u32),
    MultipleRest(MultipleRest),
}

/// A measure with its meter, key and elements.
#[derive(Clone, Debug)]
pub struct Measure {
    pub number: String,
    pub time_signature: TimeSignature,
    pub key_signature: KeySignature,
    pub elements: Vec<MeasureElement>,
    pub barline: Barline,
    pub ending: Option<Ending>,
    /// Measure-level directions: dynamics, words, rehearsal marks, ...
    pub directions: Vec<Direction>,
    /// Divisions per quarter note (MusicXML `<divisions>`), inherited from the
    /// last value seen.
    pub divisions: u32,
    /// The source asks for a new system before this measure.
    pub system_break: bool,
    /// Chord symbol shown over the measure, if any.
    pub chord_symbol: Option<String>,
}

} // verus!
