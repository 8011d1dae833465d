use vstd::prelude::*;
use crate::notation::attachment::{DynamicMark, Placement};
use crate::notation::figure::NoteFigure;

verus! {

/// A measure-level direction (dynamics, words, rehearsal marks, ...).
#[derive(Clone, Debug)]
pub struct Direction {
    /// Index, in the measure's elements, of the note, rest or chord the
    /// direction precedes.
    pub element_index: usize,
    pub placement: Placement,
    pub staff: u8,
    pub kind: DirectionKind,
}

#[derive(Clone, Debug)]
pub enum DirectionKind {
    Dynamics(Vec<DynamicMark>),
    Wedge(Wedge),
    Words(String),
    Rehearsal(String),
    Metronome(Metronome),
    OctaveShift(OctaveShift),
    Pedal(Pedal),
    Dashes(Dashes),
    Bracket(Bracket),
}

/// Hairpin (crescendo or diminuendo).
#[derive(Clone, Copy, PartialEq, Eq, Debug, Structural)]
pub struct Wedge {
    pub kind: WedgeKind,
    pub niente: bool,
    /// Opening of the hairpin, in tenths.
    pub spread: u32,
}

#[derive(Clone, Copy, PartialEq, Eq, Debug, Structural)]
pub enum WedgeKind {
    Crescendo,
    Diminuendo,
}

/// Metronome mark.
#[derive(Clone, Copy, PartialEq, Eq, Debug, Structural)]
pub struct Metronome {
    pub beat_unit: NoteFigure,
    pub per_minute: u16,
    pub parentheses: bool,
}

/// Octave shift (8va, 8vb, 15ma, 15mb).
#[derive(Clone, Copy, PartialEq, Eq, Debug, Structural)]
pub struct OctaveShift {
    /// 8 or 15.
    pub size: u8,
    pub kind: OctaveShiftKind,
}

#[derive(Clone, Copy, PartialEq, Eq, Debug, Structural)]
pub enum OctaveShiftKind {
    Up,
    Down,
    Stop,
}

/// Pedal marking.
#[derive(Clone, Copy, PartialEq, Eq, Debug, Structural)]
pub struct Pedal {
    pub kind: PedalKind,
    pub line: bool,
}

#[derive(Clone, Copy, PartialEq, Eq, Debug, Structural)]
pub enum PedalKind {
    Start,
    Stop,
    Change,
    Continue,
    Resume,
}

/// Dashed extension line.
#[derive(Clone, Copy, PartialEq, Eq, Debug, Structural)]
pub struct Dashes {
    pub kind: DashesKind,
}

#[derive(Clone, Copy, PartialEq, Eq, Debug, Structural)]
pub enum DashesKind {
    Start,
    Stop,
    Continue,
}

/// Bracket line over a passage.
#[derive(Clone, Copy, PartialEq, Eq, Debug, Structural)]
pub struct Bracket {
    pub kind: BracketKind,
    pub line_end: LineEnd,
}

#[derive(Clone, Copy, PartialEq, Eq, Debug, Structural)]
pub enum BracketKind {
    Start,
    Stop,
    Continue,
}

#[derive(Clone, Copy, PartialEq, Eq, Debug, Structural)]
pub enum LineEnd {
    Up,
    Down,
    Both,
    /// No hook at the end.
    Plain,
    Arrow,
}

} // verus!
