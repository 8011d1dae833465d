use vstd::prelude::*;
use vstd::string::StringExecFns;
use crate::notation::clef::{clef_reference, Clef};

verus! {

/// Accidental of a note.
#[derive(Clone, Copy, PartialEq, Eq, Debug, Structural)]
pub enum Accidental {
    Natural,
    Sharp,
    Flat,
    DoubleSharp,
    DoubleFlat,
}

/// Semitone offset of an accidental.
pub open spec fn accidental_offset(a: Accidental) -> int {
    match a {
        Accidental::Natural => 0,
        Accidental::Sharp => 1,
        Accidental::Flat => -1,
        Accidental::DoubleSharp => 2,
        Accidental::DoubleFlat => -2,
    }
}

impl Accidental {
    /// SMuFL glyph of the accidental.
    pub fn glyph(self) -> (g: char)
        ensures
            g == (match self {
                Accidental::Natural => '\u{E261}',
                Accidental::Sharp => '\u{E262}',
                Accidental::Flat => '\u{E260}',
                Accidental::DoubleSharp => '\u{E264}',
                Accidental::DoubleFlat => '\u{E266}',
            }),
    {
        match self {
            Accidental::Natural => '\u{E261}',
            Accidental::Sharp => '\u{E262}',
            Accidental::Flat => '\u{E260}',
            Accidental::DoubleSharp => '\u{E264}',
            Accidental::DoubleFlat => '\u{E266}',
        }
    }

    /// Semitones added by the accidental: natural 0, sharp +1, flat -1,
    /// double sharp +2, double flat -2.
    pub fn alter_semitones(self) -> (s: i8)
        ensures
            s == accidental_offset(self),
    {
        match self {
            Accidental::Natural => 0,
            Accidental::Sharp => 1,
            Accidental::Flat => -1,
            Accidental::DoubleSharp => 2,
            Accidental::DoubleFlat => -2,
        }
    }
}

/// Scale degree (C, D, E, F, G, A, B).
#[derive(Clone, Copy, PartialEq, Eq, Debug, Structural)]
pub enum Step {
    C,
    D,
    E,
    F,
    G,
    A,
    B,
}

/// Semitones of a step above C.
pub open spec fn step_semitones(s: Step) -> int {
    match s {
        Step::C => 0,
        Step::D => 2,
        Step::E => 4,
        Step::F => 5,
        Step::G => 7,
        Step::A => 9,
        Step::B => 11,
    }
}

/// Position of a step inside the octave (C = 0 ... B = 6).
pub open spec fn step_index(s: Step) -> int {
    match s {
        Step::C => 0,
        Step::D => 1,
        Step::E => 2,
        Step::F => 3,
        Step::G => 4,
        Step::A => 5,
        Step::B => 6,
    }
}

/// Absolute pitch: step, accidental and octave (octave 4 holds middle C).
#[derive(Clone, Copy, PartialEq, Eq, Debug, Structural)]
pub struct Pitch {
    pub step: Step,
    pub accidental: Accidental,
    /// 0 = sub-contra, 4 = middle C.
    pub octave: i8,
}

/// Absolute diatonic index: C0 = 0, D0 = 1, ..., B0 = 6, C1 = 7, ...
pub open spec fn diatonic(p: Pitch) -> int {
    step_index(p.step) + 7 * p.octave
}

/// Spanish name of a pitch (for example "Do sostenido").
pub open spec fn pitch_name_es(p: Pitch) -> Seq<char> {
    let step = match p.step {
        Step::C => "Do"@,
        Step::D => "Re"@,
        Step::E => "Mi"@,
        Step::F => "Fa"@,
        Step::G => "Sol"@,
        Step::A => "La"@,
        Step::B => "Si"@,
    };
    let accidental = match p.accidental {
        Accidental::Natural => ""@,
        Accidental::Sharp => " sostenido"@,
        Accidental::Flat => " bemol"@,
        Accidental::DoubleSharp => " doble sostenido"@,
        Accidental::DoubleFlat => " doble bemol"@,
    };
    step + accidental
}

/// MIDI number as an unbounded integer (middle C = 60).
pub open spec fn midi_value(p: Pitch) -> int {
    12 * (p.octave + 1) + step_semitones(p.step) + accidental_offset(p.accidental)
}

/// The pitches whose MIDI computation stays within `i8` at every step.
pub open spec fn midi_in_range(p: Pitch) -> bool {
    &&& -11 <= p.octave <= 9
    &&& -128 <= 12 * (p.octave + 1) + step_semitones(p.step) <= 127
    &&& -128 <= midi_value(p) <= 127
}

impl Pitch {
    /// Position on the staff relative to the clef's middle line, in steps
    /// (one line or one space). Treble: B4 = 0; bass: D3 = 0. Positive is higher.
    pub fn staff_position(&self, clef: Clef) -> (pos: i8)
        ensures
            pos == (diatonic(*self) - clef_reference(clef)) as i8,
    {
        let d = self.diatonic_index();
        let r = clef.reference_diatonic();
        (d - r) as i8
    }

    /// Whether `midi` can compute this pitch's number without leaving `i8`.
    pub fn midi_computable(&self) -> (b: bool)
        ensures
            b == midi_in_range(*self),
    {
        if self.octave < -11 || self.octave > 9 {
            return false;
        }
        let step_semis: i16 = match self.step {
            Step::C => 0,
            Step::D => 2,
            Step::E => 4,
            Step::F => 5,
            Step::G => 7,
            Step::A => 9,
            Step::B => 11,
        };
        let base: i16 = 12 * (self.octave as i16 + 1) + step_semis;
        let v: i16 = base + self.accidental.alter_semitones() as i16;
        -128 <= base && base <= 127 && -128 <= v && v <= 127
    }

    /// MIDI number (middle C = 60).
    pub fn midi(&self) -> (m: u8)
        requires
            midi_in_range(*self),
        ensures
            m == midi_value(*self) as u8,
            0 <= midi_value(*self) ==> m == midi_value(*self),
    {
        let step_semis: i8 = match self.step {
            Step::C => 0,
            Step::D => 2,
            Step::E => 4,
            Step::F => 5,
            Step::G => 7,
            Step::A => 9,
            Step::B => 11,
        };
        let acc: i8 = self.accidental.alter_semitones();
        let v: i8 = 12 * (self.octave + 1) + step_semis + acc;
        v as u8
    }

    /// Spanish name of the pitch (for example "Do sostenido").
    pub fn name_es(&self) -> (s: String)
        ensures
            s@ == pitch_name_es(*self),
    {
        let step_name = match self.step {
            Step::C => "Do",
            Step::D => "Re",
            Step::E => "Mi",
            Step::F => "Fa",
            Step::G => "Sol",
            Step::A => "La",
            Step::B => "Si",
        };
        let accidental_name = match self.accidental {
            Accidental::Natural => "",
            Accidental::Sharp => " sostenido",
            Accidental::Flat => " bemol",
            Accidental::DoubleSharp => " doble sostenido",
            Accidental::DoubleFlat => " doble bemol",
        };
        let mut s = String::from_str(step_name);
        s.append(accidental_name);
        s
    }

    /// Absolute diatonic index: C0 = 0, D0 = 1, ..., B0 = 6, C1 = 7, ...
    pub fn diatonic_index(&self) -> (d: i32)
        ensures
            d == diatonic(*self),
    {
        let step_idx: i32 = match self.step {
            Step::C => 0,
            Step::D => 1,
            Step::E => 2,
            Step::F => 3,
            Step::G => 4,
            Step::A => 5,
            Step::B => 6,
        };
        step_idx + 7 * (self.octave as i32)
    }
}

} // verus!
