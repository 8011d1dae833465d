//! Playback decisions: which notes sound, how loud, and for what share of
//! their written length. The timeline itself (seconds) is built around these
//! by the player.

use vstd::prelude::*;
use crate::notation::attachment::{Articulation, DynamicMark, Slur, SlurKind, Tie, TieKind};
use crate::notation::direction::{Direction, DirectionKind};
use crate::notation::note::Note;
use crate::notation::pitch::{midi_in_range, midi_value, step_semitones, Accidental, Pitch};

verus! {

/// A MIDI-like event.
#[derive(Clone, Copy, PartialEq, Eq, Debug, Structural)]
pub enum EventKind {
    NoteOn { midi: u8, velocity: u8 },
    NoteOff { midi: u8 },
}

/// Why playback could not start.
#[derive(Debug)]
pub enum AudioError {
    /// The synthesis engine could not be created.
    EngineInit,
    /// The instrument file is missing or could not be loaded.
    InstrumentLoad(String),
    /// The audio output device could not be opened.
    OutputDevice(String),
}

impl AudioError {
    /// The message shown to the user (in Spanish).
    pub fn message(&self) -> (s: String)
        ensures
            s@ == (match *self {
                AudioError::EngineInit => "no se pudo inicializar el motor de audio"@,
                AudioError::InstrumentLoad(p) => "no se pudo cargar el instrumento: "@ + p@,
                AudioError::OutputDevice(m) => "error de dispositivo de audio: "@ + m@,
            }),
    {
        match self {
            AudioError::EngineInit => String::from_str("no se pudo inicializar el motor de audio"),
            AudioError::InstrumentLoad(p) => {
                let mut s = String::from_str("no se pudo cargar el instrumento: ");
                s.append(p.as_str());
                s
            },
            AudioError::OutputDevice(m) => {
                let mut s = String::from_str("error de dispositivo de audio: ");
                s.append(m.as_str());
                s
            },
        }
    }
}

/// Velocity used until a dynamic says otherwise (mf).
pub const DEFAULT_VELOCITY: u8 = 80;

/// Share of the written length that sounds, in thousandths, for a note with
/// no slur or articulation: a small gap keeps plain notes from running legato.
pub const DEFAULT_GATE: u16 = 900;

/// MIDI velocity of a dynamic mark (mf = 80, the General MIDI default).
pub open spec fn spec_dynamic_velocity(m: DynamicMark) -> u8 {
    match m {
        DynamicMark::PPPP => 16,
        DynamicMark::PPP => 24,
        DynamicMark::PP => 33,
        DynamicMark::P => 49,
        DynamicMark::MP => 64,
        DynamicMark::MF => 80,
        DynamicMark::F => 96,
        DynamicMark::FF => 112,
        DynamicMark::FFF => 120,
        DynamicMark::FFFF => 127,
        DynamicMark::SF | DynamicMark::SFZ | DynamicMark::SFFZ | DynamicMark::FZ | DynamicMark::RFZ => 120,
        DynamicMark::SFP | DynamicMark::SFPP | DynamicMark::FP => 100,
        DynamicMark::RF => 108,
        DynamicMark::N | DynamicMark::PF => 80,
        DynamicMark::Other(_) => 80,
    }
}

pub fn dynamic_velocity(mark: &DynamicMark) -> (v: u8)
    ensures
        v == spec_dynamic_velocity(*mark),
        v <= 127,
{
    match mark {
        DynamicMark::PPPP => 16,
        DynamicMark::PPP => 24,
        DynamicMark::PP => 33,
        DynamicMark::P => 49,
        DynamicMark::MP => 64,
        DynamicMark::MF => 80,
        DynamicMark::F => 96,
        DynamicMark::FF => 112,
        DynamicMark::FFF => 120,
        DynamicMark::FFFF => 127,
        DynamicMark::SF | DynamicMark::SFZ | DynamicMark::SFFZ | DynamicMark::FZ | DynamicMark::RFZ => 120,
        DynamicMark::SFP | DynamicMark::SFPP | DynamicMark::FP => 100,
        DynamicMark::RF => 108,
        DynamicMark::N | DynamicMark::PF => 80,
        DynamicMark::Other(_) => 80,
    }
}

/// A slur starts or continues on the note.
pub open spec fn legato(slurs: Seq<Slur>) -> bool {
    exists|k: int| 0 <= k < slurs.len() && (#[trigger] slurs[k]).kind != SlurKind::Stop
}

/// Share of the written length that sounds, in thousandths: all of it under
/// a slur, a quarter for staccatissimo, half for staccato or spiccato, all
/// for tenuto, otherwise the default.
pub open spec fn spec_gate(arts: Seq<Articulation>, slurs: Seq<Slur>) -> u16 {
    if legato(slurs) {
        1000
    } else if arts.contains(Articulation::Staccatissimo) {
        250
    } else if arts.contains(Articulation::Staccato) || arts.contains(Articulation::Spiccato) {
        500
    } else if arts.contains(Articulation::Tenuto) {
        1000
    } else {
        DEFAULT_GATE
    }
}

fn has_articulation(arts: &[Articulation], a: Articulation) -> (b: bool)
    ensures
        b == arts@.contains(a),
{
    let len = arts.len();
    let mut i: usize = 0;
    while i < len
        invariant
            len == arts@.len(),
            i <= len,
            forall|k: int| 0 <= k < i ==> arts@[k] != a,
        decreases len - i,
    {
        if arts[i] == a {
            return true;
        }
        i = i + 1;
    }
    false
}

fn has_legato(slurs: &[Slur]) -> (b: bool)
    ensures
        b == legato(slurs@),
{
    let len = slurs.len();
    let mut i: usize = 0;
    while i < len
        invariant
            len == slurs@.len(),
            i <= len,
            forall|k: int| 0 <= k < i ==> (#[trigger] slurs@[k]).kind == SlurKind::Stop,
        decreases len - i,
    {
        if slurs[i].kind != SlurKind::Stop {
            return true;
        }
        i = i + 1;
    }
    false
}

/// Share of a note's written length that sounds, in thousandths.
pub fn gate_factor(arts: &[Articulation], slurs: &[Slur]) -> (g: u16)
    ensures
        g == spec_gate(arts@, slurs@),
        250 <= g <= 1000,
{
    if has_legato(slurs) {
        1000
    } else if has_articulation(arts, Articulation::Staccatissimo) {
        250
    } else if has_articulation(arts, Articulation::Staccato) || has_articulation(arts, Articulation::Spiccato) {
        500
    } else if has_articulation(arts, Articulation::Tenuto) {
        1000
    } else {
        DEFAULT_GATE
    }
}

/// A tie ends or continues on the note: it does not sound anew.
pub open spec fn tied_in(ties: Seq<Tie>) -> bool {
    exists|k: int| 0 <= k < ties.len() && ((#[trigger] ties[k]).kind == TieKind::Stop || ties[k].kind == TieKind::Continue)
}

/// A tie starts, continues or lets ring from the note: it is not released.
pub open spec fn tied_out(ties: Seq<Tie>) -> bool {
    exists|k: int| 0 <= k < ties.len() && (#[trigger] ties[k]).kind != TieKind::Stop
}

fn has_tie_in(ties: &[Tie]) -> (b: bool)
    ensures
        b == tied_in(ties@),
{
    let len = ties.len();
    let mut i: usize = 0;
    while i < len
        invariant
            len == ties@.len(),
            i <= len,
            forall|k: int| 0 <= k < i ==> !((#[trigger] ties@[k]).kind == TieKind::Stop || ties@[k].kind == TieKind::Continue),
        decreases len - i,
    {
        if ties[i].kind == TieKind::Stop || ties[i].kind == TieKind::Continue {
            return true;
        }
        i = i + 1;
    }
    false
}

fn has_tie_out(ties: &[Tie]) -> (b: bool)
    ensures
        b == tied_out(ties@),
{
    let len = ties.len();
    let mut i: usize = 0;
    while i < len
        invariant
            len == ties@.len(),
            i <= len,
            forall|k: int| 0 <= k < i ==> (#[trigger] ties@[k]).kind == TieKind::Stop,
        decreases len - i,
    {
        if ties[i].kind != TieKind::Stop {
            return true;
        }
        i = i + 1;
    }
    false
}

/// How a note sounds: its MIDI number, the velocity of its note-on (none
/// when a tie carries it in) and the share of its length after which it is
/// released, in thousandths (none when a tie carries it on).
#[derive(Clone, Copy, PartialEq, Eq, Debug, Structural)]
pub struct NoteSound {
    pub midi: u8,
    pub velocity: Option<u8>,
    pub gate: Option<u16>,
}

/// The ties of a note.
pub open spec fn note_ties(n: Note) -> Seq<Tie> {
    match n.attachments {
        Some(a) => a.ties@,
        None => Seq::empty(),
    }
}

/// Velocity of a note: its own dynamic, or `default`.
pub open spec fn note_velocity(n: Note, default: u8) -> u8 {
    match n.attachments {
        Some(a) => match a.dynamics {
            Some(d) => spec_dynamic_velocity(d),
            None => default,
        },
        None => default,
    }
}

/// Gate of a note: from its articulations and slurs, or the default.
pub open spec fn note_gate(n: Note) -> u16 {
    match n.attachments {
        Some(a) => spec_gate(a.articulations@, a.slurs@),
        None => DEFAULT_GATE,
    }
}

/// How the note `n` sounds when the current velocity is `default`; `None`
/// for a grace note, which takes no time of its own.
pub open spec fn spec_note_sound(n: Note, default: u8) -> Option<NoteSound> {
    if n.grace {
        None
    } else {
        Some(NoteSound {
            midi: midi_value(n.pitch) as u8,
            velocity: if tied_in(note_ties(n)) { None } else { Some(note_velocity(n, default)) },
            gate: if tied_out(note_ties(n)) { None } else { Some(note_gate(n)) },
        })
    }
}

/// Law of sounding pitch: a note that is not a grace note sounds at the MIDI
/// number of its written pitch, accidental included: 12 per octave above C-1,
/// the step's semitones above C, and one more per sharp, one less per flat.
/// Two notes that differ only in their accidental sound that many semitones
/// apart.
pub proof fn lemma_note_sounds_its_pitch(n: Note, m: Note, default: u8)
    requires
        !n.grace,
        0 <= midi_value(n.pitch) <= 127,
    ensures
        spec_note_sound(n, default) matches Some(s) && s.midi as int == 12 * (n.pitch.octave + 1)
            + step_semitones(n.pitch.step) + match n.pitch.accidental {
                Accidental::Natural => 0int,
                Accidental::Sharp => 1,
                Accidental::Flat => -1,
                Accidental::DoubleSharp => 2,
                Accidental::DoubleFlat => -2,
            },
        m == (Note { pitch: Pitch { accidental: Accidental::Sharp, ..n.pitch }, ..n })
            && n.pitch.accidental == Accidental::Natural && midi_value(n.pitch) < 127
            ==> spec_note_sound(m, default)->Some_0.midi == spec_note_sound(n, default)->Some_0.midi + 1,
        m == (Note { pitch: Pitch { accidental: Accidental::Flat, ..n.pitch }, ..n })
            && n.pitch.accidental == Accidental::Natural && midi_value(n.pitch) > 0
            ==> spec_note_sound(m, default)->Some_0.midi + 1 == spec_note_sound(n, default)->Some_0.midi,
{
}

/// Law of note onsets and releases: a plain note (no marks) is struck at
/// the current velocity and released after nine tenths of its length; a
/// note that a tie reaches (stop or continue) is not struck again; a note
/// that a tie leaves (start, continue or let-ring) is not released; and a
/// released note is held for a quarter to all of its length.
pub proof fn lemma_note_sound_onset_release(n: Note, default: u8)
    requires
        !n.grace,
    ensures
        n.attachments is None ==> spec_note_sound(n, default)->Some_0.velocity == Some(default)
            && spec_note_sound(n, default)->Some_0.gate == Some(900u16),
        forall|k: int| n.attachments is Some && 0 <= k < n.attachments->Some_0.ties@.len()
            && (#[trigger] n.attachments->Some_0.ties@[k]).kind == TieKind::Stop ==> spec_note_sound(n, default)->Some_0.velocity is None,
        forall|k: int| n.attachments is Some && 0 <= k < n.attachments->Some_0.ties@.len()
            && (#[trigger] n.attachments->Some_0.ties@[k]).kind == TieKind::Start ==> spec_note_sound(n, default)->Some_0.gate is None,
        n.attachments matches Some(a) && a.ties@.len() == 0 && a.dynamics is None
            ==> spec_note_sound(n, default)->Some_0.velocity == Some(default),
        spec_note_sound(n, default)->Some_0.gate matches Some(g) ==> 250 <= g <= 1000,
{
    if let Some(a) = n.attachments {
        assert forall|k: int| 0 <= k < a.ties@.len() && (#[trigger] a.ties@[k]).kind == TieKind::Stop
            implies tied_in(a.ties@) by {}
        assert forall|k: int| 0 <= k < a.ties@.len() && (#[trigger] a.ties@[k]).kind == TieKind::Start
            implies tied_out(a.ties@) by {}
    }
}

pub fn note_sound(note: &Note, default_velocity: u8) -> (r: Option<NoteSound>)
    requires
        !note.grace ==> midi_in_range(note.pitch),
    ensures
        r == spec_note_sound(*note, default_velocity),
{
    if note.grace {
        return None;
    }
    let midi = note.pitch.midi();
    let (tie_in, tie_out) = match &note.attachments {
        Some(a) => (has_tie_in(a.ties.as_slice()), has_tie_out(a.ties.as_slice())),
        None => (false, false),
    };
    let velocity = if tie_in {
        None
    } else {
        Some(match &note.attachments {
            Some(a) => match &a.dynamics {
                Some(d) => dynamic_velocity(d),
                None => default_velocity,
            },
            None => default_velocity,
        })
    };
    let gate = if tie_out {
        None
    } else {
        Some(match &note.attachments {
            Some(a) => gate_factor(a.articulations.as_slice(), a.slurs.as_slice()),
            None => DEFAULT_GATE,
        })
    };
    Some(NoteSound { midi, velocity, gate })
}

/// The velocity after the directions `ds` of a measure: each dynamics mark
/// sets it from its first mark, the last one winning.
pub open spec fn velocity_after(ds: Seq<Direction>, current: u8) -> u8
    decreases ds.len(),
{
    if ds.len() == 0 {
        current
    } else {
        let before = velocity_after(ds.drop_last(), current);
        match ds.last().kind {
            DirectionKind::Dynamics(ms) => if ms@.len() > 0 { spec_dynamic_velocity(ms@[0]) } else { before },
            _ => before,
        }
    }
}

pub fn measure_velocity(ds: &[Direction], current: u8) -> (v: u8)
    ensures
        v == velocity_after(ds@, current),
{
    let mut v = current;
    let len = ds.len();
    let mut i: usize = 0;
    while i < len
        invariant
            len == ds@.len(),
            i <= len,
            v == velocity_after(ds@.take(i as int), current),
        decreases len - i,
    {
        proof {
            assert(ds@.take(i + 1).drop_last() =~= ds@.take(i as int));
        }
        match &ds[i].kind {
            DirectionKind::Dynamics(ms) => {
                if ms.len() > 0 {
                    v = dynamic_velocity(&ms[0]);
                }
            },
            _ => {},
        }
        i = i + 1;
    }
    proof {
        assert(ds@.take(len as int) =~= ds@);
    }
    v
}

} // verus!
