//! Note entry from the keyboard: a letter picks the step, one or two digits
//! the figure, and the note is appended to the last measure of the first
//! staff.

use vstd::prelude::*;
use vstd::string::{StrSliceExecFns, StringExecFns};
use crate::notation::barline::{BarStyle, Barline};
use crate::notation::clef::Clef;
use crate::notation::figure::{figure_name_es, NoteFigure};
use crate::notation::key::{KeyMode, KeySignature};
use crate::notation::measure::{Measure, MeasureElement, TimeSignature, TimeSignatureStyle};
use crate::notation::note::{Note, StemDirection};
use crate::notation::pitch::{pitch_name_es, Accidental, Pitch, Step};
use crate::notation::score::{PartList, Score};
use crate::notation::staff::{Staff, StaffKind};
use crate::notation::system::System;
use crate::text::{digit_char, digit_str, str_eq};

verus! {

/// Octave of entered notes.
pub const DEFAULT_OCTAVE: i8 = 4;

/// The figure typed as digits: 1 whole, 2 half, 4 quarter, 8 eighth,
/// 6 sixteenth, 32 thirty-second, 33 sixty-fourth.
pub open spec fn spec_figure_for_digits(d: Seq<char>) -> Option<NoteFigure> {
    if d == "1"@ {
        Some(NoteFigure::Whole)
    } else if d == "2"@ {
        Some(NoteFigure::Half)
    } else if d == "4"@ {
        Some(NoteFigure::Quarter)
    } else if d == "6"@ {
        Some(NoteFigure::Sixteenth)
    } else if d == "8"@ {
        Some(NoteFigure::Eighth)
    } else if d == "32"@ {
        Some(NoteFigure::ThirtySecond)
    } else if d == "33"@ {
        Some(NoteFigure::SixtyFourth)
    } else {
        None
    }
}

pub fn figure_for_digits(d: &str) -> (r: Option<NoteFigure>)
    ensures
        r == spec_figure_for_digits(d@),
{
    if str_eq(d, "1") {
        Some(NoteFigure::Whole)
    } else if str_eq(d, "2") {
        Some(NoteFigure::Half)
    } else if str_eq(d, "4") {
        Some(NoteFigure::Quarter)
    } else if str_eq(d, "6") {
        Some(NoteFigure::Sixteenth)
    } else if str_eq(d, "8") {
        Some(NoteFigure::Eighth)
    } else if str_eq(d, "32") {
        Some(NoteFigure::ThirtySecond)
    } else if str_eq(d, "33") {
        Some(NoteFigure::SixtyFourth)
    } else {
        None
    }
}

/// A measure as the editor creates it: number 1, 4/4, no key, empty.
pub open spec fn is_blank_measure(m: Measure) -> bool {
    blank_header(m) && m.elements@.len() == 0
}

/// Everything of `m` but its elements is that of a new measure.
pub open spec fn blank_header(m: Measure) -> bool {
    &&& m.number@ == "1"@
    &&& m.time_signature == TimeSignature { numerator: 4, denominator: 4, style: TimeSignatureStyle::Numeric }
    &&& m.key_signature == KeySignature { fifths: 0, mode: KeyMode::Unspecified, cancel: None }
    &&& m.barline.style == BarStyle::Regular && m.barline.repeat is None && m.barline.ending is None
    &&& m.ending is None
    &&& m.directions@.len() == 0
    &&& m.divisions == 1
    &&& !m.system_break
    &&& m.chord_symbol is None
}

pub fn blank_measure() -> (m: Measure)
    ensures
        is_blank_measure(m),
{
    Measure {
        number: String::from_str("1"),
        time_signature: TimeSignature { numerator: 4, denominator: 4, style: TimeSignatureStyle::Numeric },
        key_signature: KeySignature { fifths: 0, mode: KeyMode::Unspecified, cancel: None },
        elements: Vec::new(),
        barline: Barline { style: BarStyle::Regular, repeat: None, ending: None },
        ending: None,
        directions: Vec::new(),
        divisions: 1,
        system_break: false,
        chord_symbol: None,
    }
}

/// A staff as the editor creates it: treble clef on its line, unnamed, with
/// the measures given.
pub open spec fn is_blank_staff(s: Staff) -> bool {
    &&& s.clef == Clef::Treble
    &&& s.line == 2
    &&& s.name@.len() == 0
    &&& s.abbreviation@.len() == 0
    &&& s.kind is Standard
}

fn blank_staff(measures: Vec<Measure>) -> (s: Staff)
    ensures
        is_blank_staff(s),
        s.measures == measures,
{
    Staff {
        clef: Clef::Treble,
        line: Clef::Treble.default_line(),
        measures,
        name: String::new(),
        abbreviation: String::new(),
        kind: StaffKind::Standard,
    }
}

/// The score of a new document: one system, one treble staff, one blank
/// measure, no title.
pub fn empty_score() -> (s: Score)
    ensures
        s.title@.len() == 0,
        s.composer@.len() == 0,
        s.systems@.len() == 1,
        s.systems@[0].staves@.len() == 1,
        s.systems@[0].left_margin == 0,
        s.systems@[0].bracket is None,
        is_blank_staff(s.systems@[0].staves@[0]),
        s.systems@[0].staves@[0].measures@.len() == 1,
        is_blank_measure(s.systems@[0].staves@[0].measures@[0]),
        s.credits@.len() == 0,
        s.scaling is None,
        s.part_list.parts@.len() == 0,
        s.part_list.groups@.len() == 0,
        s.page_size is None,
{
    let mut measures: Vec<Measure> = Vec::new();
    measures.push(blank_measure());
    let mut staves: Vec<Staff> = Vec::new();
    staves.push(blank_staff(measures));
    let mut systems: Vec<System> = Vec::new();
    systems.push(System { staves, left_margin: 0, bracket: None });
    Score {
        title: String::new(),
        composer: String::new(),
        systems,
        credits: Vec::new(),
        scaling: None,
        part_list: PartList { parts: Vec::new(), groups: Vec::new() },
        page_size: None,
    }
}

/// A note can be appended: there is no system yet, or the first has a staff.
pub open spec fn editable(s: Score) -> bool {
    s.systems@.len() == 0 || s.systems@[0].staves@.len() > 0
}

/// `m` is `old` with `note` appended to its elements.
pub open spec fn measure_appended(old: Measure, m: Measure, note: Note) -> bool {
    &&& m.elements@ == old.elements@.push(MeasureElement::Note(note))
    &&& m.number == old.number
    &&& m.time_signature == old.time_signature
    &&& m.key_signature == old.key_signature
    &&& m.barline == old.barline
    &&& m.ending == old.ending
    &&& m.directions == old.directions
    &&& m.divisions == old.divisions
    &&& m.system_break == old.system_break
    &&& m.chord_symbol == old.chord_symbol
}

/// `ms` is `old` with `note` appended to its last measure.
pub open spec fn measures_appended(old: Seq<Measure>, ms: Seq<Measure>, note: Note) -> bool {
    &&& old.len() > 0
    &&& ms.len() == old.len()
    &&& forall|k: int| 0 <= k < old.len() - 1 ==> #[trigger] ms[k] == old[k]
    &&& measure_appended(old.last(), ms.last(), note)
}

/// `new` is `old` with `note` appended to the last measure of the first
/// staff of the first system; a missing system is created with a blank
/// staff, and a staff without measures gets a blank measure first.
pub open spec fn note_appended(old: Score, new: Score, note: Note) -> bool {
    let created = old.systems@.len() == 0;
    &&& new.title == old.title
    &&& new.composer == old.composer
    &&& new.credits == old.credits
    &&& new.scaling == old.scaling
    &&& new.part_list == old.part_list
    &&& new.page_size == old.page_size
    &&& new.systems@.len() == if created { 1 } else { old.systems@.len() }
    &&& forall|k: int| 1 <= k < new.systems@.len() ==> #[trigger] new.systems@[k] == old.systems@[k]
    &&& {
        let sys = new.systems@[0];
        let staff = sys.staves@[0];
        &&& if created {
            &&& sys.staves@.len() == 1
            &&& sys.left_margin == 0
            &&& sys.bracket is None
            &&& is_blank_staff(staff)
            &&& staff.measures@.len() == 1
            &&& blank_header(staff.measures@[0])
            &&& staff.measures@[0].elements@ == seq![MeasureElement::Note(note)]
        } else {
            let old_sys = old.systems@[0];
            let old_staff = old_sys.staves@[0];
            &&& sys.staves@.len() == old_sys.staves@.len()
            &&& forall|k: int| 1 <= k < sys.staves@.len() ==> #[trigger] sys.staves@[k] == old_sys.staves@[k]
            &&& sys.left_margin == old_sys.left_margin
            &&& sys.bracket == old_sys.bracket
            &&& staff.clef == old_staff.clef
            &&& staff.line == old_staff.line
            &&& staff.name == old_staff.name
            &&& staff.abbreviation == old_staff.abbreviation
            &&& staff.kind == old_staff.kind
            &&& if old_staff.measures@.len() == 0 {
                &&& staff.measures@.len() == 1
                &&& blank_header(staff.measures@[0])
                &&& staff.measures@[0].elements@ == seq![MeasureElement::Note(note)]
            } else {
                measures_appended(old_staff.measures@, staff.measures@, note)
            }
        }
    }
}


/// Appends `note` to the last measure of the first staff of the first
/// system, creating the system or the measure when missing.
pub fn append_note(score: &mut Score, note: Note)
    requires
        editable(*old(score)),
    ensures
        note_appended(*old(score), *final(score), note),
{
    let ghost old_score = *score;
    if score.systems.len() == 0 {
        let mut staves: Vec<Staff> = Vec::new();
        staves.push(blank_staff(Vec::new()));
        score.systems.push(System { staves, left_margin: 0, bracket: None });
    }
    let ghost mid_systems = score.systems@;
    let mut system = score.systems.remove(0);
    let ghost old_staves = system.staves@;
    let mut staff = system.staves.remove(0);
    let ghost old_measures = staff.measures@;
    if staff.measures.len() == 0 {
        staff.measures.push(blank_measure());
    }
    let ghost filled = staff.measures@;
    let mut m = match staff.measures.pop() {
        Some(m) => m,
        None => blank_measure(),
    };
    let ghost old_m = m;
    m.elements.push(MeasureElement::Note(note));
    staff.measures.push(m);
    proof {
        assert(staff.measures@ == filled.drop_last().push(m));
        assert(measure_appended(old_m, m, note));
        if old_measures.len() == 0 {
            assert(m.elements@ =~= seq![MeasureElement::Note(note)]);
            assert(staff.measures@[0] == m);
        }
        if old_measures.len() > 0 {
            assert(filled == old_measures);
            assert forall|k: int| 0 <= k < old_measures.len() - 1 implies #[trigger] staff.measures@[k] == old_measures[k] by {}
        }
    }
    system.staves.insert(0, staff);
    proof {
        assert forall|k: int| 1 <= k < system.staves@.len() implies #[trigger] system.staves@[k] == old_staves[k] by {}
    }
    score.systems.insert(0, system);
    proof {
        assert forall|k: int| 1 <= k < score.systems@.len() implies #[trigger] score.systems@[k] == mid_systems[k] by {}
    }
}

/// Keyboard note entry: the step picked by a letter and the digits typed
/// since.
pub struct NoteEntry {
    pub pending_step: Option<Step>,
    pub pending_figure_digits: String,
}

/// The note entered as `step` with the figure `figure`: natural, in the
/// default octave, stem up, nothing attached.
pub open spec fn entered_note(n: Note, step: Step, figure: NoteFigure) -> bool {
    &&& n.pitch == Pitch { step, accidental: Accidental::Natural, octave: DEFAULT_OCTAVE }
    &&& n.figure == figure
    &&& n.dotted == 0
    &&& n.time_modification is None
    &&& n.accidental_override is None
    &&& n.stem_direction == StemDirection::Up
    &&& !n.grace
    &&& !n.chord
    &&& n.attachments is None
    &&& n.lyrics@.len() == 0
}

/// The status message after entering `pitch` as `figure`.
pub open spec fn entry_message(pitch: Pitch, figure: NoteFigure) -> Seq<char> {
    pitch_name_es(pitch) + " "@ + figure_name_es(figure) + " agregada"@
}

impl NoteEntry {
    pub fn new() -> (e: Self)
        ensures
            e.pending_step is None,
            e.pending_figure_digits@.len() == 0,
    {
        NoteEntry { pending_step: None, pending_figure_digits: String::new() }
    }

    /// A letter key: the step is picked and the digits typed so far dropped.
    pub fn press_letter(&mut self, step: Step)
        ensures
            final(self).pending_step == Some(step),
            final(self).pending_figure_digits@.len() == 0,
    {
        self.pending_step = Some(step);
        self.pending_figure_digits = String::new();
    }

    /// A digit key: recorded while a step is pending. Returns whether two
    /// digits are now typed, when the note is to be inserted.
    pub fn press_digit(&mut self, d: u8) -> (complete: bool)
        requires
            d < 10,
        ensures
            final(self).pending_step == old(self).pending_step,
            old(self).pending_step is Some ==> final(self).pending_figure_digits@ == old(self).pending_figure_digits@.push(digit_char(d as int)),
            old(self).pending_step is None ==> final(self).pending_figure_digits@ == old(self).pending_figure_digits@,
            complete == (old(self).pending_step is Some && final(self).pending_figure_digits@.len() >= 2),
    {
        if self.pending_step.is_none() {
            return false;
        }
        self.pending_figure_digits.append(digit_str(d as u64));
        proof {
            assert(seq![digit_char(d as int)] == seq![digit_char(d as int)]);
        }
        self.pending_figure_digits.as_str().unicode_len() >= 2
    }

    /// Inserts the pending note into `score`: when the digits name no figure
    /// they are dropped; without a pending step nothing happens; otherwise
    /// the note is appended, the entry cleared and a status message
    /// returned.
    pub fn insert_note(&mut self, score: &mut Score) -> (msg: Option<String>)
        requires
            spec_figure_for_digits(old(self).pending_figure_digits@) is Some && old(self).pending_step is Some ==> editable(*old(score)),
        ensures
            match (spec_figure_for_digits(old(self).pending_figure_digits@), old(self).pending_step) {
                (None, _) => {
                    &&& msg is None
                    &&& final(self).pending_figure_digits@.len() == 0
                    &&& final(self).pending_step == old(self).pending_step
                    &&& *final(score) == *old(score)
                },
                (Some(_), None) => {
                    &&& msg is None
                    &&& final(self).pending_figure_digits@ == old(self).pending_figure_digits@
                    &&& final(self).pending_step is None
                    &&& *final(score) == *old(score)
                },
                (Some(figure), Some(step)) => {
                    &&& final(self).pending_figure_digits@.len() == 0
                    &&& final(self).pending_step is None
                    &&& exists|n: Note| entered_note(n, step, figure) && note_appended(*old(score), *final(score), n)
                    &&& msg matches Some(m) && m@ == entry_message(
                        Pitch { step, accidental: Accidental::Natural, octave: DEFAULT_OCTAVE },
                        figure,
                    )
                },
            },
    {
        let figure = match figure_for_digits(self.pending_figure_digits.as_str()) {
            Some(f) => f,
            None => {
                self.pending_figure_digits = String::new();
                return None;
            },
        };
        let step = match self.pending_step.take() {
            Some(s) => s,
            None => return None,
        };
        let pitch = Pitch { step, accidental: Accidental::Natural, octave: DEFAULT_OCTAVE };
        let note = Note {
            pitch,
            figure,
            dotted: 0,
            time_modification: None,
            accidental_override: None,
            stem_direction: StemDirection::Up,
            grace: false,
            chord: false,
            attachments: None,
            lyrics: Vec::new(),
        };
        proof {
            assert(entered_note(note, step, figure));
        }
        append_note(score, note);
        let mut m = pitch.name_es();
        m.append(" ");
        m.append(figure.name_es());
        m.append(" agregada");
        self.pending_figure_digits = String::new();
        Some(m)
    }
}

} // verus!
