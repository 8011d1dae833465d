//! Music notation model, MusicXML reading, and the pure logic behind the
//! m-guitar score editor (beaming, pagination, playback decisions, fretboard
//! arithmetic, theme detection), each with its contract proved by Verus.

pub mod notation;
pub mod render;
pub mod sections;
pub mod text;
pub mod float_text;
pub mod xml;
pub mod audio;
pub mod editing;
pub mod fingerboard;
pub mod i18n;
pub mod playback;
pub mod view;
pub mod musicxml;

pub use i18n::{I18n, Lang};
pub use view::ViewMode;
pub use musicxml::{parse_musicxml, MusicXmlError};
pub use render::{paginate, Page, StaffRef};
pub use notation::{
    Accidental, Arpeggiate, ArpeggioDirection, Articulation, BarStyle, Barline, Bracket,
    BracketKind, Clef, Credit, CreditJustify, CreditKind, Dashes, DashesKind, Direction,
    DirectionKind, DynamicMark, Ending, Fermata, FermataShape, Glissando, GlissandoKind, GraceNote,
    GroupBracket, HarmonicKind, KeyMode, KeySignature, LineEnd, LineType, Lyric, Measure,
    MeasureElement, MeasureStyle, Metronome, MultipleRest, Note, NoteAttachment, NoteFigure,
    OctaveShift, OctaveShiftKind, Ornament, Pedal, PedalKind, PageSize, PartGroup, PartInfo, PartList, Pitch,
    Placement, RepeatDirection, Rest, Scaling, Score, SlashNote, SlideKind, Slur, SlurKind, Staff,
    StaffKind, StemDirection, Step, Syllabic, System, SystemDividers, SystemLayout, TabElement,
    TabMeasure, TabNote, TabRest, TabTechnique, TablatureStaff, Technical, Tie, TieKind,
    TimeSignature, TimeSignatureStyle, Tremolo, TuningStep, Tuplet, TupletShow, Wedge, WedgeKind,
};
