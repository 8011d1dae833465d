pub mod attachment;
pub mod barline;
pub mod clef;
pub mod direction;
pub mod figure;
pub mod grace;
pub mod key;
pub mod layout;
pub mod lyric;
pub mod measure;
pub mod measure_style;
pub mod multirest;
pub mod note;
pub mod note_ref;
pub mod pitch;
pub mod rest;
pub mod score;
pub mod staff;
pub mod system;
pub mod tab;
pub mod theme;
pub mod tuplet;

pub use attachment::{
    Arpeggiate, ArpeggioDirection, Articulation, DynamicMark, Fermata, FermataShape, Glissando,
    GlissandoKind, LineType, NoteAttachment, Ornament, Placement, Slur, SlurKind, Technical, Tie,
    TieKind, Tremolo,
};
pub use barline::{BarStyle, Barline, Ending, RepeatDirection};
pub use clef::Clef;
pub use direction::{
    Bracket, BracketKind, Dashes, DashesKind, Direction, DirectionKind, LineEnd, Metronome,
    OctaveShift, OctaveShiftKind, Pedal, PedalKind, Wedge, WedgeKind,
};
pub use figure::{NoteFigure, TimeModification};
pub use grace::GraceNote;
pub use key::{KeyMode, KeySignature};
pub use layout::{SystemDividers, SystemLayout};
pub use lyric::{Lyric, Syllabic};
pub use measure::{Measure, MeasureElement, TimeSignature, TimeSignatureStyle};
pub use measure_style::{MeasureStyle, SlashNote};
pub use multirest::MultipleRest;
pub use note::{Note, StemDirection};
pub use note_ref::NoteRef;
pub use pitch::{Accidental, Pitch, Step};
pub use rest::Rest;
pub use score::{
    Credit, CreditJustify, CreditKind, PageSize, PartGroup, PartInfo, PartList, Scaling, Score,
};
pub use staff::{Staff, StaffKind};
pub use system::{GroupBracket, System};
pub use tab::{
    standard_guitar_tuning, HarmonicKind, SlideKind, TabElement, TabMeasure, TabNote, TabRest,
    TabTechnique, TablatureStaff, TuningStep,
};
pub use theme::{ChordProgression, ChordStep, ChordSymbol, Section, SectionKind, Theme};
pub use tuplet::{Tuplet, TupletShow};
