use vstd::prelude::*;
use crate::notation::tuplet::Tuplet;

verus! {

/// Markings attached to a note.
#[derive(Clone, Debug)]
pub struct NoteAttachment {
    pub articulations: Vec<Articulation>,
    pub ornaments: Vec<Ornament>,
    pub technical: Vec<Technical>,
    pub dynamics: Option<DynamicMark>,
    pub fermata: Option<Fermata>,
    pub ties: Vec<Tie>,
    pub slurs: Vec<Slur>,
    pub glissando: Option<Glissando>,
    pub arpeggiate: Option<Arpeggiate>,
    pub tremolo: Option<Tremolo>,
    /// Triplet, quintuplet, ...
    pub tuplet: Option<Tuplet>,
}

/// An attachment with no marking at all.
pub open spec fn attachment_is_empty(a: NoteAttachment) -> bool {
    &&& a.articulations@.len() == 0
    &&& a.ornaments@.len() == 0
    &&& a.technical@.len() == 0
    &&& a.dynamics is None
    &&& a.fermata is None
    &&& a.ties@.len() == 0
    &&& a.slurs@.len() == 0
    &&& a.glissando is None
    &&& a.arpeggiate is None
    &&& a.tremolo is None
    &&& a.tuplet is None
}

impl Default for NoteAttachment {
    fn default() -> (a: Self)
        ensures
            attachment_is_empty(a),
    {
        NoteAttachment {
            articulations: Vec::new(),
            ornaments: Vec::new(),
            technical: Vec::new(),
            dynamics: None,
            fermata: None,
            ties: Vec::new(),
            slurs: Vec::new(),
            glissando: None,
            arpeggiate: None,
            tremolo: None,
            tuplet: None,
        }
    }
}

/// Articulation: changes the attack or the length of a note.
#[derive(Clone, Copy, PartialEq, Eq, Debug, Structural)]
pub enum Articulation {
    /// >, SMuFL U+E4A0.
    Accent,
    /// ^ (marcato), SMuFL U+E4AC.
    StrongAccent,
    /// . (staccato), SMuFL U+E4A2.
    Staccato,
    /// Staccatissimo, SMuFL U+E4AA.
    Staccatissimo,
    /// Tenuto, SMuFL U+E4A4.
    Tenuto,
    /// Portato (dot and line).
    DetachedLegato,
    /// Spiccato, SMuFL U+E4A8.
    Spiccato,
    /// Breath mark, SMuFL U+E4B6.
    BreathMark,
    /// Caesura, SMuFL U+E4B8.
    Caesura,
    /// Soft accent (composite).
    SoftAccent,
    /// Jazz scoop up to the note.
    Scoop,
    /// Jazz plop.
    Plop,
    /// Jazz doit (rising fall-off).
    Doit,
    /// Jazz fall-off (descending).
    Falloff,
}

impl Articulation {
    /// Main SMuFL glyph, or `None` for marks drawn as composites or curves.
    pub fn glyph(self) -> (g: Option<char>)
        ensures
            g == (match self {
                Articulation::Accent => Some('\u{E4A0}'),
                Articulation::StrongAccent => Some('\u{E4AC}'),
                Articulation::Staccato => Some('\u{E4A2}'),
                Articulation::Staccatissimo => Some('\u{E4AA}'),
                Articulation::Tenuto => Some('\u{E4A4}'),
                Articulation::Spiccato => Some('\u{E4A8}'),
                Articulation::BreathMark => Some('\u{E4B6}'),
                Articulation::Caesura => Some('\u{E4B8}'),
                _ => None::<char>,
            }),
    {
        match self {
            Articulation::Accent => Some('\u{E4A0}'),
            Articulation::StrongAccent => Some('\u{E4AC}'),
            Articulation::Staccato => Some('\u{E4A2}'),
            Articulation::Staccatissimo => Some('\u{E4AA}'),
            Articulation::Tenuto => Some('\u{E4A4}'),
            Articulation::DetachedLegato => None,
            Articulation::Spiccato => Some('\u{E4A8}'),
            Articulation::BreathMark => Some('\u{E4B6}'),
            Articulation::Caesura => Some('\u{E4B8}'),
            Articulation::SoftAccent => None,
            Articulation::Scoop | Articulation::Plop | Articulation::Doit | Articulation::Falloff => None,
        }
    }

    /// Preferred placement relative to the note: every articulation defaults
    /// to above.
    pub fn default_placement(self) -> (p: Placement)
        ensures
            p == Placement::Above,
    {
        match self {
            Articulation::Staccato
            | Articulation::Staccatissimo
            | Articulation::Tenuto
            | Articulation::DetachedLegato
            | Articulation::Spiccato
            | Articulation::Accent
            | Articulation::StrongAccent => Placement::Above,
            Articulation::SoftAccent
            | Articulation::BreathMark
            | Articulation::Caesura
            | Articulation::Scoop
            | Articulation::Plop
            | Articulation::Doit
            | Articulation::Falloff => Placement::Above,
        }
    }
}

/// Ornament.
#[derive(Clone, Copy, PartialEq, Eq, Debug, Structural)]
pub enum Ornament {
    /// tr, SMuFL U+E566.
    Trill,
    /// Turn, SMuFL U+E567.
    Turn,
    /// Inverted turn, SMuFL U+E568.
    InvertedTurn,
    /// Mordent, SMuFL U+E56C.
    Mordent,
    /// Inverted mordent (prall), SMuFL U+E56B.
    InvertedMordent,
    /// Single-note tremolo strokes (1 to 8 marks).
    Tremolo { marks: u8 },
    /// Wavy trill extension line.
    WavyLine { start: bool, stop: bool },
}

impl Ornament {
    /// SMuFL glyph of the ornament, `None` for tremolo strokes and wavy lines.
    pub fn glyph(&self) -> (g: Option<char>)
        ensures
            g == (match *self {
                Ornament::Trill => Some('\u{E566}'),
                Ornament::Turn => Some('\u{E567}'),
                Ornament::InvertedTurn => Some('\u{E568}'),
                Ornament::Mordent => Some('\u{E56C}'),
                Ornament::InvertedMordent => Some('\u{E56B}'),
                _ => None::<char>,
            }),
    {
        match self {
            Ornament::Trill => Some('\u{E566}'),
            Ornament::Turn => Some('\u{E567}'),
            Ornament::InvertedTurn => Some('\u{E568}'),
            Ornament::Mordent => Some('\u{E56C}'),
            Ornament::InvertedMordent => Some('\u{E56B}'),
            Ornament::Tremolo { .. } | Ornament::WavyLine { .. } => None,
        }
    }
}

/// Instrumental technique (fingering, bowing, guitar techniques, ...).
#[derive(Clone, PartialEq, Debug)]
pub enum Technical {
    UpBow,
    DownBow,
    Harmonic,
    OpenString,
    ThumbPosition,
    Fingering(String),
    Pluck,
    DoubleTongue,
    TripleTongue,
    Stopped,
    SnapPizzicato,
    Fret(u8),
    String(u8),
    HammerOn,
    PullOff,
    /// `alter` is the bend in semitones, kept as the decimal text of
    /// MusicXML `<bend-alter>` (empty when absent, read as 0).
    Bend { alter: String, pre_bend: bool, release: bool },
    Tap,
    Heel,
    Toe,
    Fingernails,
    Other(String),
}

/// Dynamic marking.
#[derive(Clone, PartialEq, Debug)]
pub enum DynamicMark {
    PPPP,
    PPP,
    PP,
    P,
    MP,
    MF,
    F,
    FF,
    FFF,
    FFFF,
    SF,
    SFZ,
    SFFZ,
    SFP,
    SFPP,
    FP,
    RF,
    RFZ,
    FZ,
    N,
    PF,
    Other(String),
}

/// Fermata.
#[derive(Clone, Copy, PartialEq, Eq, Debug, Structural)]
pub struct Fermata {
    pub shape: FermataShape,
    pub upright: bool,
    pub placement: Placement,
}

impl Default for Fermata {
    fn default() -> (f: Self)
        ensures
            f == (Fermata { shape: FermataShape::Normal, upright: true, placement: Placement::Above }),
    {
        Fermata { shape: FermataShape::Normal, upright: true, placement: Placement::Above }
    }
}

#[derive(Clone, Copy, PartialEq, Eq, Debug, Structural)]
pub enum FermataShape {
    Normal,
    Angled,
    Square,
    DoubleAngled,
    DoubleSquare,
    Long,
    Short,
    Henze,
}

/// Tie: joins two notes of the same pitch.
#[derive(Clone, Copy, PartialEq, Eq, Debug, Structural)]
pub struct Tie {
    pub kind: TieKind,
    pub number: u8,
    pub placement: Placement,
}

#[derive(Clone, Copy, PartialEq, Eq, Debug, Structural)]
pub enum TieKind {
    Start,
    Stop,
    Continue,
    LetRing,
}

/// Slur: phrasing over notes of different pitch.
#[derive(Clone, Copy, PartialEq, Eq, Debug, Structural)]
pub struct Slur {
    pub kind: SlurKind,
    pub number: u8,
    pub placement: Placement,
}

#[derive(Clone, Copy, PartialEq, Eq, Debug, Structural)]
pub enum SlurKind {
    Start,
    Stop,
    Continue,
}

/// Glissando or portamento between notes.
#[derive(Clone, Copy, PartialEq, Eq, Debug, Structural)]
pub struct Glissando {
    pub kind: GlissandoKind,
    pub line_type: LineType,
}

#[derive(Clone, Copy, PartialEq, Eq, Debug, Structural)]
pub enum GlissandoKind {
    Start,
    Stop,
}

/// Arpeggiated chord.
#[derive(Clone, Copy, PartialEq, Eq, Debug, Structural)]
pub struct Arpeggiate {
    pub direction: Option<ArpeggioDirection>,
}

#[derive(Clone, Copy, PartialEq, Eq, Debug, Structural)]
pub enum ArpeggioDirection {
    Up,
    Down,
}

/// Tremolo between notes (diagonal strokes).
#[derive(Clone, Copy, PartialEq, Eq, Debug, Structural)]
pub struct Tremolo {
    pub marks: u8,
}

/// Placement relative to the staff.
#[derive(Clone, Copy, PartialEq, Eq, Debug, Structural)]
pub enum Placement {
    Above,
    Below,
}

/// Line style for glissandi and other connectors.
#[derive(Clone, Copy, PartialEq, Eq, Debug, Structural)]
pub enum LineType {
    Solid,
    Dashed,
    Dotted,
    Wavy,
}

} // verus!
