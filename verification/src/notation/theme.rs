use vstd::prelude::*;

verus! {

/// Chord symbol as shown ("Am", "G7", "F#m7b5"); no harmonic analysis is done.
#[derive(Clone, Debug)]
pub struct ChordSymbol(pub String);

/// A chord progression: chords with their length in measures.
#[derive(Clone, Debug)]
pub struct ChordProgression {
    pub chords: Vec<ChordStep>,
}

#[derive(Clone, Debug)]
pub struct ChordStep {
    pub symbol: ChordSymbol,
    /// Number of measures the chord lasts.
    pub measures: u32,
}

/// Predefined kinds of song sections.
#[derive(Clone, Copy, Debug, PartialEq, Eq, Structural)]
pub enum SectionKind {
    Intro,
    Verse,
    Chorus,
    Bridge,
    Solo,
    Outro,
    /// Freely named section.
    Custom,
}

/// Default colour ("#RRGGBB") of a section block in the theme map.
pub open spec fn section_color(k: SectionKind) -> Seq<char> {
    match k {
        SectionKind::Intro => "#4A90D9"@,
        SectionKind::Verse => "#50C878"@,
        SectionKind::Chorus => "#E8A838"@,
        SectionKind::Bridge => "#9B59B6"@,
        SectionKind::Solo => "#E74C3C"@,
        SectionKind::Outro => "#95A5A6"@,
        SectionKind::Custom => "#5DADE2"@,
    }
}

impl SectionKind {
    /// Default colour of the section block in the theme map.
    pub fn default_color(&self) -> (c: &'static str)
        ensures
            c@ == section_color(*self),
    {
        match self {
            SectionKind::Intro => "#4A90D9",
            SectionKind::Verse => "#50C878",
            SectionKind::Chorus => "#E8A838",
            SectionKind::Bridge => "#9B59B6",
            SectionKind::Solo => "#E74C3C",
            SectionKind::Outro => "#95A5A6",
            SectionKind::Custom => "#5DADE2",
        }
    }
}

/// A section of a song: a range of measures with its chord progression.
#[derive(Clone, Debug)]
pub struct Section {
    pub kind: SectionKind,
    /// Visible name; free for `Custom`.
    pub label: String,
    /// Index of the first measure, over the flat sequence of all measures of
    /// the score (`systems[].staves[].measures[]` in order).
    pub start_measure: usize,
    /// Index of the last measure (inclusive).
    pub end_measure: usize,
    pub progression: ChordProgression,
    /// Colour of the block ("#RRGGBB").
    pub color: String,
}

impl Section {
    /// Builds a section; the range must not be reversed.
    pub fn new(
        kind: SectionKind,
        label: String,
        start_measure: usize,
        end_measure: usize,
        progression: ChordProgression,
        color: String,
    ) -> (s: Self)
        requires
            start_measure <= end_measure,
        ensures
            s.kind == kind,
            s.label == label,
            s.start_measure == start_measure,
            s.end_measure == end_measure,
            s.progression == progression,
            s.color == color,
    {
        Section { kind, label, start_measure, end_measure, progression, color }
    }
}

/// A theme: sections laid over a score.
#[derive(Clone, Debug)]
pub struct Theme {
    pub name: String,
    pub sections: Vec<Section>,
}

} // verus!
