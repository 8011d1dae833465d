use vstd::prelude::*;

verus! {

/// One lyric syllable attached to a note.
#[derive(Clone, Debug)]
pub struct Lyric {
    /// Verse number (1, 2, 3, ...).
    pub number: u8,
    pub syllabic: Syllabic,
    pub text: String,
    /// Melisma extension line.
    pub extend: bool,
}

/// Kind of syllable.
#[derive(Clone, Copy, PartialEq, Eq, Debug, Structural)]
pub enum Syllabic {
    Single,
    Begin,
    End,
    Middle,
}

} // verus!
