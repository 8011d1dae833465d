use vstd::prelude::*;

verus! {

/// Key signature.
#[derive(Clone, Copy, PartialEq, Eq, Debug, Structural)]
pub struct KeySignature {
    /// Sharps (+) or flats (-), from -7 (C flat) to +7 (C sharp).
    pub fifths: i8,
    pub mode: KeyMode,
    /// Previous key to cancel with naturals before the new one.
    pub cancel: Option<i8>,
}

impl Default for KeySignature {
    fn default() -> (k: Self)
        ensures
            k == (KeySignature { fifths: 0, mode: KeyMode::Unspecified, cancel: None }),
    {
        KeySignature { fifths: 0, mode: KeyMode::Unspecified, cancel: None }
    }
}

/// Mode of the key.
#[derive(Clone, Copy, PartialEq, Eq, Debug, Structural)]
pub enum KeyMode {
    Major,
    Minor,
    Dorian,
    Phrygian,
    Lydian,
    Mixolydian,
    Aeolian,
    Ionian,
    Locrian,
    /// No mode given.
    Unspecified,
}

} // verus!
