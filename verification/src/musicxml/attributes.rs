//! The `<attributes>` of a measure: clef, clef octave change, divisions,
//! time and key signatures.

use vstd::prelude::*;
use crate::musicxml::fields::{child_i32, child_i8, child_parse_i32, child_parse_i8, child_parse_u32, child_parse_u8, child_u32, child_u8};
use crate::musicxml::leaves::{default_clef_line, spec_default_clef_line};
use crate::notation::clef::Clef;
use crate::notation::key::{KeyMode, KeySignature};
use crate::notation::measure::{TimeSignature, TimeSignatureStyle};
use crate::text::{spec_parse_int, str_eq};
use crate::xml::{attr_is, attribute_is, child, child_text, find_child, first_child_text, has_child, has_child_tag, XmlNode};

verus! {

/// Clef named by a sign and a line.
pub open spec fn spec_clef_of(sign: Seq<char>, line: i32) -> Clef {
    if sign == "G"@ && line == 2 {
        Clef::Treble
    } else if sign == "F"@ && line == 4 {
        Clef::Bass
    } else if sign == "C"@ && line == 4 {
        Clef::Tenor
    } else if sign == "C"@ {
        Clef::Alto
    } else if sign == "TAB"@ {
        Clef::Tab
    } else if sign == "percussion"@ {
        Clef::Percussion
    } else {
        Clef::Treble
    }
}

/// The clef set by an `<attributes>` element: read from its first `<clef>`,
/// unless that clef is marked `additional="yes"` or has no `<sign>`. A
/// missing or unreadable `<line>` takes the sign's standard line. Unknown
/// signs read as treble, C clefs on other lines as alto.
pub open spec fn spec_parse_clef(attrs: XmlNode) -> Option<Clef> {
    match child(attrs, "clef"@) {
        None => None,
        Some(c) => if attr_is(c, "additional"@, "yes"@) {
            None
        } else {
            match child_text(c, "sign"@) {
                None => None,
                Some(sign) => {
                    let line = match child_i32(c, "line"@) {
                        Some(l) => l,
                        None => spec_default_clef_line(sign),
                    };
                    Some(spec_clef_of(sign, line))
                },
            }
        },
    }
}

pub fn parse_clef(attrs: &XmlNode) -> (r: Option<Clef>)
    ensures
        r == spec_parse_clef(*attrs),
{
    let clef_node = match find_child(attrs, "clef") {
        Some(c) => c,
        None => return None,
    };
    if attribute_is(clef_node, "additional", "yes") {
        return None;
    }
    let sign = match first_child_text(clef_node, "sign") {
        Some(s) => s,
        None => return None,
    };
    let line: i32 = match child_parse_i32(clef_node, "line") {
        Some(l) => l,
        None => default_clef_line(sign.as_str()),
    };
    let s = sign.as_str();
    let clef = if str_eq(s, "G") && line == 2 {
        Clef::Treble
    } else if str_eq(s, "F") && line == 4 {
        Clef::Bass
    } else if str_eq(s, "C") && line == 4 {
        Clef::Tenor
    } else if str_eq(s, "C") {
        Clef::Alto
    } else if str_eq(s, "TAB") {
        Clef::Tab
    } else if str_eq(s, "percussion") {
        Clef::Percussion
    } else {
        Clef::Treble
    };
    Some(clef)
}

/// Octave change of the first `<clef>` (`<clef-octave-change>`, e.g. -1
/// for a tenor G clef).
pub open spec fn spec_parse_clef_octave_shift(attrs: XmlNode) -> Option<i8> {
    match child(attrs, "clef"@) {
        Some(c) => child_i8(c, "clef-octave-change"@),
        None => None,
    }
}

pub fn parse_clef_octave_shift(attrs: &XmlNode) -> (r: Option<i8>)
    ensures
        r == spec_parse_clef_octave_shift(*attrs),
{
    match find_child(attrs, "clef") {
        Some(c) => child_parse_i8(c, "clef-octave-change"),
        None => None,
    }
}

/// Divisions per quarter note (`<divisions>`).
pub open spec fn spec_parse_divisions(attrs: XmlNode) -> Option<u32> {
    child_u32(attrs, "divisions"@)
}

pub fn parse_divisions(attrs: &XmlNode) -> (r: Option<u32>)
    ensures
        r == spec_parse_divisions(*attrs),
{
    child_parse_u32(attrs, "divisions")
}

/// Time signature of the first `<time>`: its first beats / beat-type pair.
/// `<senza-misura>` and unreadable values leave the current signature.
pub open spec fn spec_parse_time(attrs: XmlNode) -> Option<TimeSignature> {
    match child(attrs, "time"@) {
        None => None,
        Some(t) => if has_child(t, "senza-misura"@) {
            None
        } else {
            match (child_u8(t, "beats"@), child_u8(t, "beat-type"@)) {
                (Some(b), Some(bt)) => Some(TimeSignature { numerator: b, denominator: bt, style: TimeSignatureStyle::Numeric }),
                _ => None,
            }
        },
    }
}

pub fn parse_time(attrs: &XmlNode) -> (r: Option<TimeSignature>)
    ensures
        r == spec_parse_time(*attrs),
{
    let time_node = match find_child(attrs, "time") {
        Some(t) => t,
        None => return None,
    };
    if has_child_tag(time_node, "senza-misura") {
        return None;
    }
    let beats = match child_parse_u8(time_node, "beats") {
        Some(b) => b,
        None => return None,
    };
    let beat_type = match child_parse_u8(time_node, "beat-type") {
        Some(b) => b,
        None => return None,
    };
    Some(TimeSignature { numerator: beats, denominator: beat_type, style: TimeSignatureStyle::Numeric })
}

/// Key mode named by `<mode>`; without a mode, C major / A minor (0 fifths)
/// has no mode and other keys are major. Unknown modes have none.
pub open spec fn spec_key_mode(mode: Seq<char>, fifths: i8) -> KeyMode {
    if mode == "major"@ {
        KeyMode::Major
    } else if mode == "minor"@ {
        KeyMode::Minor
    } else if mode == "dorian"@ {
        KeyMode::Dorian
    } else if mode == "phrygian"@ {
        KeyMode::Phrygian
    } else if mode == "lydian"@ {
        KeyMode::Lydian
    } else if mode == "mixolydian"@ {
        KeyMode::Mixolydian
    } else if mode == "aeolian"@ {
        KeyMode::Aeolian
    } else if mode == "ionian"@ {
        KeyMode::Ionian
    } else if mode == "locrian"@ {
        KeyMode::Locrian
    } else if mode == ""@ {
        if fifths == 0 { KeyMode::Unspecified } else { KeyMode::Major }
    } else {
        KeyMode::Unspecified
    }
}

/// Key signature of the first `<key>`: `<fifths>` (0 when absent or
/// unreadable) and `<mode>`.
pub open spec fn spec_parse_key(attrs: XmlNode) -> Option<KeySignature> {
    match child(attrs, "key"@) {
        None => None,
        Some(k) => {
            let fifths = match child_i8(k, "fifths"@) {
                Some(f) => f,
                None => 0i8,
            };
            let mode = match child_text(k, "mode"@) {
                Some(m) => m,
                None => Seq::empty(),
            };
            Some(KeySignature { fifths, mode: spec_key_mode(mode, fifths), cancel: None })
        },
    }
}

pub fn parse_key(attrs: &XmlNode) -> (r: Option<KeySignature>)
    ensures
        r == spec_parse_key(*attrs),
{
    let key_node = match find_child(attrs, "key") {
        Some(k) => k,
        None => return None,
    };
    let fifths: i8 = match child_parse_i8(key_node, "fifths") {
        Some(f) => f,
        None => 0,
    };
    let mode_text = match first_child_text(key_node, "mode") {
        Some(m) => m,
        None => String::new(),
    };
    let m = mode_text.as_str();
    let mode = if str_eq(m, "major") {
        KeyMode::Major
    } else if str_eq(m, "minor") {
        KeyMode::Minor
    } else if str_eq(m, "dorian") {
        KeyMode::Dorian
    } else if str_eq(m, "phrygian") {
        KeyMode::Phrygian
    } else if str_eq(m, "lydian") {
        KeyMode::Lydian
    } else if str_eq(m, "mixolydian") {
        KeyMode::Mixolydian
    } else if str_eq(m, "aeolian") {
        KeyMode::Aeolian
    } else if str_eq(m, "ionian") {
        KeyMode::Ionian
    } else if str_eq(m, "locrian") {
        KeyMode::Locrian
    } else if str_eq(m, "") {
        if fifths == 0 { KeyMode::Unspecified } else { KeyMode::Major }
    } else {
        KeyMode::Unspecified
    };
    Some(KeySignature { fifths, mode, cancel: None })
}

/// Law of key signatures: the first `<key>` of `attrs` gives the number of
/// fifths written in its `<fifths>` (negative for flat keys, positive for
/// sharp keys) whenever that text is an integer within `i8`, and 0 when
/// `<fifths>` is missing or unreadable; its other children do not change it.
pub proof fn lemma_key_fifths_as_written(attrs: XmlNode, k: XmlNode)
    requires
        child(attrs, "key"@) == Some(k),
    ensures
        spec_parse_key(attrs) is Some,
        forall|t: Seq<char>, v: int|
            child_text(k, "fifths"@) == Some(t) && spec_parse_int(t) == Some(v) && -128 <= v <= 127
                ==> (#[trigger] spec_parse_key(attrs)->Some_0.fifths) == v && spec_parse_int(t) == Some(v),
        forall|t: Seq<char>|
            child_text(k, "fifths"@) == Some(t) && #[trigger] spec_parse_int(t) is None
                ==> spec_parse_key(attrs)->Some_0.fifths == 0,
        child_text(k, "fifths"@) is None ==> spec_parse_key(attrs)->Some_0.fifths == 0,
{
}

/// Law of key modes: a written `<mode>` that names a mode (`major`, `minor`,
/// `dorian`, ... `locrian`) gives that mode whatever the fifths; without a `<mode>`, a key with fifths (flat or sharp)
/// is major and a key without is left unspecified.
pub proof fn lemma_key_mode_as_written(attrs: XmlNode, k: XmlNode)
    requires
        child(attrs, "key"@) == Some(k),
    ensures
        child_text(k, "mode"@) == Some("minor"@) ==> spec_parse_key(attrs)->Some_0.mode == KeyMode::Minor,
        child_text(k, "mode"@) == Some("major"@) ==> spec_parse_key(attrs)->Some_0.mode == KeyMode::Major,
        child_text(k, "mode"@) == Some("dorian"@) ==> spec_parse_key(attrs)->Some_0.mode == KeyMode::Dorian,
        child_text(k, "mode"@) == Some("phrygian"@) ==> spec_parse_key(attrs)->Some_0.mode == KeyMode::Phrygian,
        child_text(k, "mode"@) == Some("lydian"@) ==> spec_parse_key(attrs)->Some_0.mode == KeyMode::Lydian,
        child_text(k, "mode"@) == Some("mixolydian"@) ==> spec_parse_key(attrs)->Some_0.mode == KeyMode::Mixolydian,
        child_text(k, "mode"@) == Some("aeolian"@) ==> spec_parse_key(attrs)->Some_0.mode == KeyMode::Aeolian,
        child_text(k, "mode"@) == Some("ionian"@) ==> spec_parse_key(attrs)->Some_0.mode == KeyMode::Ionian,
        child_text(k, "mode"@) == Some("locrian"@) ==> spec_parse_key(attrs)->Some_0.mode == KeyMode::Locrian,
        child_text(k, "mode"@) is None ==> (spec_parse_key(attrs)->Some_0.mode == KeyMode::Major
            <==> spec_parse_key(attrs)->Some_0.fifths != 0),
        child_text(k, "mode"@) is None ==> (spec_parse_key(attrs)->Some_0.mode == KeyMode::Unspecified
            <==> spec_parse_key(attrs)->Some_0.fifths == 0),
{
    reveal_strlit("major");
    reveal_strlit("minor");
    reveal_strlit("dorian");
    reveal_strlit("phrygian");
    reveal_strlit("lydian");
    reveal_strlit("mixolydian");
    reveal_strlit("aeolian");
    reveal_strlit("ionian");
    reveal_strlit("locrian");
    reveal_strlit("");
    assert("minor"@[1] != "major"@[1]);
    assert("dorian"@.len() != "major"@.len());
    assert("dorian"@.len() != "minor"@.len());
    assert("phrygian"@.len() != "major"@.len());
    assert("phrygian"@.len() != "minor"@.len());
    assert("phrygian"@.len() != "dorian"@.len());
    assert("lydian"@.len() != "major"@.len());
    assert("lydian"@.len() != "minor"@.len());
    assert("lydian"@[0] != "dorian"@[0]);
    assert("lydian"@.len() != "phrygian"@.len());
    assert("mixolydian"@.len() != "major"@.len());
    assert("mixolydian"@.len() != "minor"@.len());
    assert("mixolydian"@.len() != "dorian"@.len());
    assert("mixolydian"@.len() != "phrygian"@.len());
    assert("mixolydian"@.len() != "lydian"@.len());
    assert("aeolian"@.len() != "major"@.len());
    assert("aeolian"@.len() != "minor"@.len());
    assert("aeolian"@.len() != "dorian"@.len());
    assert("aeolian"@.len() != "phrygian"@.len());
    assert("aeolian"@.len() != "lydian"@.len());
    assert("aeolian"@.len() != "mixolydian"@.len());
    assert("ionian"@.len() != "major"@.len());
    assert("ionian"@.len() != "minor"@.len());
    assert("ionian"@[0] != "dorian"@[0]);
    assert("ionian"@.len() != "phrygian"@.len());
    assert("ionian"@[0] != "lydian"@[0]);
    assert("ionian"@.len() != "mixolydian"@.len());
    assert("ionian"@.len() != "aeolian"@.len());
    assert("locrian"@.len() != "major"@.len());
    assert("locrian"@.len() != "minor"@.len());
    assert("locrian"@.len() != "dorian"@.len());
    assert("locrian"@.len() != "phrygian"@.len());
    assert("locrian"@.len() != "lydian"@.len());
    assert("locrian"@.len() != "mixolydian"@.len());
    assert("locrian"@[0] != "aeolian"@[0]);
    assert("locrian"@.len() != "ionian"@.len());
    assert(""@ =~= Seq::<char>::empty());
}

} // verus!
