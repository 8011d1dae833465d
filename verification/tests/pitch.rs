use m_guitar::{Accidental, Clef, Pitch, Step};

#[test]
fn midi_middle_c() {
    let c4 = Pitch { step: Step::C, accidental: Accidental::Natural, octave: 4 };
    assert_eq!(c4.midi(), 60);
}

#[test]
fn midi_a4() {
    let a4 = Pitch { step: Step::A, accidental: Accidental::Natural, octave: 4 };
    assert_eq!(a4.midi(), 69);
}

#[test]
fn midi_c_sharp_4() {
    let cs4 = Pitch { step: Step::C, accidental: Accidental::Sharp, octave: 4 };
    assert_eq!(cs4.midi(), 61);
}

#[test]
fn midi_b_flat_3() {
    let bb3 = Pitch { step: Step::B, accidental: Accidental::Flat, octave: 3 };
    assert_eq!(bb3.midi(), 58);
}

#[test]
fn staff_position_treble_b4() {
    let b4 = Pitch { step: Step::B, accidental: Accidental::Natural, octave: 4 };
    assert_eq!(b4.staff_position(Clef::Treble), 0);
}

#[test]
fn staff_position_treble_c4() {
    let c4 = Pitch { step: Step::C, accidental: Accidental::Natural, octave: 4 };
    // C4 is one ledger line below the treble staff.
    assert_eq!(c4.staff_position(Clef::Treble), -6);
}

#[test]
fn staff_position_treble_e4() {
    let e4 = Pitch { step: Step::E, accidental: Accidental::Natural, octave: 4 };
    // E4 is the bottom line of the treble staff.
    assert_eq!(e4.staff_position(Clef::Treble), -4);
}

#[test]
fn staff_position_treble_f5() {
    let f5 = Pitch { step: Step::F, accidental: Accidental::Natural, octave: 5 };
    // F5 is the top line of the treble staff.
    assert_eq!(f5.staff_position(Clef::Treble), 4);
}

#[test]
fn staff_position_bass_d3() {
    let d3 = Pitch { step: Step::D, accidental: Accidental::Natural, octave: 3 };
    assert_eq!(d3.staff_position(Clef::Bass), 0);
}

#[test]
fn staff_position_bass_middle_c() {
    let c4 = Pitch { step: Step::C, accidental: Accidental::Natural, octave: 4 };
    // Middle C in bass clef: one ledger line above.
    assert_eq!(c4.staff_position(Clef::Bass), 6);
}

#[test]
fn staff_position_bass_g2() {
    let g2 = Pitch { step: Step::G, accidental: Accidental::Natural, octave: 2 };
    // G2 is the bottom line of the bass staff.
    assert_eq!(g2.staff_position(Clef::Bass), -4);
}

#[test]
fn pitch_names_in_spanish() {
    let p = Pitch { step: Step::F, accidental: Accidental::Sharp, octave: 4 };
    assert_eq!(p.name_es(), "Fa sostenido");
    let q = Pitch { step: Step::B, accidental: Accidental::DoubleFlat, octave: 2 };
    assert_eq!(q.name_es(), "Si doble bemol");
}

#[test]
fn diatonic_index_counts_steps_from_c0() {
    let c0 = Pitch { step: Step::C, accidental: Accidental::Natural, octave: 0 };
    assert_eq!(c0.diatonic_index(), 0);
    let b4 = Pitch { step: Step::B, accidental: Accidental::Flat, octave: 4 };
    assert_eq!(b4.diatonic_index(), 34);
}

#[test]
fn clef_default_lines() {
    assert_eq!(Clef::Treble.default_line(), 2);
    assert_eq!(Clef::Bass.default_line(), 4);
    assert_eq!(Clef::Alto.default_line(), 3);
    assert_eq!(Clef::Tenor.default_line(), 4);
    assert_eq!(Clef::Tab.default_line(), 5);
}
