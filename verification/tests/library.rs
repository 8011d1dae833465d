use m_guitar::audio::{
    dynamic_velocity, gate_factor, measure_velocity, note_sound, AudioError, EventKind, NoteSound,
};
use m_guitar::editing::{empty_score, figure_for_digits, NoteEntry};
use m_guitar::fingerboard::{
    fret_label, guitar_tuning, note_name_to_semitones, position_at, semitones_to_note_name,
    string_note_semitones, FingerboardState,
};
use m_guitar::notation::{ChordProgression, SectionKind};
use m_guitar::render::glyphs::{dynamics_text, first_metronome};
use m_guitar::render::style::{default_bg_dark, default_shadow_alpha, parse_hex, resolve};
use m_guitar::render::{dynamic_text, fermata_glyph, metronome_note_char, rest_glyph};
use m_guitar::sections::{
    build_chord_progression, classify_section_kind, collect_chord_symbols,
    detect_sections_from_score, str_contains,
};
use m_guitar::text::decimal;
use m_guitar::{
    paginate, Accidental, Articulation, Direction, DirectionKind, DynamicMark, FermataShape,
    Measure, MeasureElement, Metronome, Note, NoteAttachment, NoteFigure, Pitch, Placement, Slur,
    SlurKind, Step, Tie, TieKind,
};

fn rehearsal(text: &str) -> Direction {
    Direction {
        element_index: 0,
        placement: Placement::Above,
        staff: 1,
        kind: DirectionKind::Rehearsal(text.to_string()),
    }
}

fn measure_with(chord: Option<&str>, directions: Vec<Direction>) -> Measure {
    let mut m = m_guitar::editing::blank_measure();
    m.chord_symbol = chord.map(|c| c.to_string());
    m.directions = directions;
    m
}

// ── Audio decisions ──────────────────────────────────────────────

#[test]
fn velocities_of_dynamics() {
    assert_eq!(dynamic_velocity(&DynamicMark::PPPP), 16);
    assert_eq!(dynamic_velocity(&DynamicMark::MF), 80);
    assert_eq!(dynamic_velocity(&DynamicMark::FFFF), 127);
    assert_eq!(dynamic_velocity(&DynamicMark::SFZ), 120);
    assert_eq!(dynamic_velocity(&DynamicMark::FP), 100);
    assert_eq!(dynamic_velocity(&DynamicMark::RF), 108);
    assert_eq!(dynamic_velocity(&DynamicMark::Other("x".into())), 80);
}

#[test]
fn gates_by_articulation_and_slur() {
    let legato = Slur { kind: SlurKind::Start, number: 1, placement: Placement::Above };
    let closing = Slur { kind: SlurKind::Stop, number: 1, placement: Placement::Above };
    assert_eq!(gate_factor(&[], &[]), 900);
    assert_eq!(gate_factor(&[Articulation::Staccatissimo], &[legato]), 1000);
    assert_eq!(gate_factor(&[Articulation::Staccatissimo], &[closing]), 250);
    assert_eq!(gate_factor(&[Articulation::Tenuto, Articulation::Staccato], &[]), 500);
    assert_eq!(gate_factor(&[Articulation::Spiccato], &[]), 500);
    assert_eq!(gate_factor(&[Articulation::Tenuto], &[]), 1000);
}

#[test]
fn tied_notes_sound_once() {
    let tie = |kind| Tie { kind, number: 1, placement: Placement::Below };
    let mut first = Note::default();
    first.attachments = Some(NoteAttachment { ties: vec![tie(TieKind::Start)], ..Default::default() });
    let mut second = Note::default();
    second.attachments = Some(NoteAttachment { ties: vec![tie(TieKind::Stop)], ..Default::default() });
    let a = note_sound(&first, 80).unwrap();
    let b = note_sound(&second, 80).unwrap();
    assert_eq!(a, NoteSound { midi: 60, velocity: Some(80), gate: None });
    assert_eq!(b, NoteSound { midi: 60, velocity: None, gate: Some(900) });
}

#[test]
fn grace_notes_are_silent_and_dynamics_set_velocity() {
    let mut g = Note::default();
    g.grace = true;
    assert_eq!(note_sound(&g, 80), None);
    let mut loud = Note::default();
    loud.attachments = Some(NoteAttachment { dynamics: Some(DynamicMark::FF), ..Default::default() });
    assert_eq!(note_sound(&loud, 40).unwrap().velocity, Some(112));
    assert_eq!(note_sound(&Note::default(), 40).unwrap().velocity, Some(40));
}

#[test]
fn last_dynamics_of_a_measure_wins() {
    let dyns = |marks: Vec<DynamicMark>| Direction {
        element_index: 0,
        placement: Placement::Below,
        staff: 1,
        kind: DirectionKind::Dynamics(marks),
    };
    let ds = vec![dyns(vec![DynamicMark::P, DynamicMark::F]), rehearsal("A"), dyns(vec![]), dyns(vec![DynamicMark::FF])];
    assert_eq!(measure_velocity(&ds, 80), 112);
    assert_eq!(measure_velocity(&ds[..3], 80), 49);
    assert_eq!(measure_velocity(&[], 33), 33);
}

#[test]
fn audio_error_messages() {
    assert_eq!(AudioError::EngineInit.message(), "no se pudo inicializar el motor de audio");
    assert_eq!(
        AudioError::InstrumentLoad("x.sfz".into()).message(),
        "no se pudo cargar el instrumento: x.sfz"
    );
    assert_eq!(AudioError::OutputDevice("busy".into()).message(), "error de dispositivo de audio: busy");
    assert_ne!(EventKind::NoteOn { midi: 60, velocity: 80 }, EventKind::NoteOff { midi: 60 });
}

// ── Pagination ───────────────────────────────────────────────────

#[test]
fn staves_fill_pages_in_order() {
    let lines = vec![vec![2, 1], vec![3], vec![1, 1]];
    let pages = paginate(&lines, 4);
    let view: Vec<Vec<(usize, usize)>> = pages
        .iter()
        .map(|p| p.staff_refs.iter().map(|r| (r.system_idx, r.staff_idx)).collect())
        .collect();
    assert_eq!(view, vec![vec![(0, 0), (0, 1)], vec![(1, 0), (2, 0)], vec![(2, 1)]]);
}

#[test]
fn an_oversized_staff_gets_a_page_of_its_own() {
    let pages = paginate(&vec![vec![1, 9, 1]], 4);
    assert_eq!(pages.len(), 3);
    assert_eq!(pages[1].staff_refs.len(), 1);
    assert_eq!(pages[1].staff_refs[0].staff_idx, 1);
    assert!(paginate(&vec![], 4).is_empty());
    assert!(paginate(&vec![vec![], vec![]], 4).is_empty());
}

// ── Glyphs and texts ─────────────────────────────────────────────

#[test]
fn glyphs_and_dynamic_texts() {
    assert_eq!(rest_glyph(NoteFigure::Quarter), '\u{E4E5}');
    assert_eq!(rest_glyph(NoteFigure::HundredTwentyEighth), '\u{E4EA}');
    assert_eq!(fermata_glyph(FermataShape::Square, false), '\u{E4C5}');
    assert_eq!(fermata_glyph(FermataShape::Henze, false), '\u{E4C0}');
    assert_eq!(metronome_note_char(NoteFigure::Eighth), '\u{266A}');
    assert_eq!(metronome_note_char(NoteFigure::Half), '\u{2669}');
    assert_eq!(dynamic_text(&DynamicMark::SFPP), "sfpp");
    assert_eq!(dynamic_text(&DynamicMark::Other("fffff".into())), "fffff");
    assert_eq!(dynamics_text(&[DynamicMark::P, DynamicMark::Other("sub.".into()), DynamicMark::F]), "p sub. f");
    assert_eq!(dynamics_text(&[]), "");
}

#[test]
fn first_metronome_of_the_score() {
    let mut score = empty_score();
    assert_eq!(first_metronome(&score), None);
    let metro = Metronome { beat_unit: NoteFigure::Quarter, per_minute: 96, parentheses: false };
    score.systems[0].staves[0].measures[0].directions = vec![
        rehearsal("A"),
        Direction { element_index: 0, placement: Placement::Above, staff: 1, kind: DirectionKind::Metronome(metro) },
    ];
    assert_eq!(first_metronome(&score), Some(metro));
}

// ── Fretboard ────────────────────────────────────────────────────

#[test]
fn note_names_and_semitones() {
    assert_eq!(note_name_to_semitones("E2"), Some(28));
    assert_eq!(note_name_to_semitones(" F#3 "), Some(42));
    assert_eq!(note_name_to_semitones("Bb2"), Some(34));
    assert_eq!(note_name_to_semitones("C♯♯4"), Some(50));
    assert_eq!(note_name_to_semitones("H4"), None);
    assert_eq!(note_name_to_semitones("C"), None);
    assert_eq!(note_name_to_semitones(""), None);
    assert_eq!(semitones_to_note_name(40), "E3");
    assert_eq!(semitones_to_note_name(28), "E2");
    assert_eq!(semitones_to_note_name(-1), "B-1");
    assert_eq!(semitones_to_note_name(i32::MIN), "E-178956971");
}

#[test]
fn fret_positions_and_labels() {
    let tuning = guitar_tuning();
    assert_eq!(tuning, vec!["E2", "A2", "D3", "G3", "B3", "E4"]);
    assert_eq!(string_note_semitones(&tuning, 0, 5), Some(33));
    assert_eq!(string_note_semitones(&tuning, 6, 5), None);
    assert_eq!(fret_label(33, false, Some(28)), "A2");
    assert_eq!(fret_label(33, true, Some(28)), "4");
    assert_eq!(fret_label(27, true, Some(28)), "7");
    assert_eq!(fret_label(33, true, None), "A2");
    assert_eq!(position_at(2, 0, 6, 12), None);
    assert_eq!(position_at(2, 12, 6, 12), Some((2, 12)));
    assert_eq!(position_at(6, 3, 6, 12), None);
}

#[test]
fn selecting_twice_deselects() {
    let mut st = FingerboardState::new();
    st.toggle(1, 3);
    st.toggle(2, 5);
    assert!(st.is_selected(1, 3));
    st.toggle(1, 3);
    assert!(!st.is_selected(1, 3));
    assert!(st.is_selected(2, 5));
    assert_eq!(st.selected.len(), 1);
    st.set_hover(Some((4, 7)));
    assert_eq!((st.hover_string, st.hover_fret), (Some(4), Some(7)));
}

// ── Sections ─────────────────────────────────────────────────────

#[test]
fn section_kinds_from_rehearsal_texts() {
    assert_eq!(classify_section_kind("INTRO"), SectionKind::Intro);
    assert_eq!(classify_section_kind("Introducción"), SectionKind::Intro);
    assert_eq!(classify_section_kind("Verse 2"), SectionKind::Verse);
    assert_eq!(classify_section_kind("Estribillo"), SectionKind::Chorus);
    assert_eq!(classify_section_kind("Puente"), SectionKind::Bridge);
    assert_eq!(classify_section_kind("Guitar solo"), SectionKind::Solo);
    assert_eq!(classify_section_kind("Coda"), SectionKind::Outro);
    assert_eq!(classify_section_kind("B"), SectionKind::Custom);
    assert!(str_contains("abcabd", "abd"));
    assert!(!str_contains("ab", "abc"));
    assert!(str_contains("ab", ""));
}

#[test]
fn chord_progression_merges_runs() {
    let chords = vec![Some("Am".to_string()), Some("Am".to_string()), None, Some("G".to_string()), Some("Am".to_string())];
    let ChordProgression { chords: steps } = build_chord_progression(&chords, 0, 6);
    let view: Vec<(String, u32)> = steps.iter().map(|s| (s.symbol.0.clone(), s.measures)).collect();
    assert_eq!(view, vec![("Am".to_string(), 2), ("G".to_string(), 1), ("Am".to_string(), 1)]);
    assert!(build_chord_progression(&chords, 3, 2).chords.is_empty());
}

#[test]
fn sections_run_from_mark_to_mark() {
    let mut score = empty_score();
    score.systems[0].staves[0].measures = vec![
        measure_with(Some("C"), vec![rehearsal("Intro")]),
        measure_with(Some("C"), vec![]),
        measure_with(Some("G"), vec![rehearsal("Chorus")]),
        measure_with(None, vec![]),
    ];
    assert_eq!(collect_chord_symbols(&score), vec![Some("C".to_string()), Some("C".to_string()), Some("G".to_string()), None]);
    let secs = detect_sections_from_score(&score);
    assert_eq!(secs.len(), 2);
    assert_eq!(secs[0].kind, SectionKind::Intro);
    assert_eq!((secs[0].start_measure, secs[0].end_measure), (0, 1));
    assert_eq!(secs[0].progression.chords.len(), 1);
    assert_eq!(secs[0].progression.chords[0].measures, 2);
    assert_eq!(secs[0].color, "#4A90D9");
    assert_eq!(secs[1].kind, SectionKind::Chorus);
    assert_eq!((secs[1].start_measure, secs[1].end_measure), (2, 3));
    assert_eq!(secs[1].label, "Chorus");
}

#[test]
fn no_marks_no_sections() {
    assert!(detect_sections_from_score(&empty_score()).is_empty());
}

// ── Note entry ───────────────────────────────────────────────────

#[test]
fn typed_note_is_appended() {
    let mut score = empty_score();
    let mut entry = NoteEntry::new();
    entry.press_letter(Step::G);
    assert!(!entry.press_digit(3));
    assert!(entry.press_digit(2));
    let msg = entry.insert_note(&mut score);
    assert_eq!(msg.as_deref(), Some("Sol Fusa agregada"));
    assert_eq!(entry.pending_step, None);
    assert!(entry.pending_figure_digits.is_empty());
    match &score.systems[0].staves[0].measures[0].elements[..] {
        [MeasureElement::Note(n)] => {
            assert_eq!(n.pitch, Pitch { step: Step::G, accidental: Accidental::Natural, octave: 4 });
            assert_eq!(n.figure, NoteFigure::ThirtySecond);
        }
        _ => panic!("one note expected"),
    }
}

#[test]
fn unknown_digits_are_dropped() {
    let mut score = empty_score();
    let mut entry = NoteEntry::new();
    assert!(!entry.press_digit(4));
    assert!(entry.pending_figure_digits.is_empty());
    entry.press_letter(Step::A);
    entry.press_digit(9);
    entry.press_digit(9);
    assert_eq!(entry.insert_note(&mut score), None);
    assert!(entry.pending_figure_digits.is_empty());
    assert_eq!(entry.pending_step, Some(Step::A));
    assert!(score.systems[0].staves[0].measures[0].elements.is_empty());
    assert_eq!(figure_for_digits("6"), Some(NoteFigure::Sixteenth));
    assert_eq!(figure_for_digits("33"), Some(NoteFigure::SixtyFourth));
    assert_eq!(figure_for_digits("16"), None);
}

#[test]
fn a_score_without_systems_gets_one() {
    let mut score = empty_score();
    score.systems.clear();
    let mut entry = NoteEntry::new();
    entry.press_letter(Step::C);
    assert!(!entry.press_digit(1));
    assert_eq!(entry.insert_note(&mut score).as_deref(), Some("Do Redonda agregada"));
    assert_eq!(score.systems.len(), 1);
    assert_eq!(score.systems[0].staves[0].measures.len(), 1);
    assert_eq!(score.systems[0].staves[0].measures[0].elements.len(), 1);
}

// ── Colours and text ─────────────────────────────────────────────

#[test]
fn colour_texts() {
    assert_eq!(parse_hex("#FF8000"), (255, 128, 0, 255));
    assert_eq!(parse_hex("  #ff800080 "), (255, 128, 0, 128));
    assert_eq!(parse_hex("#GG0000"), (0, 0, 0, 255));
    assert_eq!(parse_hex("#+F0000"), (0, 0, 0, 255));
    assert_eq!(parse_hex("#GGFFFF"), (0, 0, 0, 255));
    assert_eq!(parse_hex("#FFFFFF8"), (0, 0, 0, 255));
    assert_eq!(parse_hex("FF0000"), (0, 0, 0, 255));
    assert_eq!(parse_hex("#FFF"), (0, 0, 0, 255));
    assert_eq!(parse_hex("#FFFFFFé"), (0, 0, 0, 255));
    assert_eq!(parse_hex("#éFFFFF"), (0, 0, 0, 255));
    assert_eq!(resolve("#000000", "#FFFFFF", true), "#FFFFFF");
    assert_eq!(default_bg_dark(), "#262626");
    assert_eq!(default_shadow_alpha(), 60);
}

#[test]
fn decimal_texts() {
    assert_eq!(decimal(0), "0");
    assert_eq!(decimal(-42), "-42");
    assert_eq!(decimal(1234567890123), "1234567890123");
    assert_eq!(decimal(i64::MAX), i64::MAX.to_string());
}
