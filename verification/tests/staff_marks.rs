use m_guitar::notation::{ChordProgression, ChordStep, ChordSymbol, SectionKind};
use m_guitar::render::marks::{
    chord_stem_direction, dot_raised, extreme_position, key_signature_glyphs, key_with_cancel,
    ledger_lines,
    octave_shift_text, second_side, stem_direction_for, syllable_text, time_signature_digits,
};
use m_guitar::fingerboard::{fret_dots, fret_line_strength, shows_fret_number};
use m_guitar::render::glyphs::shows_credit;
use m_guitar::render::spans::{glissando_spans, slur_spans, tie_spans, tuplet_runs};
use m_guitar::sections::{chord_labels, score_theme};
use m_guitar::{
    Accidental, Credit, CreditJustify, CreditKind, Direction, Lyric, Syllabic, DirectionKind, Glissando, GlissandoKind, KeyMode, KeySignature,
    LineType, NoteAttachment, OctaveShift, OctaveShiftKind, Pitch, Placement, Slur, SlurKind,
    StemDirection, Step, Tie, TieKind, Tuplet, ViewMode,
};

fn measure_with(chord: Option<&str>, mark: Option<&str>) -> m_guitar::Measure {
    let mut m = m_guitar::editing::blank_measure();
    m.chord_symbol = chord.map(|c| c.to_string());
    if let Some(t) = mark {
        m.directions.push(Direction {
            element_index: 0,
            placement: Placement::Above,
            staff: 1,
            kind: DirectionKind::Rehearsal(t.to_string()),
        });
    }
    m
}

fn key(fifths: i8, cancel: Option<i8>) -> KeySignature {
    KeySignature { fifths, mode: KeyMode::Major, cancel }
}

// ── Ledger lines, stems, dots ───────────────────────────────────

#[test]
fn ledger_lines_above_and_below() {
    assert!(ledger_lines(0).is_empty());
    assert!(ledger_lines(5).is_empty());
    assert!(ledger_lines(-5).is_empty());
    assert_eq!(ledger_lines(6), vec![6]);
    assert_eq!(ledger_lines(7), vec![6]);
    assert_eq!(ledger_lines(10), vec![6, 8, 10]);
    assert_eq!(ledger_lines(-6), vec![-6]);
    assert_eq!(ledger_lines(-7), vec![-6]);
    assert_eq!(ledger_lines(-10), vec![-10, -8, -6]);
    assert_eq!(ledger_lines(127).len(), 61);
}

#[test]
fn stems_follow_the_middle_line() {
    assert_eq!(stem_direction_for(-1), StemDirection::Up);
    assert_eq!(stem_direction_for(0), StemDirection::Down);
    assert_eq!(stem_direction_for(4), StemDirection::Down);
    assert_eq!(chord_stem_direction(&[-3, 1]), StemDirection::Up);
    assert_eq!(chord_stem_direction(&[-3, 3]), StemDirection::Down);
    assert_eq!(chord_stem_direction(&[]), StemDirection::Down);
}

#[test]
fn beamed_stems_follow_the_farthest_note() {
    assert_eq!(extreme_position(&[]), 0);
    assert_eq!(extreme_position(&[1, -4, 3]), -4);
    assert_eq!(extreme_position(&[3, -3]), -3);
    assert_eq!(extreme_position(&[-3, 3]), -3);
    assert_eq!(extreme_position(&[2, 5, 1]), 5);
    assert_eq!(stem_direction_for(extreme_position(&[2, 5, 1])), StemDirection::Down);
}

#[test]
fn dots_and_seconds() {
    assert!(dot_raised(0));
    assert!(dot_raised(-2));
    assert!(!dot_raised(3));
    assert!(!dot_raised(-3));
    assert_eq!(second_side(&[0, 1], 0), 1);
    assert_eq!(second_side(&[0, 1], 1), -1);
    assert_eq!(second_side(&[0, 2], 0), 0);
    assert_eq!(second_side(&[-3, -2], -3), -1);
}

// ── Key and time signatures ─────────────────────────────────────

#[test]
fn key_signature_accidentals() {
    assert!(key_signature_glyphs(&key(0, None)).is_empty());
    assert_eq!(
        key_signature_glyphs(&key(2, None)),
        vec![(3, '\u{E262}'), (0, '\u{E262}')]
    );
    assert_eq!(
        key_signature_glyphs(&key(-3, None)),
        vec![(6, '\u{E260}'), (2, '\u{E260}'), (5, '\u{E260}')]
    );
    let seven_sharps = key_signature_glyphs(&key(7, None));
    assert_eq!(seven_sharps.len(), 7);
    assert_eq!(seven_sharps[4], (5, '\u{E262}'));
    assert_eq!(seven_sharps[5], (-5, '\u{E262}'));
    assert_eq!(seven_sharps[6], (-1, '\u{E262}'));
    let seven_flats = key_signature_glyphs(&key(-7, None));
    assert_eq!(seven_flats[5], (7, '\u{E260}'));
    assert_eq!(seven_flats[6], (10, '\u{E260}'));
}

#[test]
fn key_change_cancels_first() {
    let g = key_signature_glyphs(&key(1, Some(-2)));
    assert_eq!(g, vec![(6, '\u{E261}'), (2, '\u{E261}'), (3, '\u{E262}')]);
    assert!(key_signature_glyphs(&key(0, Some(0))).is_empty());
    assert_eq!(key_signature_glyphs(&key(-100, None)).len(), 7);
}

#[test]
fn time_signature_numbers() {
    assert_eq!(time_signature_digits(4), vec!['\u{E084}']);
    assert_eq!(time_signature_digits(12), vec!['\u{E081}', '\u{E082}']);
    assert_eq!(time_signature_digits(0), vec!['\u{E080}']);
    assert_eq!(
        time_signature_digits(255),
        vec!['\u{E082}', '\u{E085}', '\u{E085}']
    );
}

#[test]
fn octave_line_texts() {
    let shift = |size, kind| OctaveShift { size, kind };
    assert_eq!(octave_shift_text(&shift(8, OctaveShiftKind::Up)), "8va");
    assert_eq!(octave_shift_text(&shift(8, OctaveShiftKind::Down)), "8vb");
    assert_eq!(octave_shift_text(&shift(15, OctaveShiftKind::Up)), "15ma");
    assert_eq!(octave_shift_text(&shift(15, OctaveShiftKind::Down)), "15mb");
    assert_eq!(octave_shift_text(&shift(8, OctaveShiftKind::Stop)), "8va");
    assert_eq!(octave_shift_text(&shift(22, OctaveShiftKind::Up)), "8va");
}

#[test]
fn midi_is_computable_within_i8() {
    let p = |octave| Pitch { step: Step::C, accidental: Accidental::Natural, octave };
    assert!(p(4).midi_computable());
    assert_eq!(p(4).midi(), 60);
    assert!(p(9).midi_computable());
    assert!(!p(10).midi_computable());
    assert!(!p(-12).midi_computable());
    let b9 = Pitch { step: Step::B, accidental: Accidental::DoubleSharp, octave: 9 };
    assert!(!b9.midi_computable());
}

// ── Spans between notes ─────────────────────────────────────────

fn with_ties(ties: Vec<(TieKind, u8)>) -> NoteAttachment {
    let mut a = NoteAttachment::default();
    a.ties = ties
        .into_iter()
        .map(|(kind, number)| Tie { kind, number, placement: Placement::Above })
        .collect();
    a
}

#[test]
fn ties_pair_with_the_next_stop_of_their_number() {
    let atts = vec![
        with_ties(vec![(TieKind::Start, 1), (TieKind::Start, 2)]),
        with_ties(vec![(TieKind::Stop, 2)]),
        NoteAttachment::default(),
        with_ties(vec![(TieKind::Stop, 1), (TieKind::Stop, 1)]),
        with_ties(vec![(TieKind::Start, 3)]),
    ];
    assert_eq!(tie_spans(&atts), vec![(0, 3), (0, 1)]);
    assert!(tie_spans(&[]).is_empty());
}

#[test]
fn slurs_keep_their_placement() {
    let slur = |kind, number, placement| {
        let mut a = NoteAttachment::default();
        a.slurs = vec![Slur { kind, number, placement }];
        a
    };
    let atts = vec![
        slur(SlurKind::Start, 1, Placement::Below),
        slur(SlurKind::Stop, 2, Placement::Above),
        slur(SlurKind::Stop, 1, Placement::Above),
        slur(SlurKind::Start, 1, Placement::Above),
    ];
    assert_eq!(slur_spans(&atts), vec![(0, 2, Placement::Below)]);
}

#[test]
fn glissandos_end_at_the_next_stop() {
    let gliss = |kind| {
        let mut a = NoteAttachment::default();
        a.glissando = Some(Glissando { kind, line_type: LineType::Wavy });
        a
    };
    let atts = vec![
        gliss(GlissandoKind::Start),
        NoteAttachment::default(),
        gliss(GlissandoKind::Stop),
        gliss(GlissandoKind::Start),
    ];
    assert_eq!(glissando_spans(&atts), vec![(0, 2)]);
}

#[test]
fn tuplet_brackets_cover_runs() {
    let t = || {
        let mut a = NoteAttachment::default();
        a.tuplet = Some(Tuplet::default());
        a
    };
    let plain = NoteAttachment::default;
    let atts = vec![t(), t(), t(), plain(), t(), plain(), t(), t()];
    assert_eq!(tuplet_runs(&atts), vec![(0, 2), (6, 7)]);
    assert!(tuplet_runs(&[plain()]).is_empty());
}

// ── Theme map ───────────────────────────────────────────────────

fn progression(steps: &[(&str, u32)]) -> ChordProgression {
    ChordProgression {
        chords: steps
            .iter()
            .map(|(s, n)| ChordStep { symbol: ChordSymbol(s.to_string()), measures: *n })
            .collect(),
    }
}

#[test]
fn chord_labels_show_changes_only() {
    let p = progression(&[("C", 2), ("G", 1), ("G", 1)]);
    assert_eq!(
        chord_labels(&p, 6),
        vec![Some("C".to_string()), None, Some("G".to_string()), None, None, None]
    );
    assert_eq!(chord_labels(&p, 1), vec![Some("C".to_string())]);
    assert!(chord_labels(&progression(&[]), 0).is_empty());
}

#[test]
fn theme_of_a_score_with_marks() {
    let mut score = m_guitar::editing::empty_score();
    score.title = "Tema".to_string();
    score.systems[0].staves[0].measures = vec![
        measure_with(Some("Am"), Some("Intro")),
        measure_with(Some("Am"), None),
        measure_with(Some("F"), Some("Coro")),
    ];
    let theme = score_theme(&score, "Sin nombre").unwrap();
    assert_eq!(theme.name, "Tema");
    assert_eq!(theme.sections.len(), 2);
    assert_eq!(theme.sections[0].kind, SectionKind::Intro);
    assert_eq!((theme.sections[0].start_measure, theme.sections[0].end_measure), (0, 1));
    assert_eq!(theme.sections[1].kind, SectionKind::Chorus);
}

#[test]
fn theme_without_marks_spans_the_score() {
    let mut score = m_guitar::editing::empty_score();
    score.systems[0].staves[0].measures =
        vec![measure_with(Some("D"), None), measure_with(Some("D"), None)];
    let theme = score_theme(&score, "Sin nombre").unwrap();
    assert_eq!(theme.name, "Sin nombre");
    assert_eq!(theme.sections.len(), 1);
    let s = &theme.sections[0];
    assert_eq!(s.kind, SectionKind::Custom);
    assert_eq!(s.label, "");
    assert_eq!((s.start_measure, s.end_measure), (0, 1));
    assert_eq!(s.color, "#5DADE2");
    assert_eq!(s.progression.chords.len(), 1);
    assert_eq!(s.progression.chords[0].measures, 2);
}

#[test]
fn no_measures_no_theme() {
    let mut score = m_guitar::editing::empty_score();
    score.systems[0].staves[0].measures.clear();
    assert!(score_theme(&score, "x").is_none());
}

#[test]
fn syllables_that_continue_a_word_end_in_a_hyphen() {
    let l = |syllabic| Lyric { number: 1, syllabic, text: "can".to_string(), extend: false };
    assert_eq!(syllable_text(&l(Syllabic::Begin)), "can-");
    assert_eq!(syllable_text(&l(Syllabic::Middle)), "can-");
    assert_eq!(syllable_text(&l(Syllabic::End)), "can");
    assert_eq!(syllable_text(&l(Syllabic::Single)), "can");
}

#[test]
fn view_toggle_goes_back_and_forth() {
    assert_eq!(ViewMode::Score.toggled(), ViewMode::ThemeMap);
    assert_eq!(ViewMode::ThemeMap.toggled(), ViewMode::Score);
    assert_eq!(ViewMode::Score.toggled().toggled(), ViewMode::Score);
    assert_eq!(ViewMode::Score.toggle_icon(), "🗺️");
    assert_eq!(ViewMode::ThemeMap.toggle_icon(), "🎼");
}

#[test]
fn key_changes_cancel_the_previous_key() {
    let g = key(2, None);
    let f = key(-1, None);
    assert_eq!(key_with_cancel(&g, Some(&f)), key(2, Some(-1)));
    assert_eq!(key_with_cancel(&g, Some(&g)), g);
    assert_eq!(key_with_cancel(&g, None), g);
}

#[test]
fn header_credits_skip_the_centred_title_and_composer() {
    let mut score = m_guitar::editing::empty_score();
    score.title = "Tema".to_string();
    score.composer = "Ana".to_string();
    let credit = |text: &str, justify| Credit {
        page: 1,
        kind: CreditKind::Words(text.to_string()),
        default_x: "100".to_string(),
        default_y: "100".to_string(),
        justify,
    };
    assert!(!shows_credit(&score, &credit("Tema", CreditJustify::Center)));
    assert!(!shows_credit(&score, &credit("Ana", CreditJustify::Center)));
    assert!(shows_credit(&score, &credit("Ana", CreditJustify::Right)));
    assert!(shows_credit(&score, &credit("Arreglo: Luis", CreditJustify::Center)));
    let symbol = Credit { kind: CreditKind::Symbol('x'), ..credit("", CreditJustify::Left) };
    assert!(!shows_credit(&score, &symbol));
}

#[test]
fn fret_marks_of_the_fingerboard() {
    assert_eq!(fret_line_strength(12), 2);
    assert_eq!(fret_line_strength(24), 2);
    assert_eq!(fret_line_strength(5), 1);
    assert_eq!(fret_line_strength(10), 1);
    assert_eq!(fret_line_strength(7), 0);
    assert!(shows_fret_number(1));
    assert!(shows_fret_number(12));
    assert!(!shows_fret_number(13));
    assert!(shows_fret_number(24));
    assert_eq!(fret_dots(12), 2);
    assert_eq!(fret_dots(3), 1);
    assert_eq!(fret_dots(15), 1);
    assert_eq!(fret_dots(4), 0);
    assert_eq!(fret_dots(17), 0);
}
