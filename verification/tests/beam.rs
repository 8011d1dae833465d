use m_guitar::render::beam::beams_fit_check;
use m_guitar::render::compute_beams;
use m_guitar::{MeasureElement, Note, NoteFigure, Rest};

fn eighth() -> MeasureElement {
    MeasureElement::Note(Note { figure: NoteFigure::Eighth, ..Default::default() })
}

fn quarter() -> MeasureElement {
    MeasureElement::Note(Note { figure: NoteFigure::Quarter, ..Default::default() })
}

#[test]
fn eight_eighths_in_4_4_make_four_pairs() {
    // Eight eighths in 4/4 make four groups of two.
    let elements: Vec<MeasureElement> = (0..8).map(|_| eighth()).collect();
    let groups = compute_beams(&elements, 4);
    assert_eq!(groups.len(), 4, "4 beam groups for 8 eighths in 4/4");
    assert_eq!(groups[0].start_idx, 0);
    assert_eq!(groups[0].end_idx, 1);
    assert_eq!(groups[1].start_idx, 2);
    assert_eq!(groups[1].end_idx, 3);
    assert_eq!(groups[2].start_idx, 4);
    assert_eq!(groups[2].end_idx, 5);
    assert_eq!(groups[3].start_idx, 6);
    assert_eq!(groups[3].end_idx, 7);
}

#[test]
fn quarter_breaks_beam_group() {
    // eighth + quarter + eighth: the quarter takes no beam and breaks the run.
    let elements = vec![eighth(), quarter(), eighth()];
    let groups = compute_beams(&elements, 4);
    assert!(groups.is_empty(), "no beam groups: quarter breaks the run");
}

#[test]
fn mixed_eighths_sixteenths_in_one_beat() {
    // eighth + two sixteenths within one beat: one run, two beam levels.
    let mut elements = vec![eighth()];
    elements.push(MeasureElement::Note(Note { figure: NoteFigure::Sixteenth, ..Default::default() }));
    elements.push(MeasureElement::Note(Note { figure: NoteFigure::Sixteenth, ..Default::default() }));
    let groups = compute_beams(&elements, 4);
    assert_eq!(groups.len(), 2, "two beam levels for mixed eighths+sixteenths");
    assert_eq!(groups[0].start_idx, 0);
    assert_eq!(groups[0].end_idx, 2);
    assert_eq!(groups[0].level, 0);
    assert_eq!(groups[1].start_idx, 0);
    assert_eq!(groups[1].end_idx, 2);
    assert_eq!(groups[1].level, 1);
}

#[test]
fn rest_breaks_beam_group() {
    let rest = MeasureElement::Rest(Rest {
        figure: NoteFigure::Eighth,
        dotted: 0,
        time_modification: None,
        display_step: None,
        display_octave: None,
        measure: false,
    });
    let elements = vec![eighth(), rest, eighth()];
    let groups = compute_beams(&elements, 4);
    assert!(groups.is_empty());
}

#[test]
fn every_group_spans_at_least_two_elements() {
    let elements: Vec<MeasureElement> = (0..5).map(|_| eighth()).collect();
    let groups = compute_beams(&elements, 4);
    assert_eq!(groups.len(), 2);
    for g in &groups {
        assert!(g.start_idx < g.end_idx);
        assert!(g.end_idx < elements.len());
    }
}

#[test]
fn huge_divisions_still_beam() {
    // With 2^31 divisions per quarter, an eighth lasts 2^30: the first two
    // fill a beat and are beamed; the third starts a new run alone.
    let elements = vec![eighth(), eighth(), eighth()];
    let divisions: u32 = 1 << 31;
    assert!(beams_fit_check(&elements, divisions));
    let groups = compute_beams(&elements, divisions);
    assert_eq!(groups.len(), 1);
    assert_eq!((groups[0].start_idx, groups[0].end_idx, groups[0].level), (0, 1, 0));
}

#[test]
fn runs_that_overflow_a_u32_do_not_fit() {
    // An eighth of u32::MAX divisions lasts 2^31 - 1; three of them never
    // meet a beat and overflow the count.
    let elements = vec![eighth(), eighth(), eighth()];
    assert!(!beams_fit_check(&elements, u32::MAX));
    assert!(beams_fit_check(&elements[..2], u32::MAX));
    assert!(beams_fit_check(&[], 0));
}
