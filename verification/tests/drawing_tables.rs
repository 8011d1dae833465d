use m_guitar::render::glyphs::technique_label;
use m_guitar::render::marks::{bar_strokes, BarStrokes, BarWeight};
use m_guitar::{BarStyle, HarmonicKind, SlideKind, TabTechnique};

#[test]
fn technique_labels_are_the_written_abbreviations() {
    assert_eq!(technique_label(&TabTechnique::HammerOn).as_deref(), Some("H"));
    assert_eq!(technique_label(&TabTechnique::PullOff).as_deref(), Some("P"));
    assert_eq!(technique_label(&TabTechnique::Tap).as_deref(), Some("T"));
    assert_eq!(technique_label(&TabTechnique::PalmMute).as_deref(), Some("P.M."));
    assert_eq!(
        technique_label(&TabTechnique::Harmonic { kind: HarmonicKind::Natural }).as_deref(),
        Some("N.H.")
    );
    assert_eq!(
        technique_label(&TabTechnique::Harmonic { kind: HarmonicKind::Semi }).as_deref(),
        Some("S.H.")
    );
    assert_eq!(technique_label(&TabTechnique::Trill { fret: 12 }).as_deref(), Some("tr12"));
    assert_eq!(technique_label(&TabTechnique::Trill { fret: 0 }).as_deref(), Some("tr0"));
}

#[test]
fn drawn_techniques_have_no_label() {
    assert_eq!(technique_label(&TabTechnique::Vibrato), None);
    assert_eq!(technique_label(&TabTechnique::Slide { kind: SlideKind::Into }), None);
    assert_eq!(
        technique_label(&TabTechnique::Bend { alter: "2".to_string(), pre_bend: false, release: false }),
        None
    );
    assert_eq!(technique_label(&TabTechnique::DeadNote), None);
}

#[test]
fn bar_line_strokes_per_style() {
    assert_eq!(bar_strokes(BarStyle::Regular), BarStrokes::Solid { first: BarWeight::Thin, second: None });
    assert_eq!(bar_strokes(BarStyle::Short), BarStrokes::Solid { first: BarWeight::Thin, second: None });
    assert_eq!(bar_strokes(BarStyle::Heavy), BarStrokes::Solid { first: BarWeight::Thick, second: None });
    assert_eq!(bar_strokes(BarStyle::LightLight), BarStrokes::Solid { first: BarWeight::Thin, second: Some(BarWeight::Thin) });
    assert_eq!(bar_strokes(BarStyle::LightHeavy), BarStrokes::Solid { first: BarWeight::Thin, second: Some(BarWeight::Thick) });
    assert_eq!(bar_strokes(BarStyle::HeavyLight), BarStrokes::Solid { first: BarWeight::Thick, second: Some(BarWeight::Thin) });
    assert_eq!(bar_strokes(BarStyle::HeavyHeavy), BarStrokes::Solid { first: BarWeight::Thick, second: Some(BarWeight::Thick) });
    assert_eq!(bar_strokes(BarStyle::Dotted), BarStrokes::Broken);
    assert_eq!(bar_strokes(BarStyle::Tick), BarStrokes::Broken);
    assert_eq!(bar_strokes(BarStyle::Invisible), BarStrokes::Invisible);
}
