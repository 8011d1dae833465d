use m_guitar::{
    parse_musicxml, Accidental, Clef, CreditJustify, CreditKind, Measure, MeasureElement,
    MusicXmlError, Note, NoteFigure, Score, Staff, Step,
};

/// The notes of a measure, skipping rests, chords and cursor moves.
fn extract_notes(elements: &[MeasureElement]) -> Vec<&Note> {
    elements
        .iter()
        .filter_map(|e| match e {
            MeasureElement::Note(n) => Some(n),
            _ => None,
        })
        .collect()
}

/// The first staff of the first system.
fn first_staff(score: &Score) -> &Staff {
    &score.systems[0].staves[0]
}

/// The first measure of the first staff.
fn first_measure(score: &Score) -> &Measure {
    &first_staff(score).measures[0]
}

#[test]
fn parse_basic_musicxml() {
    let xml = r#"<?xml version="1.0" encoding="UTF-8"?>
<score-partwise version="4.0">
  <movement-title>Test Piece</movement-title>
  <identification>
<creator type="composer">J.S. Bach</creator>
  </identification>
  <part-list>
<score-part id="P1"><part-name>Piano</part-name></score-part>
  </part-list>
  <part id="P1">
<measure number="1">
  <attributes>
    <divisions>1</divisions>
    <key><fifths>0</fifths></key>
    <time><beats>4</beats><beat-type>4</beat-type></time>
    <clef><sign>G</sign><line>2</line></clef>
  </attributes>
  <note>
    <pitch><step>C</step><octave>4</octave></pitch>
    <duration>1</duration>
    <type>quarter</type>
  </note>
  <note>
    <pitch><step>D</step><octave>4</octave></pitch>
    <duration>1</duration>
    <type>quarter</type>
  </note>
  <note>
    <pitch><step>E</step><alter>1</alter><octave>4</octave></pitch>
    <duration>1</duration>
    <type>quarter</type>
    <dot/>
  </note>
  <note>
    <pitch><step>F</step><alter>-1</alter><octave>4</octave></pitch>
    <duration>2</duration>
    <type>half</type>
  </note>
</measure>
  </part>
</score-partwise>"#;

    let score = parse_musicxml(xml).expect("should parse successfully");

    assert_eq!(score.title, "Test Piece");
    assert_eq!(score.composer, "J.S. Bach");
    assert_eq!(score.systems.len(), 1);
    assert_eq!(first_staff(&score).clef, Clef::Treble);
    assert_eq!(first_staff(&score).measures.len(), 1);

    let measure = first_measure(&score);
    assert_eq!(measure.time_signature.numerator, 4);
    assert_eq!(measure.time_signature.denominator, 4);

    let notes = extract_notes(&measure.elements);
    assert_eq!(notes.len(), 4);

    assert_eq!(notes[0].pitch.step, Step::C);
    assert_eq!(notes[0].pitch.accidental, Accidental::Natural);
    assert_eq!(notes[0].pitch.octave, 4);
    assert_eq!(notes[0].figure, NoteFigure::Quarter);
    assert_eq!(notes[0].dotted, 0);

    assert_eq!(notes[1].pitch.step, Step::D);
    assert_eq!(notes[2].pitch.step, Step::E);
    assert_eq!(notes[2].pitch.accidental, Accidental::Sharp);
    assert_eq!(notes[2].dotted, 1);
    assert_eq!(notes[3].pitch.step, Step::F);
    assert_eq!(notes[3].pitch.accidental, Accidental::Flat);
    assert_eq!(notes[3].figure, NoteFigure::Half);
}

#[test]
fn parse_bass_clef() {
    let xml = r#"<?xml version="1.0" encoding="UTF-8"?>
<score-partwise version="4.0">
  <part-list><score-part id="P1"><part-name>Bass</part-name></score-part></part-list>
  <part id="P1">
<measure number="1">
  <attributes>
    <clef><sign>F</sign><line>4</line></clef>
  </attributes>
  <note>
    <pitch><step>G</step><octave>2</octave></pitch>
    <duration>1</duration>
    <type>whole</type>
  </note>
</measure>
  </part>
</score-partwise>"#;

    let score = parse_musicxml(xml).expect("should parse");
    assert_eq!(first_staff(&score).clef, Clef::Bass);
    let notes = extract_notes(&first_measure(&score).elements);
    assert_eq!(notes[0].figure, NoteFigure::Whole);
}

#[test]
fn skip_rests_and_grace_notes() {
    let xml = r#"<?xml version="1.0" encoding="UTF-8"?>
<score-partwise version="4.0">
  <part-list><score-part id="P1"><part-name>Test</part-name></score-part></part-list>
  <part id="P1">
<measure number="1">
  <attributes>
    <clef><sign>G</sign><line>2</line></clef>
  </attributes>
  <note>
    <rest/>
    <duration>1</duration>
    <type>quarter</type>
  </note>
  <note>
    <pitch><step>C</step><octave>4</octave></pitch>
    <duration>1</duration>
    <type>quarter</type>
  </note>
  <note>
    <grace/>
    <pitch><step>D</step><octave>4</octave></pitch>
    <type>eighth</type>
  </note>
  <note>
    <pitch><step>E</step><octave>4</octave></pitch>
    <duration>1</duration>
    <type>quarter</type>
  </note>
</measure>
  </part>
</score-partwise>"#;

    let score = parse_musicxml(xml).expect("should parse");
    let notes = extract_notes(&first_measure(&score).elements);
    assert_eq!(notes.len(), 2);
    assert_eq!(notes[0].pitch.step, Step::C);
    assert_eq!(notes[1].pitch.step, Step::E);
}

#[test]
fn breve_note_type_parsed() {
    // Breve is now supported
    let xml = r#"<?xml version="1.0" encoding="UTF-8"?>
<score-partwise version="4.0">
  <part-list><score-part id="P1"><part-name>Test</part-name></score-part></part-list>
  <part id="P1">
<measure number="1">
  <attributes>
    <clef><sign>G</sign><line>2</line></clef>
  </attributes>
  <note>
    <pitch><step>C</step><octave>4</octave></pitch>
    <duration>1</duration>
    <type>quarter</type>
  </note>
  <note>
    <pitch><step>D</step><octave>4</octave></pitch>
    <duration>8</duration>
    <type>breve</type>
  </note>
  <note>
    <pitch><step>E</step><octave>4</octave></pitch>
    <duration>1</duration>
    <type>quarter</type>
  </note>
</measure>
  </part>
</score-partwise>"#;

    let score = parse_musicxml(xml).expect("should parse");
    let notes = extract_notes(&first_measure(&score).elements);
    // Breve is now supported, so 3 notes
    assert_eq!(notes.len(), 3);
    assert_eq!(notes[1].figure, NoteFigure::Breve);
}

#[test]
fn invalid_xml_returns_error() {
    let result = parse_musicxml("not valid xml");
    assert!(result.is_err());
}

#[test]
fn wrong_root_element() {
    let xml = "<something-else></something-else>";
    let result = parse_musicxml(xml);
    assert!(result.is_err());
}

#[test]
fn tenor_clef_octave_shift() {
    let xml = r#"<?xml version="1.0" encoding="UTF-8"?>
<score-partwise version="4.0">
  <part-list><score-part id="P1"><part-name>Tenor</part-name></score-part></part-list>
  <part id="P1">
<measure number="1">
  <attributes>
    <clef><sign>G</sign><line>2</line><clef-octave-change>-1</clef-octave-change></clef>
  </attributes>
  <note>
    <pitch><step>C</step><octave>5</octave></pitch>
    <duration>1</duration>
    <type>quarter</type>
  </note>
</measure>
  </part>
</score-partwise>"#;

    let score = parse_musicxml(xml).expect("should parse");
    let notes = extract_notes(&first_measure(&score).elements);
    // clef-octave-change=-1 shifts octave down: 5 + (-1) = 4
    assert_eq!(notes[0].pitch.octave, 4);
    assert_eq!(notes[0].pitch.step, Step::C);
}

#[test]
fn additional_clef_not_primary() {
    let xml = r#"<?xml version="1.0" encoding="UTF-8"?>
<score-partwise version="4.0">
  <part-list><score-part id="P1"><part-name>Piano</part-name></score-part></part-list>
  <part id="P1">
<measure number="1">
  <attributes>
    <clef><sign>G</sign><line>2</line></clef>
    <clef additional="yes"><sign>F</sign><line>4</line></clef>
  </attributes>
  <note>
    <pitch><step>C</step><octave>4</octave></pitch>
    <duration>1</duration>
    <type>quarter</type>
  </note>
</measure>
  </part>
</score-partwise>"#;

    let score = parse_musicxml(xml).expect("should parse");
    assert_eq!(first_staff(&score).clef, Clef::Treble);
}

#[test]
fn senza_misura_keeps_default_time() {
    let xml = r#"<?xml version="1.0" encoding="UTF-8"?>
<score-partwise version="4.0">
  <part-list><score-part id="P1"><part-name>Test</part-name></score-part></part-list>
  <part id="P1">
<measure number="1">
  <attributes>
    <time><senza-misura/></time>
    <clef><sign>G</sign><line>2</line></clef>
  </attributes>
  <note>
    <pitch><step>C</step><octave>4</octave></pitch>
    <duration>1</duration>
    <type>quarter</type>
  </note>
</measure>
  </part>
</score-partwise>"#;

    let score = parse_musicxml(xml).expect("should parse");
    let time = first_measure(&score).time_signature;
    assert_eq!(time.numerator, 4);
    assert_eq!(time.denominator, 4);
}

#[test]
fn score_timewise_rejected() {
    let xml = r#"<?xml version="1.0" encoding="UTF-8"?>
<score-timewise version="4.0">
  <measure number="1">
<part id="P1">
  <note><pitch><step>C</step><octave>4</octave></pitch><duration>1</duration><type>quarter</type></note>
</part>
  </measure>
</score-timewise>"#;

    let result = parse_musicxml(xml);
    assert!(result.is_err());
    match result {
        Err(MusicXmlError::Unsupported(msg)) => {
            assert!(
                msg.contains("timewise"),
                "expected timewise error, got: {msg}"
            );
        }
        _ => panic!("expected Unsupported error"),
    }
}

#[test]
fn missing_note_type_skipped() {
    let xml = r#"<?xml version="1.0" encoding="UTF-8"?>
<score-partwise version="4.0">
  <part-list><score-part id="P1"><part-name>Test</part-name></score-part></part-list>
  <part id="P1">
<measure number="1">
  <attributes>
    <clef><sign>G</sign><line>2</line></clef>
  </attributes>
  <note>
    <pitch><step>C</step><octave>4</octave></pitch>
    <duration>4</duration>
  </note>
  <note>
    <pitch><step>D</step><octave>4</octave></pitch>
    <duration>1</duration>
    <type>quarter</type>
  </note>
</measure>
  </part>
</score-partwise>"#;

    let score = parse_musicxml(xml).expect("should parse");
    let notes = extract_notes(&first_measure(&score).elements);
    assert_eq!(notes.len(), 1);
    assert_eq!(notes[0].pitch.step, Step::D);
}

#[test]
fn creator_fallback_no_type_attribute() {
    let xml = r#"<?xml version="1.0" encoding="UTF-8"?>
<score-partwise version="4.0">
  <identification>
<creator>Anonymous</creator>
  </identification>
  <part-list><score-part id="P1"><part-name>Test</part-name></score-part></part-list>
  <part id="P1">
<measure number="1">
  <attributes>
    <clef><sign>G</sign><line>2</line></clef>
  </attributes>
  <note>
    <pitch><step>C</step><octave>4</octave></pitch>
    <duration>1</duration>
    <type>quarter</type>
  </note>
</measure>
  </part>
</score-partwise>"#;

    let score = parse_musicxml(xml).expect("should parse");
    assert_eq!(score.composer, "Anonymous");
}

#[test]
fn clef_without_line_uses_standard_default() {
    let xml = r#"<?xml version="1.0" encoding="UTF-8"?>
<score-partwise version="4.0">
  <part-list><score-part id="P1"><part-name>Test</part-name></score-part></part-list>
  <part id="P1">
<measure number="1">
  <attributes>
    <clef><sign>F</sign></clef>
  </attributes>
  <note>
    <pitch><step>C</step><octave>3</octave></pitch>
    <duration>1</duration>
    <type>quarter</type>
  </note>
</measure>
  </part>
</score-partwise>"#;

    let score = parse_musicxml(xml).expect("should parse");
    assert_eq!(first_staff(&score).clef, Clef::Bass);
}

#[test]
fn direction_and_lyric_parsed() {
    let xml = r#"<?xml version="1.0" encoding="UTF-8"?>
<score-partwise version="4.0">
  <part-list><score-part id="P1"><part-name>Test</part-name></score-part></part-list>
  <part id="P1">
<measure number="1">
  <attributes>
    <divisions>1</divisions>
    <clef><sign>G</sign><line>2</line></clef>
  </attributes>
  <direction placement="below">
    <direction-type>
      <dynamics><f/></dynamics>
    </direction-type>
  </direction>
  <note>
    <pitch><step>C</step><octave>4</octave></pitch>
    <duration>1</duration>
    <type>quarter</type>
    <lyric number="1">
      <syllabic>single</syllabic>
      <text>La</text>
    </lyric>
  </note>
</measure>
  </part>
</score-partwise>"#;

    let score = parse_musicxml(xml).expect("should parse");
    let measure = &first_staff(&score).measures[0];

    // Direction parsed
    assert!(!measure.directions.is_empty(), "direction should be parsed");

    // Lyric parsed
    let notes: Vec<&Note> = measure
        .elements
        .iter()
        .filter_map(|e| match e {
            MeasureElement::Note(n) => Some(n),
            _ => None,
        })
        .collect();
    assert_eq!(notes.len(), 1);
    assert!(!notes[0].lyrics.is_empty(), "lyric should be parsed");
    assert_eq!(notes[0].lyrics[0].text, "La");
}

#[test]
fn divisions_inherited_across_measures() {
    let xml = r#"<?xml version="1.0" encoding="UTF-8"?>
<score-partwise version="4.0">
  <part-list><score-part id="P1"><part-name>Test</part-name></score-part></part-list>
  <part id="P1">
<measure number="1">
  <attributes>
    <divisions>16</divisions>
    <clef><sign>G</sign><line>2</line></clef>
  </attributes>
  <note>
    <pitch><step>C</step><octave>4</octave></pitch>
    <duration>16</duration>
    <type>quarter</type>
  </note>
</measure>
<measure number="2">
  <note>
    <pitch><step>D</step><octave>4</octave></pitch>
    <duration>16</duration>
    <type>quarter</type>
  </note>
</measure>
  </part>
</score-partwise>"#;

    let score = parse_musicxml(xml).expect("should parse");
    let staff = first_staff(&score);
    assert_eq!(
        staff.measures[0].divisions, 16,
        "measure 1: explicit divisions"
    );
    assert_eq!(
        staff.measures[1].divisions, 16,
        "measure 2: divisions inherited from measure 1"
    );
}

#[test]
fn directions_get_distinct_element_index() {
    // "f" precede a la primer nota (index 0), "mf" precede a la segunda (index 1) —
    // reproduce el caso del compás 4 de simple.musicxml.xml, donde antes ambas
    // direcciones colapsaban en la misma posición X al renderizar.
    let xml = r#"<?xml version="1.0" encoding="UTF-8"?>
<score-partwise version="4.0">
  <part-list><score-part id="P1"><part-name>Test</part-name></score-part></part-list>
  <part id="P1">
<measure number="1">
  <attributes>
    <divisions>1</divisions>
    <clef><sign>G</sign><line>2</line></clef>
  </attributes>
  <direction>
    <direction-type><dynamics><f/></dynamics></direction-type>
  </direction>
  <note>
    <pitch><step>C</step><octave>4</octave></pitch>
    <duration>1</duration>
    <type>quarter</type>
  </note>
  <direction>
    <direction-type><dynamics><mf/></dynamics></direction-type>
  </direction>
  <note>
    <pitch><step>D</step><octave>4</octave></pitch>
    <duration>1</duration>
    <type>quarter</type>
  </note>
</measure>
  </part>
</score-partwise>"#;

    let score = parse_musicxml(xml).expect("should parse");
    let measure = &first_staff(&score).measures[0];
    assert_eq!(measure.directions.len(), 2);
    assert_eq!(
        measure.directions[0].element_index, 0,
        "f precede a la nota 0"
    );
    assert_eq!(
        measure.directions[1].element_index, 1,
        "mf precede a la nota 1"
    );
    assert_ne!(
        measure.directions[0].element_index, measure.directions[1].element_index,
        "las dos direcciones deben apuntar a posiciones distintas"
    );
}

#[test]
fn credits_parsed_with_page_layout() {
    // Reproduce el fixture real: título centrado, compositor centrado, y un
    // tercer crédito alineado a la derecha (ej. "Music by X") que antes se
    // perdía por completo (credits: Vec::new() hardcodeado).
    let xml = r#"<?xml version="1.0" encoding="UTF-8"?>
<score-partwise version="4.0">
  <defaults>
<page-layout>
  <page-width>1310</page-width>
  <page-height>1850</page-height>
</page-layout>
  </defaults>
  <credit>
<credit-words default-x="655" default-y="1790" justify="center">Título</credit-words>
  </credit>
  <credit>
<credit-words default-x="1270" default-y="1616.9" justify="right">Music by X</credit-words>
  </credit>
  <part-list><score-part id="P1"><part-name>Test</part-name></score-part></part-list>
  <part id="P1"><measure number="1"><note><rest/><duration>4</duration><type>whole</type></note></measure></part>
</score-partwise>"#;

    let score = parse_musicxml(xml).expect("should parse");
    assert_eq!(score.credits.len(), 2);

    let title_credit = &score.credits[0];
    assert!(
        matches!(title_credit.kind, CreditKind::Words(ref s) if s == "Título")
    );
    assert_eq!(title_credit.justify, CreditJustify::Center);
    let page_w: f32 = score.page_size.as_ref().expect("page size").width.parse().unwrap();
    let title_x: f32 = title_credit.default_x.parse().unwrap();
    assert!((title_x / page_w - 655.0 / 1310.0).abs() < 0.001);

    let arranger_credit = &score.credits[1];
    assert_eq!(
        arranger_credit.justify,
        CreditJustify::Right
    );
    let arranger_x: f32 = arranger_credit.default_x.parse().unwrap();
    assert!((arranger_x / page_w - 1270.0 / 1310.0).abs() < 0.001);
}

#[test]
fn credits_omitted_without_page_layout() {
    let xml = r#"<?xml version="1.0" encoding="UTF-8"?>
<score-partwise version="4.0">
  <credit>
<credit-words default-x="655" default-y="1790">Título</credit-words>
  </credit>
  <part-list><score-part id="P1"><part-name>Test</part-name></score-part></part-list>
  <part id="P1"><measure number="1"><note><rest/><duration>4</duration><type>whole</type></note></measure></part>
</score-partwise>"#;

    let score = parse_musicxml(xml).expect("should parse");
    assert!(
        score.credits.is_empty(),
        "sin page-layout no hay espacio de coordenadas confiable, no se debe adivinar"
    );
}
