use m_guitar::{
    parse_musicxml, BarStyle, DirectionKind, DynamicMark, GroupBracket, MeasureElement,
    MusicXmlError, NoteFigure, OctaveShiftKind, PedalKind, Placement, Score, Step, TieKind,
    WedgeKind,
};

fn wrap_measures(measures: &str) -> String {
    format!(
        r#"<?xml version="1.0" encoding="UTF-8"?>
<score-partwise version="4.0">
  <part-list><score-part id="P1"><part-name>Test</part-name></score-part></part-list>
  <part id="P1">{measures}</part>
</score-partwise>"#
    )
}

fn parse(xml: &str) -> Score {
    parse_musicxml(xml).expect("should parse")
}

#[test]
fn timewise_message_is_exact() {
    let xml = r#"<score-timewise version="4.0"></score-timewise>"#;
    match parse_musicxml(xml) {
        Err(MusicXmlError::Unsupported(msg)) => {
            assert_eq!(msg, "score-timewise format is not supported. Use score-partwise instead.")
        }
        _ => panic!("expected Unsupported"),
    }
}

#[test]
fn wrong_root_names_the_element() {
    match parse_musicxml("<something-else></something-else>") {
        Err(MusicXmlError::Unsupported(msg)) => assert_eq!(
            msg,
            "Root element must be <score-partwise> or <score-timewise>, got <something-else>"
        ),
        _ => panic!("expected Unsupported"),
    }
}

#[test]
fn malformed_text_is_an_xml_error() {
    assert!(matches!(parse_musicxml("<a><b></a>"), Err(MusicXmlError::Xml(_))));
    let e = parse_musicxml("not valid xml").unwrap_err();
    assert!(e.message().starts_with("XML parse error: "));
}

#[test]
fn chord_notes_are_grouped() {
    let xml = wrap_measures(
        r#"<measure number="1">
      <note><pitch><step>C</step><octave>4</octave></pitch><type>quarter</type></note>
      <note><chord/><pitch><step>E</step><octave>4</octave></pitch><type>quarter</type></note>
      <note><chord/><pitch><step>G</step><octave>4</octave></pitch><type>quarter</type></note>
      <note><pitch><step>D</step><octave>4</octave></pitch><type>half</type></note>
      <note><pitch><step>F</step><octave>4</octave></pitch><type>quarter</type></note>
    </measure>"#,
    );
    let score = parse(&xml);
    let els = &score.systems[0].staves[0].measures[0].elements;
    assert_eq!(els.len(), 3);
    match &els[0] {
        MeasureElement::Chord(ns) => {
            assert_eq!(ns.len(), 3);
            assert_eq!(ns[0].pitch.step, Step::C);
            assert_eq!(ns[2].pitch.step, Step::G);
        }
        _ => panic!("expected a chord"),
    }
    assert!(matches!(&els[1], MeasureElement::Note(n) if n.pitch.step == Step::D));
    assert!(matches!(&els[2], MeasureElement::Note(n) if n.pitch.step == Step::F));
}

#[test]
fn backup_forward_and_other_voices() {
    let xml = wrap_measures(
        r#"<measure number="1">
      <note><pitch><step>C</step><octave>4</octave></pitch><type>whole</type><voice>1</voice></note>
      <backup><duration>4</duration></backup>
      <note><pitch><step>E</step><octave>3</octave></pitch><type>whole</type><voice>2</voice></note>
      <forward><duration> 2 </duration></forward>
      <forward/>
    </measure>"#,
    );
    let score = parse(&xml);
    let els = &score.systems[0].staves[0].measures[0].elements;
    assert_eq!(els.len(), 4);
    assert!(matches!(&els[0], MeasureElement::Note(n) if n.pitch.step == Step::C));
    assert!(matches!(els[1], MeasureElement::Backup(4)));
    assert!(matches!(els[2], MeasureElement::Forward(2)));
    assert!(matches!(els[3], MeasureElement::Forward(0)));
}

#[test]
fn last_measure_gets_a_final_barline() {
    let xml = wrap_measures(
        r#"<measure number="1"><note><rest/><type>whole</type></note></measure>
    <measure number="2"><note><rest/><type>whole</type></note></measure>"#,
    );
    let score = parse(&xml);
    let ms = &score.systems[0].staves[0].measures;
    assert_eq!(ms[0].barline.style, BarStyle::Regular);
    assert_eq!(ms[1].barline.style, BarStyle::LightHeavy);
    assert_eq!(ms[1].number, "2");
}

#[test]
fn written_barline_style_is_kept_at_the_end() {
    let xml = wrap_measures(
        r#"<measure><note><rest/><type>whole</type></note>
      <barline><bar-style>light-light</bar-style><repeat direction="backward"/></barline></measure>"#,
    );
    let score = parse(&xml);
    let m = &score.systems[0].staves[0].measures[0];
    assert_eq!(m.barline.style, BarStyle::LightLight);
    assert_eq!(m.number, "1");
}

#[test]
fn directions_of_every_kind() {
    let xml = wrap_measures(
        r#"<measure number="1">
      <direction placement="above" staff="2"><direction-type><wedge type="diminuendo" niente="yes"/></direction-type></direction>
      <direction><direction-type><wedge type="stop"/></direction-type></direction>
      <direction><direction-type><words> Dolce </words></direction-type></direction>
      <direction><direction-type><rehearsal>A</rehearsal></direction-type></direction>
      <direction><direction-type><metronome parentheses="yes"><beat-unit>half</beat-unit></metronome></direction-type></direction>
      <direction><direction-type><octave-shift type="down"/></direction-type></direction>
      <direction><direction-type><pedal type="change" line="yes"/></direction-type></direction>
      <direction><direction-type><dynamics><mf/><zz/></dynamics></direction-type></direction>
      <direction><sound tempo="80"/></direction>
      <note><pitch><step>C</step><octave>4</octave></pitch><type>quarter</type></note>
    </measure>"#,
    );
    let score = parse(&xml);
    let ds = &score.systems[0].staves[0].measures[0].directions;
    assert_eq!(ds.len(), 7);
    match &ds[0].kind {
        DirectionKind::Wedge(w) => {
            assert_eq!(w.kind, WedgeKind::Diminuendo);
            assert!(w.niente);
        }
        _ => panic!("wedge"),
    }
    assert_eq!(ds[0].placement, Placement::Above);
    assert_eq!(ds[0].staff, 2);
    assert_eq!(ds[1].placement, Placement::Below);
    assert_eq!(ds[1].staff, 1);
    assert!(matches!(&ds[1].kind, DirectionKind::Words(t) if t == " Dolce "));
    assert!(matches!(&ds[2].kind, DirectionKind::Rehearsal(t) if t == "A"));
    match &ds[3].kind {
        DirectionKind::Metronome(m) => {
            assert_eq!(m.beat_unit, NoteFigure::Half);
            assert_eq!(m.per_minute, 120);
            assert!(m.parentheses);
        }
        _ => panic!("metronome"),
    }
    match &ds[4].kind {
        DirectionKind::OctaveShift(o) => {
            assert_eq!(o.kind, OctaveShiftKind::Down);
            assert_eq!(o.size, 8);
        }
        _ => panic!("octave shift"),
    }
    match &ds[5].kind {
        DirectionKind::Pedal(p) => {
            assert_eq!(p.kind, PedalKind::Change);
            assert!(p.line);
        }
        _ => panic!("pedal"),
    }
    match &ds[6].kind {
        DirectionKind::Dynamics(marks) => {
            assert_eq!(marks.len(), 2);
            assert_eq!(marks[0], DynamicMark::MF);
            assert_eq!(marks[1], DynamicMark::Other("zz".to_string()));
        }
        _ => panic!("dynamics"),
    }
    for d in ds.iter() {
        assert_eq!(d.element_index, 0);
    }
}

#[test]
fn direction_index_counts_elements_before_it() {
    let xml = wrap_measures(
        r#"<measure number="1">
      <note><pitch><step>C</step><octave>4</octave></pitch><type>quarter</type></note>
      <note><rest/><type>quarter</type></note>
      <direction><direction-type><words>x</words></direction-type></direction>
      <note><pitch><step>D</step><octave>4</octave></pitch><type>quarter</type></note>
      <backup><duration>1</duration></backup>
      <direction><direction-type><words>y</words></direction-type></direction>
      <note><pitch><step>E</step><octave>4</octave></pitch><type>quarter</type></note>
    </measure>"#,
    );
    let score = parse(&xml);
    let m = &score.systems[0].staves[0].measures[0];
    assert_eq!(m.elements.len(), 5);
    assert_eq!(m.directions[0].element_index, 2);
    assert_eq!(m.directions[1].element_index, 4);
    assert!(matches!(&m.elements[4], MeasureElement::Note(n) if n.pitch.step == Step::E));
}

#[test]
fn part_list_names_and_groups() {
    let xml = r#"<score-partwise version="4.0">
  <part-list>
    <part-group number="2" type="start"><group-symbol>brace</group-symbol><group-name>Piano</group-name></part-group>
    <score-part id="P1"><part-name>Right</part-name><part-abbreviation>R.</part-abbreviation></score-part>
    <score-part id="P2"><part-name>Left</part-name></score-part>
    <part-group type="stop"/>
  </part-list>
  <part id="P2"><measure number="1"><note><rest/><type>whole</type></note></measure></part>
  <part id="P9"><measure number="1"><note><rest/><type>whole</type></note></measure></part>
</score-partwise>"#;
    let score = parse(xml);
    assert_eq!(score.part_list.parts.len(), 2);
    assert_eq!(score.part_list.parts[0].abbreviation, "R.");
    assert_eq!(score.part_list.parts[1].abbreviation, "Left");
    assert_eq!(score.part_list.groups.len(), 2);
    assert_eq!(score.part_list.groups[0].number, 2);
    assert_eq!(score.part_list.groups[0].kind, GroupBracket::Brace);
    assert_eq!(score.part_list.groups[0].name, "Piano");
    assert_eq!(score.part_list.groups[1].number, 1);
    assert_eq!(score.part_list.groups[1].kind, GroupBracket::Bracket);
    let staves = &score.systems[0].staves;
    assert_eq!(staves.len(), 2);
    assert_eq!(staves[0].name, "Left");
    assert_eq!(staves[0].abbreviation, "Left");
    assert_eq!(staves[1].name, "");
    assert_eq!(staves[1].abbreviation, "");
}

#[test]
fn ties_from_notations_and_tie_elements_are_merged() {
    let xml = wrap_measures(
        r#"<measure number="1">
      <note><pitch><step>C</step><octave>4</octave></pitch><type>half</type>
        <tie type="start"/><tie type="stop" number="2"/>
        <notations><tied type="start"/></notations></note>
    </measure>"#,
    );
    let score = parse(&xml);
    let m = &score.systems[0].staves[0].measures[0];
    match &m.elements[0] {
        MeasureElement::Note(n) => {
            let a = n.attachments.as_ref().expect("attachments");
            assert_eq!(a.ties.len(), 2);
            assert_eq!(a.ties[0].kind, TieKind::Start);
            assert_eq!(a.ties[1].kind, TieKind::Stop);
            assert_eq!(a.ties[1].number, 2);
        }
        _ => panic!("note"),
    }
}

#[test]
fn title_falls_back_to_work_title_and_page_size_is_read() {
    let xml = r#"<score-partwise version="4.0">
  <work><work-title>  Sonata </work-title></work>
  <movement-title>   </movement-title>
  <defaults><page-layout><page-width>1200</page-width><page-height> 1700 </page-height></page-layout></defaults>
  <credit page="2"><credit-words>   </credit-words></credit>
  <credit page="2"><credit-words justify="right"> Op. 1 </credit-words></credit>
  <part-list/>
</score-partwise>"#;
    let score = parse(xml);
    assert_eq!(score.title, "Sonata");
    assert_eq!(score.composer, "");
    let p = score.page_size.as_ref().expect("page size");
    assert_eq!(p.width, "1200");
    assert_eq!(p.height, "1700");
    assert_eq!(score.credits.len(), 1);
    assert_eq!(score.credits[0].page, 2);
    assert_eq!(score.credits[0].default_x, "");
    assert!(score.systems[0].staves.is_empty());
}

#[test]
fn unreadable_octave_skips_the_note() {
    let xml = wrap_measures(
        r#"<measure number="1">
      <note><pitch><step>C</step><octave>x</octave></pitch><type>quarter</type></note>
      <note><pitch><step>H</step><octave>4</octave></pitch><type>quarter</type></note>
      <note><pitch><step>B</step><alter>2</alter><octave>4</octave></pitch><type>eighth</type></note>
      <note><pitch><step>A</step><alter>1</alter><octave>4</octave></pitch><type>eighth</type><dot/><dot/><dot/><dot/></note>
    </measure>"#,
    );
    let score = parse(&xml);
    let els = &score.systems[0].staves[0].measures[0].elements;
    assert_eq!(els.len(), 1);
    match &els[0] {
        MeasureElement::Note(n) => {
            assert_eq!(n.pitch.accidental, m_guitar::Accidental::Sharp);
            assert_eq!(n.dotted, 3);
        }
        _ => panic!("note"),
    }
}
