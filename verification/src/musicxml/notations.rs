//! The `<notations>` of a note: articulations, ornaments, technique,
//! dynamics, fermata, ties, slurs, glissando, arpeggio and tremolo.

use vstd::prelude::*;
use crate::musicxml::fields::attr_parse_u8;
use crate::musicxml::leaves::{known_dynamic, placement_or, slur_kind, spec_known_dynamic, spec_placement_or, spec_slur_kind};
use crate::musicxml::note::{spec_tie_of, text_u8_or, trimmed_text};
use crate::notation::attachment::{
    Arpeggiate, ArpeggioDirection, Articulation, DynamicMark, Fermata, FermataShape, Glissando,
    GlissandoKind, LineType, NoteAttachment, Ornament, Placement, Slur, Technical, Tie, Tremolo,
};
use crate::musicxml::fields::attr_u8;
use crate::text::{parse_u8, spec_parse_u8, spec_trim, str_eq, trim};
use crate::xml::{attr, attribute, attribute_is, child, child_text, find_child, first_child_text, has_child, has_child_tag, node_text, XmlNode};

verus! {

/// Articulation named by an element of `<articulations>`.
pub open spec fn spec_articulation(name: Seq<char>) -> Option<Articulation> {
    if name == "accent"@ {
        Some(Articulation::Accent)
    } else if name == "strong-accent"@ {
        Some(Articulation::StrongAccent)
    } else if name == "staccato"@ {
        Some(Articulation::Staccato)
    } else if name == "staccatissimo"@ {
        Some(Articulation::Staccatissimo)
    } else if name == "tenuto"@ {
        Some(Articulation::Tenuto)
    } else if name == "detached-legato"@ {
        Some(Articulation::DetachedLegato)
    } else if name == "spiccato"@ {
        Some(Articulation::Spiccato)
    } else if name == "breath-mark"@ {
        Some(Articulation::BreathMark)
    } else if name == "caesura"@ {
        Some(Articulation::Caesura)
    } else if name == "soft-accent"@ {
        Some(Articulation::SoftAccent)
    } else if name == "scoop"@ {
        Some(Articulation::Scoop)
    } else if name == "plop"@ {
        Some(Articulation::Plop)
    } else if name == "doit"@ {
        Some(Articulation::Doit)
    } else if name == "falloff"@ {
        Some(Articulation::Falloff)
    } else {
        None
    }
}

fn articulation(name: &str) -> (r: Option<Articulation>)
    ensures
        r == spec_articulation(name@),
{
    if str_eq(name, "accent") {
        Some(Articulation::Accent)
    } else if str_eq(name, "strong-accent") {
        Some(Articulation::StrongAccent)
    } else if str_eq(name, "staccato") {
        Some(Articulation::Staccato)
    } else if str_eq(name, "staccatissimo") {
        Some(Articulation::Staccatissimo)
    } else if str_eq(name, "tenuto") {
        Some(Articulation::Tenuto)
    } else if str_eq(name, "detached-legato") {
        Some(Articulation::DetachedLegato)
    } else if str_eq(name, "spiccato") {
        Some(Articulation::Spiccato)
    } else if str_eq(name, "breath-mark") {
        Some(Articulation::BreathMark)
    } else if str_eq(name, "caesura") {
        Some(Articulation::Caesura)
    } else if str_eq(name, "soft-accent") {
        Some(Articulation::SoftAccent)
    } else if str_eq(name, "scoop") {
        Some(Articulation::Scoop)
    } else if str_eq(name, "plop") {
        Some(Articulation::Plop)
    } else if str_eq(name, "doit") {
        Some(Articulation::Doit)
    } else if str_eq(name, "falloff") {
        Some(Articulation::Falloff)
    } else {
        None
    }
}

/// Articulations of the children of an `<articulations>` element.
pub open spec fn spec_articulations(cs: Seq<XmlNode>) -> Seq<Articulation>
    decreases cs.len(),
{
    if cs.len() == 0 {
        Seq::empty()
    } else {
        match spec_articulation(cs.last().name@) {
            Some(a) => spec_articulations(cs.drop_last()).push(a),
            None => spec_articulations(cs.drop_last()),
        }
    }
}

/// Ornament an element of `<ornaments>` describes (tremolo: 3 strokes when
/// unreadable; wavy line: start/stop from `type`).
pub open spec fn spec_ornament(c: XmlNode) -> Option<Ornament> {
    let name = c.name@;
    if name == "trill-mark"@ {
        Some(Ornament::Trill)
    } else if name == "turn"@ {
        Some(Ornament::Turn)
    } else if name == "inverted-turn"@ {
        Some(Ornament::InvertedTurn)
    } else if name == "mordent"@ {
        Some(Ornament::Mordent)
    } else if name == "inverted-mordent"@ {
        Some(Ornament::InvertedMordent)
    } else if name == "tremolo"@ {
        Some(Ornament::Tremolo { marks: text_u8_or(c, 3) })
    } else if name == "wavy-line"@ {
        Some(Ornament::WavyLine { start: attr(c, "type"@) == Some("start"@), stop: attr(c, "type"@) == Some("stop"@) })
    } else {
        None
    }
}

fn ornament(c: &XmlNode) -> (r: Option<Ornament>)
    ensures
        r == spec_ornament(*c),
{
    let name = c.name.as_str();
    if str_eq(name, "trill-mark") {
        Some(Ornament::Trill)
    } else if str_eq(name, "turn") {
        Some(Ornament::Turn)
    } else if str_eq(name, "inverted-turn") {
        Some(Ornament::InvertedTurn)
    } else if str_eq(name, "mordent") {
        Some(Ornament::Mordent)
    } else if str_eq(name, "inverted-mordent") {
        Some(Ornament::InvertedMordent)
    } else if str_eq(name, "tremolo") {
        Some(Ornament::Tremolo { marks: crate::musicxml::note::text_parse_u8_or(c, 3) })
    } else if str_eq(name, "wavy-line") {
        let start = attribute_is(c, "type", "start");
        let stop = attribute_is(c, "type", "stop");
        Some(Ornament::WavyLine { start, stop })
    } else {
        None
    }
}

/// Ornaments of the children of an `<ornaments>` element.
pub open spec fn spec_ornaments(cs: Seq<XmlNode>) -> Seq<Ornament>
    decreases cs.len(),
{
    if cs.len() == 0 {
        Seq::empty()
    } else {
        match spec_ornament(cs.last()) {
            Some(o) => spec_ornaments(cs.drop_last()).push(o),
            None => spec_ornaments(cs.drop_last()),
        }
    }
}

/// Techniques named by an element alone, without text.
pub open spec fn spec_unit_technical(name: Seq<char>) -> Option<Technical> {
    if name == "up-bow"@ {
        Some(Technical::UpBow)
    } else if name == "down-bow"@ {
        Some(Technical::DownBow)
    } else if name == "harmonic"@ {
        Some(Technical::Harmonic)
    } else if name == "open-string"@ {
        Some(Technical::OpenString)
    } else if name == "thumb-position"@ {
        Some(Technical::ThumbPosition)
    } else if name == "pluck"@ {
        Some(Technical::Pluck)
    } else if name == "double-tongue"@ {
        Some(Technical::DoubleTongue)
    } else if name == "triple-tongue"@ {
        Some(Technical::TripleTongue)
    } else if name == "stopped"@ {
        Some(Technical::Stopped)
    } else if name == "snap-pizzicato"@ {
        Some(Technical::SnapPizzicato)
    } else if name == "hammer-on"@ {
        Some(Technical::HammerOn)
    } else if name == "pull-off"@ {
        Some(Technical::PullOff)
    } else if name == "tap"@ {
        Some(Technical::Tap)
    } else if name == "heel"@ {
        Some(Technical::Heel)
    } else if name == "toe"@ {
        Some(Technical::Toe)
    } else if name == "fingernails"@ {
        Some(Technical::Fingernails)
    } else {
        None
    }
}

fn unit_technical(name: &str) -> (r: Option<Technical>)
    ensures
        r == spec_unit_technical(name@),
{
    if str_eq(name, "up-bow") {
        Some(Technical::UpBow)
    } else if str_eq(name, "down-bow") {
        Some(Technical::DownBow)
    } else if str_eq(name, "harmonic") {
        Some(Technical::Harmonic)
    } else if str_eq(name, "open-string") {
        Some(Technical::OpenString)
    } else if str_eq(name, "thumb-position") {
        Some(Technical::ThumbPosition)
    } else if str_eq(name, "pluck") {
        Some(Technical::Pluck)
    } else if str_eq(name, "double-tongue") {
        Some(Technical::DoubleTongue)
    } else if str_eq(name, "triple-tongue") {
        Some(Technical::TripleTongue)
    } else if str_eq(name, "stopped") {
        Some(Technical::Stopped)
    } else if str_eq(name, "snap-pizzicato") {
        Some(Technical::SnapPizzicato)
    } else if str_eq(name, "hammer-on") {
        Some(Technical::HammerOn)
    } else if str_eq(name, "pull-off") {
        Some(Technical::PullOff)
    } else if str_eq(name, "tap") {
        Some(Technical::Tap)
    } else if str_eq(name, "heel") {
        Some(Technical::Heel)
    } else if str_eq(name, "toe") {
        Some(Technical::Toe)
    } else if str_eq(name, "fingernails") {
        Some(Technical::Fingernails)
    } else {
        None
    }
}

/// A `u8` read from a node's trimmed text.
pub open spec fn text_u8(c: XmlNode) -> Option<u8> {
    match trimmed_text(c) {
        Some(t) => spec_parse_u8(t),
        None => None,
    }
}

/// The element of `<technical>` yields a technique: always for known names
/// and bends, for `<fret>`/`<string>` when their text is a number, and for
/// every other node (fingerings and unknown names) when it has text.
pub open spec fn technical_yields(c: XmlNode) -> bool {
    let name = c.name@;
    if spec_unit_technical(name) is Some {
        true
    } else if name == "fret"@ || name == "string"@ {
        text_u8(c) is Some
    } else if name == "bend"@ {
        true
    } else {
        node_text(c) is Some
    }
}

/// `t` is the technique the element `c` yields.
pub open spec fn technical_matches(t: Technical, c: XmlNode) -> bool {
    let name = c.name@;
    match spec_unit_technical(name) {
        Some(u) => t == u,
        None => if name == "fret"@ {
            text_u8(c) matches Some(v) && t == Technical::Fret(v)
        } else if name == "string"@ {
            text_u8(c) matches Some(v) && t == Technical::String(v)
        } else if name == "bend"@ {
            t matches Technical::Bend { alter, pre_bend, release } && alter@ == (match child_text(c, "bend-alter"@) {
                Some(a) => a,
                None => Seq::empty(),
            }) && pre_bend == has_child(c, "pre-bend"@) && release == has_child(c, "release"@)
        } else if name == "fingering"@ {
            t matches Technical::Fingering(s) && trimmed_text(c) == Some(s@)
        } else {
            t matches Technical::Other(s) && trimmed_text(c) == Some(s@)
        },
    }
}

fn technical(c: &XmlNode) -> (r: Option<Technical>)
    ensures
        r is Some <==> technical_yields(*c),
        r matches Some(t) ==> technical_matches(t, *c),
{
    let name = c.name.as_str();
    match unit_technical(name) {
        Some(u) => return Some(u),
        None => {},
    }
    if str_eq(name, "fret") || str_eq(name, "string") {
        let v = match &c.text {
            Some(t) => {
                let s = trim(t.as_str());
                parse_u8(s.as_str())
            },
            None => None,
        };
        match v {
            Some(v) => if str_eq(name, "fret") { Some(Technical::Fret(v)) } else { Some(Technical::String(v)) },
            None => None,
        }
    } else if str_eq(name, "bend") {
        let alter = match first_child_text(c, "bend-alter") {
            Some(a) => a,
            None => String::new(),
        };
        let pre_bend = has_child_tag(c, "pre-bend");
        let release = has_child_tag(c, "release");
        Some(Technical::Bend { alter, pre_bend, release })
    } else {
        match &c.text {
            Some(t) => {
                let s = trim(t.as_str());
                if str_eq(name, "fingering") {
                    Some(Technical::Fingering(s))
                } else {
                    Some(Technical::Other(s))
                }
            },
            None => None,
        }
    }
}

/// The elements of `<technical>` that yield a technique, in order.
pub open spec fn spec_technical_nodes(cs: Seq<XmlNode>) -> Seq<XmlNode>
    decreases cs.len(),
{
    if cs.len() == 0 {
        Seq::empty()
    } else if technical_yields(cs.last()) {
        spec_technical_nodes(cs.drop_last()).push(cs.last())
    } else {
        spec_technical_nodes(cs.drop_last())
    }
}

/// The element of `<dynamics>` (inside `<notations>`) yields a dynamic: a
/// known mark, or `<other-dynamics>` with text.
pub open spec fn dynamic_yields(c: XmlNode) -> bool {
    spec_known_dynamic(c.name@) is Some || (c.name@ == "other-dynamics"@ && node_text(c) is Some)
}

/// `m` is the dynamic the element `c` yields.
pub open spec fn dynamic_matches(m: DynamicMark, c: XmlNode) -> bool {
    match spec_known_dynamic(c.name@) {
        Some(d) => m == d,
        None => m matches DynamicMark::Other(s) && trimmed_text(c) == Some(s@),
    }
}

/// First element of `cs` that yields a dynamic.
pub open spec fn first_dynamic(cs: Seq<XmlNode>) -> Option<XmlNode>
    decreases cs.len(),
{
    if cs.len() == 0 {
        None
    } else if dynamic_yields(cs[0]) {
        Some(cs[0])
    } else {
        first_dynamic(cs.drop_first())
    }
}

/// Fermata of a `<fermata>` element.
pub open spec fn spec_fermata(c: XmlNode) -> Fermata {
    Fermata {
        shape: if attr(c, "type"@) == Some("angled"@) {
            FermataShape::Angled
        } else if attr(c, "type"@) == Some("square"@) {
            FermataShape::Square
        } else {
            FermataShape::Normal
        },
        upright: true,
        placement: spec_placement_or(attr(c, "placement"@), Placement::Above),
    }
}

/// Slur of a `<slur>` element.
pub open spec fn spec_slur(c: XmlNode) -> Slur {
    Slur {
        kind: spec_slur_kind(attr(c, "type"@)),
        number: match attr_u8(c, "number"@) {
            Some(v) => v,
            None => 1,
        },
        placement: spec_placement_or(attr(c, "placement"@), Placement::Above),
    }
}

/// Glissando of a `<glissando>` element.
pub open spec fn spec_glissando(c: XmlNode) -> Glissando {
    Glissando {
        kind: if attr(c, "type"@) == Some("start"@) { GlissandoKind::Start } else { GlissandoKind::Stop },
        line_type: if child_text(c, "line-type"@) == Some("dashed"@) {
            LineType::Dashed
        } else if child_text(c, "line-type"@) == Some("dotted"@) {
            LineType::Dotted
        } else if child_text(c, "line-type"@) == Some("wavy"@) {
            LineType::Wavy
        } else {
            LineType::Solid
        },
    }
}

/// Arpeggio of an `<arpeggiate>` element.
pub open spec fn spec_arpeggiate(c: XmlNode) -> Arpeggiate {
    Arpeggiate {
        direction: if attr(c, "direction"@) == Some("up"@) {
            Some(ArpeggioDirection::Up)
        } else if attr(c, "direction"@) == Some("down"@) {
            Some(ArpeggioDirection::Down)
        } else {
            None
        },
    }
}

/// What the children of `<notations>` read so far contribute. Techniques and
/// the dynamic are given by the elements they come from.
pub struct NotationsRead {
    pub articulations: Seq<Articulation>,
    pub ornaments: Seq<Ornament>,
    pub technical: Seq<XmlNode>,
    pub dynamics: Option<XmlNode>,
    pub fermata: Option<Fermata>,
    pub ties: Seq<Tie>,
    pub slurs: Seq<Slur>,
    pub glissando: Option<Glissando>,
    pub arpeggiate: Option<Arpeggiate>,
    pub tremolo: Option<Tremolo>,
    /// Some marking was found.
    pub any: bool,
}

pub open spec fn empty_read() -> NotationsRead {
    NotationsRead {
        articulations: Seq::empty(),
        ornaments: Seq::empty(),
        technical: Seq::empty(),
        dynamics: None,
        fermata: None,
        ties: Seq::empty(),
        slurs: Seq::empty(),
        glissando: None,
        arpeggiate: None,
        tremolo: None,
        any: false,
    }
}

/// Reads one child `c` of `<notations>`.
pub open spec fn notations_step(st: NotationsRead, c: XmlNode) -> NotationsRead {
    let name = c.name@;
    if name == "articulations"@ {
        let a = spec_articulations(c.children@);
        NotationsRead { articulations: st.articulations + a, any: st.any || a.len() > 0, ..st }
    } else if name == "ornaments"@ {
        let o = spec_ornaments(c.children@);
        NotationsRead { ornaments: st.ornaments + o, any: st.any || o.len() > 0, ..st }
    } else if name == "technical"@ {
        let t = spec_technical_nodes(c.children@);
        NotationsRead { technical: st.technical + t, any: st.any || t.len() > 0, ..st }
    } else if name == "dynamics"@ {
        match first_dynamic(c.children@) {
            Some(d) => NotationsRead { dynamics: Some(d), any: true, ..st },
            None => st,
        }
    } else if name == "fermata"@ {
        NotationsRead { fermata: Some(spec_fermata(c)), any: true, ..st }
    } else if name == "tied"@ {
        NotationsRead { ties: st.ties.push(spec_tie_of(c, Placement::Above)), any: true, ..st }
    } else if name == "slur"@ {
        NotationsRead { slurs: st.slurs.push(spec_slur(c)), any: true, ..st }
    } else if name == "glissando"@ {
        NotationsRead { glissando: Some(spec_glissando(c)), any: true, ..st }
    } else if name == "arpeggiate"@ {
        NotationsRead { arpeggiate: Some(spec_arpeggiate(c)), any: true, ..st }
    } else if name == "tremolo"@ {
        NotationsRead { tremolo: Some(Tremolo { marks: text_u8_or(c, 3) }), any: true, ..st }
    } else {
        st
    }
}

/// Reads the children `cs` of `<notations>` in order.
pub open spec fn notations_read(cs: Seq<XmlNode>) -> NotationsRead
    decreases cs.len(),
{
    if cs.len() == 0 {
        empty_read()
    } else {
        notations_step(notations_read(cs.drop_last()), cs.last())
    }
}

/// What a note's `<notations>` contributes; `None` when the note has no
/// `<notations>` or it holds no marking.
pub open spec fn spec_notations(note: XmlNode) -> Option<NotationsRead> {
    match child(note, "notations"@) {
        Some(n) => {
            let st = notations_read(n.children@);
            if st.any { Some(st) } else { None }
        },
        None => None,
    }
}

/// `a` holds exactly what `st` describes (and no tuplet).
pub open spec fn attachment_matches(a: NoteAttachment, st: NotationsRead) -> bool {
    &&& a.articulations@ == st.articulations
    &&& a.ornaments@ == st.ornaments
    &&& a.technical@.len() == st.technical.len()
    &&& (forall|i: int| 0 <= i < a.technical@.len() ==> technical_matches(#[trigger] a.technical@[i], st.technical[i]))
    &&& match (a.dynamics, st.dynamics) {
        (None, None) => true,
        (Some(m), Some(c)) => dynamic_matches(m, c),
        _ => false,
    }
    &&& a.fermata == st.fermata
    &&& a.ties@ == st.ties
    &&& a.slurs@ == st.slurs
    &&& a.glissando == st.glissando
    &&& a.arpeggiate == st.arpeggiate
    &&& a.tremolo == st.tremolo
    &&& a.tuplet is None
}

fn read_articulations(cs: &Vec<XmlNode>) -> (r: Vec<Articulation>)
    ensures
        r@ == spec_articulations(cs@),
{
    let len = cs.len();
    let mut r: Vec<Articulation> = Vec::new();
    let mut i: usize = 0;
    while i < len
        invariant
            len == cs@.len(),
            i <= len,
            r@ == spec_articulations(cs@.take(i as int)),
        decreases len - i,
    {
        proof {
            assert(cs@.take(i + 1).drop_last() =~= cs@.take(i as int));
        }
        match articulation(cs[i].name.as_str()) {
            Some(a) => r.push(a),
            None => {},
        }
        i = i + 1;
    }
    proof {
        assert(cs@.take(len as int) =~= cs@);
    }
    r
}

fn read_ornaments(cs: &Vec<XmlNode>) -> (r: Vec<Ornament>)
    ensures
        r@ == spec_ornaments(cs@),
{
    let len = cs.len();
    let mut r: Vec<Ornament> = Vec::new();
    let mut i: usize = 0;
    while i < len
        invariant
            len == cs@.len(),
            i <= len,
            r@ == spec_ornaments(cs@.take(i as int)),
        decreases len - i,
    {
        proof {
            assert(cs@.take(i + 1).drop_last() =~= cs@.take(i as int));
        }
        match ornament(&cs[i]) {
            Some(o) => r.push(o),
            None => {},
        }
        i = i + 1;
    }
    proof {
        assert(cs@.take(len as int) =~= cs@);
    }
    r
}

/// `ts` are the techniques the elements `ns` yield, one for one.
pub open spec fn technicals_match(ts: Seq<Technical>, ns: Seq<XmlNode>) -> bool {
    ts.len() == ns.len() && forall|i: int| 0 <= i < ts.len() ==> technical_matches(#[trigger] ts[i], ns[i])
}

fn read_technical(cs: &Vec<XmlNode>) -> (r: Vec<Technical>)
    ensures
        technicals_match(r@, spec_technical_nodes(cs@)),
{
    let len = cs.len();
    let mut r: Vec<Technical> = Vec::new();
    let mut i: usize = 0;
    while i < len
        invariant
            len == cs@.len(),
            i <= len,
            technicals_match(r@, spec_technical_nodes(cs@.take(i as int))),
        decreases len - i,
    {
        proof {
            assert(cs@.take(i + 1).drop_last() =~= cs@.take(i as int));
        }
        match technical(&cs[i]) {
            Some(t) => r.push(t),
            None => {},
        }
        i = i + 1;
    }
    proof {
        assert(cs@.take(len as int) =~= cs@);
    }
    r
}

fn dynamic_of(c: &XmlNode) -> (r: Option<DynamicMark>)
    ensures
        r is Some <==> dynamic_yields(*c),
        r matches Some(m) ==> dynamic_matches(m, *c),
{
    match known_dynamic(c.name.as_str()) {
        Some(d) => Some(d),
        None => if str_eq(c.name.as_str(), "other-dynamics") {
            match &c.text {
                Some(t) => Some(DynamicMark::Other(trim(t.as_str()))),
                None => None,
            }
        } else {
            None
        },
    }
}

proof fn lemma_first_dynamic_skip(cs: Seq<XmlNode>, i: int)
    requires
        0 <= i <= cs.len(),
        forall|k: int| 0 <= k < i ==> !dynamic_yields(#[trigger] cs[k]),
    ensures
        first_dynamic(cs) == first_dynamic(cs.subrange(i, cs.len() as int)),
    decreases i,
{
    if i > 0 {
        lemma_first_dynamic_skip(cs.drop_first(), i - 1);
        assert(cs.drop_first().subrange(i - 1, cs.drop_first().len() as int) =~= cs.subrange(i, cs.len() as int));
    } else {
        assert(cs.subrange(0, cs.len() as int) =~= cs);
    }
}

fn read_first_dynamic(cs: &Vec<XmlNode>) -> (r: Option<DynamicMark>)
    ensures
        match (r, first_dynamic(cs@)) {
            (None, None) => true,
            (Some(m), Some(c)) => dynamic_matches(m, c),
            _ => false,
        },
{
    let len = cs.len();
    let mut i: usize = 0;
    while i < len
        invariant
            len == cs@.len(),
            i <= len,
            forall|k: int| 0 <= k < i ==> !dynamic_yields(#[trigger] cs@[k]),
        decreases len - i,
    {
        match dynamic_of(&cs[i]) {
            Some(m) => {
                proof {
                    lemma_first_dynamic_skip(cs@, i as int);
                }
                return Some(m);
            },
            None => {},
        }
        i = i + 1;
    }
    proof {
        lemma_first_dynamic_skip(cs@, len as int);
    }
    None
}

fn fermata_of(c: &XmlNode) -> (f: Fermata)
    ensures
        f == spec_fermata(*c),
{
    let shape = if attribute_is(c, "type", "angled") {
        FermataShape::Angled
    } else if attribute_is(c, "type", "square") {
        FermataShape::Square
    } else {
        FermataShape::Normal
    };
    let placement = placement_or(attribute(c, "placement"), Placement::Above);
    Fermata { shape, upright: true, placement }
}

fn slur_of(c: &XmlNode) -> (s: Slur)
    ensures
        s == spec_slur(*c),
{
    let kind = slur_kind(attribute(c, "type"));
    let number = match attr_parse_u8(c, "number") {
        Some(v) => v,
        None => 1,
    };
    let placement = placement_or(attribute(c, "placement"), Placement::Above);
    Slur { kind, number, placement }
}

fn glissando_of(c: &XmlNode) -> (g: Glissando)
    ensures
        g == spec_glissando(*c),
{
    let kind = if attribute_is(c, "type", "start") { GlissandoKind::Start } else { GlissandoKind::Stop };
    let lt = first_child_text(c, "line-type");
    let line_type = match &lt {
        Some(s) => if str_eq(s.as_str(), "dashed") {
            LineType::Dashed
        } else if str_eq(s.as_str(), "dotted") {
            LineType::Dotted
        } else if str_eq(s.as_str(), "wavy") {
            LineType::Wavy
        } else {
            LineType::Solid
        },
        None => LineType::Solid,
    };
    Glissando { kind, line_type }
}

fn arpeggiate_of(c: &XmlNode) -> (a: Arpeggiate)
    ensures
        a == spec_arpeggiate(*c),
{
    let direction = if attribute_is(c, "direction", "up") {
        Some(ArpeggioDirection::Up)
    } else if attribute_is(c, "direction", "down") {
        Some(ArpeggioDirection::Down)
    } else {
        None
    };
    Arpeggiate { direction }
}

/// Reads the `<notations>` of a note into its markings; `None` when there
/// is no `<notations>` or it holds no marking.
pub fn parse_attachments(note: &XmlNode) -> (r: Option<NoteAttachment>)
    ensures
        match (r, spec_notations(*note)) {
            (None, None) => true,
            (Some(a), Some(st)) => attachment_matches(a, st),
            _ => false,
        },
{
    let notations = match find_child(note, "notations") {
        Some(n) => n,
        None => return None,
    };
    let cs = &notations.children;
    let len = cs.len();
    let mut articulations: Vec<Articulation> = Vec::new();
    let mut ornaments: Vec<Ornament> = Vec::new();
    let mut technical: Vec<Technical> = Vec::new();
    let mut dynamics: Option<DynamicMark> = None;
    let mut fermata: Option<Fermata> = None;
    let mut ties: Vec<Tie> = Vec::new();
    let mut slurs: Vec<Slur> = Vec::new();
    let mut glissando: Option<Glissando> = None;
    let mut arpeggiate: Option<Arpeggiate> = None;
    let mut tremolo: Option<Tremolo> = None;
    let mut any = false;
    let mut i: usize = 0;
    while i < len
        invariant
            len == cs@.len(),
            i <= len,
            ({
                let st = notations_read(cs@.take(i as int));
                &&& articulations@ == st.articulations
                &&& ornaments@ == st.ornaments
                &&& technicals_match(technical@, st.technical)
                &&& match (dynamics, st.dynamics) {
                    (None, None) => true,
                    (Some(m), Some(c)) => dynamic_matches(m, c),
                    _ => false,
                }
                &&& fermata == st.fermata
                &&& ties@ == st.ties
                &&& slurs@ == st.slurs
                &&& glissando == st.glissando
                &&& arpeggiate == st.arpeggiate
                &&& tremolo == st.tremolo
                &&& any == st.any
            }),
        decreases len - i,
    {
        proof {
            assert(cs@.take(i + 1).drop_last() =~= cs@.take(i as int));
        }
        let c = &cs[i];
        let name = c.name.as_str();
        if str_eq(name, "articulations") {
            let mut a = read_articulations(&c.children);
            if a.len() > 0 {
                any = true;
            }
            articulations.append(&mut a);
        } else if str_eq(name, "ornaments") {
            let mut o = read_ornaments(&c.children);
            if o.len() > 0 {
                any = true;
            }
            ornaments.append(&mut o);
        } else if str_eq(name, "technical") {
            let mut t = read_technical(&c.children);
            if t.len() > 0 {
                any = true;
            }
            let ghost old_t = technical@;
            technical.append(&mut t);
            proof {
                let st = notations_read(cs@.take(i as int));
                let tn = spec_technical_nodes(c.children@);
                assert(st.technical + tn == notations_read(cs@.take(i + 1)).technical);
                assert forall|k: int| 0 <= k < technical@.len() implies technical_matches(#[trigger] technical@[k], (st.technical + tn)[k]) by {
                    if k < old_t.len() {
                        assert(technical@[k] == old_t[k]);
                    }
                }
            }
        } else if str_eq(name, "dynamics") {
            match read_first_dynamic(&c.children) {
                Some(m) => {
                    dynamics = Some(m);
                    any = true;
                },
                None => {},
            }
        } else if str_eq(name, "fermata") {
            fermata = Some(fermata_of(c));
            any = true;
        } else if str_eq(name, "tied") {
            ties.push(crate::musicxml::note::tie_of(c, Placement::Above));
            any = true;
        } else if str_eq(name, "slur") {
            slurs.push(slur_of(c));
            any = true;
        } else if str_eq(name, "glissando") {
            glissando = Some(glissando_of(c));
            any = true;
        } else if str_eq(name, "arpeggiate") {
            arpeggiate = Some(arpeggiate_of(c));
            any = true;
        } else if str_eq(name, "tremolo") {
            tremolo = Some(Tremolo { marks: crate::musicxml::note::text_parse_u8_or(c, 3) });
            any = true;
        }
        i = i + 1;
    }
    proof {
        assert(cs@.take(len as int) =~= cs@);
    }
    if any {
        Some(NoteAttachment {
            articulations,
            ornaments,
            technical,
            dynamics,
            fermata,
            ties,
            slurs,
            glissando,
            arpeggiate,
            tremolo,
            tuplet: None,
        })
    } else {
        None
    }
}

} // verus!
