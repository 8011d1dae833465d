//! The notes, chords, rests and cursor moves of a `<measure>`, in the order
//! they are drawn.
//!
//! Only the first voice is read and grace notes are skipped. A pitched note
//! is held back until the next note shows whether a chord follows it; notes
//! marked `<chord/>` gather with the held note into a chord.

use vstd::prelude::*;
use crate::musicxml::fields::{child_parse_u32, child_u32};
use crate::musicxml::note::{note_matches, parse_note, parse_rest, spec_note_parts, spec_parse_rest};
use crate::notation::measure::MeasureElement;
use crate::notation::note::Note;
use crate::notation::rest::Rest;
use crate::text::str_eq;
use crate::xml::{child_text, first_child_text, has_child, has_child_tag, XmlNode};

verus! {

/// What one element of a measure is read from.
pub enum ElementSource {
    Note(XmlNode),
    Chord(Seq<XmlNode>),
    Rest(Rest),
    Backup(u32),
    Forward(u32),
}

/// The reader's state between two children of a measure.
pub struct ElementsRead {
    /// Elements emitted so far.
    pub items: Seq<ElementSource>,
    /// Notes gathered into a chord that is not emitted yet.
    pub chord: Seq<XmlNode>,
    /// A note held back until the next note shows whether a chord follows.
    pub held: Option<XmlNode>,
}

pub open spec fn start_read() -> ElementsRead {
    ElementsRead { items: Seq::empty(), chord: Seq::empty(), held: None }
}

/// Emits the pending chord, or else the held note.
pub open spec fn flush(st: ElementsRead) -> ElementsRead {
    if st.chord.len() > 0 {
        ElementsRead { items: st.items.push(ElementSource::Chord(st.chord)), chord: Seq::empty(), held: st.held }
    } else {
        match st.held {
            Some(h) => ElementsRead { items: st.items.push(ElementSource::Note(h)), chord: st.chord, held: None },
            None => st,
        }
    }
}

/// A `<note>` that names a voice other than the first.
pub open spec fn other_voice(c: XmlNode) -> bool {
    match child_text(c, "voice"@) {
        Some(v) => v != "1"@,
        None => false,
    }
}

/// The `<duration>` of a `<backup>` or `<forward>`, 0 when unreadable.
pub open spec fn duration_of(c: XmlNode) -> u32 {
    match child_u32(c, "duration"@) {
        Some(d) => d,
        None => 0,
    }
}

/// The state after reading the child `c` of a measure.
pub open spec fn elements_step(st: ElementsRead, c: XmlNode) -> ElementsRead {
    if c.name@ == "note"@ {
        if other_voice(c) || has_child(c, "grace"@) {
            st
        } else if has_child(c, "rest"@) {
            let f = flush(st);
            match spec_parse_rest(c) {
                Some(r) => ElementsRead { items: f.items.push(ElementSource::Rest(r)), chord: Seq::empty(), held: f.held },
                None => f,
            }
        } else if spec_note_parts(c) is None {
            st
        } else if has_child(c, "chord"@) {
            match st.held {
                Some(h) => ElementsRead { items: st.items, chord: st.chord.push(h).push(c), held: None },
                None => ElementsRead { items: st.items, chord: st.chord.push(c), held: None },
            }
        } else {
            match st.held {
                Some(h) => {
                    let items = if st.chord.len() > 0 {
                        st.items.push(ElementSource::Chord(st.chord))
                    } else {
                        st.items
                    };
                    ElementsRead { items: items.push(ElementSource::Note(h)), chord: Seq::empty(), held: Some(c) }
                },
                None => ElementsRead { items: st.items, chord: st.chord, held: Some(c) },
            }
        }
    } else if c.name@ == "backup"@ {
        let f = flush(st);
        ElementsRead { items: f.items.push(ElementSource::Backup(duration_of(c))), chord: f.chord, held: f.held }
    } else if c.name@ == "forward"@ {
        let f = flush(st);
        ElementsRead { items: f.items.push(ElementSource::Forward(duration_of(c))), chord: f.chord, held: f.held }
    } else {
        st
    }
}

/// The state after reading the children `cs` in order.
pub open spec fn elements_read(cs: Seq<XmlNode>) -> ElementsRead
    decreases cs.len(),
{
    if cs.len() == 0 {
        start_read()
    } else {
        elements_step(elements_read(cs.drop_last()), cs.last())
    }
}

/// What the elements of the measure `m` are read from.
pub open spec fn spec_measure_elements(m: XmlNode) -> Seq<ElementSource> {
    flush(elements_read(m.children@)).items
}

/// Each note of `xs` is read from the node at its place in `ns`.
pub open spec fn notes_match(xs: Seq<Note>, ns: Seq<XmlNode>, shift: i8) -> bool {
    &&& xs.len() == ns.len()
    &&& forall|k: int| 0 <= k < xs.len() ==> note_matches(#[trigger] xs[k], ns[k], shift)
}

/// `e` is the element read from `s`.
pub open spec fn element_matches(e: MeasureElement, s: ElementSource, shift: i8) -> bool {
    match (e, s) {
        (MeasureElement::Note(x), ElementSource::Note(n)) => note_matches(x, n, shift),
        (MeasureElement::Chord(xs), ElementSource::Chord(ns)) => notes_match(xs@, ns, shift),
        (MeasureElement::Rest(r), ElementSource::Rest(q)) => r == q,
        (MeasureElement::Backup(a), ElementSource::Backup(b)) => a == b,
        (MeasureElement::Forward(a), ElementSource::Forward(b)) => a == b,
        _ => false,
    }
}

/// Each element of `es` is read from the source at its place in `ss`.
pub open spec fn elements_match(es: Seq<MeasureElement>, ss: Seq<ElementSource>, shift: i8) -> bool {
    &&& es.len() == ss.len()
    &&& forall|k: int| 0 <= k < es.len() ==> element_matches(#[trigger] es[k], ss[k], shift)
}

/// The executable state `(es, chord, held)` stands for `st`.
pub open spec fn state_matches(es: Seq<MeasureElement>, chord: Seq<Note>, held: Option<Note>, st: ElementsRead, shift: i8) -> bool {
    &&& elements_match(es, st.items, shift)
    &&& notes_match(chord, st.chord, shift)
    &&& match (held, st.held) {
        (Some(x), Some(n)) => note_matches(x, n, shift),
        (None, None) => true,
        _ => false,
    }
}

fn push_element(es: &mut Vec<MeasureElement>, e: MeasureElement, Ghost(ss): Ghost<Seq<ElementSource>>, Ghost(s): Ghost<ElementSource>, shift: i8)
    requires
        elements_match(old(es)@, ss, shift),
        element_matches(e, s, shift),
    ensures
        elements_match(final(es)@, ss.push(s), shift),
{
    es.push(e);
    assert forall|k: int| 0 <= k < es@.len() implies element_matches(#[trigger] es@[k], ss.push(s)[k], shift) by {
        if k < ss.len() {
            assert(es@[k] == old(es)@[k]);
        }
    }
}

fn flush_pending(es: &mut Vec<MeasureElement>, chord: &mut Vec<Note>, held: &mut Option<Note>, Ghost(st): Ghost<ElementsRead>, shift: i8)
    requires
        state_matches(old(es)@, old(chord)@, *old(held), st, shift),
    ensures
        state_matches(final(es)@, final(chord)@, *final(held), flush(st), shift),
{
    if chord.len() > 0 {
        let mut taken: Vec<Note> = Vec::new();
        std::mem::swap(&mut taken, chord);
        push_element(es, MeasureElement::Chord(taken), Ghost(st.items), Ghost(ElementSource::Chord(st.chord)), shift);
    } else {
        match held.take() {
            Some(n) => {
                let ghost h = st.held->Some_0;
                push_element(es, MeasureElement::Note(n), Ghost(st.items), Ghost(ElementSource::Note(h)), shift);
            },
            None => {},
        }
    }
}

/// Reads the elements of the first voice of `measure`, with `octave_shift`
/// added to each written octave.
pub fn parse_measure_elements(measure: &XmlNode, octave_shift: i8) -> (r: Vec<MeasureElement>)
    ensures
        elements_match(r@, spec_measure_elements(*measure), octave_shift),
{
    let mut es: Vec<MeasureElement> = Vec::new();
    let mut chord: Vec<Note> = Vec::new();
    let mut held: Option<Note> = None;
    let cs = &measure.children;
    let len = cs.len();
    let mut i: usize = 0;
    while i < len
        invariant
            len == cs@.len(),
            cs == &measure.children,
            i <= len,
            state_matches(es@, chord@, held, elements_read(cs@.take(i as int)), octave_shift),
        decreases len - i,
    {
        let ghost st = elements_read(cs@.take(i as int));
        proof {
            assert(cs@.take(i + 1).drop_last() =~= cs@.take(i as int));
        }
        let c = &cs[i];
        if str_eq(c.name.as_str(), "note") {
            let other = match first_child_text(c, "voice") {
                Some(v) => !str_eq(v.as_str(), "1"),
                None => false,
            };
            if other || has_child_tag(c, "grace") {
            } else if has_child_tag(c, "rest") {
                flush_pending(&mut es, &mut chord, &mut held, Ghost(st), octave_shift);
                match parse_rest(c) {
                    Some(r) => {
                        let ghost f = flush(st);
                        push_element(&mut es, MeasureElement::Rest(r), Ghost(f.items), Ghost(ElementSource::Rest(r)), octave_shift);
                        chord.clear();
                    },
                    None => {},
                }
            } else {
                match parse_note(c, octave_shift) {
                    None => {},
                    Some(note) => {
                        if has_child_tag(c, "chord") {
                            match held.take() {
                                Some(h) => {
                                    chord.push(h);
                                },
                                None => {},
                            }
                            chord.push(note);
                        } else {
                            match held.take() {
                                Some(h) => {
                                    let ghost hn = st.held->Some_0;
                                    if chord.len() > 0 {
                                        let mut taken: Vec<Note> = Vec::new();
                                        std::mem::swap(&mut taken, &mut chord);
                                        push_element(&mut es, MeasureElement::Chord(taken), Ghost(st.items), Ghost(ElementSource::Chord(st.chord)), octave_shift);
                                        push_element(&mut es, MeasureElement::Note(h), Ghost(st.items.push(ElementSource::Chord(st.chord))), Ghost(ElementSource::Note(hn)), octave_shift);
                                    } else {
                                        push_element(&mut es, MeasureElement::Note(h), Ghost(st.items), Ghost(ElementSource::Note(hn)), octave_shift);
                                    }
                                    held = Some(note);
                                },
                                None => {
                                    held = Some(note);
                                },
                            }
                        }
                    },
                }
            }
        } else if str_eq(c.name.as_str(), "backup") {
            flush_pending(&mut es, &mut chord, &mut held, Ghost(st), octave_shift);
            let d = match child_parse_u32(c, "duration") {
                Some(d) => d,
                None => 0,
            };
            push_element(&mut es, MeasureElement::Backup(d), Ghost(flush(st).items), Ghost(ElementSource::Backup(d)), octave_shift);
        } else if str_eq(c.name.as_str(), "forward") {
            flush_pending(&mut es, &mut chord, &mut held, Ghost(st), octave_shift);
            let d = match child_parse_u32(c, "duration") {
                Some(d) => d,
                None => 0,
            };
            push_element(&mut es, MeasureElement::Forward(d), Ghost(flush(st).items), Ghost(ElementSource::Forward(d)), octave_shift);
        }
        i = i + 1;
    }
    proof {
        assert(cs@.take(len as int) =~= cs@);
    }
    flush_pending(&mut es, &mut chord, &mut held, Ghost(elements_read(cs@)), octave_shift);
    es
}

} // verus!
