//! A `<part>`: its measures, read with the clef, key, time signature, clef
//! octave change and divisions in force, each carried over from measure to
//! measure until an `<attributes>` element changes it.

use vstd::prelude::*;
use crate::musicxml::attributes::{
    parse_clef, parse_clef_octave_shift, parse_divisions, parse_key, parse_time, spec_parse_clef,
    spec_parse_clef_octave_shift, spec_parse_divisions, spec_parse_key, spec_parse_time,
};
use crate::musicxml::barline::{barline_matches, parse_barline, spec_bar_style};
use crate::musicxml::directions::{directions_match, directions_read, parse_directions};
use crate::musicxml::elements::{elements_match, parse_measure_elements, spec_measure_elements};
use crate::musicxml::header::or_empty;
use crate::notation::barline::{BarStyle, Barline};
use crate::notation::clef::{clef_default_line, Clef};
use crate::notation::key::{KeyMode, KeySignature};
use crate::notation::measure::{Measure, TimeSignature, TimeSignatureStyle};
use crate::notation::score::PartInfo;
use crate::notation::staff::{Staff, StaffKind};
use crate::text::str_eq;
use crate::xml::{attr, attribute, child, child_text, is_element, tagged, XmlNode};

verus! {

/// The attributes in force while a part is read.
#[derive(Clone, Copy, PartialEq, Eq, Debug, Structural)]
pub struct PartAttributes {
    pub clef: Clef,
    pub key: KeySignature,
    pub time: TimeSignature,
    /// Octaves added to written pitches (clef octave change).
    pub octave_shift: i8,
    /// Divisions per quarter note.
    pub divisions: u32,
}

/// Before any `<attributes>`: treble clef, C major, 4/4, no octave change,
/// one division per quarter.
pub open spec fn initial_attributes() -> PartAttributes {
    PartAttributes {
        clef: Clef::Treble,
        key: KeySignature { fifths: 0, mode: KeyMode::Unspecified, cancel: None },
        time: TimeSignature { numerator: 4, denominator: 4, style: TimeSignatureStyle::Numeric },
        octave_shift: 0,
        divisions: 1,
    }
}

/// The attributes after one `<attributes>` element: each value it gives
/// replaces the one in force.
pub open spec fn apply_attributes(a: PartAttributes, n: XmlNode) -> PartAttributes {
    PartAttributes {
        clef: match spec_parse_clef(n) {
            Some(c) => c,
            None => a.clef,
        },
        key: match spec_parse_key(n) {
            Some(k) => k,
            None => a.key,
        },
        time: match spec_parse_time(n) {
            Some(t) => t,
            None => a.time,
        },
        octave_shift: match spec_parse_clef_octave_shift(n) {
            Some(s) => s,
            None => a.octave_shift,
        },
        divisions: match spec_parse_divisions(n) {
            Some(d) => d,
            None => a.divisions,
        },
    }
}

/// The attributes after the `<attributes>` elements `ns`, in order.
pub open spec fn apply_all(a: PartAttributes, ns: Seq<XmlNode>) -> PartAttributes
    decreases ns.len(),
{
    if ns.len() == 0 {
        a
    } else {
        apply_attributes(apply_all(a, ns.drop_last()), ns.last())
    }
}

/// The attributes in force in the last of the measures `ms`.
pub open spec fn attributes_through(ms: Seq<XmlNode>) -> PartAttributes
    decreases ms.len(),
{
    if ms.len() == 0 {
        initial_attributes()
    } else {
        apply_all(attributes_through(ms.drop_last()), tagged(ms.last().children@, "attributes"@))
    }
}

/// Style of the bar line of a measure as written (regular when absent).
pub open spec fn spec_barline_style(m: XmlNode) -> BarStyle {
    match child(m, "barline"@) {
        None => BarStyle::Regular,
        Some(bl) => match child_text(bl, "bar-style"@) {
            Some(s) => spec_bar_style(s),
            None => BarStyle::Regular,
        },
    }
}

/// The last measure of a part closes with a final bar line unless another
/// style is written.
pub open spec fn closing_style(s: BarStyle) -> BarStyle {
    if s == BarStyle::Regular || s == BarStyle::Invisible {
        BarStyle::LightHeavy
    } else {
        s
    }
}

/// `x` is read from the `<measure>` `m` under the attributes `a` (its bar
/// line aside).
pub open spec fn measure_matches(x: Measure, m: XmlNode, a: PartAttributes) -> bool {
    &&& x.number@ == (match attr(m, "number"@) {
        Some(v) => v,
        None => "1"@,
    })
    &&& x.time_signature == a.time
    &&& x.key_signature == a.key
    &&& x.divisions == a.divisions
    &&& elements_match(x.elements@, spec_measure_elements(m), a.octave_shift)
    &&& directions_match(x.directions@, directions_read(m.children@).found)
    &&& x.ending is None
    &&& !x.system_break
    &&& x.chord_symbol is None
}

/// `b` is the bar line read from `m`; in the last measure its style is the
/// closing style.
pub open spec fn measure_barline_matches(b: Barline, m: XmlNode, last: bool) -> bool {
    if last {
        &&& barline_matches(Barline { style: spec_barline_style(m), repeat: b.repeat, ending: b.ending }, m)
        &&& b.style == closing_style(spec_barline_style(m))
    } else {
        barline_matches(b, m)
    }
}

/// The name of a staff: that of its part-list entry, or empty.
pub open spec fn staff_name(info: Option<PartInfo>) -> Seq<char> {
    match info {
        Some(p) => p.name@,
        None => Seq::empty(),
    }
}

/// The abbreviation of a staff: that of its part-list entry, or its name.
pub open spec fn staff_abbreviation(info: Option<PartInfo>) -> Seq<char> {
    match info {
        Some(p) => p.abbreviation@,
        None => Seq::empty(),
    }
}

/// `s` is the staff read from the `<part>` `p` with the part-list entry
/// `info`.
pub open spec fn staff_matches(s: Staff, p: XmlNode, info: Option<PartInfo>) -> bool {
    let ms = tagged(p.children@, "measure"@);
    &&& s.measures@.len() == ms.len()
    &&& forall|k: int| 0 <= k < ms.len() ==> {
        &&& measure_matches(#[trigger] s.measures@[k], ms[k], attributes_through(ms.take(k + 1)))
        &&& measure_barline_matches(s.measures@[k].barline, ms[k], k == ms.len() - 1)
    }
    &&& s.clef == attributes_through(ms).clef
    &&& s.line == clef_default_line(s.clef)
    &&& s.name@ == staff_name(info)
    &&& s.abbreviation@ == staff_abbreviation(info)
    &&& s.kind is Standard
}

fn measure_attributes(a: PartAttributes, m: &XmlNode) -> (r: PartAttributes)
    ensures
        r == apply_all(a, tagged(m.children@, "attributes"@)),
{
    let mut r = a;
    let cs = &m.children;
    let len = cs.len();
    let mut i: usize = 0;
    while i < len
        invariant
            len == cs@.len(),
            cs == &m.children,
            i <= len,
            r == apply_all(a, tagged(cs@.take(i as int), "attributes"@)),
        decreases len - i,
    {
        proof {
            assert(cs@.take(i + 1).drop_last() =~= cs@.take(i as int));
        }
        let c = &cs[i];
        let ghost prev = tagged(cs@.take(i as int), "attributes"@);
        let ghost r0 = r;
        if is_element(c, "attributes") {
            proof {
                assert(tagged(cs@.take(i + 1), "attributes"@) == prev.push(*c));
                assert(prev.push(*c).drop_last() =~= prev);
            }
            if let Some(clef) = parse_clef(c) {
                r.clef = clef;
            }
            if let Some(time) = parse_time(c) {
                r.time = time;
            }
            if let Some(key) = parse_key(c) {
                r.key = key;
            }
            if let Some(shift) = parse_clef_octave_shift(c) {
                r.octave_shift = shift;
            }
            if let Some(divisions) = parse_divisions(c) {
                r.divisions = divisions;
            }
            assert(r == apply_attributes(r0, *c));
        }
        i = i + 1;
    }
    proof {
        assert(cs@.take(len as int) =~= cs@);
    }
    r
}

fn read_measure(m: &XmlNode, a: PartAttributes) -> (x: Measure)
    ensures
        measure_matches(x, *m, a),
        barline_matches(x.barline, *m),
{
    let number = match attribute(m, "number") {
        Some(v) => v.to_string(),
        None => "1".to_string(),
    };
    Measure {
        number,
        time_signature: a.time,
        key_signature: a.key,
        elements: parse_measure_elements(m, a.octave_shift),
        barline: parse_barline(m),
        ending: None,
        directions: parse_directions(m),
        divisions: a.divisions,
        system_break: false,
        chord_symbol: None,
    }
}

/// Reads a `<part>` into a staff named after its part-list entry `info`.
pub fn parse_part(p: &XmlNode, info: Option<&PartInfo>) -> (s: Staff)
    ensures
        staff_matches(s, *p, match info { Some(i) => Some(*i), None => None }),
{
    let ghost ms = tagged(p.children@, "measure"@);
    let mut measures: Vec<Measure> = Vec::new();
    let mut a = PartAttributes {
        clef: Clef::Treble,
        key: KeySignature { fifths: 0, mode: KeyMode::Unspecified, cancel: None },
        time: TimeSignature { numerator: 4, denominator: 4, style: TimeSignatureStyle::Numeric },
        octave_shift: 0,
        divisions: 1,
    };
    let cs = &p.children;
    let len = cs.len();
    let mut i: usize = 0;
    while i < len
        invariant
            len == cs@.len(),
            cs == &p.children,
            ms == tagged(cs@, "measure"@),
            i <= len,
            a == attributes_through(tagged(cs@.take(i as int), "measure"@)),
            measures@.len() == tagged(cs@.take(i as int), "measure"@).len(),
            forall|k: int| 0 <= k < measures@.len() ==> {
                &&& measure_matches(#[trigger] measures@[k], tagged(cs@.take(i as int), "measure"@)[k],
                    attributes_through(tagged(cs@.take(i as int), "measure"@).take(k + 1)))
                &&& barline_matches(measures@[k].barline, tagged(cs@.take(i as int), "measure"@)[k])
            },
        decreases len - i,
    {
        let ghost before = tagged(cs@.take(i as int), "measure"@);
        proof {
            assert(cs@.take(i + 1).drop_last() =~= cs@.take(i as int));
        }
        let c = &cs[i];
        if is_element(c, "measure") {
            let ghost after = before.push(*c);
            proof {
                assert(after.drop_last() =~= before);
                assert(after.take(after.len() as int) =~= after);
            }
            a = measure_attributes(a, c);
            let ghost old_measures = measures@;
            measures.push(read_measure(c, a));
            proof {
                assert forall|k: int| 0 <= k < measures@.len() implies {
                    &&& measure_matches(#[trigger] measures@[k], after[k], attributes_through(after.take(k + 1)))
                    &&& barline_matches(measures@[k].barline, after[k])
                } by {
                    if k < old_measures.len() {
                        assert(measures@[k] == old_measures[k]);
                        assert(after.take(k + 1) =~= before.take(k + 1));
                    }
                }
            }
        }
        i = i + 1;
    }
    proof {
        assert(cs@.take(len as int) =~= cs@);
    }
    let ghost unclosed = measures@;
    match measures.pop() {
        Some(m) => {
            let mut m = m;
            if m.barline.style == BarStyle::Regular || m.barline.style == BarStyle::Invisible {
                m.barline.style = BarStyle::LightHeavy;
            }
            measures.push(m);
        },
        None => {},
    }
    proof {
        assert(ms.len() == unclosed.len());
        assert forall|k: int| 0 <= k < ms.len() implies {
            &&& measure_matches(#[trigger] measures@[k], ms[k], attributes_through(ms.take(k + 1)))
            &&& measure_barline_matches(measures@[k].barline, ms[k], k == ms.len() - 1)
        } by {
            if k < ms.len() - 1 {
                assert(measures@[k] == unclosed[k]);
            }
        }
        if ms.len() > 0 {
            assert(ms.take(ms.len() as int) =~= ms);
        }
    }
    let name = match info {
        Some(i) => i.name.clone(),
        None => String::new(),
    };
    let abbreviation = match info {
        Some(i) => i.abbreviation.clone(),
        None => name.clone(),
    };
    Staff { clef: a.clef, line: a.clef.default_line(), measures, name, abbreviation, kind: StaffKind::Standard }
}

} // verus!
