//! `<direction>` elements of a measure: dynamics, hairpins, words,
//! rehearsal marks, metronome marks, octave lines and pedal marks, each with
//! the index of the measure element it stands before.

use vstd::prelude::*;
use crate::musicxml::elements::{elements_read, flush, other_voice};
use crate::musicxml::fields::{attr_parse_u8, attr_u8, child_parse_u16, child_u16};
use crate::musicxml::leaves::{dynamic_named, parse_beat_unit, parse_dynamic_mark, placement_or, spec_beat_unit, spec_placement_or};
use crate::musicxml::note::{spec_note_parts, spec_parse_rest};
use crate::notation::attachment::{DynamicMark, Placement};
use crate::notation::direction::{
    Direction, DirectionKind, Metronome, OctaveShift, OctaveShiftKind, Pedal, PedalKind, Wedge,
    WedgeKind,
};
use crate::notation::figure::NoteFigure;
use crate::text::str_eq;
use crate::xml::{
    attr, attribute, attribute_is, child, child_text, find_child, first_child_text, has_child,
    has_child_tag, node_text, XmlNode,
};

verus! {

/// What a `<direction-type>` denotes.
pub enum DirectionSource {
    /// The children of `<dynamics>`, one mark each.
    Dynamics(Seq<XmlNode>),
    Wedge(Wedge),
    Words(Seq<char>),
    Rehearsal(Seq<char>),
    Metronome(Metronome),
    OctaveShift(OctaveShift),
    Pedal(Pedal),
}

pub open spec fn text_or_empty(n: XmlNode) -> Seq<char> {
    match node_text(n) {
        Some(t) => t,
        None => Seq::empty(),
    }
}

/// What the `<direction-type>` `dt` denotes: its first `<dynamics>`, else
/// `<wedge>`, `<words>`, `<rehearsal>`, `<metronome>`, `<octave-shift>`,
/// `<pedal>`. `None` for empty dynamics, a wedge stop, or none of these.
pub open spec fn spec_direction_kind(dt: XmlNode) -> Option<DirectionSource> {
    if let Some(d) = child(dt, "dynamics"@) {
        if d.children@.len() == 0 { None } else { Some(DirectionSource::Dynamics(d.children@)) }
    } else if let Some(w) = child(dt, "wedge"@) {
        let ty = match attr(w, "type"@) {
            Some(t) => t,
            None => "crescendo"@,
        };
        if ty == "stop"@ {
            None
        } else {
            Some(DirectionSource::Wedge(Wedge {
                kind: if ty == "diminuendo"@ { WedgeKind::Diminuendo } else { WedgeKind::Crescendo },
                niente: attr(w, "niente"@) == Some("yes"@),
                spread: 0,
            }))
        }
    } else if let Some(w) = child(dt, "words"@) {
        Some(DirectionSource::Words(text_or_empty(w)))
    } else if let Some(r) = child(dt, "rehearsal"@) {
        Some(DirectionSource::Rehearsal(text_or_empty(r)))
    } else if let Some(m) = child(dt, "metronome"@) {
        Some(DirectionSource::Metronome(Metronome {
            beat_unit: match child_text(m, "beat-unit"@) {
                Some(s) => spec_beat_unit(s),
                None => NoteFigure::Quarter,
            },
            per_minute: match child_u16(m, "per-minute"@) {
                Some(v) => v,
                None => 120,
            },
            parentheses: attr(m, "parentheses"@) == Some("yes"@),
        }))
    } else if let Some(o) = child(dt, "octave-shift"@) {
        Some(DirectionSource::OctaveShift(OctaveShift {
            size: match attr_u8(o, "size"@) {
                Some(v) => v,
                None => 8,
            },
            kind: if attr(o, "type"@) == Some("down"@) {
                OctaveShiftKind::Down
            } else if attr(o, "type"@) == Some("stop"@) {
                OctaveShiftKind::Stop
            } else {
                OctaveShiftKind::Up
            },
        }))
    } else if let Some(p) = child(dt, "pedal"@) {
        Some(DirectionSource::Pedal(Pedal {
            kind: if attr(p, "type"@) == Some("stop"@) {
                PedalKind::Stop
            } else if attr(p, "type"@) == Some("change"@) {
                PedalKind::Change
            } else {
                PedalKind::Start
            },
            line: attr(p, "line"@) == Some("yes"@),
        }))
    } else {
        None
    }
}

/// Placement (default below), staff (default 1) and content of the
/// `<direction>` `d`; `None` without a `<direction-type>` that denotes one.
pub open spec fn spec_single_direction(d: XmlNode) -> Option<(Placement, u8, DirectionSource)> {
    match child(d, "direction-type"@) {
        None => None,
        Some(dt) => match spec_direction_kind(dt) {
            None => None,
            Some(k) => Some((
                spec_placement_or(attr(d, "placement"@), Placement::Below),
                match attr_u8(d, "staff"@) {
                    Some(s) => s,
                    None => 1,
                },
                k,
            )),
        },
    }
}

/// Each mark of `ms` is the dynamic named by the node at its place in `cs`.
pub open spec fn marks_match(ms: Seq<DynamicMark>, cs: Seq<XmlNode>) -> bool {
    &&& ms.len() == cs.len()
    &&& forall|k: int| 0 <= k < ms.len() ==> dynamic_named(#[trigger] ms[k], cs[k].name@)
}

/// `k` is the direction content read from `s`.
pub open spec fn kind_matches(k: DirectionKind, s: DirectionSource) -> bool {
    match (k, s) {
        (DirectionKind::Dynamics(ms), DirectionSource::Dynamics(cs)) => marks_match(ms@, cs),
        (DirectionKind::Wedge(a), DirectionSource::Wedge(b)) => a == b,
        (DirectionKind::Words(a), DirectionSource::Words(b)) => a@ == b,
        (DirectionKind::Rehearsal(a), DirectionSource::Rehearsal(b)) => a@ == b,
        (DirectionKind::Metronome(a), DirectionSource::Metronome(b)) => a == b,
        (DirectionKind::OctaveShift(a), DirectionSource::OctaveShift(b)) => a == b,
        (DirectionKind::Pedal(a), DirectionSource::Pedal(b)) => a == b,
        _ => false,
    }
}

/// `x` is the direction read from the `<direction>` `d` (its index aside).
pub open spec fn direction_matches(x: Direction, d: XmlNode) -> bool {
    match spec_single_direction(d) {
        Some((placement, staff, s)) => x.placement == placement && x.staff == staff && kind_matches(x.kind, s),
        None => false,
    }
}

fn dynamics_marks(d: &XmlNode) -> (r: Vec<DynamicMark>)
    ensures
        marks_match(r@, d.children@),
{
    let cs = &d.children;
    let len = cs.len();
    let mut r: Vec<DynamicMark> = Vec::new();
    let mut i: usize = 0;
    while i < len
        invariant
            len == cs@.len(),
            cs == &d.children,
            i <= len,
            marks_match(r@, cs@.take(i as int)),
        decreases len - i,
    {
        match parse_dynamic_mark(cs[i].name.as_str()) {
            Some(m) => r.push(m),
            None => {},
        }
        i = i + 1;
    }
    proof {
        assert(cs@.take(len as int) =~= cs@);
    }
    r
}

fn text_or_empty_of(n: &XmlNode) -> (s: String)
    ensures
        s@ == text_or_empty(*n),
{
    match &n.text {
        Some(t) => t.clone(),
        None => String::new(),
    }
}

fn direction_kind(dt: &XmlNode) -> (r: Option<DirectionKind>)
    ensures
        match (r, spec_direction_kind(*dt)) {
            (Some(k), Some(s)) => kind_matches(k, s),
            (None, None) => true,
            _ => false,
        },
{
    if let Some(d) = find_child(dt, "dynamics") {
        if d.children.len() == 0 {
            None
        } else {
            Some(DirectionKind::Dynamics(dynamics_marks(d)))
        }
    } else if let Some(w) = find_child(dt, "wedge") {
        let ty = match attribute(w, "type") {
            Some(t) => t,
            None => "crescendo",
        };
        proof {
            reveal_strlit("crescendo");
            reveal_strlit("stop");
        }
        if str_eq(ty, "stop") {
            None
        } else {
            let kind = if str_eq(ty, "diminuendo") { WedgeKind::Diminuendo } else { WedgeKind::Crescendo };
            Some(DirectionKind::Wedge(Wedge { kind, niente: attribute_is(w, "niente", "yes"), spread: 0 }))
        }
    } else if let Some(w) = find_child(dt, "words") {
        Some(DirectionKind::Words(text_or_empty_of(w)))
    } else if let Some(r) = find_child(dt, "rehearsal") {
        Some(DirectionKind::Rehearsal(text_or_empty_of(r)))
    } else if let Some(m) = find_child(dt, "metronome") {
        let beat_unit = match first_child_text(m, "beat-unit") {
            Some(s) => parse_beat_unit(s.as_str()),
            None => NoteFigure::Quarter,
        };
        let per_minute = match child_parse_u16(m, "per-minute") {
            Some(v) => v,
            None => 120,
        };
        let parentheses = attribute_is(m, "parentheses", "yes");
        Some(DirectionKind::Metronome(Metronome { beat_unit, per_minute, parentheses }))
    } else if let Some(o) = find_child(dt, "octave-shift") {
        let size = match attr_parse_u8(o, "size") {
            Some(v) => v,
            None => 8,
        };
        let kind = if attribute_is(o, "type", "down") {
            OctaveShiftKind::Down
        } else if attribute_is(o, "type", "stop") {
            OctaveShiftKind::Stop
        } else {
            OctaveShiftKind::Up
        };
        Some(DirectionKind::OctaveShift(OctaveShift { size, kind }))
    } else if let Some(p) = find_child(dt, "pedal") {
        let kind = if attribute_is(p, "type", "stop") {
            PedalKind::Stop
        } else if attribute_is(p, "type", "change") {
            PedalKind::Change
        } else {
            PedalKind::Start
        };
        Some(DirectionKind::Pedal(Pedal { kind, line: attribute_is(p, "line", "yes") }))
    } else {
        None
    }
}

/// Reads one `<direction>`, with element index 0 (the measure reader sets it).
pub fn parse_single_direction(d: &XmlNode) -> (r: Option<Direction>)
    ensures
        r is Some <==> spec_single_direction(*d) is Some,
        r matches Some(x) ==> x.element_index == 0 && direction_matches(x, *d),
{
    let placement = placement_or(attribute(d, "placement"), Placement::Below);
    let staff = match attr_parse_u8(d, "staff") {
        Some(s) => s,
        None => 1,
    };
    let dt = match find_child(d, "direction-type") {
        Some(dt) => dt,
        None => return None,
    };
    match direction_kind(dt) {
        Some(kind) => Some(Direction { element_index: 0, placement, staff, kind }),
        None => None,
    }
}

/// Counting state of the direction reader: elements emitted, whether a note
/// or chord is pending, and the directions found with their index.
pub struct DirectionsRead {
    pub count: nat,
    pub pending: bool,
    pub found: Seq<(nat, XmlNode)>,
}

pub open spec fn pending_nat(b: bool) -> nat {
    if b { 1 } else { 0 }
}

/// The state after the child `c` of a measure.
pub open spec fn directions_step(st: DirectionsRead, c: XmlNode) -> DirectionsRead {
    if c.name@ == "note"@ {
        if other_voice(c) || has_child(c, "grace"@) {
            st
        } else if has_child(c, "rest"@) {
            DirectionsRead { count: st.count + pending_nat(st.pending) + 1, pending: false, found: st.found }
        } else if has_child(c, "chord"@) {
            DirectionsRead { count: st.count, pending: true, found: st.found }
        } else {
            DirectionsRead { count: st.count + pending_nat(st.pending), pending: true, found: st.found }
        }
    } else if c.name@ == "backup"@ || c.name@ == "forward"@ {
        DirectionsRead { count: st.count + pending_nat(st.pending) + 1, pending: false, found: st.found }
    } else if c.name@ == "direction"@ && spec_single_direction(c) is Some {
        DirectionsRead { found: st.found.push((st.count + pending_nat(st.pending), c)), ..st }
    } else {
        st
    }
}

pub open spec fn directions_read(cs: Seq<XmlNode>) -> DirectionsRead
    decreases cs.len(),
{
    if cs.len() == 0 {
        DirectionsRead { count: 0, pending: false, found: Seq::empty() }
    } else {
        directions_step(directions_read(cs.drop_last()), cs.last())
    }
}

/// Each direction of `xs` is read, with its index, from the entry at its
/// place in `fs`.
pub open spec fn directions_match(xs: Seq<Direction>, fs: Seq<(nat, XmlNode)>) -> bool {
    &&& xs.len() == fs.len()
    &&& forall|k: int| 0 <= k < xs.len() ==> {
        &&& (#[trigger] xs[k]).element_index == fs[k].0
        &&& direction_matches(xs[k], fs[k].1)
    }
}

proof fn lemma_count_bound(cs: Seq<XmlNode>)
    ensures
        directions_read(cs).count + pending_nat(directions_read(cs).pending) <= cs.len(),
    decreases cs.len(),
{
    if cs.len() > 0 {
        lemma_count_bound(cs.drop_last());
    }
}

/// A child of a measure on which the direction reader and the element
/// reader agree: anything but a first-voice, non-grace `<note>` that is a
/// chord note or cannot be read.
pub open spec fn plain_child(c: XmlNode) -> bool {
    (c.name@ == "note"@ && !other_voice(c) && !has_child(c, "grace"@)) ==> if has_child(c, "rest"@) {
        spec_parse_rest(c) is Some
    } else {
        spec_note_parts(c) is Some && !has_child(c, "chord"@)
    }
}

pub open spec fn plain_children(cs: Seq<XmlNode>) -> bool {
    forall|k: int| 0 <= k < cs.len() ==> plain_child(#[trigger] cs[k])
}

proof fn lemma_readers_agree(cs: Seq<XmlNode>)
    requires
        plain_children(cs),
    ensures
        directions_read(cs).count == elements_read(cs).items.len(),
        directions_read(cs).pending == (elements_read(cs).held is Some),
        elements_read(cs).chord.len() == 0,
    decreases cs.len(),
{
    if cs.len() > 0 {
        assert(plain_child(cs[cs.len() - 1]));
        lemma_readers_agree(cs.drop_last());
    }
}

proof fn lemma_flushed_prefix(cs: Seq<XmlNode>, j: int)
    requires
        0 <= j <= cs.len(),
        plain_children(cs),
    ensures
        flush(elements_read(cs.take(j))).items.len() <= flush(elements_read(cs)).items.len(),
        flush(elements_read(cs)).items.subrange(0, flush(elements_read(cs.take(j))).items.len() as int)
            == flush(elements_read(cs.take(j))).items,
    decreases cs.len(),
{
    let a = flush(elements_read(cs.take(j))).items;
    if j == cs.len() {
        assert(cs.take(j) =~= cs);
        assert(a.subrange(0, a.len() as int) =~= a);
    } else {
        let p = cs.drop_last();
        assert(plain_child(cs[cs.len() - 1]));
        lemma_flushed_prefix(p, j);
        assert(p.take(j) =~= cs.take(j));
        lemma_readers_agree(p);
        let b = flush(elements_read(p)).items;
        let c = flush(elements_read(cs)).items;
        assert(b.len() <= c.len() && c.subrange(0, b.len() as int) =~= b);
        assert(c.subrange(0, a.len() as int) =~= b.subrange(0, a.len() as int));
    }
}

/// In a measure whose first-voice notes can all be read and none is a chord
/// note, the `<direction>` at child `k` gets as its index the number of
/// elements read from the children before it, and those elements open the
/// measure's element list: the direction stands before the element at its
/// index.
pub proof fn lemma_direction_index_counts_elements_before(cs: Seq<XmlNode>, k: int)
    requires
        0 <= k < cs.len(),
        plain_children(cs),
        cs[k].name@ == "direction"@,
        spec_single_direction(cs[k]) is Some,
    ensures
        directions_read(cs.take(k + 1)).found.last().0 == flush(elements_read(cs.take(k))).items.len(),
        flush(elements_read(cs.take(k))).items.len() <= flush(elements_read(cs)).items.len(),
        flush(elements_read(cs)).items.subrange(0, flush(elements_read(cs.take(k))).items.len() as int)
            == flush(elements_read(cs.take(k))).items,
{
    reveal_strlit("direction");
    reveal_strlit("note");
    reveal_strlit("backup");
    reveal_strlit("forward");
    let p = cs.take(k);
    assert(cs.take(k + 1).drop_last() =~= p);
    assert(cs.take(k + 1).last() == cs[k]);
    assert(plain_children(p));
    lemma_readers_agree(p);
    let q = cs.take(k + 1);
    assert(q.len() == k + 1);
    assert(directions_read(q) == directions_step(directions_read(p), cs[k]));
    assert("direction"@.len() == 9);
    assert(cs[k].name@ != "note"@);
    assert(cs[k].name@ != "backup"@);
    assert(cs[k].name@ != "forward"@);
    assert(directions_read(q).found == directions_read(p).found.push(
        (directions_read(p).count + pending_nat(directions_read(p).pending), cs[k]),
    ));
    lemma_flushed_prefix(cs, k);
}

/// Reads the directions of `measure`, each with the index of the element it
/// stands before.
pub fn parse_directions(measure: &XmlNode) -> (r: Vec<Direction>)
    ensures
        directions_match(r@, directions_read(measure.children@).found),
{
    let mut dirs: Vec<Direction> = Vec::new();
    let mut count: usize = 0;
    let mut pending = false;
    let cs = &measure.children;
    let len = cs.len();
    let mut i: usize = 0;
    while i < len
        invariant
            len == cs@.len(),
            cs == &measure.children,
            i <= len,
            count == directions_read(cs@.take(i as int)).count,
            pending == directions_read(cs@.take(i as int)).pending,
            directions_match(dirs@, directions_read(cs@.take(i as int)).found),
        decreases len - i,
    {
        proof {
            assert(cs@.take(i + 1).drop_last() =~= cs@.take(i as int));
            lemma_count_bound(cs@.take(i + 1));
        }
        let c = &cs[i];
        if str_eq(c.name.as_str(), "note") {
            let other = match first_child_text(c, "voice") {
                Some(v) => !str_eq(v.as_str(), "1"),
                None => false,
            };
            if other || has_child_tag(c, "grace") {
            } else if has_child_tag(c, "rest") {
                if pending {
                    count = count + 1;
                }
                count = count + 1;
                pending = false;
            } else if has_child_tag(c, "chord") {
                pending = true;
            } else {
                if pending {
                    count = count + 1;
                }
                pending = true;
            }
        } else if str_eq(c.name.as_str(), "backup") || str_eq(c.name.as_str(), "forward") {
            if pending {
                count = count + 1;
            }
            count = count + 1;
            pending = false;
        } else if str_eq(c.name.as_str(), "direction") {
            let element_index = if pending { count + 1 } else { count };
            match parse_single_direction(c) {
                Some(d) => {
                    let ghost old_dirs = dirs@;
                    let ghost fs = directions_read(cs@.take(i as int)).found;
                    dirs.push(Direction { element_index, ..d });
                    assert forall|k: int| 0 <= k < dirs@.len() implies {
                        &&& (#[trigger] dirs@[k]).element_index == fs.push((element_index as nat, *c))[k].0
                        &&& direction_matches(dirs@[k], fs.push((element_index as nat, *c))[k].1)
                    } by {
                        if k < old_dirs.len() {
                            assert(dirs@[k] == old_dirs[k]);
                        }
                    }
                },
                None => {},
            }
        }
        i = i + 1;
    }
    proof {
        assert(cs@.take(len as int) =~= cs@);
    }
    dirs
}

} // verus!
