//! A `<note>` element: rests, pitched notes, their markings, ties and lyrics.

use vstd::prelude::*;
use crate::musicxml::fields::{attr_parse_u8, attr_u8, child_i8, child_parse_i8};
use crate::musicxml::notations::{attachment_matches, empty_read, parse_attachments, spec_notations, NotationsRead};
use crate::musicxml::leaves::{
    known_dynamic, parse_note_type, parse_step_str, placement_or, slur_kind, spec_known_dynamic,
    spec_note_type, spec_placement_or, spec_slur_kind, spec_step, spec_tie_kind, tie_kind,
};
use crate::notation::attachment::{
    Arpeggiate, ArpeggioDirection, Articulation, DynamicMark, Fermata, FermataShape, Glissando,
    GlissandoKind, LineType, NoteAttachment, Ornament, Placement, Slur, Technical, Tie, Tremolo,
};
use crate::notation::figure::NoteFigure;
use crate::notation::lyric::{Lyric, Syllabic};
use crate::notation::note::{Note, StemDirection};
use crate::notation::pitch::{Accidental, Pitch, Step};
use crate::notation::rest::Rest;
use crate::text::{parse_u8, spec_parse_u8, spec_trim, str_eq, trim};
use crate::xml::{
    attr, attribute, attribute_is, child, child_text, count_child_tags, count_children, find_child,
    first_child_text, has_child, has_child_tag, node_text, opt_view, text_of, XmlNode,
};

verus! {

/// The nodes of `cs` whose name is `name`, in order.
pub open spec fn named(cs: Seq<XmlNode>, name: Seq<char>) -> Seq<XmlNode>
    decreases cs.len(),
{
    if cs.len() == 0 {
        Seq::empty()
    } else if cs.last().name@ == name {
        named(cs.drop_last(), name).push(cs.last())
    } else {
        named(cs.drop_last(), name)
    }
}

/// Trimmed text of a node.
pub open spec fn trimmed_text(n: XmlNode) -> Option<Seq<char>> {
    match node_text(n) {
        Some(t) => Some(spec_trim(t)),
        None => None,
    }
}

/// A `u8` read from a node's trimmed text, or `default`.
pub open spec fn text_u8_or(n: XmlNode, default: u8) -> u8 {
    match trimmed_text(n) {
        Some(t) => match spec_parse_u8(t) {
            Some(v) => v,
            None => default,
        },
        None => default,
    }
}

pub fn text_parse_u8_or(n: &XmlNode, default: u8) -> (v: u8)
    ensures
        v == text_u8_or(*n, default),
{
    match &n.text {
        Some(t) => {
            let s = trim(t.as_str());
            match parse_u8(s.as_str()) {
                Some(v) => v,
                None => default,
            }
        },
        None => default,
    }
}

/// Number of dots of a note or rest: its `<dot>` children, at most 3.
pub open spec fn spec_dots(n: XmlNode) -> u8 {
    if count_children(n, "dot"@) >= 3 { 3 } else { count_children(n, "dot"@) as u8 }
}

fn dots(n: &XmlNode) -> (d: u8)
    ensures
        d == spec_dots(*n),
{
    let c = count_child_tags(n, "dot");
    if c >= 3 { 3 } else { c as u8 }
}

// ── Rests ────────────────────────────────────────────────────────

/// The rest a `<note>` element holding `<rest/>` describes; `None` without a
/// readable `<type>`.
pub open spec fn spec_parse_rest(n: XmlNode) -> Option<Rest> {
    match child_text(n, "type"@) {
        None => None,
        Some(t) => match spec_note_type(t) {
            None => None,
            Some(figure) => Some(Rest {
                figure,
                dotted: spec_dots(n),
                time_modification: None,
                display_step: match child_text(n, "display-step"@) {
                    Some(s) => spec_step(s),
                    None => None,
                },
                display_octave: child_i8(n, "display-octave"@),
                measure: match child(n, "rest"@) {
                    Some(r) => attr(r, "measure"@) == Some("yes"@),
                    None => false,
                },
            }),
        },
    }
}

pub fn parse_rest(n: &XmlNode) -> (r: Option<Rest>)
    ensures
        r == spec_parse_rest(*n),
{
    let t = match first_child_text(n, "type") {
        Some(t) => t,
        None => return None,
    };
    let figure = match parse_note_type(t.as_str()) {
        Some(f) => f,
        None => return None,
    };
    let dotted = dots(n);
    let measure = match find_child(n, "rest") {
        Some(r) => attribute_is(r, "measure", "yes"),
        None => false,
    };
    let display_step = match first_child_text(n, "display-step") {
        Some(s) => parse_step_str(s.as_str()),
        None => None,
    };
    let display_octave = child_parse_i8(n, "display-octave");
    Some(Rest { figure, dotted, time_modification: None, display_step, display_octave, measure })
}

// ── Ties and lyrics ──────────────────────────────────────────────

/// The tie an element (`<tie>` or `<tied>`) describes; `placement` is used
/// when the element gives none.
pub open spec fn spec_tie_of(c: XmlNode, placement: Placement) -> Tie {
    Tie {
        kind: spec_tie_kind(attr(c, "type"@)),
        number: match attr_u8(c, "number"@) {
            Some(v) => v,
            None => 1,
        },
        placement: spec_placement_or(attr(c, "placement"@), placement),
    }
}

pub fn tie_of(c: &XmlNode, placement: Placement) -> (t: Tie)
    ensures
        t == spec_tie_of(*c, placement),
{
    let kind = tie_kind(attribute(c, "type"));
    let number = match attr_parse_u8(c, "number") {
        Some(v) => v,
        None => 1,
    };
    let placement = placement_or(attribute(c, "placement"), placement);
    Tie { kind, number, placement }
}

/// The ties of the `<tie>` children of a note (below when no placement is given).
pub open spec fn spec_direct_ties(cs: Seq<XmlNode>) -> Seq<Tie>
    decreases cs.len(),
{
    if cs.len() == 0 {
        Seq::empty()
    } else if cs.last().name@ == "tie"@ {
        spec_direct_ties(cs.drop_last()).push(spec_tie_of(cs.last(), Placement::Below))
    } else {
        spec_direct_ties(cs.drop_last())
    }
}

/// Reads the `<tie>` children of a `<note>` (not those inside `<notations>`).
pub fn parse_ties(note: &XmlNode) -> (r: Vec<Tie>)
    ensures
        r@ == spec_direct_ties(note.children@),
{
    let cs = &note.children;
    let len = cs.len();
    let mut ties: Vec<Tie> = Vec::new();
    let mut i: usize = 0;
    while i < len
        invariant
            len == cs@.len(),
            cs == &note.children,
            i <= len,
            ties@ == spec_direct_ties(cs@.take(i as int)),
        decreases len - i,
    {
        proof {
            assert(cs@.take(i + 1).drop_last() =~= cs@.take(i as int));
        }
        if str_eq(cs[i].name.as_str(), "tie") {
            ties.push(tie_of(&cs[i], Placement::Below));
        }
        i = i + 1;
    }
    proof {
        assert(cs@.take(len as int) =~= cs@);
    }
    ties
}

/// Syllable kind named by `<syllabic>`; single by default.
pub open spec fn spec_syllabic(s: Option<Seq<char>>) -> Syllabic {
    if s == Some("begin"@) {
        Syllabic::Begin
    } else if s == Some("end"@) {
        Syllabic::End
    } else if s == Some("middle"@) {
        Syllabic::Middle
    } else {
        Syllabic::Single
    }
}

/// `l` is the lyric read from the `<lyric>` element `c`: verse number (1 by
/// default), syllabic, the untrimmed text of `<text>` (empty when absent)
/// and whether it has `<extend>`.
pub open spec fn lyric_matches(l: Lyric, c: XmlNode) -> bool {
    &&& l.number == (match attr_u8(c, "number"@) {
        Some(v) => v,
        None => 1u8,
    })
    &&& l.syllabic == spec_syllabic(child_text(c, "syllabic"@))
    &&& l.text@ == (match child(c, "text"@) {
        Some(t) => match node_text(t) {
            Some(s) => s,
            None => Seq::empty(),
        },
        None => Seq::empty(),
    })
    &&& l.extend == has_child(c, "extend"@)
}

/// `ls` are the lyrics read from the `<lyric>` nodes `ns`, one for one.
pub open spec fn lyrics_match(ls: Seq<Lyric>, ns: Seq<XmlNode>) -> bool {
    ls.len() == ns.len() && forall|i: int| 0 <= i < ls.len() ==> lyric_matches(#[trigger] ls[i], ns[i])
}

fn lyric_of(c: &XmlNode) -> (l: Lyric)
    ensures
        lyric_matches(l, *c),
{
    let number = match attr_parse_u8(c, "number") {
        Some(v) => v,
        None => 1,
    };
    let syl = first_child_text(c, "syllabic");
    let syllabic = match &syl {
        Some(s) => if str_eq(s.as_str(), "begin") {
            Syllabic::Begin
        } else if str_eq(s.as_str(), "end") {
            Syllabic::End
        } else if str_eq(s.as_str(), "middle") {
            Syllabic::Middle
        } else {
            Syllabic::Single
        },
        None => Syllabic::Single,
    };
    let text = match find_child(c, "text") {
        Some(t) => match text_of(t) {
            Some(s) => s,
            None => String::new(),
        },
        None => String::new(),
    };
    let extend = has_child_tag(c, "extend");
    Lyric { number, syllabic, text, extend }
}

/// Reads the `<lyric>` children of a `<note>`.
pub fn parse_lyrics(note: &XmlNode) -> (r: Vec<Lyric>)
    ensures
        lyrics_match(r@, named(note.children@, "lyric"@)),
{
    let cs = &note.children;
    let len = cs.len();
    let mut lyrics: Vec<Lyric> = Vec::new();
    let mut i: usize = 0;
    while i < len
        invariant
            len == cs@.len(),
            cs == &note.children,
            i <= len,
            lyrics_match(lyrics@, named(cs@.take(i as int), "lyric"@)),
        decreases len - i,
    {
        proof {
            assert(cs@.take(i + 1).drop_last() =~= cs@.take(i as int));
        }
        if str_eq(cs[i].name.as_str(), "lyric") {
            let l = lyric_of(&cs[i]);
            lyrics.push(l);
        }
        i = i + 1;
    }
    proof {
        assert(cs@.take(len as int) =~= cs@);
    }
    lyrics
}

// ── Pitched notes ────────────────────────────────────────────────

/// Accidental named by an `<accidental>` element; unknown names are natural.
pub open spec fn spec_accidental_name(s: Seq<char>) -> Accidental {
    if s == "natural"@ {
        Accidental::Natural
    } else if s == "sharp"@ {
        Accidental::Sharp
    } else if s == "flat"@ {
        Accidental::Flat
    } else if s == "double-sharp"@ {
        Accidental::DoubleSharp
    } else if s == "flat-flat"@ || s == "double-flat"@ {
        Accidental::DoubleFlat
    } else {
        Accidental::Natural
    }
}

fn accidental_name(s: &str) -> (a: Accidental)
    ensures
        a == spec_accidental_name(s@),
{
    if str_eq(s, "natural") {
        Accidental::Natural
    } else if str_eq(s, "sharp") {
        Accidental::Sharp
    } else if str_eq(s, "flat") {
        Accidental::Flat
    } else if str_eq(s, "double-sharp") {
        Accidental::DoubleSharp
    } else if str_eq(s, "flat-flat") || str_eq(s, "double-flat") {
        Accidental::DoubleFlat
    } else {
        Accidental::Natural
    }
}

/// Accidental of a `<pitch>` from `<alter>`: absent or 0 natural, -1 flat,
/// 1 sharp; any other value (quarter tones, double alterations) is not read.
pub open spec fn spec_alter(p: XmlNode) -> Option<Accidental> {
    match child_text(p, "alter"@) {
        None => Some(Accidental::Natural),
        Some(a) => if a == "0"@ {
            Some(Accidental::Natural)
        } else if a == "-1"@ {
            Some(Accidental::Flat)
        } else if a == "1"@ {
            Some(Accidental::Sharp)
        } else {
            None
        },
    }
}

fn parse_alter(p: &XmlNode) -> (r: Option<Accidental>)
    ensures
        r == spec_alter(*p),
{
    match first_child_text(p, "alter") {
        None => Some(Accidental::Natural),
        Some(a) => if str_eq(a.as_str(), "0") {
            Some(Accidental::Natural)
        } else if str_eq(a.as_str(), "-1") {
            Some(Accidental::Flat)
        } else if str_eq(a.as_str(), "1") {
            Some(Accidental::Sharp)
        } else {
            None
        },
    }
}

/// Figure, step, accidental and written octave of a `<note>`: `None` when
/// the note lacks a readable `<type>`, `<pitch>`, `<step>`, `<alter>` or
/// `<octave>` (such notes are skipped).
pub open spec fn spec_note_parts(n: XmlNode) -> Option<(NoteFigure, Step, Accidental, i8)> {
    match child_text(n, "type"@) {
        None => None,
        Some(t) => match spec_note_type(t) {
            None => None,
            Some(figure) => match child(n, "pitch"@) {
                None => None,
                Some(p) => match child_text(p, "step"@) {
                    None => None,
                    Some(s) => match spec_step(s) {
                        None => None,
                        Some(step) => match spec_alter(p) {
                            None => None,
                            Some(acc) => match child_i8(p, "octave"@) {
                                None => None,
                                Some(o) => Some((figure, step, acc, o)),
                            },
                        },
                    },
                },
            },
        },
    }
}

/// `t` has the kind and number of a tie of `es`.
pub open spec fn tie_listed(es: Seq<Tie>, t: Tie) -> bool {
    exists|k: int| 0 <= k < es.len() && (#[trigger] es[k]).kind == t.kind && es[k].number == t.number
}

/// The ties of `<notations>` followed by those `<tie>` children whose kind
/// and number are not already among them.
pub open spec fn spec_merge_ties(existing: Seq<Tie>, direct: Seq<Tie>) -> Seq<Tie>
    decreases direct.len(),
{
    if direct.len() == 0 {
        existing
    } else {
        let prev = spec_merge_ties(existing, direct.drop_last());
        if tie_listed(existing, direct.last()) { prev } else { prev.push(direct.last()) }
    }
}

proof fn lemma_merge_prefix(existing: Seq<Tie>, direct: Seq<Tie>)
    ensures
        spec_merge_ties(existing, direct).len() >= existing.len(),
        spec_merge_ties(existing, direct).subrange(0, existing.len() as int) == existing,
    decreases direct.len(),
{
    if direct.len() > 0 {
        lemma_merge_prefix(existing, direct.drop_last());
        let prev = spec_merge_ties(existing, direct.drop_last());
        assert(prev.push(direct.last()).subrange(0, existing.len() as int) =~= prev.subrange(0, existing.len() as int));
    } else {
        assert(existing.subrange(0, existing.len() as int) =~= existing);
    }
}

/// The markings of a note: those of `<notations>` with its ties merged with
/// the `<tie>` children, or only the `<tie>` children when `<notations>`
/// gives nothing; `None` when neither gives anything.
pub open spec fn spec_note_markings(n: XmlNode) -> Option<NotationsRead> {
    let direct = spec_direct_ties(n.children@);
    match spec_notations(n) {
        Some(st) => Some(NotationsRead { ties: spec_merge_ties(st.ties, direct), ..st }),
        None => if direct.len() == 0 {
            None
        } else {
            Some(NotationsRead { ties: direct, ..empty_read() })
        },
    }
}

/// `x` is the note read from the `<note>` element `n` under a clef octave
/// change of `shift` (added to the written octave with `i8` wrap-around).
pub open spec fn note_matches(x: Note, n: XmlNode, shift: i8) -> bool {
    match spec_note_parts(n) {
        None => false,
        Some(parts) => {
            &&& x.pitch == Pitch { step: parts.1, accidental: parts.2, octave: parts.3.wrapping_add(shift) }
            &&& x.figure == parts.0
            &&& x.dotted == spec_dots(n)
            &&& x.time_modification is None
            &&& x.accidental_override == (match child_text(n, "accidental"@) {
                Some(s) => Some(spec_accidental_name(s)),
                None => None,
            })
            &&& x.stem_direction == (if child_text(n, "stem"@) == Some("down"@) {
                StemDirection::Down
            } else {
                StemDirection::Up
            })
            &&& x.grace == has_child(n, "grace"@)
            &&& x.chord == has_child(n, "chord"@)
            &&& match (x.attachments, spec_note_markings(n)) {
                (None, None) => true,
                (Some(a), Some(st)) => attachment_matches(a, st),
                _ => false,
            }
            &&& lyrics_match(x.lyrics@, named(n.children@, "lyric"@))
        },
    }
}

fn merge_ties(ties: &mut Vec<Tie>, direct: &Vec<Tie>)
    ensures
        final(ties)@ == spec_merge_ties(old(ties)@, direct@),
{
    let ghost e0 = ties@;
    let existing_len = ties.len();
    let len = direct.len();
    let mut j: usize = 0;
    while j < len
        invariant
            len == direct@.len(),
            j <= len,
            existing_len == e0.len(),
            ties@ == spec_merge_ties(e0, direct@.take(j as int)),
        decreases len - j,
    {
        proof {
            assert(direct@.take(j + 1).drop_last() =~= direct@.take(j as int));
            lemma_merge_prefix(e0, direct@.take(j as int));
        }
        let t = direct[j];
        let mut found = false;
        let mut k: usize = 0;
        while k < existing_len
            invariant
                existing_len == e0.len(),
                k <= existing_len,
                ties@.len() >= existing_len,
                ties@.subrange(0, existing_len as int) == e0,
                found == exists|m: int| 0 <= m < k && (#[trigger] e0[m]).kind == t.kind && e0[m].number == t.number,
            decreases existing_len - k,
        {
            proof {
                assert(ties@[k as int] == e0[k as int]);
            }
            if ties[k].kind == t.kind && ties[k].number == t.number {
                found = true;
            }
            k = k + 1;
        }
        if !found {
            ties.push(t);
        }
        j = j + 1;
    }
    proof {
        assert(direct@.take(len as int) =~= direct@);
    }
}

/// Reads a pitched `<note>`; `None` when it lacks a readable type or pitch.
pub fn parse_note(n: &XmlNode, octave_shift: i8) -> (r: Option<Note>)
    ensures
        r is Some <==> spec_note_parts(*n) is Some,
        r matches Some(x) ==> note_matches(x, *n, octave_shift),
{
    let t = match first_child_text(n, "type") {
        Some(t) => t,
        None => return None,
    };
    let figure = match parse_note_type(t.as_str()) {
        Some(f) => f,
        None => return None,
    };
    let dotted = dots(n);
    let chord = has_child_tag(n, "chord");
    let grace = has_child_tag(n, "grace");
    let stem_direction = match first_child_text(n, "stem") {
        Some(s) => if str_eq(s.as_str(), "down") { StemDirection::Down } else { StemDirection::Up },
        None => StemDirection::Up,
    };
    let accidental_override = match first_child_text(n, "accidental") {
        Some(s) => Some(accidental_name(s.as_str())),
        None => None,
    };
    let pitch_node = match find_child(n, "pitch") {
        Some(p) => p,
        None => return None,
    };
    let step = match first_child_text(pitch_node, "step") {
        Some(s) => match parse_step_str(s.as_str()) {
            Some(st) => st,
            None => return None,
        },
        None => return None,
    };
    let accidental = match parse_alter(pitch_node) {
        Some(a) => a,
        None => return None,
    };
    let octave = match child_parse_i8(pitch_node, "octave") {
        Some(o) => o,
        None => return None,
    };
    let direct = parse_ties(n);
    let attachments = match parse_attachments(n) {
        Some(a) => {
            let mut a = a;
            merge_ties(&mut a.ties, &direct);
            Some(a)
        },
        None => if direct.len() == 0 {
            None
        } else {
            Some(NoteAttachment {
                articulations: Vec::new(),
                ornaments: Vec::new(),
                technical: Vec::new(),
                dynamics: None,
                fermata: None,
                ties: direct,
                slurs: Vec::new(),
                glissando: None,
                arpeggiate: None,
                tremolo: None,
                tuplet: None,
            })
        },
    };
    let lyrics = parse_lyrics(n);
    Some(Note {
        pitch: Pitch { step, accidental, octave: octave.wrapping_add(octave_shift) },
        figure,
        dotted,
        time_modification: None,
        accidental_override,
        stem_direction,
        grace,
        chord,
        attachments,
        lyrics,
    })
}

} // verus!
