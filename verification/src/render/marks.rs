//! Where the marks of a staff go, in staff positions (0 is the clef's middle
//! line, one step is a line or a space, positive is higher): ledger lines,
//! key-signature accidentals, stem directions, dots and the digits of a
//! time signature; and which strokes make each style of bar line. The
//! drawing turns positions into points.

use vstd::prelude::*;
use crate::notation::barline::BarStyle;
use crate::notation::direction::{OctaveShift, OctaveShiftKind};
use crate::notation::key::KeySignature;
use crate::notation::lyric::{Lyric, Syllabic};
use crate::notation::note::StemDirection;
use crate::text::nat_digits;

verus! {

// ── Bar lines ────────────────────────────────────────────────────

/// Weight of a solid stroke of a bar line.
#[derive(Clone, Copy, PartialEq, Eq, Debug, Structural)]
pub enum BarWeight {
    Thin,
    Thick,
}

/// The strokes of a bar line.
#[derive(Clone, Copy, PartialEq, Eq, Debug, Structural)]
pub enum BarStrokes {
    /// One solid line across the staff, and a second one to its right.
    Solid { first: BarWeight, second: Option<BarWeight> },
    /// One thin line broken into dots or dashes.
    Broken,
    /// Nothing is drawn.
    Invisible,
}

/// The strokes of each bar-line style: regular and short lines are one thin
/// stroke, heavy one thick stroke; the doubles name their two strokes from
/// left to right; dotted, dashed and tick lines are broken; `Invisible`
/// draws nothing.
pub open spec fn spec_bar_strokes(style: BarStyle) -> BarStrokes {
    match style {
        BarStyle::Regular | BarStyle::Short => BarStrokes::Solid { first: BarWeight::Thin, second: None },
        BarStyle::Heavy => BarStrokes::Solid { first: BarWeight::Thick, second: None },
        BarStyle::LightLight => BarStrokes::Solid { first: BarWeight::Thin, second: Some(BarWeight::Thin) },
        BarStyle::LightHeavy => BarStrokes::Solid { first: BarWeight::Thin, second: Some(BarWeight::Thick) },
        BarStyle::HeavyLight => BarStrokes::Solid { first: BarWeight::Thick, second: Some(BarWeight::Thin) },
        BarStyle::HeavyHeavy => BarStrokes::Solid { first: BarWeight::Thick, second: Some(BarWeight::Thick) },
        BarStyle::Dotted | BarStyle::Dashed | BarStyle::Tick => BarStrokes::Broken,
        BarStyle::Invisible => BarStrokes::Invisible,
    }
}

pub fn bar_strokes(style: BarStyle) -> (r: BarStrokes)
    ensures
        r == spec_bar_strokes(style),
{
    match style {
        BarStyle::Regular | BarStyle::Short => BarStrokes::Solid { first: BarWeight::Thin, second: None },
        BarStyle::Heavy => BarStrokes::Solid { first: BarWeight::Thick, second: None },
        BarStyle::LightLight => BarStrokes::Solid { first: BarWeight::Thin, second: Some(BarWeight::Thin) },
        BarStyle::LightHeavy => BarStrokes::Solid { first: BarWeight::Thin, second: Some(BarWeight::Thick) },
        BarStyle::HeavyLight => BarStrokes::Solid { first: BarWeight::Thick, second: Some(BarWeight::Thin) },
        BarStyle::HeavyHeavy => BarStrokes::Solid { first: BarWeight::Thick, second: Some(BarWeight::Thick) },
        BarStyle::Dotted | BarStyle::Dashed | BarStyle::Tick => BarStrokes::Broken,
        BarStyle::Invisible => BarStrokes::Invisible,
    }
}

// ── Ledger lines ─────────────────────────────────────────────────

/// The ledger lines a note at position `sp` needs, lowest first: every line
/// position (even) from the first line above the staff (6) up to the note,
/// or from the note up to the first line below it (-6).
pub open spec fn spec_ledger_lines(sp: int) -> Seq<int> {
    if sp > 5 {
        Seq::new(((sp - 6) / 2 + 1) as nat, |i: int| 6 + 2 * i)
    } else if sp < -5 {
        let first = if sp % 2 == 0 { sp } else { sp + 1 };
        Seq::new(((-6 - first) / 2 + 1) as nat, |i: int| first + 2 * i)
    } else {
        Seq::empty()
    }
}

pub fn ledger_lines(sp: i8) -> (r: Vec<i8>)
    ensures
        r@.len() == spec_ledger_lines(sp as int).len(),
        forall|i: int| 0 <= i < r@.len() ==> r@[i] as int == #[trigger] spec_ledger_lines(sp as int)[i],
{
    let mut r: Vec<i8> = Vec::new();
    if sp > 5 {
        let last: i8 = if sp % 2 == 0 { sp } else { sp - 1 };
        let mut p: i16 = 6;
        while p <= last as i16
            invariant
                sp > 5,
                last == (if sp % 2 == 0 { sp as int } else { sp - 1 }),
                6 <= p <= last + 2,
                p % 2 == 0,
                r@.len() == (p - 6) / 2,
                forall|i: int| 0 <= i < r@.len() ==> r@[i] == 6 + 2 * i,
            decreases last + 2 - p,
        {
            r.push(p as i8);
            p = p + 2;
        }
        proof {
            assert(r@.len() == (sp - 6) / 2 + 1);
        }
    } else if sp < -5 {
        let first: i8 = if sp % 2 == 0 { sp } else { sp + 1 };
        let mut p: i16 = first as i16;
        while p <= -6
            invariant
                sp < -5,
                first == (if sp % 2 == 0 { sp as int } else { sp + 1 }),
                first % 2 == 0,
                first <= p <= -4,
                (p - first) % 2 == 0,
                r@.len() == (p - first) / 2,
                forall|i: int| 0 <= i < r@.len() ==> r@[i] == first + 2 * i,
            decreases -4 - p,
        {
            r.push(p as i8);
            p = p + 2;
        }
        proof {
            assert(r@.len() == (-6 - first) / 2 + 1);
        }
    }
    r
}

// ── Key signatures ───────────────────────────────────────────────

/// Position of the `i`-th sharp of a key signature (F C G D A E B), from the
/// clef's reference line.
pub open spec fn sharp_position(i: int) -> int {
    if i == 0 { 3 } else if i == 1 { 0 } else if i == 2 { 4 } else if i == 3 { 1 } else if i == 4 { 5 } else if i == 5 { 2 } else { 6 }
}

/// Position of the `i`-th flat of a key signature (B E A D G C F).
pub open spec fn flat_position(i: int) -> int {
    if i == 0 { 6 } else if i == 1 { 2 } else if i == 2 { 5 } else if i == 3 { 1 } else if i == 4 { 4 } else if i == 5 { 0 } else { 3 }
}

pub open spec fn order_position(sharps: bool, i: int) -> int {
    if sharps { sharp_position(i) } else { flat_position(i) }
}

pub open spec fn abs_int(x: int) -> int {
    if x < 0 { -x } else { x }
}

pub open spec fn min7(x: int) -> int {
    if x < 7 { x } else { 7 }
}

pub const NATURAL_GLYPH: char = '\u{E261}';
pub const SHARP_GLYPH: char = '\u{E262}';
pub const FLAT_GLYPH: char = '\u{E260}';

/// The naturals that cancel a previous key of `cancel` fifths: one on each
/// of its accidentals (at most seven).
pub open spec fn cancel_accidentals(cancel: Option<i8>) -> Seq<(int, char)> {
    match cancel {
        Some(c) => if c != 0 {
            Seq::new(min7(abs_int(c as int)) as nat, |i: int| (order_position(c > 0, i), NATURAL_GLYPH))
        } else {
            Seq::empty()
        },
        None => Seq::empty(),
    }
}

/// The accidentals of a key of `fifths` (positive: sharps, negative: flats),
/// at most seven; with seven or more, the sixth and seventh go an octave
/// down (sharps) or up (flats).
pub open spec fn key_accidentals(fifths: i8) -> Seq<(int, char)> {
    let count = abs_int(fifths as int);
    if fifths != 0 {
        Seq::new(min7(count) as nat, |i: int| (
            order_position(fifths > 0, i) + if count >= 7 && i >= 5 {
                if fifths > 0 { -7int } else { 7int }
            } else {
                0int
            },
            if fifths > 0 { SHARP_GLYPH } else { FLAT_GLYPH },
        ))
    } else {
        Seq::empty()
    }
}

/// What a key signature shows, left to right: the naturals of the key it
/// cancels, then its own accidentals.
pub open spec fn spec_key_signature_glyphs(key: KeySignature) -> Seq<(int, char)> {
    cancel_accidentals(key.cancel) + key_accidentals(key.fifths)
}

fn order_pos(sharps: bool, i: usize) -> (p: i8)
    requires
        i < 7,
    ensures
        p == order_position(sharps, i as int),
{
    let sharp: [i8; 7] = [3, 0, 4, 1, 5, 2, 6];
    let flat: [i8; 7] = [6, 2, 5, 1, 4, 0, 3];
    if sharps { sharp[i] } else { flat[i] }
}

fn abs_i8(x: i8) -> (r: u8)
    ensures
        r == abs_int(x as int),
{
    if x < 0 {
        if x == -128 { 128 } else { (-x) as u8 }
    } else {
        x as u8
    }
}

/// The accidentals of a key signature with their positions from the clef's
/// reference line.
pub fn key_signature_glyphs(key: &KeySignature) -> (r: Vec<(i8, char)>)
    ensures
        r@.len() == spec_key_signature_glyphs(*key).len(),
        forall|i: int| 0 <= i < r@.len() ==> {
            &&& r@[i].0 as int == (#[trigger] spec_key_signature_glyphs(*key)[i]).0
            &&& r@[i].1 == spec_key_signature_glyphs(*key)[i].1
        },
{
    let ghost cs = cancel_accidentals(key.cancel);
    let ghost ks = key_accidentals(key.fifths);
    let mut r: Vec<(i8, char)> = Vec::new();
    match key.cancel {
        Some(c) => {
            if c != 0 {
                let n = abs_i8(c);
                let n: usize = if n < 7 { n as usize } else { 7 };
                let mut i: usize = 0;
                while i < n
                    invariant
                        key.cancel == Some(c),
                        c != 0,
                        n == min7(abs_int(c as int)),
                        cs == cancel_accidentals(key.cancel),
                        i <= n,
                        r@.len() == i,
                        forall|j: int| 0 <= j < i ==> r@[j].0 as int == cs[j].0 && r@[j].1 == cs[j].1,
                    decreases n - i,
                {
                    r.push((order_pos(c > 0, i), NATURAL_GLYPH));
                    i = i + 1;
                }
            }
        },
        None => {},
    }
    let base = r.len();
    proof {
        assert(base == cs.len());
    }
    let f = key.fifths;
    if f != 0 {
        let count = abs_i8(f);
        let n: usize = if count < 7 { count as usize } else { 7 };
        let glyph = if f > 0 { SHARP_GLYPH } else { FLAT_GLYPH };
        let mut i: usize = 0;
        while i < n
            invariant
                f == key.fifths,
                f != 0,
                count == abs_int(f as int),
                n == min7(count as int),
                glyph == (if f > 0 { SHARP_GLYPH } else { FLAT_GLYPH }),
                ks == key_accidentals(key.fifths),
                cs.len() == base,
                i <= n,
                r@.len() == base + i,
                forall|j: int| 0 <= j < base ==> r@[j].0 as int == cs[j].0 && r@[j].1 == cs[j].1,
                forall|j: int| 0 <= j < i ==> r@[base + j].0 as int == ks[j].0 && r@[base + j].1 == ks[j].1,
            decreases n - i,
        {
            let offset: i8 = if count >= 7 && i >= 5 {
                if f > 0 { -7 } else { 7 }
            } else {
                0
            };
            r.push((order_pos(f > 0, i) + offset, glyph));
            i = i + 1;
        }
    }
    proof {
        let all = spec_key_signature_glyphs(*key);
        assert(all == cs + ks);
        assert forall|i: int| 0 <= i < r@.len() implies {
            &&& r@[i].0 as int == (#[trigger] all[i]).0
            &&& r@[i].1 == all[i].1
        } by {
            if i >= base {
                assert(all[i] == ks[i - base]);
            }
        }
    }
    r
}

/// The key signature drawn for `key` after a measure in `prev`: a change of
/// key cancels the previous one's accidentals first.
pub open spec fn spec_key_with_cancel(key: KeySignature, prev: Option<KeySignature>) -> KeySignature {
    match prev {
        Some(p) => if p.fifths != key.fifths {
            KeySignature { cancel: Some(p.fifths), ..key }
        } else {
            key
        },
        None => key,
    }
}

pub fn key_with_cancel(key: &KeySignature, prev: Option<&KeySignature>) -> (k: KeySignature)
    ensures
        k == spec_key_with_cancel(*key, match prev { Some(p) => Some(*p), None => None }),
{
    match prev {
        Some(p) => if p.fifths != key.fifths {
            KeySignature { fifths: key.fifths, mode: key.mode, cancel: Some(p.fifths) }
        } else {
            *key
        },
        None => *key,
    }
}

// ── Stems ────────────────────────────────────────────────────────

/// Stem direction of a note at `sp`: up below the middle line, down from it.
pub open spec fn spec_stem_direction(sp: int) -> StemDirection {
    if sp < 0 { StemDirection::Up } else { StemDirection::Down }
}

pub fn stem_direction_for(sp: i8) -> (d: StemDirection)
    ensures
        d == spec_stem_direction(sp as int),
{
    if sp < 0 { StemDirection::Up } else { StemDirection::Down }
}

/// The position farthest from the middle line among `ps`, the lower one on
/// a tie, scanning from the left; 0 for none. A beamed group's stems follow
/// this note.
pub open spec fn spec_extreme(ps: Seq<i8>) -> int
    decreases ps.len(),
{
    if ps.len() == 0 {
        0
    } else {
        let e = spec_extreme(ps.drop_last());
        let p = ps.last() as int;
        if abs_int(p) > abs_int(e) || (abs_int(p) == abs_int(e) && p < 0) { p } else { e }
    }
}

pub fn extreme_position(ps: &[i8]) -> (e: i8)
    requires
        forall|k: int| 0 <= k < ps@.len() ==> ps@[k] > i8::MIN,
    ensures
        e as int == spec_extreme(ps@),
{
    let mut e: i8 = 0;
    let len = ps.len();
    let mut i: usize = 0;
    while i < len
        invariant
            len == ps@.len(),
            i <= len,
            forall|k: int| 0 <= k < ps@.len() ==> ps@[k] > i8::MIN,
            e as int == spec_extreme(ps@.take(i as int)),
            e > i8::MIN,
        decreases len - i,
    {
        let p = ps[i];
        proof {
            assert(ps@.take(i + 1).drop_last() =~= ps@.take(i as int));
            assert(ps@.take(i + 1).last() == p);
        }
        let ap: i8 = if p < 0 { -p } else { p };
        let ae: i8 = if e < 0 { -e } else { e };
        if ap > ae || (ap == ae && p < 0) {
            e = p;
        }
        i = i + 1;
    }
    proof {
        assert(ps@.take(len as int) =~= ps@);
    }
    e
}

/// Stem direction of a chord: up when its positions lie below the middle
/// line on average (their sum is negative), down otherwise.
pub open spec fn sum_positions(ps: Seq<i8>) -> int
    decreases ps.len(),
{
    if ps.len() == 0 { 0 } else { sum_positions(ps.drop_last()) + ps.last() as int }
}

pub fn chord_stem_direction(ps: &[i8]) -> (d: StemDirection)
    requires
        ps@.len() <= u32::MAX,
    ensures
        d == (if sum_positions(ps@) < 0 { StemDirection::Up } else { StemDirection::Down }),
{
    let mut sum: i64 = 0;
    let len = ps.len();
    let mut i: usize = 0;
    while i < len
        invariant
            len == ps@.len(),
            len <= u32::MAX,
            i <= len,
            sum as int == sum_positions(ps@.take(i as int)),
            -128 * i <= sum <= 127 * i,
        decreases len - i,
    {
        proof {
            assert(ps@.take(i + 1).drop_last() =~= ps@.take(i as int));
            assert(ps@.take(i + 1).last() == ps@[i as int]);
        }
        sum = sum + ps[i] as i64;
        i = i + 1;
    }
    proof {
        assert(ps@.take(len as int) =~= ps@);
    }
    if sum < 0 { StemDirection::Up } else { StemDirection::Down }
}

// ── Dots and seconds ─────────────────────────────────────────────

/// A dot stays in the space of a note in a space; a note on a line (even
/// position) has its dot in the space above.
pub fn dot_raised(sp: i8) -> (b: bool)
    ensures
        b == (sp as int % 2 == 0),
{
    sp % 2 == 0
}

/// Side to which a chord note is pushed when a neighbour lies a step away
/// (a second): right (1) on a line, left (-1) in a space; 0 without one.
pub open spec fn spec_second_side(ps: Seq<i8>, sp: int) -> int {
    if exists|k: int| 0 <= k < ps.len() && abs_int(ps[k] - sp) == 1 {
        if sp % 2 == 0 { 1 } else { -1 }
    } else {
        0
    }
}

pub fn second_side(ps: &[i8], sp: i8) -> (s: i8)
    ensures
        s as int == spec_second_side(ps@, sp as int),
{
    let len = ps.len();
    let mut i: usize = 0;
    while i < len
        invariant
            len == ps@.len(),
            i <= len,
            forall|k: int| 0 <= k < i ==> abs_int(ps@[k] - sp) != 1,
        decreases len - i,
    {
        let d: i16 = ps[i] as i16 - sp as i16;
        if d == 1 || d == -1 {
            return if sp % 2 == 0 { 1 } else { -1 };
        }
        i = i + 1;
    }
    0
}

// ── Time signatures and octave lines ─────────────────────────────

/// The time-signature glyph (SMuFL) of an ASCII digit.
pub open spec fn time_digit(c: char) -> char {
    ((c as int) - 48 + 0xE080) as char
}

/// The glyphs of the number `n` in a time signature: its decimal digits.
pub open spec fn spec_time_signature_digits(n: nat) -> Seq<char> {
    nat_digits(n).map_values(|c: char| time_digit(c))
}

fn time_digit_of(d: u8) -> (c: char)
    requires
        d < 10,
    ensures
        c == time_digit(crate::text::digit_char(d as int)),
{
    let c = if d == 0 {
        '\u{E080}'
    } else if d == 1 {
        '\u{E081}'
    } else if d == 2 {
        '\u{E082}'
    } else if d == 3 {
        '\u{E083}'
    } else if d == 4 {
        '\u{E084}'
    } else if d == 5 {
        '\u{E085}'
    } else if d == 6 {
        '\u{E086}'
    } else if d == 7 {
        '\u{E087}'
    } else if d == 8 {
        '\u{E088}'
    } else {
        '\u{E089}'
    };
    proof {
        assert(crate::text::digit_char(d as int) as int == d + 48);
    }
    c
}

fn push_time_digits(v: &mut Vec<char>, n: u8)
    ensures
        final(v)@ == old(v)@ + spec_time_signature_digits(n as nat),
    decreases n,
{
    let ghost before = v@;
    if n >= 10 {
        push_time_digits(v, n / 10);
    }
    let c = time_digit_of(n % 10);
    v.push(c);
    proof {
        let ds = nat_digits(n as nat);
        if n < 10 {
            assert(n % 10 == n);
            assert(ds == seq![crate::text::digit_char(n as int)]);
        } else {
            assert(ds == nat_digits((n / 10) as nat).push(crate::text::digit_char((n % 10) as int)));
        }
        assert(spec_time_signature_digits(n as nat) =~= (if n >= 10 {
            spec_time_signature_digits((n / 10) as nat)
        } else {
            Seq::empty()
        }).push(c));
        assert(v@ =~= before + spec_time_signature_digits(n as nat));
    }
}

/// The glyphs that write `n` in a time signature.
pub fn time_signature_digits(n: u8) -> (r: Vec<char>)
    ensures
        r@ == spec_time_signature_digits(n as nat),
{
    let mut v: Vec<char> = Vec::new();
    push_time_digits(&mut v, n);
    proof {
        assert(v@ =~= spec_time_signature_digits(n as nat));
    }
    v
}

/// Text of an octave line: 8va/8vb for an octave, 15ma/15mb for two;
/// "8va" for any other size or a stop.
pub fn octave_shift_text(shift: &OctaveShift) -> (s: &'static str)
    ensures
        s@ == (match (shift.size, shift.kind) {
            (8, OctaveShiftKind::Up) => "8va"@,
            (8, OctaveShiftKind::Down) => "8vb"@,
            (15, OctaveShiftKind::Up) => "15ma"@,
            (15, OctaveShiftKind::Down) => "15mb"@,
            _ => "8va"@,
        }),
{
    match (shift.size, shift.kind) {
        (8, OctaveShiftKind::Up) => "8va",
        (8, OctaveShiftKind::Down) => "8vb",
        (15, OctaveShiftKind::Up) => "15ma",
        (15, OctaveShiftKind::Down) => "15mb",
        _ => "8va",
    }
}

// ── Lyrics ───────────────────────────────────────────────────────

/// The text written under a note for a syllable: a syllable that begins or
/// continues a word is followed by a hyphen.
pub open spec fn spec_syllable_text(l: Lyric) -> Seq<char> {
    match l.syllabic {
        Syllabic::Begin | Syllabic::Middle => l.text@ + "-"@,
        Syllabic::End | Syllabic::Single => l.text@,
    }
}

pub fn syllable_text(lyric: &Lyric) -> (s: String)
    ensures
        s@ == spec_syllable_text(*lyric),
{
    let mut s = lyric.text.clone();
    match lyric.syllabic {
        Syllabic::Begin | Syllabic::Middle => s.append("-"),
        Syllabic::End | Syllabic::Single => {},
    }
    s
}

} // verus!
