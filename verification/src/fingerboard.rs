//! Fretboard arithmetic for guitar and bass: note names, semitones and the
//! set of selected fret positions.

use vstd::prelude::*;
use vstd::string::{StrSliceExecFns, StringExecFns};
use crate::text::{decimal, int_decimal, is_digit, spec_trim, trim};

verus! {

/// Semitone of a note letter within its octave (C = 0 … B = 11).
pub open spec fn letter_semitone(c: char) -> Option<int> {
    if c == 'C' {
        Some(0)
    } else if c == 'D' {
        Some(2)
    } else if c == 'E' {
        Some(4)
    } else if c == 'F' {
        Some(5)
    } else if c == 'G' {
        Some(7)
    } else if c == 'A' {
        Some(9)
    } else if c == 'B' {
        Some(11)
    } else {
        None
    }
}

/// Reads the rest of a note name: each `#`/`♯` raises and each `b`/`♭`
/// lowers by a semitone, other characters are skipped, and the first digit
/// gives the octave and ends the name; `None` without a digit.
pub open spec fn scan_note_name(rest: Seq<char>, step: int, accidental: int) -> Option<int>
    decreases rest.len(),
{
    if rest.len() == 0 {
        None
    } else {
        let c = rest[0];
        if c == '#' || c == '♯' {
            scan_note_name(rest.drop_first(), step, accidental + 1)
        } else if c == 'b' || c == '♭' {
            scan_note_name(rest.drop_first(), step, accidental - 1)
        } else if is_digit(c) {
            Some((c as u32 - 48) * 12 + step + accidental)
        } else {
            scan_note_name(rest.drop_first(), step, accidental)
        }
    }
}

/// Semitones from C0 of a note name such as "C4", "F#3" or "Bb2" (trimmed);
/// `None` when it does not start with a note letter or has no octave digit.
pub open spec fn note_name_semitones(name: Seq<char>) -> Option<int> {
    let t = spec_trim(name);
    if t.len() == 0 {
        None
    } else {
        match letter_semitone(t[0]) {
            None => None,
            Some(step) => scan_note_name(t.drop_first(), step, 0),
        }
    }
}

proof fn lemma_scan_skip(t: Seq<char>, i: int, step: int, acc: int)
    requires
        1 <= i < t.len(),
    ensures
        scan_note_name(t.subrange(i, t.len() as int), step, acc) == ({
            let c = t[i];
            if c == '#' || c == '♯' {
                scan_note_name(t.subrange(i + 1, t.len() as int), step, acc + 1)
            } else if c == 'b' || c == '♭' {
                scan_note_name(t.subrange(i + 1, t.len() as int), step, acc - 1)
            } else if is_digit(c) {
                Some((c as u32 - 48) * 12 + step + acc)
            } else {
                scan_note_name(t.subrange(i + 1, t.len() as int), step, acc)
            }
        }),
{
    assert(t.subrange(i, t.len() as int).drop_first() =~= t.subrange(i + 1, t.len() as int));
}

/// Reading the rest of a note name keeps the accidental count, and then
/// the result, within `i32`.
pub open spec fn scan_fits(rest: Seq<char>, step: int, accidental: int) -> bool
    decreases rest.len(),
{
    if rest.len() == 0 {
        true
    } else {
        let c = rest[0];
        if c == '#' || c == '♯' {
            accidental + 1 <= i32::MAX && scan_fits(rest.drop_first(), step, accidental + 1)
        } else if c == 'b' || c == '♭' {
            accidental - 1 >= i32::MIN && scan_fits(rest.drop_first(), step, accidental - 1)
        } else if is_digit(c) {
            i32::MIN <= (c as u32 - 48) * 12 + step + accidental <= i32::MAX
        } else {
            scan_fits(rest.drop_first(), step, accidental)
        }
    }
}

/// Reading `name` counts its accidentals and its semitones within `i32`.
pub open spec fn note_name_fits(name: Seq<char>) -> bool {
    let t = spec_trim(name);
    t.len() == 0 || match letter_semitone(t[0]) {
        None => true,
        Some(step) => scan_fits(t.drop_first(), step, 0),
    }
}

proof fn lemma_fits_skip(t: Seq<char>, i: int, step: int, acc: int)
    requires
        1 <= i < t.len(),
    ensures
        scan_fits(t.subrange(i, t.len() as int), step, acc) == ({
            let c = t[i];
            if c == '#' || c == '♯' {
                acc + 1 <= i32::MAX && scan_fits(t.subrange(i + 1, t.len() as int), step, acc + 1)
            } else if c == 'b' || c == '♭' {
                acc - 1 >= i32::MIN && scan_fits(t.subrange(i + 1, t.len() as int), step, acc - 1)
            } else if is_digit(c) {
                i32::MIN <= (c as u32 - 48) * 12 + step + acc <= i32::MAX
            } else {
                scan_fits(t.subrange(i + 1, t.len() as int), step, acc)
            }
        }),
{
    assert(t.subrange(i, t.len() as int).drop_first() =~= t.subrange(i + 1, t.len() as int));
}

/// The semitone of the note letter `c`.
fn letter_of(c: char) -> (r: Option<i32>)
    ensures
        match r {
            Some(v) => letter_semitone(c) == Some(v as int),
            None => letter_semitone(c) is None,
        },
{
    if c == 'C' {
        Some(0)
    } else if c == 'D' {
        Some(2)
    } else if c == 'E' {
        Some(4)
    } else if c == 'F' {
        Some(5)
    } else if c == 'G' {
        Some(7)
    } else if c == 'A' {
        Some(9)
    } else if c == 'B' {
        Some(11)
    } else {
        None
    }
}

/// Whether `note_name_to_semitones` can read `name` within `i32`.
pub fn note_name_fits_check(name: &str) -> (b: bool)
    ensures
        b == note_name_fits(name@),
{
    let t = trim(name);
    let ts = t.as_str();
    let n = ts.unicode_len();
    if n == 0 {
        return true;
    }
    let step = match letter_of(ts.get_char(0)) {
        Some(v) => v as i64,
        None => return true,
    };
    let ghost tv = ts@;
    proof {
        assert(tv.drop_first() =~= tv.subrange(1, tv.len() as int));
    }
    let mut accidental: i64 = 0;
    let mut i: usize = 1;
    while i < n
        invariant
            n == tv.len(),
            tv == ts@,
            tv == spec_trim(name@),
            1 <= i <= n,
            i32::MIN <= accidental <= i32::MAX,
            0 <= step <= 11,
            letter_semitone(tv[0]) == Some(step as int),
            note_name_fits(name@) == scan_fits(tv.subrange(i as int, n as int), step as int, accidental as int),
        decreases n - i,
    {
        let c = ts.get_char(i);
        proof {
            lemma_fits_skip(tv, i as int, step as int, accidental as int);
        }
        if c == '#' || c == '♯' {
            if accidental == 0x7FFF_FFFF {
                return false;
            }
            accidental = accidental + 1;
        } else if c == 'b' || c == '♭' {
            if accidental == -0x8000_0000 {
                return false;
            }
            accidental = accidental - 1;
        } else if '0' <= c && c <= '9' {
            let v = (c as u32 - 48) as i64 * 12 + step + accidental;
            proof {
                assert(is_digit(c));
            }
            return -0x8000_0000 <= v && v <= 0x7FFF_FFFF;
        }
        i = i + 1;
    }
    proof {
        assert(tv.subrange(n as int, n as int) =~= Seq::<char>::empty());
    }
    true
}

/// Semitones from C0 of a note name such as "C4", "F#3" or "Bb2".
pub fn note_name_to_semitones(name: &str) -> (r: Option<i32>)
    requires
        note_name_fits(name@),
    ensures
        match r {
            Some(v) => note_name_semitones(name@) == Some(v as int),
            None => note_name_semitones(name@) is None,
        },
{
    let t = trim(name);
    let ts = t.as_str();
    let n = ts.unicode_len();
    if n == 0 {
        return None;
    }
    let base = ts.get_char(0);
    let step: i32 = if base == 'C' {
        0
    } else if base == 'D' {
        2
    } else if base == 'E' {
        4
    } else if base == 'F' {
        5
    } else if base == 'G' {
        7
    } else if base == 'A' {
        9
    } else if base == 'B' {
        11
    } else {
        return None;
    };
    let ghost tv = ts@;
    proof {
        assert(tv.drop_first() =~= tv.subrange(1, tv.len() as int));
    }
    let mut accidental: i32 = 0;
    let mut i: usize = 1;
    while i < n
        invariant
            n == tv.len(),
            tv == ts@,
            1 <= i <= n,
            0 <= step <= 11,
            note_name_semitones(name@) == scan_note_name(tv.subrange(i as int, n as int), step as int, accidental as int),
            scan_fits(tv.subrange(i as int, n as int), step as int, accidental as int),
        decreases n - i,
    {
        let c = ts.get_char(i);
        proof {
            lemma_scan_skip(tv, i as int, step as int, accidental as int);
            lemma_fits_skip(tv, i as int, step as int, accidental as int);
        }
        if c == '#' || c == '♯' {
            accidental = accidental + 1;
        } else if c == 'b' || c == '♭' {
            accidental = accidental - 1;
        } else if '0' <= c && c <= '9' {
            let octave = (c as u32 - 48) as i32;
            return Some(octave * 12 + step + accidental);
        }
        i = i + 1;
    }
    proof {
        assert(tv.subrange(n as int, n as int) =~= Seq::<char>::empty());
    }
    None
}

/// Names of the twelve pitch classes, with sharps.
pub open spec fn pitch_class_name(k: int) -> Seq<char> {
    if k == 0 {
        "C"@
    } else if k == 1 {
        "C#"@
    } else if k == 2 {
        "D"@
    } else if k == 3 {
        "D#"@
    } else if k == 4 {
        "E"@
    } else if k == 5 {
        "F"@
    } else if k == 6 {
        "F#"@
    } else if k == 7 {
        "G"@
    } else if k == 8 {
        "G#"@
    } else if k == 9 {
        "A"@
    } else if k == 10 {
        "A#"@
    } else {
        "B"@
    }
}

fn pitch_class_str(k: i32) -> (s: &'static str)
    ensures
        s@ == pitch_class_name(k as int),
{
    if k == 0 {
        "C"
    } else if k == 1 {
        "C#"
    } else if k == 2 {
        "D"
    } else if k == 3 {
        "D#"
    } else if k == 4 {
        "E"
    } else if k == 5 {
        "F"
    } else if k == 6 {
        "F#"
    } else if k == 7 {
        "G"
    } else if k == 8 {
        "G#"
    } else if k == 9 {
        "A"
    } else if k == 10 {
        "A#"
    } else {
        "B"
    }
}

/// Euclidean quotient and remainder of `n` by 12 (`div_euclid`, `rem_euclid`).
fn div_rem_12(n: i32) -> (qr: (i32, i32))
    ensures
        qr.0 == (n as int) / 12,
        qr.1 == (n as int) % 12,
{
    let x: u64 = (n as i64 + 12 * 0x8000_0000i64) as u64;
    let q = x / 12;
    let r = x % 12;
    proof {
        let a = n as int;
        assert(x as int == a + 12 * 0x8000_0000);
        assert((a + 12 * 0x8000_0000) / 12 == a / 12 + 0x8000_0000 && (a + 12 * 0x8000_0000) % 12 == a % 12) by (nonlinear_arith);
    }
    ((q as i64 - 0x8000_0000i64) as i32, r as i32)
}

/// Name with octave of the note `semitones` above C0 (40 is "E3", 28 is "E2").
pub open spec fn spec_note_name(semitones: int) -> Seq<char> {
    pitch_class_name(semitones % 12) + int_decimal(semitones / 12)
}

pub fn semitones_to_note_name(semitones: i32) -> (s: String)
    ensures
        s@ == spec_note_name(semitones as int),
{
    let (octave, step) = div_rem_12(semitones);
    let mut s = String::from_str(pitch_class_str(step));
    let d = decimal(octave as i64);
    s.append(d.as_str());
    s
}

proof fn lemma_pitch_class(k: int)
    requires
        0 <= k < 12,
    ensures
        pitch_class_name(k).len() == 1 || (pitch_class_name(k).len() == 2 && pitch_class_name(k)[1] == '#'),
        letter_semitone(pitch_class_name(k)[0]) == Some(k - (pitch_class_name(k).len() - 1)),
{
    reveal_strlit("C");
    reveal_strlit("C#");
    reveal_strlit("D");
    reveal_strlit("D#");
    reveal_strlit("E");
    reveal_strlit("F");
    reveal_strlit("F#");
    reveal_strlit("G");
    reveal_strlit("G#");
    reveal_strlit("A");
    reveal_strlit("A#");
    reveal_strlit("B");
}

proof fn lemma_trim_plain(s: Seq<char>)
    requires
        s.len() > 0,
        !crate::text::is_ws(s[0]),
        !crate::text::is_ws(s.last()),
    ensures
        spec_trim(s) == s,
{
    assert(crate::text::trim_start(s) == s);
    assert(crate::text::trim_end(s) == s);
}

/// Reading back the name of a note gives the note again, for the notes C0
/// to B9 (whose octave is written with one digit).
pub proof fn lemma_note_name_round_trip(n: int)
    requires
        0 <= n < 120,
    ensures
        note_name_semitones(spec_note_name(n)) == Some(n),
{
    let k = n % 12;
    let o = n / 12;
    assert(0 <= o < 10);
    assert(int_decimal(o) == seq![crate::text::digit_char(o)]);
    let d = crate::text::digit_char(o);
    assert(crate::text::is_digit(d) && (d as u32) == o + 48);
    lemma_pitch_class(k);
    reveal_with_fuel(scan_note_name, 3);
    let name = pitch_class_name(k);
    let s = name + seq![d];
    assert(spec_note_name(n) == s);
    assert(s.last() == d);
    assert(name.len() >= 1);
    assert(s[0] == name[0]);
    lemma_trim_plain(s);
    let rest = s.drop_first();
    if name.len() == 1 {
        assert(rest =~= seq![d]);
        assert(rest.drop_first() =~= Seq::<char>::empty());
    } else {
        assert(name.len() == 2 && name[1] == '#');
        assert(rest =~= seq!['#', d]);
        assert(rest.drop_first() =~= seq![d]);
    }
}

/// Names of the intervals above a tonic, by semitones (0 … 11).
pub open spec fn interval_name(k: int) -> Seq<char> {
    if k == 0 {
        "1"@
    } else if k == 1 {
        "b2"@
    } else if k == 2 {
        "2"@
    } else if k == 3 {
        "b3"@
    } else if k == 4 {
        "3"@
    } else if k == 5 {
        "4"@
    } else if k == 6 {
        "#4"@
    } else if k == 7 {
        "5"@
    } else if k == 8 {
        "b6"@
    } else if k == 9 {
        "6"@
    } else if k == 10 {
        "b7"@
    } else {
        "7"@
    }
}

fn interval_str(k: i32) -> (s: &'static str)
    ensures
        s@ == interval_name(k as int),
{
    if k == 0 {
        "1"
    } else if k == 1 {
        "b2"
    } else if k == 2 {
        "2"
    } else if k == 3 {
        "b3"
    } else if k == 4 {
        "3"
    } else if k == 5 {
        "4"
    } else if k == 6 {
        "#4"
    } else if k == 7 {
        "5"
    } else if k == 8 {
        "b6"
    } else if k == 9 {
        "6"
    } else if k == 10 {
        "b7"
    } else {
        "7"
    }
}

/// Label of a fret position: the interval above the tonic when intervals
/// are shown and a tonic is set, otherwise the note name.
pub open spec fn spec_fret_label(semitones: int, show_intervals: bool, tonic: Option<i32>) -> Seq<char> {
    if show_intervals && tonic is Some {
        interval_name((semitones - tonic->Some_0) % 12)
    } else {
        spec_note_name(semitones)
    }
}

/// Adding octaves leaves a pitch class unchanged.
proof fn lemma_mod12_shift(j: int, k: int)
    by (nonlinear_arith)
    requires
        0 <= j < 12,
    ensures
        (j + 12 * k) % 12 == j,
{
}

/// Law of interval labels: with intervals shown, the label of a note
/// depends only on its pitch class against the tonic, so notes an octave
/// apart (above or below the tonic) get the same label; the tonic's own
/// pitch class is "1", seven semitones above it "5", a semitone below it
/// "7", and so on through the twelve intervals.
pub proof fn lemma_interval_labels(s: int, t: i32, k: int)
    ensures
        spec_fret_label(s + 12 * k, true, Some(t)) == spec_fret_label(s, true, Some(t)),
        spec_fret_label(t + 12 * k, true, Some(t)) == "1"@,
        spec_fret_label(t + 1 + 12 * k, true, Some(t)) == "b2"@,
        spec_fret_label(t + 2 + 12 * k, true, Some(t)) == "2"@,
        spec_fret_label(t + 3 + 12 * k, true, Some(t)) == "b3"@,
        spec_fret_label(t + 4 + 12 * k, true, Some(t)) == "3"@,
        spec_fret_label(t + 5 + 12 * k, true, Some(t)) == "4"@,
        spec_fret_label(t + 6 + 12 * k, true, Some(t)) == "#4"@,
        spec_fret_label(t + 7 + 12 * k, true, Some(t)) == "5"@,
        spec_fret_label(t + 8 + 12 * k, true, Some(t)) == "b6"@,
        spec_fret_label(t + 9 + 12 * k, true, Some(t)) == "6"@,
        spec_fret_label(t + 10 + 12 * k, true, Some(t)) == "b7"@,
        spec_fret_label(t + 11 + 12 * k, true, Some(t)) == "7"@,
{
    assert((s + 12 * k - t) % 12 == (s - t) % 12) by (nonlinear_arith);
    lemma_mod12_shift(0, k);
    lemma_mod12_shift(1, k);
    lemma_mod12_shift(2, k);
    lemma_mod12_shift(3, k);
    lemma_mod12_shift(4, k);
    lemma_mod12_shift(5, k);
    lemma_mod12_shift(6, k);
    lemma_mod12_shift(7, k);
    lemma_mod12_shift(8, k);
    lemma_mod12_shift(9, k);
    lemma_mod12_shift(10, k);
    lemma_mod12_shift(11, k);
}

pub fn fret_label(semitones: i32, show_intervals: bool, tonic: Option<i32>) -> (s: String)
    requires
        show_intervals && tonic is Some ==> i32::MIN <= semitones - tonic->Some_0 <= i32::MAX,
    ensures
        s@ == spec_fret_label(semitones as int, show_intervals, tonic),
{
    if show_intervals {
        if let Some(t) = tonic {
            let (_, k) = div_rem_12(semitones - t);
            return String::from_str(interval_str(k));
        }
    }
    semitones_to_note_name(semitones)
}

/// Semitones from C0 at `fret` on string `string_idx` of `tuning` (open
/// string names, low to high); `None` when there is no such string or its
/// name cannot be read. The fret is taken as an `i32` (`fret as i32`).
pub open spec fn spec_string_note(tuning: Seq<String>, string_idx: int, fret: usize) -> Option<int> {
    if 0 <= string_idx < tuning.len() {
        match note_name_semitones(tuning[string_idx]@) {
            Some(open) => Some(open + (fret as i32) as int),
            None => None,
        }
    } else {
        None
    }
}

pub fn string_note_semitones(tuning: &[String], string_idx: usize, fret: usize) -> (r: Option<i32>)
    requires
        0 <= string_idx < tuning@.len() ==> note_name_fits(tuning@[string_idx as int]@),
        0 <= string_idx < tuning@.len() ==> (note_name_semitones(tuning@[string_idx as int]@) matches Some(open)
            ==> i32::MIN <= open + (fret as i32) as int <= i32::MAX),
    ensures
        match r {
            Some(v) => spec_string_note(tuning@, string_idx as int, fret) == Some(v as int),
            None => spec_string_note(tuning@, string_idx as int, fret) is None,
        },
{
    if string_idx >= tuning.len() {
        return None;
    }
    let name = &tuning[string_idx];
    match note_name_to_semitones(name.as_str()) {
        Some(open) => Some(open + fret as i32),
        None => None,
    }
}

/// Standard guitar tuning, low to high: E2 A2 D3 G3 B3 E4.
pub fn guitar_tuning() -> (t: Vec<String>)
    ensures
        t@.len() == 6,
        t@[0]@ == "E2"@,
        t@[1]@ == "A2"@,
        t@[2]@ == "D3"@,
        t@[3]@ == "G3"@,
        t@[4]@ == "B3"@,
        t@[5]@ == "E4"@,
{
    let mut t: Vec<String> = Vec::new();
    t.push(String::from_str("E2"));
    t.push(String::from_str("A2"));
    t.push(String::from_str("D3"));
    t.push(String::from_str("G3"));
    t.push(String::from_str("B3"));
    t.push(String::from_str("E4"));
    t
}

/// Standard bass tuning, low to high: E1 A1 D2 G2.
pub fn bass_tuning() -> (t: Vec<String>)
    ensures
        t@.len() == 4,
        t@[0]@ == "E1"@,
        t@[1]@ == "A1"@,
        t@[2]@ == "D2"@,
        t@[3]@ == "G2"@,
{
    let mut t: Vec<String> = Vec::new();
    t.push(String::from_str("E1"));
    t.push(String::from_str("A1"));
    t.push(String::from_str("D2"));
    t.push(String::from_str("G2"));
    t
}

/// Weight of the line of fret `fret` (not the nut): 2 at each octave
/// (multiples of 12), 1 at multiples of 5, 0 for the others.
pub fn fret_line_strength(fret: usize) -> (s: u8)
    ensures
        s == (if fret % 12 == 0 { 2u8 } else if fret % 5 == 0 { 1u8 } else { 0u8 }),
{
    if fret % 12 == 0 { 2 } else if fret % 5 == 0 { 1 } else { 0 }
}

/// Whether the number of fret `fret` is written above it: up to the
/// twelfth fret, and at each octave after.
pub fn shows_fret_number(fret: usize) -> (b: bool)
    ensures
        b == (fret <= 12 || fret % 12 == 0),
{
    fret <= 12 || fret % 12 == 0
}

/// Inlay dots in the space before fret `fret`: two at the octave, one at
/// frets 3, 5, 7, 9 and 15.
pub fn fret_dots(fret: usize) -> (n: u8)
    ensures
        n == (if fret == 12 {
            2u8
        } else if fret == 3 || fret == 5 || fret == 7 || fret == 9 || fret == 15 {
            1u8
        } else {
            0u8
        }),
{
    if fret == 12 {
        2
    } else if fret == 3 || fret == 5 || fret == 7 || fret == 9 || fret == 15 {
        1
    } else {
        0
    }
}

/// The fret position under the pointer, as (string, fret): only fretted
/// positions 1 … `num_frets` of an existing string count.
pub fn position_at(string_idx: usize, fret: usize, num_strings: usize, num_frets: usize) -> (r: Option<(usize, usize)>)
    ensures
        r == (if 1 <= fret <= num_frets && string_idx < num_strings {
            Some((string_idx, fret))
        } else {
            None
        }),
{
    if fret >= 1 && fret <= num_frets && string_idx < num_strings {
        Some((string_idx, fret))
    } else {
        None
    }
}

/// Interactive state of the fretboard: the selected positions (string,
/// fret), each at most once, and the position under the pointer.
pub struct FingerboardState {
    pub selected: Vec<(usize, usize)>,
    pub hover_string: Option<usize>,
    pub hover_fret: Option<usize>,
}

impl FingerboardState {
    pub fn new() -> (s: Self)
        ensures
            s.selected@.len() == 0,
            s.hover_string is None,
            s.hover_fret is None,
    {
        FingerboardState { selected: Vec::new(), hover_string: None, hover_fret: None }
    }

    /// No position is selected twice.
    pub open spec fn well_formed(&self) -> bool {
        self.selected@.no_duplicates()
    }

    /// The selected positions as a set.
    pub open spec fn selection(&self) -> Set<(usize, usize)> {
        self.selected@.to_set()
    }

    fn find(&self, pos: (usize, usize)) -> (r: Option<usize>)
        ensures
            match r {
                Some(i) => i < self.selected@.len() && self.selected@[i as int] == pos,
                None => !self.selected@.contains(pos),
            },
    {
        let len = self.selected.len();
        let mut i: usize = 0;
        while i < len
            invariant
                len == self.selected@.len(),
                i <= len,
                forall|k: int| 0 <= k < i ==> self.selected@[k] != pos,
            decreases len - i,
        {
            if self.selected[i].0 == pos.0 && self.selected[i].1 == pos.1 {
                return Some(i);
            }
            i = i + 1;
        }
        None
    }

    /// The position is selected.
    pub fn is_selected(&self, string_idx: usize, fret: usize) -> (b: bool)
        ensures
            b == self.selection().contains((string_idx, fret)),
    {
        proof {
            assert(self.selected@.to_set().contains((string_idx, fret)) == self.selected@.contains((string_idx, fret)));
        }
        self.find((string_idx, fret)).is_some()
    }

    /// Selects the position, or deselects it when it was selected.
    pub fn toggle(&mut self, string_idx: usize, fret: usize)
        requires
            old(self).well_formed(),
        ensures
            final(self).well_formed(),
            final(self).selection() == (if old(self).selection().contains((string_idx, fret)) {
                old(self).selection().remove((string_idx, fret))
            } else {
                old(self).selection().insert((string_idx, fret))
            }),
            final(self).hover_string == old(self).hover_string,
            final(self).hover_fret == old(self).hover_fret,
    {
        let pos = (string_idx, fret);
        let ghost before = self.selected@;
        proof {
            assert(before.to_set().contains(pos) == before.contains(pos));
        }
        match self.find(pos) {
            Some(i) => {
                self.selected.remove(i);
                proof {
                    let after = self.selected@;
                    assert(after =~= before.remove(i as int));
                    assert forall|x: (usize, usize)| after.to_set().contains(x) == before.to_set().remove(pos).contains(x) by {
                        if after.contains(x) {
                            let k = choose|k: int| 0 <= k < after.len() && after[k] == x;
                            if k < i {
                                assert(before[k] == x);
                            } else {
                                assert(before[k + 1] == x);
                            }
                        }
                        if before.contains(x) && x != pos {
                            let k = choose|k: int| 0 <= k < before.len() && before[k] == x;
                            if k < i {
                                assert(after[k] == x);
                            } else {
                                assert(k != i);
                                assert(after[k - 1] == x);
                            }
                        }
                    }
                    assert(after.to_set() =~= before.to_set().remove(pos));
                    assert forall|a: int, b: int| 0 <= a < b < after.len() implies after[a] != after[b] by {
                        let a0 = if a < i { a } else { a + 1 };
                        let b0 = if b < i { b } else { b + 1 };
                        assert(after[a] == before[a0]);
                        assert(after[b] == before[b0]);
                    }
                }
            },
            None => {
                self.selected.push(pos);
                proof {
                    let after = self.selected@;
                    assert(after =~= before.push(pos));
                    assert forall|x: (usize, usize)| after.to_set().contains(x) == before.to_set().insert(pos).contains(x) by {
                        if after.contains(x) && x != pos {
                            let k = choose|k: int| 0 <= k < after.len() && after[k] == x;
                            assert(k < before.len());
                            assert(before[k] == x);
                        }
                        if before.contains(x) {
                            let k = choose|k: int| 0 <= k < before.len() && before[k] == x;
                            assert(after[k] == x);
                        }
                        if x == pos {
                            assert(after[before.len() as int] == pos);
                        }
                    }
                    assert(after.to_set() =~= before.to_set().insert(pos));
                    assert forall|a: int, b: int| 0 <= a < b < after.len() implies after[a] != after[b] by {
                        if b == before.len() {
                            assert(after[a] == before[a]);
                        }
                    }
                }
            },
        }
    }

    /// Records the position under the pointer, or none.
    pub fn set_hover(&mut self, pos: Option<(usize, usize)>)
        ensures
            final(self).selected@ == old(self).selected@,
            final(self).hover_string == (match pos { Some(p) => Some(p.0), None => None }),
            final(self).hover_fret == (match pos { Some(p) => Some(p.1), None => None }),
    {
        match pos {
            Some((s, f)) => {
                self.hover_string = Some(s);
                self.hover_fret = Some(f);
            },
            None => {
                self.hover_string = None;
                self.hover_fret = None;
            },
        }
    }
}

/// Toggling the same position twice leaves the selection as it was.
pub proof fn lemma_toggle_twice(sel: Set<(usize, usize)>, pos: (usize, usize))
    ensures
        ({
            let once = if sel.contains(pos) { sel.remove(pos) } else { sel.insert(pos) };
            let twice = if once.contains(pos) { once.remove(pos) } else { once.insert(pos) };
            twice == sel
        }),
{
    let once = if sel.contains(pos) { sel.remove(pos) } else { sel.insert(pos) };
    let twice = if once.contains(pos) { once.remove(pos) } else { once.insert(pos) };
    assert(twice =~= sel);
}

} // verus!
