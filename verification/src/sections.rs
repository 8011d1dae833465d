//! Song sections read from a score: each rehearsal mark opens a section
//! that runs to the measure before the next mark, classified by its text
//! and carrying the chord progression of its measures.

use vstd::prelude::*;
use vstd::string::{StrSliceExecFns, StringExecFns};
use crate::notation::direction::DirectionKind;
use crate::notation::measure::Measure;
use crate::notation::score::Score;
use crate::notation::staff::Staff;
use crate::notation::system::System;
use crate::notation::theme::{section_color, ChordProgression, ChordStep, ChordSymbol, Section, SectionKind, Theme};
use crate::xml::opt_view;

verus! {

// ── Substrings and lowercase ─────────────────────────────────────

/// `p` occurs in `s`.
pub open spec fn has_substring(s: Seq<char>, p: Seq<char>) -> bool {
    exists|i: int| 0 <= i && i + p.len() <= s.len() && #[trigger] s.subrange(i, i + p.len()) == p
}

fn chars_of(s: &str) -> (v: Vec<char>)
    ensures
        v@ == s@,
{
    let n = s.unicode_len();
    let mut v: Vec<char> = Vec::new();
    let mut i: usize = 0;
    while i < n
        invariant
            n == s@.len(),
            i <= n,
            v@ == s@.take(i as int),
        decreases n - i,
    {
        v.push(s.get_char(i));
        proof {
            assert(v@ =~= s@.take(i + 1));
        }
        i = i + 1;
    }
    proof {
        assert(s@.take(n as int) =~= s@);
    }
    v
}

/// `p` occurs in `s` (`str::contains` with a string pattern).
pub fn str_contains(s: &str, p: &str) -> (b: bool)
    ensures
        b == has_substring(s@, p@),
{
    let sv = chars_of(s);
    let pv = chars_of(p);
    let n = sv.len();
    let m = pv.len();
    if m > n {
        return false;
    }
    let mut i: usize = 0;
    while i <= n - m
        invariant
            n == s@.len(),
            m == p@.len(),
            sv@ == s@,
            pv@ == p@,
            m <= n,
            i <= n - m + 1,
            forall|k: int| 0 <= k < i ==> #[trigger] s@.subrange(k, k + m) != p@,
        decreases n - m + 1 - i,
    {
        let mut j: usize = 0;
        while j < m && sv[i + j] == pv[j]
            invariant
                n == sv@.len(),
                m == pv@.len(),
                i + m <= n,
                j <= m,
                forall|t: int| 0 <= t < j ==> sv@[i + t] == pv@[t],
            decreases m - j,
        {
            j = j + 1;
        }
        if j == m {
            proof {
                assert(s@.subrange(i as int, i + m) =~= p@);
            }
            return true;
        }
        proof {
            assert(s@.subrange(i as int, i + m)[j as int] != p@[j as int]);
        }
        i = i + 1;
    }
    false
}

/// What `str::to_lowercase` gives for `s`.
pub uninterp spec fn lowercase(s: Seq<char>) -> Seq<char>;

/// `str::to_lowercase`, the Unicode lowercase mapping. Claims only that the
/// result is the one `lowercase` names for this text.
#[verifier::external_body]
fn to_lowercase(s: &str) -> (r: String)
    ensures
        r@ == lowercase(s@),
{
    s.to_lowercase()
}

// ── Section kinds ────────────────────────────────────────────────

/// The kind a (lowercased) rehearsal text names, by the first group of
/// keywords (Spanish or English) it contains.
pub open spec fn spec_section_kind(l: Seq<char>) -> SectionKind {
    if has_substring(l, "intro"@) || has_substring(l, "introducción"@) || has_substring(l, "introduccion"@) {
        SectionKind::Intro
    } else if has_substring(l, "verso"@) || has_substring(l, "verse"@) || has_substring(l, "estrofa"@) {
        SectionKind::Verse
    } else if has_substring(l, "estribillo"@) || has_substring(l, "chorus"@) || has_substring(l, "coro"@)
        || has_substring(l, "refrain"@) {
        SectionKind::Chorus
    } else if has_substring(l, "puente"@) || has_substring(l, "bridge"@) {
        SectionKind::Bridge
    } else if has_substring(l, "solo"@) || has_substring(l, "interlude"@) || has_substring(l, "interludio"@) {
        SectionKind::Solo
    } else if has_substring(l, "outro"@) || has_substring(l, "final"@) || has_substring(l, "coda"@)
        || has_substring(l, "fin"@) {
        SectionKind::Outro
    } else {
        SectionKind::Custom
    }
}

/// A text that contains `w` contains every beginning `p` of `w`.
proof fn lemma_prefix_keyword(l: Seq<char>, w: Seq<char>, p: Seq<char>)
    requires
        p.len() <= w.len(),
        w.subrange(0, p.len() as int) == p,
        has_substring(l, w),
    ensures
        has_substring(l, p),
{
    let i = choose|i: int| 0 <= i && i + w.len() <= l.len() && #[trigger] l.subrange(i, i + w.len()) == w;
    assert(l.subrange(i, i + p.len()) =~= w.subrange(0, p.len() as int));
}

/// Law of section names: a lowercased rehearsal text that contains a
/// keyword of a kind, and none of the keywords of the kinds tried before it,
/// names that kind, whatever else it holds: intro before verse before chorus
/// before bridge before solo before outro; a text with none of them is a
/// custom section.
pub proof fn lemma_section_keywords(l: Seq<char>)
    ensures
        has_substring(l, "intro"@) ==> spec_section_kind(l) == SectionKind::Intro,
        !has_substring(l, "intro"@) && (has_substring(l, "verse"@) || has_substring(l, "verso"@)
            || has_substring(l, "estrofa"@)) ==> spec_section_kind(l) == SectionKind::Verse,
        !has_substring(l, "intro"@) && !has_substring(l, "verse"@) && !has_substring(l, "verso"@)
            && !has_substring(l, "estrofa"@)
            && (has_substring(l, "chorus"@) || has_substring(l, "coro"@) || has_substring(l, "estribillo"@)
                || has_substring(l, "refrain"@)) ==> spec_section_kind(l) == SectionKind::Chorus,
        !has_substring(l, "intro"@) && !has_substring(l, "verse"@) && !has_substring(l, "verso"@)
            && !has_substring(l, "estrofa"@) && !has_substring(l, "chorus"@) && !has_substring(l, "coro"@)
            && !has_substring(l, "estribillo"@) && !has_substring(l, "refrain"@)
            && (has_substring(l, "bridge"@) || has_substring(l, "puente"@)) ==> spec_section_kind(l) == SectionKind::Bridge,
        !has_substring(l, "intro"@) && !has_substring(l, "verse"@) && !has_substring(l, "verso"@)
            && !has_substring(l, "estrofa"@) && !has_substring(l, "chorus"@) && !has_substring(l, "coro"@)
            && !has_substring(l, "estribillo"@) && !has_substring(l, "refrain"@)
            && !has_substring(l, "bridge"@) && !has_substring(l, "puente"@)
            && (has_substring(l, "solo"@) || has_substring(l, "interlude"@) || has_substring(l, "interludio"@))
            ==> spec_section_kind(l) == SectionKind::Solo,
        !has_substring(l, "intro"@) && !has_substring(l, "verse"@) && !has_substring(l, "verso"@)
            && !has_substring(l, "estrofa"@) && !has_substring(l, "chorus"@) && !has_substring(l, "coro"@)
            && !has_substring(l, "estribillo"@) && !has_substring(l, "refrain"@)
            && !has_substring(l, "bridge"@) && !has_substring(l, "puente"@)
            && !has_substring(l, "solo"@) && !has_substring(l, "interlude"@) && !has_substring(l, "interludio"@)
            && (has_substring(l, "outro"@) || has_substring(l, "final"@) || has_substring(l, "coda"@)
                || has_substring(l, "fin"@)) ==> spec_section_kind(l) == SectionKind::Outro,
        !has_substring(l, "intro"@) && !has_substring(l, "verse"@) && !has_substring(l, "verso"@)
            && !has_substring(l, "estrofa"@) && !has_substring(l, "chorus"@) && !has_substring(l, "coro"@)
            && !has_substring(l, "estribillo"@) && !has_substring(l, "refrain"@)
            && !has_substring(l, "bridge"@) && !has_substring(l, "puente"@)
            && !has_substring(l, "solo"@) && !has_substring(l, "interlude"@) && !has_substring(l, "interludio"@)
            && !has_substring(l, "outro"@) && !has_substring(l, "fin"@) && !has_substring(l, "coda"@)
            ==> spec_section_kind(l) == SectionKind::Custom,
{
    reveal_strlit("intro");
    reveal_strlit("introducción");
    reveal_strlit("introduccion");
    reveal_strlit("fin");
    reveal_strlit("final");
    if has_substring(l, "introducción"@) {
        assert("introducción"@.subrange(0, 5) =~= "intro"@);
        lemma_prefix_keyword(l, "introducción"@, "intro"@);
    }
    if has_substring(l, "introduccion"@) {
        assert("introduccion"@.subrange(0, 5) =~= "intro"@);
        lemma_prefix_keyword(l, "introduccion"@, "intro"@);
    }
    if has_substring(l, "final"@) {
        assert("final"@.subrange(0, 3) =~= "fin"@);
        lemma_prefix_keyword(l, "final"@, "fin"@);
    }
}

/// The kind named by an already lowercased rehearsal text.
pub fn section_kind_of(l: &str) -> (k: SectionKind)
    ensures
        k == spec_section_kind(l@),
{
    if str_contains(l, "intro") || str_contains(l, "introducción") || str_contains(l, "introduccion") {
        SectionKind::Intro
    } else if str_contains(l, "verso") || str_contains(l, "verse") || str_contains(l, "estrofa") {
        SectionKind::Verse
    } else if str_contains(l, "estribillo") || str_contains(l, "chorus") || str_contains(l, "coro")
        || str_contains(l, "refrain") {
        SectionKind::Chorus
    } else if str_contains(l, "puente") || str_contains(l, "bridge") {
        SectionKind::Bridge
    } else if str_contains(l, "solo") || str_contains(l, "interlude") || str_contains(l, "interludio") {
        SectionKind::Solo
    } else if str_contains(l, "outro") || str_contains(l, "final") || str_contains(l, "coda")
        || str_contains(l, "fin") {
        SectionKind::Outro
    } else {
        SectionKind::Custom
    }
}

/// Classifies a rehearsal text, ignoring case.
pub fn classify_section_kind(text: &str) -> (k: SectionKind)
    ensures
        k == spec_section_kind(lowercase(text@)),
{
    let lower = to_lowercase(text);
    section_kind_of(lower.as_str())
}

// ── Measures in reading order ────────────────────────────────────

pub open spec fn staves_measures(staves: Seq<Staff>) -> Seq<Measure>
    decreases staves.len(),
{
    if staves.len() == 0 {
        Seq::empty()
    } else {
        staves_measures(staves.drop_last()) + staves.last().measures@
    }
}

pub open spec fn systems_measures(systems: Seq<System>) -> Seq<Measure>
    decreases systems.len(),
{
    if systems.len() == 0 {
        Seq::empty()
    } else {
        systems_measures(systems.drop_last()) + staves_measures(systems.last().staves@)
    }
}

/// All measures of a score in reading order: systems, then their staves,
/// then the staves' measures.
pub open spec fn score_measures(s: Score) -> Seq<Measure> {
    systems_measures(s.systems@)
}

/// `v` lists, for each measure of `s` in reading order, where it is.
pub open spec fn positions_of(v: Seq<(usize, usize, usize)>, s: Score) -> bool {
    &&& v.len() == score_measures(s).len()
    &&& forall|k: int| 0 <= k < v.len() ==> {
        let (a, b, c) = #[trigger] v[k];
        &&& a < s.systems@.len()
        &&& b < s.systems@[a as int].staves@.len()
        &&& c < s.systems@[a as int].staves@[b as int].measures@.len()
        &&& s.systems@[a as int].staves@[b as int].measures@[c as int] == score_measures(s)[k]
    }
}

fn measure_positions(s: &Score) -> (v: Vec<(usize, usize, usize)>)
    requires
        score_measures(*s).len() <= usize::MAX,
    ensures
        positions_of(v@, *s),
{
    let mut v: Vec<(usize, usize, usize)> = Vec::new();
    let systems = &s.systems;
    let n = systems.len();
    let mut a: usize = 0;
    proof {
        lemma_systems_prefix_len(systems@, n as int);
    }
    while a < n
        invariant
            n == systems@.len(),
            systems == &s.systems,
            a <= n,
            score_measures(*s).len() <= usize::MAX,
            systems_measures(systems@).len() == score_measures(*s).len(),
            forall|j: int| 0 <= j <= n ==> #[trigger] systems_measures(systems@.take(j)).len() <= systems_measures(systems@).len(),
            v@.len() == systems_measures(systems@.take(a as int)).len(),
            forall|k: int| 0 <= k < v@.len() ==> {
                let (x, y, z) = #[trigger] v@[k];
                &&& x < n
                &&& y < systems@[x as int].staves@.len()
                &&& z < systems@[x as int].staves@[y as int].measures@.len()
                &&& systems@[x as int].staves@[y as int].measures@[z as int] == systems_measures(systems@.take(a as int))[k]
            },
        decreases n - a,
    {
        let staves = &systems[a].staves;
        let ghost before = systems_measures(systems@.take(a as int));
        proof {
            assert(systems@.take(a + 1).drop_last() =~= systems@.take(a as int));
            assert(systems@.take(a + 1).last() == systems@[a as int]);
            assert(systems_measures(systems@.take(a + 1)) == before + staves_measures(staves@));
            assert(systems_measures(systems@.take(a + 1)).len() <= systems_measures(systems@).len());
            lemma_staves_prefix_len(staves@, staves@.len() as int);
        }
        let m = staves.len();
        let mut b: usize = 0;
        while b < m
            invariant
                n == systems@.len(),
                systems == &s.systems,
                a < n,
                staves == &systems@[a as int].staves,
                m == staves@.len(),
                b <= m,
                before == systems_measures(systems@.take(a as int)),
                before.len() + staves_measures(staves@).len() <= usize::MAX,
                forall|j: int| 0 <= j <= m ==> #[trigger] staves_measures(staves@.take(j)).len() <= staves_measures(staves@).len(),
                v@.len() == before.len() + staves_measures(staves@.take(b as int)).len(),
                forall|k: int| 0 <= k < v@.len() ==> {
                    let (x, y, z) = #[trigger] v@[k];
                    &&& x < n
                    &&& y < systems@[x as int].staves@.len()
                    &&& z < systems@[x as int].staves@[y as int].measures@.len()
                    &&& systems@[x as int].staves@[y as int].measures@[z as int] == (before + staves_measures(staves@.take(b as int)))[k]
                },
            decreases m - b,
        {
            let ms = &staves[b].measures;
            let ghost mid = before + staves_measures(staves@.take(b as int));
            proof {
                assert(staves@.take(b + 1).drop_last() =~= staves@.take(b as int));
                assert(staves@.take(b + 1).last() == staves@[b as int]);
                assert(staves_measures(staves@.take(b + 1)) == staves_measures(staves@.take(b as int)) + ms@);
                assert(staves_measures(staves@.take(b + 1)).len() <= staves_measures(staves@).len());
            }
            let l = ms.len();
            let mut c: usize = 0;
            while c < l
                invariant
                    n == systems@.len(),
                    systems == &s.systems,
                    a < n,
                    staves == &systems@[a as int].staves,
                    m == staves@.len(),
                    b < m,
                    ms == &staves@[b as int].measures,
                    l == ms@.len(),
                    c <= l,
                    mid.len() + l <= usize::MAX,
                    v@.len() == mid.len() + c,
                    forall|k: int| 0 <= k < v@.len() ==> {
                        let (x, y, z) = #[trigger] v@[k];
                        &&& x < n
                        &&& y < systems@[x as int].staves@.len()
                        &&& z < systems@[x as int].staves@[y as int].measures@.len()
                        &&& systems@[x as int].staves@[y as int].measures@[z as int] == (mid + ms@)[k]
                    },
                decreases l - c,
            {
                let ghost old_v = v@;
                v.push((a, b, c));
                proof {
                    assert forall|k: int| 0 <= k < v@.len() implies {
                        let (x, y, z) = #[trigger] v@[k];
                        &&& x < n
                        &&& y < systems@[x as int].staves@.len()
                        &&& z < systems@[x as int].staves@[y as int].measures@.len()
                        &&& systems@[x as int].staves@[y as int].measures@[z as int] == (mid + ms@)[k]
                    } by {
                        if k < old_v.len() {
                            assert(v@[k] == old_v[k]);
                        }
                    }
                }
                c = c + 1;
            }
            b = b + 1;
        }
        proof {
            assert(staves@.take(m as int) =~= staves@);
        }
        a = a + 1;
    }
    proof {
        assert(systems@.take(n as int) =~= systems@);
    }
    v
}

proof fn lemma_staves_prefix_len(staves: Seq<Staff>, j: int)
    requires
        0 <= j <= staves.len(),
    ensures
        forall|i: int| 0 <= i <= j ==> #[trigger] staves_measures(staves.take(i)).len() <= staves_measures(staves.take(j)).len(),
        staves.take(staves.len() as int) == staves,
    decreases j,
{
    assert(staves.take(staves.len() as int) =~= staves);
    if j > 0 {
        lemma_staves_prefix_len(staves, j - 1);
        assert(staves.take(j).drop_last() =~= staves.take(j - 1));
    }
}

proof fn lemma_systems_prefix_len(systems: Seq<System>, j: int)
    requires
        0 <= j <= systems.len(),
    ensures
        forall|i: int| 0 <= i <= j ==> #[trigger] systems_measures(systems.take(i)).len() <= systems_measures(systems.take(j)).len(),
        systems.take(systems.len() as int) == systems,
    decreases j,
{
    assert(systems.take(systems.len() as int) =~= systems);
    if j > 0 {
        lemma_systems_prefix_len(systems, j - 1);
        assert(systems.take(j).drop_last() =~= systems.take(j - 1));
    }
}


// ── Chord symbols and progressions ───────────────────────────────

/// The views of optional strings.
pub open spec fn opt_strings_view(v: Seq<Option<String>>) -> Seq<Option<Seq<char>>> {
    v.map_values(|o: Option<String>| opt_view(o))
}

/// The chord symbol of each measure of `ms`.
pub open spec fn chord_views(ms: Seq<Measure>) -> Seq<Option<Seq<char>>> {
    ms.map_values(|m: Measure| opt_view(m.chord_symbol))
}

/// The chord symbol of every measure of the score, in reading order.
pub fn collect_chord_symbols(score: &Score) -> (r: Vec<Option<String>>)
    requires
        score_measures(*score).len() <= usize::MAX,
    ensures
        opt_strings_view(r@) == chord_views(score_measures(*score)),
{
    let ps = measure_positions(score);
    let ghost ms = score_measures(*score);
    let mut r: Vec<Option<String>> = Vec::new();
    let len = ps.len();
    let mut k: usize = 0;
    while k < len
        invariant
            len == ps@.len(),
            positions_of(ps@, *score),
            ms == score_measures(*score),
            k <= len,
            opt_strings_view(r@) == chord_views(ms.take(k as int)),
        decreases len - k,
    {
        let (a, b, c) = ps[k];
        proof {
            assert(ps@[k as int] == (a, b, c));
        }
        let m = &score.systems[a].staves[b].measures[c];
        let sym = match &m.chord_symbol {
            Some(t) => Some(t.clone()),
            None => None,
        };
        let ghost old_r = r@;
        r.push(sym);
        proof {
            assert(*m == ms[k as int]);
            assert(opt_view(sym) == opt_view(m.chord_symbol));
            assert(r@ == old_r.push(sym));
            assert(ms.take(k + 1) =~= ms.take(k as int).push(ms[k as int]));
            assert(opt_strings_view(r@) =~= opt_strings_view(old_r).push(opt_view(sym)));
            assert(chord_views(ms.take(k + 1)) =~= chord_views(ms.take(k as int)).push(opt_view(ms[k as int].chord_symbol)));
        }
        k = k + 1;
    }
    proof {
        assert(ms.take(len as int) =~= ms);
    }
    r
}

/// The chord symbol of measure `i`, none past the end.
pub open spec fn chord_at(cv: Seq<Option<Seq<char>>>, i: int) -> Option<Seq<char>> {
    if 0 <= i < cv.len() { cv[i] } else { None }
}

/// Run-length state over the measures read so far: finished chord steps,
/// the symbol of the current run (none for measures without a chord) and
/// its length.
pub struct Runs {
    pub steps: Seq<(Seq<char>, nat)>,
    pub current: Option<Seq<char>>,
    pub count: nat,
}

/// The runs of the `n` measures from `start`.
pub open spec fn runs(cv: Seq<Option<Seq<char>>>, start: int, n: nat) -> Runs
    decreases n,
{
    if n == 0 {
        Runs { steps: Seq::empty(), current: None, count: 0 }
    } else {
        let st = runs(cv, start, (n - 1) as nat);
        let sym = chord_at(cv, start + n - 1);
        if sym == st.current {
            Runs { steps: st.steps, current: st.current, count: st.count + 1 }
        } else {
            Runs {
                steps: match st.current {
                    Some(c) => st.steps.push((c, st.count)),
                    None => st.steps,
                },
                current: sym,
                count: 1,
            }
        }
    }
}

/// Number of measures from `start` to `end` (inclusive); none when reversed.
pub open spec fn span(start: int, end: int) -> nat {
    if end >= start { (end - start + 1) as nat } else { 0 }
}

/// The chord progression of measures `start` to `end`: consecutive measures
/// with the same chord merge into one step; measures without a chord give
/// no step.
pub open spec fn spec_progression(cv: Seq<Option<Seq<char>>>, start: int, end: int) -> Seq<(Seq<char>, nat)> {
    let st = runs(cv, start, span(start, end));
    match st.current {
        Some(c) => st.steps.push((c, st.count)),
        None => st.steps,
    }
}

pub open spec fn progression_view(p: ChordProgression) -> Seq<(Seq<char>, nat)> {
    p.chords@.map_values(|c: ChordStep| (c.symbol.0@, c.measures as nat))
}

pub open spec fn ostr(o: Option<&str>) -> Option<Seq<char>> {
    match o {
        Some(s) => Some(s@),
        None => None,
    }
}

fn ostr_eq(a: Option<&str>, b: Option<&str>) -> (r: bool)
    ensures
        r == (ostr(a) == ostr(b)),
{
    match (a, b) {
        (Some(x), Some(y)) => crate::text::str_eq(x, y),
        (None, None) => true,
        _ => false,
    }
}

fn push_step(steps: &mut Vec<ChordStep>, s: &str, count: u32)
    ensures
        progression_view(ChordProgression { chords: *final(steps) })
            == progression_view(ChordProgression { chords: *old(steps) }).push((s@, count as nat)),
{
    steps.push(ChordStep { symbol: ChordSymbol(String::from_str(s)), measures: count });
    proof {
        assert(progression_view(ChordProgression { chords: *steps }) =~= progression_view(
            ChordProgression { chords: *old(steps) },
        ).push((s@, count as nat)));
    }
}

/// The chord progression of measures `start` to `end` (inclusive) of `chords`.
pub fn build_chord_progression(chords: &[Option<String>], start: usize, end: usize) -> (p: ChordProgression)
    requires
        end >= start ==> end - start < u32::MAX,
    ensures
        progression_view(p) == spec_progression(opt_strings_view(chords@), start as int, end as int),
{
    let ghost cv = opt_strings_view(chords@);
    let n: usize = if end >= start { end - start + 1 } else { 0 };
    let mut steps: Vec<ChordStep> = Vec::new();
    let mut current: Option<&str> = None;
    let mut count: u32 = 0;
    let mut k: usize = 0;
    while k < n
        invariant
            n == span(start as int, end as int),
            n <= u32::MAX,
            end >= start ==> start + n - 1 == end,
            cv == opt_strings_view(chords@),
            k <= n,
            count <= k,
            progression_view(ChordProgression { chords: steps }) == runs(cv, start as int, k as nat).steps,
            ostr(current) == runs(cv, start as int, k as nat).current,
            count == runs(cv, start as int, k as nat).count,
        decreases n - k,
    {
        let i = start + k;
        let sym: Option<&str> = if i < chords.len() {
            match &chords[i] {
                Some(t) => Some(t.as_str()),
                None => None,
            }
        } else {
            None
        };
        proof {
            assert(ostr(sym) == chord_at(cv, start + k));
        }
        if ostr_eq(sym, current) {
            count = count + 1;
        } else {
            match current {
                Some(c) => push_step(&mut steps, c, count),
                None => {},
            }
            current = sym;
            count = 1;
        }
        k = k + 1;
    }
    match current {
        Some(c) => push_step(&mut steps, c, count),
        None => {},
    }
    ChordProgression { chords: steps }
}

/// Measures of `n` from `start` that carry a chord.
pub open spec fn chord_measures(cv: Seq<Option<Seq<char>>>, start: int, n: nat) -> nat
    decreases n,
{
    if n == 0 {
        0
    } else {
        chord_measures(cv, start, (n - 1) as nat) + if chord_at(cv, start + n - 1) is Some { 1nat } else { 0nat }
    }
}

/// Measures counted by chord steps.
pub open spec fn step_measures(steps: Seq<(Seq<char>, nat)>) -> nat
    decreases steps.len(),
{
    if steps.len() == 0 {
        0
    } else {
        step_measures(steps.drop_last()) + steps.last().1
    }
}

proof fn lemma_runs_count(cv: Seq<Option<Seq<char>>>, start: int, n: nat)
    ensures
        step_measures(runs(cv, start, n).steps) + (if runs(cv, start, n).current is Some {
            runs(cv, start, n).count
        } else {
            0
        }) == chord_measures(cv, start, n),
    decreases n,
{
    if n > 0 {
        lemma_runs_count(cv, start, (n - 1) as nat);
        let st = runs(cv, start, (n - 1) as nat);
        if let Some(c) = st.current {
            assert(st.steps.push((c, st.count)).drop_last() =~= st.steps);
        }
    }
}

/// Law of chord progressions: the steps of a progression count, together,
/// exactly the measures of its range that carry a chord.
pub proof fn lemma_progression_counts_chord_measures(cv: Seq<Option<Seq<char>>>, start: int, end: int)
    ensures
        step_measures(spec_progression(cv, start, end)) == chord_measures(cv, start, span(start, end)),
{
    let st = runs(cv, start, span(start, end));
    lemma_runs_count(cv, start, span(start, end));
    if let Some(c) = st.current {
        assert(st.steps.push((c, st.count)).drop_last() =~= st.steps);
    }
}

/// The chords of the `n` measures from `start`, in order, leaving out the
/// measures without one.
pub open spec fn present_chords(cv: Seq<Option<Seq<char>>>, start: int, n: nat) -> Seq<Seq<char>>
    decreases n,
{
    if n == 0 {
        Seq::empty()
    } else {
        match chord_at(cv, start + n - 1) {
            Some(c) => present_chords(cv, start, (n - 1) as nat).push(c),
            None => present_chords(cv, start, (n - 1) as nat),
        }
    }
}

/// Every one of the `n` measures from `start` carries a chord.
pub open spec fn all_chorded(cv: Seq<Option<Seq<char>>>, start: int, n: nat) -> bool {
    forall|i: int| start <= i < start + n ==> #[trigger] chord_at(cv, i) is Some
}

/// Each step's chord differs from the next one's.
pub open spec fn changes_only(steps: Seq<(Seq<char>, nat)>) -> bool {
    forall|j: int| 0 <= j && j + 1 < steps.len() ==> (#[trigger] steps[j]).0 != steps[j + 1].0
}

/// What the run state stands for: its steps, then its open run.
pub open spec fn runs_expansion(st: Runs) -> Seq<Seq<char>> {
    match st.current {
        Some(c) => expand_progression(st.steps) + Seq::new(st.count, |_i: int| c),
        None => expand_progression(st.steps),
    }
}

proof fn lemma_expand_push(steps: Seq<(Seq<char>, nat)>, c: Seq<char>, k: nat)
    ensures
        expand_progression(steps.push((c, k))) == expand_progression(steps) + Seq::new(k, |_i: int| c),
{
    assert(steps.push((c, k)).drop_last() =~= steps);
}

proof fn lemma_runs_expand(cv: Seq<Option<Seq<char>>>, start: int, n: nat)
    ensures
        runs_expansion(runs(cv, start, n)) == present_chords(cv, start, n),
        forall|j: int| 0 <= j < runs(cv, start, n).steps.len() ==> (#[trigger] runs(cv, start, n).steps[j]).1 >= 1,
        n > 0 ==> runs(cv, start, n).count >= 1,
        n > 0 ==> runs(cv, start, n).current == chord_at(cv, start + n - 1),
        all_chorded(cv, start, n) ==> changes_only(runs(cv, start, n).steps),
        all_chorded(cv, start, n) && runs(cv, start, n).steps.len() > 0 && runs(cv, start, n).current is Some
            ==> runs(cv, start, n).steps.last().0 != runs(cv, start, n).current->Some_0,
    decreases n,
{
    if n > 0 {
        let m = (n - 1) as nat;
        lemma_runs_expand(cv, start, m);
        let st = runs(cv, start, m);
        let nx = runs(cv, start, n);
        let sym = chord_at(cv, start + n - 1);
        if sym == st.current {
            if let Some(c) = st.current {
                assert(Seq::new(st.count + 1, |_i: int| c) =~= Seq::new(st.count, |_i: int| c).push(c));
                assert(expand_progression(st.steps) + Seq::new(st.count + 1, |_i: int| c)
                    =~= (expand_progression(st.steps) + Seq::new(st.count, |_i: int| c)).push(c));
            }
        } else {
            if let Some(c) = st.current {
                lemma_expand_push(st.steps, c, st.count);
                assert forall|j: int| 0 <= j < nx.steps.len() implies (#[trigger] nx.steps[j]).1 >= 1 by {
                    if j < st.steps.len() {
                        assert(nx.steps[j] == st.steps[j]);
                    }
                }
                if all_chorded(cv, start, n) {
                    assert forall|i: int| start <= i < start + m implies #[trigger] chord_at(cv, i) is Some by {
                        assert(chord_at(cv, i) is Some);
                    }
                    assert forall|j: int| 0 <= j && j + 1 < nx.steps.len() implies (#[trigger] nx.steps[j]).0 != nx.steps[j + 1].0 by {
                        assert(nx.steps[j] == st.steps[j]);
                        if j + 1 < st.steps.len() {
                            assert(nx.steps[j + 1] == st.steps[j + 1]);
                        }
                    }
                }
            }
            if let Some(d) = sym {
                assert(Seq::new(1, |_i: int| d) =~= seq![d]);
                assert(expand_progression(nx.steps) + Seq::new(1, |_i: int| d) =~= expand_progression(nx.steps).push(d));
            }
        }
    }
}

/// Law of chord progressions: read in order and each repeated as many
/// measures as it lasts, the steps of a progression give back the chords of
/// its measures, leaving out the measures without a chord; no step is
/// empty; and where every measure has a chord, each step changes the chord
/// (repeated chords merge into one step).
pub proof fn lemma_progression_expands_to_chords(cv: Seq<Option<Seq<char>>>, start: int, end: int)
    ensures
        expand_progression(spec_progression(cv, start, end)) == present_chords(cv, start, span(start, end)),
        forall|j: int| 0 <= j < spec_progression(cv, start, end).len()
            ==> (#[trigger] spec_progression(cv, start, end)[j]).1 >= 1,
        all_chorded(cv, start, span(start, end)) ==> changes_only(spec_progression(cv, start, end)),
{
    let n = span(start, end);
    lemma_runs_expand(cv, start, n);
    if all_chorded(cv, start, n) && runs(cv, start, n).current is Some {
        let st0 = runs(cv, start, n);
        let p = spec_progression(cv, start, end);
        assert forall|j: int| 0 <= j && j + 1 < p.len() implies (#[trigger] p[j]).0 != p[j + 1].0 by {
            assert(p[j] == st0.steps[j]);
            if j + 1 < st0.steps.len() {
                assert(p[j + 1] == st0.steps[j + 1]);
            }
        }
    }
    let st = runs(cv, start, n);
    if let Some(c) = st.current {
        lemma_expand_push(st.steps, c, st.count);
        let p = spec_progression(cv, start, end);
        assert forall|j: int| 0 <= j < p.len() implies (#[trigger] p[j]).1 >= 1 by {
            if j < st.steps.len() {
                assert(p[j] == st.steps[j]);
            }
        }
    }
}

// ── Rehearsal marks and sections ─────────────────────────────────

/// Rehearsal texts among the directions `ds` of measure `idx`.
pub open spec fn marks_in(ds: Seq<crate::notation::direction::Direction>, idx: int) -> Seq<(int, Seq<char>)>
    decreases ds.len(),
{
    if ds.len() == 0 {
        Seq::empty()
    } else {
        marks_in(ds.drop_last(), idx) + match ds.last().kind {
            DirectionKind::Rehearsal(t) => seq![(idx, t@)],
            _ => Seq::empty(),
        }
    }
}

/// The rehearsal marks of the measures `ms`, with the index of their measure.
pub open spec fn rehearsal_marks(ms: Seq<Measure>) -> Seq<(int, Seq<char>)>
    decreases ms.len(),
{
    if ms.len() == 0 {
        Seq::empty()
    } else {
        rehearsal_marks(ms.drop_last()) + marks_in(ms.last().directions@, ms.len() - 1)
    }
}

pub open spec fn marks_view(v: Seq<(usize, String)>) -> Seq<(int, Seq<char>)> {
    v.map_values(|m: (usize, String)| (m.0 as int, m.1@))
}

fn push_marks(out: &mut Vec<(usize, String)>, m: &Measure, idx: usize)
    ensures
        marks_view(final(out)@) == marks_view(old(out)@) + marks_in(m.directions@, idx as int),
{
    let ds = &m.directions;
    let len = ds.len();
    let ghost base = marks_view(out@);
    let mut i: usize = 0;
    while i < len
        invariant
            len == ds@.len(),
            i <= len,
            marks_view(out@) == base + marks_in(ds@.take(i as int), idx as int),
        decreases len - i,
    {
        proof {
            assert(ds@.take(i + 1).drop_last() =~= ds@.take(i as int));
            assert(ds@.take(i + 1).last() == ds@[i as int]);
        }
        match &ds[i].kind {
            DirectionKind::Rehearsal(t) => {
                let ghost old_out = out@;
                let tc = t.clone();
                out.push((idx, tc));
                proof {
                    assert(tc@ == t@);
                    assert(marks_in(ds@.take(i + 1), idx as int) == marks_in(ds@.take(i as int), idx as int) + seq![(idx as int, t@)]);
                    assert(marks_view(out@) =~= marks_view(old_out).push((idx as int, t@)));
                    assert(marks_view(out@) =~= base + marks_in(ds@.take(i + 1), idx as int));
                }
            },
            _ => {
                proof {
                    assert(marks_view(out@) =~= base + marks_in(ds@.take(i + 1), idx as int));
                }
            },
        }
        i = i + 1;
    }
    proof {
        assert(ds@.take(len as int) =~= ds@);
    }
}

/// `x - 1`, or 0.
pub open spec fn sat_dec(x: int) -> int {
    if x > 0 { x - 1 } else { 0 }
}

/// Last measure of the section opened by mark `i`: the measure before the
/// next mark, or the last measure of the score.
pub open spec fn section_end(marks: Seq<(int, Seq<char>)>, total: int, i: int) -> int {
    if i + 1 < marks.len() { sat_dec(marks[i + 1].0) } else { sat_dec(total) }
}

/// The marks among the first `n` that open a section: those whose section
/// does not end before it starts.
pub open spec fn kept_marks(marks: Seq<(int, Seq<char>)>, total: int, n: nat) -> Seq<int>
    decreases n,
{
    if n == 0 {
        Seq::empty()
    } else {
        let prev = kept_marks(marks, total, (n - 1) as nat);
        if section_end(marks, total, n - 1) >= marks[n - 1].0 { prev.push(n - 1) } else { prev }
    }
}

/// `sec` is the section opened by `mark` and ending at measure `end`.
pub open spec fn section_matches(sec: Section, mark: (int, Seq<char>), end: int, cv: Seq<Option<Seq<char>>>) -> bool {
    let kind = spec_section_kind(lowercase(mark.1));
    &&& sec.kind == kind
    &&& sec.label@ == mark.1
    &&& sec.start_measure == mark.0
    &&& sec.end_measure == end
    &&& progression_view(sec.progression) == spec_progression(cv, mark.0, end)
    &&& sec.color@ == crate::notation::theme::section_color(kind)
}

/// The marks of the score that open sections (none without marks or
/// measures).
pub open spec fn section_marks(score: Score) -> Seq<int> {
    let ms = score_measures(score);
    let marks = rehearsal_marks(ms);
    if marks.len() == 0 || ms.len() == 0 {
        Seq::empty()
    } else {
        kept_marks(marks, ms.len() as int, marks.len())
    }
}

/// `secs` are the sections read from the rehearsal marks of `score`.
pub open spec fn sections_match(secs: Seq<Section>, score: Score) -> bool {
    let ms = score_measures(score);
    let marks = rehearsal_marks(ms);
    let kept = section_marks(score);
    &&& secs.len() == kept.len()
    &&& forall|k: int| 0 <= k < secs.len() ==> section_matches(
        #[trigger] secs[k],
        marks[kept[k]],
        section_end(marks, ms.len() as int, kept[k]),
        chord_views(ms),
    )
}

proof fn lemma_marks_in_range(ms: Seq<Measure>)
    ensures
        forall|k: int| 0 <= k < rehearsal_marks(ms).len() ==> 0 <= #[trigger] rehearsal_marks(ms)[k].0 < ms.len(),
        forall|j: int, k: int| 0 <= j <= k < rehearsal_marks(ms).len() ==> #[trigger] rehearsal_marks(ms)[j].0 <= #[trigger] rehearsal_marks(ms)[k].0,
    decreases ms.len(),
{
    if ms.len() > 0 {
        lemma_marks_in_range(ms.drop_last());
        lemma_marks_in_measure(ms.last().directions@, ms.len() - 1);
        let a = rehearsal_marks(ms.drop_last());
        let b = marks_in(ms.last().directions@, ms.len() - 1);
        assert(rehearsal_marks(ms) == a + b);
        assert forall|j: int, k: int| 0 <= j <= k < rehearsal_marks(ms).len() implies #[trigger] rehearsal_marks(ms)[j].0 <= #[trigger] rehearsal_marks(ms)[k].0 by {
            if k < a.len() {
                assert(rehearsal_marks(ms)[j] == a[j] && rehearsal_marks(ms)[k] == a[k]);
            } else if j < a.len() {
                assert(rehearsal_marks(ms)[j] == a[j]);
                assert(rehearsal_marks(ms)[k] == b[k - a.len()]);
            } else {
                assert(rehearsal_marks(ms)[j] == b[j - a.len()]);
                assert(rehearsal_marks(ms)[k] == b[k - a.len()]);
            }
        }
        assert forall|k: int| 0 <= k < rehearsal_marks(ms).len() implies 0 <= #[trigger] rehearsal_marks(ms)[k].0 < ms.len() by {
            if k < a.len() {
                assert(rehearsal_marks(ms)[k] == a[k]);
            } else {
                assert(rehearsal_marks(ms)[k] == b[k - a.len()]);
            }
        }
    }
}

proof fn lemma_marks_in_measure(ds: Seq<crate::notation::direction::Direction>, idx: int)
    ensures
        forall|k: int| 0 <= k < marks_in(ds, idx).len() ==> (#[trigger] marks_in(ds, idx)[k]).0 == idx,
    decreases ds.len(),
{
    if ds.len() > 0 {
        lemma_marks_in_measure(ds.drop_last(), idx);
        let a = marks_in(ds.drop_last(), idx);
        assert forall|k: int| 0 <= k < marks_in(ds, idx).len() implies (#[trigger] marks_in(ds, idx)[k]).0 == idx by {
            if k < a.len() {
                assert(marks_in(ds, idx)[k] == a[k]);
            }
        }
    }
}

/// Law of section detection: rehearsal marks are met in measure order, and
/// every section lies within the score, starting at its mark's measure and
/// not ending before it.
pub proof fn lemma_sections_within_score(score: Score, k: int)
    requires
        0 <= k < section_marks(score).len(),
    ensures
        ({
            let ms = score_measures(score);
            let marks = rehearsal_marks(ms);
            let i = section_marks(score)[k];
            &&& 0 <= i < marks.len()
            &&& 0 <= marks[i].0 <= section_end(marks, ms.len() as int, i) < ms.len()
        }),
        forall|j: int, l: int| 0 <= j <= l < rehearsal_marks(score_measures(score)).len() ==>
            #[trigger] rehearsal_marks(score_measures(score))[j].0 <= #[trigger] rehearsal_marks(score_measures(score))[l].0,
{
    let ms = score_measures(score);
    let marks = rehearsal_marks(ms);
    lemma_marks_in_range(ms);
    lemma_kept_valid(marks, ms.len() as int, marks.len());
    let i = section_marks(score)[k];
    assert(0 <= i < marks.len());
    if i + 1 < marks.len() {
        assert(marks[i + 1].0 < ms.len());
    }
}

proof fn lemma_kept_valid(marks: Seq<(int, Seq<char>)>, total: int, n: nat)
    requires
        n <= marks.len(),
    ensures
        forall|k: int| 0 <= k < kept_marks(marks, total, n).len() ==> {
            &&& 0 <= #[trigger] kept_marks(marks, total, n)[k] < n
            &&& section_end(marks, total, kept_marks(marks, total, n)[k]) >= marks[kept_marks(marks, total, n)[k]].0
        },
    decreases n,
{
    if n > 0 {
        lemma_kept_valid(marks, total, (n - 1) as nat);
        let prev = kept_marks(marks, total, (n - 1) as nat);
        assert forall|k: int| 0 <= k < kept_marks(marks, total, n).len() implies {
            &&& 0 <= #[trigger] kept_marks(marks, total, n)[k] < n
            &&& section_end(marks, total, kept_marks(marks, total, n)[k]) >= marks[kept_marks(marks, total, n)[k]].0
        } by {
            if k < prev.len() {
                assert(kept_marks(marks, total, n)[k] == prev[k]);
            }
        }
    }
}


fn collect_marks(score: &Score) -> (r: Vec<(usize, String)>)
    requires
        score_measures(*score).len() <= usize::MAX,
    ensures
        marks_view(r@) == rehearsal_marks(score_measures(*score)),
{
    let ps = measure_positions(score);
    let ghost ms = score_measures(*score);
    let mut r: Vec<(usize, String)> = Vec::new();
    let len = ps.len();
    let mut k: usize = 0;
    while k < len
        invariant
            len == ps@.len(),
            positions_of(ps@, *score),
            ms == score_measures(*score),
            k <= len,
            marks_view(r@) == rehearsal_marks(ms.take(k as int)),
        decreases len - k,
    {
        let (a, b, c) = ps[k];
        proof {
            assert(ps@[k as int] == (a, b, c));
            assert(ms.take(k + 1).drop_last() =~= ms.take(k as int));
            assert(ms.take(k + 1).last() == ms[k as int]);
        }
        let m = &score.systems[a].staves[b].measures[c];
        push_marks(&mut r, m, k);
        k = k + 1;
    }
    proof {
        assert(ms.take(len as int) =~= ms);
    }
    r
}

/// Reads the sections of a score from its rehearsal marks: each mark opens
/// a section, classified by its text, that ends at the measure before the
/// next mark (or at the last measure), with the chord progression of its
/// measures.
pub fn detect_sections_from_score(score: &Score) -> (r: Vec<Section>)
    requires
        score_measures(*score).len() <= u32::MAX,
    ensures
        sections_match(r@, *score),
{
    let ghost ms = score_measures(*score);
    let ghost mv = rehearsal_marks(ms);
    let marks = collect_marks(score);
    let chords = collect_chord_symbols(score);
    let total = chords.len();
    proof {
        assert(opt_strings_view(chords@).len() == chord_views(ms).len());
        lemma_marks_in_range(ms);
    }
    let mut sections: Vec<Section> = Vec::new();
    if marks.len() == 0 || total == 0 {
        return sections;
    }
    let n = marks.len();
    let mut i: usize = 0;
    while i < n
        invariant
            n == marks@.len(),
            mv == marks_view(marks@),
            mv == rehearsal_marks(ms),
            ms == score_measures(*score),
            total == ms.len(),
            total <= u32::MAX,
            0 < total,
            opt_strings_view(chords@) == chord_views(ms),
            forall|k: int| 0 <= k < mv.len() ==> 0 <= #[trigger] mv[k].0 < ms.len(),
            i <= n,
            sections@.len() == kept_marks(mv, total as int, i as nat).len(),
            forall|k: int| 0 <= k < sections@.len() ==> section_matches(
                #[trigger] sections@[k],
                mv[kept_marks(mv, total as int, i as nat)[k]],
                section_end(mv, total as int, kept_marks(mv, total as int, i as nat)[k]),
                chord_views(ms),
            ),
        decreases n - i,
    {
        proof {
            lemma_kept_valid(mv, total as int, i as nat);
            assert(mv[i as int] == (marks@[i as int].0 as int, marks@[i as int].1@));
        }
        let start = marks[i].0;
        let end = if i + 1 < n {
            proof {
                assert(mv[i + 1] == (marks@[i + 1].0 as int, marks@[i + 1].1@));
            }
            let next = marks[i + 1].0;
            if next > 0 { next - 1 } else { 0 }
        } else {
            total - 1
        };
        let ghost prev = kept_marks(mv, total as int, i as nat);
        if end >= start {
            let text = &marks[i].1;
            let kind = classify_section_kind(text.as_str());
            let progression = build_chord_progression(chords.as_slice(), start, end);
            let color = String::from_str(kind.default_color());
            let ghost old_sections = sections@;
            sections.push(Section::new(kind, text.clone(), start, end, progression, color));
            proof {
                assert(kept_marks(mv, total as int, (i + 1) as nat) == prev.push(i as int));
                assert forall|k: int| 0 <= k < sections@.len() implies section_matches(
                    #[trigger] sections@[k],
                    mv[kept_marks(mv, total as int, (i + 1) as nat)[k]],
                    section_end(mv, total as int, kept_marks(mv, total as int, (i + 1) as nat)[k]),
                    chord_views(ms),
                ) by {
                    if k < old_sections.len() {
                        assert(sections@[k] == old_sections[k]);
                    }
                }
            }
        } else {
            proof {
                assert(kept_marks(mv, total as int, (i + 1) as nat) == prev);
            }
        }
        i = i + 1;
    }
    sections
}

// ── The theme of a score ─────────────────────────────────────────

/// Name of the theme of `score`: its title, or `default_name` when the
/// title is empty.
pub open spec fn theme_name(score: Score, default_name: Seq<char>) -> Seq<char> {
    if score.title@.len() == 0 { default_name } else { score.title@ }
}

/// `sec` is the one section of a score without rehearsal marks: a custom
/// section labelled with the title over all `n` measures.
pub open spec fn whole_score_section(sec: Section, score: Score, n: int) -> bool {
    &&& sec.kind == SectionKind::Custom
    &&& sec.label@ == score.title@
    &&& sec.start_measure == 0
    &&& sec.end_measure == n - 1
    &&& progression_view(sec.progression) == spec_progression(chord_views(score_measures(score)), 0, n - 1)
    &&& sec.color@ == section_color(SectionKind::Custom)
}

/// `t` is the theme read from `score`: named by `theme_name`, with the
/// sections of its rehearsal marks or, without marks, one section over the
/// whole score.
pub open spec fn theme_matches(t: Theme, score: Score, default_name: Seq<char>) -> bool {
    &&& t.name@ == theme_name(score, default_name)
    &&& if section_marks(score).len() > 0 {
        sections_match(t.sections@, score)
    } else {
        &&& t.sections@.len() == 1
        &&& whole_score_section(t.sections@[0], score, score_measures(score).len() as int)
    }
}

/// The theme map of a score: its sections from the rehearsal marks, or one
/// section spanning the whole score when it has none; nothing for a score
/// without measures.
pub fn score_theme(score: &Score, default_name: &str) -> (r: Option<Theme>)
    requires
        score_measures(*score).len() <= u32::MAX,
    ensures
        r is None <==> score_measures(*score).len() == 0,
        r matches Some(t) ==> theme_matches(t, *score, default_name@),
{
    let ghost ms = score_measures(*score);
    let sections = detect_sections_from_score(score);
    let chords = collect_chord_symbols(score);
    let total = chords.len();
    proof {
        assert(opt_strings_view(chords@).len() == chord_views(ms).len());
        assert(total == ms.len());
    }
    let name = if score.title.as_str().is_empty() {
        String::from_str(default_name)
    } else {
        score.title.clone()
    };
    if sections.len() > 0 {
        proof {
            assert(ms.len() > 0);
        }
        return Some(Theme { name, sections });
    }
    if total == 0 {
        return None;
    }
    let progression = build_chord_progression(chords.as_slice(), 0, total - 1);
    let section = Section::new(
        SectionKind::Custom,
        score.title.clone(),
        0,
        total - 1,
        progression,
        String::from_str(SectionKind::Custom.default_color()),
    );
    let mut secs: Vec<Section> = Vec::new();
    secs.push(section);
    Some(Theme { name, sections: secs })
}

// ── Chord labels of a section ────────────────────────────────────

/// The chord of each measure a progression covers, in order.
pub open spec fn expand_progression(steps: Seq<(Seq<char>, nat)>) -> Seq<Seq<char>>
    decreases steps.len(),
{
    if steps.len() == 0 {
        Seq::empty()
    } else {
        expand_progression(steps.drop_last()) + Seq::new(steps.last().1, |_i: int| steps.last().0)
    }
}

/// The chord of measure `m` of a section whose measures carry `flat`; none
/// outside it.
pub open spec fn chord_of_measure(flat: Seq<Seq<char>>, m: int) -> Option<Seq<char>> {
    if 0 <= m < flat.len() { Some(flat[m]) } else { None }
}

/// The label of measure `m`: its chord where the chord changes there.
pub open spec fn chord_label(flat: Seq<Seq<char>>, m: int) -> Option<Seq<char>> {
    let c = chord_of_measure(flat, m);
    if c is Some && c != chord_of_measure(flat, m - 1) { c } else { None }
}

pub open spec fn strs_view(v: Seq<&str>) -> Seq<Seq<char>> {
    v.map_values(|t: &str| t@)
}

/// The chords of the first `n` measures covered by `p` (fewer when `p`
/// covers fewer).
fn expand_chords(p: &ChordProgression, n: usize) -> (flat: Vec<&str>)
    ensures
        strs_view(flat@) == expand_progression(progression_view(*p)).take(flat@.len() as int),
        flat@.len() <= n,
        flat@.len() <= expand_progression(progression_view(*p)).len(),
        flat@.len() < n ==> flat@.len() == expand_progression(progression_view(*p)).len(),
{
    let ghost pv = progression_view(*p);
    let steps = &p.chords;
    let len = steps.len();
    let mut flat: Vec<&str> = Vec::new();
    let mut i: usize = 0;
    while i < len && flat.len() < n
        invariant
            len == steps@.len(),
            pv == progression_view(*p),
            steps == &p.chords,
            pv.len() == len,
            i <= len,
            flat@.len() <= n,
            flat@.len() <= expand_progression(pv.take(i as int)).len(),
            strs_view(flat@) == expand_progression(pv.take(i as int)).take(flat@.len() as int),
            flat@.len() < n ==> flat@.len() == expand_progression(pv.take(i as int)).len(),
        decreases len - i,
    {
        let sym = steps[i].symbol.0.as_str();
        let count = steps[i].measures;
        let ghost e = expand_progression(pv.take(i as int));
        proof {
            assert(pv[i as int] == (sym@, count as nat));
            assert(pv.take(i + 1).drop_last() =~= pv.take(i as int));
            assert(pv.take(i + 1).last() == pv[i as int]);
        }
        let mut j: u32 = 0;
        while j < count && flat.len() < n
            invariant
                flat@.len() <= n,
                j <= count,
                flat@.len() <= e.len() + j,
                strs_view(flat@) == (e + Seq::new(j as nat, |_k: int| sym@)).take(flat@.len() as int),
                flat@.len() < n ==> flat@.len() == e.len() + j,
            decreases count - j,
        {
            let ghost before = flat@;
            flat.push(sym);
            proof {
                assert(flat@.len() == e.len() + j + 1);
                assert(strs_view(flat@) =~= (e + Seq::new((j + 1) as nat, |_k: int| sym@)).take(flat@.len() as int)) by {
                    assert(strs_view(flat@) =~= strs_view(before).push(sym@));
                }
            }
            j = j + 1;
        }
        proof {
            let full = e + Seq::new(count as nat, |_k: int| sym@);
            assert(expand_progression(pv.take(i + 1)) == full);
            if flat@.len() < n {
                assert(j == count);
                assert(e + Seq::new(j as nat, |_k: int| sym@) =~= full);
            } else {
                assert((e + Seq::new(j as nat, |_k: int| sym@)).take(flat@.len() as int) =~= full.take(flat@.len() as int));
            }
        }
        i = i + 1;
    }
    proof {
        if flat@.len() < n {
            assert(i == len);
        }
        if i == len {
            assert(pv.take(len as int) =~= pv);
        } else {
            lemma_expand_prefix(pv, i as int);
            assert(expand_progression(pv.take(i as int)).take(flat@.len() as int) =~= expand_progression(pv).take(flat@.len() as int));
        }
    }
    flat
}

proof fn lemma_expand_prefix(steps: Seq<(Seq<char>, nat)>, i: int)
    requires
        0 <= i <= steps.len(),
    ensures
        expand_progression(steps.take(i)).len() <= expand_progression(steps).len(),
        forall|k: int| 0 <= k < expand_progression(steps.take(i)).len() ==>
            #[trigger] expand_progression(steps.take(i))[k] == expand_progression(steps)[k],
    decreases steps.len() - i,
{
    if i < steps.len() {
        lemma_expand_prefix(steps, i + 1);
        let a = steps.take(i + 1);
        assert(a.drop_last() =~= steps.take(i));
        assert(expand_progression(a) == expand_progression(steps.take(i)) + Seq::new(a.last().1, |_k: int| a.last().0));
        assert forall|k: int| 0 <= k < expand_progression(steps.take(i)).len() implies
            #[trigger] expand_progression(steps.take(i))[k] == expand_progression(steps)[k] by {
            assert(expand_progression(a)[k] == expand_progression(steps.take(i))[k]);
        }
    } else {
        assert(steps.take(i) =~= steps);
    }
}

fn chord_at_measure<'a>(flat: &Vec<&'a str>, m: usize) -> (c: Option<&'a str>)
    ensures
        ostr(c) == chord_of_measure(strs_view(flat@), m as int),
{
    if m < flat.len() { Some(flat[m]) } else { None }
}

/// The labels shown on the `n` measures of a section with progression `p`:
/// a measure shows its chord where the chord changes, and nothing else.
pub fn chord_labels(p: &ChordProgression, n: usize) -> (r: Vec<Option<String>>)
    ensures
        r@.len() == n,
        forall|m: int| 0 <= m < n ==> opt_view(#[trigger] r@[m]) == chord_label(expand_progression(progression_view(*p)), m),
{
    let flat = expand_chords(p, n);
    let ghost full = expand_progression(progression_view(*p));
    let ghost fv = strs_view(flat@);
    proof {
        assert forall|m: int| 0 <= m < n implies #[trigger] chord_of_measure(fv, m) == chord_of_measure(full, m) by {
            if m < flat@.len() {
                assert(fv[m] == full.take(flat@.len() as int)[m]);
            }
        }
    }
    let mut r: Vec<Option<String>> = Vec::new();
    let mut m: usize = 0;
    while m < n
        invariant
            fv == strs_view(flat@),
            forall|k: int| 0 <= k < n ==> #[trigger] chord_of_measure(fv, k) == chord_of_measure(full, k),
            m <= n,
            r@.len() == m,
            forall|k: int| 0 <= k < m ==> opt_view(#[trigger] r@[k]) == chord_label(full, k),
        decreases n - m,
    {
        let c = chord_at_measure(&flat, m);
        let prev = if m > 0 { chord_at_measure(&flat, m - 1) } else { None };
        proof {
            if m == 0 {
                assert(chord_of_measure(full, -1) is None);
            }
            assert(chord_of_measure(fv, m as int) == chord_of_measure(full, m as int));
        }
        let label = match c {
            Some(t) => if ostr_eq(c, prev) { None } else { Some(String::from_str(t)) },
            None => None,
        };
        let ghost old_r = r@;
        r.push(label);
        proof {
            assert forall|k: int| 0 <= k < m + 1 implies opt_view(#[trigger] r@[k]) == chord_label(full, k) by {
                if k < m {
                    assert(r@[k] == old_r[k]);
                }
            }
        }
        m = m + 1;
    }
    r
}

} // verus!
