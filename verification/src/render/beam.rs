use vstd::prelude::*;
use crate::notation::figure::{figure_duration, figure_flags};
use crate::notation::measure::MeasureElement;

verus! {

/// A run of notes joined by one beam.
#[derive(Clone, Copy, PartialEq, Eq, Debug, Structural)]
pub struct BeamGroup {
    /// Index of the first element of the run.
    pub start_idx: usize,
    /// Index of the last element of the run (inclusive).
    pub end_idx: usize,
    /// Beam level (0 = eighth beam, 1 = sixteenth beam, ...).
    pub level: u8,
}

/// A note that takes part in beaming: flagged (eighth or shorter) and not a
/// grace note. Rests, chords, backups and forwards break a beam.
pub open spec fn is_beamable(e: MeasureElement) -> bool {
    match e {
        MeasureElement::Note(n) => figure_flags(n.figure) > 0 && !n.grace,
        _ => false,
    }
}

/// Flag count of a beamable element.
pub open spec fn beam_flags(e: MeasureElement) -> int {
    match e {
        MeasureElement::Note(n) => figure_flags(n.figure),
        _ => 0,
    }
}

/// Length of a beamable element in divisions, at least 1.
pub open spec fn beam_duration(e: MeasureElement, divs: int) -> int {
    match e {
        MeasureElement::Note(n) => {
            let d = figure_duration(n.figure, divs);
            if d == 0 { 1 } else { d }
        },
        _ => 0,
    }
}

/// Divisions actually used for beaming: 0 means 4.
pub open spec fn beat_divisions(divisions: u32) -> int {
    if divisions == 0 { 4 } else { divisions as int }
}

/// The beam groups of a closed run from `start` to `end`: one group per beam
/// level, none when the run holds a single note.
pub open spec fn run_groups(start: int, end: int, max_flags: int) -> Seq<BeamGroup> {
    if end > start {
        Seq::new(max_flags as nat, |l: int| BeamGroup { start_idx: start as usize, end_idx: end as usize, level: l as u8 })
    } else {
        Seq::empty()
    }
}

/// Scan state after reading the elements `es` from left to right:
/// (start of the open run, its maximal flag count, divisions accumulated in
/// it, groups closed so far). A run is closed by a non-beamable element, or
/// when the next beamable note would start on a beat (the accumulated length
/// is a positive multiple of a beat).
pub open spec fn beam_scan(es: Seq<MeasureElement>, divs: int) -> (Option<int>, int, int, Seq<BeamGroup>)
    decreases es.len(),
{
    if es.len() == 0 {
        (None, 0, 0, Seq::empty())
    } else {
        let prev = beam_scan(es.drop_last(), divs);
        let start = prev.0;
        let max_flags = prev.1;
        let acc = prev.2;
        let groups = prev.3;
        let i = es.len() - 1;
        let e = es.last();
        if is_beamable(e) {
            let fc = beam_flags(e);
            let d = beam_duration(e, divs);
            if start is Some && acc > 0 && acc % divs == 0 {
                (Some(i), fc, d, groups + run_groups(start.unwrap(), i - 1, max_flags))
            } else if start is None {
                (Some(i), fc, d, groups)
            } else {
                (start, if fc > max_flags { fc } else { max_flags }, acc + d, groups)
            }
        } else {
            match start {
                Some(s) => (None, 0, 0, groups + run_groups(s, i - 1, max_flags)),
                None => prev,
            }
        }
    }
}

/// All beam groups of a measure: the scan's groups plus the last open run.
pub open spec fn spec_compute_beams(es: Seq<MeasureElement>, divisions: u32) -> Seq<BeamGroup> {
    let st = beam_scan(es, beat_divisions(divisions));
    match st.0 {
        Some(s) => st.3 + run_groups(s, es.len() - 1, st.1),
        None => st.3,
    }
}

/// A beam group is well formed for `es`: it spans at least two elements,
/// all of them beamable notes, and its level is below the flag count of one
/// of them.
pub open spec fn group_well_formed(es: Seq<MeasureElement>, g: BeamGroup) -> bool {
    &&& g.start_idx < g.end_idx < es.len()
    &&& forall|k: int| g.start_idx <= k <= g.end_idx ==> is_beamable(#[trigger] es[k])
    &&& exists|k: int| g.start_idx <= k <= g.end_idx && g.level < beam_flags(#[trigger] es[k])
}

/// State invariant of the scan over `es`.
pub open spec fn scan_inv(es: Seq<MeasureElement>, st: (Option<int>, int, int, Seq<BeamGroup>)) -> bool {
    &&& (forall|j: int| 0 <= j < st.3.len() ==> group_well_formed(es, #[trigger] st.3[j]))
    &&& match st.0 {
        Some(s) => {
            &&& 0 <= s < es.len()
            &&& (forall|k: int| s <= k < es.len() ==> is_beamable(#[trigger] es[k]))
            &&& exists|k: int| s <= k < es.len() && st.1 == beam_flags(#[trigger] es[k])
        },
        None => true,
    }
}

proof fn lemma_flags_range(e: MeasureElement)
    requires
        is_beamable(e),
    ensures
        1 <= beam_flags(e) <= 5,
{
}

proof fn lemma_run_groups_wf(es: Seq<MeasureElement>, s: int, end: int, maxf: int)
    requires
        0 <= s,
        end < es.len(),
        es.len() <= usize::MAX,
        forall|k: int| s <= k <= end ==> is_beamable(#[trigger] es[k]),
        exists|k: int| s <= k <= end && maxf == beam_flags(#[trigger] es[k]),
    ensures
        forall|j: int| 0 <= j < run_groups(s, end, maxf).len() ==> group_well_formed(es, #[trigger] run_groups(s, end, maxf)[j]),
{
    if end > s {
        let k0 = choose|k: int| s <= k <= end && maxf == beam_flags(#[trigger] es[k]);
        lemma_flags_range(es[k0]);
        assert forall|j: int| 0 <= j < run_groups(s, end, maxf).len() implies group_well_formed(es, #[trigger] run_groups(s, end, maxf)[j]) by {
            let g = run_groups(s, end, maxf)[j];
            assert(g.level == j);
            assert(g.start_idx == s && g.end_idx == end);
            assert(g.level < beam_flags(es[k0]));
        }
    }
}

proof fn lemma_group_extend(es: Seq<MeasureElement>, g: BeamGroup)
    requires
        es.len() > 0,
        group_well_formed(es.drop_last(), g),
    ensures
        group_well_formed(es, g),
{
    let k0 = choose|k: int| g.start_idx <= k <= g.end_idx && g.level < beam_flags(#[trigger] es.drop_last()[k]);
    assert(es[k0] == es.drop_last()[k0]);
    assert forall|k: int| g.start_idx <= k <= g.end_idx implies is_beamable(#[trigger] es[k]) by {
        assert(es[k] == es.drop_last()[k]);
    }
}

/// Every state reached by the scan satisfies the invariant.
proof fn lemma_beam_scan_inv(es: Seq<MeasureElement>, divs: int)
    requires
        divs > 0,
        es.len() <= usize::MAX,
    ensures
        scan_inv(es, beam_scan(es, divs)),
    decreases es.len(),
{
    if es.len() > 0 {
        let pre = es.drop_last();
        lemma_beam_scan_inv(pre, divs);
        let prev = beam_scan(pre, divs);
        let st = beam_scan(es, divs);
        let i = es.len() - 1;
        assert forall|j: int| 0 <= j < prev.3.len() implies group_well_formed(es, #[trigger] prev.3[j]) by {
            lemma_group_extend(es, prev.3[j]);
        }
        if let Some(s) = prev.0 {
            assert forall|k: int| s <= k < i implies is_beamable(#[trigger] es[k]) by {
                assert(es[k] == pre[k]);
            }
            let k0 = choose|k: int| s <= k < pre.len() && prev.1 == beam_flags(#[trigger] pre[k]);
            assert(es[k0] == pre[k0]);
            let closes = !is_beamable(es.last()) || (prev.2 > 0 && prev.2 % divs == 0);
            if closes {
                lemma_run_groups_wf(es, s, i - 1, prev.1);
                let rg = run_groups(s, i - 1, prev.1);
                assert forall|j: int| 0 <= j < st.3.len() implies group_well_formed(es, #[trigger] st.3[j]) by {
                    if j < prev.3.len() {
                        assert(st.3[j] == prev.3[j]);
                    } else {
                        assert(st.3[j] == rg[j - prev.3.len()]);
                    }
                }
            } else {
                let fc = beam_flags(es.last());
                if fc > prev.1 {
                    assert(st.1 == beam_flags(es[i]));
                } else {
                    assert(st.1 == beam_flags(es[k0]));
                }
            }
        }
        if is_beamable(es.last()) {
            if st.0 == Some(i) {
                assert(st.1 == beam_flags(es[i]));
            }
        }
    }
}

/// Law: every beam group computed for a measure is well formed.
pub proof fn lemma_beams_well_formed(es: Seq<MeasureElement>, divisions: u32)
    requires
        es.len() <= usize::MAX,
    ensures
        forall|j: int| 0 <= j < spec_compute_beams(es, divisions).len() ==> group_well_formed(es, #[trigger] spec_compute_beams(es, divisions)[j]),
{
    let divs = beat_divisions(divisions);
    lemma_beam_scan_inv(es, divs);
    let st = beam_scan(es, divs);
    if let Some(s) = st.0 {
        lemma_run_groups_wf(es, s, es.len() - 1, st.1);
        let rg = run_groups(s, es.len() - 1, st.1);
        let r = spec_compute_beams(es, divisions);
        assert forall|j: int| 0 <= j < r.len() implies group_well_formed(es, #[trigger] r[j]) by {
            if j < st.3.len() {
                assert(r[j] == st.3[j]);
            } else {
                assert(r[j] == rg[j - st.3.len()]);
            }
        }
    }
}

/// `gs` holds a group over `s..=e` at beam level `l`.
pub open spec fn has_group(gs: Seq<BeamGroup>, s: int, e: int, l: int) -> bool {
    exists|j: int| 0 <= j < gs.len() && #[trigger] gs[j] == (BeamGroup { start_idx: s as usize, end_idx: e as usize, level: l as u8 })
}

/// Every beam level of every note the groups `gs` span is drawn over that
/// span: a note with `f` flags inside a group's run lies under beams of
/// levels `0 .. f` of that run.
pub open spec fn levels_complete(es: Seq<MeasureElement>, gs: Seq<BeamGroup>) -> bool {
    forall|j: int, k: int|
        #![trigger gs[j], es[k]]
        0 <= j < gs.len() && gs[j].start_idx <= k <= gs[j].end_idx ==>
            forall|l: int| 0 <= l < beam_flags(es[k]) ==> #[trigger] has_group(gs, gs[j].start_idx as int, gs[j].end_idx as int, l)
}

proof fn lemma_has_group_concat(a: Seq<BeamGroup>, b: Seq<BeamGroup>, s: int, e: int, l: int)
    ensures
        has_group(a, s, e, l) ==> has_group(a + b, s, e, l),
        has_group(b, s, e, l) ==> has_group(a + b, s, e, l),
{
    if has_group(a, s, e, l) {
        let j = choose|j: int| 0 <= j < a.len() && #[trigger] a[j] == (BeamGroup { start_idx: s as usize, end_idx: e as usize, level: l as u8 });
        assert((a + b)[j] == a[j]);
    }
    if has_group(b, s, e, l) {
        let j = choose|j: int| 0 <= j < b.len() && #[trigger] b[j] == (BeamGroup { start_idx: s as usize, end_idx: e as usize, level: l as u8 });
        assert((a + b)[a.len() + j] == b[j]);
    }
}

proof fn lemma_levels_concat(es: Seq<MeasureElement>, a: Seq<BeamGroup>, b: Seq<BeamGroup>)
    requires
        levels_complete(es, a),
        levels_complete(es, b),
    ensures
        levels_complete(es, a + b),
{
    let c = a + b;
    assert forall|j: int, k: int|
        #![trigger c[j], es[k]]
        0 <= j < c.len() && c[j].start_idx <= k <= c[j].end_idx implies
        (forall|l: int| 0 <= l < beam_flags(es[k]) ==> #[trigger] has_group(c, c[j].start_idx as int, c[j].end_idx as int, l)) by {
        assert forall|l: int| 0 <= l < beam_flags(es[k]) implies #[trigger] has_group(c, c[j].start_idx as int, c[j].end_idx as int, l) by {
            if j < a.len() {
                assert(c[j] == a[j]);
                assert(has_group(a, a[j].start_idx as int, a[j].end_idx as int, l));
                lemma_has_group_concat(a, b, a[j].start_idx as int, a[j].end_idx as int, l);
            } else {
                assert(c[j] == b[j - a.len()]);
                assert(has_group(b, b[j - a.len()].start_idx as int, b[j - a.len()].end_idx as int, l));
                lemma_has_group_concat(a, b, b[j - a.len()].start_idx as int, b[j - a.len()].end_idx as int, l);
            }
        }
    }
}

proof fn lemma_run_groups_complete(es: Seq<MeasureElement>, s: int, end: int, maxf: int)
    requires
        0 <= s,
        end < es.len(),
        es.len() <= usize::MAX,
        0 <= maxf <= 255,
        forall|k: int| s <= k <= end ==> beam_flags(#[trigger] es[k]) <= maxf,
    ensures
        levels_complete(es, run_groups(s, end, maxf)),
{
    let rg = run_groups(s, end, maxf);
    assert forall|j: int, k: int|
        #![trigger rg[j], es[k]]
        0 <= j < rg.len() && rg[j].start_idx <= k <= rg[j].end_idx implies
        (forall|l: int| 0 <= l < beam_flags(es[k]) ==> #[trigger] has_group(rg, rg[j].start_idx as int, rg[j].end_idx as int, l)) by {
        assert(rg[j].start_idx == s && rg[j].end_idx == end);
        assert forall|l: int| 0 <= l < beam_flags(es[k]) implies #[trigger] has_group(rg, rg[j].start_idx as int, rg[j].end_idx as int, l) by {
            assert(rg[l] == (BeamGroup { start_idx: s as usize, end_idx: end as usize, level: l as u8 }));
        }
    }
}

proof fn lemma_levels_extend(es: Seq<MeasureElement>, gs: Seq<BeamGroup>)
    requires
        es.len() > 0,
        levels_complete(es.drop_last(), gs),
        forall|j: int| 0 <= j < gs.len() ==> group_well_formed(es.drop_last(), #[trigger] gs[j]),
    ensures
        levels_complete(es, gs),
{
    let pre = es.drop_last();
    assert forall|j: int, k: int|
        #![trigger gs[j], es[k]]
        0 <= j < gs.len() && gs[j].start_idx <= k <= gs[j].end_idx implies
        (forall|l: int| 0 <= l < beam_flags(es[k]) ==> #[trigger] has_group(gs, gs[j].start_idx as int, gs[j].end_idx as int, l)) by {
        assert(group_well_formed(pre, gs[j]));
        assert(es[k] == pre[k]);
    }
}

/// The scan keeps its groups complete in levels, and the open run's flag
/// count is the greatest of its notes.
proof fn lemma_beam_scan_levels(es: Seq<MeasureElement>, divs: int)
    requires
        divs > 0,
        es.len() <= usize::MAX,
    ensures
        levels_complete(es, beam_scan(es, divs).3),
        beam_scan(es, divs).0 matches Some(s) ==> forall|k: int| s <= k < es.len() ==> beam_flags(#[trigger] es[k]) <= beam_scan(es, divs).1,
        beam_scan(es, divs).0 matches Some(s) ==> 0 <= beam_scan(es, divs).1 <= 5,
    decreases es.len(),
{
    lemma_beam_scan_inv(es, divs);
    if es.len() > 0 {
        let pre = es.drop_last();
        lemma_beam_scan_levels(pre, divs);
        lemma_beam_scan_inv(pre, divs);
        let prev = beam_scan(pre, divs);
        let st = beam_scan(es, divs);
        let i = es.len() - 1;
        lemma_levels_extend(es, prev.3);
        if is_beamable(es.last()) {
            lemma_flags_range(es.last());
        }
        if let Some(s) = prev.0 {
            assert forall|k: int| s <= k < i implies beam_flags(#[trigger] es[k]) <= prev.1 by {
                assert(es[k] == pre[k]);
            }
            let closes = !is_beamable(es.last()) || (prev.2 > 0 && prev.2 % divs == 0);
            if closes {
                lemma_run_groups_complete(es, s, i - 1, prev.1);
                lemma_levels_concat(es, prev.3, run_groups(s, i - 1, prev.1));
            }
        }
    }
}

/// Law of beam levels: in the beam groups of a measure, each note under a
/// group lies under one group per flag it carries, all over the same run:
/// a run of thirty-second notes gets beams of levels 0, 1 and 2.
pub proof fn lemma_beams_cover_flags(es: Seq<MeasureElement>, divisions: u32)
    requires
        es.len() <= usize::MAX,
    ensures
        levels_complete(es, spec_compute_beams(es, divisions)),
{
    let divs = beat_divisions(divisions);
    lemma_beam_scan_levels(es, divs);
    lemma_beam_scan_inv(es, divs);
    let st = beam_scan(es, divs);
    if let Some(s) = st.0 {
        lemma_run_groups_complete(es, s, es.len() - 1, st.1);
        lemma_levels_concat(es, st.3, run_groups(s, es.len() - 1, st.1));
    }
}

fn push_run(groups: &mut Vec<BeamGroup>, start: usize, end: usize, max_flags: u8)
    ensures
        final(groups)@ == old(groups)@ + run_groups(start as int, end as int, max_flags as int),
{
    if end > start {
        let ghost g0 = groups@;
        let mut level: u8 = 0;
        while level < max_flags
            invariant
                level <= max_flags,
                end > start,
                groups@ == g0 + run_groups(start as int, end as int, max_flags as int).take(level as int),
            decreases max_flags - level,
        {
            groups.push(BeamGroup { start_idx: start, end_idx: end, level });
            proof {
                let rg = run_groups(start as int, end as int, max_flags as int);
                assert(rg.take(level + 1) =~= rg.take(level as int).push(rg[level as int]));
            }
            level = level + 1;
        }
        proof {
            let rg = run_groups(start as int, end as int, max_flags as int);
            assert(rg.take(max_flags as int) =~= rg);
        }
    } else {
        assert(groups@ =~= old(groups)@ + run_groups(start as int, end as int, max_flags as int));
    }
}

/// The length accumulated in the open run never exceeds `u32::MAX` while the
/// elements are read (beyond it a `u32` count of divisions overflows).
pub open spec fn beams_fit(es: Seq<MeasureElement>, divisions: u32) -> bool {
    forall|i: int| 0 <= i <= es.len() ==> #[trigger] beam_scan(es.take(i), beat_divisions(divisions)).2 <= u32::MAX
}

/// Whether `compute_beams` can count the runs of `elements` in `u32`
/// divisions.
pub fn beams_fit_check(elements: &[MeasureElement], divisions: u32) -> (b: bool)
    ensures
        b == beams_fit(elements@, divisions),
{
    let divs: u32 = if divisions == 0 { 4 } else { divisions };
    let n = elements.len();
    let ghost es = elements@;
    let mut open = false;
    let mut acc: u64 = 0;
    let mut i: usize = 0;
    proof {
        assert(es.take(0) =~= Seq::<MeasureElement>::empty());
    }
    while i < n
        invariant
            n == es.len(),
            es == elements@,
            divs as int == beat_divisions(divisions),
            divs > 0,
            i <= n,
            ({
                let st = beam_scan(es.take(i as int), divs as int);
                &&& (st.0 is Some) == open
                &&& st.2 == acc as int
            }),
            acc <= u32::MAX,
            forall|j: int| 0 <= j <= i ==> #[trigger] beam_scan(es.take(j), divs as int).2 <= u32::MAX,
        decreases n - i,
    {
        proof {
            assert(es.take(i + 1).drop_last() =~= es.take(i as int));
            assert(es.take(i + 1).last() == es[i as int]);
        }
        match &elements[i] {
            MeasureElement::Note(note) if note.figure.flag_count() > 0 && !note.grace => {
                let dur = note.figure.duration_divisions(divs);
                let effective_dur: u64 = if dur == 0 { 1 } else { dur as u64 };
                if open && acc > 0 && acc % (divs as u64) == 0 {
                    acc = effective_dur;
                } else if !open {
                    open = true;
                    acc = effective_dur;
                } else {
                    acc = acc + effective_dur;
                }
            },
            _ => {
                if open {
                    open = false;
                    acc = 0;
                }
            },
        }
        if acc > 0xFFFF_FFFF {
            proof {
                assert(beam_scan(es.take(i + 1), divs as int).2 > u32::MAX);
                assert(0 <= i + 1 <= es.len());
            }
            return false;
        }
        i = i + 1;
    }
    proof {
        assert(es.take(n as int) =~= es);
    }
    true
}

/// Groups consecutive flagged notes (eighths or shorter) into beam groups,
/// breaking at beats: a beat is `divisions` units (a quarter note), so in 4/4
/// eighth notes are beamed in pairs. Rests, chords, grace notes,
/// backups/forwards and unflagged notes break the run. A run of `n`-flag notes
/// yields one group per beam level.
pub fn compute_beams(elements: &[MeasureElement], divisions: u32) -> (groups: Vec<BeamGroup>)
    requires
        beams_fit(elements@, divisions),
    ensures
        groups@ == spec_compute_beams(elements@, divisions),
        forall|j: int| 0 <= j < groups@.len() ==> group_well_formed(elements@, #[trigger] groups@[j]),
        levels_complete(elements@, groups@),
{
    let mut groups: Vec<BeamGroup> = Vec::new();
    let mut current_start: Option<usize> = None;
    let mut max_flags: u8 = 0;
    let mut accumulated: u32 = 0;
    let divs: u32 = if divisions == 0 { 4 } else { divisions };
    let n = elements.len();
    let ghost es = elements@;

    let mut i: usize = 0;
    while i < n
        invariant
            n == es.len(),
            es == elements@,
            divs as int == beat_divisions(divisions),
            divs > 0,
            beams_fit(es, divisions),
            i <= n,
            ({
                let st = beam_scan(es.take(i as int), divs as int);
                &&& st.0 == (match current_start { Some(s) => Some(s as int), None => None::<int> })
                &&& st.1 == max_flags as int
                &&& st.2 == accumulated as int
                &&& st.3 == groups@
            }),
            current_start matches Some(s) ==> s < i,
        decreases n - i,
    {
        proof {
            assert(es.take(i + 1).drop_last() =~= es.take(i as int));
            assert(es.take(i + 1).last() == es[i as int]);
            assert(beam_scan(es.take(i + 1), divs as int).2 <= u32::MAX);
        }
        match &elements[i] {
            MeasureElement::Note(note) if note.figure.flag_count() > 0 && !note.grace => {
                let fc = note.figure.flag_count();
                let dur = note.figure.duration_divisions(divs);
                let effective_dur = if dur == 0 { 1 } else { dur };
                assert(effective_dur <= divs) by {
                    assert(figure_duration(note.figure, divs as int) <= divs);
                }
                if current_start.is_some() && accumulated > 0 && accumulated % divs == 0 {
                    let s = current_start.unwrap();
                    push_run(&mut groups, s, i - 1, max_flags);
                    current_start = Some(i);
                    max_flags = fc;
                    accumulated = effective_dur;
                } else if current_start.is_none() {
                    current_start = Some(i);
                    max_flags = fc;
                    accumulated = effective_dur;
                } else {
                    max_flags = if fc > max_flags { fc } else { max_flags };
                    accumulated = accumulated + effective_dur;
                }
            },
            _ => {
                if let Some(start) = current_start {
                    push_run(&mut groups, start, i - 1, max_flags);
                    current_start = None;
                    max_flags = 0;
                    accumulated = 0;
                }
            },
        }
        i = i + 1;
    }
    proof {
        assert(es.take(n as int) =~= es);
    }
    if let Some(start) = current_start {
        push_run(&mut groups, start, n - 1, max_flags);
    }
    proof {
        lemma_beams_well_formed(es, divisions);
        lemma_beams_cover_flags(es, divisions);
    }
    groups
}

} // verus!
