//! Marks that join notes: ties, slurs and glissandos pair a starting note
//! with the first later note that ends them; tuplet brackets cover runs of
//! consecutive tuplet notes. The notes are the attached-to notes of a line,
//! in order, given by their attachments.

use vstd::prelude::*;
use crate::notation::attachment::{
    GlissandoKind, NoteAttachment, Placement, Slur, SlurKind, Tie, TieKind,
};

verus! {

// ── Ties ─────────────────────────────────────────────────────────

/// `a` ends a tie numbered `num`.
pub open spec fn has_tie_stop(a: NoteAttachment, num: u8) -> bool {
    exists|k: int| 0 <= k < a.ties@.len() && (#[trigger] a.ties@[k]).kind == TieKind::Stop && a.ties@[k].number == num
}

/// The first note at or after `j` that ends a tie numbered `num`.
pub open spec fn tie_stop_from(atts: Seq<NoteAttachment>, j: int, num: u8) -> Option<int>
    decreases atts.len() - j,
{
    if j < 0 || j >= atts.len() {
        None
    } else if has_tie_stop(atts[j], num) {
        Some(j)
    } else {
        tie_stop_from(atts, j + 1, num)
    }
}

/// The tie spans opened by the ties `ts` of note `i`.
pub open spec fn ties_of(atts: Seq<NoteAttachment>, i: int, ts: Seq<Tie>) -> Seq<(int, int)>
    decreases ts.len(),
{
    if ts.len() == 0 {
        Seq::empty()
    } else {
        ties_of(atts, i, ts.drop_last()) + if ts.last().kind == TieKind::Start {
            match tie_stop_from(atts, i + 1, ts.last().number) {
                Some(j) => seq![(i, j)],
                None => Seq::empty(),
            }
        } else {
            Seq::empty()
        }
    }
}

/// The tie spans of the first `n` notes: each starting tie, in order, with
/// the first later note that ends a tie of its number.
pub open spec fn tie_spans_upto(atts: Seq<NoteAttachment>, n: int) -> Seq<(int, int)>
    decreases n,
{
    if n <= 0 {
        Seq::empty()
    } else {
        tie_spans_upto(atts, n - 1) + ties_of(atts, n - 1, atts[n - 1].ties@)
    }
}

pub open spec fn spans_view(v: Seq<(usize, usize)>) -> Seq<(int, int)> {
    v.map_values(|p: (usize, usize)| (p.0 as int, p.1 as int))
}

fn ends_tie(a: &NoteAttachment, num: u8) -> (b: bool)
    ensures
        b == has_tie_stop(*a, num),
{
    let len = a.ties.len();
    let mut k: usize = 0;
    while k < len
        invariant
            len == a.ties@.len(),
            k <= len,
            forall|t: int| 0 <= t < k ==> !((#[trigger] a.ties@[t]).kind == TieKind::Stop && a.ties@[t].number == num),
        decreases len - k,
    {
        if a.ties[k].kind == TieKind::Stop && a.ties[k].number == num {
            return true;
        }
        k = k + 1;
    }
    false
}

fn find_tie_stop(atts: &[NoteAttachment], from: usize, num: u8) -> (r: Option<usize>)
    ensures
        match r {
            Some(j) => tie_stop_from(atts@, from as int, num) == Some(j as int),
            None => tie_stop_from(atts@, from as int, num) is None,
        },
{
    let len = atts.len();
    let mut j = from;
    while j < len
        invariant
            len == atts@.len(),
            from <= j,
            tie_stop_from(atts@, from as int, num) == tie_stop_from(atts@, j as int, num),
        decreases len - j,
    {
        if ends_tie(&atts[j], num) {
            return Some(j);
        }
        j = j + 1;
    }
    None
}

/// Pairs each starting tie with the first later note that ends a tie of
/// the same number, in the order of the starting notes and their ties.
pub fn tie_spans(atts: &[NoteAttachment]) -> (r: Vec<(usize, usize)>)
    ensures
        spans_view(r@) == tie_spans_upto(atts@, atts@.len() as int),
{
    let mut r: Vec<(usize, usize)> = Vec::new();
    let len = atts.len();
    let mut i: usize = 0;
    while i < len
        invariant
            len == atts@.len(),
            i <= len,
            spans_view(r@) == tie_spans_upto(atts@, i as int),
        decreases len - i,
    {
        let ts = &atts[i].ties;
        let tl = ts.len();
        let ghost base = spans_view(r@);
        let mut k: usize = 0;
        while k < tl
            invariant
                len == atts@.len(),
                i < len,
                ts == &atts@[i as int].ties,
                tl == ts@.len(),
                k <= tl,
                spans_view(r@) == base + ties_of(atts@, i as int, ts@.take(k as int)),
            decreases tl - k,
        {
            proof {
                assert(ts@.take(k + 1).drop_last() =~= ts@.take(k as int));
                assert(ts@.take(k + 1).last() == ts@[k as int]);
            }
            let t = ts[k];
            if t.kind == TieKind::Start {
                match find_tie_stop(atts, i + 1, t.number) {
                    Some(j) => {
                        let ghost before = r@;
                        r.push((i, j));
                        proof {
                            assert(spans_view(r@) =~= spans_view(before).push((i as int, j as int)));
                            assert(spans_view(r@) =~= base + ties_of(atts@, i as int, ts@.take(k + 1)));
                        }
                    },
                    None => {
                        proof {
                            assert(spans_view(r@) =~= base + ties_of(atts@, i as int, ts@.take(k + 1)));
                        }
                    },
                }
            } else {
                proof {
                    assert(spans_view(r@) =~= base + ties_of(atts@, i as int, ts@.take(k + 1)));
                }
            }
            k = k + 1;
        }
        proof {
            assert(ts@.take(tl as int) =~= ts@);
        }
        i = i + 1;
    }
    r
}

// ── Slurs ────────────────────────────────────────────────────────

/// `a` ends a slur numbered `num`.
pub open spec fn has_slur_stop(a: NoteAttachment, num: u8) -> bool {
    exists|k: int| 0 <= k < a.slurs@.len() && (#[trigger] a.slurs@[k]).kind == SlurKind::Stop && a.slurs@[k].number == num
}

/// The first note at or after `j` that ends a slur numbered `num`.
pub open spec fn slur_stop_from(atts: Seq<NoteAttachment>, j: int, num: u8) -> Option<int>
    decreases atts.len() - j,
{
    if j < 0 || j >= atts.len() {
        None
    } else if has_slur_stop(atts[j], num) {
        Some(j)
    } else {
        slur_stop_from(atts, j + 1, num)
    }
}

/// The slur spans opened by the slurs `ss` of note `i`, with the placement
/// of the opening slur.
pub open spec fn slurs_of(atts: Seq<NoteAttachment>, i: int, ss: Seq<Slur>) -> Seq<(int, int, Placement)>
    decreases ss.len(),
{
    if ss.len() == 0 {
        Seq::empty()
    } else {
        slurs_of(atts, i, ss.drop_last()) + if ss.last().kind == SlurKind::Start {
            match slur_stop_from(atts, i + 1, ss.last().number) {
                Some(j) => seq![(i, j, ss.last().placement)],
                None => Seq::empty(),
            }
        } else {
            Seq::empty()
        }
    }
}

/// The slur spans of the first `n` notes.
pub open spec fn slur_spans_upto(atts: Seq<NoteAttachment>, n: int) -> Seq<(int, int, Placement)>
    decreases n,
{
    if n <= 0 {
        Seq::empty()
    } else {
        slur_spans_upto(atts, n - 1) + slurs_of(atts, n - 1, atts[n - 1].slurs@)
    }
}

pub open spec fn placed_spans_view(v: Seq<(usize, usize, Placement)>) -> Seq<(int, int, Placement)> {
    v.map_values(|p: (usize, usize, Placement)| (p.0 as int, p.1 as int, p.2))
}

fn ends_slur(a: &NoteAttachment, num: u8) -> (b: bool)
    ensures
        b == has_slur_stop(*a, num),
{
    let len = a.slurs.len();
    let mut k: usize = 0;
    while k < len
        invariant
            len == a.slurs@.len(),
            k <= len,
            forall|t: int| 0 <= t < k ==> !((#[trigger] a.slurs@[t]).kind == SlurKind::Stop && a.slurs@[t].number == num),
        decreases len - k,
    {
        if a.slurs[k].kind == SlurKind::Stop && a.slurs[k].number == num {
            return true;
        }
        k = k + 1;
    }
    false
}

fn find_slur_stop(atts: &[NoteAttachment], from: usize, num: u8) -> (r: Option<usize>)
    ensures
        match r {
            Some(j) => slur_stop_from(atts@, from as int, num) == Some(j as int),
            None => slur_stop_from(atts@, from as int, num) is None,
        },
{
    let len = atts.len();
    let mut j = from;
    while j < len
        invariant
            len == atts@.len(),
            from <= j,
            slur_stop_from(atts@, from as int, num) == slur_stop_from(atts@, j as int, num),
        decreases len - j,
    {
        if ends_slur(&atts[j], num) {
            return Some(j);
        }
        j = j + 1;
    }
    None
}

/// Pairs each starting slur with the first later note that ends a slur of
/// the same number; each span keeps the placement of its opening slur.
pub fn slur_spans(atts: &[NoteAttachment]) -> (r: Vec<(usize, usize, Placement)>)
    ensures
        placed_spans_view(r@) == slur_spans_upto(atts@, atts@.len() as int),
{
    let mut r: Vec<(usize, usize, Placement)> = Vec::new();
    let len = atts.len();
    let mut i: usize = 0;
    while i < len
        invariant
            len == atts@.len(),
            i <= len,
            placed_spans_view(r@) == slur_spans_upto(atts@, i as int),
        decreases len - i,
    {
        let ss = &atts[i].slurs;
        let sl = ss.len();
        let ghost base = placed_spans_view(r@);
        let mut k: usize = 0;
        while k < sl
            invariant
                len == atts@.len(),
                i < len,
                ss == &atts@[i as int].slurs,
                sl == ss@.len(),
                k <= sl,
                placed_spans_view(r@) == base + slurs_of(atts@, i as int, ss@.take(k as int)),
            decreases sl - k,
        {
            proof {
                assert(ss@.take(k + 1).drop_last() =~= ss@.take(k as int));
                assert(ss@.take(k + 1).last() == ss@[k as int]);
            }
            let s = ss[k];
            if s.kind == SlurKind::Start {
                match find_slur_stop(atts, i + 1, s.number) {
                    Some(j) => {
                        let ghost before = r@;
                        r.push((i, j, s.placement));
                        proof {
                            assert(placed_spans_view(r@) =~= placed_spans_view(before).push((i as int, j as int, s.placement)));
                            assert(placed_spans_view(r@) =~= base + slurs_of(atts@, i as int, ss@.take(k + 1)));
                        }
                    },
                    None => {
                        proof {
                            assert(placed_spans_view(r@) =~= base + slurs_of(atts@, i as int, ss@.take(k + 1)));
                        }
                    },
                }
            } else {
                proof {
                    assert(placed_spans_view(r@) =~= base + slurs_of(atts@, i as int, ss@.take(k + 1)));
                }
            }
            k = k + 1;
        }
        proof {
            assert(ss@.take(sl as int) =~= ss@);
        }
        i = i + 1;
    }
    r
}

// ── Glissandos ───────────────────────────────────────────────────

pub open spec fn glissando_is(a: NoteAttachment, kind: GlissandoKind) -> bool {
    a.glissando matches Some(g) && g.kind == kind
}

/// The first note at or after `j` that ends a glissando.
pub open spec fn glissando_stop_from(atts: Seq<NoteAttachment>, j: int) -> Option<int>
    decreases atts.len() - j,
{
    if j < 0 || j >= atts.len() {
        None
    } else if glissando_is(atts[j], GlissandoKind::Stop) {
        Some(j)
    } else {
        glissando_stop_from(atts, j + 1)
    }
}

/// The glissando spans of the first `n` notes: each starting glissando with
/// the first later note that ends one.
pub open spec fn glissando_spans_upto(atts: Seq<NoteAttachment>, n: int) -> Seq<(int, int)>
    decreases n,
{
    if n <= 0 {
        Seq::empty()
    } else {
        glissando_spans_upto(atts, n - 1) + if glissando_is(atts[n - 1], GlissandoKind::Start) {
            match glissando_stop_from(atts, n) {
                Some(j) => seq![(n - 1, j)],
                None => Seq::empty(),
            }
        } else {
            Seq::empty()
        }
    }
}

fn is_glissando(a: &NoteAttachment, kind: GlissandoKind) -> (b: bool)
    ensures
        b == glissando_is(*a, kind),
{
    match &a.glissando {
        Some(g) => g.kind == kind,
        None => false,
    }
}

/// Pairs each starting glissando with the first later note that ends one.
pub fn glissando_spans(atts: &[NoteAttachment]) -> (r: Vec<(usize, usize)>)
    ensures
        spans_view(r@) == glissando_spans_upto(atts@, atts@.len() as int),
{
    let mut r: Vec<(usize, usize)> = Vec::new();
    let len = atts.len();
    let mut i: usize = 0;
    while i < len
        invariant
            len == atts@.len(),
            i <= len,
            spans_view(r@) == glissando_spans_upto(atts@, i as int),
        decreases len - i,
    {
        let ghost before = r@;
        if is_glissando(&atts[i], GlissandoKind::Start) {
            let mut j = i + 1;
            while j < len && !is_glissando(&atts[j], GlissandoKind::Stop)
                invariant
                    len == atts@.len(),
                    i < len,
                    i + 1 <= j <= len,
                    glissando_stop_from(atts@, i + 1) == glissando_stop_from(atts@, j as int),
                decreases len - j,
            {
                j = j + 1;
            }
            if j < len {
                r.push((i, j));
                proof {
                    assert(glissando_stop_from(atts@, i + 1) == Some(j as int));
                    assert(spans_view(r@) =~= spans_view(before).push((i as int, j as int)));
                }
            }
        }
        proof {
            assert(spans_view(r@) == glissando_spans_upto(atts@, i + 1));
        }
        i = i + 1;
    }
    r
}

// ── Tuplet brackets ──────────────────────────────────────────────

/// Last note of the run of tuplet notes that goes on from note `i`.
pub open spec fn tuplet_run_end(atts: Seq<NoteAttachment>, i: int) -> int
    decreases atts.len() - i,
{
    if 0 <= i && i + 1 < atts.len() && atts[i + 1].tuplet is Some {
        tuplet_run_end(atts, i + 1)
    } else {
        i
    }
}

/// The tuplet brackets from note `i` on: each run of consecutive notes with
/// a tuplet gives a bracket from its first to its last note, when it holds
/// more than one note.
pub open spec fn tuplet_runs_from(atts: Seq<NoteAttachment>, i: int) -> Seq<(int, int)>
    decreases atts.len() - i,
{
    if i < 0 || i >= atts.len() {
        Seq::empty()
    } else if atts[i].tuplet is Some {
        let e = tuplet_run_end(atts, i);
        if i <= e < atts.len() {
            (if e > i { seq![(i, e)] } else { Seq::empty() }) + tuplet_runs_from(atts, e + 1)
        } else {
            Seq::empty()
        }
    } else {
        tuplet_runs_from(atts, i + 1)
    }
}

proof fn lemma_run_end_bounds(atts: Seq<NoteAttachment>, i: int)
    requires
        0 <= i < atts.len(),
    ensures
        i <= tuplet_run_end(atts, i) < atts.len(),
    decreases atts.len() - i,
{
    if i + 1 < atts.len() && atts[i + 1].tuplet is Some {
        lemma_run_end_bounds(atts, i + 1);
    }
}

/// The tuplet brackets of a line of notes, as (first, last) note indices.
pub fn tuplet_runs(atts: &[NoteAttachment]) -> (r: Vec<(usize, usize)>)
    ensures
        spans_view(r@) == tuplet_runs_from(atts@, 0),
{
    let mut r: Vec<(usize, usize)> = Vec::new();
    let len = atts.len();
    let mut i: usize = 0;
    while i < len
        invariant
            len == atts@.len(),
            i <= len,
            spans_view(r@) + tuplet_runs_from(atts@, i as int) == tuplet_runs_from(atts@, 0),
        decreases len - i,
    {
        if atts[i].tuplet.is_some() {
            let start = i;
            let mut e = i;
            while e + 1 < len && atts[e + 1].tuplet.is_some()
                invariant
                    len == atts@.len(),
                    start < len,
                    start <= e < len,
                    tuplet_run_end(atts@, start as int) == tuplet_run_end(atts@, e as int),
                decreases len - e,
            {
                e = e + 1;
            }
            proof {
                lemma_run_end_bounds(atts@, start as int);
                assert(tuplet_run_end(atts@, start as int) == e);
            }
            let ghost before = r@;
            if e > start {
                r.push((start, e));
                proof {
                    assert(spans_view(r@) =~= spans_view(before).push((start as int, e as int)));
                    assert(spans_view(r@) + tuplet_runs_from(atts@, e + 1)
                        =~= spans_view(before) + tuplet_runs_from(atts@, start as int));
                }
            } else {
                proof {
                    assert(tuplet_runs_from(atts@, start as int) =~= tuplet_runs_from(atts@, e + 1));
                }
            }
            i = e + 1;
        } else {
            i = i + 1;
        }
    }
    proof {
        assert(tuplet_runs_from(atts@, i as int) =~= Seq::<(int, int)>::empty());
        assert(spans_view(r@) + Seq::<(int, int)>::empty() =~= spans_view(r@));
    }
    r
}

// ── Laws ─────────────────────────────────────────────────────────

proof fn lemma_tie_stop_found(atts: Seq<NoteAttachment>, j: int, num: u8)
    ensures
        tie_stop_from(atts, j, num) matches Some(x) ==> j <= x < atts.len() && has_tie_stop(atts[x], num),
    decreases atts.len() - j,
{
    if 0 <= j < atts.len() && !has_tie_stop(atts[j], num) {
        lemma_tie_stop_found(atts, j + 1, num);
    }
}

proof fn lemma_ties_of_forward(atts: Seq<NoteAttachment>, i: int, ts: Seq<Tie>)
    ensures
        forall|k: int| 0 <= k < ties_of(atts, i, ts).len() ==> {
            let (a, b) = #[trigger] ties_of(atts, i, ts)[k];
            &&& a == i
            &&& i < b < atts.len()
            &&& exists|t: int| 0 <= t < ts.len() && ts[t].kind == TieKind::Start && has_tie_stop(atts[b], ts[t].number)
        },
    decreases ts.len(),
{
    if ts.len() > 0 {
        let prev = ties_of(atts, i, ts.drop_last());
        lemma_ties_of_forward(atts, i, ts.drop_last());
        lemma_tie_stop_found(atts, i + 1, ts.last().number);
        assert forall|k: int| 0 <= k < ties_of(atts, i, ts).len() implies {
            let (a, b) = #[trigger] ties_of(atts, i, ts)[k];
            &&& a == i
            &&& i < b < atts.len()
            &&& exists|t: int| 0 <= t < ts.len() && ts[t].kind == TieKind::Start && has_tie_stop(atts[b], ts[t].number)
        } by {
            if k < prev.len() {
                assert(ties_of(atts, i, ts)[k] == prev[k]);
                let b = prev[k].1;
                let t = choose|t: int| 0 <= t < ts.drop_last().len() && ts.drop_last()[t].kind == TieKind::Start
                    && has_tie_stop(atts[b], ts.drop_last()[t].number);
                assert(ts[t] == ts.drop_last()[t]);
            } else {
                assert(ts[ts.len() - 1] == ts.last());
            }
        }
    }
}

/// Law of ties: every tie joins a note to a later note of the line, and the
/// later note ends a tie of the number that a starting tie of the first one
/// carries.
pub proof fn lemma_tie_spans_forward(atts: Seq<NoteAttachment>, n: int)
    requires
        0 <= n <= atts.len(),
    ensures
        forall|k: int| 0 <= k < tie_spans_upto(atts, n).len() ==> {
            let (a, b) = #[trigger] tie_spans_upto(atts, n)[k];
            &&& 0 <= a < b < atts.len()
            &&& a < n
            &&& exists|t: int| 0 <= t < atts[a].ties@.len() && atts[a].ties@[t].kind == TieKind::Start
                && has_tie_stop(atts[b], atts[a].ties@[t].number)
        },
    decreases n,
{
    if n > 0 {
        let prev = tie_spans_upto(atts, n - 1);
        let last = ties_of(atts, n - 1, atts[n - 1].ties@);
        lemma_tie_spans_forward(atts, n - 1);
        lemma_ties_of_forward(atts, n - 1, atts[n - 1].ties@);
        assert forall|k: int| 0 <= k < tie_spans_upto(atts, n).len() implies {
            let (a, b) = #[trigger] tie_spans_upto(atts, n)[k];
            &&& 0 <= a < b < atts.len()
            &&& a < n
            &&& exists|t: int| 0 <= t < atts[a].ties@.len() && atts[a].ties@[t].kind == TieKind::Start
                && has_tie_stop(atts[b], atts[a].ties@[t].number)
        } by {
            if k < prev.len() {
                assert(tie_spans_upto(atts, n)[k] == prev[k]);
            } else {
                assert(tie_spans_upto(atts, n)[k] == last[k - prev.len()]);
            }
        }
    }
}

proof fn lemma_run_end_tuplets(atts: Seq<NoteAttachment>, i: int)
    requires
        0 <= i < atts.len(),
        atts[i].tuplet is Some,
    ensures
        forall|k: int| i <= k <= tuplet_run_end(atts, i) ==> (#[trigger] atts[k]).tuplet is Some,
        tuplet_run_end(atts, i) + 1 < atts.len() ==> atts[tuplet_run_end(atts, i) + 1].tuplet is None,
    decreases atts.len() - i,
{
    lemma_run_end_bounds(atts, i);
    if i + 1 < atts.len() && atts[i + 1].tuplet is Some {
        lemma_run_end_tuplets(atts, i + 1);
    }
}

/// Law of tuplet brackets: the brackets from note `i` on go left to right
/// without overlapping; each covers at least two notes, all of them tuplet
/// notes, and cannot be extended by the note after it.
pub proof fn lemma_tuplet_runs_ordered(atts: Seq<NoteAttachment>, i: int)
    requires
        0 <= i,
    ensures
        forall|k: int| 0 <= k < tuplet_runs_from(atts, i).len() ==> {
            let (s, e) = #[trigger] tuplet_runs_from(atts, i)[k];
            &&& i <= s < e < atts.len()
            &&& forall|m: int| s <= m <= e ==> (#[trigger] atts[m]).tuplet is Some
            &&& (e + 1 < atts.len() ==> atts[e + 1].tuplet is None)
        },
        forall|j: int, k: int| 0 <= j < k < tuplet_runs_from(atts, i).len() ==>
            (#[trigger] tuplet_runs_from(atts, i)[j]).1 < (#[trigger] tuplet_runs_from(atts, i)[k]).0,
    decreases atts.len() - i,
{
    if i < atts.len() {
        if atts[i].tuplet is Some {
            let e = tuplet_run_end(atts, i);
            lemma_run_end_bounds(atts, i);
            lemma_run_end_tuplets(atts, i);
            lemma_tuplet_runs_ordered(atts, e + 1);
            let rest = tuplet_runs_from(atts, e + 1);
            let head: Seq<(int, int)> = if e > i { seq![(i, e)] } else { Seq::empty() };
            assert(tuplet_runs_from(atts, i) == head + rest);
            assert forall|k: int| 0 <= k < tuplet_runs_from(atts, i).len() implies {
                let (s, e2) = #[trigger] tuplet_runs_from(atts, i)[k];
                &&& i <= s < e2 < atts.len()
                &&& forall|m: int| s <= m <= e2 ==> (#[trigger] atts[m]).tuplet is Some
                &&& (e2 + 1 < atts.len() ==> atts[e2 + 1].tuplet is None)
            } by {
                if k < head.len() {
                    assert(tuplet_runs_from(atts, i)[k] == (i, e));
                } else {
                    assert(tuplet_runs_from(atts, i)[k] == rest[k - head.len()]);
                }
            }
            assert forall|j: int, k: int| 0 <= j < k < tuplet_runs_from(atts, i).len() implies
                (#[trigger] tuplet_runs_from(atts, i)[j]).1 < (#[trigger] tuplet_runs_from(atts, i)[k]).0 by {
                if j < head.len() {
                    assert(tuplet_runs_from(atts, i)[j] == (i, e));
                    assert(tuplet_runs_from(atts, i)[k] == rest[k - head.len()]);
                } else {
                    assert(tuplet_runs_from(atts, i)[j] == rest[j - head.len()]);
                    assert(tuplet_runs_from(atts, i)[k] == rest[k - head.len()]);
                }
            }
        } else {
            lemma_tuplet_runs_ordered(atts, i + 1);
        }
    }
}

} // verus!
