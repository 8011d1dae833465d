//! Distribution of a score's staves over pages: staves are taken in reading
//! order and a new page starts when the next staff's lines would not fit on
//! the current one.

use vstd::prelude::*;

verus! {

/// A staff of a score: its system and its place in the system.
#[derive(Clone, Copy, PartialEq, Eq, Debug, Structural)]
pub struct StaffRef {
    pub system_idx: usize,
    pub staff_idx: usize,
}

/// The staves printed on one page.
#[derive(Clone, Debug)]
pub struct Page {
    pub staff_refs: Vec<StaffRef>,
}

/// The staves of a score in reading order with their line counts, from the
/// line counts `lines[system][staff]`.
pub open spec fn staff_entries(lines: Seq<Vec<usize>>) -> Seq<(StaffRef, usize)>
    decreases lines.len(),
{
    if lines.len() == 0 {
        Seq::empty()
    } else {
        let s = (lines.len() - 1) as usize;
        staff_entries(lines.drop_last()) + Seq::new(
            lines.last()@.len(),
            |j: int| (StaffRef { system_idx: s, staff_idx: j as usize }, lines.last()@[j]),
        )
    }
}

/// Sum of the line counts of `es`.
pub open spec fn total_lines(es: Seq<(StaffRef, usize)>) -> nat
    decreases es.len(),
{
    if es.len() == 0 {
        0
    } else {
        total_lines(es.drop_last()) + es.last().1 as nat
    }
}

/// Packing state: finished pages, the page being filled and its lines.
pub struct Packing {
    pub pages: Seq<Seq<StaffRef>>,
    pub current: Seq<StaffRef>,
    pub slots: nat,
}

pub open spec fn pack_step(st: Packing, e: (StaffRef, usize), max_slots: nat) -> Packing {
    if st.current.len() > 0 && st.slots + e.1 > max_slots {
        Packing { pages: st.pages.push(st.current), current: seq![e.0], slots: e.1 as nat }
    } else {
        Packing { pages: st.pages, current: st.current.push(e.0), slots: st.slots + e.1 as nat }
    }
}

pub open spec fn pack(es: Seq<(StaffRef, usize)>, max_slots: nat) -> Packing
    decreases es.len(),
{
    if es.len() == 0 {
        Packing { pages: Seq::empty(), current: Seq::empty(), slots: 0 }
    } else {
        pack_step(pack(es.drop_last(), max_slots), es.last(), max_slots)
    }
}

/// The pages of the staves `es` when a page holds `max_slots` lines.
pub open spec fn spec_pages(es: Seq<(StaffRef, usize)>, max_slots: nat) -> Seq<Seq<StaffRef>> {
    let st = pack(es, max_slots);
    if st.current.len() > 0 { st.pages.push(st.current) } else { st.pages }
}

pub open spec fn pages_view(ps: Seq<Page>) -> Seq<Seq<StaffRef>> {
    ps.map_values(|p: Page| p.staff_refs@)
}

fn flatten_entries(lines: &Vec<Vec<usize>>) -> (es: Vec<(StaffRef, usize)>)
    ensures
        es@ == staff_entries(lines@),
{
    let mut es: Vec<(StaffRef, usize)> = Vec::new();
    let n = lines.len();
    let mut si: usize = 0;
    while si < n
        invariant
            n == lines@.len(),
            si <= n,
            es@ == staff_entries(lines@.take(si as int)),
        decreases n - si,
    {
        let row = &lines[si];
        let m = row.len();
        let ghost base = es@;
        let mut sti: usize = 0;
        while sti < m
            invariant
                m == row@.len(),
                row == &lines@[si as int],
                sti <= m,
                es@ == base + Seq::new(
                    sti as nat,
                    |j: int| (StaffRef { system_idx: si, staff_idx: j as usize }, row@[j]),
                ),
            decreases m - sti,
        {
            es.push((StaffRef { system_idx: si, staff_idx: sti }, row[sti]));
            proof {
                assert(es@ =~= base + Seq::new(
                    (sti + 1) as nat,
                    |j: int| (StaffRef { system_idx: si, staff_idx: j as usize }, row@[j]),
                ));
            }
            sti = sti + 1;
        }
        proof {
            assert(lines@.take(si + 1).drop_last() =~= lines@.take(si as int));
            assert(lines@.take(si + 1).last() == lines@[si as int]);
        }
        si = si + 1;
    }
    proof {
        assert(lines@.take(n as int) =~= lines@);
    }
    es
}

proof fn lemma_total_prefix(es: Seq<(StaffRef, usize)>, i: int)
    requires
        0 <= i <= es.len(),
    ensures
        total_lines(es.take(i)) <= total_lines(es),
    decreases es.len() - i,
{
    if i < es.len() {
        lemma_total_prefix(es, i + 1);
        assert(es.take(i + 1).drop_last() =~= es.take(i));
    } else {
        assert(es.take(i) =~= es);
    }
}

proof fn lemma_slots_bounded(es: Seq<(StaffRef, usize)>, max_slots: nat)
    ensures
        pack(es, max_slots).slots <= total_lines(es),
    decreases es.len(),
{
    if es.len() > 0 {
        lemma_slots_bounded(es.drop_last(), max_slots);
    }
}

/// The staff references of `es`.
pub open spec fn refs_of(es: Seq<(StaffRef, usize)>) -> Seq<StaffRef> {
    es.map_values(|e: (StaffRef, usize)| e.0)
}

/// Index, in `es`, of the first staff of each page.
pub open spec fn page_starts(es: Seq<(StaffRef, usize)>, max_slots: nat) -> Seq<int>
    decreases es.len(),
{
    if es.len() == 0 {
        Seq::empty()
    } else {
        let prev = page_starts(es.drop_last(), max_slots);
        let i = es.len() - 1;
        if prev.len() == 0 {
            seq![0int]
        } else if total_lines(es.subrange(prev.last(), i)) + es[i].1 > max_slots {
            prev.push(i)
        } else {
            prev
        }
    }
}

/// The pages `ps` are the runs of `es` between the bounds `b`: a run of
/// more than one staff takes at most `max_slots` lines, and each run but the
/// last would overflow with the staff that follows it.
pub open spec fn paged_by(ps: Seq<Seq<StaffRef>>, es: Seq<(StaffRef, usize)>, b: Seq<int>, max_slots: nat) -> bool {
    &&& b.len() == ps.len() + 1
    &&& b[0] == 0
    &&& b.last() == es.len()
    &&& forall|j: int, k: int| 0 <= j < k < b.len() ==> #[trigger] b[j] < #[trigger] b[k]
    &&& forall|k: int| 0 <= k < ps.len() ==> {
        &&& #[trigger] ps[k] == refs_of(es.subrange(b[k], b[k + 1]))
        &&& (b[k + 1] - b[k] >= 2 ==> total_lines(es.subrange(b[k], b[k + 1])) <= max_slots)
        &&& (k + 1 < ps.len() ==> total_lines(es.subrange(b[k], b[k + 1])) + es[b[k + 1]].1 > max_slots)
    }
}

proof fn lemma_total_push(s: Seq<(StaffRef, usize)>, x: (StaffRef, usize))
    ensures
        total_lines(s.push(x)) == total_lines(s) + x.1,
{
    assert(s.push(x).drop_last() =~= s);
}

/// Invariant of the packing of `es`: finished pages are the runs between
/// the page starts, the current page the run from the last start.
pub open spec fn packing_matches(es: Seq<(StaffRef, usize)>, max_slots: nat, st: Packing) -> bool {
    let b = page_starts(es, max_slots);
    if es.len() == 0 {
        st.pages.len() == 0 && st.current.len() == 0 && st.slots == 0 && b.len() == 0
    } else {
        &&& b.len() >= 1
        &&& b[0] == 0
        &&& b.last() < es.len()
        &&& forall|k: int| 0 <= k < b.len() ==> 0 <= #[trigger] b[k] <= b.last()
        &&& forall|j: int, k: int| 0 <= j < k < b.len() ==> #[trigger] b[j] < #[trigger] b[k]
        &&& st.pages.len() == b.len() - 1
        &&& forall|k: int| 0 <= k < st.pages.len() ==> {
            &&& #[trigger] st.pages[k] == refs_of(es.subrange(b[k], b[k + 1]))
            &&& (b[k + 1] - b[k] >= 2 ==> total_lines(es.subrange(b[k], b[k + 1])) <= max_slots)
            &&& total_lines(es.subrange(b[k], b[k + 1])) + es[b[k + 1]].1 > max_slots
        }
        &&& st.current == refs_of(es.subrange(b.last(), es.len() as int))
        &&& st.slots == total_lines(es.subrange(b.last(), es.len() as int))
        &&& (es.len() - b.last() >= 2 ==> st.slots <= max_slots)
    }
}

proof fn lemma_packing(es: Seq<(StaffRef, usize)>, max_slots: nat)
    ensures
        packing_matches(es, max_slots, pack(es, max_slots)),
    decreases es.len(),
{
    if es.len() > 0 {
        let p = es.drop_last();
        let i = es.len() - 1;
        let e = es[i];
        lemma_packing(p, max_slots);
        let st = pack(p, max_slots);
        let b = page_starts(p, max_slots);
        assert(es.last() == e);
        if b.len() == 0 {
            assert(p.len() == 0);
            assert(es.subrange(0, 1) =~= seq![e]);
            assert(refs_of(seq![e]) =~= seq![e.0]);
            lemma_total_push(Seq::empty(), e);
            assert(seq![e] =~= Seq::<(StaffRef, usize)>::empty().push(e));
            assert(packing_matches(es, max_slots, pack(es, max_slots)));
        } else {
            let a = b.last();
            assert(p.subrange(a, i) =~= es.subrange(a, i));
            if total_lines(es.subrange(a, i)) + e.1 > max_slots {
                assert(es.subrange(i, i + 1) =~= seq![e]);
                assert(refs_of(seq![e]) =~= seq![e.0]);
                assert(seq![e] =~= Seq::<(StaffRef, usize)>::empty().push(e));
                lemma_total_push(Seq::empty(), e);
                let nb = b.push(i);
                assert(page_starts(es, max_slots) == nb);
                assert forall|k: int| 0 <= k < nb.len() implies 0 <= #[trigger] nb[k] <= nb.last() by {
                    if k < b.len() {
                        assert(nb[k] == b[k]);
                    }
                }
                assert forall|j: int, k: int| 0 <= j < k < nb.len() implies #[trigger] nb[j] < #[trigger] nb[k] by {
                    assert(nb[j] == b[j]);
                    assert(0 <= b[j] <= b.last());
                    if k < b.len() {
                        assert(nb[k] == b[k]);
                    }
                }
                let np = st.pages.push(st.current);
                assert(pack(es, max_slots).pages == np);
                assert(pack(es, max_slots).current == seq![e.0]);
                assert forall|k: int| 0 <= k < np.len() implies {
                    &&& #[trigger] np[k] == refs_of(es.subrange(nb[k], nb[k + 1]))
                    &&& (nb[k + 1] - nb[k] >= 2 ==> total_lines(es.subrange(nb[k], nb[k + 1])) <= max_slots)
                    &&& total_lines(es.subrange(nb[k], nb[k + 1])) + es[nb[k + 1]].1 > max_slots
                } by {
                    if k < st.pages.len() {
                        assert(nb[k] == b[k] && nb[k + 1] == b[k + 1]);
                        assert(st.pages[k] == refs_of(p.subrange(b[k], b[k + 1])));
                        assert(es.subrange(b[k], b[k + 1]) =~= p.subrange(b[k], b[k + 1]));
                        assert(es[b[k + 1]] == p[b[k + 1]]);
                    } else {
                        assert(nb[k] == a && nb[k + 1] == i);
                    }
                }
                assert(packing_matches(es, max_slots, pack(es, max_slots)));
            } else {
                assert(es.subrange(a, i + 1) =~= es.subrange(a, i).push(e));
                lemma_total_push(es.subrange(a, i), e);
                assert(refs_of(es.subrange(a, i + 1)) =~= refs_of(es.subrange(a, i)).push(e.0));
                assert(page_starts(es, max_slots) == b);
                assert(pack(es, max_slots).pages == st.pages);
                assert(pack(es, max_slots).current == st.current.push(e.0));
                assert forall|k: int| 0 <= k < st.pages.len() implies {
                    &&& #[trigger] st.pages[k] == refs_of(es.subrange(b[k], b[k + 1]))
                    &&& (b[k + 1] - b[k] >= 2 ==> total_lines(es.subrange(b[k], b[k + 1])) <= max_slots)
                    &&& total_lines(es.subrange(b[k], b[k + 1])) + es[b[k + 1]].1 > max_slots
                } by {
                    assert(st.pages[k] == refs_of(p.subrange(b[k], b[k + 1])));
                    assert(es.subrange(b[k], b[k + 1]) =~= p.subrange(b[k], b[k + 1]));
                    assert(es[b[k + 1]] == p[b[k + 1]]);
                }
                assert(packing_matches(es, max_slots, pack(es, max_slots)));
            }
        }
    }
}

/// Law of pagination: the pages are consecutive, non-empty runs of the
/// staves in reading order that together hold every staff once; a page with
/// more than one staff takes at most `max_slots` lines; and a page is closed
/// only when the next staff would not fit on it.
pub proof fn lemma_pagination(es: Seq<(StaffRef, usize)>, max_slots: nat)
    requires
        es.len() > 0,
    ensures
        paged_by(spec_pages(es, max_slots), es, page_starts(es, max_slots).push(es.len() as int), max_slots),
{
    lemma_packing(es, max_slots);
    let st = pack(es, max_slots);
    let b = page_starts(es, max_slots);
    let nb = b.push(es.len() as int);
    let ps = spec_pages(es, max_slots);
    assert(st.current.len() > 0) by {
        assert(es.subrange(b.last(), es.len() as int).len() > 0);
    }
    assert(ps == st.pages.push(st.current));
    assert forall|j: int, k: int| 0 <= j < k < nb.len() implies #[trigger] nb[j] < #[trigger] nb[k] by {
        assert(nb[j] == b[j]);
        assert(0 <= b[j] <= b.last());
        if k < b.len() {
            assert(nb[k] == b[k]);
        }
    }
    assert forall|k: int| 0 <= k < ps.len() implies {
        &&& #[trigger] ps[k] == refs_of(es.subrange(nb[k], nb[k + 1]))
        &&& (nb[k + 1] - nb[k] >= 2 ==> total_lines(es.subrange(nb[k], nb[k + 1])) <= max_slots)
        &&& (k + 1 < ps.len() ==> total_lines(es.subrange(nb[k], nb[k + 1])) + es[nb[k + 1]].1 > max_slots)
    } by {
        if k < st.pages.len() {
            assert(nb[k] == b[k] && nb[k + 1] == b[k + 1]);
            assert(st.pages[k] == refs_of(es.subrange(b[k], b[k + 1])));
            assert(b[k] < b[k + 1]);
        } else {
            assert(nb[k] == b.last() && nb[k + 1] == es.len());
        }
    }
}

/// Distributes the staves over pages holding `max_slots` lines each;
/// `lines[system][staff]` is the number of lines a staff takes. A staff that
/// does not fit on a non-empty page starts a new one.
pub fn paginate(lines: &Vec<Vec<usize>>, max_slots: usize) -> (pages: Vec<Page>)
    requires
        total_lines(staff_entries(lines@)) <= usize::MAX,
    ensures
        pages_view(pages@) == spec_pages(staff_entries(lines@), max_slots as nat),
{
    let es = flatten_entries(lines);
    let mut pages: Vec<Page> = Vec::new();
    let mut current: Vec<StaffRef> = Vec::new();
    let mut slots: usize = 0;
    let len = es.len();
    let mut i: usize = 0;
    while i < len
        invariant
            len == es@.len(),
            i <= len,
            total_lines(es@) <= usize::MAX,
            pages_view(pages@) == pack(es@.take(i as int), max_slots as nat).pages,
            current@ == pack(es@.take(i as int), max_slots as nat).current,
            slots == pack(es@.take(i as int), max_slots as nat).slots,
        decreases len - i,
    {
        let ghost before = pack(es@.take(i as int), max_slots as nat);
        proof {
            assert(es@.take(i + 1).drop_last() =~= es@.take(i as int));
            assert(es@.take(i + 1).last() == es@[i as int]);
            lemma_slots_bounded(es@.take(i + 1), max_slots as nat);
            lemma_total_prefix(es@, i + 1);
            lemma_slots_bounded(es@.take(i as int), max_slots as nat);
            lemma_total_prefix(es@, i as int);
        }
        let (r, n) = es[i];
        if current.len() > 0 && slots + n > max_slots {
            let mut taken: Vec<StaffRef> = Vec::new();
            std::mem::swap(&mut taken, &mut current);
            let ghost old_pages = pages@;
            pages.push(Page { staff_refs: taken });
            proof {
                assert(pages_view(pages@) =~= pages_view(old_pages).push(before.current));
            }
            current.push(r);
            proof {
                assert(current@ =~= seq![r]);
            }
            slots = n;
        } else {
            current.push(r);
            slots = slots + n;
        }
        i = i + 1;
    }
    proof {
        assert(es@.take(len as int) =~= es@);
    }
    if current.len() > 0 {
        let ghost old_pages = pages@;
        pages.push(Page { staff_refs: current });
        proof {
            assert(pages_view(pages@) =~= pages_view(old_pages).push(pack(es@, max_slots as nat).current));
        }
    }
    pages
}

} // verus!
