use vstd::prelude::*;
use crate::notation::clef::Clef;
use crate::notation::measure::Measure;
use crate::notation::tab::TablatureStaff;

verus! {

/// Kind of staff.
#[derive(Debug)]
pub enum StaffKind {
    Standard,
    Tablature(TablatureStaff),
    GrandStaff { upper: Box<Staff>, lower: Box<Staff> },
}

/// A staff with its clef and measures.
#[derive(Debug)]
pub struct Staff {
    pub clef: Clef,
    pub line: i8,
    pub measures: Vec<Measure>,
    pub name: String,
    pub abbreviation: String,
    pub kind: StaffKind,
}

/// `b` copies the fields of `a` other than its kind: the same clef, line,
/// name and abbreviation, and as many measures, each a clone of the
/// measure at its place.
pub open spec fn staff_fields_cloned(a: Staff, b: Staff) -> bool {
    &&& b.clef == a.clef
    &&& b.line == a.line
    &&& b.name == a.name
    &&& b.abbreviation == a.abbreviation
    &&& b.measures@.len() == a.measures@.len()
    &&& forall|i: int| 0 <= i < a.measures@.len() ==> cloned::<Measure>(a.measures@[i], #[trigger] b.measures@[i])
}

/// `b` is a deep copy of the staff kind `a`: the same variant, a clone of
/// the tablature, or copies of both staves of a grand staff.
pub open spec fn kind_cloned(a: StaffKind, b: StaffKind) -> bool
    decreases a,
{
    match a {
        StaffKind::Standard => b is Standard,
        StaffKind::Tablature(x) => b matches StaffKind::Tablature(y) && cloned::<TablatureStaff>(x, y),
        StaffKind::GrandStaff { upper, lower } => match b {
            StaffKind::GrandStaff { upper: u, lower: l } => {
                &&& staff_fields_cloned(*upper, *u)
                &&& kind_cloned(upper.kind, u.kind)
                &&& staff_fields_cloned(*lower, *l)
                &&& kind_cloned(lower.kind, l.kind)
            },
            _ => false,
        },
    }
}

/// `b` is a deep copy of the staff `a`.
pub open spec fn staff_cloned(a: Staff, b: Staff) -> bool {
    staff_fields_cloned(a, b) && kind_cloned(a.kind, b.kind)
}

impl Clone for StaffKind {
    fn clone(&self) -> (c: Self)
        ensures
            kind_cloned(*self, c),
        decreases self,
    {
        match self {
            StaffKind::Standard => StaffKind::Standard,
            StaffKind::Tablature(t) => StaffKind::Tablature(t.clone()),
            StaffKind::GrandStaff { upper, lower } => StaffKind::GrandStaff {
                upper: Box::new(clone_staff(upper)),
                lower: Box::new(clone_staff(lower)),
            },
        }
    }
}

/// Deep copy of a staff.
fn clone_staff(s: &Staff) -> (c: Staff)
    ensures
        staff_cloned(*s, c),
    decreases s,
{
    Staff {
        clef: s.clef,
        line: s.line,
        measures: s.measures.clone(),
        name: s.name.clone(),
        abbreviation: s.abbreviation.clone(),
        kind: s.kind.clone(),
    }
}

impl Clone for Staff {
    fn clone(&self) -> (c: Self) {
        clone_staff(self)
    }
}

} // verus!
