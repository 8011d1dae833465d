//! The score header: title, composer, part list, page size and credits.

use vstd::prelude::*;
use crate::float_text::reads_above_zero;
use crate::musicxml::fields::{attr_parse_u8, attr_u8};
use crate::musicxml::note::{named, trimmed_text};
use crate::notation::score::{Credit, CreditJustify, CreditKind, PageSize, PartGroup, PartInfo, PartList};
use crate::notation::system::GroupBracket;
use crate::text::{str_eq, trim};
use crate::xml::{
    attr, attr_is, attribute, attribute_is, child, child_text, find_child, first_child_text,
    is_element, is_tag, XmlNode,
};

verus! {

/// The text, or the empty text when absent.
pub open spec fn or_empty(o: Option<Seq<char>>) -> Seq<char> {
    match o {
        Some(t) => t,
        None => Seq::empty(),
    }
}

fn string_or_empty(o: Option<String>) -> (s: String)
    ensures
        s@ == or_empty(match o { Some(t) => Some(t@), None => None }),
{
    match o {
        Some(t) => t,
        None => String::new(),
    }
}

fn str_or_empty(o: Option<&str>) -> (s: String)
    ensures
        s@ == or_empty(match o { Some(t) => Some(t@), None => None }),
{
    match o {
        Some(t) => t.to_string(),
        None => String::new(),
    }
}

// ── Title and composer ───────────────────────────────────────────

/// The title: a non-empty `<movement-title>`, else the `<work-title>` of
/// `<work>`, else empty (texts trimmed).
pub open spec fn spec_title(root: XmlNode) -> Seq<char> {
    let movement = child_text(root, "movement-title"@);
    if movement is Some && movement->Some_0.len() > 0 {
        movement->Some_0
    } else {
        match child(root, "work"@) {
            Some(w) => or_empty(child_text(w, "work-title"@)),
            None => Seq::empty(),
        }
    }
}

pub fn parse_title(root: &XmlNode) -> (t: String)
    ensures
        t@ == spec_title(*root),
{
    match first_child_text(root, "movement-title") {
        Some(t) => {
            if !t.as_str().is_empty() {
                return t;
            }
        },
        None => {},
    }
    match find_child(root, "work") {
        Some(w) => string_or_empty(first_child_text(w, "work-title")),
        None => String::new(),
    }
}

/// The first node of `cs` that is a `<creator>` of type `composer`.
pub open spec fn first_composer(cs: Seq<XmlNode>) -> Option<XmlNode>
    decreases cs.len(),
{
    if cs.len() == 0 {
        None
    } else if is_tag(cs[0], "creator"@) && attr_is(cs[0], "type"@, "composer"@) {
        Some(cs[0])
    } else {
        first_composer(cs.drop_first())
    }
}

/// The composer: the trimmed text of the first `<creator type="composer">`
/// of `<identification>`, else of its first `<creator>`, else empty.
pub open spec fn spec_composer(root: XmlNode) -> Seq<char> {
    match child(root, "identification"@) {
        None => Seq::empty(),
        Some(id) => {
            let pick = match first_composer(id.children@) {
                Some(c) => Some(c),
                None => child(id, "creator"@),
            };
            match pick {
                Some(c) => or_empty(trimmed_text(c)),
                None => Seq::empty(),
            }
        },
    }
}

proof fn lemma_first_composer_skip(cs: Seq<XmlNode>, i: int)
    requires
        0 <= i <= cs.len(),
        forall|k: int| 0 <= k < i ==> !(is_tag(#[trigger] cs[k], "creator"@) && attr_is(cs[k], "type"@, "composer"@)),
    ensures
        first_composer(cs) == first_composer(cs.subrange(i, cs.len() as int)),
    decreases i,
{
    if i > 0 {
        lemma_first_composer_skip(cs.drop_first(), i - 1);
        assert(cs.drop_first().subrange(i - 1, cs.drop_first().len() as int) =~= cs.subrange(i, cs.len() as int));
    } else {
        assert(cs.subrange(0, cs.len() as int) =~= cs);
    }
}

fn find_composer(id: &XmlNode) -> (r: Option<&XmlNode>)
    ensures
        match r {
            Some(c) => first_composer(id.children@) == Some(*c),
            None => first_composer(id.children@) is None,
        },
{
    let cs = &id.children;
    let len = cs.len();
    let mut i: usize = 0;
    while i < len
        invariant
            len == cs@.len(),
            cs == &id.children,
            i <= len,
            forall|k: int| 0 <= k < i ==> !(is_tag(#[trigger] cs@[k], "creator"@) && attr_is(cs@[k], "type"@, "composer"@)),
        decreases len - i,
    {
        if is_element(&cs[i], "creator") && attribute_is(&cs[i], "type", "composer") {
            proof {
                lemma_first_composer_skip(cs@, i as int);
            }
            return Some(&cs[i]);
        }
        i = i + 1;
    }
    proof {
        lemma_first_composer_skip(cs@, len as int);
    }
    None
}

pub fn parse_composer(root: &XmlNode) -> (c: String)
    ensures
        c@ == spec_composer(*root),
{
    let id = match find_child(root, "identification") {
        Some(id) => id,
        None => return String::new(),
    };
    let pick = match find_composer(id) {
        Some(c) => Some(c),
        None => find_child(id, "creator"),
    };
    match pick {
        Some(c) => match &c.text {
            Some(t) => trim(t.as_str()),
            None => String::new(),
        },
        None => String::new(),
    }
}

// ── Part list ────────────────────────────────────────────────────

/// `p` is read from the `<score-part>` `c`: its `id` attribute, its
/// `<part-name>`, and its `<part-abbreviation>` or else the name.
pub open spec fn part_info_matches(p: PartInfo, c: XmlNode) -> bool {
    &&& p.id@ == or_empty(attr(c, "id"@))
    &&& p.name@ == or_empty(child_text(c, "part-name"@))
    &&& p.abbreviation@ == (match child_text(c, "part-abbreviation"@) {
        Some(a) => a,
        None => p.name@,
    })
}

/// Bracket of a `<group-symbol>`: brace, bracket, line, square; otherwise
/// (and when absent) bracket.
pub open spec fn spec_group_symbol(s: Option<Seq<char>>) -> GroupBracket {
    if s == Some("brace"@) {
        GroupBracket::Brace
    } else if s == Some("line"@) {
        GroupBracket::Line
    } else if s == Some("square"@) {
        GroupBracket::Square
    } else {
        GroupBracket::Bracket
    }
}

/// `g` is read from the `<part-group>` `c`: its `number` (default 1), its
/// symbol and its `<group-name>`.
pub open spec fn part_group_matches(g: PartGroup, c: XmlNode) -> bool {
    &&& g.number == (match attr_u8(c, "number"@) {
        Some(n) => n,
        None => 1,
    })
    &&& g.kind == spec_group_symbol(child_text(c, "group-symbol"@))
    &&& g.name@ == or_empty(child_text(c, "group-name"@))
}

pub open spec fn parts_match(ps: Seq<PartInfo>, cs: Seq<XmlNode>) -> bool {
    &&& ps.len() == cs.len()
    &&& forall|k: int| 0 <= k < ps.len() ==> part_info_matches(#[trigger] ps[k], cs[k])
}

pub open spec fn groups_match(gs: Seq<PartGroup>, cs: Seq<XmlNode>) -> bool {
    &&& gs.len() == cs.len()
    &&& forall|k: int| 0 <= k < gs.len() ==> part_group_matches(#[trigger] gs[k], cs[k])
}

/// `pl` lists, in order, the `<score-part>` and `<part-group>` children of
/// the first `<part-list>` of `root` (both lists empty without one).
pub open spec fn part_list_matches(pl: PartList, root: XmlNode) -> bool {
    match child(root, "part-list"@) {
        None => pl.parts@.len() == 0 && pl.groups@.len() == 0,
        Some(l) => {
            &&& parts_match(pl.parts@, named(l.children@, "score-part"@))
            &&& groups_match(pl.groups@, named(l.children@, "part-group"@))
        },
    }
}

fn part_info_of(c: &XmlNode) -> (p: PartInfo)
    ensures
        part_info_matches(p, *c),
{
    let id = str_or_empty(attribute(c, "id"));
    let name = string_or_empty(first_child_text(c, "part-name"));
    let abbreviation = match first_child_text(c, "part-abbreviation") {
        Some(a) => a,
        None => name.clone(),
    };
    PartInfo { id, name, abbreviation }
}

fn group_symbol(s: Option<String>) -> (g: GroupBracket)
    ensures
        g == spec_group_symbol(match s { Some(t) => Some(t@), None => None }),
{
    proof {
        reveal_strlit("brace");
        reveal_strlit("bracket");
        reveal_strlit("line");
        reveal_strlit("square");
    }
    assert("brace"@[4] != "bracket"@[4]);
    assert("line"@.len() != "bracket"@.len());
    assert("square"@.len() != "bracket"@.len());
    match s {
        Some(t) => if str_eq(t.as_str(), "brace") {
            GroupBracket::Brace
        } else if str_eq(t.as_str(), "bracket") {
            GroupBracket::Bracket
        } else if str_eq(t.as_str(), "line") {
            GroupBracket::Line
        } else if str_eq(t.as_str(), "square") {
            GroupBracket::Square
        } else {
            GroupBracket::Bracket
        },
        None => GroupBracket::Bracket,
    }
}

fn part_group_of(c: &XmlNode) -> (g: PartGroup)
    ensures
        part_group_matches(g, *c),
{
    let number = match attr_parse_u8(c, "number") {
        Some(n) => n,
        None => 1,
    };
    let kind = group_symbol(first_child_text(c, "group-symbol"));
    let name = string_or_empty(first_child_text(c, "group-name"));
    PartGroup { number, kind, name }
}

pub fn parse_part_list(root: &XmlNode) -> (pl: PartList)
    ensures
        part_list_matches(pl, *root),
{
    let mut parts: Vec<PartInfo> = Vec::new();
    let mut groups: Vec<PartGroup> = Vec::new();
    let l = match find_child(root, "part-list") {
        Some(l) => l,
        None => return PartList { parts, groups },
    };
    let cs = &l.children;
    let len = cs.len();
    let mut i: usize = 0;
    while i < len
        invariant
            len == cs@.len(),
            cs == &l.children,
            i <= len,
            parts_match(parts@, named(cs@.take(i as int), "score-part"@)),
            groups_match(groups@, named(cs@.take(i as int), "part-group"@)),
        decreases len - i,
    {
        proof {
            assert(cs@.take(i + 1).drop_last() =~= cs@.take(i as int));
            reveal_strlit("score-part");
            reveal_strlit("part-group");
            assert("score-part"@[0] != "part-group"@[0]);
        }
        let c = &cs[i];
        if str_eq(c.name.as_str(), "score-part") {
            parts.push(part_info_of(c));
        } else if str_eq(c.name.as_str(), "part-group") {
            groups.push(part_group_of(c));
        }
        i = i + 1;
    }
    proof {
        assert(cs@.take(len as int) =~= cs@);
    }
    PartList { parts, groups }
}

// ── Page size and credits ────────────────────────────────────────

/// Page width and height, as written in `<defaults><page-layout>` (in
/// tenths); `None` unless both are present.
pub open spec fn spec_page_size(root: XmlNode) -> Option<(Seq<char>, Seq<char>)> {
    match child(root, "defaults"@) {
        None => None,
        Some(d) => match child(d, "page-layout"@) {
            None => None,
            Some(pl) => match (child_text(pl, "page-width"@), child_text(pl, "page-height"@)) {
                (Some(w), Some(h)) => Some((w, h)),
                _ => None,
            },
        },
    }
}

/// The page gives credits a frame: its width and height are both written
/// and read as numbers above zero.
pub open spec fn page_frames_credits(root: XmlNode) -> bool {
    match spec_page_size(root) {
        Some((w, h)) => reads_above_zero(w) && reads_above_zero(h),
        None => false,
    }
}

pub open spec fn page_size_matches(p: Option<PageSize>, root: XmlNode) -> bool {
    match (p, spec_page_size(root)) {
        (None, None) => true,
        (Some(x), Some((w, h))) => x.width@ == w && x.height@ == h,
        _ => false,
    }
}

pub fn parse_page_size(root: &XmlNode) -> (p: Option<PageSize>)
    ensures
        page_size_matches(p, *root),
{
    let d = match find_child(root, "defaults") {
        Some(d) => d,
        None => return None,
    };
    let pl = match find_child(d, "page-layout") {
        Some(pl) => pl,
        None => return None,
    };
    match (first_child_text(pl, "page-width"), first_child_text(pl, "page-height")) {
        (Some(width), Some(height)) => Some(PageSize { width, height }),
        _ => None,
    }
}

/// The `<credit-words>` of a `<credit>` and its trimmed text, when that
/// text is present and not empty.
pub open spec fn credit_words(c: XmlNode) -> Option<(XmlNode, Seq<char>)> {
    match child(c, "credit-words"@) {
        None => None,
        Some(w) => match trimmed_text(w) {
            None => None,
            Some(t) => if t.len() == 0 { None } else { Some((w, t)) },
        },
    }
}

/// The `<credit>` nodes of `cs` that carry words, in order.
pub open spec fn credit_nodes(cs: Seq<XmlNode>) -> Seq<XmlNode>
    decreases cs.len(),
{
    if cs.len() == 0 {
        Seq::empty()
    } else if is_tag(cs.last(), "credit"@) && credit_words(cs.last()) is Some {
        credit_nodes(cs.drop_last()).push(cs.last())
    } else {
        credit_nodes(cs.drop_last())
    }
}

/// Justification attribute: center, right, otherwise left.
pub open spec fn spec_justify(v: Option<Seq<char>>) -> CreditJustify {
    if v == Some("center"@) {
        CreditJustify::Center
    } else if v == Some("right"@) {
        CreditJustify::Right
    } else {
        CreditJustify::Left
    }
}

/// `x` is read from the `<credit>` `c`: its words, their `default-x`,
/// `default-y` (as written, empty when absent) and `justify`, and the
/// credit's `page` (default 1).
pub open spec fn credit_matches(x: Credit, c: XmlNode) -> bool {
    match credit_words(c) {
        None => false,
        Some((w, t)) => {
            &&& x.kind matches CreditKind::Words(s) && s@ == t
            &&& x.page == (match attr_u8(c, "page"@) {
                Some(p) => p,
                None => 1,
            })
            &&& x.default_x@ == or_empty(attr(w, "default-x"@))
            &&& x.default_y@ == or_empty(attr(w, "default-y"@))
            &&& x.justify == spec_justify(attr(w, "justify"@))
        },
    }
}

pub open spec fn credits_match(xs: Seq<Credit>, cs: Seq<XmlNode>) -> bool {
    &&& xs.len() == cs.len()
    &&& forall|k: int| 0 <= k < xs.len() ==> credit_matches(#[trigger] xs[k], cs[k])
}

fn credit_of(c: &XmlNode) -> (r: Option<Credit>)
    ensures
        r is Some <==> credit_words(*c) is Some,
        r matches Some(x) ==> credit_matches(x, *c),
{
    let w = match find_child(c, "credit-words") {
        Some(w) => w,
        None => return None,
    };
    let text = match &w.text {
        Some(t) => trim(t.as_str()),
        None => return None,
    };
    if text.as_str().is_empty() {
        return None;
    }
    let page = match attr_parse_u8(c, "page") {
        Some(p) => p,
        None => 1,
    };
    let justify = if attribute_is(w, "justify", "center") {
        CreditJustify::Center
    } else if attribute_is(w, "justify", "right") {
        CreditJustify::Right
    } else {
        CreditJustify::Left
    };
    Some(Credit {
        page,
        kind: CreditKind::Words(text),
        default_x: str_or_empty(attribute(w, "default-x")),
        default_y: str_or_empty(attribute(w, "default-y")),
        justify,
    })
}

/// Reads the worded `<credit>` children of `root`, in order.
pub fn parse_credits(root: &XmlNode) -> (r: Vec<Credit>)
    ensures
        credits_match(r@, credit_nodes(root.children@)),
{
    let mut r: Vec<Credit> = Vec::new();
    let cs = &root.children;
    let len = cs.len();
    let mut i: usize = 0;
    while i < len
        invariant
            len == cs@.len(),
            cs == &root.children,
            i <= len,
            credits_match(r@, credit_nodes(cs@.take(i as int))),
        decreases len - i,
    {
        proof {
            assert(cs@.take(i + 1).drop_last() =~= cs@.take(i as int));
        }
        if is_element(&cs[i], "credit") {
            match credit_of(&cs[i]) {
                Some(x) => r.push(x),
                None => {},
            }
        }
        i = i + 1;
    }
    proof {
        assert(cs@.take(len as int) =~= cs@);
    }
    r
}

} // verus!
