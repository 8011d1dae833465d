//! A whole MusicXML document: the root element decides the format, and a
//! `score-partwise` document is read into a `Score`.

use vstd::prelude::*;
use crate::float_text::reads_above_zero_check;
use crate::musicxml::error::MusicXmlError;
use crate::musicxml::header::{
    credit_nodes, credits_match, or_empty, page_frames_credits, page_size_matches, parse_composer, parse_credits,
    parse_page_size, parse_part_list, parse_title, part_list_matches, spec_composer,
    spec_title,
};
use crate::musicxml::part::{parse_part, staff_matches};
use crate::notation::score::{PartInfo, PartList, Score};
use crate::notation::staff::Staff;
use crate::notation::system::System;
use crate::text::str_eq;
use crate::xml::{attr, attribute, is_element, read_xml, tagged, xml_document, XmlNode};

verus! {

/// The first entry of `ps` whose id is `id`.
pub open spec fn find_part_info(ps: Seq<PartInfo>, id: Seq<char>) -> Option<PartInfo>
    decreases ps.len(),
{
    if ps.len() == 0 {
        None
    } else if ps[0].id@ == id {
        Some(ps[0])
    } else {
        find_part_info(ps.drop_first(), id)
    }
}

/// Each staff of `ss` is read from the `<part>` at its place in `parts`,
/// with the part-list entry of `infos` that has the part's id.
pub open spec fn staves_match(ss: Seq<Staff>, parts: Seq<XmlNode>, infos: Seq<PartInfo>) -> bool {
    &&& ss.len() == parts.len()
    &&& forall|k: int| 0 <= k < ss.len() ==>
        staff_matches(#[trigger] ss[k], parts[k], find_part_info(infos, or_empty(attr(parts[k], "id"@))))
}

/// `s` is the score read from the `score-partwise` root element `root`: one
/// system holding a staff per `<part>`; credits only when the page width
/// and height read as numbers above zero.
pub open spec fn score_matches(s: Score, root: XmlNode) -> bool {
    &&& s.title@ == spec_title(root)
    &&& s.composer@ == spec_composer(root)
    &&& part_list_matches(s.part_list, root)
    &&& s.systems@.len() == 1
    &&& staves_match(s.systems@[0].staves@, tagged(root.children@, "part"@), s.part_list.parts@)
    &&& s.systems@[0].left_margin == 0
    &&& s.systems@[0].bracket is None
    &&& s.scaling is None
    &&& page_size_matches(s.page_size, root)
    &&& if page_frames_credits(root) {
        credits_match(s.credits@, credit_nodes(root.children@))
    } else {
        s.credits@.len() == 0
    }
}

/// Message for a `score-timewise` document.
pub open spec fn timewise_message() -> Seq<char> {
    "score-timewise format is not supported. Use score-partwise instead."@
}

/// Message for a root element of another name.
pub open spec fn wrong_root_message(name: Seq<char>) -> Seq<char> {
    "Root element must be <score-partwise> or <score-timewise>, got <"@ + name + ">"@
}

/// `r` is what reading a document whose root element is `root` gives.
pub open spec fn read_outcome(r: Result<Score, MusicXmlError>, root: XmlNode) -> bool {
    if root.name@ == "score-partwise"@ {
        r matches Ok(s) && score_matches(s, root)
    } else if root.name@ == "score-timewise"@ {
        r matches Err(MusicXmlError::Unsupported(m)) && m@ == timewise_message()
    } else {
        r matches Err(MusicXmlError::Unsupported(m)) && m@ == wrong_root_message(root.name@)
    }
}

proof fn lemma_find_part_skip(ps: Seq<PartInfo>, id: Seq<char>, i: int)
    requires
        0 <= i <= ps.len(),
        forall|k: int| 0 <= k < i ==> (#[trigger] ps[k]).id@ != id,
    ensures
        find_part_info(ps, id) == find_part_info(ps.subrange(i, ps.len() as int), id),
    decreases i,
{
    if i > 0 {
        lemma_find_part_skip(ps.drop_first(), id, i - 1);
        assert(ps.drop_first().subrange(i - 1, ps.drop_first().len() as int) =~= ps.subrange(i, ps.len() as int));
    } else {
        assert(ps.subrange(0, ps.len() as int) =~= ps);
    }
}

fn find_part<'a>(ps: &'a Vec<PartInfo>, id: &str) -> (r: Option<&'a PartInfo>)
    ensures
        match r {
            Some(p) => find_part_info(ps@, id@) == Some(*p),
            None => find_part_info(ps@, id@) is None,
        },
{
    let len = ps.len();
    let mut i: usize = 0;
    while i < len
        invariant
            len == ps@.len(),
            i <= len,
            forall|k: int| 0 <= k < i ==> (#[trigger] ps@[k]).id@ != id@,
        decreases len - i,
    {
        if str_eq(ps[i].id.as_str(), id) {
            proof {
                lemma_find_part_skip(ps@, id@, i as int);
            }
            return Some(&ps[i]);
        }
        i = i + 1;
    }
    proof {
        lemma_find_part_skip(ps@, id@, len as int);
    }
    None
}

/// Reads every `<part>` of `root`, in order, each named after its entry in
/// `part_list`.
pub fn parse_parts(root: &XmlNode, part_list: &PartList) -> (r: Vec<Staff>)
    ensures
        staves_match(r@, tagged(root.children@, "part"@), part_list.parts@),
{
    let mut staves: Vec<Staff> = Vec::new();
    let cs = &root.children;
    let len = cs.len();
    let mut i: usize = 0;
    while i < len
        invariant
            len == cs@.len(),
            cs == &root.children,
            i <= len,
            staves_match(staves@, tagged(cs@.take(i as int), "part"@), part_list.parts@),
        decreases len - i,
    {
        proof {
            assert(cs@.take(i + 1).drop_last() =~= cs@.take(i as int));
        }
        let c = &cs[i];
        if is_element(c, "part") {
            let id = match attribute(c, "id") {
                Some(v) => v,
                None => "",
            };
            proof {
                reveal_strlit("");
            }
            let info = find_part(&part_list.parts, id);
            let ghost before = staves@;
            staves.push(parse_part(c, info));
            proof {
                let after = tagged(cs@.take(i + 1), "part"@);
                assert(after == tagged(cs@.take(i as int), "part"@).push(*c));
                assert(id@ == or_empty(attr(*c, "id"@)));
                assert forall|k: int| 0 <= k < staves@.len() implies
                    staff_matches(#[trigger] staves@[k], after[k], find_part_info(part_list.parts@, or_empty(attr(after[k], "id"@)))) by {
                    if k < before.len() {
                        assert(staves@[k] == before[k]);
                    }
                }
            }
        }
        i = i + 1;
    }
    proof {
        assert(cs@.take(len as int) =~= cs@);
    }
    staves
}

fn parse_partwise(root: &XmlNode) -> (s: Score)
    ensures
        score_matches(s, *root),
{
    let title = parse_title(root);
    let composer = parse_composer(root);
    let part_list = parse_part_list(root);
    let staves = parse_parts(root, &part_list);
    let page_size = parse_page_size(root);
    let credits = match &page_size {
        Some(p) => {
            if reads_above_zero_check(p.width.as_str()) && reads_above_zero_check(p.height.as_str()) {
                parse_credits(root)
            } else {
                Vec::new()
            }
        },
        None => Vec::new(),
    };
    let mut systems: Vec<System> = Vec::new();
    systems.push(System { staves, left_margin: 0, bracket: None });
    Score { title, composer, systems, credits, scaling: None, part_list, page_size }
}

/// Reads a score from the root element of a MusicXML document: only the
/// `score-partwise` format is read.
pub fn score_from_root(root: &XmlNode) -> (r: Result<Score, MusicXmlError>)
    ensures
        read_outcome(r, *root),
{
    proof {
        reveal_strlit("score-partwise");
        reveal_strlit("score-timewise");
    }
    if str_eq(root.name.as_str(), "score-partwise") {
        Ok(parse_partwise(root))
    } else if str_eq(root.name.as_str(), "score-timewise") {
        Err(MusicXmlError::Unsupported(
            String::from_str("score-timewise format is not supported. Use score-partwise instead."),
        ))
    } else {
        let mut m = String::from_str("Root element must be <score-partwise> or <score-timewise>, got <");
        m.append(root.name.as_str());
        m.append(">");
        Err(MusicXmlError::Unsupported(m))
    }
}

/// Parses a MusicXML text into a score. Text that is not well-formed XML
/// gives `MusicXmlError::Xml`; otherwise the root element decides, as
/// `score_from_root` says.
pub fn parse_musicxml(xml: &str) -> (r: Result<Score, MusicXmlError>)
    ensures
        xml_document(xml@) is None ==> r matches Err(MusicXmlError::Xml(_)),
        xml_document(xml@) matches Some(root) ==> read_outcome(r, root),
{
    match read_xml(xml) {
        Ok(root) => score_from_root(&root),
        Err(e) => Err(MusicXmlError::Xml(e)),
    }
}

} // verus!
