//! An XML element tree owned by the library, read from text by `roxmltree`,
//! and the queries the MusicXML reader makes on it.

use vstd::prelude::*;
use crate::text::{spec_trim, str_eq, trim};

verus! {

/// Kind of an XML node (`roxmltree::NodeType`).
#[derive(Clone, Copy, PartialEq, Eq, Debug, Structural)]
pub enum XmlKind {
    Root,
    Element,
    ProcessingInstruction,
    Comment,
    Text,
}

/// An attribute: local name and value.
#[derive(Clone, Debug)]
pub struct XmlAttribute {
    pub name: String,
    pub value: String,
}

/// An XML node with its children, as `roxmltree` exposes it: `name` is the
/// local tag name (empty for non-elements), `text` is the node's text (for
/// an element, the text of its first child when that child is a text node).
#[derive(Debug)]
pub struct XmlNode {
    pub kind: XmlKind,
    pub name: String,
    pub attributes: Vec<XmlAttribute>,
    pub text: Option<String>,
    pub children: Vec<XmlNode>,
}

#[verifier::external_type_specification]
#[verifier::external_body]
pub struct ExXmlError(roxmltree::Error);

#[verifier::external_type_specification]
#[verifier::external_body]
pub struct ExXmlNode<'a, 'input: 'a>(roxmltree::Node<'a, 'input>);

/// The root element of the XML document `text`, as read by `roxmltree`
/// with DTDs allowed; `None` when `roxmltree` rejects the text.
pub uninterp spec fn xml_document(text: Seq<char>) -> Option<XmlNode>;

/// Copies a `roxmltree` node and its subtree into an `XmlNode`, node for node.
#[verifier::external_body]
fn copy_node(node: roxmltree::Node) -> XmlNode {
    let kind = match node.node_type() {
        roxmltree::NodeType::Root => XmlKind::Root,
        roxmltree::NodeType::Element => XmlKind::Element,
        roxmltree::NodeType::PI => XmlKind::ProcessingInstruction,
        roxmltree::NodeType::Comment => XmlKind::Comment,
        roxmltree::NodeType::Text => XmlKind::Text,
    };
    XmlNode {
        kind,
        name: node.tag_name().name().to_string(),
        attributes: node.attributes().map(|a| XmlAttribute { name: a.name().to_string(), value: a.value().to_string() }).collect(),
        text: node.text().map(|t| t.to_string()),
        children: node.children().map(copy_node).collect(),
    }
}

/// Reads `text` with `roxmltree::Document::parse_with_options` (DTDs allowed)
/// and returns a copy of its root element. Claims only that the outcome is
/// the one `xml_document` names for this text.
#[verifier::external_body]
pub(crate) fn read_xml(text: &str) -> (r: Result<XmlNode, roxmltree::Error>)
    ensures
        r is Ok <==> xml_document(text@) is Some,
        r matches Ok(n) ==> xml_document(text@) == Some(n),
{
    let opts = roxmltree::ParsingOptions { allow_dtd: true, ..roxmltree::ParsingOptions::default() };
    roxmltree::Document::parse_with_options(text, opts).map(|doc| copy_node(doc.root_element()))
}

/// The view of an optional string.
pub open spec fn opt_view(o: Option<String>) -> Option<Seq<char>> {
    match o {
        Some(s) => Some(s@),
        None => None,
    }
}

/// `n` is an element named `tag` (`roxmltree::Node::has_tag_name`).
pub open spec fn is_tag(n: XmlNode, tag: Seq<char>) -> bool {
    n.kind == XmlKind::Element && n.name@ == tag
}

/// The first node of `cs` named `tag`.
pub open spec fn find_tag(cs: Seq<XmlNode>, tag: Seq<char>) -> Option<XmlNode>
    decreases cs.len(),
{
    if cs.len() == 0 {
        None
    } else if is_tag(cs[0], tag) {
        Some(cs[0])
    } else {
        find_tag(cs.drop_first(), tag)
    }
}

/// First child of `n` named `tag`.
pub open spec fn child(n: XmlNode, tag: Seq<char>) -> Option<XmlNode> {
    find_tag(n.children@, tag)
}

/// `n` has a child named `tag`.
pub open spec fn has_child(n: XmlNode, tag: Seq<char>) -> bool {
    child(n, tag) is Some
}

/// Text of a node.
pub open spec fn node_text(n: XmlNode) -> Option<Seq<char>> {
    opt_view(n.text)
}

/// Trimmed text of the first child named `tag`.
pub open spec fn child_text(n: XmlNode, tag: Seq<char>) -> Option<Seq<char>> {
    match child(n, tag) {
        Some(c) => match node_text(c) {
            Some(t) => Some(spec_trim(t)),
            None => None,
        },
        None => None,
    }
}

/// Value of the first attribute of `attrs` named `name`.
pub open spec fn find_attr(attrs: Seq<XmlAttribute>, name: Seq<char>) -> Option<Seq<char>>
    decreases attrs.len(),
{
    if attrs.len() == 0 {
        None
    } else if attrs[0].name@ == name {
        Some(attrs[0].value@)
    } else {
        find_attr(attrs.drop_first(), name)
    }
}

/// Value of the attribute `name` of `n` (`roxmltree::Node::attribute`).
pub open spec fn attr(n: XmlNode, name: Seq<char>) -> Option<Seq<char>> {
    find_attr(n.attributes@, name)
}

/// `n`'s attribute `name` equals `value`.
pub open spec fn attr_is(n: XmlNode, name: Seq<char>, value: Seq<char>) -> bool {
    attr(n, name) == Some(value)
}

/// The nodes of `cs` named `tag`, in order.
pub open spec fn tagged(cs: Seq<XmlNode>, tag: Seq<char>) -> Seq<XmlNode>
    decreases cs.len(),
{
    if cs.len() == 0 {
        Seq::empty()
    } else if is_tag(cs.last(), tag) {
        tagged(cs.drop_last(), tag).push(cs.last())
    } else {
        tagged(cs.drop_last(), tag)
    }
}

/// Number of children of `n` named `tag`.
pub open spec fn count_children(n: XmlNode, tag: Seq<char>) -> nat {
    tagged(n.children@, tag).len()
}

proof fn lemma_find_tag_skip(cs: Seq<XmlNode>, tag: Seq<char>, i: int)
    requires
        0 <= i <= cs.len(),
        forall|k: int| 0 <= k < i ==> !is_tag(#[trigger] cs[k], tag),
    ensures
        find_tag(cs, tag) == find_tag(cs.subrange(i, cs.len() as int), tag),
    decreases i,
{
    if i > 0 {
        lemma_find_tag_skip(cs.drop_first(), tag, i - 1);
        assert(cs.drop_first().subrange(i - 1, cs.drop_first().len() as int) =~= cs.subrange(i, cs.len() as int));
    } else {
        assert(cs.subrange(0, cs.len() as int) =~= cs);
    }
}

/// `n` is an element named `tag`.
pub fn is_element(n: &XmlNode, tag: &str) -> (b: bool)
    ensures
        b == is_tag(*n, tag@),
{
    n.kind == XmlKind::Element && str_eq(n.name.as_str(), tag)
}

/// First child of `n` named `tag`.
pub fn find_child<'a>(n: &'a XmlNode, tag: &str) -> (r: Option<&'a XmlNode>)
    ensures
        match r {
            Some(c) => child(*n, tag@) == Some(*c),
            None => child(*n, tag@) is None,
        },
{
    let cs = &n.children;
    let len = cs.len();
    let mut i: usize = 0;
    while i < len
        invariant
            len == cs@.len(),
            cs == &n.children,
            i <= len,
            forall|k: int| 0 <= k < i ==> !is_tag(#[trigger] cs@[k], tag@),
        decreases len - i,
    {
        if is_element(&cs[i], tag) {
            proof {
                lemma_find_tag_skip(cs@, tag@, i as int);
            }
            return Some(&cs[i]);
        }
        i = i + 1;
    }
    proof {
        lemma_find_tag_skip(cs@, tag@, len as int);
    }
    None
}

/// `n` has a child named `tag`.
pub fn has_child_tag(n: &XmlNode, tag: &str) -> (b: bool)
    ensures
        b == has_child(*n, tag@),
{
    find_child(n, tag).is_some()
}

/// Text of a node, copied.
pub fn text_of(n: &XmlNode) -> (r: Option<String>)
    ensures
        opt_view(r) == node_text(*n),
{
    match &n.text {
        Some(t) => Some(t.clone()),
        None => None,
    }
}

/// Trimmed text of the first child named `tag`.
pub fn first_child_text(n: &XmlNode, tag: &str) -> (r: Option<String>)
    ensures
        opt_view(r) == child_text(*n, tag@),
{
    match find_child(n, tag) {
        Some(c) => match &c.text {
            Some(t) => Some(trim(t.as_str())),
            None => None,
        },
        None => None,
    }
}

proof fn lemma_find_attr_skip(a: Seq<XmlAttribute>, name: Seq<char>, i: int)
    requires
        0 <= i <= a.len(),
        forall|k: int| 0 <= k < i ==> (#[trigger] a[k]).name@ != name,
    ensures
        find_attr(a, name) == find_attr(a.subrange(i, a.len() as int), name),
    decreases i,
{
    if i > 0 {
        lemma_find_attr_skip(a.drop_first(), name, i - 1);
        assert(a.drop_first().subrange(i - 1, a.drop_first().len() as int) =~= a.subrange(i, a.len() as int));
    } else {
        assert(a.subrange(0, a.len() as int) =~= a);
    }
}

/// Value of the attribute `name` of `n`.
pub fn attribute<'a>(n: &'a XmlNode, name: &str) -> (r: Option<&'a str>)
    ensures
        match r {
            Some(v) => attr(*n, name@) == Some(v@),
            None => attr(*n, name@) is None,
        },
{
    let a = &n.attributes;
    let len = a.len();
    let mut i: usize = 0;
    while i < len
        invariant
            len == a@.len(),
            a == &n.attributes,
            i <= len,
            forall|k: int| 0 <= k < i ==> (#[trigger] a@[k]).name@ != name@,
        decreases len - i,
    {
        if str_eq(a[i].name.as_str(), name) {
            proof {
                lemma_find_attr_skip(a@, name@, i as int);
            }
            return Some(a[i].value.as_str());
        }
        i = i + 1;
    }
    proof {
        lemma_find_attr_skip(a@, name@, len as int);
    }
    None
}

/// The attribute `name` of `n` is present and equals `value`.
pub fn attribute_is(n: &XmlNode, name: &str, value: &str) -> (b: bool)
    ensures
        b == attr_is(*n, name@, value@),
{
    match attribute(n, name) {
        Some(v) => str_eq(v, value),
        None => false,
    }
}

/// Number of children of `n` named `tag`.
pub fn count_child_tags(n: &XmlNode, tag: &str) -> (c: usize)
    ensures
        c == count_children(*n, tag@),
{
    let cs = &n.children;
    let len = cs.len();
    let mut c: usize = 0;
    let mut i: usize = 0;
    while i < len
        invariant
            len == cs@.len(),
            cs == &n.children,
            i <= len,
            c == tagged(cs@.take(i as int), tag@).len(),
            c <= i,
        decreases len - i,
    {
        proof {
            assert(cs@.take(i + 1).drop_last() =~= cs@.take(i as int));
        }
        if is_element(&cs[i], tag) {
            c = c + 1;
        }
        i = i + 1;
    }
    proof {
        assert(cs@.take(len as int) =~= cs@);
    }
    c
}

} // verus!
