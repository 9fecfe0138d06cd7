use vstd::prelude::*;
use crate::text::to_chars;

verus! {

/// An attribute of an XML element: its local name and its value.
pub struct XmlAttr {
    pub name: Vec<char>,
    pub value: Vec<char>,
}

/// One node of a parsed XML document, as the document lists it in document order: the root
/// node first, then every element, text, comment and instruction node.
pub struct XmlNode {
    /// The local tag name; empty for a node that is not an element.
    pub name: Vec<char>,
    /// The attributes of an element, in document order.
    pub attrs: Vec<XmlAttr>,
    /// For an element, the text of its first child when that child is a text node; for a
    /// text or comment node, its own text.
    pub text: Option<Vec<char>>,
    /// The position of the parent node.
    pub parent: Option<usize>,
    /// The number of positions that the node and its descendants take: they are the
    /// positions from its own up to (not including) its own plus `size`.
    pub size: usize,
}

/// The plain value of an `XmlNode`.
pub struct XmlNodeView {
    pub name: Seq<char>,
    pub attrs: Seq<(Seq<char>, Seq<char>)>,
    pub text: Option<Seq<char>>,
    pub parent: Option<int>,
    pub size: int,
}

impl View for XmlNode {
    type V = XmlNodeView;

    open spec fn view(&self) -> XmlNodeView {
        XmlNodeView {
            name: self.name@,
            attrs: self.attrs@.map_values(|a: XmlAttr| (a.name@, a.value@)),
            text: match self.text {
                Some(t) => Some(t@),
                None => None,
            },
            parent: match self.parent {
                Some(p) => Some(p as int),
                None => None,
            },
            size: self.size as int,
        }
    }
}

/// One past the position of node `i`'s last descendant.
pub open spec fn node_end(nodes: Seq<XmlNodeView>, i: int) -> int {
    i + nodes[i].size
}

/// The plain values of a list of nodes.
pub open spec fn nodes_view(v: Seq<XmlNode>) -> Seq<XmlNodeView> {
    v.map_values(|n: XmlNode| n@)
}

/// The plain value of a parse result.
pub open spec fn parse_result_view(r: Result<Vec<XmlNode>, String>) -> Result<
    Seq<XmlNodeView>,
    Seq<char>,
> {
    match r {
        Ok(v) => Ok(nodes_view(v@)),
        Err(e) => Err(e@),
    }
}

/// What roxmltree's `Document::parse` yields for `xml`: the document's nodes in document
/// order, or the message of its parse error.
pub uninterp spec fn xml_parse(xml: Seq<char>) -> Result<Seq<XmlNodeView>, Seq<char>>;

/// Every node's subtree is non-empty and lies within the list, starting at the node, and
/// every parent comes before its children.
pub open spec fn tree_shaped(nodes: Seq<XmlNodeView>) -> bool {
    &&& nodes.len() > 0
    &&& forall|i: int| 0 <= i < nodes.len() ==> 0 < #[trigger] nodes[i].size && i + nodes[i].size <= nodes.len()
    &&& forall|i: int|
        0 <= i < nodes.len() ==> (#[trigger] nodes[i].parent matches Some(p) ==> 0 <= p < i)
}

/// roxmltree's `Document::parse`, read out node by node over `descendants()` of the root
/// (document order, node ids 0, 1, ...): tag name, attributes, `text()`, parent id, and the
/// number of nodes in the node's subtree (`descendants().len()`). A parse error becomes its
/// message. The result is named by `xml_parse`; the source shows that the root exists, that
/// a subtree is a non-empty range of ids starting at the node, and that a parent's id is
/// smaller than its children's.
#[verifier::external_body]
pub(crate) fn parse_xml(xml: &str) -> (res: Result<Vec<XmlNode>, String>)
    ensures
        parse_result_view(res) == xml_parse(xml@),
        res matches Ok(v) ==> tree_shaped(nodes_view(v@)),
{
    let doc = roxmltree::Document::parse(xml).map_err(|e| e.to_string())?;
    Ok(doc.descendants().map(|n| XmlNode {
        name: n.tag_name().name().chars().collect(),
        attrs: n.attributes().map(|a| XmlAttr {
            name: a.name().chars().collect(),
            value: a.value().chars().collect(),
        }).collect(),
        text: n.text().map(|t| t.chars().collect()),
        parent: n.parent().map(|p| p.id().get_usize()),
        size: n.descendants().len(),
    }).collect())
}

// ── Queries over the node list ─────────────────────────────────────────

/// The value of the first attribute named `name`.
pub open spec fn first_attr(attrs: Seq<(Seq<char>, Seq<char>)>, name: Seq<char>) -> Option<
    Seq<char>,
>
    decreases attrs.len(),
{
    if attrs.len() == 0 {
        None
    } else if attrs[0].0 == name {
        Some(attrs[0].1)
    } else {
        first_attr(attrs.skip(1), name)
    }
}

/// The value of the node's attribute `name`, or the empty string.
pub open spec fn attr_value(n: XmlNodeView, name: Seq<char>) -> Seq<char> {
    match first_attr(n.attrs, name) {
        Some(v) => v,
        None => Seq::empty(),
    }
}

/// The first position in `[lo, hi)` whose node has tag `tag`.
pub open spec fn first_with_tag(nodes: Seq<XmlNodeView>, lo: int, hi: int, tag: Seq<char>) -> Option<
    int,
>
    decreases hi - lo,
{
    if lo >= hi {
        None
    } else if nodes[lo].name == tag {
        Some(lo)
    } else {
        first_with_tag(nodes, lo + 1, hi, tag)
    }
}

/// The first node with tag `tag` among node `i` and its descendants.
pub open spec fn descendant_with_tag(nodes: Seq<XmlNodeView>, i: int, tag: Seq<char>) -> Option<int> {
    first_with_tag(nodes, i, node_end(nodes, i), tag)
}

/// The text of the first node with tag `tag` among node `i` and its descendants.
pub open spec fn text_of(nodes: Seq<XmlNodeView>, i: int, tag: Seq<char>) -> Option<Seq<char>> {
    match descendant_with_tag(nodes, i, tag) {
        Some(j) => nodes[j].text,
        None => None,
    }
}

/// `text_of`, or the empty string where there is none.
pub open spec fn text_or_empty(nodes: Seq<XmlNodeView>, i: int, tag: Seq<char>) -> Seq<char> {
    match text_of(nodes, i, tag) {
        Some(t) => t,
        None => Seq::empty(),
    }
}

/// The positions in `[lo, hi)` whose node has tag `tag`, in order.
pub open spec fn positions_with_tag(nodes: Seq<XmlNodeView>, lo: int, hi: int, tag: Seq<char>) -> Seq<
    int,
>
    decreases hi - lo,
{
    if hi <= lo {
        Seq::empty()
    } else if nodes[hi - 1].name == tag {
        positions_with_tag(nodes, lo, hi - 1, tag).push(hi - 1)
    } else {
        positions_with_tag(nodes, lo, hi - 1, tag)
    }
}

/// The first child of node `i` with tag `tag`.
pub open spec fn child_with_tag_from(nodes: Seq<XmlNodeView>, i: int, from: int, tag: Seq<char>) -> Option<
    int,
>
    decreases nodes.len() - from,
{
    if from < 0 || from >= nodes.len() {
        None
    } else if nodes[from].parent == Some(i) && nodes[from].name == tag {
        Some(from)
    } else {
        child_with_tag_from(nodes, i, from + 1, tag)
    }
}

/// The first child of node `i` with tag `tag`.
pub open spec fn child_with_tag(nodes: Seq<XmlNodeView>, i: int, tag: Seq<char>) -> Option<int> {
    child_with_tag_from(nodes, i, 0, tag)
}

// ── Executable queries ─────────────────────────────────────────────────

/// Tests two character sequences for equality.
pub fn eq_chars(a: &Vec<char>, b: &Vec<char>) -> (res: bool)
    ensures
        res == (a@ == b@),
{
    if a.len() != b.len() {
        return false;
    }
    let mut i: usize = 0;
    while i < a.len()
        invariant
            a@.len() == b@.len(),
            i <= a@.len(),
            forall|j: int| 0 <= j < i ==> a@[j] == b@[j],
        decreases a.len() - i,
    {
        if a[i] != b[i] {
            return false;
        }
        i = i + 1;
    }
    assert(a@ =~= b@);
    true
}

/// The value of the node's attribute `name`, or the empty string.
pub fn attr(node: &XmlNode, name: &str) -> (res: Vec<char>)
    ensures
        res@ == attr_value(node@, name@),
{
    let nm = to_chars(name);
    let mut i: usize = 0;
    let ghost attrs = node@.attrs;
    assert(attrs.skip(0) =~= attrs);
    while i < node.attrs.len()
        invariant
            i <= node.attrs@.len(),
            attrs == node@.attrs,
            nm@ == name@,
            first_attr(attrs, name@) == first_attr(attrs.skip(i as int), name@),
        decreases node.attrs.len() - i,
    {
        assert(attrs.skip(i as int)[0] == attrs[i as int]);
        assert(attrs.skip(i as int).skip(1) =~= attrs.skip(i + 1));
        if eq_chars(&node.attrs[i].name, &nm) {
            return node.attrs[i].value.clone();
        }
        i = i + 1;
    }
    Vec::new()
}

/// Node `i` has tag `tag`.
pub fn has_tag(nodes: &Vec<XmlNode>, i: usize, tag: &Vec<char>) -> (res: bool)
    requires
        i < nodes@.len(),
    ensures
        res == (nodes_view(nodes@)[i as int].name == tag@),
{
    eq_chars(&nodes[i].name, tag)
}

/// The first position in `[lo, hi)` whose node has tag `tag`.
pub fn first_with_tag_exec(nodes: &Vec<XmlNode>, lo: usize, hi: usize, tag: &Vec<char>) -> (res:
    Option<usize>)
    requires
        hi <= nodes@.len(),
    ensures
        res matches Some(j) ==> first_with_tag(nodes_view(nodes@), lo as int, hi as int, tag@)
            == Some(j as int),
        res is None ==> first_with_tag(nodes_view(nodes@), lo as int, hi as int, tag@) is None,
{
    let mut i = lo;
    while i < hi
        invariant
            lo <= i,
            hi <= nodes@.len(),
            first_with_tag(nodes_view(nodes@), lo as int, hi as int, tag@) == first_with_tag(
                nodes_view(nodes@),
                i as int,
                hi as int,
                tag@,
            ),
        decreases hi - i,
    {
        if has_tag(nodes, i, tag) {
            return Some(i);
        }
        i = i + 1;
    }
    None
}

/// The text of the first node with tag `tag` among node `i` and its descendants.
pub fn text_of_exec(nodes: &Vec<XmlNode>, i: usize, tag: &str) -> (res: Option<Vec<char>>)
    requires
        i < nodes@.len(),
        tree_shaped(nodes_view(nodes@)),
    ensures
        match res {
            Some(t) => text_of(nodes_view(nodes@), i as int, tag@) == Some(t@),
            None => text_of(nodes_view(nodes@), i as int, tag@) is None,
        },
{
    let tv = to_chars(tag);
    assert(nodes_view(nodes@)[i as int].size == nodes@[i as int].size);
    assert(0 < nodes_view(nodes@)[i as int].size && i + nodes_view(nodes@)[i as int].size <= nodes_view(nodes@).len());
    assert(nodes_view(nodes@).len() == nodes.len());
    let end = i + nodes[i].size;
    match first_with_tag_exec(nodes, i, end, &tv) {
        Some(j) => {
            proof {
                lemma_first_with_tag_range(nodes_view(nodes@), i as int, end as int, tag@);
            }
            match &nodes[j].text {
                Some(t) => Some(t.clone()),
                None => None,
            }
        },
        None => None,
    }
}

/// `text_of`, or the empty string where there is none.
pub fn text_or_empty_exec(nodes: &Vec<XmlNode>, i: usize, tag: &str) -> (res: Vec<char>)
    requires
        i < nodes@.len(),
        tree_shaped(nodes_view(nodes@)),
    ensures
        res@ == text_or_empty(nodes_view(nodes@), i as int, tag@),
{
    match text_of_exec(nodes, i, tag) {
        Some(t) => t,
        None => Vec::new(),
    }
}

/// A found position lies in the range searched.
pub proof fn lemma_first_with_tag_range(nodes: Seq<XmlNodeView>, lo: int, hi: int, tag: Seq<char>)
    ensures
        first_with_tag(nodes, lo, hi, tag) matches Some(j) ==> lo <= j < hi && nodes[j].name
            == tag,
    decreases hi - lo,
{
    if lo < hi && nodes[lo].name != tag {
        lemma_first_with_tag_range(nodes, lo + 1, hi, tag);
    }
}

/// The first child of node `i` with tag `tag`.
pub fn child_with_tag_exec(nodes: &Vec<XmlNode>, i: usize, tag: &str) -> (res: Option<usize>)
    ensures
        res matches Some(j) ==> child_with_tag(nodes_view(nodes@), i as int, tag@) == Some(
            j as int,
        ) && j < nodes@.len(),
        res is None ==> child_with_tag(nodes_view(nodes@), i as int, tag@) is None,
{
    let tv = to_chars(tag);
    let mut j: usize = 0;
    while j < nodes.len()
        invariant
            j <= nodes@.len(),
            tv@ == tag@,
            child_with_tag(nodes_view(nodes@), i as int, tag@) == child_with_tag_from(
                nodes_view(nodes@),
                i as int,
                j as int,
                tag@,
            ),
        decreases nodes.len() - j,
    {
        let is_child = match nodes[j].parent {
            Some(p) => p == i,
            None => false,
        };
        if is_child && has_tag(nodes, j, &tv) {
            return Some(j);
        }
        j = j + 1;
    }
    None
}

} // verus!
