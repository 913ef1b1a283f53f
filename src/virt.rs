use vstd::prelude::*;
use crate::css::Sheet;

verus! {

/// An attribute of a rendered element; a bare attribute has no value.
#[derive(Debug, PartialEq)]
pub struct Attribute {
    pub name: String,
    pub value: Option<String>,
}

#[derive(Debug, PartialEq)]
pub struct Element {
    pub tag_name: String,
    pub attributes: Vec<Attribute>,
    pub children: Vec<Node>,
}

#[derive(Debug, PartialEq)]
pub struct Text {
    pub value: String,
}

/// An ordered group of nodes with no element of its own.
#[derive(Debug, PartialEq)]
pub struct Fragment {
    pub children: Vec<Node>,
}

/// The aggregated, scoped stylesheet of one render.
#[derive(Debug, PartialEq)]
pub struct StyleElement {
    pub sheet: Sheet,
}

/// A node of the rendered tree.
#[derive(Debug, PartialEq)]
pub enum Node {
    Element(Element),
    Text(Text),
    Fragment(Fragment),
    StyleElement(StyleElement),
}

/// What a rendered node is, as plain values.
pub enum NodeView {
    Element {
        tag_name: Seq<char>,
        attributes: Seq<(Seq<char>, Option<Seq<char>>)>,
        children: Seq<NodeView>,
    },
    Text(Seq<char>),
    Fragment(Seq<NodeView>),
    StyleElement(Seq<(Seq<char>, Seq<char>)>),
}

pub open spec fn opt_view(o: Option<String>) -> Option<Seq<char>> {
    match o {
        Some(s) => Some(s@),
        None => None,
    }
}

pub open spec fn attribute_view(a: Attribute) -> (Seq<char>, Option<Seq<char>>) {
    (a.name@, opt_view(a.value))
}

pub open spec fn attributes_view(s: Seq<Attribute>) -> Seq<(Seq<char>, Option<Seq<char>>)> {
    s.map_values(|a: Attribute| attribute_view(a))
}

pub open spec fn node_view(n: Node) -> NodeView
    decreases n,
{
    match n {
        Node::Element(e) => NodeView::Element {
            tag_name: e.tag_name@,
            attributes: attributes_view(e.attributes@),
            children: nodes_view(e.children@),
        },
        Node::Text(t) => NodeView::Text(t.value@),
        Node::Fragment(f) => NodeView::Fragment(nodes_view(f.children@)),
        Node::StyleElement(s) => NodeView::StyleElement(s.sheet@),
    }
}

pub open spec fn nodes_view(s: Seq<Node>) -> Seq<NodeView>
    decreases s,
{
    if s.len() == 0 {
        Seq::empty()
    } else {
        nodes_view(s.subrange(0, s.len() - 1)).push(node_view(s[s.len() - 1]))
    }
}

pub proof fn lemma_nodes_view(s: Seq<Node>)
    ensures
        nodes_view(s).len() == s.len(),
        forall|i: int| 0 <= i < s.len() ==> #[trigger] nodes_view(s)[i] == node_view(s[i]),
    decreases s.len(),
{
    if s.len() > 0 {
        let p = s.subrange(0, s.len() - 1);
        lemma_nodes_view(p);
        assert forall|i: int| 0 <= i < s.len() implies #[trigger] nodes_view(s)[i] == node_view(s[i]) by {
            if i < s.len() - 1 {
                assert(p[i] == s[i]);
            }
        }
    }
}

/// Two node sequences with pointwise equal views have equal views.
pub proof fn lemma_nodes_view_eq(a: Seq<Node>, b: Seq<Node>)
    requires
        a.len() == b.len(),
        forall|i: int| 0 <= i < a.len() ==> node_view(#[trigger] a[i]) == node_view(b[i]),
    ensures
        nodes_view(a) == nodes_view(b),
{
    lemma_nodes_view(a);
    lemma_nodes_view(b);
    assert(nodes_view(a) =~= nodes_view(b));
}

impl View for Node {
    type V = NodeView;

    open spec fn view(&self) -> NodeView {
        node_view(*self)
    }
}

pub fn duplicate_attributes(v: &Vec<Attribute>) -> (r: Vec<Attribute>)
    ensures
        attributes_view(r@) == attributes_view(v@),
{
    let mut out: Vec<Attribute> = Vec::new();
    let mut i: usize = 0;
    while i < v.len()
        invariant
            i <= v.len(),
            out@.len() == i,
            forall|j: int| 0 <= j < i ==> #[trigger] attribute_view(out@[j]) == attribute_view(v@[j]),
        decreases v.len() - i,
    {
        let value = match &v[i].value {
            Some(s) => Some(s.clone()),
            None => None,
        };
        out.push(Attribute { name: v[i].name.clone(), value });
        i += 1;
    }
    proof {
        assert(attributes_view(out@) =~= attributes_view(v@));
    }
    out
}

pub fn duplicate_sheet(s: &Sheet) -> (r: Sheet)
    ensures
        r@ == s@,
{
    let mut out: Vec<crate::css::Rule> = Vec::new();
    let mut i: usize = 0;
    while i < s.rules.len()
        invariant
            i <= s.rules.len(),
            out@.len() == i,
            forall|j: int| 0 <= j < i ==> #[trigger] crate::css::rule_view(out@[j]) == crate::css::rule_view(s.rules@[j]),
        decreases s.rules.len() - i,
    {
        out.push(crate::css::Rule { selector: s.rules[i].selector.clone(), declarations: s.rules[i].declarations.clone() });
        i += 1;
    }
    let r = Sheet { rules: out };
    proof {
        assert(r@ =~= s@);
    }
    r
}

impl Node {
    /// A copy of this node, equal in every part.
    pub fn duplicate(&self) -> (r: Node)
        ensures
            r@ == self@,
        decreases self, 1nat,
    {
        match self {
            Node::Element(e) => Node::Element(Element {
                tag_name: e.tag_name.clone(),
                attributes: duplicate_attributes(&e.attributes),
                children: duplicate_nodes(&e.children),
            }),
            Node::Text(t) => Node::Text(Text { value: t.value.clone() }),
            Node::Fragment(f) => Node::Fragment(Fragment { children: duplicate_nodes(&f.children) }),
            Node::StyleElement(s) => Node::StyleElement(StyleElement { sheet: duplicate_sheet(&s.sheet) }),
        }
    }

    /// Adds `child` before the children of an element or a fragment; other nodes are left as they are.
    pub fn prepend_child(&mut self, child: Node)
        ensures
            final(self)@ == prepended(old(self)@, child@),
    {
        match self {
            Node::Element(e) => {
                let ghost before = e.children@;
                e.children.insert(0, child);
                proof {
                    lemma_nodes_view(before);
                    lemma_nodes_view(e.children@);
                    assert(nodes_view(e.children@) =~= seq![child@] + nodes_view(before));
                }
            },
            Node::Fragment(f) => {
                let ghost before = f.children@;
                f.children.insert(0, child);
                proof {
                    lemma_nodes_view(before);
                    lemma_nodes_view(f.children@);
                    assert(nodes_view(f.children@) =~= seq![child@] + nodes_view(before));
                }
            },
            _ => {},
        }
    }
}

/// `n` with `c` as its first child, where `n` can hold children.
pub open spec fn prepended(n: NodeView, c: NodeView) -> NodeView {
    match n {
        NodeView::Element { tag_name, attributes, children } => NodeView::Element {
            tag_name,
            attributes,
            children: seq![c] + children,
        },
        NodeView::Fragment(children) => NodeView::Fragment(seq![c] + children),
        _ => n,
    }
}

pub fn duplicate_nodes(v: &Vec<Node>) -> (r: Vec<Node>)
    ensures
        nodes_view(r@) == nodes_view(v@),
    decreases v, 0nat,
{
    let mut out: Vec<Node> = Vec::new();
    let mut i: usize = 0;
    while i < v.len()
        invariant
            i <= v.len(),
            out@.len() == i,
            forall|j: int| 0 <= j < i ==> node_view(#[trigger] out@[j]) == node_view(v@[j]),
        decreases v.len() - i,
    {
        assert(decreases_to!(v => v@[i as int]));
        out.push(v[i].duplicate());
        i += 1;
    }
    proof {
        lemma_nodes_view_eq(out@, v@);
    }
    out
}

} // verus!
