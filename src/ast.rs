use vstd::prelude::*;
use crate::css::StyleRule;

verus! {

/// A span of source text, by character offsets.
#[derive(Clone, Copy, PartialEq, Eq, Debug, Structural)]
pub struct Location {
    pub start: usize,
    pub end: usize,
}

/// An embedded expression: a reference path read from the data (`a.b.c`);
/// the empty path reads the data itself.
#[derive(Debug, PartialEq)]
pub struct Expression {
    pub path: Vec<String>,
    pub location: Location,
}


/// A quoted string in the source.
#[derive(Debug, PartialEq)]
pub struct Str {
    pub value: String,
}

#[derive(Debug, PartialEq)]
pub enum AttributeValue {
    String(Str),
    Slot(Expression),
}

/// `name`, `name="value"` or `name={expression}`.
#[derive(Debug, PartialEq)]
pub struct KeyValueAttribute {
    pub name: String,
    pub value: Option<AttributeValue>,
}

/// `{reference}`: the reference both names and supplies the attribute.
#[derive(Debug, PartialEq)]
pub struct ShorthandAttribute {
    pub reference: Expression,
}

#[derive(Debug, PartialEq)]
pub enum Attribute {
    KeyValueAttribute(KeyValueAttribute),
    ShorthandAttribute(ShorthandAttribute),
}

#[derive(Debug, PartialEq)]
pub struct Element {
    pub location: Location,
    pub tag_name: String,
    pub attributes: Vec<Attribute>,
    pub children: Vec<Node>,
}

/// A `<style>` block of a document.
#[derive(Debug, PartialEq)]
pub struct StyleElement {
    pub attributes: Vec<Attribute>,
    pub sheet: Vec<StyleRule>,
}

#[derive(Debug, PartialEq)]
pub struct Fragment {
    pub children: Vec<Node>,
}

/// `{#if condition}node` followed by an optional `else` branch.
#[derive(Debug, PartialEq)]
pub struct PassFailBlock {
    pub condition: Expression,
    pub node: Option<Box<Node>>,
    pub fail: Option<Box<ConditionalBlock>>,
}

/// An `else` branch.
#[derive(Debug, PartialEq)]
pub struct FinalBlock {
    pub node: Option<Box<Node>>,
}

#[derive(Debug, PartialEq)]
pub enum ConditionalBlock {
    PassFailBlock(PassFailBlock),
    FinalBlock(FinalBlock),
}

#[derive(Debug, PartialEq)]
pub enum Block {
    Conditional(ConditionalBlock),
}

/// A node of a parsed document.
#[derive(Debug, PartialEq)]
pub enum Node {
    Element(Element),
    StyleElement(StyleElement),
    Text(Str),
    Slot(Expression),
    Fragment(Fragment),
    Block(Block),
    Comment(Str),
}

/// The children of an element or a fragment.
pub open spec fn children_of(n: Node) -> Option<Seq<Node>> {
    match n {
        Node::Element(e) => Some(e.children@),
        Node::Fragment(f) => Some(f.children@),
        _ => None,
    }
}

pub fn get_children(n: &Node) -> (r: Option<&Vec<Node>>)
    ensures
        match r {
            Some(c) => children_of(*n) == Some(c@),
            None => children_of(*n) is None,
        },
{
    match n {
        Node::Element(e) => Some(&e.children),
        Node::Fragment(f) => Some(&f.children),
        _ => None,
    }
}

/// The string value of the first attribute named `name` that has one.
pub open spec fn attribute_string(attrs: Seq<Attribute>, name: Seq<char>) -> Option<Seq<char>>
    decreases attrs.len(),
{
    if attrs.len() == 0 {
        None
    } else {
        let rest = attribute_string(attrs.drop_first(), name);
        match attrs[0] {
            Attribute::KeyValueAttribute(kv) => if kv.name@ == name {
                match kv.value {
                    Some(AttributeValue::String(s)) => Some(s.value@),
                    _ => rest,
                }
            } else {
                rest
            },
            _ => rest,
        }
    }
}

pub fn get_attribute_value<'a>(name: &str, element: &'a Element) -> (r: Option<&'a String>)
    ensures
        match r {
            Some(s) => attribute_string(element.attributes@, name@) == Some(s@),
            None => attribute_string(element.attributes@, name@) is None,
        },
{
    let attrs = &element.attributes;
    let mut i: usize = 0;
    proof {
        assert(attrs@.subrange(0, attrs@.len() as int) =~= attrs@);
    }
    while i < attrs.len()
        invariant
            i <= attrs@.len(),
            attrs@ == element.attributes@,
            attribute_string(attrs@, name@) == attribute_string(attrs@.subrange(i as int, attrs@.len() as int), name@),
        decreases attrs.len() - i,
    {
        let ghost rest = attrs@.subrange(i as int, attrs@.len() as int);
        proof {
            assert(rest.drop_first() =~= attrs@.subrange(i + 1, attrs@.len() as int));
            assert(rest[0] == attrs@[i as int]);
        }
        if let Attribute::KeyValueAttribute(kv) = &attrs[i] {
            if let Some(AttributeValue::String(s)) = &kv.value {
                if crate::text::str_eq(kv.name.as_str(), name) {
                    return Some(&s.value);
                }
            }
        }
        i += 1;
    }
    None
}

/// The names that `import` elements among a document's top-level nodes declare
/// by their `id` attribute.
pub open spec fn import_ids(children: Seq<Node>) -> Seq<Seq<char>>
    decreases children.len(),
{
    if children.len() == 0 {
        Seq::empty()
    } else {
        let rest = import_ids(children.subrange(0, children.len() - 1));
        match children.last() {
            Node::Element(e) => if e.tag_name@ == "import"@ {
                match attribute_string(e.attributes@, "id"@) {
                    Some(id) => rest.push(id),
                    None => rest,
                }
            } else {
                rest
            },
            _ => rest,
        }
    }
}

pub open spec fn document_import_ids(root: Node) -> Seq<Seq<char>> {
    match children_of(root) {
        Some(c) => import_ids(c),
        None => Seq::empty(),
    }
}

pub fn get_import_ids(root: &Node) -> (r: Vec<String>)
    ensures
        r@.map_values(|s: String| s@) == document_import_ids(*root),
{
    let mut out: Vec<String> = Vec::new();
    if let Some(children) = get_children(root) {
        let mut i: usize = 0;
        while i < children.len()
            invariant
                i <= children@.len(),
                children_of(*root) == Some(children@),
                out@.map_values(|s: String| s@) == import_ids(children@.subrange(0, i as int)),
            decreases children.len() - i,
        {
            let ghost before = out@;
            proof {
                assert(children@.subrange(0, i + 1).subrange(0, i as int) =~= children@.subrange(0, i as int));
            }
            if let Node::Element(e) = &children[i] {
                if crate::text::str_eq(e.tag_name.as_str(), "import") {
                    if let Some(id) = get_attribute_value("id", e) {
                        out.push(id.clone());
                        proof {
                            assert(out@.map_values(|s: String| s@) =~= before.map_values(|s: String| s@).push(id@));
                        }
                    }
                }
            }
            i += 1;
        }
        proof {
            assert(children@.subrange(0, children@.len() as int) =~= children@);
        }
    } else {
        proof {
            assert(out@.map_values(|s: String| s@) =~= Seq::<Seq<char>>::empty());
        }
    }
    out
}

/// The `(id, src)` pairs that `import` elements among a document's top-level
/// nodes declare; an import without both attributes declares none.
pub open spec fn import_sources(children: Seq<Node>) -> Seq<(Seq<char>, Seq<char>)>
    decreases children.len(),
{
    if children.len() == 0 {
        Seq::empty()
    } else {
        let rest = import_sources(children.subrange(0, children.len() - 1));
        match children.last() {
            Node::Element(e) => if e.tag_name@ == "import"@ {
                match (attribute_string(e.attributes@, "id"@), attribute_string(e.attributes@, "src"@)) {
                    (Some(id), Some(src)) => rest.push((id, src)),
                    _ => rest,
                }
            } else {
                rest
            },
            _ => rest,
        }
    }
}

pub open spec fn document_import_sources(root: Node) -> Seq<(Seq<char>, Seq<char>)> {
    match children_of(root) {
        Some(c) => import_sources(c),
        None => Seq::empty(),
    }
}

/// The imports that a document declares, as `(id, src)` pairs in order.
pub fn get_import_sources(root: &Node) -> (r: Vec<(String, String)>)
    ensures
        r@.map_values(|p: (String, String)| (p.0@, p.1@)) == document_import_sources(*root),
{
    let mut out: Vec<(String, String)> = Vec::new();
    if let Some(children) = get_children(root) {
        let mut i: usize = 0;
        while i < children.len()
            invariant
                i <= children@.len(),
                children_of(*root) == Some(children@),
                out@.map_values(|p: (String, String)| (p.0@, p.1@)) == import_sources(children@.subrange(0, i as int)),
            decreases children.len() - i,
        {
            let ghost before = out@;
            proof {
                assert(children@.subrange(0, i + 1).subrange(0, i as int) =~= children@.subrange(0, i as int));
            }
            if let Node::Element(e) = &children[i] {
                if crate::text::str_eq(e.tag_name.as_str(), "import") {
                    if let Some(id) = get_attribute_value("id", e) {
                        if let Some(src) = get_attribute_value("src", e) {
                            out.push((id.clone(), src.clone()));
                            proof {
                                assert(out@.map_values(|p: (String, String)| (p.0@, p.1@))
                                    =~= before.map_values(|p: (String, String)| (p.0@, p.1@)).push((id@, src@)));
                            }
                        }
                    }
                }
            }
            i += 1;
        }
        proof {
            assert(children@.subrange(0, children@.len() as int) =~= children@);
        }
    } else {
        proof {
            assert(out@.map_values(|p: (String, String)| (p.0@, p.1@)) =~= Seq::<(Seq<char>, Seq<char>)>::empty());
        }
    }
    out
}

} // verus!
