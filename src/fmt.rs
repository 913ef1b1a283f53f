use vstd::prelude::*;
use crate::ast::{Attribute, AttributeValue, ConditionalBlock, Expression, Node, Str};
use crate::css::StyleRule;

verus! {

/// Names joined by dots.
pub open spec fn dotted(p: Seq<Seq<char>>) -> Seq<char>
    decreases p.len(),
{
    if p.len() == 0 {
        Seq::empty()
    } else if p.len() == 1 {
        p[0]
    } else {
        dotted(p.drop_last()) + "."@ + p.last()
    }
}

/// An embedded expression as written: `{a.b}`.
pub open spec fn expression_source(e: Expression) -> Seq<char> {
    "{"@ + dotted(e.path@.map_values(|s: String| s@)) + "}"@
}

/// An attribute as written: `name`, `name="value"`, `name={a.b}` or `{a.b}`.
pub open spec fn attribute_source(a: Attribute) -> Seq<char> {
    match a {
        Attribute::KeyValueAttribute(kv) => match kv.value {
            None => kv.name@,
            Some(AttributeValue::String(s)) => kv.name@ + "=\""@ + s.value@ + "\""@,
            Some(AttributeValue::Slot(e)) => kv.name@ + "="@ + expression_source(e),
        },
        Attribute::ShorthandAttribute(sh) => expression_source(sh.reference),
    }
}

/// Each attribute preceded by a space.
pub open spec fn attributes_source(attrs: Seq<Attribute>) -> Seq<char>
    decreases attrs.len(),
{
    if attrs.len() == 0 {
        Seq::empty()
    } else {
        attributes_source(attrs.drop_last()) + " "@ + attribute_source(attrs.last())
    }
}

pub fn fmt_expression(e: &Expression) -> (r: String)
    ensures
        r@ == expression_source(*e),
{
    let ghost names = e.path@.map_values(|s: String| s@);
    let mut out = String::from_str("{");
    let mut i: usize = 0;
    while i < e.path.len()
        invariant
            i <= e.path@.len(),
            names == e.path@.map_values(|s: String| s@),
            out@ == "{"@ + dotted(names.subrange(0, i as int)),
        decreases e.path.len() - i,
    {
        proof {
            assert(names.subrange(0, i + 1).drop_last() =~= names.subrange(0, i as int));
        }
        if i > 0 {
            out = out.concat(".");
        }
        out = out.concat(e.path[i].as_str());
        proof {
            if i == 0 {
                assert(names.subrange(0, 1) =~= seq![names[0]]);
            }
        }
        i += 1;
    }
    proof {
        assert(names.subrange(0, names.len() as int) =~= names);
    }
    out.concat("}")
}

pub fn fmt_attribute(a: &Attribute) -> (r: String)
    ensures
        r@ == attribute_source(*a),
{
    match a {
        Attribute::KeyValueAttribute(kv) => match &kv.value {
            None => kv.name.clone(),
            Some(AttributeValue::String(s)) => kv.name.clone().concat("=\"").concat(s.value.as_str()).concat("\""),
            Some(AttributeValue::Slot(e)) => kv.name.clone().concat("=").concat(fmt_expression(e).as_str()),
        },
        Attribute::ShorthandAttribute(sh) => fmt_expression(&sh.reference),
    }
}

/// The attributes of a tag as written, each preceded by a space.
pub fn fmt_attributes(attributes: &Vec<Attribute>) -> (r: String)
    ensures
        r@ == attributes_source(attributes@),
{
    let mut out = String::new();
    let mut i: usize = 0;
    while i < attributes.len()
        invariant
            i <= attributes@.len(),
            out@ == attributes_source(attributes@.subrange(0, i as int)),
        decreases attributes.len() - i,
    {
        proof {
            assert(attributes@.subrange(0, i + 1).drop_last() =~= attributes@.subrange(0, i as int));
        }
        out = out.concat(" ");
        out = out.concat(fmt_attribute(&attributes[i]).as_str());
        i += 1;
    }
    proof {
        assert(attributes@.subrange(0, attributes@.len() as int) =~= attributes@);
    }
    out
}

/// A start tag as written: `<name attributes>`.
pub fn fmt_start_tag(tag_name: &str, attributes: &Vec<Attribute>) -> (r: String)
    ensures
        r@ == "<"@ + tag_name@ + attributes_source(attributes@) + ">"@,
{
    let out = String::from_str("<").concat(tag_name);
    let out = out.concat(fmt_attributes(attributes).as_str());
    out.concat(">")
}

/// An end tag as written: `</name>`.
pub fn fmt_end_tag(tag_name: &str) -> (r: String)
    ensures
        r@ == "</"@ + tag_name@ + ">"@,
{
    String::from_str("</").concat(tag_name).concat(">")
}

/// A quoted string as written.
pub open spec fn str_source(s: Str) -> Seq<char> {
    "\""@ + s.value@ + "\""@
}

pub fn fmt_str(s: &Str) -> (r: String)
    ensures
        r@ == str_source(*s),
{
    String::from_str("\"").concat(s.value.as_str()).concat("\"")
}

/// Style rules as written, one after another.
pub open spec fn rules_source(rules: Seq<StyleRule>) -> Seq<char>
    decreases rules.len(),
{
    if rules.len() == 0 {
        Seq::empty()
    } else {
        rules_source(rules.drop_last()) + rules.last().selector@ + "{"@ + rules.last().declarations@ + "}"@
    }
}

/// A node as source text: an element's children each followed by a space, a
/// fragment's children one after another.
pub open spec fn node_source(n: Node) -> Seq<char>
    decreases n, 1int,
{
    match n {
        Node::Text(s) => s.value@,
        Node::Slot(e) => expression_source(e),
        Node::Comment(s) => "<!--"@ + s.value@ + "-->"@,
        Node::Element(e) => "<"@ + e.tag_name@ + attributes_source(e.attributes@) + ">"@ + children_source(
            e.children@,
            " "@,
        ) + "</"@ + e.tag_name@ + ">"@,
        Node::Fragment(f) => children_source(f.children@, Seq::empty()),
        Node::StyleElement(s) => "<style"@ + attributes_source(s.attributes@) + ">"@ + rules_source(s.sheet@) + "</style>"@,
        Node::Block(crate::ast::Block::Conditional(c)) => block_source(c),
    }
}

/// Nodes as source text, each followed by `sep`.
pub open spec fn children_source(cs: Seq<Node>, sep: Seq<char>) -> Seq<char>
    decreases cs, 0int,
{
    if cs.len() == 0 {
        Seq::empty()
    } else {
        children_source(cs.subrange(0, cs.len() - 1), sep) + node_source(cs[cs.len() - 1]) + sep
    }
}

/// A conditional as source text: `{#if a}...{:else}...{/if}`.
pub open spec fn block_source(c: ConditionalBlock) -> Seq<char>
    decreases c, 0int,
{
    match c {
        ConditionalBlock::PassFailBlock(pf) => "{#if "@ + dotted(pf.condition.path@.map_values(|s: String| s@)) + "}"@ + (
        match pf.node {
            Some(n) => node_source(*n),
            None => Seq::empty(),
        }) + (match pf.fail {
            Some(f) => "{:else}"@ + block_source(*f),
            None => Seq::empty(),
        }) + "{/if}"@,
        ConditionalBlock::FinalBlock(fb) => match fb.node {
            Some(n) => node_source(*n),
            None => Seq::empty(),
        },
    }
}

fn fmt_rules(rules: &Vec<StyleRule>) -> (r: String)
    ensures
        r@ == rules_source(rules@),
{
    let mut out = String::new();
    let mut i: usize = 0;
    while i < rules.len()
        invariant
            i <= rules@.len(),
            out@ == rules_source(rules@.subrange(0, i as int)),
        decreases rules.len() - i,
    {
        proof {
            assert(rules@.subrange(0, i + 1).drop_last() =~= rules@.subrange(0, i as int));
        }
        out = out.concat(rules[i].selector.as_str()).concat("{").concat(rules[i].declarations.as_str()).concat("}");
        i += 1;
    }
    proof {
        assert(rules@.subrange(0, rules@.len() as int) =~= rules@);
    }
    out
}

fn fmt_children(children: &Vec<Node>, sep: &str) -> (r: String)
    ensures
        r@ == children_source(children@, sep@),
    decreases children, 0int,
{
    let mut out = String::new();
    let mut i: usize = 0;
    while i < children.len()
        invariant
            i <= children@.len(),
            out@ == children_source(children@.subrange(0, i as int), sep@),
        decreases children.len() - i,
    {
        proof {
            assert(children@.subrange(0, i + 1).subrange(0, i as int) =~= children@.subrange(0, i as int));
        }
        assert(decreases_to!(children => children@[i as int]));
        out = out.concat(fmt_node(&children[i]).as_str()).concat(sep);
        i += 1;
    }
    proof {
        assert(children@.subrange(0, children@.len() as int) =~= children@);
    }
    out
}

fn fmt_block(c: &ConditionalBlock) -> (r: String)
    ensures
        r@ == block_source(*c),
    decreases c, 0int,
{
    match c {
        ConditionalBlock::PassFailBlock(pf) => {
            let ghost names = pf.condition.path@.map_values(|s: String| s@);
            let mut out = String::from_str("{#if ");
            let mut i: usize = 0;
            while i < pf.condition.path.len()
                invariant
                    i <= pf.condition.path@.len(),
                    names == pf.condition.path@.map_values(|s: String| s@),
                    out@ == "{#if "@ + dotted(names.subrange(0, i as int)),
                decreases pf.condition.path.len() - i,
            {
                proof {
                    assert(names.subrange(0, i + 1).drop_last() =~= names.subrange(0, i as int));
                    if i == 0 {
                        assert(names.subrange(0, 1) =~= seq![names[0]]);
                    }
                }
                if i > 0 {
                    out = out.concat(".");
                }
                out = out.concat(pf.condition.path[i].as_str());
                i += 1;
            }
            proof {
                assert(names.subrange(0, names.len() as int) =~= names);
            }
            out = out.concat("}");
            if let Some(n) = &pf.node {
                out = out.concat(fmt_node(n).as_str());
            }
            if let Some(f) = &pf.fail {
                out = out.concat("{:else}").concat(fmt_block(f).as_str());
            }
            out.concat("{/if}")
        },
        ConditionalBlock::FinalBlock(fb) => match &fb.node {
            Some(n) => fmt_node(n),
            None => String::new(),
        },
    }
}

/// A node as source text.
pub fn fmt_node(n: &Node) -> (r: String)
    ensures
        r@ == node_source(*n),
    decreases n, 1int,
{
    match n {
        Node::Text(s) => s.value.clone(),
        Node::Slot(e) => fmt_expression(e),
        Node::Comment(s) => String::from_str("<!--").concat(s.value.as_str()).concat("-->"),
        Node::Element(e) => {
            let out = fmt_start_tag(e.tag_name.as_str(), &e.attributes);
            let out = out.concat(fmt_children(&e.children, " ").as_str());
            out.concat(fmt_end_tag(e.tag_name.as_str()).as_str())
        },
        Node::Fragment(f) => {
            let r = fmt_children(&f.children, "");
            proof {
                reveal_strlit("");
                assert(""@ =~= Seq::<char>::empty());
            }
            r
        },
        Node::StyleElement(s) => {
            let out = String::from_str("<style").concat(fmt_attributes(&s.attributes).as_str()).concat(">");
            out.concat(fmt_rules(&s.sheet).as_str()).concat("</style>")
        },
        Node::Block(crate::ast::Block::Conditional(c)) => fmt_block(c),
    }
}

} // verus!
