use vstd::prelude::*;
use crate::css::{Rule, Sheet};
use crate::value::{lemma_values_view, values_view, JsValue, Value};
use crate::virt::{self, attribute_view, attributes_view, lemma_nodes_view, node_view, nodes_view, NodeView};

verus! {

// The wire format of a rendered tree is made of plain values, one tagged array
// per node:
//   ["element", tag name, [[name, value or undefined], ...], [child, ...]]
//   ["text", value]
//   ["fragment", [child, ...]]
//   ["style", [[selector, declarations], ...]]

pub open spec fn opt_str(o: Option<Seq<char>>) -> Value {
    match o {
        Some(s) => Value::Str(s),
        None => Value::Undefined,
    }
}

pub open spec fn attribute_wire(a: (Seq<char>, Option<Seq<char>>)) -> Value {
    Value::Array(seq![Value::Str(a.0), opt_str(a.1)])
}

pub open spec fn rule_wire(r: (Seq<char>, Seq<char>)) -> Value {
    Value::Array(seq![Value::Str(r.0), Value::Str(r.1)])
}

/// A rendered node in the wire format.
pub open spec fn wire_of(n: NodeView) -> Value
    decreases n,
{
    match n {
        NodeView::Element { tag_name, attributes, children } => Value::Array(
            seq![
                Value::Str("element"@),
                Value::Str(tag_name),
                Value::Array(attributes.map_values(|a: (Seq<char>, Option<Seq<char>>)| attribute_wire(a))),
                Value::Array(wires_of(children)),
            ],
        ),
        NodeView::Text(s) => Value::Array(seq![Value::Str("text"@), Value::Str(s)]),
        NodeView::Fragment(children) => Value::Array(seq![Value::Str("fragment"@), Value::Array(wires_of(children))]),
        NodeView::StyleElement(rules) => Value::Array(
            seq![Value::Str("style"@), Value::Array(rules.map_values(|r: (Seq<char>, Seq<char>)| rule_wire(r)))],
        ),
    }
}

pub open spec fn wires_of(s: Seq<NodeView>) -> Seq<Value>
    decreases s,
{
    if s.len() == 0 {
        Seq::empty()
    } else {
        wires_of(s.subrange(0, s.len() - 1)).push(wire_of(s[s.len() - 1]))
    }
}

pub open spec fn attribute_of(v: Value) -> Option<(Seq<char>, Option<Seq<char>>)> {
    match v {
        Value::Array(p) => if p.len() == 2 {
            match (p[0], p[1]) {
                (Value::Str(name), Value::Str(value)) => Some((name, Some(value))),
                (Value::Str(name), Value::Undefined) => Some((name, None)),
                _ => None,
            }
        } else {
            None
        },
        _ => None,
    }
}

pub open spec fn rule_of(v: Value) -> Option<(Seq<char>, Seq<char>)> {
    match v {
        Value::Array(p) => if p.len() == 2 {
            match (p[0], p[1]) {
                (Value::Str(s), Value::Str(d)) => Some((s, d)),
                _ => None,
            }
        } else {
            None
        },
        _ => None,
    }
}

pub open spec fn attributes_of(s: Seq<Value>) -> Option<Seq<(Seq<char>, Option<Seq<char>>)>>
    decreases s.len(),
{
    if s.len() == 0 {
        Some(Seq::empty())
    } else {
        match (attributes_of(s.drop_last()), attribute_of(s.last())) {
            (Some(prev), Some(a)) => Some(prev.push(a)),
            _ => None,
        }
    }
}

pub open spec fn rules_of(s: Seq<Value>) -> Option<Seq<(Seq<char>, Seq<char>)>>
    decreases s.len(),
{
    if s.len() == 0 {
        Some(Seq::empty())
    } else {
        match (rules_of(s.drop_last()), rule_of(s.last())) {
            (Some(prev), Some(r)) => Some(prev.push(r)),
            _ => None,
        }
    }
}

/// The rendered node that a wire value stands for, if it stands for one.
pub open spec fn node_of(v: Value) -> Option<NodeView>
    decreases v,
{
    match v {
        Value::Array(items) => if items.len() == 4 && items[0] == Value::Str("element"@) {
            match (items[1], items[2], items[3]) {
                (Value::Str(tag_name), Value::Array(attrs), Value::Array(cs)) => match (attributes_of(attrs), nodes_of(cs)) {
                    (Some(attributes), Some(children)) => Some(NodeView::Element { tag_name, attributes, children }),
                    _ => None,
                },
                _ => None,
            }
        } else if items.len() == 2 && items[0] == Value::Str("text"@) {
            match items[1] {
                Value::Str(s) => Some(NodeView::Text(s)),
                _ => None,
            }
        } else if items.len() == 2 && items[0] == Value::Str("fragment"@) {
            match items[1] {
                Value::Array(cs) => match nodes_of(cs) {
                    Some(children) => Some(NodeView::Fragment(children)),
                    None => None,
                },
                _ => None,
            }
        } else if items.len() == 2 && items[0] == Value::Str("style"@) {
            match items[1] {
                Value::Array(rs) => match rules_of(rs) {
                    Some(rules) => Some(NodeView::StyleElement(rules)),
                    None => None,
                },
                _ => None,
            }
        } else {
            None
        },
        _ => None,
    }
}

pub open spec fn nodes_of(s: Seq<Value>) -> Option<Seq<NodeView>>
    decreases s,
{
    if s.len() == 0 {
        Some(Seq::empty())
    } else {
        match (nodes_of(s.subrange(0, s.len() - 1)), node_of(s[s.len() - 1])) {
            (Some(prev), Some(n)) => Some(prev.push(n)),
            _ => None,
        }
    }
}

proof fn lemma_kinds_differ()
    ensures
        "element"@ != "text"@,
        "element"@ != "fragment"@,
        "element"@ != "style"@,
        "text"@ != "fragment"@,
        "text"@ != "style"@,
        "fragment"@ != "style"@,
{
    reveal_strlit("element");
    reveal_strlit("text");
    reveal_strlit("fragment");
    reveal_strlit("style");
    assert("element"@.len() != "text"@.len());
    assert("element"@.len() != "fragment"@.len());
    assert("element"@.len() != "style"@.len());
    assert("text"@.len() != "fragment"@.len());
    assert("text"@.len() != "style"@.len());
    assert("fragment"@.len() != "style"@.len());
}

proof fn lemma_attributes_round_trip(s: Seq<(Seq<char>, Option<Seq<char>>)>)
    ensures
        attributes_of(s.map_values(|a: (Seq<char>, Option<Seq<char>>)| attribute_wire(a))) == Some(s),
    decreases s.len(),
{
    if s.len() > 0 {
        let p = s.drop_last();
        lemma_attributes_round_trip(p);
        assert(s.map_values(|a: (Seq<char>, Option<Seq<char>>)| attribute_wire(a)).drop_last()
            =~= p.map_values(|a: (Seq<char>, Option<Seq<char>>)| attribute_wire(a)));
        assert(p.push(s.last()) =~= s);
    }
}

proof fn lemma_rules_round_trip(s: Seq<(Seq<char>, Seq<char>)>)
    ensures
        rules_of(s.map_values(|r: (Seq<char>, Seq<char>)| rule_wire(r))) == Some(s),
    decreases s.len(),
{
    if s.len() > 0 {
        let p = s.drop_last();
        lemma_rules_round_trip(p);
        assert(s.map_values(|r: (Seq<char>, Seq<char>)| rule_wire(r)).drop_last()
            =~= p.map_values(|r: (Seq<char>, Seq<char>)| rule_wire(r)));
        assert(p.push(s.last()) =~= s);
    }
}

/// Reading back the wire form of a rendered tree gives the same tree: the
/// same tag names and text, attributes in the same order, children in the
/// same order.
pub proof fn lemma_wire_round_trip(n: NodeView)
    ensures
        node_of(wire_of(n)) == Some(n),
    decreases n, 1nat,
{
    lemma_kinds_differ();
    match n {
        NodeView::Element { tag_name, attributes, children } => {
            lemma_attributes_round_trip(attributes);
            lemma_wires_round_trip(children);
        },
        NodeView::Text(_) => {},
        NodeView::Fragment(children) => {
            lemma_wires_round_trip(children);
        },
        NodeView::StyleElement(rules) => {
            lemma_rules_round_trip(rules);
        },
    }
}

pub proof fn lemma_wires_round_trip(s: Seq<NodeView>)
    ensures
        nodes_of(wires_of(s)) == Some(s),
    decreases s, 0nat,
{
    if s.len() > 0 {
        let p = s.subrange(0, s.len() - 1);
        lemma_wires_round_trip(p);
        lemma_wire_round_trip(s[s.len() - 1]);
        assert(wires_of(s).subrange(0, wires_of(s).len() - 1) =~= wires_of(p));
        assert(p.push(s[s.len() - 1]) =~= s);
    }
}

pub proof fn lemma_wires_of(s: Seq<NodeView>)
    ensures
        wires_of(s).len() == s.len(),
        forall|i: int| 0 <= i < s.len() ==> #[trigger] wires_of(s)[i] == wire_of(s[i]),
    decreases s.len(),
{
    if s.len() > 0 {
        let p = s.subrange(0, s.len() - 1);
        lemma_wires_of(p);
        assert forall|i: int| 0 <= i < s.len() implies #[trigger] wires_of(s)[i] == wire_of(s[i]) by {
            if i < s.len() - 1 {
                assert(p[i] == s[i]);
            }
        }
    }
}

pub open spec fn node_option_view(o: Option<virt::Node>) -> Option<NodeView> {
    match o {
        Some(n) => Some(n@),
        None => None,
    }
}

fn str_value(s: &str) -> (r: JsValue)
    ensures
        r@ == Value::Str(s@),
{
    JsValue::Str(String::from_str(s))
}

fn encode_nodes(children: &Vec<virt::Node>) -> (r: JsValue)
    ensures
        r@ == Value::Array(wires_of(nodes_view(children@))),
    decreases children, 0nat,
{
    let mut out: Vec<JsValue> = Vec::new();
    let mut i: usize = 0;
    while i < children.len()
        invariant
            i <= children@.len(),
            out@.len() == i,
            forall|j: int| 0 <= j < i ==> (#[trigger] out@[j])@ == wire_of(node_view(children@[j])),
        decreases children.len() - i,
    {
        assert(decreases_to!(children => children@[i as int]));
        out.push(to_wire(&children[i]));
        i += 1;
    }
    proof {
        lemma_values_view(out@);
        lemma_nodes_view(children@);
        lemma_wires_of(nodes_view(children@));
        assert(values_view(out@) =~= wires_of(nodes_view(children@)));
    }
    JsValue::Array(out)
}

/// A rendered node in the wire format.
pub fn to_wire(node: &virt::Node) -> (r: JsValue)
    ensures
        r@ == wire_of(node@),
    decreases node, 1nat,
{
    match node {
        virt::Node::Element(e) => {
            let mut attrs: Vec<JsValue> = Vec::new();
            let mut i: usize = 0;
            while i < e.attributes.len()
                invariant
                    i <= e.attributes@.len(),
                    attrs@.len() == i,
                    forall|j: int|
                        0 <= j < i ==> (#[trigger] attrs@[j])@ == attribute_wire(attribute_view(e.attributes@[j])),
                decreases e.attributes.len() - i,
            {
                let a = &e.attributes[i];
                let value = match &a.value {
                    Some(v) => JsValue::Str(v.clone()),
                    None => JsValue::Undefined,
                };
                let pair = vec![JsValue::Str(a.name.clone()), value];
                proof {
                    lemma_values_view(pair@);
                    assert(values_view(pair@) =~= seq![Value::Str(a.name@), opt_str(virt::opt_view(a.value))]);
                }
                attrs.push(JsValue::Array(pair));
                i += 1;
            }
            proof {
                lemma_values_view(attrs@);
                assert(values_view(attrs@) =~= attributes_view(e.attributes@).map_values(
                    |a: (Seq<char>, Option<Seq<char>>)| attribute_wire(a),
                ));
            }
            let items = vec![str_value("element"), JsValue::Str(e.tag_name.clone()), JsValue::Array(attrs), encode_nodes(&e.children)];
            proof {
                lemma_values_view(items@);
                assert(values_view(items@) =~= wire_of(node@)->Array_0);
            }
            JsValue::Array(items)
        },
        virt::Node::Text(t) => {
            let items = vec![str_value("text"), JsValue::Str(t.value.clone())];
            proof {
                lemma_values_view(items@);
                assert(values_view(items@) =~= wire_of(node@)->Array_0);
            }
            JsValue::Array(items)
        },
        virt::Node::Fragment(f) => {
            let items = vec![str_value("fragment"), encode_nodes(&f.children)];
            proof {
                lemma_values_view(items@);
                assert(values_view(items@) =~= wire_of(node@)->Array_0);
            }
            JsValue::Array(items)
        },
        virt::Node::StyleElement(s) => {
            let rules = &s.sheet.rules;
            let mut out: Vec<JsValue> = Vec::new();
            let mut i: usize = 0;
            while i < rules.len()
                invariant
                    i <= rules@.len(),
                    out@.len() == i,
                    forall|j: int| 0 <= j < i ==> (#[trigger] out@[j])@ == rule_wire(crate::css::rule_view(rules@[j])),
                decreases rules.len() - i,
            {
                let pair = vec![JsValue::Str(rules[i].selector.clone()), JsValue::Str(rules[i].declarations.clone())];
                proof {
                    lemma_values_view(pair@);
                    assert(values_view(pair@) =~= seq![Value::Str(rules@[i as int].selector@), Value::Str(rules@[i as int].declarations@)]);
                }
                out.push(JsValue::Array(pair));
                i += 1;
            }
            proof {
                lemma_values_view(out@);
                assert(values_view(out@) =~= s.sheet@.map_values(|r: (Seq<char>, Seq<char>)| rule_wire(r)));
            }
            let items = vec![str_value("style"), JsValue::Array(out)];
            proof {
                lemma_values_view(items@);
                assert(values_view(items@) =~= wire_of(node@)->Array_0);
            }
            JsValue::Array(items)
        },
    }
}

fn decode_attribute(v: &JsValue) -> (r: Option<virt::Attribute>)
    ensures
        match attribute_of(v@) {
            Some(a) => r is Some && attribute_view(r->Some_0) == a,
            None => r is None,
        },
{
    match v {
        JsValue::Array(p) => {
            proof {
                lemma_values_view(p@);
            }
            if p.len() != 2 {
                return None;
            }
            let name = match &p[0] {
                JsValue::Str(n) => n.clone(),
                _ => return None,
            };
            match &p[1] {
                JsValue::Str(value) => Some(virt::Attribute { name, value: Some(value.clone()) }),
                JsValue::Undefined => Some(virt::Attribute { name, value: None }),
                _ => None,
            }
        },
        _ => None,
    }
}

fn decode_rule(v: &JsValue) -> (r: Option<Rule>)
    ensures
        match rule_of(v@) {
            Some(a) => r is Some && crate::css::rule_view(r->Some_0) == a,
            None => r is None,
        },
{
    match v {
        JsValue::Array(p) => {
            proof {
                lemma_values_view(p@);
            }
            if p.len() != 2 {
                return None;
            }
            match (&p[0], &p[1]) {
                (JsValue::Str(selector), JsValue::Str(declarations)) => Some(
                    Rule { selector: selector.clone(), declarations: declarations.clone() },
                ),
                _ => None,
            }
        },
        _ => None,
    }
}

fn decode_attributes(items: &Vec<JsValue>) -> (r: Option<Vec<virt::Attribute>>)
    ensures
        match attributes_of(values_view(items@)) {
            Some(a) => r is Some && attributes_view(r->Some_0@) == a,
            None => r is None,
        },
{
    proof {
        lemma_values_view(items@);
    }
    let ghost vs = values_view(items@);
    let mut out: Vec<virt::Attribute> = Vec::new();
    let mut ok = true;
    let mut i: usize = 0;
    while i < items.len()
        invariant
            i <= items@.len(),
            vs == values_view(items@),
            vs.len() == items@.len(),
            forall|j: int| 0 <= j < items@.len() ==> #[trigger] vs[j] == items@[j]@,
            match attributes_of(vs.subrange(0, i as int)) {
                Some(x) => ok && attributes_view(out@) == x,
                None => !ok,
            },
        decreases items.len() - i,
    {
        proof {
            assert(vs.subrange(0, i + 1).drop_last() =~= vs.subrange(0, i as int));
        }
        if ok {
            match decode_attribute(&items[i]) {
                Some(a) => {
                    out.push(a);
                    proof {
                        assert(attributes_view(out@) =~= attributes_of(vs.subrange(0, i as int))->Some_0.push(attribute_view(a)));
                    }
                },
                None => {
                    ok = false;
                },
            }
        }
        i += 1;
    }
    proof {
        assert(vs.subrange(0, vs.len() as int) =~= vs);
    }
    if ok {
        Some(out)
    } else {
        None
    }
}

fn decode_rules(items: &Vec<JsValue>) -> (r: Option<Sheet>)
    ensures
        match rules_of(values_view(items@)) {
            Some(a) => r is Some && r->Some_0@ == a,
            None => r is None,
        },
{
    proof {
        lemma_values_view(items@);
    }
    let ghost vs = values_view(items@);
    let mut out: Vec<Rule> = Vec::new();
    let mut ok = true;
    let mut i: usize = 0;
    while i < items.len()
        invariant
            i <= items@.len(),
            vs == values_view(items@),
            vs.len() == items@.len(),
            forall|j: int| 0 <= j < items@.len() ==> #[trigger] vs[j] == items@[j]@,
            match rules_of(vs.subrange(0, i as int)) {
                Some(x) => ok && out@.map_values(|r: Rule| crate::css::rule_view(r)) == x,
                None => !ok,
            },
        decreases items.len() - i,
    {
        proof {
            assert(vs.subrange(0, i + 1).drop_last() =~= vs.subrange(0, i as int));
        }
        if ok {
            match decode_rule(&items[i]) {
                Some(a) => {
                    out.push(a);
                    proof {
                        assert(out@.map_values(|r: Rule| crate::css::rule_view(r))
                            =~= rules_of(vs.subrange(0, i as int))->Some_0.push(crate::css::rule_view(a)));
                    }
                },
                None => {
                    ok = false;
                },
            }
        }
        i += 1;
    }
    proof {
        assert(vs.subrange(0, vs.len() as int) =~= vs);
    }
    if ok {
        Some(Sheet { rules: out })
    } else {
        None
    }
}

fn decode_nodes(items: &Vec<JsValue>) -> (r: Option<Vec<virt::Node>>)
    ensures
        match nodes_of(values_view(items@)) {
            Some(ns) => r is Some && nodes_view(r->Some_0@) == ns,
            None => r is None,
        },
    decreases items, 0nat,
{
    proof {
        lemma_values_view(items@);
    }
    let ghost vs = values_view(items@);
    let mut out: Vec<virt::Node> = Vec::new();
    let mut ok = true;
    let mut i: usize = 0;
    while i < items.len()
        invariant
            i <= items@.len(),
            vs == values_view(items@),
            vs.len() == items@.len(),
            forall|j: int| 0 <= j < items@.len() ==> #[trigger] vs[j] == items@[j]@,
            match nodes_of(vs.subrange(0, i as int)) {
                Some(x) => ok && nodes_view(out@) == x,
                None => !ok,
            },
        decreases items.len() - i,
    {
        proof {
            assert(vs.subrange(0, i + 1).subrange(0, i as int) =~= vs.subrange(0, i as int));
        }
        if ok {
            assert(decreases_to!(items => items@[i as int]));
            match from_wire(&items[i]) {
                Some(n) => {
                    let ghost before = out@;
                    out.push(n);
                    proof {
                        assert(out@.subrange(0, out@.len() - 1) =~= before);
                    }
                },
                None => {
                    ok = false;
                },
            }
        }
        i += 1;
    }
    proof {
        assert(vs.subrange(0, vs.len() as int) =~= vs);
    }
    if ok {
        Some(out)
    } else {
        None
    }
}

/// The rendered node that a wire value stands for; `None` where the value is
/// not in the wire format.
pub fn from_wire(v: &JsValue) -> (r: Option<virt::Node>)
    ensures
        node_option_view(r) == node_of(v@),
    decreases v, 1nat,
{
    proof {
        lemma_kinds_differ();
    }
    let items = match v {
        JsValue::Array(items) => items,
        _ => return None,
    };
    proof {
        lemma_values_view(items@);
    }
    let n = items.len();
    if n == 0 {
        return None;
    }
    let kind = match &items[0] {
        JsValue::Str(k) => k,
        _ => return None,
    };
    if crate::text::str_eq(kind.as_str(), "element") {
        if n != 4 {
            return None;
        }
        let tag_name = match &items[1] {
            JsValue::Str(t) => t.clone(),
            _ => return None,
        };
        let attributes = match &items[2] {
            JsValue::Array(attrs) => match decode_attributes(attrs) {
                Some(a) => a,
                None => return None,
            },
            _ => return None,
        };
        assert(decreases_to!(items => items@[3]));
        let children = match &items[3] {
            JsValue::Array(cs) => match decode_nodes(cs) {
                Some(c) => c,
                None => return None,
            },
            _ => return None,
        };
        Some(virt::Node::Element(virt::Element { tag_name, attributes, children }))
    } else if crate::text::str_eq(kind.as_str(), "text") {
        if n != 2 {
            return None;
        }
        match &items[1] {
            JsValue::Str(t) => Some(virt::Node::Text(virt::Text { value: t.clone() })),
            _ => None,
        }
    } else if crate::text::str_eq(kind.as_str(), "fragment") {
        if n != 2 {
            return None;
        }
        assert(decreases_to!(items => items@[1]));
        match &items[1] {
            JsValue::Array(cs) => match decode_nodes(cs) {
                Some(children) => Some(virt::Node::Fragment(virt::Fragment { children })),
                None => None,
            },
            _ => None,
        }
    } else if crate::text::str_eq(kind.as_str(), "style") {
        if n != 2 {
            return None;
        }
        match &items[1] {
            JsValue::Array(rs) => match decode_rules(rs) {
                Some(sheet) => Some(virt::Node::StyleElement(virt::StyleElement { sheet })),
                None => None,
            },
            _ => None,
        }
    } else {
        None
    }
}

} // verus!
