use vstd::prelude::*;
use crate::ast::{
    attribute_string, children_of, document_import_ids, Attribute, AttributeValue, Block,
    ConditionalBlock, Element, Expression, Location, Node,
};
use crate::css::{scope_attribute, scoped_rules};
use crate::error::{ErrorKind, RuntimeError};
use crate::graph::{dep_index, flatten_spec, import_path, unresolved, Dependency};
use crate::scope::scope_of;
use crate::value::{eval_expression, stringify, Value};
use crate::virt::{prepended, NodeView};

verus! {

/// What a node evaluates to: a rendered node, nothing (pruned), or an error.
pub type Outcome = Result<Option<NodeView>, RuntimeError>;

/// The evaluation context as plain values.
pub struct Env {
    pub file_path: Seq<char>,
    pub import_ids: Seq<Seq<char>>,
    pub scope: Seq<char>,
    pub data: Value,
    pub in_part: bool,
    /// How many more components may be nested.
    pub depth: nat,
}

pub open spec fn with_in_part(e: Env, in_part: bool) -> Env {
    Env { in_part, ..e }
}

/// The context in which the document `root` of `file_path` is evaluated.
pub open spec fn document_env(root: Node, file_path: Seq<char>, data: Value, depth: nat) -> Env {
    Env {
        file_path,
        import_ids: document_import_ids(root),
        scope: scope_of(file_path),
        data,
        in_part: false,
        depth,
    }
}

pub open spec fn text(s: Seq<char>) -> NodeView {
    NodeView::Text(s)
}

/// An item of an array written into the tree: a node as it is, anything else as text.
pub open spec fn item_node(v: Value) -> NodeView {
    match v {
        Value::Node(n) => n,
        _ => text(stringify(v)),
    }
}

/// What a slot renders for the value of its expression.
pub open spec fn slot_node(v: Value) -> NodeView {
    match v {
        Value::Array(items) => NodeView::Fragment(items.map_values(|x: Value| item_node(x))),
        _ => text(stringify(v)),
    }
}

pub open spec fn eval_slot(env: Env, e: Expression) -> Outcome {
    match eval_expression(e, env.data) {
        Ok(v) => Ok(Some(slot_node(v))),
        Err(err) => Err(err),
    }
}

/// Evaluated children as one node: a single child stands for itself, any other
/// number is wrapped in a fragment.
pub open spec fn as_fragment(r: Result<Seq<NodeView>, RuntimeError>) -> Outcome {
    match r {
        Err(e) => Err(e),
        Ok(vs) => if vs.len() == 1 {
            Ok(Some(vs[0]))
        } else {
            Ok(Some(NodeView::Fragment(vs)))
        },
    }
}

/// `r` with `acc` before its items.
pub open spec fn prefixed<A>(acc: Seq<A>, r: Result<Seq<A>, RuntimeError>) -> Result<Seq<A>, RuntimeError> {
    match r {
        Ok(rest) => Ok(acc + rest),
        Err(e) => Err(e),
    }
}

pub proof fn lemma_prefixed_push<A>(acc: Seq<A>, v: A, r: Result<Seq<A>, RuntimeError>)
    ensures
        prefixed(acc, prefixed(seq![v], r)) == prefixed(acc.push(v), r),
        prefixed(acc, r) == prefixed(acc, prefixed(Seq::<A>::empty(), r)),
{
    match r {
        Ok(rest) => {
            assert(acc + (seq![v] + rest) =~= acc.push(v) + rest);
            assert(Seq::<A>::empty() + rest =~= rest);
        },
        Err(_) => {},
    }
}

/// The text of an attribute value.
pub open spec fn attribute_text(env: Env, v: AttributeValue) -> Result<Seq<char>, RuntimeError> {
    match v {
        AttributeValue::String(s) => Ok(s.value@),
        AttributeValue::Slot(e) => match eval_expression(e, env.data) {
            Ok(x) => Ok(stringify(x)),
            Err(err) => Err(err),
        },
    }
}

/// The name that a shorthand attribute's reference gives: its last segment.
pub open spec fn shorthand_name(e: Expression) -> Option<Seq<char>> {
    if e.path@.len() == 0 {
        None
    } else {
        Some(e.path@.last()@)
    }
}

pub open spec fn malformed(loc: Location) -> RuntimeError {
    RuntimeError { kind: ErrorKind::MalformedShorthand, location: loc }
}

/// One attribute of a basic element, its value as text.
pub open spec fn basic_attribute(env: Env, a: Attribute) -> Result<(Seq<char>, Option<Seq<char>>), RuntimeError> {
    match a {
        Attribute::KeyValueAttribute(kv) => match kv.value {
            None => Ok((kv.name@, None)),
            Some(v) => match attribute_text(env, v) {
                Ok(t) => Ok((kv.name@, Some(t))),
                Err(e) => Err(e),
            },
        },
        Attribute::ShorthandAttribute(sh) => match shorthand_name(sh.reference) {
            None => Err(malformed(sh.reference.location)),
            Some(name) => match eval_expression(sh.reference, env.data) {
                Ok(x) => Ok((name, Some(stringify(x)))),
                Err(e) => Err(e),
            },
        },
    }
}

/// The attributes of a basic element, in order; the first error stops.
pub open spec fn basic_attributes(env: Env, attrs: Seq<Attribute>) -> Result<Seq<(Seq<char>, Option<Seq<char>>)>, RuntimeError>
    decreases attrs.len(),
{
    if attrs.len() == 0 {
        Ok(Seq::empty())
    } else {
        match basic_attribute(env, attrs[0]) {
            Err(e) => Err(e),
            Ok(a) => prefixed(seq![a], basic_attributes(env, attrs.drop_first())),
        }
    }
}

/// One attribute handed to a component: a bare name is `true`, a value is its
/// text, a shorthand is the value of its expression.
pub open spec fn component_binding(env: Env, a: Attribute) -> Result<(Seq<char>, Value), RuntimeError> {
    match a {
        Attribute::KeyValueAttribute(kv) => match kv.value {
            None => Ok((kv.name@, Value::Boolean(true))),
            Some(v) => match attribute_text(env, v) {
                Ok(t) => Ok((kv.name@, Value::Str(t))),
                Err(e) => Err(e),
            },
        },
        Attribute::ShorthandAttribute(sh) => match shorthand_name(sh.reference) {
            None => Err(malformed(sh.reference.location)),
            Some(name) => match eval_expression(sh.reference, env.data) {
                Ok(x) => Ok((name, x)),
                Err(e) => Err(e),
            },
        },
    }
}

pub open spec fn component_bindings(env: Env, attrs: Seq<Attribute>) -> Result<Seq<(Seq<char>, Value)>, RuntimeError>
    decreases attrs.len(),
{
    if attrs.len() == 0 {
        Ok(Seq::empty())
    } else {
        match component_binding(env, attrs[0]) {
            Err(e) => Err(e),
            Ok(b) => prefixed(seq![b], component_bindings(env, attrs.drop_first())),
        }
    }
}

/// The data a component is evaluated against: its attributes, then its
/// rendered children under `children`.
pub open spec fn component_data(bindings: Seq<(Seq<char>, Value)>, children: Seq<NodeView>) -> Value {
    Value::Object(bindings.push(("children"@, Value::Array(children.map_values(|n: NodeView| Value::Node(n))))))
}

/// Evaluates a syntax node.
pub open spec fn eval_node(g: Seq<Dependency>, env: Env, n: Node, is_root: bool) -> Outcome
    decreases env.depth, n, 5int,
{
    match n {
        Node::Element(el) => eval_element(g, env, el, is_root),
        Node::StyleElement(_) => Ok(None),
        Node::Text(t) => Ok(Some(text(t.value@))),
        Node::Slot(e) => eval_slot(env, e),
        Node::Fragment(f) => as_fragment(eval_children(g, env, f.children@)),
        Node::Block(Block::Conditional(c)) => eval_conditional(g, env, c),
        Node::Comment(_) => Ok(None),
    }
}

/// Evaluates an element by its tag name.
pub open spec fn eval_element(g: Seq<Dependency>, env: Env, el: Element, is_root: bool) -> Outcome
    decreases env.depth, el, 4int,
{
    let tag = el.tag_name@;
    if tag == "import"@ {
        Ok(None)
    } else if tag == "self"@ {
        if !env.in_part {
            Err(RuntimeError { kind: ErrorKind::InvalidContext, location: el.location })
        } else {
            eval_component(g, env, el, env.file_path)
        }
    } else if tag == "part"@ {
        if !is_root {
            Ok(None)
        } else {
            as_fragment(eval_children(g, with_in_part(env, true), el.children@))
        }
    } else if tag == "script"@ {
        Ok(None)
    } else if env.import_ids.contains(tag) {
        match dep_index(g, env.file_path) {
            None => Err(unresolved(el.location)),
            Some(k) => match import_path(g[k as int].dependencies@, tag) {
                None => Err(unresolved(el.location)),
                Some(path) => eval_component(g, env, el, path),
            },
        }
    } else {
        eval_basic_element(g, env, el)
    }
}

/// Instantiates the component of file `path` for the element `el`.
pub open spec fn eval_component(g: Seq<Dependency>, env: Env, el: Element, path: Seq<char>) -> Outcome
    decreases env.depth, el, 1int,
{
    if env.depth == 0 {
        Err(RuntimeError { kind: ErrorKind::NestingTooDeep, location: el.location })
    } else {
        let env = with_in_part(env, false);
        match dep_index(g, path) {
            None => Err(unresolved(el.location)),
            Some(k) => match component_bindings(env, el.attributes@) {
                Err(e) => Err(e),
                Ok(bindings) => match eval_children(g, env, el.children@) {
                    Err(e) => Err(e),
                    Ok(children) => eval_document(
                        g,
                        g[k as int].expression,
                        path,
                        component_data(bindings, children),
                        (env.depth - 1) as nat,
                    ),
                },
            },
        }
    }
}

/// Evaluates a document on its own, as a component is.
pub open spec fn eval_document(g: Seq<Dependency>, root: Node, path: Seq<char>, data: Value, depth: nat) -> Outcome
    decreases depth, root, 6int,
{
    eval_node(g, document_env(root, path, data, depth), root, false)
}

/// An element rendered as itself, marked with its file's scope attribute.
pub open spec fn eval_basic_element(g: Seq<Dependency>, env: Env, el: Element) -> Outcome
    decreases env.depth, el, 1int,
{
    match basic_attributes(env, el.attributes@) {
        Err(e) => Err(e),
        Ok(attrs) => match eval_children(g, env, el.children@) {
            Err(e) => Err(e),
            Ok(children) => Ok(
                Some(
                    NodeView::Element {
                        tag_name: el.tag_name@,
                        attributes: attrs.push((scope_attribute(env.scope), None)),
                        children,
                    },
                ),
            ),
        },
    }
}

/// Evaluates children in order, dropping those that evaluate to nothing.
pub open spec fn eval_children(g: Seq<Dependency>, env: Env, cs: Seq<Node>) -> Result<Seq<NodeView>, RuntimeError>
    decreases env.depth, cs, 2int,
{
    if cs.len() == 0 {
        Ok(Seq::empty())
    } else {
        match eval_node(g, env, cs[0], false) {
            Err(e) => Err(e),
            Ok(None) => eval_children(g, env, cs.subrange(1, cs.len() as int)),
            Ok(Some(v)) => prefixed(seq![v], eval_children(g, env, cs.subrange(1, cs.len() as int))),
        }
    }
}

/// Evaluates a conditional block: the branch that its condition selects.
pub open spec fn eval_conditional(g: Seq<Dependency>, env: Env, c: ConditionalBlock) -> Outcome
    decreases env.depth, c, 3int,
{
    match c {
        ConditionalBlock::PassFailBlock(pf) => match eval_expression(pf.condition, env.data) {
            Err(e) => Err(e),
            Ok(v) => if crate::value::truthy(v) && pf.node is Some {
                eval_node(g, env, *pf.node->Some_0, false)
            } else {
                match pf.fail {
                    Some(f) => eval_conditional(g, env, *f),
                    None => Ok(None),
                }
            },
        },
        ConditionalBlock::FinalBlock(fb) => match fb.node {
            Some(n) => eval_node(g, env, *n, false),
            None => Ok(None),
        },
    }
}

/// The scoped rules of the style blocks among `cs`, in order.
pub open spec fn children_rules(cs: Seq<Node>, scope: Seq<char>) -> Seq<(Seq<char>, Seq<char>)>
    decreases cs.len(),
{
    if cs.len() == 0 {
        Seq::empty()
    } else {
        let prev = children_rules(cs.drop_last(), scope);
        match cs.last() {
            Node::StyleElement(se) => prev + scoped_rules(se.sheet@, scope),
            _ => prev,
        }
    }
}

/// The scoped rules of a document's top-level style blocks.
pub open spec fn document_rules(root: Node, scope: Seq<char>) -> Seq<(Seq<char>, Seq<char>)> {
    match children_of(root) {
        Some(cs) => children_rules(cs, scope),
        None => Seq::empty(),
    }
}

/// The rules of the listed graph entries, each under its own file's scope.
pub open spec fn entries_rules(g: Seq<Dependency>, order: Seq<usize>) -> Seq<(Seq<char>, Seq<char>)>
    decreases order.len(),
{
    if order.len() == 0 {
        Seq::empty()
    } else {
        let prev = entries_rules(g, order.drop_last());
        let k = order.last();
        if k < g.len() {
            prev + document_rules(g[k as int].expression, scope_of(g[k as int].file_path@))
        } else {
            prev
        }
    }
}

/// The one stylesheet of a render: the rules of every file in the flattened
/// graph from `path`, in that order, each file's rules taken from its graph
/// entry and scoped with its own token. Where the graph holds no entry for
/// `path`, the rules of `entry`, the document being rendered, alone.
pub open spec fn jumbo_rules(g: Seq<Dependency>, entry: Node, path: Seq<char>) -> Result<Seq<(Seq<char>, Seq<char>)>, RuntimeError> {
    match dep_index(g, path) {
        None => Ok(document_rules(entry, scope_of(path))),
        Some(_) => match flatten_spec(g, path) {
            Err(e) => Err(e),
            Ok(order) => Ok(entries_rules(g, order)),
        },
    }
}

/// The first top-level `part` element whose `id` is `name`.
pub open spec fn find_part(cs: Seq<Node>, name: Seq<char>) -> Option<Node>
    decreases cs.len(),
{
    if cs.len() == 0 {
        None
    } else {
        match cs[0] {
            Node::Element(e) => if e.tag_name@ == "part"@ && attribute_string(e.attributes@, "id"@) == Some(name) {
                Some(cs[0])
            } else {
                find_part(cs.drop_first(), name)
            },
            _ => find_part(cs.drop_first(), name),
        }
    }
}

/// The node a render starts from: the named part where there is one, else the
/// whole document.
pub open spec fn target_node(root: Node, part: Option<Seq<char>>) -> Node {
    match part {
        Some(name) => match children_of(root) {
            Some(cs) => match find_part(cs, name) {
                Some(p) => p,
                None => root,
            },
            None => root,
        },
        None => root,
    }
}

/// A whole render: the target evaluated as root, with the jumbo stylesheet
/// as its first child.
pub open spec fn evaluate_spec(
    g: Seq<Dependency>,
    root: Node,
    path: Seq<char>,
    data: Value,
    part: Option<Seq<char>>,
    depth: nat,
) -> Outcome {
    match eval_node(g, document_env(root, path, data, depth), target_node(root, part), true) {
        Err(e) => Err(e),
        Ok(None) => Ok(None),
        Ok(Some(v)) => match jumbo_rules(g, root, path) {
            Err(e) => Err(e),
            Ok(rules) => Ok(Some(prepended(v, NodeView::StyleElement(rules)))),
        },
    }
}

} // verus!
