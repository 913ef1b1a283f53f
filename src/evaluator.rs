use vstd::prelude::*;
use crate::ast::{
    get_children, get_import_ids, Attribute, AttributeValue, Block, ConditionalBlock, Element,
    Expression, Fragment, Node, PassFailBlock, StyleElement,
};
use crate::css::{evaluate_sheet, scope_attribute_name, Sheet};
use crate::error::{ErrorKind, RuntimeError};
use crate::graph::{find_import, DependencyGraph};
use crate::scope::get_component_scope;
use crate::semantics::{
    as_fragment, children_rules, component_data, document_rules, entries_rules, evaluate_spec,
    jumbo_rules, attribute_text, basic_attribute, basic_attributes, component_binding,
    component_bindings, eval_basic_element, eval_children, eval_component, eval_conditional,
    eval_document, eval_element, eval_node, eval_slot, item_node, lemma_prefixed_push, prefixed,
    with_in_part, Env, Outcome,
};
use crate::text::str_eq;
use crate::value::{
    bindings_view, evaluate_expression, lemma_bindings_view, lemma_values_view, value_result,
    values_view, Binding, JsValue, Value,
};
use crate::virt::{self, attribute_view, attributes_view, lemma_nodes_view, node_view, nodes_view, NodeView};

verus! {

/// How deeply components may be nested in one render.
pub const MAX_COMPONENT_DEPTH: usize = 64;

/// What evaluation of a node needs to know besides the node.
pub struct Context<'a> {
    pub graph: &'a DependencyGraph,
    pub file_path: &'a String,
    /// The component names that the current file imports.
    pub import_ids: &'a Vec<String>,
    /// The scope token of the current file.
    pub scope: &'a String,
    pub data: &'a JsValue,
    /// Whether evaluation is inside a `part`.
    pub in_part: bool,
    /// How many more components may be nested.
    pub depth: usize,
}

impl<'a> Context<'a> {
    pub open spec fn env(&self) -> Env {
        Env {
            file_path: self.file_path@,
            import_ids: self.import_ids@.map_values(|s: String| s@),
            scope: self.scope@,
            data: self.data@,
            in_part: self.in_part,
            depth: self.depth as nat,
        }
    }

    /// This context with `in_part` set as given.
    pub fn with_in_part(&self, in_part: bool) -> (r: Context<'a>)
        ensures
            r.env() == with_in_part(self.env(), in_part),
            r.graph == self.graph,
            r.depth == self.depth,
    {
        Context {
            graph: self.graph,
            file_path: self.file_path,
            import_ids: self.import_ids,
            scope: self.scope,
            data: self.data,
            in_part,
            depth: self.depth,
        }
    }
}

pub open spec fn outcome(r: Result<Option<virt::Node>, RuntimeError>) -> Outcome {
    match r {
        Ok(Some(n)) => Ok(Some(n@)),
        Ok(None) => Ok(None),
        Err(e) => Err(e),
    }
}

pub open spec fn nodes_outcome(r: Result<Vec<virt::Node>, RuntimeError>) -> Result<Seq<NodeView>, RuntimeError> {
    match r {
        Ok(v) => Ok(nodes_view(v@)),
        Err(e) => Err(e),
    }
}

pub open spec fn graph_of(c: &Context) -> Seq<crate::graph::Dependency> {
    c.graph.dependencies@
}

fn contains_name(names: &Vec<String>, name: &String) -> (r: bool)
    ensures
        r == names@.map_values(|s: String| s@).contains(name@),
{
    let ghost view = names@.map_values(|s: String| s@);
    let mut i: usize = 0;
    while i < names.len()
        invariant
            i <= names@.len(),
            view == names@.map_values(|s: String| s@),
            forall|j: int| 0 <= j < i ==> view[j] != name@,
        decreases names.len() - i,
    {
        if names[i] == *name {
            proof {
                assert(view[i as int] == name@);
            }
            return true;
        }
        i += 1;
    }
    false
}

fn create_context<'a>(
    graph: &'a DependencyGraph,
    file_path: &'a String,
    import_ids: &'a Vec<String>,
    scope: &'a String,
    data: &'a JsValue,
    depth: usize,
) -> (r: Context<'a>)
    ensures
        r.graph == graph,
        r.depth == depth,
        r.env() == (Env {
            file_path: file_path@,
            import_ids: import_ids@.map_values(|s: String| s@),
            scope: scope@,
            data: data@,
            in_part: false,
            depth: depth as nat,
        }),
{
    Context { graph, file_path, import_ids, scope, data, in_part: false, depth }
}

/// Evaluates the document `node_expr` of `file_path` as a component, against `data`.
fn evaluate_document(
    node_expr: &Node,
    file_path: &String,
    graph: &DependencyGraph,
    data: &JsValue,
    depth: usize,
) -> (r: Result<Option<virt::Node>, RuntimeError>)
    ensures
        outcome(r) == eval_document(graph.dependencies@, *node_expr, file_path@, data@, depth as nat),
    decreases depth, node_expr, 6int,
{
    let import_ids = get_import_ids(node_expr);
    let scope = get_component_scope(file_path);
    let context = create_context(graph, file_path, &import_ids, &scope, data, depth);
    evaluate_node(node_expr, false, &context)
}

/// Evaluates a document on its own, as a component is: not as a root, and
/// without a stylesheet.
pub fn evaluate_isolated_node(
    node_expr: &Node,
    file_path: &String,
    graph: &DependencyGraph,
    data: &JsValue,
) -> (r: Result<Option<virt::Node>, RuntimeError>)
    ensures
        outcome(r) == eval_document(graph.dependencies@, *node_expr, file_path@, data@, MAX_COMPONENT_DEPTH as nat),
{
    evaluate_document(node_expr, file_path, graph, data, MAX_COMPONENT_DEPTH)
}

fn evaluate_node(node_expr: &Node, is_root: bool, context: &Context) -> (r: Result<Option<virt::Node>, RuntimeError>)
    ensures
        outcome(r) == eval_node(graph_of(context), context.env(), *node_expr, is_root),
    decreases context.depth, node_expr, 5int,
{
    match node_expr {
        Node::Element(el) => evaluate_element(el, is_root, context),
        Node::StyleElement(el) => evaluate_style_element(el, context),
        Node::Text(text) => Ok(Some(virt::Node::Text(virt::Text { value: text.value.clone() }))),
        Node::Slot(slot) => evaluate_slot(slot, context),
        Node::Fragment(el) => evaluate_fragment(el, context),
        Node::Block(block) => evaluate_block(block, context),
        Node::Comment(_) => Ok(None),
    }
}

fn evaluate_element(element: &Element, is_root: bool, context: &Context) -> (r: Result<Option<virt::Node>, RuntimeError>)
    ensures
        outcome(r) == eval_element(graph_of(context), context.env(), *element, is_root),
    decreases context.depth, element, 4int,
{
    let tag = element.tag_name.as_str();
    if str_eq(tag, "import") {
        evaluate_import_element(element, context)
    } else if str_eq(tag, "self") {
        evaluate_self_element(element, context)
    } else if str_eq(tag, "part") {
        evaluate_part_element(element, is_root, context)
    } else if str_eq(tag, "script") {
        Ok(None)
    } else if contains_name(context.import_ids, &element.tag_name) {
        evaluate_imported_component(element, context)
    } else {
        evaluate_basic_element(element, context)
    }
}

fn evaluate_slot(slot: &Expression, context: &Context) -> (r: Result<Option<virt::Node>, RuntimeError>)
    ensures
        outcome(r) == eval_slot(context.env(), *slot),
{
    let js_value = match evaluate_attribute_slot(slot, context) {
        Ok(v) => v,
        Err(e) => return Err(e),
    };
    match js_value {
        JsValue::Array(ary) => {
            let mut ary = ary;
            let ghost items = ary@;
            proof {
                lemma_values_view(items);
            }
            let mut children: Vec<virt::Node> = Vec::new();
            while ary.len() > 0
                invariant
                    children@.len() + ary@.len() == items.len(),
                    ary@ == items.subrange(children@.len() as int, items.len() as int),
                    values_view(items).len() == items.len(),
                    forall|j: int| 0 <= j < items.len() ==> #[trigger] values_view(items)[j] == items[j]@,
                    forall|j: int|
                        0 <= j < children@.len() ==> node_view(#[trigger] children@[j]) == item_node(items[j]@),
                decreases ary.len(),
            {
                let ghost n = children@.len() as int;
                let item = ary.remove(0);
                assert(item == items[n]);
                match item {
                    JsValue::Node(child) => {
                        children.push(child);
                    },
                    other => {
                        let value = other.stringify();
                        children.push(virt::Node::Text(virt::Text { value }));
                    },
                }
                proof {
                    assert(ary@ =~= items.subrange(children@.len() as int, items.len() as int));
                }
            }
            let r = virt::Node::Fragment(virt::Fragment { children });
            proof {
                lemma_nodes_view(children@);
                assert(nodes_view(children@) =~= values_view(items).map_values(|x: Value| item_node(x)));
            }
            Ok(Some(r))
        },
        other => {
            let value = other.stringify();
            Ok(Some(virt::Node::Text(virt::Text { value })))
        },
    }
}

fn evaluate_imported_component(element: &Element, context: &Context) -> (r: Result<Option<virt::Node>, RuntimeError>)
    requires
        context.env().import_ids.contains(element.tag_name@),
    ensures
        outcome(r) == (match crate::graph::dep_index(graph_of(context), context.env().file_path) {
            None => Err(crate::graph::unresolved(element.location)),
            Some(k) => match crate::graph::import_path(graph_of(context)[k as int].dependencies@, element.tag_name@) {
                None => Err(crate::graph::unresolved(element.location)),
                Some(path) => eval_component(graph_of(context), context.env(), *element, path),
            },
        }),
    decreases context.depth, element, 3int,
{
    let self_dep = match context.graph.find(context.file_path) {
        Some(k) => &context.graph.dependencies[k],
        None => return Err(RuntimeError { kind: ErrorKind::UnresolvedReference, location: element.location }),
    };
    match find_import(&self_dep.dependencies, &element.tag_name) {
        Some(dep_file_path) => evaluate_component(element, dep_file_path, context),
        None => Err(RuntimeError { kind: ErrorKind::UnresolvedReference, location: element.location }),
    }
}

fn reference_name(e: &Expression) -> (r: Option<&String>)
    ensures
        match r {
            Some(s) => crate::semantics::shorthand_name(*e) == Some(s@),
            None => crate::semantics::shorthand_name(*e) is None,
        },
{
    let n = e.path.len();
    if n == 0 {
        None
    } else {
        Some(&e.path[n - 1])
    }
}

fn evaluate_component_binding(attr: &Attribute, context: &Context) -> (r: Result<Binding, RuntimeError>)
    ensures
        match component_binding(context.env(), *attr) {
            Ok(b) => r is Ok && r->Ok_0.name@ == b.0 && r->Ok_0.value@ == b.1,
            Err(e) => r == Err::<Binding, RuntimeError>(e),
        },
{
    match attr {
        Attribute::KeyValueAttribute(kv_attr) => match &kv_attr.value {
            None => Ok(Binding { name: kv_attr.name.clone(), value: JsValue::Boolean(true) }),
            Some(v) => match evaluate_attribute_value(v, context) {
                Ok(text) => Ok(Binding { name: kv_attr.name.clone(), value: JsValue::Str(text) }),
                Err(e) => Err(e),
            },
        },
        Attribute::ShorthandAttribute(sh_attr) => {
            let name = match reference_name(&sh_attr.reference) {
                Some(n) => n.clone(),
                None => return Err(RuntimeError { kind: ErrorKind::MalformedShorthand, location: sh_attr.reference.location }),
            };
            match evaluate_attribute_slot(&sh_attr.reference, context) {
                Ok(value) => Ok(Binding { name, value }),
                Err(e) => Err(e),
            }
        },
    }
}

fn evaluate_component(element: &Element, dep_file_path: &String, context: &Context) -> (r: Result<Option<virt::Node>, RuntimeError>)
    ensures
        outcome(r) == eval_component(graph_of(context), context.env(), *element, dep_file_path@),
    decreases context.depth, element, 1int,
{
    if context.depth == 0 {
        return Err(RuntimeError { kind: ErrorKind::NestingTooDeep, location: element.location });
    }
    let ctx = context.with_in_part(false);
    let ghost env = ctx.env();
    let k = match ctx.graph.find(dep_file_path) {
        Some(k) => k,
        None => return Err(RuntimeError { kind: ErrorKind::UnresolvedReference, location: element.location }),
    };
    let attrs = &element.attributes;
    let mut bindings: Vec<Binding> = Vec::new();
    let mut i: usize = 0;
    proof {
        assert(attrs@.subrange(0, attrs@.len() as int) =~= attrs@);
        assert(bindings_view(bindings@) =~= Seq::<(Seq<char>, Value)>::empty());
        lemma_prefixed_push(bindings_view(bindings@), (Seq::<char>::empty(), Value::Undefined), component_bindings(env, attrs@));
    }
    while i < attrs.len()
        invariant
            i <= attrs@.len(),
            attrs@ == element.attributes@,
            env == ctx.env(),
            env == with_in_part(context.env(), false),
            ctx.graph == context.graph,
            ctx.depth == context.depth,
            context.depth > 0,
            crate::graph::dep_index(graph_of(context), dep_file_path@) == Some(k),
            component_bindings(env, attrs@) == prefixed(
                bindings_view(bindings@),
                component_bindings(env, attrs@.subrange(i as int, attrs@.len() as int)),
            ),
        decreases attrs.len() - i,
    {
        let ghost rest = attrs@.subrange(i as int, attrs@.len() as int);
        proof {
            assert(rest[0] == attrs@[i as int]);
            assert(rest.drop_first() =~= attrs@.subrange(i + 1, attrs@.len() as int));
        }
        match evaluate_component_binding(&attrs[i], &ctx) {
            Ok(b) => {
                let ghost before = bindings@;
                proof {
                    lemma_prefixed_push(
                        bindings_view(before),
                        (b.name@, b.value@),
                        component_bindings(env, attrs@.subrange(i + 1, attrs@.len() as int)),
                    );
                }
                bindings.push(b);
                proof {
                    assert(bindings@.subrange(0, bindings@.len() - 1) =~= before);
                }
            },
            Err(e) => {
                return Err(e);
            },
        }
        i += 1;
    }
    proof {
        assert(attrs@.subrange(i as int, attrs@.len() as int) =~= Seq::<Attribute>::empty());
        assert(bindings_view(bindings@) + Seq::<(Seq<char>, Value)>::empty() =~= bindings_view(bindings@));
    }
    let mut children = match evaluate_children(&element.children, &ctx) {
        Ok(c) => c,
        Err(e) => return Err(e),
    };
    let ghost kids = children@;
    proof {
        lemma_nodes_view(kids);
    }
    let mut values: Vec<JsValue> = Vec::new();
    while children.len() > 0
        invariant
            values@.len() + children@.len() == kids.len(),
            children@ == kids.subrange(values@.len() as int, kids.len() as int),
            nodes_view(kids).len() == kids.len(),
            component_bindings(env, element.attributes@) == Ok::<Seq<(Seq<char>, Value)>, RuntimeError>(bindings_view(bindings@)),
            eval_children(graph_of(context), env, element.children@) == Ok::<Seq<NodeView>, RuntimeError>(nodes_view(kids)),
            env == with_in_part(context.env(), false),
            crate::graph::dep_index(graph_of(context), dep_file_path@) == Some(k),
            ctx.graph == context.graph,
            ctx.depth == context.depth,
            context.depth > 0,
            forall|j: int| 0 <= j < kids.len() ==> #[trigger] nodes_view(kids)[j] == node_view(kids[j]),
            forall|j: int| 0 <= j < values@.len() ==> (#[trigger] values@[j])@ == Value::Node(node_view(kids[j])),
        decreases children.len(),
    {
        let ghost n = values@.len() as int;
        let child = children.remove(0);
        assert(child == kids[n]);
        values.push(JsValue::Node(child));
        proof {
            assert(children@ =~= kids.subrange(values@.len() as int, kids.len() as int));
        }
    }
    proof {
        lemma_values_view(values@);
        assert(values_view(values@) =~= nodes_view(kids).map_values(|n: NodeView| Value::Node(n)));
    }
    let ghost before = bindings@;
    let ghost values_seq = values@;
    bindings.push(Binding { name: String::from_str("children"), value: JsValue::Array(values) });
    proof {
        assert(bindings@.subrange(0, bindings@.len() - 1) =~= before);
    }
    let data = JsValue::Object(bindings);
    proof {
        lemma_bindings_view(bindings@);
        assert(bindings_view(bindings@) =~= bindings_view(before).push(("children"@, Value::Array(values_view(values_seq)))));
        assert(data@ == component_data(bindings_view(before), nodes_view(kids)));
    }
    let dep = &ctx.graph.dependencies[k];
    evaluate_document(&dep.expression, dep_file_path, ctx.graph, &data, ctx.depth - 1)
}

fn evaluate_basic_attribute(attr: &Attribute, context: &Context) -> (r: Result<virt::Attribute, RuntimeError>)
    ensures
        match basic_attribute(context.env(), *attr) {
            Ok(a) => r is Ok && attribute_view(r->Ok_0) == a,
            Err(e) => r == Err::<virt::Attribute, RuntimeError>(e),
        },
{
    match attr {
        Attribute::KeyValueAttribute(kv_attr) => match &kv_attr.value {
            None => Ok(virt::Attribute { name: kv_attr.name.clone(), value: None }),
            Some(v) => match evaluate_attribute_value(v, context) {
                Ok(text) => Ok(virt::Attribute { name: kv_attr.name.clone(), value: Some(text) }),
                Err(e) => Err(e),
            },
        },
        Attribute::ShorthandAttribute(sh_attr) => {
            let name = match reference_name(&sh_attr.reference) {
                Some(n) => n.clone(),
                None => return Err(RuntimeError { kind: ErrorKind::MalformedShorthand, location: sh_attr.reference.location }),
            };
            match evaluate_attribute_slot(&sh_attr.reference, context) {
                Ok(value) => Ok(virt::Attribute { name, value: Some(value.stringify()) }),
                Err(e) => Err(e),
            }
        },
    }
}

fn evaluate_basic_element(element: &Element, context: &Context) -> (r: Result<Option<virt::Node>, RuntimeError>)
    ensures
        outcome(r) == eval_basic_element(graph_of(context), context.env(), *element),
    decreases context.depth, element, 1int,
{
    let ghost env = context.env();
    let attrs = &element.attributes;
    let mut attributes: Vec<virt::Attribute> = Vec::new();
    let mut i: usize = 0;
    proof {
        assert(attrs@.subrange(0, attrs@.len() as int) =~= attrs@);
        assert(attributes_view(attributes@) =~= Seq::<(Seq<char>, Option<Seq<char>>)>::empty());
        lemma_prefixed_push(attributes_view(attributes@), (Seq::<char>::empty(), None), basic_attributes(env, attrs@));
    }
    while i < attrs.len()
        invariant
            i <= attrs@.len(),
            attrs@ == element.attributes@,
            env == context.env(),
            basic_attributes(env, attrs@) == prefixed(
                attributes_view(attributes@),
                basic_attributes(env, attrs@.subrange(i as int, attrs@.len() as int)),
            ),
        decreases attrs.len() - i,
    {
        let ghost rest = attrs@.subrange(i as int, attrs@.len() as int);
        proof {
            assert(rest[0] == attrs@[i as int]);
            assert(rest.drop_first() =~= attrs@.subrange(i + 1, attrs@.len() as int));
        }
        match evaluate_basic_attribute(&attrs[i], context) {
            Ok(a) => {
                let ghost before = attributes@;
                proof {
                    lemma_prefixed_push(
                        attributes_view(before),
                        attribute_view(a),
                        basic_attributes(env, attrs@.subrange(i + 1, attrs@.len() as int)),
                    );
                }
                attributes.push(a);
                proof {
                    assert(attributes_view(attributes@) =~= attributes_view(before).push(attribute_view(a)));
                }
            },
            Err(e) => {
                return Err(e);
            },
        }
        i += 1;
    }
    proof {
        assert(attrs@.subrange(i as int, attrs@.len() as int) =~= Seq::<Attribute>::empty());
        assert(attributes_view(attributes@) + Seq::<(Seq<char>, Option<Seq<char>>)>::empty() =~= attributes_view(attributes@));
    }
    let ghost before = attributes@;
    attributes.push(virt::Attribute { name: scope_attribute_name(context.scope), value: None });
    proof {
        assert(attributes_view(attributes@) =~= attributes_view(before).push((crate::css::scope_attribute(env.scope), None)));
    }
    let children = match evaluate_children(&element.children, context) {
        Ok(c) => c,
        Err(e) => return Err(e),
    };
    Ok(Some(virt::Node::Element(virt::Element { tag_name: element.tag_name.clone(), attributes, children })))
}

fn evaluate_import_element(_element: &Element, _context: &Context) -> (r: Result<Option<virt::Node>, RuntimeError>)
    ensures
        r == Ok::<Option<virt::Node>, RuntimeError>(None),
{
    Ok(None)
}

fn evaluate_self_element(element: &Element, context: &Context) -> (r: Result<Option<virt::Node>, RuntimeError>)
    ensures
        outcome(r) == (if !context.in_part {
            Err(RuntimeError { kind: ErrorKind::InvalidContext, location: element.location })
        } else {
            eval_component(graph_of(context), context.env(), *element, context.env().file_path)
        }),
    decreases context.depth, element, 3int,
{
    if !context.in_part {
        return Err(RuntimeError { kind: ErrorKind::InvalidContext, location: element.location });
    }
    evaluate_component(element, context.file_path, context)
}

fn evaluate_part_element(element: &Element, is_root: bool, context: &Context) -> (r: Result<Option<virt::Node>, RuntimeError>)
    ensures
        outcome(r) == (if !is_root {
            Ok(None)
        } else {
            as_fragment(eval_children(graph_of(context), with_in_part(context.env(), true), element.children@))
        }),
    decreases context.depth, element, 3int,
{
    if !is_root {
        return Ok(None);
    }
    let context = context.with_in_part(true);
    evaluate_children_as_fragment(&element.children, &context)
}

fn evaluate_style_element(_element: &StyleElement, _context: &Context) -> (r: Result<Option<virt::Node>, RuntimeError>)
    ensures
        r == Ok::<Option<virt::Node>, RuntimeError>(None),
{
    Ok(None)
}

fn evaluate_children(children_expr: &Vec<Node>, context: &Context) -> (r: Result<Vec<virt::Node>, RuntimeError>)
    ensures
        nodes_outcome(r) == eval_children(graph_of(context), context.env(), children_expr@),
    decreases context.depth, children_expr, 2int,
{
    let ghost g = graph_of(context);
    let ghost env = context.env();
    let ghost cs = children_expr@;
    let mut children: Vec<virt::Node> = Vec::new();
    let mut i: usize = 0;
    proof {
        assert(cs.subrange(0, cs.len() as int) =~= cs);
        assert(nodes_view(children@) =~= Seq::<NodeView>::empty());
        lemma_prefixed_push(nodes_view(children@), NodeView::Text(Seq::empty()), eval_children(g, env, cs));
    }
    while i < children_expr.len()
        invariant
            i <= cs.len(),
            cs == children_expr@,
            g == graph_of(context),
            env == context.env(),
            eval_children(g, env, cs) == prefixed(nodes_view(children@), eval_children(g, env, cs.subrange(i as int, cs.len() as int))),
        decreases children_expr.len() - i,
    {
        let ghost rest = cs.subrange(i as int, cs.len() as int);
        let ghost tail = cs.subrange(i + 1, cs.len() as int);
        proof {
            assert(rest[0] == cs[i as int]);
            assert(rest.subrange(1, rest.len() as int) =~= tail);
        }
        assert(decreases_to!(children_expr => children_expr@[i as int]));
        match evaluate_node(&children_expr[i], false, context) {
            Ok(Some(c)) => {
                let ghost before = children@;
                proof {
                    lemma_prefixed_push(nodes_view(before), node_view(c), eval_children(g, env, tail));
                }
                children.push(c);
                proof {
                    assert(children@.subrange(0, children@.len() - 1) =~= before);
                }
            },
            Ok(None) => {},
            Err(e) => {
                return Err(e);
            },
        }
        i += 1;
    }
    proof {
        assert(cs.subrange(i as int, cs.len() as int) =~= Seq::<Node>::empty());
        assert(nodes_view(children@) + Seq::<NodeView>::empty() =~= nodes_view(children@));
    }
    Ok(children)
}

fn evaluate_fragment(fragment: &Fragment, context: &Context) -> (r: Result<Option<virt::Node>, RuntimeError>)
    ensures
        outcome(r) == as_fragment(eval_children(graph_of(context), context.env(), fragment.children@)),
    decreases context.depth, fragment, 4int,
{
    evaluate_children_as_fragment(&fragment.children, context)
}

fn evaluate_children_as_fragment(children: &Vec<Node>, context: &Context) -> (r: Result<Option<virt::Node>, RuntimeError>)
    ensures
        outcome(r) == as_fragment(eval_children(graph_of(context), context.env(), children@)),
    decreases context.depth, children, 3int,
{
    let mut children = match evaluate_children(children, context) {
        Ok(c) => c,
        Err(e) => return Err(e),
    };
    proof {
        lemma_nodes_view(children@);
    }
    if children.len() == 1 {
        return Ok(children.pop());
    }
    Ok(Some(virt::Node::Fragment(virt::Fragment { children })))
}

fn evaluate_block(block: &Block, context: &Context) -> (r: Result<Option<virt::Node>, RuntimeError>)
    ensures
        outcome(r) == eval_node(graph_of(context), context.env(), Node::Block(*block), false),
    decreases context.depth, block, 4int,
{
    match block {
        Block::Conditional(conditional) => evaluate_conditional(conditional, context),
    }
}

fn evaluate_conditional(block: &ConditionalBlock, context: &Context) -> (r: Result<Option<virt::Node>, RuntimeError>)
    ensures
        outcome(r) == eval_conditional(graph_of(context), context.env(), *block),
    decreases context.depth, block, 3int,
{
    match block {
        ConditionalBlock::PassFailBlock(pass_fail) => evaluate_pass_fail_block(pass_fail, context),
        ConditionalBlock::FinalBlock(block) => {
            if let Some(node) = &block.node {
                evaluate_node(node, false, context)
            } else {
                Ok(None)
            }
        },
    }
}

fn evaluate_pass_fail_block(block: &PassFailBlock, context: &Context) -> (r: Result<Option<virt::Node>, RuntimeError>)
    ensures
        outcome(r) == eval_conditional(graph_of(context), context.env(), ConditionalBlock::PassFailBlock(*block)),
    decreases context.depth, block, 2int,
{
    let condition = match evaluate_expression(&block.condition, context.data) {
        Ok(v) => v,
        Err(e) => return Err(e),
    };
    if condition.truthy() {
        if let Some(node) = &block.node {
            return evaluate_node(node, false, context);
        }
    }
    if let Some(fail) = &block.fail {
        evaluate_conditional(fail, context)
    } else {
        Ok(None)
    }
}

fn evaluate_attribute_value(value: &AttributeValue, context: &Context) -> (r: Result<String, RuntimeError>)
    ensures
        match attribute_text(context.env(), *value) {
            Ok(t) => r is Ok && r->Ok_0@ == t,
            Err(e) => r == Err::<String, RuntimeError>(e),
        },
{
    match value {
        AttributeValue::String(st) => Ok(st.value.clone()),
        AttributeValue::Slot(script) => match evaluate_attribute_slot(script, context) {
            Ok(v) => Ok(v.stringify()),
            Err(e) => Err(e),
        },
    }
}

fn evaluate_attribute_slot(script: &Expression, context: &Context) -> (r: Result<JsValue, RuntimeError>)
    ensures
        value_result(r) == crate::value::eval_expression(*script, context.env().data),
{
    evaluate_expression(script, context.data)
}

/// The scoped rules of a document's top-level style blocks.
fn document_sheet(root: &Node, scope: &String) -> (r: Sheet)
    ensures
        r@ == document_rules(*root, scope@),
{
    let mut sheet = Sheet { rules: Vec::new() };
    proof {
        assert(sheet@ =~= Seq::<(Seq<char>, Seq<char>)>::empty());
    }
    if let Some(children) = get_children(root) {
        let mut i: usize = 0;
        while i < children.len()
            invariant
                i <= children@.len(),
                crate::ast::children_of(*root) == Some(children@),
                sheet@ == children_rules(children@.subrange(0, i as int), scope@),
            decreases children.len() - i,
        {
            proof {
                assert(children@.subrange(0, i + 1).drop_last() =~= children@.subrange(0, i as int));
            }
            if let Node::StyleElement(style_element) = &children[i] {
                sheet.extend(evaluate_sheet(&style_element.sheet, scope));
            }
            i += 1;
        }
        proof {
            assert(children@.subrange(0, children@.len() as int) =~= children@);
        }
    }
    sheet
}

/// The one stylesheet of a render: the rules of `file_path` and of every file
/// it imports, directly or not, in flattened order, each taken from the file's
/// graph entry and scoped with its own token. Where the graph holds no entry
/// for `file_path`, the rules of `entry_expr` alone.
pub fn evaluate_jumbo_style(entry_expr: &Node, file_path: &String, graph: &DependencyGraph) -> (r: Result<virt::Node, RuntimeError>)
    ensures
        match jumbo_rules(graph.dependencies@, *entry_expr, file_path@) {
            Ok(rules) => r is Ok && r->Ok_0@ == NodeView::StyleElement(rules),
            Err(e) => r == Err::<virt::Node, RuntimeError>(e),
        },
{
    let ghost g = graph.dependencies@;
    if graph.find(file_path).is_none() {
        let scope = get_component_scope(file_path);
        let sheet = document_sheet(entry_expr, &scope);
        return Ok(virt::Node::StyleElement(virt::StyleElement { sheet }));
    }
    let order = match graph.flatten(file_path) {
        Ok(o) => o,
        Err(e) => return Err(e),
    };
    let mut sheet = Sheet { rules: Vec::new() };
    let mut i: usize = 0;
    proof {
        assert(order@.subrange(0, 0) =~= Seq::<usize>::empty());
        assert(sheet@ =~= Seq::<(Seq<char>, Seq<char>)>::empty());
    }
    while i < order.len()
        invariant
            i <= order@.len(),
            g == graph.dependencies@,
            sheet@ == entries_rules(g, order@.subrange(0, i as int)),
        decreases order.len() - i,
    {
        let k = order[i];
        proof {
            assert(order@.subrange(0, i + 1).drop_last() =~= order@.subrange(0, i as int));
        }
        if k < graph.dependencies.len() {
            let dep = &graph.dependencies[k];
            let dep_scope = get_component_scope(&dep.file_path);
            sheet.extend(document_sheet(&dep.expression, &dep_scope));
        }
        i += 1;
    }
    proof {
        assert(order@.subrange(0, order@.len() as int) =~= order@);
    }
    Ok(virt::Node::StyleElement(virt::StyleElement { sheet }))
}

fn find_part_element<'a>(children: &'a Vec<Node>, part: &String) -> (r: Option<&'a Node>)
    ensures
        match r {
            Some(n) => crate::semantics::find_part(children@, part@) == Some(*n),
            None => crate::semantics::find_part(children@, part@) is None,
        },
{
    let mut i: usize = 0;
    proof {
        assert(children@.subrange(0, children@.len() as int) =~= children@);
    }
    while i < children.len()
        invariant
            i <= children@.len(),
            crate::semantics::find_part(children@, part@) == crate::semantics::find_part(children@.subrange(i as int, children@.len() as int), part@),
        decreases children.len() - i,
    {
        let ghost rest = children@.subrange(i as int, children@.len() as int);
        proof {
            assert(rest[0] == children@[i as int]);
            assert(rest.drop_first() =~= children@.subrange(i + 1, children@.len() as int));
        }
        if let Node::Element(element) = &children[i] {
            if str_eq(element.tag_name.as_str(), "part") {
                if let Some(id) = crate::ast::get_attribute_value("id", element) {
                    if *id == *part {
                        return Some(&children[i]);
                    }
                }
            }
        }
        i += 1;
    }
    None
}

/// Renders the document `node_expr` of `file_path` against `data`: the part
/// named by `part_option` where the document has one, else the whole document,
/// evaluated as root, with the jumbo stylesheet prepended to the result.
pub fn evaluate(
    node_expr: &Node,
    file_path: &String,
    graph: &DependencyGraph,
    data: &JsValue,
    part_option: Option<String>,
) -> (r: Result<Option<virt::Node>, RuntimeError>)
    ensures
        outcome(r) == evaluate_spec(
            graph.dependencies@,
            *node_expr,
            file_path@,
            data@,
            virt::opt_view(part_option),
            MAX_COMPONENT_DEPTH as nat,
        ),
{
    let import_ids = get_import_ids(node_expr);
    let scope = get_component_scope(file_path);
    let context = create_context(graph, file_path, &import_ids, &scope, data, MAX_COMPONENT_DEPTH);
    let target_node = match &part_option {
        Some(part) => match get_children(node_expr) {
            Some(children) => match find_part_element(children, part) {
                Some(p) => p,
                None => node_expr,
            },
            None => node_expr,
        },
        None => node_expr,
    };
    let root_result = evaluate_node(target_node, true, &context);
    match root_result {
        Ok(Some(root)) => {
            let mut root = root;
            let style = match evaluate_jumbo_style(node_expr, file_path, graph) {
                Ok(s) => s,
                Err(e) => return Err(e),
            };
            root.prepend_child(style);
            Ok(Some(root))
        },
        other => other,
    }
}

} // verus!
