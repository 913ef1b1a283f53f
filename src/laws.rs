use vstd::prelude::*;
use crate::ast::{children_of, ConditionalBlock, Element, Fragment, Node, PassFailBlock};
use crate::error::{ErrorKind, RuntimeError};
use crate::graph::Dependency;
use crate::semantics::{
    component_data, eval_conditional, eval_element, eval_node, evaluate_spec, find_part, target_node,
    with_in_part, Env,
};
use crate::value::{eval_expression, lookup, truthy, Value};
use crate::virt::NodeView;

verus! {

/// Whether one of `cs` is a `part` element.
pub open spec fn has_part(cs: Seq<Node>) -> bool {
    exists|i: int| 0 <= i < cs.len() && (#[trigger] cs[i] matches Node::Element(e) && e.tag_name@ == "part"@)
}

proof fn lemma_find_part_none(cs: Seq<Node>, name: Seq<char>)
    requires
        !has_part(cs),
    ensures
        find_part(cs, name) is None,
    decreases cs.len(),
{
    if cs.len() > 0 {
        assert(!has_part(cs.drop_first())) by {
            if has_part(cs.drop_first()) {
                let i = choose|i: int|
                    0 <= i < cs.drop_first().len() && (#[trigger] cs.drop_first()[i] matches Node::Element(e)
                        && e.tag_name@ == "part"@);
                assert(cs[i + 1] == cs.drop_first()[i]);
            }
        }
        assert(!(cs[0] matches Node::Element(e) && e.tag_name@ == "part"@));
        lemma_find_part_none(cs.drop_first(), name);
    }
}

/// A document without a top-level `part` element renders as a whole, whatever
/// part name is asked for: the same as a render that names no part, which
/// evaluates the document root itself.
pub proof fn lemma_no_part_renders_whole_document(
    g: Seq<Dependency>,
    root: Node,
    path: Seq<char>,
    data: Value,
    name: Seq<char>,
    depth: nat,
)
    requires
        !(children_of(root) matches Some(cs) && has_part(cs)),
    ensures
        target_node(root, Some(name)) == root,
        target_node(root, None) == root,
        evaluate_spec(g, root, path, data, Some(name), depth) == evaluate_spec(g, root, path, data, None, depth),
{
    if let Some(cs) = children_of(root) {
        lemma_find_part_none(cs, name);
    }
}

/// A `part` element that is not the root of a render contributes nothing,
/// whatever the context and the data.
pub proof fn lemma_nested_part_is_pruned(g: Seq<Dependency>, env: Env, el: Element)
    requires
        el.tag_name@ == "part"@,
    ensures
        eval_node(g, env, Node::Element(el), false) == Ok::<Option<NodeView>, RuntimeError>(None),
{
    reveal_strlit("part");
    reveal_strlit("import");
    reveal_strlit("self");
    assert("part"@.len() != "import"@.len());
    assert("part"@[0] != "self"@[0]);
}

/// A fragment whose children leave exactly one node evaluates to that node;
/// one whose children leave none evaluates to an empty fragment, not to nothing.
pub proof fn lemma_fragment_collapse(g: Seq<Dependency>, env: Env, f: Fragment)
    ensures
        match crate::semantics::eval_children(g, env, f.children@) {
            Ok(vs) => {
                &&& vs.len() == 1 ==> eval_node(g, env, Node::Fragment(f), false) == Ok::<Option<NodeView>, RuntimeError>(Some(vs[0]))
                &&& vs.len() == 0 ==> eval_node(g, env, Node::Fragment(f), false) == Ok::<Option<NodeView>, RuntimeError>(
                    Some(NodeView::Fragment(Seq::empty())),
                )
                &&& vs.len() > 1 ==> eval_node(g, env, Node::Fragment(f), false) == Ok::<Option<NodeView>, RuntimeError>(
                    Some(NodeView::Fragment(vs)),
                )
            },
            Err(e) => eval_node(g, env, Node::Fragment(f), false) == Err::<Option<NodeView>, RuntimeError>(e),
        },
{
    if let Ok(vs) = crate::semantics::eval_children(g, env, f.children@) {
        if vs.len() == 0 {
            assert(vs =~= Seq::<NodeView>::empty());
        }
    }
}

/// `self` outside a part fails with an invalid-context error at the element,
/// whatever its attributes and children.
pub proof fn lemma_self_outside_part(g: Seq<Dependency>, env: Env, el: Element, is_root: bool)
    requires
        el.tag_name@ == "self"@,
        !env.in_part,
    ensures
        eval_element(g, env, el, is_root) == Err::<Option<NodeView>, RuntimeError>(
            RuntimeError { kind: ErrorKind::InvalidContext, location: el.location },
        ),
{
    reveal_strlit("self");
    reveal_strlit("import");
    assert("self"@.len() != "import"@.len());
}

/// A conditional renders its pass branch when the condition is truthy, and
/// then the fail branch plays no part; when the condition is falsy it renders
/// the fail branch, or nothing.
pub proof fn lemma_conditional_branches(
    g: Seq<Dependency>,
    env: Env,
    pf: PassFailBlock,
    other_fail: Option<Box<ConditionalBlock>>,
)
    ensures
        match eval_expression(pf.condition, env.data) {
            Err(e) => eval_conditional(g, env, ConditionalBlock::PassFailBlock(pf)) == Err::<Option<NodeView>, RuntimeError>(e),
            Ok(v) => {
                &&& truthy(v) && pf.node is Some ==> {
                    &&& eval_conditional(g, env, ConditionalBlock::PassFailBlock(pf)) == eval_node(g, env, *pf.node->Some_0, false)
                    &&& eval_conditional(g, env, ConditionalBlock::PassFailBlock(pf)) == eval_conditional(
                        g,
                        env,
                        ConditionalBlock::PassFailBlock(PassFailBlock { fail: other_fail, ..pf }),
                    )
                }
                &&& !truthy(v) ==> eval_conditional(g, env, ConditionalBlock::PassFailBlock(pf)) == match pf.fail {
                    Some(f) => eval_conditional(g, env, *f),
                    None => Ok(None),
                }
            },
        },
{
}

/// A component is evaluated against its attributes followed by its rendered
/// children, which it reads under `children`.
pub proof fn lemma_component_children(bindings: Seq<(Seq<char>, Value)>, children: Seq<NodeView>)
    ensures
        component_data(bindings, children) matches Value::Object(bs) && lookup(bs, "children"@) == Some(
            Value::Array(children.map_values(|n: NodeView| Value::Node(n))),
        ),
{
}

/// A component is instantiated by evaluating its file's document on its own,
/// one nesting level down, against the data built from the referencing
/// element: its attributes, then its rendered children under `children`.
pub proof fn lemma_component_instantiation(
    g: Seq<Dependency>,
    env: Env,
    el: Element,
    path: Seq<char>,
    k: usize,
    bindings: Seq<(Seq<char>, Value)>,
    children: Seq<NodeView>,
)
    requires
        env.depth > 0,
        crate::graph::dep_index(g, path) == Some(k),
        crate::semantics::component_bindings(with_in_part(env, false), el.attributes@) == Ok::<
            Seq<(Seq<char>, Value)>,
            RuntimeError,
        >(bindings),
        crate::semantics::eval_children(g, with_in_part(env, false), el.children@) == Ok::<Seq<NodeView>, RuntimeError>(
            children,
        ),
    ensures
        crate::semantics::eval_component(g, env, el, path) == crate::semantics::eval_document(
            g,
            g[k as int].expression,
            path,
            component_data(bindings, children),
            (env.depth - 1) as nat,
        ),
{
}

/// Every element rendered as itself carries its file's scope attribute, with
/// no value, after the attributes written on it.
pub proof fn lemma_basic_element_scoped(g: Seq<Dependency>, env: Env, el: Element)
    ensures
        crate::semantics::eval_basic_element(g, env, el) matches Ok(Some(NodeView::Element { attributes, .. }))
            ==> attributes.len() > 0 && attributes.last() == (crate::css::scope_attribute(env.scope), None::<Seq<char>>),
{
}

/// `cs` without its `part` elements.
pub open spec fn without_parts(cs: Seq<Node>) -> Seq<Node>
    decreases cs.len(),
{
    if cs.len() == 0 {
        cs
    } else {
        let rest = without_parts(cs.subrange(1, cs.len() as int));
        if cs[0] matches Node::Element(e) && e.tag_name@ == "part"@ {
            rest
        } else {
            seq![cs[0]] + rest
        }
    }
}

/// Children evaluate the same with or without their `part` elements: a part
/// below the root contributes no node, whatever the context and the data.
pub proof fn lemma_children_ignore_parts(g: Seq<Dependency>, env: Env, cs: Seq<Node>)
    ensures
        crate::semantics::eval_children(g, env, cs) == crate::semantics::eval_children(g, env, without_parts(cs)),
    decreases cs.len(),
{
    if cs.len() > 0 {
        let rest = cs.subrange(1, cs.len() as int);
        lemma_children_ignore_parts(g, env, rest);
        if let Node::Element(e) = cs[0] {
            if e.tag_name@ == "part"@ {
                lemma_nested_part_is_pruned(g, env, e);
                return;
            }
        }
        let w = seq![cs[0]] + without_parts(rest);
        assert(w[0] == cs[0]);
        assert(w.subrange(1, w.len() as int) =~= without_parts(rest));
    }
}

/// Whether `a` is written `name="value"`.
pub open spec fn is_string_attribute(a: crate::ast::Attribute) -> bool {
    a matches crate::ast::Attribute::KeyValueAttribute(kv) && kv.value matches Some(
        crate::ast::AttributeValue::String(_),
    )
}

/// The binding that a `name="value"` attribute gives: the name bound to the
/// value as a string.
pub open spec fn string_binding(a: crate::ast::Attribute) -> (Seq<char>, Value) {
    match a {
        crate::ast::Attribute::KeyValueAttribute(kv) => match kv.value {
            Some(crate::ast::AttributeValue::String(s)) => (kv.name@, Value::Str(s.value@)),
            _ => (kv.name@, Value::Undefined),
        },
        _ => (Seq::empty(), Value::Undefined),
    }
}

/// Attributes written `name="value"` reach a component as strings, each under
/// its own name, in order, whatever the data.
pub proof fn lemma_string_attributes_bind_as_strings(env: Env, attrs: Seq<crate::ast::Attribute>)
    requires
        forall|i: int| 0 <= i < attrs.len() ==> is_string_attribute(#[trigger] attrs[i]),
    ensures
        crate::semantics::component_bindings(env, attrs) == Ok::<Seq<(Seq<char>, Value)>, RuntimeError>(
            attrs.map_values(|a: crate::ast::Attribute| string_binding(a)),
        ),
    decreases attrs.len(),
{
    if attrs.len() > 0 {
        let rest = attrs.drop_first();
        assert forall|i: int| 0 <= i < rest.len() implies is_string_attribute(#[trigger] rest[i]) by {
            assert(rest[i] == attrs[i + 1]);
        }
        lemma_string_attributes_bind_as_strings(env, rest);
        assert(is_string_attribute(attrs[0]));
        assert(seq![string_binding(attrs[0])] + rest.map_values(|a: crate::ast::Attribute| string_binding(a))
            =~= attrs.map_values(|a: crate::ast::Attribute| string_binding(a)));
    } else {
        assert(attrs.map_values(|a: crate::ast::Attribute| string_binding(a)) =~= Seq::<(Seq<char>, Value)>::empty());
    }
}

} // verus!
