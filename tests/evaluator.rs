use paperclip::ast::{
    Block, ConditionalBlock, Expression, FinalBlock, Fragment, Location, Node, PassFailBlock, Str,
};
use paperclip::error::ErrorKind;
use paperclip::evaluator::{evaluate, evaluate_isolated_node, evaluate_jumbo_style};
use paperclip::graph::{Dependency, DependencyGraph, Import};
use paperclip::parser::parse;
use paperclip::scope::get_component_scope;
use paperclip::value::{Binding, JsValue};
use paperclip::virt;

fn empty_data() -> JsValue {
    JsValue::Object(vec![])
}

fn object(entries: Vec<(&str, JsValue)>) -> JsValue {
    JsValue::Object(entries.into_iter().map(|(n, v)| Binding { name: n.to_string(), value: v }).collect())
}

fn token(path: &str) -> String {
    format!("{:08x}", crc::crc32::checksum_ieee(path.as_bytes()))
}

fn text(s: &str) -> virt::Node {
    virt::Node::Text(virt::Text { value: s.to_string() })
}

fn reference(path: &[&str]) -> Expression {
    Expression { path: path.iter().map(|s| s.to_string()).collect(), location: Location { start: 0, end: 0 } }
}

fn dependency(path: &str, source: &str, imports: Vec<(&str, &str)>) -> Dependency {
    Dependency {
        file_path: path.to_string(),
        expression: parse(source).unwrap(),
        dependencies: imports
            .into_iter()
            .map(|(id, p)| Import { id: id.to_string(), file_path: p.to_string() })
            .collect(),
    }
}

#[test]
fn can_evaluate_a_style() {
    let case = "<style>div { color: red; }</style><div></div>";
    let ast = parse(case).unwrap();
    let graph = DependencyGraph::new();
    let _node = evaluate(&ast, &"something".to_string(), &graph, &empty_data(), None).unwrap().unwrap();
}

#[test]
fn style_is_scoped_and_prepended() {
    let ast = parse("<style>div{color:red;}</style><div></div>").unwrap();
    let graph = DependencyGraph::new();
    let node = evaluate(&ast, &"something".to_string(), &graph, &empty_data(), None).unwrap().unwrap();
    let t = token("something");
    match node {
        virt::Node::Element(e) => {
            assert_eq!(e.tag_name, "div");
            assert_eq!(e.attributes.len(), 1);
            assert_eq!(e.attributes[0].name, format!("data-pc-{}", t));
            assert_eq!(e.attributes[0].value, None);
            match &e.children[0] {
                virt::Node::StyleElement(s) => {
                    assert_eq!(s.sheet.rules.len(), 1);
                    assert_eq!(s.sheet.rules[0].selector, format!("div[data-pc-{}]", t));
                    assert_eq!(s.sheet.rules[0].declarations, "color:red;");
                },
                _ => panic!("the first child is not the stylesheet"),
            }
        },
        _ => panic!("expected the div element"),
    }
}

#[test]
fn scope_token_is_stable_and_distinct() {
    let a = get_component_scope(&"a.pc".to_string());
    assert_eq!(a, get_component_scope(&"a.pc".to_string()));
    assert_ne!(a, get_component_scope(&"b.pc".to_string()));
    assert_eq!(a, token("a.pc"));
    assert_eq!(get_component_scope(&"something".to_string()), token("something"));
}

#[test]
fn missing_part_renders_whole_document() {
    let ast = parse("<div>hi</div>").unwrap();
    let graph = DependencyGraph::new();
    let named = evaluate(&ast, &"f".to_string(), &graph, &empty_data(), Some("x".to_string())).unwrap();
    let whole = evaluate(&ast, &"f".to_string(), &graph, &empty_data(), None).unwrap();
    assert_eq!(named, whole);
}

#[test]
fn named_part_is_rendered() {
    let ast = parse("<part id='a'>one</part><part id='b'>two</part>").unwrap();
    let graph = DependencyGraph::new();
    let node = evaluate(&ast, &"f".to_string(), &graph, &empty_data(), Some("b".to_string())).unwrap().unwrap();
    assert_eq!(node, text("two"));
}

#[test]
fn nested_part_is_pruned() {
    let ast = parse("<div><part id='a'>x</part></div>").unwrap();
    let graph = DependencyGraph::new();
    let node = evaluate_isolated_node(&ast, &"f".to_string(), &graph, &empty_data()).unwrap().unwrap();
    match node {
        virt::Node::Element(e) => assert!(e.children.is_empty()),
        _ => panic!("expected an element"),
    }
}

#[test]
fn fragment_of_one_collapses_and_empty_fragment_stays() {
    let graph = DependencyGraph::new();
    let one = parse("<!-- a --><span />").unwrap();
    match evaluate_isolated_node(&one, &"f".to_string(), &graph, &empty_data()).unwrap().unwrap() {
        virt::Node::Element(e) => assert_eq!(e.tag_name, "span"),
        _ => panic!("a fragment of one should be its child"),
    }
    let none = parse("<!-- a --><!-- b -->").unwrap();
    let node = evaluate_isolated_node(&none, &"f".to_string(), &graph, &empty_data()).unwrap();
    assert_eq!(node, Some(virt::Node::Fragment(virt::Fragment { children: vec![] })));
}

#[test]
fn self_outside_part_fails() {
    let ast = parse("<div><self a='b'>x</self></div>").unwrap();
    let graph = DependencyGraph::new();
    let err = evaluate(&ast, &"f".to_string(), &graph, &empty_data(), None).unwrap_err();
    assert_eq!(err.kind, ErrorKind::InvalidContext);
    assert_eq!(err.location, Location { start: 5, end: 25 });
    assert_eq!(err.message(), "<self /> can only be used in part");
}

fn conditional() -> Node {
    Node::Block(Block::Conditional(ConditionalBlock::PassFailBlock(PassFailBlock {
        condition: reference(&["cond"]),
        node: Some(Box::new(Node::Text(Str { value: "A".to_string() }))),
        fail: Some(Box::new(ConditionalBlock::FinalBlock(FinalBlock {
            node: Some(Box::new(Node::Text(Str { value: "B".to_string() }))),
        }))),
    })))
}

#[test]
fn conditional_takes_the_selected_branch() {
    let graph = DependencyGraph::new();
    let ast = conditional();
    let yes = object(vec![("cond", JsValue::Boolean(true))]);
    let no = object(vec![("cond", JsValue::Str(String::new()))]);
    assert_eq!(evaluate_isolated_node(&ast, &"f".to_string(), &graph, &yes).unwrap(), Some(text("A")));
    assert_eq!(evaluate_isolated_node(&ast, &"f".to_string(), &graph, &no).unwrap(), Some(text("B")));
}

#[test]
fn component_receives_attributes_and_children() {
    let graph = DependencyGraph {
        dependencies: vec![
            dependency("main.pc", "<import id='Comp' src='comp.pc' /><Comp a='b'>hello</Comp>", vec![("Comp", "comp.pc")]),
            dependency("comp.pc", "<span>{a}{children}</span>", vec![]),
        ],
    };
    let root = &graph.dependencies[0].expression;
    let node = evaluate_isolated_node(root, &"main.pc".to_string(), &graph, &empty_data()).unwrap().unwrap();
    match node {
        virt::Node::Element(e) => {
            assert_eq!(e.tag_name, "span");
            assert_eq!(e.attributes[0].name, format!("data-pc-{}", token("comp.pc")));
            assert_eq!(e.children.len(), 2);
            assert_eq!(e.children[0], text("b"));
            assert_eq!(e.children[1], virt::Node::Fragment(virt::Fragment { children: vec![text("hello")] }));
        },
        _ => panic!("expected the component's span"),
    }
}

#[test]
fn jumbo_style_walks_imports_in_order() {
    let graph = DependencyGraph {
        dependencies: vec![
            dependency("main.pc", "<import id='Comp' src='comp.pc' /><style>a{x:1}</style>", vec![("Comp", "comp.pc")]),
            dependency("comp.pc", "<style>b{y:2}</style><i />", vec![]),
        ],
    };
    let root = &graph.dependencies[0].expression;
    match evaluate_jumbo_style(root, &"main.pc".to_string(), &graph).unwrap() {
        virt::Node::StyleElement(s) => {
            assert_eq!(s.sheet.rules.len(), 2);
            assert_eq!(s.sheet.rules[0].selector, format!("a[data-pc-{}]", token("main.pc")));
            assert_eq!(s.sheet.rules[1].selector, format!("b[data-pc-{}]", token("comp.pc")));
        },
        _ => panic!("expected a style element"),
    }
}

#[test]
fn cyclic_imports_are_rejected() {
    let graph = DependencyGraph {
        dependencies: vec![
            dependency("a.pc", "<import id='B' src='b.pc' /><i />", vec![("B", "b.pc")]),
            dependency("b.pc", "<import id='A' src='a.pc' /><i />", vec![("A", "a.pc")]),
        ],
    };
    let root = &graph.dependencies[0].expression;
    let err = evaluate_jumbo_style(root, &"a.pc".to_string(), &graph).unwrap_err();
    assert_eq!(err.kind, ErrorKind::CyclicDependency);
}

#[test]
fn recursive_components_stop_at_the_nesting_limit() {
    let graph = DependencyGraph {
        dependencies: vec![dependency("a.pc", "<import id='A' src='a.pc' /><A />", vec![("A", "a.pc")])],
    };
    let root = &graph.dependencies[0].expression;
    let err = evaluate_isolated_node(root, &"a.pc".to_string(), &graph, &empty_data()).unwrap_err();
    assert_eq!(err.kind, ErrorKind::NestingTooDeep);
}

#[test]
fn unresolved_component_fails() {
    let ast = parse("<import id='Comp' src='comp.pc' /><Comp />").unwrap();
    let graph = DependencyGraph::new();
    let err = evaluate(&ast, &"main.pc".to_string(), &graph, &empty_data(), None).unwrap_err();
    assert_eq!(err.kind, ErrorKind::UnresolvedReference);
}

#[test]
fn reading_a_property_of_undefined_fails() {
    let ast = parse("<div>{a.b}</div>").unwrap();
    let graph = DependencyGraph::new();
    let err = evaluate(&ast, &"f".to_string(), &graph, &empty_data(), None).unwrap_err();
    assert_eq!(err.kind, ErrorKind::Expression);
}

#[test]
fn shorthand_without_a_name_fails() {
    let ast = parse("<div {} />").unwrap();
    let graph = DependencyGraph::new();
    let err = evaluate(&ast, &"f".to_string(), &graph, &empty_data(), None).unwrap_err();
    assert_eq!(err.kind, ErrorKind::MalformedShorthand);
}

#[test]
fn attributes_are_evaluated_as_text() {
    let ast = parse("<div a='x' b={v} {v} c />").unwrap();
    let graph = DependencyGraph::new();
    let data = object(vec![("v", JsValue::Boolean(false))]);
    match evaluate_isolated_node(&ast, &"f".to_string(), &graph, &data).unwrap().unwrap() {
        virt::Node::Element(e) => {
            let pairs: Vec<(String, Option<String>)> = e.attributes.iter().map(|a| (a.name.clone(), a.value.clone())).collect();
            assert_eq!(
                pairs,
                vec![
                    ("a".to_string(), Some("x".to_string())),
                    ("b".to_string(), Some("false".to_string())),
                    ("v".to_string(), Some("false".to_string())),
                    ("c".to_string(), None),
                    (format!("data-pc-{}", token("f")), None),
                ]
            );
        },
        _ => panic!("expected an element"),
    }
}

#[test]
fn array_slot_renders_a_fragment() {
    let graph = DependencyGraph::new();
    let ast = Node::Slot(reference(&["items"]));
    let data = object(vec![(
        "items",
        JsValue::Array(vec![JsValue::Str("x".to_string()), JsValue::Boolean(true), JsValue::Node(text("n"))]),
    )]);
    let node = evaluate_isolated_node(&ast, &"f".to_string(), &graph, &data).unwrap();
    assert_eq!(node, Some(virt::Node::Fragment(virt::Fragment { children: vec![text("x"), text("true"), text("n")] })));
    let joined = Node::Fragment(Fragment { children: vec![Node::Slot(reference(&["v"]))] });
    let data = object(vec![("v", JsValue::Array(vec![JsValue::Str("p".to_string()), JsValue::Undefined]))]);
    let node = evaluate_isolated_node(&joined, &"f".to_string(), &graph, &data).unwrap();
    assert_eq!(node, Some(virt::Node::Fragment(virt::Fragment { children: vec![text("p"), text("undefined")] })));
}

#[test]
fn scope_token_is_zero_padded() {
    assert_eq!(get_component_scope(&String::new()), "00000000");
    assert_eq!(get_component_scope(&"x".to_string()).len(), 8);
}

#[test]
fn jumbo_style_reads_the_graph_entry_of_the_file() {
    let graph = DependencyGraph {
        dependencies: vec![dependency("main.pc", "<style>g{x:1}</style><i />", vec![])],
    };
    let other = parse("<style>h{y:2}</style><i />").unwrap();
    match evaluate_jumbo_style(&other, &"main.pc".to_string(), &graph).unwrap() {
        virt::Node::StyleElement(s) => {
            assert_eq!(s.sheet.rules.len(), 1);
            assert_eq!(s.sheet.rules[0].selector, format!("g[data-pc-{}]", token("main.pc")));
        },
        _ => panic!("expected a style element"),
    }
}
