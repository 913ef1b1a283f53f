use paperclip::graph::DependencyGraph;
use paperclip::evaluator::evaluate;
use paperclip::parser::parse;
use paperclip::value::JsValue;
use paperclip::virt;
use paperclip::wire::{from_wire, to_wire};

#[test]
fn wire_round_trip_keeps_names_and_order() {
    let ast = parse("<style>a{b:c}</style><div x='1' y><span>t</span>u<i /></div>").unwrap();
    let graph = DependencyGraph::new();
    let node = evaluate(&ast, &"w.pc".to_string(), &graph, &JsValue::Object(vec![]), None).unwrap().unwrap();
    let wire = to_wire(&node);
    assert_eq!(from_wire(&wire), Some(node));
}

#[test]
fn wire_form_of_a_text_node() {
    let node = virt::Node::Text(virt::Text { value: "hi".to_string() });
    assert_eq!(
        to_wire(&node),
        JsValue::Array(vec![JsValue::Str("text".to_string()), JsValue::Str("hi".to_string())])
    );
}

#[test]
fn malformed_wire_values_are_refused() {
    assert_eq!(from_wire(&JsValue::Str("text".to_string())), None);
    assert_eq!(from_wire(&JsValue::Array(vec![JsValue::Str("text".to_string())])), None);
    assert_eq!(
        from_wire(&JsValue::Array(vec![JsValue::Str("other".to_string()), JsValue::Str("x".to_string())])),
        None
    );
}
