use paperclip::ast::{Attribute, AttributeValue, Element, KeyValueAttribute, Location, Node, Str};
use paperclip::parser::{parse, ParseErrorKind};

fn element(start: usize, end: usize, tag_name: &str, attributes: Vec<Attribute>, children: Vec<Node>) -> Node {
    Node::Element(Element {
        location: Location { start, end },
        tag_name: tag_name.to_string(),
        attributes,
        children,
    })
}

fn attribute(name: &str, value: Option<&str>) -> Attribute {
    Attribute::KeyValueAttribute(KeyValueAttribute {
        name: name.to_string(),
        value: value.map(|v| AttributeValue::String(Str { value: v.to_string() })),
    })
}

#[test]
fn can_parse_a_simple_text_node() {
    let expr = parse("abc").unwrap();
    let eql = Node::Text(Str { value: "abc".to_string() });
    assert_eq!(expr, eql);
}

#[test]
fn can_parse_a_simple_self_closing_element() {
    let expr = parse("<div />").unwrap();
    let eql = element(0, 7, "div", vec![], vec![]);
    assert_eq!(expr, eql);
}

#[test]
fn can_parse_an_element_with_an_attribute_name() {
    let expr = parse("<div a />").unwrap();
    let eql = element(0, 9, "div", vec![attribute("a", None)], vec![]);
    assert_eq!(expr, eql);
}

#[test]
fn can_parse_an_element_with_an_attribute_value() {
    let expr = parse("<div a='b' />").unwrap();
    let eql = element(0, 13, "div", vec![attribute("a", Some("b"))], vec![]);
    assert_eq!(expr, eql);
}

#[test]
fn can_parse_multiple_values() {
    let expr = parse("<div a='b' c d />").unwrap();
    let eql = element(
        0,
        17,
        "div",
        vec![attribute("a", Some("b")), attribute("c", None), attribute("d", None)],
        vec![],
    );
    assert_eq!(expr, eql);
}

#[test]
fn can_parse_children() {
    let expr = parse("<div> <span /></div>").unwrap();
    let eql = element(0, 20, "div", vec![], vec![element(6, 14, "span", vec![], vec![])]);
    assert_eq!(expr, eql);
}

#[test]
fn parses_slots_and_shorthand_attributes() {
    let expr = parse("<div {a.b} c={d}>{e}</div>").unwrap();
    match expr {
        Node::Element(e) => {
            assert_eq!(e.attributes.len(), 2);
            match &e.attributes[0] {
                Attribute::ShorthandAttribute(sh) => assert_eq!(sh.reference.path, vec!["a".to_string(), "b".to_string()]),
                _ => panic!("expected a shorthand attribute"),
            }
            match &e.children[0] {
                Node::Slot(s) => assert_eq!(s.path, vec!["e".to_string()]),
                _ => panic!("expected a slot"),
            }
        },
        _ => panic!("expected an element"),
    }
}

#[test]
fn parses_style_rules() {
    let expr = parse("<style>div { color: red; } span{x:y}</style>").unwrap();
    match expr {
        Node::StyleElement(s) => {
            assert_eq!(s.sheet.len(), 2);
            assert_eq!(s.sheet[0].selector, "div");
            assert_eq!(s.sheet[0].declarations, "color: red;");
            assert_eq!(s.sheet[1].selector, "span");
            assert_eq!(s.sheet[1].declarations, "x:y");
        },
        _ => panic!("expected a style element"),
    }
}

#[test]
fn rejects_a_mismatched_close_tag() {
    let err = parse("<div></span>").unwrap_err();
    assert_eq!(err.kind, ParseErrorKind::MismatchedCloseTag);
}

#[test]
fn rejects_an_unclosed_element() {
    let err = parse("<div>").unwrap_err();
    assert_eq!(err.kind, ParseErrorKind::UnexpectedEnd);
}

#[test]
fn rejects_an_unquoted_attribute_value() {
    let err = parse("<div a=b />").unwrap_err();
    assert_eq!(err.kind, ParseErrorKind::UnexpectedToken);
    assert_eq!(err.position, 7);
}

#[test]
fn blank_source_is_an_empty_fragment() {
    assert_eq!(parse("  \n ").unwrap(), Node::Fragment(paperclip::ast::Fragment { children: vec![] }));
}
