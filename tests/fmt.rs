use paperclip::fmt::{fmt_attributes, fmt_end_tag, fmt_start_tag};
use paperclip::parser::parse;
use paperclip::ast::Node;

#[test]
fn formats_tags() {
    let node = parse("<div a='b' c {d.e} f={g} />").unwrap();
    match node {
        Node::Element(e) => {
            assert_eq!(fmt_attributes(&e.attributes), " a=\"b\" c {d.e} f={g}");
            assert_eq!(fmt_start_tag("div", &e.attributes), "<div a=\"b\" c {d.e} f={g}>");
            assert_eq!(fmt_end_tag("div"), "</div>");
        },
        _ => panic!("expected an element"),
    }
}

#[test]
fn formats_whole_nodes() {
    let node = parse("<div a='b'>x<span /><!--c--></div>").unwrap();
    assert_eq!(paperclip::fmt::fmt_node(&node), "<div a=\"b\">x <span></span> <!--c--> </div>");
    let style = parse("<style>a { b: c; }</style>").unwrap();
    assert_eq!(paperclip::fmt::fmt_node(&style), "<style>a{b: c;}</style>");
    let fragment = parse("x<i />{y.z}").unwrap();
    assert_eq!(paperclip::fmt::fmt_node(&fragment), "x<i></i>{y.z}");
}

#[test]
fn formats_a_quoted_string() {
    let s = paperclip::ast::Str { value: "v".to_string() };
    assert_eq!(paperclip::fmt::fmt_str(&s), "\"v\"");
}
