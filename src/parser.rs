use vstd::prelude::*;
use crate::ast::{
    Attribute, AttributeValue, Element, Expression, Fragment, KeyValueAttribute, Location, Node,
    ShorthandAttribute, Str, StyleElement,
};
use crate::css::StyleRule;
use crate::text::str_eq;

verus! {

/// Why a source text could not be parsed, and where.
#[derive(Clone, Copy, PartialEq, Eq, Debug, Structural)]
pub enum ParseErrorKind {
    UnexpectedEnd,
    UnexpectedToken,
    MismatchedCloseTag,
}

#[derive(Clone, Copy, PartialEq, Eq, Debug, Structural)]
pub struct ParseError {
    pub kind: ParseErrorKind,
    pub position: usize,
}

pub open spec fn is_space(c: char) -> bool {
    c == ' ' || c == '\n' || c == '\t' || c == '\r'
}

/// `t` is `s[a..b]`, only white space follows it in `s`, and it neither
/// starts nor ends with white space.
pub open spec fn text_bounds(t: Seq<char>, s: Seq<char>, a: int, b: int) -> bool {
    &&& 0 <= a <= b <= s.len()
    &&& t == s.subrange(a, b)
    &&& forall|j: int| b <= j < s.len() ==> is_space(s[j])
    &&& a < b ==> !is_space(s[a]) && !is_space(s[b - 1])
}

/// `t` is `s` without the white space at either end.
pub open spec fn trimmed_of(t: Seq<char>, s: Seq<char>) -> bool {
    exists|a: int, b: int| #[trigger] text_bounds(t, s, a, b) && forall|j: int| 0 <= j < a ==> is_space(s[j])
}

/// Whether `s[from..]` holds no `<` and no `{`.
pub open spec fn no_markup(s: Seq<char>, from: int) -> bool {
    forall|i: int| from <= i < s.len() ==> s[i] != '<' && s[i] != '{'
}

pub open spec fn all_space(s: Seq<char>) -> bool {
    forall|i: int| 0 <= i < s.len() ==> is_space(s[i])
}

/// Characters that end a tag or attribute name.
pub open spec fn ends_name(c: char) -> bool {
    is_space(c) || c == '>' || c == '/' || c == '=' || c == '<' || c == '{' || c == '}'
}

fn space(c: char) -> (r: bool)
    ensures
        r == is_space(c),
{
    c == ' ' || c == '\n' || c == '\t' || c == '\r'
}

/// The source as characters, with the text it came from.
struct Source<'a> {
    text: &'a str,
    chars: Vec<char>,
}

impl<'a> Source<'a> {
    spec fn wf(&self) -> bool {
        &&& self.chars@ == self.text@
        &&& self.chars@.len() <= usize::MAX
    }

    fn new(text: &'a str) -> (r: Source<'a>)
        ensures
            r.wf(),
            r.text == text,
    {
        let n = text.unicode_len();
        let mut chars: Vec<char> = Vec::new();
        let mut i: usize = 0;
        while i < n
            invariant
                n == text@.len(),
                i <= n,
                chars@ == text@.subrange(0, i as int),
            decreases n - i,
        {
            chars.push(text.get_char(i));
            i += 1;
            proof {
                assert(chars@ =~= text@.subrange(0, i as int));
            }
        }
        proof {
            assert(chars@ =~= text@);
        }
        Source { text, chars }
    }

    fn len(&self) -> (r: usize)
        ensures
            r == self.chars@.len(),
    {
        self.chars.len()
    }

    /// Whether the characters at `pos` are `pat`.
    fn at(&self, pos: usize, pat: &str) -> (r: bool)
        requires
            self.wf(),
            pos <= self.chars@.len(),
        ensures
            r == (pos + pat@.len() <= self.chars@.len() && self.chars@.subrange(pos as int, pos + pat@.len()) == pat@),
    {
        let m = pat.unicode_len();
        if m > self.chars.len() - pos {
            return false;
        }
        let mut i: usize = 0;
        while i < m
            invariant
                self.wf(),
                m == pat@.len(),
                pos + m <= self.chars@.len(),
                i <= m,
                forall|j: int| 0 <= j < i ==> self.chars@[pos + j] == pat@[j],
            decreases m - i,
        {
            if self.chars[pos + i] != pat.get_char(i) {
                proof {
                    assert(self.chars@.subrange(pos as int, pos + m)[i as int] != pat@[i as int]);
                }
                return false;
            }
            i += 1;
        }
        proof {
            assert(self.chars@.subrange(pos as int, pos + m) =~= pat@);
        }
        true
    }

    /// The text from `a` to `b`.
    fn slice(&self, a: usize, b: usize) -> (r: String)
        requires
            self.wf(),
            a <= b <= self.chars@.len(),
        ensures
            r@ == self.chars@.subrange(a as int, b as int),
    {
        String::from_str(self.text.substring_char(a, b))
    }

    /// The first position from `pos` that holds no white space.
    fn eat_whitespace(&self, pos: usize) -> (r: usize)
        requires
            self.wf(),
            pos <= self.chars@.len(),
        ensures
            pos <= r <= self.chars@.len(),
            r < self.chars@.len() ==> !is_space(self.chars@[r as int]),
            forall|j: int| pos <= j < r ==> is_space(self.chars@[j]),
    {
        let mut p = pos;
        while p < self.chars.len() && space(self.chars[p])
            invariant
                pos <= p <= self.chars@.len(),
                forall|j: int| pos <= j < p ==> is_space(self.chars@[j]),
            decreases self.chars@.len() - p,
        {
            p += 1;
        }
        p
    }

    /// The end of the name that starts at `pos`.
    fn name_end(&self, pos: usize) -> (r: usize)
        requires
            self.wf(),
            pos <= self.chars@.len(),
        ensures
            pos <= r <= self.chars@.len(),
            r < self.chars@.len() ==> ends_name(self.chars@[r as int]),
            forall|j: int| pos <= j < r ==> !ends_name(self.chars@[j]),
    {
        let mut p = pos;
        while p < self.chars.len()
            invariant
                pos <= p <= self.chars@.len(),
                forall|j: int| pos <= j < p ==> !ends_name(self.chars@[j]),
            decreases self.chars@.len() - p,
        {
            let c = self.chars[p];
            if space(c) || c == '>' || c == '/' || c == '=' || c == '<' || c == '{' || c == '}' {
                return p;
            }
            p += 1;
        }
        p
    }

    /// The first position from `pos` that holds `c`.
    fn find(&self, pos: usize, c: char) -> (r: Option<usize>)
        requires
            self.wf(),
            pos <= self.chars@.len(),
        ensures
            match r {
                Some(i) => pos <= i < self.chars@.len() && self.chars@[i as int] == c,
                None => true,
            },
            forall|j: int| pos <= j < (match r { Some(i) => i as int, None => self.chars@.len() as int }) ==> self.chars@[j] != c,
    {
        let mut p = pos;
        while p < self.chars.len()
            invariant
                pos <= p <= self.chars@.len(),
                forall|j: int| pos <= j < p ==> self.chars@[j] != c,
            decreases self.chars@.len() - p,
        {
            if self.chars[p] == c {
                return Some(p);
            }
            p += 1;
        }
        None
    }

    /// The first position from `pos` at which `pat` starts.
    fn find_text(&self, pos: usize, pat: &str) -> (r: Option<usize>)
        requires
            self.wf(),
            pos <= self.chars@.len(),
        ensures
            match r {
                Some(i) => pos <= i && i + pat@.len() <= self.chars@.len() && self.chars@.subrange(i as int, i + pat@.len()) == pat@,
                None => true,
            },
    {
        let mut p = pos;
        while p < self.chars.len()
            invariant
                self.wf(),
                pos <= p <= self.chars@.len(),
            decreases self.chars@.len() - p,
        {
            if self.at(p, pat) {
                return Some(p);
            }
            p += 1;
        }
        None
    }

    /// The bounds of `a..b` without white space at either end.
    fn trim(&self, a: usize, b: usize) -> (r: (usize, usize))
        requires
            self.wf(),
            a <= b <= self.chars@.len(),
        ensures
            a <= r.0 <= r.1 <= b,
            forall|j: int| a <= j < r.0 ==> is_space(self.chars@[j]),
            forall|j: int| r.1 <= j < b ==> is_space(self.chars@[j]),
            r.0 < r.1 ==> !is_space(self.chars@[r.0 as int]) && !is_space(self.chars@[r.1 - 1]),
    {
        let mut s = a;
        while s < b && space(self.chars[s])
            invariant
                a <= s <= b,
                b <= self.chars@.len(),
                forall|j: int| a <= j < s ==> is_space(self.chars@[j]),
            decreases b - s,
        {
            s += 1;
        }
        let mut e = b;
        while e > s && space(self.chars[e - 1])
            invariant
                s <= e <= b,
                b <= self.chars@.len(),
                s < b ==> !is_space(self.chars@[s as int]),
                forall|j: int| e <= j < b ==> is_space(self.chars@[j]),
            decreases e,
        {
            e -= 1;
        }
        (s, e)
    }
}

fn error(kind: ParseErrorKind, position: usize) -> (r: ParseError)
    ensures
        r.kind == kind,
        r.position == position,
{
    ParseError { kind, position }
}

/// The reference path written between `a` and `b`: its dot-separated names.
fn parse_expression(src: &Source, a: usize, b: usize) -> (r: Expression)
    requires
        src.wf(),
        a <= b <= src.chars@.len(),
    ensures
        r.location == (Location { start: a, end: b }),
{
    let mut path: Vec<String> = Vec::new();
    let mut p = a;
    while p < b
        invariant
            src.wf(),
            a <= p <= b,
            b <= src.chars@.len(),
        decreases b - p,
    {
        let c = src.chars[p];
        if c == '.' || space(c) {
            p += 1;
        } else {
            let start = p;
            while p < b && src.chars[p] != '.' && !space(src.chars[p])
                invariant
                    start <= p <= b,
                    b <= src.chars@.len(),
                decreases b - p,
            {
                p += 1;
            }
            path.push(src.slice(start, p));
        }
    }
    Expression { path, location: Location { start: a, end: b } }
}

/// `{expression}` at `pos`; returns the expression and the position after it.
fn parse_slot(src: &Source, pos: usize) -> (r: Result<(Expression, usize), ParseError>)
    requires
        src.wf(),
        pos < src.chars@.len(),
    ensures
        r matches Err(e) ==> e.position <= src.chars@.len(),
        r matches Ok((_, p)) ==> pos < p <= src.chars@.len(),
{
    match src.find(pos + 1, '}') {
        Some(close) => Ok((parse_expression(src, pos + 1, close), close + 1)),
        None => Err(error(ParseErrorKind::UnexpectedEnd, src.len())),
    }
}

fn parse_tag_name(src: &Source, pos: usize) -> (r: Result<(String, usize), ParseError>)
    requires
        src.wf(),
        pos <= src.chars@.len(),
    ensures
        r matches Err(e) ==> e.position <= src.chars@.len(),
        r matches Ok((_, p)) ==> pos < p <= src.chars@.len(),
{
    let end = src.name_end(pos);
    if end == pos {
        return Err(error(ParseErrorKind::UnexpectedToken, pos));
    }
    Ok((src.slice(pos, end), end))
}

/// A quoted string at `pos`.
fn parse_string(src: &Source, pos: usize) -> (r: Result<(Str, usize), ParseError>)
    requires
        src.wf(),
        pos < src.chars@.len(),
    ensures
        r matches Err(e) ==> e.position <= src.chars@.len(),
        r matches Ok((_, p)) ==> pos < p <= src.chars@.len(),
{
    let quote = src.chars[pos];
    match src.find(pos + 1, quote) {
        Some(close) => Ok((Str { value: src.slice(pos + 1, close) }, close + 1)),
        None => Err(error(ParseErrorKind::UnexpectedEnd, src.len())),
    }
}

fn parse_attribute_value(src: &Source, pos: usize) -> (r: Result<(AttributeValue, usize), ParseError>)
    requires
        src.wf(),
        pos <= src.chars@.len(),
    ensures
        r matches Err(e) ==> e.position <= src.chars@.len(),
        r matches Ok((_, p)) ==> pos < p <= src.chars@.len(),
{
    if pos >= src.len() {
        return Err(error(ParseErrorKind::UnexpectedEnd, pos));
    }
    let c = src.chars[pos];
    if c == '\'' || c == '"' {
        match parse_string(src, pos) {
            Ok((s, p)) => Ok((AttributeValue::String(s), p)),
            Err(e) => Err(e),
        }
    } else if c == '{' {
        match parse_slot(src, pos) {
            Ok((e, p)) => Ok((AttributeValue::Slot(e), p)),
            Err(e) => Err(e),
        }
    } else {
        Err(error(ParseErrorKind::UnexpectedToken, pos))
    }
}

fn parse_attribute(src: &Source, pos: usize) -> (r: Result<(Attribute, usize), ParseError>)
    requires
        src.wf(),
        pos < src.chars@.len(),
    ensures
        r matches Err(e) ==> e.position <= src.chars@.len(),
        r matches Ok((_, p)) ==> pos < p <= src.chars@.len(),
{
    if src.chars[pos] == '{' {
        return match parse_slot(src, pos) {
            Ok((reference, p)) => Ok((Attribute::ShorthandAttribute(ShorthandAttribute { reference }), p)),
            Err(e) => Err(e),
        };
    }
    let (name, p) = match parse_tag_name(src, pos) {
        Ok(x) => x,
        Err(e) => return Err(e),
    };
    if p < src.len() && src.chars[p] == '=' {
        match parse_attribute_value(src, p + 1) {
            Ok((value, q)) => Ok((Attribute::KeyValueAttribute(KeyValueAttribute { name, value: Some(value) }), q)),
            Err(e) => Err(e),
        }
    } else {
        Ok((Attribute::KeyValueAttribute(KeyValueAttribute { name, value: None }), p))
    }
}

/// The attributes of a start tag, up to its `>` or `/>`.
fn parse_attributes(src: &Source, pos: usize) -> (r: Result<(Vec<Attribute>, usize), ParseError>)
    requires
        src.wf(),
        pos <= src.chars@.len(),
    ensures
        r matches Err(e) ==> e.position <= src.chars@.len(),
        r matches Ok((_, p)) ==> pos <= p < src.chars@.len(),
{
    let mut attributes: Vec<Attribute> = Vec::new();
    let mut p = pos;
    loop
        invariant
            src.wf(),
            pos <= p <= src.chars@.len(),
        decreases src.chars@.len() - p,
    {
        p = src.eat_whitespace(p);
        if p >= src.len() {
            return Err(error(ParseErrorKind::UnexpectedEnd, p));
        }
        let c = src.chars[p];
        if c == '/' || c == '>' {
            return Ok((attributes, p));
        }
        match parse_attribute(src, p) {
            Ok((a, q)) => {
                attributes.push(a);
                p = q;
            },
            Err(e) => return Err(e),
        }
    }
}

/// The rules of a style block written between `a` and `b`.
fn parse_sheet(src: &Source, a: usize, b: usize) -> (r: Result<Vec<StyleRule>, ParseError>)
    requires
        src.wf(),
        a <= b <= src.chars@.len(),
    ensures
        r matches Err(e) ==> e.position <= src.chars@.len(),
{
    let mut rules: Vec<StyleRule> = Vec::new();
    let mut p = a;
    while p < b
        invariant
            src.wf(),
            a <= p <= b,
            b <= src.chars@.len(),
        decreases b - p,
    {
        let open = match src.find(p, '{') {
            Some(i) if i < b => i,
            _ => {
                let (s, e) = src.trim(p, b);
                if s < e {
                    return Err(error(ParseErrorKind::UnexpectedEnd, b));
                }
                return Ok(rules);
            },
        };
        let close = match src.find(open + 1, '}') {
            Some(i) if i < b => i,
            _ => return Err(error(ParseErrorKind::UnexpectedEnd, b)),
        };
        let (s, e) = src.trim(p, open);
        let (ds, de) = src.trim(open + 1, close);
        rules.push(StyleRule { selector: src.slice(s, e), declarations: src.slice(ds, de) });
        p = close + 1;
    }
    Ok(rules)
}

/// An element whose `<` is at `pos`.
fn parse_element(src: &Source, pos: usize) -> (r: Result<(Node, usize), ParseError>)
    requires
        src.wf(),
        pos < src.chars@.len(),
    ensures
        r matches Err(e) ==> e.position <= src.chars@.len(),
        r matches Ok((_, p)) ==> pos < p <= src.chars@.len(),
    decreases src.chars@.len() - pos, 1int,
{
    let (tag_name, p) = match parse_tag_name(src, pos + 1) {
        Ok(x) => x,
        Err(e) => return Err(e),
    };
    let (attributes, p) = match parse_attributes(src, p) {
        Ok(x) => x,
        Err(e) => return Err(e),
    };
    if src.at(p, "/>") {
        proof {
            reveal_strlit("/>");
        }
        let end = p + 2;
        let location = Location { start: pos, end };
        if str_eq(tag_name.as_str(), "style") {
            return Ok((Node::StyleElement(StyleElement { attributes, sheet: Vec::new() }), end));
        }
        return Ok((Node::Element(Element { location, tag_name, attributes, children: Vec::new() }), end));
    }
    if src.chars[p] != '>' {
        return Err(error(ParseErrorKind::UnexpectedToken, p));
    }
    let mut q = p + 1;
    if str_eq(tag_name.as_str(), "style") {
        let close = match src.find_text(q, "</style>") {
            Some(i) => i,
            None => return Err(error(ParseErrorKind::UnexpectedEnd, src.len())),
        };
        proof {
            reveal_strlit("</style>");
        }
        let sheet = match parse_sheet(src, q, close) {
            Ok(s) => s,
            Err(e) => return Err(e),
        };
        return Ok((Node::StyleElement(StyleElement { attributes, sheet }), close + 8));
    }
    let mut children: Vec<Node> = Vec::new();
    loop
        invariant
            src.wf(),
            pos < q <= src.chars@.len(),
        ensures
            src.wf(),
            pos < q,
            q + 2 <= src.chars@.len(),
        decreases src.chars@.len() - q,
    {
        q = src.eat_whitespace(q);
        if q >= src.len() {
            return Err(error(ParseErrorKind::UnexpectedEnd, q));
        }
        if src.at(q, "</") {
            proof {
                reveal_strlit("</");
            }
            break;
        }
        match parse_node(src, q) {
            Ok((child, next)) => {
                children.push(child);
                q = next;
            },
            Err(e) => return Err(e),
        }
    }
    proof {
        reveal_strlit("</");
    }
    let start = q + 2;
    let end_name = src.name_end(start);
    let close_name = src.slice(start, end_name);
    if !str_eq(close_name.as_str(), tag_name.as_str()) {
        return Err(error(ParseErrorKind::MismatchedCloseTag, start));
    }
    let r = src.eat_whitespace(end_name);
    if r >= src.len() || src.chars[r] != '>' {
        return Err(error(ParseErrorKind::UnexpectedToken, r));
    }
    let location = Location { start: pos, end: r + 1 };
    Ok((Node::Element(Element { location, tag_name, attributes, children }), r + 1))
}

/// The node that starts at `pos`, which holds no white space.
fn parse_node(src: &Source, pos: usize) -> (r: Result<(Node, usize), ParseError>)
    requires
        src.wf(),
        pos < src.chars@.len(),
    ensures
        !is_space(src.chars@[pos as int]) && no_markup(src.chars@, pos as int) ==> (r matches Ok((Node::Text(t), p)) && p
            == src.chars@.len() && text_bounds(t.value@, src.chars@, pos as int, pos + t.value@.len())),
        r matches Err(e) ==> e.position <= src.chars@.len(),
        r matches Ok((_, p)) ==> pos < p <= src.chars@.len(),
    decreases src.chars@.len() - pos, 2int,
{
    let c = src.chars[pos];
    proof {
        reveal_strlit("<!--");
        if no_markup(src.chars@, pos as int) {
            assert(src.chars@[pos as int] != '<' && src.chars@[pos as int] != '{');
        }
    }
    if src.at(pos, "<!--") {
        proof {
            reveal_strlit("<!--");
            reveal_strlit("-->");
        }
        assert(src.chars@.subrange(pos as int, pos + 4)[0] == src.chars@[pos as int]);
        return match src.find_text(pos + 4, "-->") {
            Some(i) => Ok((Node::Comment(Str { value: src.slice(pos + 4, i) }), i + 3)),
            None => Err(error(ParseErrorKind::UnexpectedEnd, src.len())),
        };
    }
    if c == '<' {
        parse_element(src, pos)
    } else if c == '{' {
        match parse_slot(src, pos) {
            Ok((e, p)) => Ok((Node::Slot(e), p)),
            Err(e) => Err(e),
        }
    } else {
        let mut p = pos;
        while p < src.len() && src.chars[p] != '<' && src.chars[p] != '{'
            invariant
                src.wf(),
                pos <= p <= src.chars@.len(),
            decreases src.chars@.len() - p,
        {
            p += 1;
        }
        let (s, e) = src.trim(pos, p);
        if p == pos {
            return Err(error(ParseErrorKind::UnexpectedToken, pos));
        }
        let t = Str { value: src.slice(s, e) };
        proof {
            if !is_space(src.chars@[pos as int]) && no_markup(src.chars@, pos as int) {
                assert(p == src.chars@.len());
                assert(s == pos);
                assert(text_bounds(t.value@, src.chars@, pos as int, e as int));
            }
        }
        Ok((Node::Text(t), p))
    }
}

/// The nodes of a document: one node stands for itself, any other number is
/// wrapped in a fragment.
fn parse_fragment(src: &Source) -> (r: Result<Node, ParseError>)
    requires
        src.wf(),
    ensures
        r matches Err(e) ==> e.position <= src.chars@.len(),
        (forall|i: int| 0 <= i < src.chars@.len() ==> is_space(src.chars@[i])) ==> (r matches Ok(
            Node::Fragment(f),
        ) && f.children@.len() == 0),
        no_markup(src.chars@, 0) && !all_space(src.chars@) ==> (r matches Ok(Node::Text(t)) && trimmed_of(
            t.value@,
            src.chars@,
        )),
{
    let mut children: Vec<Node> = Vec::new();
    let mut p = src.eat_whitespace(0);
    proof {
        if no_markup(src.chars@, 0) && !all_space(src.chars@) && p == src.chars@.len() {
            assert(all_space(src.chars@));
        }
    }
    while p < src.len()
        invariant
            src.wf(),
            p <= src.chars@.len(),
            (forall|i: int| 0 <= i < src.chars@.len() ==> is_space(src.chars@[i])) ==> p == src.chars@.len()
                && children@.len() == 0,
            no_markup(src.chars@, 0) && !all_space(src.chars@) ==> {
                ||| children@.len() == 0 && p < src.chars@.len() && !is_space(src.chars@[p as int]) && forall|j: int|
                    0 <= j < p ==> is_space(src.chars@[j])
                ||| children@.len() == 1 && p == src.chars@.len() && (children@[0] matches Node::Text(t) && trimmed_of(
                    t.value@,
                    src.chars@,
                ))
            },
        decreases src.chars@.len() - p,
    {
        let ghost p0 = p;
        match parse_node(src, p) {
            Ok((child, next)) => {
                let ghost c = child;
                children.push(child);
                p = src.eat_whitespace(next);
                proof {
                    if no_markup(src.chars@, 0) && !all_space(src.chars@) && children@.len() == 1 {
                        if let Node::Text(t) = c {
                            assert(text_bounds(t.value@, src.chars@, p0 as int, p0 + t.value@.len()));
                        }
                    }
                }
            },
            Err(e) => return Err(e),
        }
    }
    if children.len() == 1 {
        match children.pop() {
            Some(n) => Ok(n),
            None => Ok(Node::Fragment(Fragment { children: Vec::new() })),
        }
    } else {
        Ok(Node::Fragment(Fragment { children }))
    }
}

/// Parses a document's source text: one node stands for itself, any other
/// number is wrapped in a fragment. An error gives a position inside the
/// source; a source of white space alone is an empty fragment; a source with
/// no markup is one text node, the source without its surrounding white space.
pub fn parse(source: &str) -> (r: Result<Node, ParseError>)
    ensures
        r matches Err(e) ==> e.position <= source@.len(),
        (forall|i: int| 0 <= i < source@.len() ==> is_space(source@[i])) ==> (r matches Ok(Node::Fragment(f))
            && f.children@.len() == 0),
        no_markup(source@, 0) && !all_space(source@) ==> (r matches Ok(Node::Text(t)) && trimmed_of(
            t.value@,
            source@,
        )),
{
    let src = Source::new(source);
    parse_fragment(&src)
}

} // verus!
