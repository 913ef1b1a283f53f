use vstd::prelude::*;
use crate::ast::{Expression, Location};
use crate::error::{ErrorKind, RuntimeError};
use crate::virt::{Node, NodeView};

verus! {

/// A named value of an object.
#[derive(Debug, PartialEq)]
pub struct Binding {
    pub name: String,
    pub value: JsValue,
}

/// A value of the data that a document is evaluated against.
#[derive(Debug, PartialEq)]
pub enum JsValue {
    Undefined,
    Boolean(bool),
    Str(String),
    Array(Vec<JsValue>),
    /// Bindings in order; a later binding of a name hides an earlier one.
    Object(Vec<Binding>),
    /// A rendered node carried as data (the children handed to a component).
    Node(Node),
}

/// What a value is, as plain values.
pub enum Value {
    Undefined,
    Boolean(bool),
    Str(Seq<char>),
    Array(Seq<Value>),
    Object(Seq<(Seq<char>, Value)>),
    Node(NodeView),
}

pub open spec fn value_view(v: JsValue) -> Value
    decreases v,
{
    match v {
        JsValue::Undefined => Value::Undefined,
        JsValue::Boolean(b) => Value::Boolean(b),
        JsValue::Str(s) => Value::Str(s@),
        JsValue::Array(items) => Value::Array(values_view(items@)),
        JsValue::Object(bs) => Value::Object(bindings_view(bs@)),
        JsValue::Node(n) => Value::Node(n@),
    }
}

pub open spec fn values_view(s: Seq<JsValue>) -> Seq<Value>
    decreases s,
{
    if s.len() == 0 {
        Seq::empty()
    } else {
        values_view(s.subrange(0, s.len() - 1)).push(value_view(s[s.len() - 1]))
    }
}

pub open spec fn bindings_view(s: Seq<Binding>) -> Seq<(Seq<char>, Value)>
    decreases s,
{
    if s.len() == 0 {
        Seq::empty()
    } else {
        bindings_view(s.subrange(0, s.len() - 1)).push(
            (s[s.len() - 1].name@, value_view(s[s.len() - 1].value)),
        )
    }
}

pub proof fn lemma_values_view(s: Seq<JsValue>)
    ensures
        values_view(s).len() == s.len(),
        forall|i: int| 0 <= i < s.len() ==> #[trigger] values_view(s)[i] == value_view(s[i]),
    decreases s.len(),
{
    if s.len() > 0 {
        let p = s.subrange(0, s.len() - 1);
        lemma_values_view(p);
        assert forall|i: int| 0 <= i < s.len() implies #[trigger] values_view(s)[i] == value_view(s[i]) by {
            if i < s.len() - 1 {
                assert(p[i] == s[i]);
            }
        }
    }
}

pub proof fn lemma_bindings_view(s: Seq<Binding>)
    ensures
        bindings_view(s).len() == s.len(),
        forall|i: int|
            0 <= i < s.len() ==> #[trigger] bindings_view(s)[i] == (s[i].name@, value_view(s[i].value)),
    decreases s.len(),
{
    if s.len() > 0 {
        let p = s.subrange(0, s.len() - 1);
        lemma_bindings_view(p);
        assert forall|i: int| 0 <= i < s.len() implies #[trigger] bindings_view(s)[i] == (
            s[i].name@,
            value_view(s[i].value),
        ) by {
            if i < s.len() - 1 {
                assert(p[i] == s[i]);
            }
        }
    }
}

impl View for JsValue {
    type V = Value;

    open spec fn view(&self) -> Value {
        value_view(*self)
    }
}

/// The value bound to `name` by the last binding of that name.
pub open spec fn lookup(bs: Seq<(Seq<char>, Value)>, name: Seq<char>) -> Option<Value>
    decreases bs.len(),
{
    if bs.len() == 0 {
        None
    } else if bs.last().0 == name {
        Some(bs.last().1)
    } else {
        lookup(bs.drop_last(), name)
    }
}

/// How JavaScript decides a condition.
pub open spec fn truthy(v: Value) -> bool {
    match v {
        Value::Undefined => false,
        Value::Boolean(b) => b,
        Value::Str(s) => s.len() > 0,
        _ => true,
    }
}

/// A value written out as text, as JavaScript's `String(v)` does.
pub open spec fn stringify(v: Value) -> Seq<char>
    decreases v, 1nat,
{
    match v {
        Value::Undefined => "undefined"@,
        Value::Boolean(b) => if b {
            "true"@
        } else {
            "false"@
        },
        Value::Str(s) => s,
        Value::Array(items) => join(items),
        Value::Object(_) => "[object Object]"@,
        Value::Node(_) => "[object Node]"@,
    }
}

/// The items written out and separated by commas.
pub open spec fn join(items: Seq<Value>) -> Seq<char>
    decreases items, 0nat,
{
    if items.len() == 0 {
        Seq::empty()
    } else if items.len() == 1 {
        stringify(items[0])
    } else {
        join(items.subrange(0, items.len() - 1)) + ","@ + stringify(items[items.len() - 1])
    }
}

/// The value that a reference path reads from `data`; `None` where it reads a
/// property of `undefined`.
pub open spec fn read_path(data: Value, path: Seq<Seq<char>>) -> Option<Value>
    decreases path.len(),
{
    if path.len() == 0 {
        Some(data)
    } else {
        match data {
            Value::Undefined => None,
            Value::Object(bs) => {
                let next = match lookup(bs, path[0]) {
                    Some(v) => v,
                    None => Value::Undefined,
                };
                read_path(next, path.drop_first())
            },
            _ => read_path(Value::Undefined, path.drop_first()),
        }
    }
}

pub open spec fn path_view(e: Expression) -> Seq<Seq<char>> {
    e.path@.map_values(|s: String| s@)
}

/// What an embedded expression evaluates to against `data`.
pub open spec fn eval_expression(e: Expression, data: Value) -> Result<Value, RuntimeError> {
    match read_path(data, path_view(e)) {
        Some(v) => Ok(v),
        None => Err(RuntimeError { kind: ErrorKind::Expression, location: e.location }),
    }
}

impl JsValue {
    /// A copy of this value, equal in every part.
    pub fn duplicate(&self) -> (r: JsValue)
        ensures
            r@ == self@,
        decreases self, 1nat,
    {
        match self {
            JsValue::Undefined => JsValue::Undefined,
            JsValue::Boolean(b) => JsValue::Boolean(*b),
            JsValue::Str(s) => JsValue::Str(s.clone()),
            JsValue::Array(items) => JsValue::Array(duplicate_values(items)),
            JsValue::Object(bs) => JsValue::Object(duplicate_bindings(bs)),
            JsValue::Node(n) => JsValue::Node(n.duplicate()),
        }
    }

    pub fn truthy(&self) -> (r: bool)
        ensures
            r == truthy(self@),
    {
        match self {
            JsValue::Undefined => false,
            JsValue::Boolean(b) => *b,
            JsValue::Str(s) => s.as_str().unicode_len() > 0,
            _ => true,
        }
    }

    /// This value written out as text.
    pub fn stringify(&self) -> (r: String)
        ensures
            r@ == stringify(self@),
        decreases self, 1nat,
    {
        match self {
            JsValue::Undefined => String::from_str("undefined"),
            JsValue::Boolean(b) => if *b {
                String::from_str("true")
            } else {
                String::from_str("false")
            },
            JsValue::Str(s) => s.clone(),
            JsValue::Array(items) => join_values(items),
            JsValue::Object(_) => String::from_str("[object Object]"),
            JsValue::Node(_) => String::from_str("[object Node]"),
        }
    }
}

pub fn join_values(items: &Vec<JsValue>) -> (r: String)
    ensures
        r@ == join(values_view(items@)),
    decreases items, 0nat,
{
    proof {
        lemma_values_view(items@);
    }
    let mut out = String::new();
    let mut i: usize = 0;
    while i < items.len()
        invariant
            i <= items.len(),
            values_view(items@).len() == items@.len(),
            forall|j: int| 0 <= j < items@.len() ==> #[trigger] values_view(items@)[j] == value_view(items@[j]),
            out@ == join(values_view(items@).subrange(0, i as int)),
        decreases items.len() - i,
    {
        assert(decreases_to!(items => items@[i as int]));
        let s = items[i].stringify();
        let ghost vs = values_view(items@);
        proof {
            assert(vs.subrange(0, i + 1).subrange(0, i as int) =~= vs.subrange(0, i as int));
        }
        if i == 0 {
            out = s;
        } else {
            out = out.concat(",");
            out = out.concat(s.as_str());
        }
        i += 1;
    }
    proof {
        assert(values_view(items@).subrange(0, items@.len() as int) =~= values_view(items@));
    }
    out
}

pub fn duplicate_values(v: &Vec<JsValue>) -> (r: Vec<JsValue>)
    ensures
        values_view(r@) == values_view(v@),
    decreases v, 0nat,
{
    let mut out: Vec<JsValue> = Vec::new();
    let mut i: usize = 0;
    while i < v.len()
        invariant
            i <= v.len(),
            out@.len() == i,
            forall|j: int| 0 <= j < i ==> value_view(#[trigger] out@[j]) == value_view(v@[j]),
        decreases v.len() - i,
    {
        assert(decreases_to!(v => v@[i as int]));
        out.push(v[i].duplicate());
        i += 1;
    }
    proof {
        lemma_values_view(out@);
        lemma_values_view(v@);
        assert(values_view(out@) =~= values_view(v@));
    }
    out
}

pub fn duplicate_bindings(v: &Vec<Binding>) -> (r: Vec<Binding>)
    ensures
        bindings_view(r@) == bindings_view(v@),
    decreases v, 0nat,
{
    let mut out: Vec<Binding> = Vec::new();
    let mut i: usize = 0;
    while i < v.len()
        invariant
            i <= v.len(),
            out@.len() == i,
            forall|j: int|
                0 <= j < i ==> (#[trigger] out@[j]).name@ == v@[j].name@ && value_view(out@[j].value)
                    == value_view(v@[j].value),
        decreases v.len() - i,
    {
        assert(decreases_to!(v => v@[i as int]));
        assert(decreases_to!(v@[i as int] => v@[i as int].value));
        out.push(Binding { name: v[i].name.clone(), value: v[i].value.duplicate() });
        i += 1;
    }
    proof {
        lemma_bindings_view(out@);
        lemma_bindings_view(v@);
        assert(bindings_view(out@) =~= bindings_view(v@));
    }
    out
}

pub open spec fn value_result(r: Result<JsValue, RuntimeError>) -> Result<Value, RuntimeError> {
    match r {
        Ok(v) => Ok(v@),
        Err(e) => Err(e),
    }
}

/// The index of the last binding named `name`.
pub fn find_binding(bs: &Vec<Binding>, name: &String) -> (r: Option<usize>)
    ensures
        match r {
            Some(i) => i < bs@.len() && lookup(bindings_view(bs@), name@) == Some(value_view(bs@[i as int].value)),
            None => lookup(bindings_view(bs@), name@) is None,
        },
{
    let mut i: usize = bs.len();
    proof {
        assert(bs@.subrange(0, bs@.len() as int) =~= bs@);
    }
    while i > 0
        invariant
            i <= bs@.len(),
            lookup(bindings_view(bs@), name@) == lookup(bindings_view(bs@.subrange(0, i as int)), name@),
        decreases i,
    {
        let ghost pre = bs@.subrange(0, i as int);
        proof {
            assert(pre.subrange(0, pre.len() - 1) =~= bs@.subrange(0, i - 1));
            assert(bindings_view(pre).drop_last() =~= bindings_view(bs@.subrange(0, i - 1)));
        }
        if bs[i - 1].name == *name {
            return Some(i - 1);
        }
        i -= 1;
    }
    None
}

/// Evaluates an embedded expression against `data`.
pub fn evaluate_expression(e: &Expression, data: &JsValue) -> (r: Result<JsValue, RuntimeError>)
    ensures
        value_result(r) == eval_expression(*e, data@),
{
    let undefined = JsValue::Undefined;
    let mut cur: &JsValue = data;
    let ghost p = path_view(*e);
    let mut i: usize = 0;
    proof {
        assert(p.subrange(0, p.len() as int) =~= p);
    }
    while i < e.path.len()
        invariant
            i <= e.path@.len(),
            p == path_view(*e),
            undefined@ == Value::Undefined,
            read_path(data@, p) == read_path(cur@, p.subrange(i as int, p.len() as int)),
        decreases e.path.len() - i,
    {
        proof {
            assert(p.subrange(i as int, p.len() as int).drop_first() =~= p.subrange(i + 1, p.len() as int));
            assert(p.subrange(i as int, p.len() as int)[0] == e.path@[i as int]@);
        }
        match cur {
            JsValue::Undefined => {
                return Err(RuntimeError { kind: ErrorKind::Expression, location: e.location });
            },
            JsValue::Object(bs) => {
                proof {
                    lemma_bindings_view(bs@);
                }
                match find_binding(bs, &e.path[i]) {
                    Some(k) => {
                        cur = &bs[k].value;
                    },
                    None => {
                        cur = &undefined;
                    },
                }
            },
            _ => {
                cur = &undefined;
            },
        }
        i += 1;
    }
    Ok(cur.duplicate())
}

} // verus!
