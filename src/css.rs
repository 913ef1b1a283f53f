use vstd::prelude::*;

verus! {

/// A style rule as written in a source document: a selector and its declaration block.
#[derive(Debug, PartialEq)]
pub struct StyleRule {
    pub selector: String,
    pub declarations: String,
}

/// A rule of an evaluated stylesheet, its selector already scoped.
#[derive(Debug, PartialEq)]
pub struct Rule {
    pub selector: String,
    pub declarations: String,
}

/// An evaluated stylesheet: rules in cascade order.
#[derive(Debug, PartialEq)]
pub struct Sheet {
    pub rules: Vec<Rule>,
}

pub open spec fn rule_view(r: Rule) -> (Seq<char>, Seq<char>) {
    (r.selector@, r.declarations@)
}

pub open spec fn style_rule_view(r: StyleRule) -> (Seq<char>, Seq<char>) {
    (r.selector@, r.declarations@)
}

impl View for Sheet {
    type V = Seq<(Seq<char>, Seq<char>)>;

    open spec fn view(&self) -> Seq<(Seq<char>, Seq<char>)> {
        self.rules@.map_values(|r: Rule| rule_view(r))
    }
}

/// The attribute name that marks elements of the file with scope token `scope`.
pub open spec fn scope_attribute(scope: Seq<char>) -> Seq<char> {
    "data-pc-"@ + scope
}

/// A selector restricted to elements that carry the scope attribute.
pub open spec fn scoped_selector(selector: Seq<char>, scope: Seq<char>) -> Seq<char> {
    selector + "["@ + scope_attribute(scope) + "]"@
}

/// The rules of a style block evaluated under `scope`, in source order.
pub open spec fn scoped_rules(rules: Seq<StyleRule>, scope: Seq<char>) -> Seq<(Seq<char>, Seq<char>)> {
    rules.map_values(|r: StyleRule| (scoped_selector(r.selector@, scope), r.declarations@))
}

pub fn scope_attribute_name(scope: &String) -> (r: String)
    ensures
        r@ == scope_attribute(scope@),
{
    let r = String::from_str("data-pc-");
    r.concat(scope.as_str())
}

/// Evaluates the rules of a style block under a file's scope token.
pub fn evaluate_sheet(rules: &Vec<StyleRule>, scope: &String) -> (r: Sheet)
    ensures
        r@ == scoped_rules(rules@, scope@),
{
    let attr = scope_attribute_name(scope);
    let mut out: Vec<Rule> = Vec::new();
    let mut i: usize = 0;
    while i < rules.len()
        invariant
            i <= rules.len(),
            attr@ == scope_attribute(scope@),
            out@.len() == i,
            forall|j: int|
                0 <= j < i ==> #[trigger] rule_view(out@[j]) == (
                    scoped_selector(rules@[j].selector@, scope@),
                    rules@[j].declarations@,
                ),
        decreases rules.len() - i,
    {
        let sel = rules[i].selector.clone().concat("[");
        let sel = sel.concat(attr.as_str());
        let sel = sel.concat("]");
        out.push(Rule { selector: sel, declarations: rules[i].declarations.clone() });
        i += 1;
    }
    proof {
        assert(out@.map_values(|r: Rule| rule_view(r)) =~= scoped_rules(rules@, scope@));
    }
    Sheet { rules: out }
}

impl Sheet {
    /// Appends the rules of `other` after this sheet's own.
    pub fn extend(&mut self, other: Sheet)
        ensures
            final(self)@ == old(self)@ + other@,
    {
        let mut other = other;
        let ghost before = self@;
        let ghost added = other@;
        self.rules.append(&mut other.rules);
        proof {
            assert(self@ =~= before + added);
        }
    }
}

} // verus!
