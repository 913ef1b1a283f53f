use vstd::prelude::*;
use crate::ast::Location;

verus! {

/// The kinds of failure that stop an evaluation.
#[derive(Clone, Copy, PartialEq, Eq, Debug, Structural)]
pub enum ErrorKind {
    /// A file or component name that the dependency graph does not hold.
    UnresolvedReference,
    /// A construct used outside the position it requires (`self` outside a part).
    InvalidContext,
    /// A shorthand attribute whose reference yields no name.
    MalformedShorthand,
    /// An embedded expression that could not be evaluated.
    Expression,
    /// Files whose imports lead back to themselves.
    CyclicDependency,
    /// Components nested deeper than an evaluation allows.
    NestingTooDeep,
}

/// A failed evaluation: what went wrong, and where in the source.
#[derive(Clone, Copy, PartialEq, Eq, Debug, Structural)]
pub struct RuntimeError {
    pub kind: ErrorKind,
    pub location: Location,
}

impl RuntimeError {
    /// A human-readable description of the failure.
    pub fn message(&self) -> String {
        match self.kind {
            ErrorKind::UnresolvedReference => String::from_str("unresolved reference"),
            ErrorKind::InvalidContext => String::from_str("<self /> can only be used in part"),
            ErrorKind::MalformedShorthand => String::from_str("shorthand attribute has no name"),
            ErrorKind::Expression => String::from_str("cannot read a property of undefined"),
            ErrorKind::CyclicDependency => String::from_str("cyclic dependency"),
            ErrorKind::NestingTooDeep => String::from_str("components are nested too deeply"),
        }
    }
}

} // verus!
