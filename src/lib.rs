//! Evaluation of component documents into rendered trees.
//!
//! A parsed document is evaluated against data and a graph of the files it
//! imports. Components are instantiated with their own file's scope, `part`
//! and `self` select and reuse sections of a document, conditionals choose a
//! branch, and the style blocks of every file reached are gathered into one
//! scoped stylesheet placed first in the rendered root.

pub mod ast;
pub mod css;
pub mod error;
pub mod evaluator;
pub mod fmt;
pub mod graph;
pub mod laws;
pub mod parser;
pub mod scope;
pub mod semantics;
pub mod text;
pub mod value;
pub mod virt;
pub mod wire;
