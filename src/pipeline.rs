//! From statement text to a value: grammar, name resolution and evaluation.
use vstd::prelude::*;

pub mod parse_tree;
pub mod parser;
pub mod locally_nameless_tree;
pub mod parse_to_locally_nameless;
pub mod runtime;
pub mod evaluator;

verus! {

} // verus!
