//! An interpreter for a small lambda-calculus language: a combinator parsing
//! framework, a grammar built from it, a resolver to a locally-nameless tree
//! and an evaluator over shared environment frames.
use vstd::prelude::*;

pub mod config;
pub mod parsers;
pub mod pipeline;
pub mod session;
pub mod text;

verus! {

} // verus!
