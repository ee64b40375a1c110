//! The combinator core: parser state, the `Parser` capability and its adapters.
use vstd::prelude::*;

pub mod adapters;
pub mod internals;
pub mod one_char;
pub mod string;
pub mod pure;
pub mod delim;

pub use internals::{Parser, ParserPos, ParserSpan, ParserState, StateView};

verus! {

} // verus!
