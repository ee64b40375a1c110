//! Separators and the end of the input.
use vstd::prelude::*;
use vstd::slice::slice_subrange;
use vstd::string::StringExecFns;

use super::internals::{Parser, ParserState, StateView};
use super::one_char::{OneCharMatches, Whitespace};
use super::string::min;
use crate::text::string_of;

verus! {

/// One whitespace character.
pub fn whitespace() -> (r: OneCharMatches<Whitespace>)
    ensures
        r == (OneCharMatches { predicate: Whitespace {}, description: "whitespace" }),
{
    crate::parsers::one_char::matches(Whitespace {}, "whitespace")
}

pub open spec fn trailing_input_message(leftovers: Seq<char>) -> Seq<char> {
    "Expected end of input, but found "@ + leftovers.take(min(10, leftovers.len() as int))
}

/// Succeeds only where no input is left.
#[derive(Clone, Copy)]
pub struct ExpectEnd {}

impl Parser for ExpectEnd {
    type Item = ();

    type ParseError = String;

    open spec fn spec_parse(&self, s: StateView) -> (Result<(), Seq<char>>, StateView) {
        if s.leftovers().len() == 0 {
            (Ok(()), s)
        } else {
            (Err(trailing_input_message(s.leftovers())), s)
        }
    }

    fn parse(&self, state: &mut ParserState) -> (r: Result<Self::Item, Self::ParseError>) {
        let leftovers = state.leftovers();
        if leftovers.len() == 0 {
            Ok(())
        } else {
            let shown = if leftovers.len() < 10 {
                leftovers.len()
            } else {
                10
            };
            let found = string_of(slice_subrange(leftovers, 0, shown));
            let mut message = String::new();
            message.append("Expected end of input, but found ");
            message.append(found.as_str());
            assert(message@ =~= trailing_input_message(old(state)@.leftovers()));
            Err(message)
        }
    }
}

} // verus!
