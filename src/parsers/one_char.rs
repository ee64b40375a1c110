//! Parsers of a single character.
use vstd::prelude::*;
use vstd::string::StringExecFns;

use super::internals::{result_view, CharPredicate, Parser, ParserState, StateView};
use crate::text::{char_is_whitespace, is_ascii_digit, is_ascii_lowercase, is_whitespace, push_char};

verus! {

/// Characters with the Unicode White_Space property.
#[derive(Clone, Copy)]
pub struct Whitespace {}

/// The letters `a` to `z`.
#[derive(Clone, Copy)]
pub struct LowercaseLetter {}

/// The digits `0` to `9`.
#[derive(Clone, Copy)]
pub struct DecimalDigit {}

impl CharPredicate for Whitespace {
    open spec fn spec_test(&self, c: char) -> bool {
        is_whitespace(c)
    }

    fn test(&self, c: char) -> (r: bool) {
        char_is_whitespace(c)
    }
}

impl CharPredicate for LowercaseLetter {
    open spec fn spec_test(&self, c: char) -> bool {
        is_ascii_lowercase(c)
    }

    fn test(&self, c: char) -> (r: bool) {
        'a' <= c && c <= 'z'
    }
}

impl CharPredicate for DecimalDigit {
    open spec fn spec_test(&self, c: char) -> bool {
        is_ascii_digit(c)
    }

    fn test(&self, c: char) -> (r: bool) {
        '0' <= c && c <= '9'
    }
}

pub open spec fn unexpected_char_message(c: char, description: Seq<char>) -> Seq<char> {
    "Unexpected char "@ + seq![c] + ". Expected "@ + description
}

pub open spec fn unexpected_end_message(description: Seq<char>) -> Seq<char> {
    "Unexpected end of input. Expected "@ + description
}

/// Consumes one character that `predicate` accepts.
#[derive(Clone, Copy)]
pub struct OneCharMatches<Pred> {
    pub predicate: Pred,
    pub description: &'static str,
}

pub fn matches<Pred>(predicate: Pred, description: &'static str) -> (r: OneCharMatches<Pred>)
    ensures
        r.predicate == predicate,
        r.description == description,
{
    OneCharMatches { predicate, description }
}

impl<Pred: CharPredicate> Parser for OneCharMatches<Pred> {
    type Item = char;

    type ParseError = String;

    open spec fn spec_parse(&self, s: StateView) -> (Result<char, Seq<char>>, StateView) {
        if s.offset < s.text.len() {
            let c = s.text[s.offset as int];
            if self.predicate.spec_test(c) {
                (Ok(c), s.advanced(1))
            } else {
                (Err(unexpected_char_message(c, self.description@)), s)
            }
        } else {
            (Err(unexpected_end_message(self.description@)), s)
        }
    }

    fn parse(&self, state: &mut ParserState) -> (r: Result<Self::Item, Self::ParseError>) {
        proof {
            state.lemma_wf();
        }
        match state.peek() {
            Some(c) => {
                if self.predicate.test(c) {
                    state.advance(1);
                    assert(result_view(Ok::<char, String>(c)) == Ok::<char, Seq<char>>(c));
                    Ok(c)
                } else {
                    let mut message = String::new();
                    message.append("Unexpected char ");
                    push_char(&mut message, c);
                    message.append(". Expected ");
                    message.append(self.description);
                    assert(message@ =~= unexpected_char_message(c, self.description@));
                    Err(message)
                }
            },
            None => {
                let mut message = String::new();
                message.append("Unexpected end of input. Expected ");
                message.append(self.description);
                assert(message@ =~= unexpected_end_message(self.description@));
                Err(message)
            },
        }
    }
}

/// Consumes any one character.
#[derive(Clone, Copy)]
pub struct AnyChar {}

impl Parser for AnyChar {
    type Item = char;

    type ParseError = String;

    open spec fn spec_parse(&self, s: StateView) -> (Result<char, Seq<char>>, StateView) {
        if s.offset < s.text.len() {
            (Ok(s.text[s.offset as int]), s.advanced(1))
        } else {
            (Err("Unexpected end of input."@), s)
        }
    }

    fn parse(&self, state: &mut ParserState) -> (r: Result<Self::Item, Self::ParseError>) {
        proof {
            state.lemma_wf();
        }
        match state.peek() {
            Some(c) => {
                state.advance(1);
                assert(c.deep_view() == c);
                assert(result_view(Ok::<char, String>(c)) == Ok::<char, Seq<char>>(c));
                Ok(c)
            },
            None => {
                let mut message = String::new();
                message.append("Unexpected end of input.");
                assert(message@ =~= "Unexpected end of input."@);
                Err(message)
            },
        }
    }
}

} // verus!
