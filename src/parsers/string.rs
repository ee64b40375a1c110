//! Parsers of runs of characters.
use vstd::prelude::*;
use vstd::slice::slice_subrange;
use vstd::string::StringExecFns;

use super::internals::{begins_with, result_view, CharPredicate, Parser, ParserState, StateView};
use crate::text::{chars_of, string_of};

verus! {

pub open spec fn min(a: int, b: int) -> int {
    if a <= b {
        a
    } else {
        b
    }
}

/// The error of `Expect`: what was expected, and as many characters of what was found.
pub open spec fn expect_message(expected: Seq<char>, leftovers: Seq<char>) -> Seq<char> {
    "Expected\n  "@ + expected + "\nbut found\n  "@ + leftovers.take(
        min(expected.len() as int, leftovers.len() as int),
    )
}

/// How many characters at the start of `s` the predicate accepts, one after another.
pub open spec fn matching_len<Pred: CharPredicate>(p: Pred, s: Seq<char>) -> nat
    decreases s.len(),
{
    if s.len() > 0 && p.spec_test(s[0]) {
        1 + matching_len(p, s.drop_first())
    } else {
        0
    }
}

pub proof fn lemma_matching_len<Pred: CharPredicate>(p: Pred, s: Seq<char>, i: int)
    requires
        0 <= i <= s.len(),
        forall|j: int| 0 <= j < i ==> p.spec_test(#[trigger] s[j]),
    ensures
        matching_len(p, s) == i + matching_len(p, s.skip(i)),
    decreases i,
{
    if i > 0 {
        assert forall|j: int| 0 <= j < i - 1 implies p.spec_test(#[trigger] s.drop_first()[j]) by {
            assert(s.drop_first()[j] == s[j + 1]);
        }
        lemma_matching_len(p, s.drop_first(), i - 1);
        assert(s.drop_first().skip(i - 1) =~= s.skip(i));
    } else {
        assert(s.skip(0) =~= s);
    }
}

/// Tells whether what is left begins with `expected`, and consumes nothing.
#[derive(Clone, Copy)]
pub struct Check<'a, E> {
    pub expected: &'a str,
    pub phantom: Ghost<E>,
}

pub fn check<E>(expected: &str) -> (r: Check<'_, E>)
    ensures
        r == (Check { expected, phantom: Ghost(arbitrary::<E>()) }),
{
    Check { expected, phantom: Ghost(arbitrary()) }
}

impl<'a, E: DeepView> Parser for Check<'a, E> {
    type Item = bool;

    type ParseError = E;

    open spec fn spec_parse(&self, s: StateView) -> (Result<bool, E::V>, StateView) {
        (Ok(begins_with(s.leftovers(), self.expected@)), s)
    }

    fn parse(&self, state: &mut ParserState) -> (r: Result<Self::Item, Self::ParseError>) {
        let expected = chars_of(self.expected);
        let found = state.starts_with(expected.as_slice());
        assert(result_view(Ok::<bool, E>(found)) == Ok::<bool, E::V>(found));
        Ok(found)
    }
}

/// `Check` with an owned expectation.
#[derive(Clone)]
pub struct CheckOwned<E> {
    pub expected: String,
    pub phantom: Ghost<E>,
}

pub fn check_owned<E>(expected: String) -> (r: CheckOwned<E>)
    ensures
        r == (CheckOwned { expected, phantom: Ghost(arbitrary::<E>()) }),
{
    CheckOwned { expected, phantom: Ghost(arbitrary()) }
}

impl<E: DeepView> Parser for CheckOwned<E> {
    type Item = bool;

    type ParseError = E;

    open spec fn spec_parse(&self, s: StateView) -> (Result<bool, E::V>, StateView) {
        (Ok(begins_with(s.leftovers(), self.expected@)), s)
    }

    fn parse(&self, state: &mut ParserState) -> (r: Result<Self::Item, Self::ParseError>) {
        check::<E>(self.expected.as_str()).parse(state)
    }
}

/// Consumes exactly `expected`, or fails without consuming.
#[derive(Clone, Copy)]
pub struct Expect<'a> {
    pub expected: &'a str,
}

pub fn expect(expected: &str) -> (r: Expect<'_>)
    ensures
        r.expected == expected,
{
    Expect { expected }
}

impl<'a> Parser for Expect<'a> {
    type Item = ();

    type ParseError = String;

    open spec fn spec_parse(&self, s: StateView) -> (Result<(), Seq<char>>, StateView) {
        if begins_with(s.leftovers(), self.expected@) {
            (Ok(()), s.advanced(self.expected@.len()))
        } else {
            (Err(expect_message(self.expected@, s.leftovers())), s)
        }
    }

    fn parse(&self, state: &mut ParserState) -> (r: Result<Self::Item, Self::ParseError>) {
        proof {
            state.lemma_wf();
        }
        let expected = chars_of(self.expected);
        if state.starts_with(expected.as_slice()) {
            state.advance(expected.len());
            Ok(())
        } else {
            let leftovers = state.leftovers();
            let shown = if expected.len() <= leftovers.len() {
                expected.len()
            } else {
                leftovers.len()
            };
            let found = string_of(slice_subrange(leftovers, 0, shown));
            let mut message = String::new();
            message.append("Expected\n  ");
            message.append(self.expected);
            message.append("\nbut found\n  ");
            message.append(found.as_str());
            assert(message@ =~= expect_message(self.expected@, old(state)@.leftovers()));
            Err(message)
        }
    }
}

/// `Expect` with an owned expectation.
#[derive(Clone)]
pub struct ExpectOwned {
    pub expected: String,
}

pub fn expect_owned(expected: String) -> (r: ExpectOwned)
    ensures
        r.expected == expected,
{
    ExpectOwned { expected }
}

impl Parser for ExpectOwned {
    type Item = ();

    type ParseError = String;

    open spec fn spec_parse(&self, s: StateView) -> (Result<(), Seq<char>>, StateView) {
        if begins_with(s.leftovers(), self.expected@) {
            (Ok(()), s.advanced(self.expected@.len()))
        } else {
            (Err(expect_message(self.expected@, s.leftovers())), s)
        }
    }

    fn parse(&self, state: &mut ParserState) -> (r: Result<Self::Item, Self::ParseError>) {
        expect(self.expected.as_str()).parse(state)
    }
}

/// Consumes the longest run of characters that `predicate` accepts, possibly empty.
#[derive(Clone, Copy)]
pub struct ManyCharsMatching<Pred, E> {
    pub predicate: Pred,
    pub phantom: Ghost<E>,
}

pub fn many_chars_matching<Pred, E>(predicate: Pred) -> (r: ManyCharsMatching<Pred, E>)
    ensures
        r == (ManyCharsMatching { predicate, phantom: Ghost(arbitrary::<E>()) }),
{
    ManyCharsMatching { predicate, phantom: Ghost(arbitrary()) }
}

impl<Pred: CharPredicate, E: DeepView> Parser for ManyCharsMatching<Pred, E> {
    type Item = String;

    type ParseError = E;

    open spec fn spec_parse(&self, s: StateView) -> (Result<Seq<char>, E::V>, StateView) {
        let n = matching_len(self.predicate, s.leftovers());
        (Ok(s.leftovers().take(n as int)), s.advanced(n))
    }

    fn parse(&self, state: &mut ParserState) -> (r: Result<Self::Item, Self::ParseError>) {
        proof {
            state.lemma_wf();
        }
        let leftovers = state.leftovers();
        let mut i: usize = 0;
        while i < leftovers.len() && self.predicate.test(leftovers[i])
            invariant
                i <= leftovers@.len(),
                forall|j: int| 0 <= j < i ==> self.predicate.spec_test(#[trigger] leftovers@[j]),
            decreases leftovers@.len() - i,
        {
            i = i + 1;
        }
        proof {
            lemma_matching_len(self.predicate, leftovers@, i as int);
        }
        let found = string_of(slice_subrange(leftovers, 0, i));
        state.advance(i);
        assert(found@ =~= leftovers@.take(i as int));
        Ok(found)
    }
}

} // verus!
