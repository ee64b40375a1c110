//! Parsers that consume nothing and yield a value of their own.
use vstd::prelude::*;

use super::internals::{result_view, Parser, ParserState, StateView};

verus! {

/// Yields a copy of `val` and consumes nothing.
#[derive(Clone, Copy)]
pub struct Cloning<R, E> {
    pub val: R,
    pub phantom: Ghost<E>,
}

pub fn cloning<R: Copy, E>(val: R) -> (r: Cloning<R, E>)
    ensures
        r == (Cloning { val, phantom: Ghost(arbitrary::<E>()) }),
{
    Cloning { val, phantom: Ghost(arbitrary()) }
}

impl<R: Copy + DeepView, E: DeepView> Parser for Cloning<R, E> {
    type Item = R;

    type ParseError = E;

    open spec fn spec_parse(&self, s: StateView) -> (Result<R::V, E::V>, StateView) {
        (Ok(self.val.deep_view()), s)
    }

    fn parse(&self, state: &mut ParserState) -> (r: Result<Self::Item, Self::ParseError>) {
        let val = self.val;
        assert(result_view(Ok::<R, E>(val)) == Ok::<R::V, E::V>(val.deep_view()));
        Ok(val)
    }
}

/// Something that makes a result on demand, with the result stated by `spec_make`.
pub trait MakeResult {
    type Item: DeepView;
    type Error: DeepView;

    spec fn spec_make(&self) -> Result<<Self::Item as DeepView>::V, <Self::Error as DeepView>::V>;

    fn make(&self) -> (r: Result<Self::Item, Self::Error>)
        ensures
            result_view(r) == self.spec_make(),
    ;
}

/// A result made in advance: each call hands out a copy of it.
impl<R: Copy + DeepView, E: Copy + DeepView> MakeResult for Result<R, E> {
    type Item = R;

    type Error = E;

    open spec fn spec_make(&self) -> Result<R::V, E::V> {
        result_view(*self)
    }

    fn make(&self) -> (r: Result<R, E>) {
        *self
    }
}

/// Yields whatever `make_result` makes, and consumes nothing.
#[derive(Clone, Copy)]
pub struct Lazy<F> {
    pub make_result: F,
}

pub fn lazy<F>(make_result: F) -> (r: Lazy<F>)
    ensures
        r.make_result == make_result,
{
    Lazy { make_result }
}

impl<F: MakeResult> Parser for Lazy<F> {
    type Item = F::Item;

    type ParseError = F::Error;

    open spec fn spec_parse(&self, s: StateView) -> (
        Result<<F::Item as DeepView>::V, <F::Error as DeepView>::V>,
        StateView,
    ) {
        (self.make_result.spec_make(), s)
    }

    fn parse(&self, state: &mut ParserState) -> (r: Result<Self::Item, Self::ParseError>) {
        self.make_result.make()
    }
}

} // verus!
