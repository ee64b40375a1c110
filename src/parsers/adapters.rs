//! Adapters that build parsers out of parsers.
use vstd::prelude::*;

use super::internals::{Parser, ParserPos, ParserSpan, ParserState, StateView, Transform, Validator};

verus! {

impl DeepView for ParserPos {
    type V = ParserPos;

    open spec fn deep_view(&self) -> ParserPos {
        *self
    }
}

/// The position of a state, as a `ParserPos`.
pub open spec fn pos_of(s: StateView) -> ParserPos {
    ParserPos { line: s.position().0 as usize, column: s.position().1 as usize }
}

/// Applies `transform` to the item of a success; errors pass through unchanged.
#[derive(Clone, Copy)]
pub struct Mapped<P, F> {
    pub parser: P,
    pub transform: F,
}

impl<P, F> Mapped<P, F> {
    pub fn new(parser: P, transform: F) -> (r: Self)
        ensures
            r.parser == parser,
            r.transform == transform,
    {
        Mapped { parser, transform }
    }
}

impl<P: Parser, F: Transform<P::Item>> Parser for Mapped<P, F> {
    type Item = F::Output;

    type ParseError = P::ParseError;

    open spec fn spec_parse(&self, s: StateView) -> (
        Result<<F::Output as DeepView>::V, <P::ParseError as DeepView>::V>,
        StateView,
    ) {
        let (r, s1) = self.parser.spec_parse(s);
        match r {
            Ok(item) => (Ok(self.transform.spec_apply(item)), s1),
            Err(err) => (Err(err), s1),
        }
    }

    fn parse(&self, state: &mut ParserState) -> (r: Result<Self::Item, Self::ParseError>) {
        match self.parser.parse(state) {
            Ok(item) => Ok(self.transform.apply(item)),
            Err(err) => Err(err),
        }
    }
}

/// Turns a success into a failure where `validate` describes what is wrong with the item.
/// The state stays advanced: this is a check of meaning, not a point to backtrack to.
#[derive(Clone, Copy)]
pub struct Validate<P, F> {
    pub parser: P,
    pub validate: F,
}

impl<P, F> Validate<P, F> {
    pub fn new(parser: P, validate: F) -> (r: Self)
        ensures
            r.parser == parser,
            r.validate == validate,
    {
        Validate { parser, validate }
    }
}

impl<P: Parser, F: Validator<P::Item, P::ParseError>> Parser for Validate<P, F> {
    type Item = P::Item;

    type ParseError = P::ParseError;

    open spec fn spec_parse(&self, s: StateView) -> (
        Result<<P::Item as DeepView>::V, <P::ParseError as DeepView>::V>,
        StateView,
    ) {
        let (r, s1) = self.parser.spec_parse(s);
        match r {
            Ok(item) => match self.validate.spec_validate(item) {
                None => (Ok(item), s1),
                Some(err) => (Err(err), s1),
            },
            Err(err) => (Err(err), s1),
        }
    }

    fn parse(&self, state: &mut ParserState) -> (r: Result<Self::Item, Self::ParseError>) {
        match self.parser.parse(state) {
            Err(err) => Err(err),
            Ok(item) => match self.validate.validate(&item) {
                None => Ok(item),
                Some(err) => Err(err),
            },
        }
    }
}

/// Applies `transform` to the error of a failure; successes pass through unchanged.
#[derive(Clone, Copy)]
pub struct MapErr<P, F> {
    pub parser: P,
    pub transform: F,
}

impl<P, F> MapErr<P, F> {
    pub fn new(parser: P, transform: F) -> (r: Self)
        ensures
            r.parser == parser,
            r.transform == transform,
    {
        MapErr { parser, transform }
    }
}

impl<P: Parser, F: Transform<P::ParseError>> Parser for MapErr<P, F> {
    type Item = P::Item;

    type ParseError = F::Output;

    open spec fn spec_parse(&self, s: StateView) -> (
        Result<<P::Item as DeepView>::V, <F::Output as DeepView>::V>,
        StateView,
    ) {
        let (r, s1) = self.parser.spec_parse(s);
        match r {
            Ok(item) => (Ok(item), s1),
            Err(err) => (Err(self.transform.spec_apply(err)), s1),
        }
    }

    fn parse(&self, state: &mut ParserState) -> (r: Result<Self::Item, Self::ParseError>) {
        match self.parser.parse(state) {
            Ok(item) => Ok(item),
            Err(err) => Err(self.transform.apply(err)),
        }
    }
}

/// On failure, restores the state it started from, however much was consumed.
#[derive(Clone, Copy)]
pub struct Backtracking<P> {
    pub parser: P,
}

impl<P> Backtracking<P> {
    pub fn new(parser: P) -> (r: Self)
        ensures
            r.parser == parser,
    {
        Backtracking { parser }
    }
}

impl<P: Parser> Parser for Backtracking<P> {
    type Item = P::Item;

    type ParseError = P::ParseError;

    open spec fn spec_parse(&self, s: StateView) -> (
        Result<<P::Item as DeepView>::V, <P::ParseError as DeepView>::V>,
        StateView,
    ) {
        let (r, s1) = self.parser.spec_parse(s);
        match r {
            Ok(item) => (Ok(item), s1),
            Err(err) => (Err(err), s),
        }
    }

    fn parse(&self, state: &mut ParserState) -> (r: Result<Self::Item, Self::ParseError>) {
        let backup = *state;
        match self.parser.parse(state) {
            Ok(item) => Ok(item),
            Err(err) => {
                *state = backup;
                Err(err)
            },
        }
    }
}

/// Succeeds with nothing where the parser fails without consuming; a failure after
/// consuming input is passed on.
#[derive(Clone, Copy)]
pub struct Optional<P> {
    pub parser: P,
}

impl<P> Optional<P> {
    pub fn new(parser: P) -> (r: Self)
        ensures
            r.parser == parser,
    {
        Optional { parser }
    }
}

impl<P: Parser> Parser for Optional<P> {
    type Item = Option<P::Item>;

    type ParseError = P::ParseError;

    open spec fn spec_parse(&self, s: StateView) -> (
        Result<Option<<P::Item as DeepView>::V>, <P::ParseError as DeepView>::V>,
        StateView,
    ) {
        let (r, s1) = self.parser.spec_parse(s);
        match r {
            Ok(item) => (Ok(Some(item)), s1),
            Err(err) => if s1.offset == s.offset {
                (Ok(None), s1)
            } else {
                (Err(err), s1)
            },
        }
    }

    fn parse(&self, state: &mut ParserState) -> (r: Result<Self::Item, Self::ParseError>) {
        let previously_consumed = state.consumed_so_far();
        match self.parser.parse(state) {
            Ok(item) => {
                assert(Some(item).deep_view() == Some(item.deep_view()));
                Ok(Some(item))
            },
            Err(err) => {
                if state.consumed_so_far() == previously_consumed {
                    Ok(None)
                } else {
                    Err(err)
                }
            },
        }
    }
}

/// Runs the parser on a copy of the state: a peek that consumes nothing.
#[derive(Clone, Copy)]
pub struct LookingAhead<P> {
    pub parser: P,
}

impl<P> LookingAhead<P> {
    pub fn new(parser: P) -> (r: Self)
        ensures
            r.parser == parser,
    {
        LookingAhead { parser }
    }
}

impl<P: Parser> Parser for LookingAhead<P> {
    type Item = P::Item;

    type ParseError = P::ParseError;

    open spec fn spec_parse(&self, s: StateView) -> (
        Result<<P::Item as DeepView>::V, <P::ParseError as DeepView>::V>,
        StateView,
    ) {
        (self.parser.spec_parse(s).0, s)
    }

    fn parse(&self, state: &mut ParserState) -> (r: Result<Self::Item, Self::ParseError>) {
        let mut copy = *state;
        self.parser.parse(&mut copy)
    }
}

/// Tries `fallback_parser` only where `parser` failed without consuming input; a failure
/// after consuming input is final.
#[derive(Clone, Copy)]
pub struct FallingBack<P, Q> {
    pub parser: P,
    pub fallback_parser: Q,
}

impl<P, Q> FallingBack<P, Q> {
    pub fn new(parser: P, fallback_parser: Q) -> (r: Self)
        ensures
            r.parser == parser,
            r.fallback_parser == fallback_parser,
    {
        FallingBack { parser, fallback_parser }
    }
}

impl<P: Parser, Q: Parser<Item = P::Item, ParseError = P::ParseError>> Parser for FallingBack<
    P,
    Q,
> {
    type Item = P::Item;

    type ParseError = P::ParseError;

    open spec fn spec_parse(&self, s: StateView) -> (
        Result<<P::Item as DeepView>::V, <P::ParseError as DeepView>::V>,
        StateView,
    ) {
        let (r, s1) = self.parser.spec_parse(s);
        match r {
            Ok(item) => (Ok(item), s1),
            Err(err) => if s1.offset == s.offset {
                self.fallback_parser.spec_parse(s1)
            } else {
                (Err(err), s1)
            },
        }
    }

    fn parse(&self, state: &mut ParserState) -> (r: Result<Self::Item, Self::ParseError>) {
        let previously_consumed = state.consumed_so_far();
        match self.parser.parse(state) {
            Ok(item) => Ok(item),
            Err(err) => {
                if state.consumed_so_far() == previously_consumed {
                    self.fallback_parser.parse(state)
                } else {
                    Err(err)
                }
            },
        }
    }
}

/// Once `parser` has consumed input and failed, `FallingBack` fails with its error and
/// leaves the state where `parser` left it: the alternative is never tried.
pub proof fn lemma_falling_back_commits<P: Parser, Q: Parser<Item = P::Item, ParseError = P::ParseError>>(
    p: FallingBack<P, Q>,
    s: StateView,
)
    requires
        p.parser.spec_parse(s).0 is Err,
        p.parser.spec_parse(s).1.offset != s.offset,
    ensures
        p.spec_parse(s) == p.parser.spec_parse(s),
{
}

/// Runs two parsers in turn and keeps the item of the second.
#[derive(Clone, Copy)]
pub struct Then<P, Q> {
    pub parser: P,
    pub next_parser: Q,
}

impl<P, Q> Then<P, Q> {
    pub fn new(parser: P, next_parser: Q) -> (r: Self)
        ensures
            r.parser == parser,
            r.next_parser == next_parser,
    {
        Then { parser, next_parser }
    }
}

impl<P: Parser, Q: Parser<ParseError = P::ParseError>> Parser for Then<P, Q> {
    type Item = Q::Item;

    type ParseError = P::ParseError;

    open spec fn spec_parse(&self, s: StateView) -> (
        Result<<Q::Item as DeepView>::V, <P::ParseError as DeepView>::V>,
        StateView,
    ) {
        let (r, s1) = self.parser.spec_parse(s);
        match r {
            Ok(_) => self.next_parser.spec_parse(s1),
            Err(err) => (Err(err), s1),
        }
    }

    fn parse(&self, state: &mut ParserState) -> (r: Result<Self::Item, Self::ParseError>) {
        match self.parser.parse(state) {
            Ok(_) => self.next_parser.parse(state),
            Err(err) => Err(err),
        }
    }
}

/// Runs two parsers in turn and keeps the item of the first.
#[derive(Clone, Copy)]
pub struct Also<P, Q> {
    pub parser: P,
    pub next_parser: Q,
}

impl<P, Q> Also<P, Q> {
    pub fn new(parser: P, next_parser: Q) -> (r: Self)
        ensures
            r.parser == parser,
            r.next_parser == next_parser,
    {
        Also { parser, next_parser }
    }
}

impl<P: Parser, Q: Parser<ParseError = P::ParseError>> Parser for Also<P, Q> {
    type Item = P::Item;

    type ParseError = P::ParseError;

    open spec fn spec_parse(&self, s: StateView) -> (
        Result<<P::Item as DeepView>::V, <P::ParseError as DeepView>::V>,
        StateView,
    ) {
        let (r, s1) = self.parser.spec_parse(s);
        match r {
            Ok(item) => {
                let (r2, s2) = self.next_parser.spec_parse(s1);
                match r2 {
                    Ok(_) => (Ok(item), s2),
                    Err(err) => (Err(err), s2),
                }
            },
            Err(err) => (Err(err), s1),
        }
    }

    fn parse(&self, state: &mut ParserState) -> (r: Result<Self::Item, Self::ParseError>) {
        match self.parser.parse(state) {
            Ok(item) => match self.next_parser.parse(state) {
                Ok(_) => Ok(item),
                Err(err) => Err(err),
            },
            Err(err) => Err(err),
        }
    }
}

/// Runs two parsers in turn and keeps both items.
#[derive(Clone, Copy)]
pub struct PairedWith<P, Q> {
    pub first_parser: P,
    pub second_parser: Q,
}

impl<P, Q> PairedWith<P, Q> {
    pub fn new(first_parser: P, second_parser: Q) -> (r: Self)
        ensures
            r.first_parser == first_parser,
            r.second_parser == second_parser,
    {
        PairedWith { first_parser, second_parser }
    }
}

impl<P: Parser, Q: Parser<ParseError = P::ParseError>> Parser for PairedWith<P, Q> {
    type Item = (P::Item, Q::Item);

    type ParseError = P::ParseError;

    open spec fn spec_parse(&self, s: StateView) -> (
        Result<(<P::Item as DeepView>::V, <Q::Item as DeepView>::V), <P::ParseError as DeepView>::V>,
        StateView,
    ) {
        let (r, s1) = self.first_parser.spec_parse(s);
        match r {
            Ok(first) => {
                let (r2, s2) = self.second_parser.spec_parse(s1);
                match r2 {
                    Ok(second) => (Ok((first, second)), s2),
                    Err(err) => (Err(err), s2),
                }
            },
            Err(err) => (Err(err), s1),
        }
    }

    fn parse(&self, state: &mut ParserState) -> (r: Result<Self::Item, Self::ParseError>) {
        match self.first_parser.parse(state) {
            Ok(first) => match self.second_parser.parse(state) {
                Ok(second) => {
                    assert((first, second).deep_view() == (first.deep_view(), second.deep_view()));
                    Ok((first, second))
                },
                Err(err) => Err(err),
            },
            Err(err) => Err(err),
        }
    }
}

/// The items that repeated runs of `p` yield from `s`, and where they leave the state.
/// The runs stop at the first failure, which leaves the state as it was, or after a
/// success that consumed nothing.
pub open spec fn spec_many<P: Parser>(p: P, s: StateView) -> (Seq<<P::Item as DeepView>::V>, StateView)
    decreases s.text.len() - s.offset,
{
    let (r, s1) = p.spec_parse(s);
    match r {
        Err(_) => (Seq::empty(), s),
        Ok(item) => if s1.text == s.text && s.offset < s1.offset <= s.text.len() {
            let (rest, s2) = spec_many(p, s1);
            (seq![item] + rest, s2)
        } else {
            (seq![item], s1)
        },
    }
}

/// Repeats a parser, backtracking out of the attempt that fails, and collects the items.
#[derive(Clone, Copy)]
pub struct Many<P, E> {
    pub parser: Backtracking<P>,
    pub phantom: Ghost<E>,
}

impl<P, E> Many<P, E> {
    pub fn new(parser: P) -> (r: Self)
        ensures
            r == (Many { parser: Backtracking { parser }, phantom: Ghost(arbitrary::<E>()) }),
    {
        Many { parser: Backtracking::new(parser), phantom: Ghost(arbitrary()) }
    }
}

/// Runs `p` repeatedly from `state`, pushing the items onto `results`.
fn repeat_into<P: Parser>(p: &Backtracking<P>, state: &mut ParserState, results: &mut Vec<P::Item>)
    requires
        old(state).wf(),
    ensures
        final(state).wf(),
        old(state)@.reaches(final(state)@),
        final(results).deep_view() == old(results).deep_view() + spec_many(*p, old(state)@).0,
        final(state)@ == spec_many(*p, old(state)@).1,
{
    let ghost start = state@;
    let ghost first = old(results).deep_view();
    loop
        invariant_except_break
            results.deep_view() + spec_many(*p, state@).0 == first + spec_many(*p, start).0,
            spec_many(*p, state@).1 == spec_many(*p, start).1,
        invariant
            state.wf(),
            start.reaches(state@),
        ensures
            state.wf(),
            start.reaches(state@),
            results.deep_view() == first + spec_many(*p, start).0,
            state@ == spec_many(*p, start).1,
        decreases state@.text.len() - state@.offset,
    {
        let ghost before_results = results.deep_view();
        let ghost before = state@;
        let previously_consumed = state.consumed_so_far();
        match p.parse(state) {
            Err(_) => {
                assert(spec_many(*p, before).0 =~= Seq::<<P::Item as DeepView>::V>::empty());
                assert(results.deep_view() =~= first + spec_many(*p, start).0);
                break;
            },
            Ok(item) => {
                let ghost iv = item.deep_view();
                results.push(item);
                assert(results.deep_view() =~= before_results.push(iv));
                if state.consumed_so_far() == previously_consumed {
                    assert(spec_many(*p, before).0 =~= seq![iv]);
                    assert(results.deep_view() =~= first + spec_many(*p, start).0);
                    break;
                }
                proof {
                    state.lemma_wf();
                }
                assert(p.spec_parse(before) == (Ok::<_, <P::ParseError as DeepView>::V>(iv), state@));
                assert(spec_many(*p, before).0 == seq![iv] + spec_many(*p, state@).0);
                assert(before_results + spec_many(*p, before).0 =~= results.deep_view()
                    + spec_many(*p, state@).0);
            },
        }
    }
}

impl<P: Parser, E: DeepView> Parser for Many<P, E> {
    type Item = Vec<P::Item>;

    type ParseError = E;

    open spec fn spec_parse(&self, s: StateView) -> (
        Result<Seq<<P::Item as DeepView>::V>, <E as DeepView>::V>,
        StateView,
    ) {
        let (items, s1) = spec_many(self.parser, s);
        (Ok(items), s1)
    }

    fn parse(&self, state: &mut ParserState) -> (r: Result<Self::Item, Self::ParseError>) {
        let mut results: Vec<P::Item> = Vec::new();
        assert(results.deep_view() =~= Seq::<<P::Item as DeepView>::V>::empty());
        repeat_into(&self.parser, state, &mut results);
        assert(results.deep_view() =~= spec_many(self.parser, old(state)@).0);
        Ok(results)
    }
}

/// Repeats a parser like `Many` and discards the items.
#[derive(Clone, Copy)]
pub struct SkipMany<P, E> {
    pub parser: Backtracking<P>,
    pub phantom: Ghost<E>,
}

impl<P, E> SkipMany<P, E> {
    pub fn new(parser: P) -> (r: Self)
        ensures
            r == (SkipMany { parser: Backtracking { parser }, phantom: Ghost(arbitrary::<E>()) }),
    {
        SkipMany { parser: Backtracking::new(parser), phantom: Ghost(arbitrary()) }
    }
}

impl<P: Parser, E: DeepView> Parser for SkipMany<P, E> {
    type Item = ();

    type ParseError = E;

    open spec fn spec_parse(&self, s: StateView) -> (Result<(), <E as DeepView>::V>, StateView) {
        (Ok(()), spec_many(self.parser, s).1)
    }

    fn parse(&self, state: &mut ParserState) -> (r: Result<Self::Item, Self::ParseError>) {
        let mut results: Vec<P::Item> = Vec::new();
        repeat_into(&self.parser, state, &mut results);
        Ok(())
    }
}

/// One mandatory run of a parser, then as many more as `Many` finds.
#[derive(Clone, Copy)]
pub struct AtLeastOne<P> {
    pub parse_one: P,
    pub parse_more: Many<P, ()>,
}

impl<P: Copy> AtLeastOne<P> {
    pub fn new(parser: P) -> (r: Self)
        ensures
            r.parse_one == parser,
            r.parse_more == (Many { parser: Backtracking { parser }, phantom: Ghost(arbitrary::<()>()) }),
    {
        AtLeastOne { parse_one: parser, parse_more: Many::new(parser) }
    }
}

impl<P: Parser> Parser for AtLeastOne<P> {
    type Item = (P::Item, Vec<P::Item>);

    type ParseError = P::ParseError;

    open spec fn spec_parse(&self, s: StateView) -> (
        Result<(<P::Item as DeepView>::V, Seq<<P::Item as DeepView>::V>), <P::ParseError as DeepView>::V>,
        StateView,
    ) {
        let (r, s1) = self.parse_one.spec_parse(s);
        match r {
            Ok(first) => {
                let (more, s2) = spec_many(self.parse_more.parser, s1);
                (Ok((first, more)), s2)
            },
            Err(err) => (Err(err), s1),
        }
    }

    fn parse(&self, state: &mut ParserState) -> (r: Result<Self::Item, Self::ParseError>) {
        match self.parse_one.parse(state) {
            Err(err) => Err(err),
            Ok(first) => {
                let ghost s1 = state@;
                let mut more: Vec<P::Item> = Vec::new();
                assert(more.deep_view() =~= Seq::<<P::Item as DeepView>::V>::empty());
                repeat_into(&self.parse_more.parser, state, &mut more);
                assert(more.deep_view() =~= spec_many(self.parse_more.parser, s1).0);
                assert(self.parse_one.spec_parse(old(state)@) == (Ok::<_, <P::ParseError as DeepView>::V>(first.deep_view()), s1));
                Ok((first, more))
            },
        }
    }
}

/// Pairs the item of a success with the positions where it started and ended.
#[derive(Clone, Copy)]
pub struct WithSpan<P> {
    pub parser: P,
}

impl<P> WithSpan<P> {
    pub fn new(parser: P) -> (r: Self)
        ensures
            r.parser == parser,
    {
        WithSpan { parser }
    }
}

impl<P: Parser> Parser for WithSpan<P> {
    type Item = (P::Item, ParserSpan);

    type ParseError = P::ParseError;

    open spec fn spec_parse(&self, s: StateView) -> (
        Result<(<P::Item as DeepView>::V, (ParserPos, ParserPos)), <P::ParseError as DeepView>::V>,
        StateView,
    ) {
        let (r, s1) = self.parser.spec_parse(s);
        match r {
            Ok(item) => (Ok((item, (pos_of(s), pos_of(s1)))), s1),
            Err(err) => (Err(err), s1),
        }
    }

    fn parse(&self, state: &mut ParserState) -> (r: Result<Self::Item, Self::ParseError>) {
        let start = *state.current_position();
        match self.parser.parse(state) {
            Ok(item) => {
                let end = *state.current_position();
                assert(start == pos_of(old(state)@));
                assert(end == pos_of(state@));
                assert((item, (start, end)).deep_view() == (item.deep_view(), (start, end)));
                Ok((item, (start, end)))
            },
            Err(err) => Err(err),
        }
    }
}

} // verus!
