use vstd::prelude::*;
use vstd::slice::slice_subrange;

use super::adapters::{
    Also, AtLeastOne, Backtracking, FallingBack, LookingAhead, Many, Mapped, MapErr, Optional,
    PairedWith, SkipMany, Then, Validate, WithSpan,
};

verus! {

/// A line and a column in the input, both counted from zero.
#[derive(Clone, Copy, Debug, PartialEq, Eq)]
pub struct ParserPos {
    pub line: usize,
    pub column: usize,
}

impl ParserPos {
    pub fn new(line: usize, column: usize) -> (r: Self)
        ensures
            r.line == line,
            r.column == column,
    {
        ParserPos { line, column }
    }
}

/// The start and the end of what a parser consumed.
pub type ParserSpan = (ParserPos, ParserPos);

/// The line and column reached after reading the first `k` characters of `text`.
pub open spec fn pos_after(text: Seq<char>, k: int) -> (nat, nat)
    decreases k,
{
    if k <= 0 {
        (0, 0)
    } else {
        let (line, column) = pos_after(text, k - 1);
        if text[k - 1] == '\n' {
            (line + 1, 0)
        } else {
            (line, column + 1)
        }
    }
}

pub proof fn lemma_pos_bounded(text: Seq<char>, k: int)
    requires
        0 <= k,
    ensures
        pos_after(text, k).0 <= k,
        pos_after(text, k).1 <= k,
    decreases k,
{
    if k > 0 {
        lemma_pos_bounded(text, k - 1);
    }
}

/// Whether `s` begins with `prefix`.
pub open spec fn begins_with(s: Seq<char>, prefix: Seq<char>) -> bool {
    prefix.len() <= s.len() && s.take(prefix.len() as int) == prefix
}

/// What a parser state stands for: the whole input and how much of it was consumed.
pub ghost struct StateView {
    pub text: Seq<char>,
    pub offset: nat,
}

impl StateView {
    pub open spec fn wf(self) -> bool {
        self.offset <= self.text.len()
    }

    /// The input that is not consumed yet.
    pub open spec fn leftovers(self) -> Seq<char> {
        self.text.skip(self.offset as int)
    }

    /// The same input, `n` more characters consumed.
    pub open spec fn advanced(self, n: nat) -> StateView {
        StateView { text: self.text, offset: self.offset + n }
    }

    /// The line and column reached.
    pub open spec fn position(self) -> (nat, nat) {
        pos_after(self.text, self.offset as int)
    }

    /// Whether `later` is this state with zero or more characters consumed.
    pub open spec fn reaches(self, later: StateView) -> bool {
        later.text == self.text && self.offset <= later.offset
    }
}

/// An immutable snapshot of the input: copying it is how parsers backtrack.
#[derive(Clone, Copy)]
pub struct ParserState<'a> {
    text: &'a [char],
    consumed_so_far: usize,
    position: ParserPos,
}

impl<'a> View for ParserState<'a> {
    type V = StateView;

    closed spec fn view(&self) -> StateView {
        StateView { text: self.text@, offset: self.consumed_so_far as nat }
    }
}

impl<'a> ParserState<'a> {
    /// The position field agrees with the text read so far.
    pub closed spec fn wf(&self) -> bool {
        &&& self.consumed_so_far <= self.text@.len() <= usize::MAX
        &&& pos_after(self.text@, self.consumed_so_far as int) == (
            self.position.line as nat,
            self.position.column as nat,
        )
    }

    pub fn new(text: &'a [char]) -> (r: ParserState<'a>)
        ensures
            r.wf(),
            r@.text == text@,
            r@.offset == 0,
    {
        // asking for the length tells the invariant that it fits in usize
        let _n = text.len();
        ParserState { text, consumed_so_far: 0, position: ParserPos::new(0, 0) }
    }

    /// Consumes the next `distance` characters.
    pub fn advance(&mut self, distance: usize)
        requires
            old(self).wf(),
            old(self)@.offset + distance <= old(self)@.text.len(),
        ensures
            final(self).wf(),
            final(self)@ == old(self)@.advanced(distance as nat),
    {
        let ghost start = self.consumed_so_far;
        let mut i: usize = 0;
        while i < distance
            invariant
                self.wf(),
                self.text@ == old(self).text@,
                i <= distance,
                start + distance <= self.text@.len(),
                self.consumed_so_far == start + i,
            decreases distance - i,
        {
            let c = self.text[self.consumed_so_far];
            proof {
                lemma_pos_bounded(self.text@, self.consumed_so_far as int);
            }
            if c == '\n' {
                self.position.line = self.position.line + 1;
                self.position.column = 0;
            } else {
                self.position.column = self.position.column + 1;
            }
            self.consumed_so_far = self.consumed_so_far + 1;
            i = i + 1;
        }
    }

    /// The input that is not consumed yet.
    pub fn leftovers(&self) -> (r: &'a [char])
        requires
            self.wf(),
        ensures
            r@ == self@.leftovers(),
    {
        let r = slice_subrange(self.text, self.consumed_so_far, self.text.len());
        assert(r@ =~= self@.leftovers());
        r
    }

    /// The next character, if any is left.
    pub fn peek(&self) -> (r: Option<char>)
        requires
            self.wf(),
        ensures
            r == (if self@.offset < self@.text.len() {
                Some(self@.text[self@.offset as int])
            } else {
                None
            }),
    {
        if self.consumed_so_far < self.text.len() {
            Some(self.text[self.consumed_so_far])
        } else {
            None
        }
    }

    pub fn current_position(&self) -> (r: &ParserPos)
        requires
            self.wf(),
        ensures
            (r.line as nat, r.column as nat) == self@.position(),
    {
        &self.position
    }

    /// Whether what is left begins with `expected`.
    pub fn starts_with(&self, expected: &[char]) -> (r: bool)
        requires
            self.wf(),
        ensures
            r == begins_with(self@.leftovers(), expected@),
    {
        let n = expected.len();
        if self.text.len() - self.consumed_so_far < n {
            return false;
        }
        let mut i: usize = 0;
        while i < n
            invariant
                i <= n == expected@.len(),
                self.consumed_so_far + n <= self.text@.len() <= usize::MAX,
                forall|j: int| 0 <= j < i ==> self.text@[self.consumed_so_far + j] == expected@[j],
            decreases n - i,
        {
            if self.text[self.consumed_so_far + i] != expected[i] {
                assert(self@.leftovers()[i as int] != expected@[i as int]);
                return false;
            }
            i = i + 1;
        }
        assert(self@.leftovers().take(n as int) =~= expected@);
        true
    }

    pub proof fn lemma_wf(&self)
        requires
            self.wf(),
        ensures
            self@.wf(),
    {
    }

    /// How many characters were consumed since the start of the input.
    pub fn consumed_so_far(&self) -> (r: usize)
        ensures
            r == self@.offset,
    {
        self.consumed_so_far
    }
}

/// The view of a parse result: items and errors by their deep views.
pub open spec fn result_view<T: DeepView, E: DeepView>(r: Result<T, E>) -> Result<T::V, E::V> {
    match r {
        Ok(item) => Ok(item.deep_view()),
        Err(err) => Err(err.deep_view()),
    }
}

/// The capability to parse: consume a prefix of what is left and produce an item or an error.
///
/// `spec_parse` says what the parser yields from a state and where it leaves the state.
pub trait Parser: Sized {
    type Item: DeepView;
    type ParseError: DeepView;

    spec fn spec_parse(&self, s: StateView) -> (
        Result<<Self::Item as DeepView>::V, <Self::ParseError as DeepView>::V>,
        StateView,
    );

    fn parse(&self, state: &mut ParserState) -> (r: Result<Self::Item, Self::ParseError>)
        requires
            old(state).wf(),
        ensures
            final(state).wf(),
            old(state)@.reaches(final(state)@),
            (result_view(r), final(state)@) == self.spec_parse(old(state)@),
    ;

    /// Parses from the start of `text`.
    fn parse_chars(&self, text: &[char]) -> (r: Result<Self::Item, Self::ParseError>)
        ensures
            result_view(r) == self.spec_parse(StateView { text: text@, offset: 0 }).0,
    {
        let mut state = ParserState::new(text);
        self.parse(&mut state)
    }

    /// Parses from the start of the characters of `text`.
    fn parse_str(&self, text: &str) -> (r: Result<Self::Item, Self::ParseError>)
        ensures
            result_view(r) == self.spec_parse(StateView { text: text@, offset: 0 }).0,
    {
        let chars = crate::text::chars_of(text);
        self.parse_chars(chars.as_slice())
    }

    fn map<F: Transform<Self::Item>>(self, transform: F) -> (r: Mapped<Self, F>)
        ensures
            r.parser == self,
            r.transform == transform,
    {
        Mapped::new(self, transform)
    }

    fn map_err<F: Transform<Self::ParseError>>(self, transform: F) -> (r: MapErr<Self, F>)
        ensures
            r.parser == self,
            r.transform == transform,
    {
        MapErr::new(self, transform)
    }

    fn validate<F: Validator<Self::Item, Self::ParseError>>(self, validate: F) -> (r: Validate<
        Self,
        F,
    >)
        ensures
            r.parser == self,
            r.validate == validate,
    {
        Validate::new(self, validate)
    }

    fn optional(self) -> (r: Optional<Self>)
        ensures
            r.parser == self,
    {
        Optional::new(self)
    }

    fn backtracking(self) -> (r: Backtracking<Self>)
        ensures
            r.parser == self,
    {
        Backtracking::new(self)
    }

    fn looking_ahead(self) -> (r: LookingAhead<Self>)
        ensures
            r.parser == self,
    {
        LookingAhead::new(self)
    }

    fn falling_back<Q>(self, fallback_parser: Q) -> (r: FallingBack<Self, Q>)
        ensures
            r.parser == self,
            r.fallback_parser == fallback_parser,
    {
        FallingBack::new(self, fallback_parser)
    }

    /// Runs `next_parser` after this one and keeps its item.
    fn followed_by<Q>(self, next_parser: Q) -> (r: Then<Self, Q>)
        ensures
            r.parser == self,
            r.next_parser == next_parser,
    {
        Then::new(self, next_parser)
    }

    fn paired_with<Q>(self, next_parser: Q) -> (r: PairedWith<Self, Q>)
        ensures
            r.first_parser == self,
            r.second_parser == next_parser,
    {
        PairedWith::new(self, next_parser)
    }

    fn also<Q>(self, next_parser: Q) -> (r: Also<Self, Q>)
        ensures
            r.parser == self,
            r.next_parser == next_parser,
    {
        Also::new(self, next_parser)
    }

    fn many<E: DeepView>(self) -> (r: Many<Self, E>)
        ensures
            r == (Many { parser: Backtracking { parser: self }, phantom: Ghost(arbitrary::<E>()) }),
    {
        Many::new(self)
    }

    fn skip_many<E: DeepView>(self) -> (r: SkipMany<Self, E>)
        ensures
            r == (SkipMany { parser: Backtracking { parser: self }, phantom: Ghost(arbitrary::<E>()) }),
    {
        SkipMany::new(self)
    }

    fn at_least_one(self) -> (r: AtLeastOne<Self>)
        where
            Self: Copy,
        ensures
            r.parse_one == self,
            r.parse_more.parser.parser == self,
    {
        AtLeastOne::new(self)
    }

    fn skip_at_least_one(self) -> (r: Then<Self, SkipMany<Self, Self::ParseError>>)
        where
            Self: Copy,
        ensures
            r.parser == self,
            r.next_parser == (SkipMany {
                parser: Backtracking { parser: self },
                phantom: Ghost(arbitrary::<Self::ParseError>()),
            }),
    {
        let more = SkipMany::<Self, Self::ParseError>::new(self);
        self.followed_by(more)
    }

    fn with_span(self) -> (r: WithSpan<Self>)
        ensures
            r.parser == self,
    {
        WithSpan::new(self)
    }
}

/// A function from items of type `A`, with its meaning stated by `spec_apply`.
pub trait Transform<A: DeepView> {
    type Output: DeepView;

    spec fn spec_apply(&self, a: A::V) -> <Self::Output as DeepView>::V;

    fn apply(&self, a: A) -> (r: Self::Output)
        ensures
            r.deep_view() == self.spec_apply(a.deep_view()),
    ;
}

/// A semantic check on an item: `Some(error)` where the item is refused.
pub trait Validator<A: DeepView, E: DeepView> {
    spec fn spec_validate(&self, a: A::V) -> Option<E::V>;

    fn validate(&self, a: &A) -> (r: Option<E>)
        ensures
            r is Some <==> self.spec_validate(a.deep_view()) is Some,
            r matches Some(e) ==> self.spec_validate(a.deep_view()) == Some(e.deep_view()),
    ;
}

/// A test on one character.
pub trait CharPredicate {
    spec fn spec_test(&self, c: char) -> bool;

    fn test(&self, c: char) -> (r: bool)
        ensures
            r == self.spec_test(c),
    ;
}

} // verus!
