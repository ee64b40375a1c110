//! The grammar of statements, built from the combinator core.
//!
//! The tokens (identifiers, literals, keywords, separators) are combinator values; the
//! productions that nest expressions are functions that call each other (a parser value
//! cannot contain itself), each consuming at least one character before it recurses.
//!
//! `spec_stmt` and the functions it calls state the grammar over parser states. They recurse
//! only into states that the productions reach (`within`, `progressed`); the parse functions
//! prove that those always hold, so the branches for the other case are never taken.
use vstd::prelude::*;
use vstd::string::StringExecFns;

use crate::parsers::adapters::{
    Also, Backtracking, FallingBack, Mapped, Optional, PairedWith, SkipMany, Then, Validate,
};
use crate::parsers::delim::{whitespace, ExpectEnd};
use crate::parsers::internals::{result_view, Parser, ParserState, StateView, Transform, Validator};
use crate::parsers::one_char::{DecimalDigit, LowercaseLetter, OneCharMatches, Whitespace};
use crate::parsers::string::{expect, many_chars_matching, Expect, ManyCharsMatching};
use crate::pipeline::parse_tree::{Apply, Decl, Expr, ExprView, Lambda, Stmt, StmtView};
use crate::text::chars_of;

verus! {

pub const IDENTIFIER_EXPECTED: &'static str = "Expected identifier (sequence of lowercase ascii letters)";

pub const DIGITS_EXPECTED: &'static str = "Expected sequence of digits";

/// Refuses an empty run of characters with `message`.
#[derive(Clone, Copy)]
pub struct NonEmpty {
    pub message: &'static str,
}

impl Validator<String, String> for NonEmpty {
    open spec fn spec_validate(&self, a: Seq<char>) -> Option<Seq<char>> {
        if a.len() == 0 {
            Some(self.message@)
        } else {
            None
        }
    }

    fn validate(&self, a: &String) -> (r: Option<String>) {
        if a.as_str().is_empty() {
            let mut message = String::new();
            message.append(self.message);
            Some(message)
        } else {
            None
        }
    }
}

/// Maps the item of a keyword to a fixed flag.
#[derive(Clone, Copy)]
pub struct Always {
    pub value: bool,
}

impl Transform<()> for Always {
    type Output = bool;

    open spec fn spec_apply(&self, a: ()) -> bool {
        self.value
    }

    fn apply(&self, a: ()) -> (r: bool) {
        self.value
    }
}

/// The value of a decimal digit.
pub open spec fn digit_value(c: char) -> int {
    if '0' <= c && c <= '9' {
        c as int - '0' as int
    } else {
        0
    }
}

/// The number that the digits `s` write in base ten.
pub open spec fn digits_value(s: Seq<char>) -> nat
    decreases s.len(),
{
    if s.len() == 0 {
        0
    } else {
        (10 * digits_value(s.drop_last()) + digit_value(s.last())) as nat
    }
}

pub proof fn lemma_digits_value_grows(s: Seq<char>, i: int)
    requires
        0 <= i <= s.len(),
    ensures
        digits_value(s.take(i)) <= digits_value(s),
    decreases s.len() - i,
{
    if i < s.len() {
        lemma_digits_value_grows(s, i + 1);
        assert(s.take(i + 1).drop_last() =~= s.take(i));
    } else {
        assert(s.take(i) =~= s);
    }
}

/// The integer of a literal: its sign (`None` for none written, `Some(true)` for `+`) and
/// digits. A magnitude beyond `i64::MAX` gives zero.
pub open spec fn literal_value(sign: Option<bool>, digits: Seq<char>) -> i64 {
    let v = digits_value(digits);
    if v > i64::MAX {
        0
    } else if sign == Some(false) {
        (-v) as i64
    } else {
        v as i64
    }
}

/// Turns a sign and digits into the integer they write.
#[derive(Clone, Copy)]
pub struct ToInteger {}

impl Transform<(Option<bool>, String)> for ToInteger {
    type Output = i64;

    open spec fn spec_apply(&self, a: (Option<bool>, Seq<char>)) -> i64 {
        literal_value(a.0, a.1)
    }

    fn apply(&self, a: (Option<bool>, String)) -> (r: i64) {
        let ghost av = a.deep_view();
        assert(av == (a.0.deep_view(), a.1@));
        let sign = a.0;
        let digits = &a.1;
        assert(sign.deep_view() == sign);
        assert(av == (sign, digits@));
        let cs = chars_of(digits.as_str());
        let mut value: i64 = 0;
        let mut i: usize = 0;
        while i < cs.len()
            invariant
                i <= cs@.len(),
                cs@ == digits@,
                av == (sign, digits@),
                av == a.deep_view(),
                value == digits_value(cs@.take(i as int)),
            decreases cs@.len() - i,
        {
            let c = cs[i];
            let d: i64 = if '0' <= c && c <= '9' {
                (c as u32 - '0' as u32) as i64
            } else {
                0
            };
            assert(cs@.take(i + 1).drop_last() =~= cs@.take(i as int));
            assert(digit_value(c) == d);
            assert(digits_value(cs@.take(i + 1)) == 10 * value + d);
            if value > (i64::MAX - d) / 10 {
                assert(10 * value + d > i64::MAX) by (nonlinear_arith)
                    requires
                        value > (i64::MAX - d) / 10,
                        0 <= d <= 9,
                ;
                proof {
                    lemma_digits_value_grows(cs@, i + 1);
                }
                assert(digits_value(cs@) > i64::MAX);
                assert(literal_value(sign, digits@) == 0);
                assert(0i64.deep_view() == 0i64);

                return 0;
            }
            value = value * 10 + d;
            i = i + 1;
        }
        assert(cs@.take(i as int) =~= cs@);
        if sign == Some(false) {
            -value
        } else {
            value
        }
    }
}

/// Wraps a name as a lookup.
#[derive(Clone, Copy)]
pub struct ToLookup {}

impl Transform<String> for ToLookup {
    type Output = Expr;

    open spec fn spec_apply(&self, a: Seq<char>) -> ExprView {
        ExprView::Lookup(a)
    }

    fn apply(&self, a: String) -> (r: Expr) {
        Expr::Lookup(a)
    }
}

/// Wraps an integer as a literal.
#[derive(Clone, Copy)]
pub struct ToLiteral {}

impl Transform<i64> for ToLiteral {
    type Output = Expr;

    open spec fn spec_apply(&self, a: i64) -> ExprView {
        ExprView::LitInteger(a)
    }

    fn apply(&self, a: i64) -> (r: Expr) {
        Expr::LitInteger(a)
    }
}

pub type Ws = OneCharMatches<Whitespace>;

pub type WsMany = SkipMany<Ws, String>;

pub type WsAtLeastOne = Then<Ws, WsMany>;

pub type IdentifierParser = Also<Validate<ManyCharsMatching<LowercaseLetter, String>, NonEmpty>, WsMany>;

pub type SignParser = Optional<FallingBack<Mapped<Expect<'static>, Always>, Mapped<Expect<'static>, Always>>>;

pub type LiteralParser = Mapped<
    Also<PairedWith<SignParser, Validate<ManyCharsMatching<DecimalDigit, String>, NonEmpty>>, WsMany>,
    ToInteger,
>;

/// What follows the backslash of a lambda up to its body: the parameter and the arrow.
pub type LambdaHead = Also<Also<Also<Then<WsMany, IdentifierParser>, WsMany>, Expect<'static>>, WsMany>;

pub type NameOrLiteral = FallingBack<Mapped<IdentifierParser, ToLookup>, Mapped<LiteralParser, ToLiteral>>;

/// `"let" ws+ identifier "=" ws+`; the identifier takes the whitespace that follows it.
pub type DeclHead = Also<
    Then<Then<Expect<'static>, WsAtLeastOne>, IdentifierParser>,
    Then<Expect<'static>, WsAtLeastOne>,
>;

pub type CloseParen = Then<Then<WsMany, Expect<'static>>, WsMany>;

pub open spec fn ws_spec() -> Ws {
    OneCharMatches { predicate: Whitespace {  }, description: "whitespace" }
}

pub open spec fn ws_many_spec() -> WsMany {
    SkipMany { parser: Backtracking { parser: ws_spec() }, phantom: Ghost(arbitrary::<String>()) }
}

pub open spec fn ws_at_least_one_spec() -> WsAtLeastOne {
    Then { parser: ws_spec(), next_parser: ws_many_spec() }
}

pub open spec fn expect_spec(expected: &'static str) -> Expect<'static> {
    Expect { expected }
}

pub open spec fn identifier_spec() -> IdentifierParser {
    Also {
        parser: Validate {
            parser: ManyCharsMatching {
                predicate: LowercaseLetter {  },
                phantom: Ghost(arbitrary::<String>()),
            },
            validate: NonEmpty { message: IDENTIFIER_EXPECTED },
        },
        next_parser: ws_many_spec(),
    }
}

pub open spec fn literal_integer_spec() -> LiteralParser {
    Mapped {
        parser: Also {
            parser: PairedWith {
                first_parser: Optional {
                    parser: FallingBack {
                        parser: Mapped { parser: expect_spec("-"), transform: Always { value: false } },
                        fallback_parser: Mapped {
                            parser: expect_spec("+"),
                            transform: Always { value: true },
                        },
                    },
                },
                second_parser: Validate {
                    parser: ManyCharsMatching {
                        predicate: DecimalDigit {  },
                        phantom: Ghost(arbitrary::<String>()),
                    },
                    validate: NonEmpty { message: DIGITS_EXPECTED },
                },
            },
            next_parser: ws_many_spec(),
        },
        transform: ToInteger {  },
    }
}

pub open spec fn lambda_head_spec() -> LambdaHead {
    Also {
        parser: Also {
            parser: Also {
                parser: Then { parser: ws_many_spec(), next_parser: identifier_spec() },
                next_parser: ws_many_spec(),
            },
            next_parser: expect_spec("->"),
        },
        next_parser: ws_many_spec(),
    }
}

pub open spec fn name_or_literal_spec() -> NameOrLiteral {
    FallingBack {
        parser: Mapped { parser: identifier_spec(), transform: ToLookup {  } },
        fallback_parser: Mapped { parser: literal_integer_spec(), transform: ToLiteral {  } },
    }
}

pub open spec fn decl_head_spec() -> DeclHead {
    Also {
        parser: Then {
            parser: Then { parser: expect_spec("let"), next_parser: ws_at_least_one_spec() },
            next_parser: identifier_spec(),
        },
        next_parser: Then { parser: expect_spec("="), next_parser: ws_at_least_one_spec() },
    }
}

pub open spec fn close_paren_spec() -> CloseParen {
    Then {
        parser: Then { parser: ws_many_spec(), next_parser: expect_spec(")") },
        next_parser: ws_many_spec(),
    }
}

pub fn ws_many() -> (r: WsMany)
    ensures
        r == ws_many_spec(),
{
    SkipMany::new(whitespace())
}

pub fn ws_at_least_one() -> (r: WsAtLeastOne)
    ensures
        r == ws_at_least_one_spec(),
{
    whitespace().skip_at_least_one()
}

/// One or more lowercase ASCII letters, then any whitespace.
pub fn identifier() -> (r: IdentifierParser)
    ensures
        r == identifier_spec(),
{
    many_chars_matching::<LowercaseLetter, String>(LowercaseLetter {  }).validate(
        NonEmpty { message: IDENTIFIER_EXPECTED },
    ).also(ws_many())
}

/// An optional sign, one or more decimal digits, then any whitespace.
pub fn literal_integer() -> (r: LiteralParser)
    ensures
        r == literal_integer_spec(),
{
    let negative = expect("-").map(Always { value: false });
    let positive = expect("+").map(Always { value: true });
    let digits = many_chars_matching::<DecimalDigit, String>(DecimalDigit {  }).validate(
        NonEmpty { message: DIGITS_EXPECTED },
    );
    negative.falling_back(positive).optional().paired_with(digits).also(ws_many()).map(
        ToInteger {  },
    )
}

pub fn lambda_head() -> (r: LambdaHead)
    ensures
        r == lambda_head_spec(),
{
    ws_many().followed_by(identifier()).also(ws_many()).also(expect("->")).also(ws_many())
}

pub fn name_or_literal() -> (r: NameOrLiteral)
    ensures
        r == name_or_literal_spec(),
{
    identifier().map(ToLookup {  }).falling_back(literal_integer().map(ToLiteral {  }))
}

pub fn decl_head() -> (r: DeclHead)
    ensures
        r == decl_head_spec(),
{
    let equals = expect("=").followed_by(ws_at_least_one());
    expect("let").followed_by(ws_at_least_one()).followed_by(identifier()).also(equals)
}

pub fn close_paren() -> (r: CloseParen)
    ensures
        r == close_paren_spec(),
{
    ws_many().followed_by(expect(")")).followed_by(ws_many())
}

/// Whether `t` is `s` with zero or more characters consumed.
pub open spec fn within(s: StateView, t: StateView) -> bool {
    t.text == s.text && s.offset <= t.offset <= s.text.len()
}

/// Whether `t` is `s` with one or more characters consumed.
pub open spec fn progressed(s: StateView, t: StateView) -> bool {
    t.text == s.text && s.offset < t.offset <= s.text.len()
}

/// How much input is left.
pub open spec fn remaining(s: StateView) -> int {
    s.text.len() - s.offset
}

/// `head` applied to each of `args` in turn: `Apply(...Apply(head, a1)..., an)`.
pub open spec fn fold_apply(head: ExprView, args: Seq<ExprView>) -> ExprView
    decreases args.len(),
{
    if args.len() == 0 {
        head
    } else {
        fold_apply(ExprView::Apply(Box::new(head), Box::new(args[0])), args.drop_first())
    }
}

/// `xs[0]` applied to the rest one at a time, nested to the left:
/// `Apply(Apply(...Apply(xs[0], xs[1])..., xs[n-2]), xs[n-1])`.
pub open spec fn left_nested(xs: Seq<ExprView>) -> ExprView
    decreases xs.len(),
{
    if xs.len() <= 1 {
        xs[0]
    } else {
        ExprView::Apply(Box::new(left_nested(xs.drop_last())), Box::new(xs.last()))
    }
}

pub proof fn lemma_fold_apply_push(head: ExprView, args: Seq<ExprView>, x: ExprView)
    ensures
        fold_apply(head, args.push(x)) == ExprView::Apply(
            Box::new(fold_apply(head, args)),
            Box::new(x),
        ),
    decreases args.len(),
{
    if args.len() == 0 {
        assert(args.push(x).drop_first() =~= Seq::<ExprView>::empty());
        assert(args.push(x)[0] == x);
        assert(fold_apply(head, args) == head);
        let applied = ExprView::Apply(Box::new(head), Box::new(x));
        assert(fold_apply(applied, Seq::<ExprView>::empty()) == applied);
        assert(fold_apply(head, args.push(x)) == fold_apply(applied, args.push(x).drop_first()));
    } else {
        assert(args.push(x)[0] == args[0]);
        let next = ExprView::Apply(Box::new(head), Box::new(args[0]));
        assert(args.push(x).drop_first() =~= args.drop_first().push(x));
        lemma_fold_apply_push(next, args.drop_first(), x);
        assert(fold_apply(head, args.push(x)) == fold_apply(next, args.push(x).drop_first()));
        assert(fold_apply(head, args) == fold_apply(next, args.drop_first()));
    }
}

/// Folding `args` onto `head` nests to the left: the items of the sequence `head, args...`
/// are applied one by one, the first item outermost-left.
pub proof fn lemma_fold_apply_left_nested(head: ExprView, args: Seq<ExprView>)
    ensures
        fold_apply(head, args) == left_nested(seq![head] + args),
    decreases args.len(),
{
    if args.len() == 0 {
        assert(seq![head] + args =~= seq![head]);
    } else {
        let prefix = args.drop_last();
        lemma_fold_apply_left_nested(head, prefix);
        lemma_fold_apply_push(head, prefix, args.last());
        assert(prefix.push(args.last()) =~= args);
        assert((seq![head] + args).drop_last() =~= seq![head] + prefix);
    }
}

/// The atoms that `application` reads from `s`, with a trailing lambda last where there is
/// one; empty where it fails.
pub open spec fn application_parts(s: StateView) -> Seq<ExprView> {
    let (r, s1) = spec_atom(s);
    match r {
        Err(_) => Seq::empty(),
        Ok(head) => {
            let (args, s2) = spec_atoms(s1);
            match spec_lambda(s2).0 {
                Ok(l) => seq![head] + args.push(l),
                Err(_) => seq![head] + args,
            }
        },
    }
}

/// An application of atoms `a1 a2 ... an` is `Apply(...Apply(a1, a2)..., an)`.
pub proof fn lemma_application_left_associates(s: StateView)
    requires
        spec_application(s).0 is Ok,
    ensures
        application_parts(s).len() >= 1,
        spec_application(s).0 == Ok::<ExprView, Seq<char>>(left_nested(application_parts(s))),
{
    let (r, s1) = spec_atom(s);
    let head = r->Ok_0;
    let (args, s2) = spec_atoms(s1);
    match spec_lambda(s2).0 {
        Ok(l) => {
            lemma_fold_apply_left_nested(head, args.push(l));
            assert(seq![head] + args.push(l) =~= application_parts(s));
        },
        Err(_) => {
            lemma_fold_apply_left_nested(head, args);
        },
    }
}

/// `expr := (lambda | application) ws*`, the lambda tried first.
pub open spec fn spec_expr(s: StateView) -> (Result<ExprView, Seq<char>>, StateView)
    decreases remaining(s), 5nat,
{
    let (r, s1) = spec_lambda(s);
    let (r2, s2) = match r {
        Ok(e) => (Ok(e), s1),
        Err(err) => if s1.offset == s.offset && within(s, s1) {
            spec_application(s1)
        } else {
            (Err(err), s1)
        },
    };
    match r2 {
        Ok(e) => (Ok(e), ws_many_spec().spec_parse(s2).1),
        Err(err) => (Err(err), s2),
    }
}

/// `lambda := "\" ws* identifier ws* "->" ws* expr`.
pub open spec fn spec_lambda(s: StateView) -> (Result<ExprView, Seq<char>>, StateView)
    decreases remaining(s), 2nat,
{
    let (r0, s0) = expect_spec("\\").spec_parse(s);
    match r0 {
        Err(err) => (Err(err), s0),
        Ok(_) => {
            let (r1, s1) = lambda_head_spec().spec_parse(s0);
            match r1 {
                Err(err) => (Err(err), s1),
                Ok(param) => if progressed(s, s1) {
                    let (rb, s2) = spec_expr(s1);
                    match rb {
                        Ok(body) => (Ok(ExprView::Lambda(param, Box::new(body))), s2),
                        Err(err) => (Err(err), s2),
                    }
                } else {
                    (Err(Seq::empty()), s1)
                },
            }
        },
    }
}

/// `parens := "(" ws* expr ws* ")" ws*`.
pub open spec fn spec_parens(s: StateView) -> (Result<ExprView, Seq<char>>, StateView)
    decreases remaining(s), 0nat,
{
    let (r0, s0) = expect_spec("(").spec_parse(s);
    match r0 {
        Err(err) => (Err(err), s0),
        Ok(_) => {
            let s1 = ws_many_spec().spec_parse(s0).1;
            if progressed(s, s1) {
                let (re, s2) = spec_expr(s1);
                match re {
                    Err(err) => (Err(err), s2),
                    Ok(e) => {
                        let (rc, s3) = close_paren_spec().spec_parse(s2);
                        match rc {
                            Ok(_) => (Ok(e), s3),
                            Err(err) => (Err(err), s3),
                        }
                    },
                }
            } else {
                (Err(Seq::empty()), s1)
            }
        },
    }
}

/// `atom := parens | identifier | literalInteger`, each tried where the one before failed
/// without consuming.
pub open spec fn spec_atom(s: StateView) -> (Result<ExprView, Seq<char>>, StateView)
    decreases remaining(s), 1nat,
{
    let (r, s1) = spec_parens(s);
    match r {
        Ok(e) => (Ok(e), s1),
        Err(err) => if s1.offset == s.offset {
            name_or_literal_spec().spec_parse(s1)
        } else {
            (Err(err), s1)
        },
    }
}

/// The atoms that follow, each attempt backtracked out of where it fails.
pub open spec fn spec_atoms(s: StateView) -> (Seq<ExprView>, StateView)
    decreases remaining(s), 3nat,
{
    let (r, s1) = spec_atom(s);
    match r {
        Err(_) => (Seq::empty(), s),
        Ok(e) => if progressed(s, s1) {
            let (rest, s2) = spec_atoms(s1);
            (seq![e] + rest, s2)
        } else {
            (seq![e], s1)
        },
    }
}

/// `application := atom+ lambda?`, folded to the left.
pub open spec fn spec_application(s: StateView) -> (Result<ExprView, Seq<char>>, StateView)
    decreases remaining(s), 4nat,
{
    let (r, s1) = spec_atom(s);
    match r {
        Err(err) => (Err(err), s1),
        Ok(head) => if within(s, s1) {
            let (args, s2) = spec_atoms(s1);
            if within(s, s2) {
                let (rl, s3) = spec_lambda(s2);
                match rl {
                    Ok(l) => (Ok(fold_apply(head, args.push(l))), s3),
                    Err(err) => if s3.offset == s2.offset {
                        (Ok(fold_apply(head, args)), s3)
                    } else {
                        (Err(err), s3)
                    },
                }
            } else {
                (Err(Seq::empty()), s2)
            }
        } else {
            (Err(Seq::empty()), s1)
        },
    }
}

/// `decl := "let" ws+ identifier "=" ws+ expr ws*`, the identifier with its trailing
/// whitespace.
pub open spec fn spec_decl(s: StateView) -> (Result<StmtView, Seq<char>>, StateView) {
    let (r, s1) = decl_head_spec().spec_parse(s);
    match r {
        Err(err) => (Err(err), s1),
        Ok(name) => {
            let (re, s2) = spec_expr(s1);
            match re {
                Err(err) => (Err(err), s2),
                Ok(e) => (Ok(StmtView::Decl(name, e)), ws_many_spec().spec_parse(s2).1),
            }
        },
    }
}

/// `stmt := ws* (decl | expr) end-of-input`.
pub open spec fn spec_stmt(s: StateView) -> Result<StmtView, Seq<char>> {
    let s0 = ws_many_spec().spec_parse(s).1;
    let (r, s1) = spec_decl(s0);
    let (r2, s2) = match r {
        Ok(d) => (Ok(d), s1),
        Err(err) => if s1.offset == s0.offset {
            let (re, t) = spec_expr(s1);
            match re {
                Ok(e) => (Ok(StmtView::Expr(e)), t),
                Err(err) => (Err(err), t),
            }
        } else {
            (Err(err), s1)
        },
    };
    match r2 {
        Err(err) => Err(err),
        Ok(st) => match (ExpectEnd {  }).spec_parse(s2).0 {
            Ok(_) => Ok(st),
            Err(err) => Err(err),
        },
    }
}

/// The statement that `text` holds.
pub open spec fn statement_of(text: Seq<char>) -> Result<StmtView, Seq<char>> {
    spec_stmt(StateView { text, offset: 0 })
}

/// `head` applied to each of `args` in turn.
pub fn fold_apply_exec(head: Expr, args: Vec<Expr>) -> (r: Expr)
    ensures
        r.deep_view() == fold_apply(head.deep_view(), args.deep_view()),
{
    let ghost target = fold_apply(head.deep_view(), args.deep_view());
    let mut acc = head;
    let mut rest = args;
    while rest.len() > 0
        invariant
            fold_apply(acc.deep_view(), rest.deep_view()) == target,
        decreases rest@.len(),
    {
        let ghost before = rest.deep_view();
        let a = rest.remove(0);
        assert(rest.deep_view() =~= before.drop_first());
        acc = Expr::Apply(Box::new(Apply { function: acc, argument: a }));
    }
    assert(rest.deep_view() =~= Seq::<ExprView>::empty());
    acc
}

pub fn parse_expr(state: &mut ParserState) -> (r: Result<Expr, String>)
    requires
        old(state).wf(),
    ensures
        final(state).wf(),
        old(state)@.reaches(final(state)@),
        (result_view(r), final(state)@) == spec_expr(old(state)@),
    decreases remaining(old(state)@), 5nat,
{
    let start = state.consumed_so_far();
    let r = match parse_lambda(state) {
        Ok(e) => Ok(e),
        Err(err) => {
            proof {
                state.lemma_wf();
            }
            if state.consumed_so_far() == start {
                parse_application(state)
            } else {
                Err(err)
            }
        },
    };
    match r {
        Ok(e) => {
            let _ = ws_many().parse(state);
            Ok(e)
        },
        Err(err) => Err(err),
    }
}

pub fn parse_lambda(state: &mut ParserState) -> (r: Result<Expr, String>)
    requires
        old(state).wf(),
    ensures
        final(state).wf(),
        old(state)@.reaches(final(state)@),
        (result_view(r), final(state)@) == spec_lambda(old(state)@),
    decreases remaining(old(state)@), 2nat,
{
    proof {
        reveal_strlit("\\");
    }
    match expect("\\").parse(state) {
        Err(err) => return Err(err),
        Ok(_) => {},
    }
    let param = match lambda_head().parse(state) {
        Err(err) => return Err(err),
        Ok(param) => param,
    };
    proof {
        state.lemma_wf();
    }
    match parse_expr(state) {
        Ok(body) => Ok(Expr::Lambda(Box::new(Lambda { param, body }))),
        Err(err) => Err(err),
    }
}

pub fn parse_parens(state: &mut ParserState) -> (r: Result<Expr, String>)
    requires
        old(state).wf(),
    ensures
        final(state).wf(),
        old(state)@.reaches(final(state)@),
        (result_view(r), final(state)@) == spec_parens(old(state)@),
    decreases remaining(old(state)@), 0nat,
{
    proof {
        reveal_strlit("(");
    }
    match expect("(").parse(state) {
        Err(err) => return Err(err),
        Ok(_) => {},
    }
    let _ = ws_many().parse(state);
    proof {
        state.lemma_wf();
    }
    let e = match parse_expr(state) {
        Err(err) => return Err(err),
        Ok(e) => e,
    };
    match close_paren().parse(state) {
        Ok(_) => Ok(e),
        Err(err) => Err(err),
    }
}

pub fn parse_atom(state: &mut ParserState) -> (r: Result<Expr, String>)
    requires
        old(state).wf(),
    ensures
        final(state).wf(),
        old(state)@.reaches(final(state)@),
        (result_view(r), final(state)@) == spec_atom(old(state)@),
    decreases remaining(old(state)@), 1nat,
{
    let start = state.consumed_so_far();
    match parse_parens(state) {
        Ok(e) => Ok(e),
        Err(err) => {
            if state.consumed_so_far() == start {
                name_or_literal().parse(state)
            } else {
                Err(err)
            }
        },
    }
}

pub fn parse_atoms(state: &mut ParserState) -> (r: Vec<Expr>)
    requires
        old(state).wf(),
    ensures
        final(state).wf(),
        old(state)@.reaches(final(state)@),
        (r.deep_view(), final(state)@) == spec_atoms(old(state)@),
    decreases remaining(old(state)@), 3nat,
{
    let ghost start = state@;
    let mut args: Vec<Expr> = Vec::new();
    assert(args.deep_view() =~= Seq::<ExprView>::empty());
    loop
        invariant_except_break
            args.deep_view() + spec_atoms(state@).0 == spec_atoms(start).0,
            spec_atoms(state@).1 == spec_atoms(start).1,
        invariant
            state.wf(),
            start.reaches(state@),
            start == old(state)@,
        ensures
            state.wf(),
            start.reaches(state@),
            args.deep_view() == spec_atoms(start).0,
            state@ == spec_atoms(start).1,
        decreases remaining(state@),
    {
        let ghost before_args = args.deep_view();
        let ghost before = state@;
        let backup = *state;
        let previously_consumed = state.consumed_so_far();
        proof {
            state.lemma_wf();
        }
        match parse_atom(state) {
            Err(_) => {
                *state = backup;
                assert(args.deep_view() =~= spec_atoms(start).0);
                break;
            },
            Ok(e) => {
                let ghost ev = e.deep_view();
                args.push(e);
                assert(args.deep_view() =~= before_args.push(ev));
                proof {
                    state.lemma_wf();
                }
                if state.consumed_so_far() == previously_consumed {
                    assert(args.deep_view() =~= spec_atoms(start).0);
                    break;
                }
                assert(spec_atoms(before).0 == seq![ev] + spec_atoms(state@).0);
                assert(before_args + spec_atoms(before).0 =~= args.deep_view() + spec_atoms(
                    state@,
                ).0);
            },
        }
    }
    args
}

pub fn parse_application(state: &mut ParserState) -> (r: Result<Expr, String>)
    requires
        old(state).wf(),
    ensures
        final(state).wf(),
        old(state)@.reaches(final(state)@),
        (result_view(r), final(state)@) == spec_application(old(state)@),
    decreases remaining(old(state)@), 4nat,
{
    let head = match parse_atom(state) {
        Err(err) => return Err(err),
        Ok(e) => e,
    };
    proof {
        state.lemma_wf();
    }
    let mut args = parse_atoms(state);
    proof {
        state.lemma_wf();
    }
    let ghost s2 = state@;
    let ghost args_view = args.deep_view();
    let before = state.consumed_so_far();
    match parse_lambda(state) {
        Ok(l) => {
            let ghost lv = l.deep_view();
            args.push(l);
            assert(args.deep_view() =~= args_view.push(lv));
        },
        Err(err) => {
            if state.consumed_so_far() != before {
                return Err(err);
            }
        },
    }
    Ok(fold_apply_exec(head, args))
}

pub fn parse_decl(state: &mut ParserState) -> (r: Result<Decl, String>)
    requires
        old(state).wf(),
    ensures
        final(state).wf(),
        old(state)@.reaches(final(state)@),
        (result_view(r), final(state)@) == spec_decl(old(state)@),
{
    let identifier = match decl_head().parse(state) {
        Err(err) => return Err(err),
        Ok(name) => name,
    };
    match parse_expr(state) {
        Err(err) => Err(err),
        Ok(expr) => {
            let _ = ws_many().parse(state);
            Ok(Decl { identifier, expr })
        },
    }
}

/// Parses one statement: a declaration, or else an expression, with nothing after it.
pub fn parse_stmt(text: &str) -> (r: Result<Stmt, String>)
    ensures
        result_view(r) == statement_of(text@),
{
    let chars = chars_of(text);
    let mut state = ParserState::new(chars.as_slice());
    let _ = ws_many().parse(&mut state);
    let start = state.consumed_so_far();
    let r = match parse_decl(&mut state) {
        Ok(d) => Ok(Stmt::Decl(d)),
        Err(err) => {
            if state.consumed_so_far() == start {
                match parse_expr(&mut state) {
                    Ok(e) => Ok(Stmt::Expr(e)),
                    Err(err) => Err(err),
                }
            } else {
                Err(err)
            }
        },
    };
    match r {
        Err(err) => Err(err),
        Ok(st) => match (ExpectEnd {  }).parse(&mut state) {
            Ok(_) => Ok(st),
            Err(err) => Err(err),
        },
    }
}

} // verus!
