use lambda_calculus::parsers::adapters::{AtLeastOne, FallingBack, Many, SkipMany};
use lambda_calculus::parsers::delim::{whitespace, ExpectEnd};
use lambda_calculus::parsers::one_char::{AnyChar, DecimalDigit, LowercaseLetter};
use lambda_calculus::parsers::pure::{cloning, lazy};
use lambda_calculus::parsers::string::{check, check_owned, expect, expect_owned, many_chars_matching};
use lambda_calculus::parsers::{Parser, ParserPos, ParserState};
use lambda_calculus::pipeline::parser::{identifier, literal_integer, Always, NonEmpty};
use lambda_calculus::text::chars_of;

#[test]
fn falling_back_does_not_retry_after_consuming() {
    let text = chars_of("let");
    let primary = expect("l").followed_by(expect("ist"));
    let parser = FallingBack::new(primary, expect("let"));
    let mut state = ParserState::new(&text);
    let r = parser.parse(&mut state);
    assert_eq!(r, Err("Expected\n  ist\nbut found\n  et".to_string()));
    assert_eq!(state.consumed_so_far(), 1);
}

#[test]
fn falling_back_tries_alternative_without_consumption() {
    let text = chars_of("let");
    let parser = expect("list").falling_back(expect("let"));
    let mut state = ParserState::new(&text);
    assert_eq!(parser.parse(&mut state), Ok(()));
    assert_eq!(state.consumed_so_far(), 3);
}

#[test]
fn falling_back_le_t_versus_list() {
    let text = chars_of("let");
    let parser = expect("le").followed_by(expect("t")).falling_back(expect("list"));
    assert_eq!(parser.parse_chars(&text), Ok(()));
    let text = chars_of("lex");
    let mut state = ParserState::new(&text);
    assert_eq!(
        parser.parse(&mut state),
        Err("Expected\n  t\nbut found\n  x".to_string())
    );
    assert_eq!(state.consumed_so_far(), 2);
}

#[test]
fn optional_only_where_nothing_was_consumed() {
    let text = chars_of("abc");
    let mut state = ParserState::new(&text);
    assert_eq!(expect("x").optional().parse(&mut state), Ok(None));
    assert_eq!(state.consumed_so_far(), 0);
    let partial = expect("a").followed_by(expect("x")).optional();
    let mut state = ParserState::new(&text);
    assert!(partial.parse(&mut state).is_err());
    assert_eq!(state.consumed_so_far(), 1);
    let mut state = ParserState::new(&text);
    assert_eq!(expect("ab").optional().parse(&mut state), Ok(Some(())));
}

#[test]
fn backtracking_restores_state() {
    let text = chars_of("abc");
    let mut state = ParserState::new(&text);
    let parser = expect("a").followed_by(expect("x")).backtracking();
    assert!(parser.parse(&mut state).is_err());
    assert_eq!(state.consumed_so_far(), 0);
}

#[test]
fn looking_ahead_consumes_nothing() {
    let text = chars_of("abc");
    let mut state = ParserState::new(&text);
    assert_eq!(AnyChar {}.looking_ahead().parse(&mut state), Ok('a'));
    assert_eq!(state.consumed_so_far(), 0);
}

#[test]
fn many_collects_in_order() {
    let text = chars_of("abc1");
    let mut state = ParserState::new(&text);
    let letters = Many::<_, String>::new(lambda_calculus::parsers::one_char::matches(
        LowercaseLetter {},
        "letter",
    ));
    assert_eq!(letters.parse(&mut state), Ok(vec!['a', 'b', 'c']));
    assert_eq!(state.consumed_so_far(), 3);
    let mut state = ParserState::new(&text);
    let none = Many::<_, String>::new(expect("z"));
    assert_eq!(none.parse(&mut state), Ok(vec![]));
    assert_eq!(state.consumed_so_far(), 0);
}

#[test]
fn skip_many_and_at_least_one() {
    let text = chars_of("   x");
    let mut state = ParserState::new(&text);
    assert_eq!(SkipMany::<_, String>::new(whitespace()).parse(&mut state), Ok(()));
    assert_eq!(state.consumed_so_far(), 3);
    let mut state = ParserState::new(&text);
    let spaces = AtLeastOne::new(whitespace());
    assert_eq!(spaces.parse(&mut state), Ok((' ', vec![' ', ' '])));
    let mut state = ParserState::new(&text[3..]);
    assert_eq!(
        whitespace().at_least_one().parse(&mut state),
        Err("Unexpected char x. Expected whitespace".to_string())
    );
}

#[test]
fn paired_with_and_also() {
    let text = chars_of("ab");
    let parser = AnyChar {}.paired_with(AnyChar {});
    assert_eq!(parser.parse_chars(&text), Ok(('a', 'b')));
    let parser = AnyChar {}.also(AnyChar {});
    assert_eq!(parser.parse_chars(&text), Ok('a'));
    let parser = AnyChar {}.followed_by(AnyChar {});
    assert_eq!(parser.parse_chars(&text), Ok('b'));
}

#[test]
fn with_span_reports_positions() {
    let text = chars_of("a\nbc d");
    let mut state = ParserState::new(&text);
    let word = expect("a\nbc").with_span();
    let r = word.parse(&mut state);
    assert_eq!(r, Ok(((), (ParserPos::new(0, 0), ParserPos::new(1, 2)))));
    assert_eq!(state.current_position(), &ParserPos::new(1, 2));
}

#[test]
fn advance_tracks_lines_and_columns() {
    let text = chars_of("ab\ncd\nef");
    let mut state = ParserState::new(&text);
    state.advance(4);
    assert_eq!(state.current_position(), &ParserPos::new(1, 1));
    assert_eq!(state.leftovers(), &['d', '\n', 'e', 'f'][..]);
    state.advance(4);
    assert_eq!(state.current_position(), &ParserPos::new(2, 2));
    assert_eq!(state.consumed_so_far(), 8);
}

#[test]
fn one_char_errors() {
    let empty: Vec<char> = vec![];
    assert_eq!(
        whitespace().parse_chars(&empty),
        Err("Unexpected end of input. Expected whitespace".to_string())
    );
    assert_eq!(
        AnyChar {}.parse_chars(&empty),
        Err("Unexpected end of input.".to_string())
    );
}

#[test]
fn check_and_expect() {
    let text = chars_of("hello world");
    let mut state = ParserState::new(&text);
    assert_eq!(check::<String>("hello").parse(&mut state), Ok(true));
    assert_eq!(check_owned::<String>("world".to_string()).parse(&mut state), Ok(false));
    assert_eq!(state.consumed_so_far(), 0);
    assert_eq!(expect_owned("hello".to_string()).parse(&mut state), Ok(()));
    assert_eq!(state.consumed_so_far(), 5);
    assert_eq!(
        expect("!!").parse(&mut state),
        Err("Expected\n  !!\nbut found\n   w".to_string())
    );
    let short = chars_of("ab");
    assert_eq!(
        expect("abc").parse_chars(&short),
        Err("Expected\n  abc\nbut found\n  ab".to_string())
    );
}

#[test]
fn many_chars_matching_takes_longest_run() {
    let text = chars_of("123abc");
    let mut state = ParserState::new(&text);
    let digits = many_chars_matching::<DecimalDigit, String>(DecimalDigit {});
    assert_eq!(digits.parse(&mut state), Ok("123".to_string()));
    assert_eq!(digits.parse(&mut state), Ok(String::new()));
    assert_eq!(state.consumed_so_far(), 3);
}

#[test]
fn expect_end_shows_ten_characters() {
    let empty: Vec<char> = vec![];
    assert_eq!(ExpectEnd {}.parse_chars(&empty), Ok(()));
    let text = chars_of("0123456789abc");
    assert_eq!(
        ExpectEnd {}.parse_chars(&text),
        Err("Expected end of input, but found 0123456789".to_string())
    );
}

#[test]
fn validate_and_map() {
    let text = chars_of("+");
    let sign = expect("+").map(Always { value: true });
    assert_eq!(sign.parse_chars(&text), Ok(true));
    let nonempty = many_chars_matching::<DecimalDigit, String>(DecimalDigit {})
        .validate(NonEmpty { message: "need digits" });
    let mut state = ParserState::new(&text);
    assert_eq!(nonempty.parse(&mut state), Err("need digits".to_string()));
}

#[test]
fn cloning_yields_value() {
    let text = chars_of("x");
    let mut state = ParserState::new(&text);
    assert_eq!(cloning::<i64, String>(7).parse(&mut state), Ok(7));
    assert_eq!(state.consumed_so_far(), 0);
}

#[test]
fn identifier_and_literal_tokens() {
    let text = chars_of("abc  ");
    assert_eq!(identifier().parse_chars(&text), Ok("abc".to_string()));
    let text = chars_of("ABC");
    assert_eq!(
        identifier().parse_chars(&text),
        Err("Expected identifier (sequence of lowercase ascii letters)".to_string())
    );
    assert_eq!(literal_integer().parse_chars(&chars_of("42")), Ok(42));
    assert_eq!(literal_integer().parse_chars(&chars_of("+7 ")), Ok(7));
    assert_eq!(literal_integer().parse_chars(&chars_of("-13")), Ok(-13));
    assert_eq!(
        literal_integer().parse_chars(&chars_of("9223372036854775807")),
        Ok(i64::MAX)
    );
    assert_eq!(
        literal_integer().parse_chars(&chars_of("9223372036854775808")),
        Ok(0)
    );
    assert_eq!(
        literal_integer().parse_chars(&chars_of("-x")),
        Err("Expected sequence of digits".to_string())
    );
}

#[test]
fn lazy_hands_out_its_result() {
    let text = chars_of("x");
    let mut state = ParserState::new(&text);
    let ready: Result<i64, char> = Ok(5);
    assert_eq!(lazy(ready).parse(&mut state), Ok(5));
    let failing: Result<i64, char> = Err('e');
    assert_eq!(lazy(failing).parse(&mut state), Err('e'));
    assert_eq!(state.consumed_so_far(), 0);
}
