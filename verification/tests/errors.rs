use cecho::colors::parse_color;
use cecho::error::{EchoError, ParseError, RenderError};
use cecho::model::{Colors, Part};
use cecho::parser::{parse_format, parse_spec};

#[test]
fn an_unknown_escape_names_its_character() {
    let err = parse_format(&"a\\xb".to_string()).err().unwrap();
    assert_eq!(err, ParseError::InvalidEscape('x'));
    assert_eq!(err.message(), "Invalid escape sequence: \\x");
}

#[test]
fn an_index_that_is_no_number_is_rejected() {
    let err = parse_spec("%abc").err().unwrap();
    assert_eq!(err, ParseError::InvalidIndex("abc".to_string()));
    assert_eq!(err.message(), "Don't know how to interpret the text specification 'abc'");
    assert_eq!(parse_spec("%-1"), Err(ParseError::InvalidIndex("-1".to_string())));
    assert_eq!(parse_spec("%+"), Err(ParseError::InvalidIndex("+".to_string())));
    assert_eq!(parse_spec("%1_0"), Err(ParseError::InvalidIndex("1_0".to_string())));
    assert_eq!(
        parse_spec("%99999999999999999999999999"),
        Err(ParseError::InvalidIndex("99999999999999999999999999".to_string()))
    );
}

#[test]
fn an_index_may_have_a_plus_sign_and_leading_zeros() {
    assert_eq!(parse_spec("%+1"), Ok(Part::indexed(1)));
    assert_eq!(parse_spec("%007"), Ok(Part::indexed(7)));
    assert_eq!(parse_spec("%0"), Ok(Part::indexed(0)));
    assert_eq!(parse_spec("index=\u{a0}12"), Ok(Part::indexed(12)));
    let max = format!("%{}", usize::MAX);
    assert_eq!(parse_spec(&max), Ok(Part::indexed(usize::MAX)));
}

#[test]
fn an_unknown_color_names_its_side() {
    let err = parse_spec("#nope").err().unwrap();
    assert_eq!(err, ParseError::UnknownColor("nope".to_string()));
    assert_eq!(err.message(), "Don't know how to interpret the color 'nope'");
    assert_eq!(parse_spec("#red/nope"), Err(ParseError::UnknownColor("nope".to_string())));
    assert_eq!(parse_spec("#nope/nada"), Err(ParseError::UnknownColor("nope".to_string())));
    assert_eq!(parse_color("k//w"), Err(ParseError::UnknownColor("/w".to_string())));
    assert_eq!(parse_color("Red"), Err(ParseError::UnknownColor("Red".to_string())));
    assert_eq!(parse_color("16"), Err(ParseError::UnknownColor("16".to_string())));
    assert_eq!(parse_color("12345"), Err(ParseError::UnknownColor("12345".to_string())));
    assert_eq!(parse_color("1234567"), Err(ParseError::UnknownColor("1234567".to_string())));
    assert_eq!(parse_color("12345g"), Err(ParseError::UnknownColor("12345g".to_string())));
}

#[test]
fn a_component_above_255_is_no_color() {
    assert_eq!(
        parse_color("rgb(256,0,0)"),
        Err(ParseError::UnknownColor("rgb(256,0,0)".to_string()))
    );
    assert_eq!(
        parse_color("rgb(0,999,0)"),
        Err(ParseError::UnknownColor("rgb(0,999,0)".to_string()))
    );
    assert_eq!(
        parse_color("rgb(0,0,1000)"),
        Err(ParseError::UnknownColor("rgb(0,0,1000)".to_string()))
    );
    assert_eq!(parse_color("rgb(1, 2,3)"), Err(ParseError::UnknownColor("rgb(1, 2,3)".to_string())));
}

#[test]
fn a_color_clause_that_cannot_be_split_names_no_color() {
    assert_eq!(parse_color("k/"), Ok(Colors::none()));
    assert_eq!(parse_color("/"), Ok(Colors::none()));
    assert_eq!(parse_color(""), Ok(Colors::none()));
    assert_eq!(parse_color(" \u{a0}\n"), Ok(Colors::none()));
}

#[test]
fn an_unknown_style_names_its_token() {
    let err = parse_spec("!nope").err().unwrap();
    assert_eq!(err, ParseError::UnknownStyle("nope".to_string()));
    assert_eq!(err.message(), "Don't know how to interpret the style 'nope'");
    assert_eq!(parse_spec("!x"), Err(ParseError::UnknownStyle("x".to_string())));
    assert_eq!(parse_spec("!bold,"), Err(ParseError::UnknownStyle("".to_string())));
    assert_eq!(parse_spec("!,bold"), Err(ParseError::UnknownStyle("".to_string())));
    assert_eq!(parse_spec("!SX,nope"), Err(ParseError::UnknownStyle("SX".to_string())));
    assert_eq!(parse_spec("!bold!s\u{a0}h"), Err(ParseError::UnknownStyle("s\u{a0}h".to_string())));
}

#[test]
fn an_unknown_keyword_is_rejected() {
    let err = parse_spec("foo=bar").err().unwrap();
    assert_eq!(err, ParseError::UnknownKeyword("foo".to_string()));
    assert_eq!(err.message(), "Don't know how to interpret the keyword 'foo' as a mode");
    assert_eq!(parse_spec("#red=x"), Err(ParseError::UnknownKeyword("red".to_string())));
    assert_eq!(parse_spec("%1color=red"), Err(ParseError::UnknownKeyword("1color".to_string())));
    assert_eq!(parse_spec("Color=red"), Err(ParseError::UnknownKeyword("Color".to_string())));
}

#[test]
fn an_equals_sign_without_a_word_is_an_empty_specifier() {
    let err = parse_spec("=").err().unwrap();
    assert_eq!(err, ParseError::EmptySpecifier);
    assert_eq!(err.message(), "The specifier names no mode before =");
    assert_eq!(parse_spec("%1 =x"), Err(ParseError::EmptySpecifier));
    assert_eq!(parse_format(&"a{ =}".to_string()), Err(ParseError::EmptySpecifier));
}

#[test]
fn the_color_is_reported_before_the_style_and_the_style_before_the_index() {
    assert_eq!(parse_spec("%x !nope #nada"), Err(ParseError::UnknownColor("nada".to_string())));
    assert_eq!(parse_spec("%x !nope"), Err(ParseError::UnknownStyle("nope".to_string())));
    assert_eq!(parse_spec("foo= #nada"), Err(ParseError::UnknownKeyword("foo".to_string())));
}

#[test]
fn structural_errors_have_their_sentences() {
    assert_eq!(ParseError::NestedSpecifier.message(), "Can't nest specifiers");
    assert_eq!(
        ParseError::UnbalancedBraces.message(),
        "The specifiers are imbalanced: missing }"
    );
    assert_eq!(
        RenderError::IndexOutOfRange.message(),
        "The format asks for an argument that was not given"
    );
    assert_eq!(
        EchoError::Render(RenderError::IndexOutOfRange).message(),
        RenderError::IndexOutOfRange.message()
    );
    assert_eq!(
        EchoError::Parse(ParseError::InvalidEscape('q')).message(),
        "Invalid escape sequence: \\q"
    );
}
