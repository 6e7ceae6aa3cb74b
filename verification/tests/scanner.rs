use cecho::error::ParseError;
use cecho::model::{Color, Part};
use cecho::parser::{parse_format_in_default_mode, parse_format_in_spec_mode};

fn chars(text: &str) -> Vec<char> {
    text.chars().collect()
}

#[test]
fn lib_parse_a_string_that_contains_no_spec_in_default_mode() {
    let specs = parse_format_in_default_mode(&chars(&"Hello, format!".to_string()));
    let ok = specs.ok().unwrap();
    assert_eq!(ok.len(), 1);
    assert_eq!(ok[0], Part::Literal("Hello, format!".to_string()));
}

#[test]
fn lib_parse_a_string_that_contains_no_spec_but_special_chars_in_default_mode() {
    let specs =
        parse_format_in_default_mode(&chars(&r#"Look at those dirty chars: \{ \\ \}"#.to_string()));
    let ok = specs.ok().unwrap();
    assert_eq!(ok.len(), 1);
    assert_eq!(ok[0], Part::Literal(r#"Look at those dirty chars: { \ }"#.to_string()));
}

#[test]
fn lib_parse_a_string_that_contains_1_spec_in_default_mode() {
    let specs = parse_format_in_default_mode(&chars(&"Spec={}".to_string()));
    let ok = specs.ok().unwrap();
    assert_eq!(ok.len(), 2);
    assert_eq!(ok[0], Part::Literal("Spec=".to_string()));
    assert_eq!(ok[1], Part::positional());
}

#[test]
fn lib_parse_a_nested_format() {
    let specs = parse_format_in_default_mode(&chars(&"Whatever {{}".to_string()));
    let err = specs.err().unwrap();
    assert_eq!(err, ParseError::NestedSpecifier);
    assert_eq!(err.message(), "Can't nest specifiers".to_string());
}

#[test]
fn lib_parse_an_imbalanced_format() {
    let specs = parse_format_in_default_mode(&chars(&"Imbalanced {".to_string()));
    let err = specs.err().unwrap();
    assert_eq!(err, ParseError::UnbalancedBraces);
    assert_eq!(err.message(), "The specifiers are imbalanced: missing }".to_string());
}

fn test_color_spec(spec: &str, color: Color) {
    let body = chars(&spec.to_string());
    let specs = parse_format_in_spec_mode(&body, 0);
    let (ok, next) = specs.ok().unwrap();
    assert_eq!(ok, Part::positional_color(color));
    assert_eq!(next, body.len());
}

#[test]
fn lib_parse_black_specs() {
    test_color_spec("#0}", Color::black());
    test_color_spec("#k}", Color::black());
    test_color_spec("#black}", Color::black());

    test_color_spec("#8}", Color::bright_black());
    test_color_spec("#K}", Color::bright_black());
    test_color_spec("#BLACK}", Color::bright_black());
}

#[test]
fn lib_parse_red_specs() {
    test_color_spec("#1}", Color::red());
    test_color_spec("#r}", Color::red());
    test_color_spec("#red}", Color::red());

    test_color_spec("#9}", Color::bright_red());
    test_color_spec("#R}", Color::bright_red());
    test_color_spec("#RED}", Color::bright_red());
}

#[test]
fn lib_parse_green_specs() {
    test_color_spec("#2}", Color::green());
    test_color_spec("#g}", Color::green());
    test_color_spec("#green}", Color::green());

    test_color_spec("#10}", Color::bright_green());
    test_color_spec("#G}", Color::bright_green());
    test_color_spec("#GREEN}", Color::bright_green());
}

#[test]
fn lib_parse_yellow_specs() {
    test_color_spec("#3}", Color::yellow());
    test_color_spec("#y}", Color::yellow());
    test_color_spec("#yellow}", Color::yellow());

    test_color_spec("#11}", Color::bright_yellow());
    test_color_spec("#Y}", Color::bright_yellow());
    test_color_spec("#YELLOW}", Color::bright_yellow());
}

#[test]
fn lib_parse_blue_specs() {
    test_color_spec("#4}", Color::blue());
    test_color_spec("#b}", Color::blue());
    test_color_spec("#blue}", Color::blue());

    test_color_spec("#12}", Color::bright_blue());
    test_color_spec("#B}", Color::bright_blue());
    test_color_spec("#BLUE}", Color::bright_blue());
}

#[test]
fn lib_parse_magenta_specs() {
    test_color_spec("#5}", Color::magenta());
    test_color_spec("#m}", Color::magenta());
    test_color_spec("#magenta}", Color::magenta());

    test_color_spec("#13}", Color::bright_magenta());
    test_color_spec("#M}", Color::bright_magenta());
    test_color_spec("#MAGENTA}", Color::bright_magenta());
}

#[test]
fn lib_parse_cyan_specs() {
    test_color_spec("#6}", Color::cyan());
    test_color_spec("#c}", Color::cyan());
    test_color_spec("#cyan}", Color::cyan());

    test_color_spec("#14}", Color::bright_cyan());
    test_color_spec("#C}", Color::bright_cyan());
    test_color_spec("#CYAN}", Color::bright_cyan());
}

#[test]
fn lib_parse_white_specs() {
    test_color_spec("#7}", Color::white());
    test_color_spec("#w}", Color::white());
    test_color_spec("#white}", Color::white());

    test_color_spec("#15}", Color::bright_white());
    test_color_spec("#W}", Color::bright_white());
    test_color_spec("#WHITE}", Color::bright_white());
}

#[test]
fn a_placeholder_is_read_from_where_its_body_starts() {
    let format = chars("ab{%2}cd");
    let (part, next) = parse_format_in_spec_mode(&format, 3).ok().unwrap();
    assert_eq!(part, Part::indexed(2));
    assert_eq!(next, 6);
}

#[test]
fn a_placeholder_that_starts_at_the_end_is_not_closed() {
    let format = chars("ab{");
    let err = parse_format_in_spec_mode(&format, 3).err().unwrap();
    assert_eq!(err, ParseError::UnbalancedBraces);
}
