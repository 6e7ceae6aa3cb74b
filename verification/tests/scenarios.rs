use cecho::cecho::cecho;
use cecho::error::{EchoError, ParseError, RenderError};
use cecho::model::{Color, Colors, Part, Style, Text};
use cecho::parser::parse_format;
use cecho::writer::spec_to_ansi;

fn vecs(items: &[&str]) -> Vec<String> {
    items.iter().map(|s| s.to_string()).collect()
}

fn echo(items: &[&str]) -> String {
    cecho(vecs(items)).unwrap()
}

#[test]
fn three_positional_placeholders_take_the_arguments_in_order() {
    assert_eq!(echo(&["{}+{}={}", "1", "2", "3"]), "1+2=3\x1b[0m");
}

#[test]
fn an_indexed_red_placeholder() {
    assert_eq!(echo(&["##{%1#red}##", "red"]), "##\x1b[31mred\x1b[0m##\x1b[0m");
}

#[test]
fn a_bold_placeholder() {
    assert_eq!(echo(&["##{!bold}##", "Bald"]), "##\x1b[1mBald\x1b[0m##\x1b[0m");
}

#[test]
fn styles_come_first_in_their_order_and_the_color_last() {
    assert_eq!(
        echo(&["##{#red/blue!italic!bold}##", "x"]),
        "##\x1b[3;1;31m\x1b[44mx\x1b[0m##\x1b[0m"
    );
    assert_eq!(
        echo(&["##{!italic!bold#red/blue}##", "x"]),
        "##\x1b[3;1;31m\x1b[44mx\x1b[0m##\x1b[0m"
    );
}

#[test]
fn a_style_that_is_given_twice_is_written_twice() {
    assert_eq!(echo(&["{!bold!bold}", "x"]), "\x1b[1;1mx\x1b[0m\x1b[0m");
    assert_eq!(
        parse_format(&"{!bb}".to_string()).unwrap(),
        vec![Part::positional_styles(vec![Style::Blink, Style::Blink])]
    );
}

#[test]
fn a_placeholder_without_color_or_style_writes_no_escape_sequence() {
    assert_eq!(echo(&["{}", "x"]), "x\x1b[0m");
    assert_eq!(echo(&["{%1}", "x"]), "x\x1b[0m");
}

#[test]
fn a_background_alone_has_one_sequence_and_a_reset() {
    assert_eq!(echo(&["{#/k}", "x"]), "\x1b[40mx\x1b[0m\x1b[0m");
    assert_eq!(echo(&["{!u#/rgb(1,2,3)}", "x"]), "\x1b[4m\x1b[48;2;1;2;3mx\x1b[0m\x1b[0m");
}

#[test]
fn bright_colors_are_written_from_90_and_from_100() {
    assert_eq!(echo(&["{#R}", "x"]), "\x1b[91mx\x1b[0m\x1b[0m");
    assert_eq!(echo(&["{#15}", "x"]), "\x1b[97mx\x1b[0m\x1b[0m");
    assert_eq!(echo(&["{#/8}", "x"]), "\x1b[100mx\x1b[0m\x1b[0m");
    assert_eq!(echo(&["{#/WHITE}", "x"]), "\x1b[107mx\x1b[0m\x1b[0m");
}

#[test]
fn six_hexadecimal_digits_are_a_color_in_either_case() {
    assert_eq!(echo(&["{#FFaa00}", "x"]), "\x1b[38;2;255;170;0mx\x1b[0m\x1b[0m");
}

#[test]
fn indexed_and_all_args_placeholders_do_not_move_the_cursor() {
    assert_eq!(echo(&["{} {%1} {} {%3} {}", "a", "b", "c"]), "a a b c c\x1b[0m");
    let inputs = vecs(&["the format", "a", "b"]);
    let parts = vec![
        Part::positional(),
        Part::all_args_custom_separator("+"),
        Part::indexed(2),
        Part::positional(),
    ];
    assert_eq!(spec_to_ansi(&inputs, parts).unwrap(), "aa+bbb\x1b[0m");
}

#[test]
fn index_0_is_the_format_itself() {
    assert_eq!(echo(&["{%0}", "a"]), "{%0}\x1b[0m");
}

#[test]
fn all_args_without_arguments_is_empty() {
    let inputs = vecs(&["the format"]);
    assert_eq!(spec_to_ansi(&inputs, vec![Part::all_args()]).unwrap(), "\x1b[0m");
    let nothing: Vec<String> = Vec::new();
    assert_eq!(spec_to_ansi(&nothing, vec![Part::all_args()]).unwrap(), "\x1b[0m");
}

#[test]
fn all_args_leaves_the_format_out_and_puts_the_separator_between() {
    let inputs = vecs(&["the format", "a", "b", "c"]);
    let parts = vec![Part::all_args_custom_separator(", ")];
    assert_eq!(spec_to_ansi(&inputs, parts).unwrap(), "a, b, c\x1b[0m");
    let one = vecs(&["the format", "a"]);
    let parts = vec![Part::all_args_custom_separator(", ")];
    assert_eq!(spec_to_ansi(&one, parts).unwrap(), "a\x1b[0m");
}

#[test]
fn no_parts_render_to_the_reset_alone() {
    let inputs = vecs(&["", "a"]);
    assert_eq!(spec_to_ansi(&inputs, Vec::new()).unwrap(), "\x1b[0m");
}

#[test]
fn a_placeholder_beyond_the_arguments_is_an_error() {
    assert_eq!(
        cecho(vecs(&["{} {}", "a"])),
        Err(EchoError::Render(RenderError::IndexOutOfRange))
    );
    assert_eq!(cecho(vecs(&["{%2}", "a"])), Err(EchoError::Render(RenderError::IndexOutOfRange)));
    let inputs = vecs(&["the format"]);
    assert_eq!(
        spec_to_ansi(&inputs, vec![Part::literal("a"), Part::positional()]),
        Err(RenderError::IndexOutOfRange)
    );
    assert_eq!(spec_to_ansi(&inputs, vec![Part::indexed(1)]), Err(RenderError::IndexOutOfRange));
    assert_eq!(spec_to_ansi(&inputs, vec![Part::indexed(0)]).unwrap(), "the format\x1b[0m");
}

#[test]
fn a_format_that_is_rejected_gives_its_error() {
    assert_eq!(
        cecho(vecs(&["Imbalanced {", "a"])),
        Err(EchoError::Parse(ParseError::UnbalancedBraces))
    );
    assert_eq!(
        cecho(vecs(&["Imbalanced {", "a"])).err().unwrap().message(),
        "The specifiers are imbalanced: missing }"
    );
}

#[test]
fn fewer_than_two_arguments_are_an_error() {
    assert_eq!(cecho(Vec::new()), Err(EchoError::TooFewArguments));
    assert_eq!(cecho(vecs(&["{}"])), Err(EchoError::TooFewArguments));
}

#[test]
fn with_an_empty_format_the_arguments_are_not_parsed() {
    assert_eq!(echo(&["", "{", "\\x", "{#nope}"]), "{\\x{#nope}");
}

#[test]
fn a_format_without_placeholder_is_one_literal_and_renders_to_itself() {
    let parts = parse_format(&"plain } text".to_string()).unwrap();
    assert_eq!(parts, vec![Part::literal("plain } text")]);
    assert_eq!(echo(&["plain } text", "unused"]), "plain } text\x1b[0m");
}

#[test]
fn a_closing_brace_outside_a_placeholder_is_text() {
    assert_eq!(
        parse_format(&"a}b{}c}".to_string()).unwrap(),
        vec![Part::literal("a}b"), Part::positional(), Part::literal("c}")]
    );
}

#[test]
fn a_backslash_at_the_end_stands_for_nothing() {
    assert_eq!(parse_format(&"abc\\".to_string()).unwrap(), vec![Part::literal("abc")]);
    assert_eq!(parse_format(&"\\".to_string()).unwrap(), Vec::new());
}

#[test]
fn each_escape_alone_is_one_literal_of_one_character() {
    let pairs = [
        ('a', '\x07'),
        ('b', '\x08'),
        ('t', '\x09'),
        ('n', '\x0a'),
        ('v', '\x0b'),
        ('f', '\x0c'),
        ('r', '\x0d'),
        ('e', '\x1b'),
        ('\\', '\\'),
        ('{', '{'),
        ('}', '}'),
    ];
    for (written, decoded) in pairs {
        let format = format!("\\{}", written);
        let parts = parse_format(&format).unwrap();
        assert_eq!(parts, vec![Part::Literal(decoded.to_string())]);
    }
}

#[test]
fn escapes_are_not_decoded_inside_a_placeholder() {
    assert_eq!(
        parse_format(&"{#\\}".to_string()),
        Err(ParseError::UnknownColor("\\".to_string()))
    );
}

#[test]
fn placeholders_next_to_each_other_have_no_literal_between() {
    assert_eq!(
        parse_format(&"{}{%2}".to_string()).unwrap(),
        vec![Part::positional(), Part::indexed(2)]
    );
}

#[test]
fn the_error_that_comes_first_in_the_format_is_reported() {
    assert_eq!(parse_format(&"\\q {".to_string()), Err(ParseError::InvalidEscape('q')));
    assert_eq!(parse_format(&"{ \\q".to_string()), Err(ParseError::UnbalancedBraces));
    assert_eq!(
        parse_format(&"{#nope} {!nope}".to_string()),
        Err(ParseError::UnknownColor("nope".to_string()))
    );
}

#[test]
fn a_body_that_opens_no_clause_is_the_positional_placeholder() {
    for format in ["{ }", "{#}", "{%}", "{!}", "{color=}", "{garbage}", "{ \t }", "{8}"] {
        let parts = parse_format(&format.to_string());
        assert_eq!(parts.unwrap(), vec![Part::positional()]);
    }
}

#[test]
fn characters_after_a_blank_go_to_no_clause() {
    assert_eq!(parse_format(&"{%1 2}".to_string()).unwrap(), vec![Part::indexed(1)]);
    assert_eq!(
        parse_format(&"{#red ish}".to_string()).unwrap(),
        vec![Part::positional_color(Color::red())]
    );
}

#[test]
fn a_placeholder_with_everything() {
    assert_eq!(
        parse_format(&"a{index=2 color=K/rgb(1,2,3) style=u,i}b".to_string()).unwrap(),
        vec![
            Part::literal("a"),
            Part::Specification {
                text: Text::Indexed(2),
                color: Colors::new(Color::bright_black(), Color::rgb(1, 2, 3)),
                styles: vec![Style::Underline, Style::Italic],
            },
            Part::literal("b"),
        ]
    );
}
