use cecho::model::Style::{Blink, Strong};
use cecho::model::{Color, Colors, Part};
use cecho::writer::spec_to_ansi;

fn vecs(items: &[&str]) -> Vec<String> {
    items.iter().map(|s| s.to_string()).collect()
}

fn test_ok_spec_to_ansi(mut inputs: Vec<String>, parts: Vec<Part>, expected: &str) {
    inputs.insert(0, "unused but necessary because this is the place of the formatter".to_string());
    let result = spec_to_ansi(&inputs, parts);
    let ok = result.unwrap();
    assert_eq!(ok, expected);
}

#[test]
fn always_reset_the_style() {
    test_ok_spec_to_ansi(
        vecs(&["default"]),
        vec![Part::literal("##"), Part::literal("default"), Part::literal("##")],
        "##default##\x1b[0m",
    )
}

#[test]
fn output_escape_sequence_for_red_string_surrounded_by_hashes() {
    test_ok_spec_to_ansi(
        vecs(&["red"]),
        vec![
            Part::literal("##"),
            Part::indexed_color(1, Colors::new_fg(Color::red())),
            Part::literal("##"),
        ],
        "##\x1b[31mred\x1b[0m##\x1b[0m",
    )
}

#[test]
fn output_escape_sequence_for_green_string_surrounded_by_hashes() {
    test_ok_spec_to_ansi(
        vecs(&["green"]),
        vec![
            Part::literal("##"),
            Part::indexed_color(1, Colors::new_fg(Color::green())),
            Part::literal("##"),
        ],
        "##\x1b[32mgreen\x1b[0m##\x1b[0m",
    )
}

#[test]
fn output_escape_sequence_for_yellow_on_red() {
    test_ok_spec_to_ansi(
        vecs(&["DANGER"]),
        vec![
            Part::literal("##"),
            Part::indexed_color(1, Colors::new(Color::yellow(), Color::red())),
            Part::literal("##"),
        ],
        "##\x1b[33m\x1b[41mDANGER\x1b[0m##\x1b[0m",
    );
}

#[test]
fn output_bold_style_option_in_ansi_sequence() {
    test_ok_spec_to_ansi(
        vecs(&["Bald"]),
        vec![Part::literal("##"), Part::positional_style(Strong), Part::literal("##")],
        "##\x1b[1mBald\x1b[0m##\x1b[0m",
    );
}

#[test]
fn output_blink_style_option_in_ansi_sequence() {
    test_ok_spec_to_ansi(
        vecs(&["TikTok"]),
        vec![Part::literal("##"), Part::positional_style(Blink), Part::literal("##")],
        "##\x1b[5mTikTok\x1b[0m##\x1b[0m",
    );
}

#[test]
fn output_rgb_color_brown() {
    test_ok_spec_to_ansi(
        vecs(&["Poop"]),
        vec![
            Part::literal("##"),
            Part::positional_color(Color::rgb(84, 55, 15)),
            Part::literal("##"),
        ],
        "##\x1b[38;2;84;55;15mPoop\x1b[0m##\x1b[0m",
    );
}

#[test]
fn output_rgb_background_color_brown() {
    test_ok_spec_to_ansi(
        vecs(&["Poop"]),
        vec![
            Part::literal("##"),
            Part::positional_background_color(Color::rgb(84, 55, 15)),
            Part::literal("##"),
        ],
        "##\x1b[48;2;84;55;15mPoop\x1b[0m##\x1b[0m",
    );
}

#[test]
fn output_all_the_inputs() {
    test_ok_spec_to_ansi(
        vecs(&["a", "b", "c"]),
        vec![Part::literal("##"), Part::all_args(), Part::literal("##")],
        "##a b c##\x1b[0m",
    );
}

#[test]
fn output_all_the_inputs_with_custom_separator() {
    test_ok_spec_to_ansi(
        vecs(&["a", "b", "c"]),
        vec![Part::literal("##"), Part::all_args_custom_separator("|"), Part::literal("##")],
        "##a|b|c##\x1b[0m",
    );
}
