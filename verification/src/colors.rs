//! The color clause of a placeholder: `foreground`, `/background` or
//! `foreground/background`, each side a palette alias, six hexadecimal
//! digits or `rgb(r,g,b)`.

use crate::error::{ParseError, ParseErrorView};
use crate::model::{Color, Colors};
use crate::text::{chars_of, parse_unsigned, spells, trim, trimmed, unsigned_up_to};
use crate::trusted::{captures, regex_captures};
use vstd::prelude::*;

verus! {

/// Splits a color clause: group 1 is the foreground, group 3 the background.
pub const COLOR_PARTS_REGEX: &'static str = "^\\s*(?<fg>[^/]+)?\\s*(/\\s*(?<bg>.+))?\\s*$";

/// Six hexadecimal digits, as group 1.
pub const HEX_COLOR: &'static str = "^(?<code>[[:xdigit:]]{6})$";

/// `rgb(r,g,b)`: groups 2, 3 and 4 are the three components.
pub const DEC_COLOR: &'static str =
    "^(?<rgb>rgb\\((?<red>[[:digit:]]{1,3}),(?<green>[[:digit:]]{1,3}),(?<blue>[[:digit:]]{1,3})\\))$";

/// The text of capture group `i`, where the group exists and took part in
/// the match.
pub open spec fn group(groups: Seq<Option<Seq<char>>>, i: int) -> Option<Seq<char>> {
    if 0 <= i < groups.len() {
        groups[i]
    } else {
        None
    }
}

/// The text of capture group `i`.
fn group_of(groups: &Vec<Option<String>>, i: usize) -> (text: Option<&String>)
    ensures
        text.deep_view() == group(groups.deep_view(), i as int),
{
    if i < groups.len() {
        groups[i].as_ref()
    } else {
        None
    }
}

/// The palette entry that `token` names: a number from 0 to 15, one of the
/// letters `k r g y b m c w` or a full name, in lower case for the normal
/// colors and in upper case for the bright ones.
pub open spec fn palette_color(token: Seq<char>) -> Option<Color> {
    if token == "0"@ || token == "k"@ || token == "black"@ {
        Some(Color::Byte(0))
    } else if token == "1"@ || token == "r"@ || token == "red"@ {
        Some(Color::Byte(1))
    } else if token == "2"@ || token == "g"@ || token == "green"@ {
        Some(Color::Byte(2))
    } else if token == "3"@ || token == "y"@ || token == "yellow"@ {
        Some(Color::Byte(3))
    } else if token == "4"@ || token == "b"@ || token == "blue"@ {
        Some(Color::Byte(4))
    } else if token == "5"@ || token == "m"@ || token == "magenta"@ {
        Some(Color::Byte(5))
    } else if token == "6"@ || token == "c"@ || token == "cyan"@ {
        Some(Color::Byte(6))
    } else if token == "7"@ || token == "w"@ || token == "white"@ {
        Some(Color::Byte(7))
    } else if token == "8"@ || token == "K"@ || token == "BLACK"@ {
        Some(Color::Byte(8))
    } else if token == "9"@ || token == "R"@ || token == "RED"@ {
        Some(Color::Byte(9))
    } else if token == "10"@ || token == "G"@ || token == "GREEN"@ {
        Some(Color::Byte(10))
    } else if token == "11"@ || token == "Y"@ || token == "YELLOW"@ {
        Some(Color::Byte(11))
    } else if token == "12"@ || token == "B"@ || token == "BLUE"@ {
        Some(Color::Byte(12))
    } else if token == "13"@ || token == "M"@ || token == "MAGENTA"@ {
        Some(Color::Byte(13))
    } else if token == "14"@ || token == "C"@ || token == "CYAN"@ {
        Some(Color::Byte(14))
    } else if token == "15"@ || token == "W"@ || token == "WHITE"@ {
        Some(Color::Byte(15))
    } else {
        None
    }
}

/// Looks `token` up among the aliases of the palette.
fn palette(token: &Vec<char>) -> (color: Option<Color>)
    ensures
        color == palette_color(token@),
{
    if spells(token, "0") || spells(token, "k") || spells(token, "black") {
        Some(Color::black())
    } else if spells(token, "1") || spells(token, "r") || spells(token, "red") {
        Some(Color::red())
    } else if spells(token, "2") || spells(token, "g") || spells(token, "green") {
        Some(Color::green())
    } else if spells(token, "3") || spells(token, "y") || spells(token, "yellow") {
        Some(Color::yellow())
    } else if spells(token, "4") || spells(token, "b") || spells(token, "blue") {
        Some(Color::blue())
    } else if spells(token, "5") || spells(token, "m") || spells(token, "magenta") {
        Some(Color::magenta())
    } else if spells(token, "6") || spells(token, "c") || spells(token, "cyan") {
        Some(Color::cyan())
    } else if spells(token, "7") || spells(token, "w") || spells(token, "white") {
        Some(Color::white())
    } else if spells(token, "8") || spells(token, "K") || spells(token, "BLACK") {
        Some(Color::bright_black())
    } else if spells(token, "9") || spells(token, "R") || spells(token, "RED") {
        Some(Color::bright_red())
    } else if spells(token, "10") || spells(token, "G") || spells(token, "GREEN") {
        Some(Color::bright_green())
    } else if spells(token, "11") || spells(token, "Y") || spells(token, "YELLOW") {
        Some(Color::bright_yellow())
    } else if spells(token, "12") || spells(token, "B") || spells(token, "BLUE") {
        Some(Color::bright_blue())
    } else if spells(token, "13") || spells(token, "M") || spells(token, "MAGENTA") {
        Some(Color::bright_magenta())
    } else if spells(token, "14") || spells(token, "C") || spells(token, "CYAN") {
        Some(Color::bright_cyan())
    } else if spells(token, "15") || spells(token, "W") || spells(token, "WHITE") {
        Some(Color::bright_white())
    } else {
        None
    }
}

/// The color component that `s` writes in decimal: a number up to 255.
pub open spec fn component(s: Seq<char>) -> Option<u8> {
    match unsigned_up_to(s, 10, 255) {
        Some(n) => Some(n as u8),
        None => None,
    }
}

/// Reads a color component: a decimal number up to 255.
pub fn parse_as_u8(s: &str) -> (value: Option<u8>)
    ensures
        value == component(s@),
{
    match parse_unsigned(s, 10, 255) {
        Some(n) => Some(n as u8),
        None => None,
    }
}

/// The 24 bits of color that the groups of a match of `HEX_COLOR` give:
/// group 1 read as a hexadecimal number `RRGGBB`.
pub open spec fn hex_color(groups: Seq<Option<Seq<char>>>) -> Option<Color> {
    match group(groups, 1) {
        Some(code) => match unsigned_up_to(code, 16, 0xffff_ffff) {
            Some(value) => Some(
                Color::RGB {
                    red: ((value / 0x1_0000) % 0x100) as u8,
                    green: ((value / 0x100) % 0x100) as u8,
                    blue: (value % 0x100) as u8,
                },
            ),
            None => None,
        },
        None => None,
    }
}

/// The 24 bits of color that the groups of a match of `DEC_COLOR` give:
/// groups 2, 3 and 4 read as the components.
pub open spec fn dec_color(groups: Seq<Option<Seq<char>>>) -> Option<Color> {
    match (group(groups, 2), group(groups, 3), group(groups, 4)) {
        (Some(r), Some(g), Some(b)) => match (component(r), component(g), component(b)) {
            (Some(red), Some(green), Some(blue)) => Some(Color::RGB { red, green, blue }),
            _ => None,
        },
        _ => None,
    }
}

/// The color that one side of a color clause names. White space around the
/// name does not count. A palette alias is taken first; after it a token
/// that `HEX_COLOR` matches, and last one that `DEC_COLOR` matches.
pub open spec fn color_named(token: Seq<char>) -> Result<Color, ParseErrorView> {
    let name = trimmed(token);
    let found = match palette_color(name) {
        Some(color) => Some(color),
        None => match regex_captures(HEX_COLOR@, name) {
            Some(groups) if group(groups, 1) is Some => hex_color(groups),
            _ => match regex_captures(DEC_COLOR@, name) {
                Some(groups) => dec_color(groups),
                None => None,
            },
        },
    };
    match found {
        Some(color) => Ok(color),
        None => Err(ParseErrorView::UnknownColor(token)),
    }
}

/// Reads the groups of a match of `HEX_COLOR`.
pub fn hex_of(groups: &Vec<Option<String>>) -> (color: Option<Color>)
    ensures
        color == hex_color(groups.deep_view()),
{
    match group_of(groups, 1) {
        Some(code) => match parse_unsigned(code.as_str(), 16, 0xffff_ffff) {
            Some(value) => Some(Color::u32_rgb(value as u32)),
            None => None,
        },
        None => None,
    }
}

/// Reads the groups of a match of `DEC_COLOR`.
pub fn dec_of(groups: &Vec<Option<String>>) -> (color: Option<Color>)
    ensures
        color == dec_color(groups.deep_view()),
{
    match (group_of(groups, 2), group_of(groups, 3), group_of(groups, 4)) {
        (Some(r), Some(g), Some(b)) => match (
            parse_as_u8(r.as_str()),
            parse_as_u8(g.as_str()),
            parse_as_u8(b.as_str()),
        ) {
            (Some(red), Some(green), Some(blue)) => Some(Color::rgb(red, green, blue)),
            _ => None,
        },
        _ => None,
    }
}

/// The view of what `interpret_color` returns.
pub open spec fn color_result(result: Result<Color, ParseError>) -> Result<Color, ParseErrorView> {
    match result {
        Ok(color) => Ok(color),
        Err(e) => Err(e@),
    }
}

/// Reads one side of a color clause.
pub fn interpret_color(s: &str) -> (result: Result<Color, ParseError>)
    ensures
        color_result(result) == color_named(s@),
{
    let name = trim(s);
    let letters = chars_of(name.as_str());
    let found = match palette(&letters) {
        Some(color) => Some(color),
        None => match captures(HEX_COLOR, name.as_str()) {
            Some(groups) if group_of(&groups, 1).is_some() => hex_of(&groups),
            _ => match captures(DEC_COLOR, name.as_str()) {
                Some(groups) => dec_of(&groups),
                None => None,
            },
        },
    };
    match found {
        Some(color) => Ok(color),
        None => Err(ParseError::UnknownColor(s.to_owned())),
    }
}

/// The color that an optional side of a color clause names.
pub open spec fn side_color(token: Option<Seq<char>>) -> Result<Option<Color>, ParseErrorView> {
    match token {
        Some(name) => match color_named(name) {
            Ok(color) => Ok(Some(color)),
            Err(e) => Err(e),
        },
        None => Ok(None),
    }
}

/// The colors that the groups of a match of `COLOR_PARTS_REGEX` give: group
/// 1 names the foreground, group 3 the background, and a group that took no
/// part leaves its side without color. Of two unknown sides the foreground
/// is reported.
pub open spec fn grouped_colors(groups: Seq<Option<Seq<char>>>) -> Result<Colors, ParseErrorView> {
    match side_color(group(groups, 1)) {
        Ok(foreground) => match side_color(group(groups, 3)) {
            Ok(background) => Ok(Colors { foreground, background }),
            Err(e) => Err(e),
        },
        Err(e) => Err(e),
    }
}

/// The colors that the color clause `buffer` names. White space around the
/// clause does not count, and an empty clause names no color. Else
/// `COLOR_PARTS_REGEX` splits the clause; where it does not match, the
/// clause names no color either.
pub open spec fn colors_of(buffer: Seq<char>) -> Result<Colors, ParseErrorView> {
    let clause = trimmed(buffer);
    if clause.len() == 0 {
        Ok(Colors { foreground: None, background: None })
    } else {
        match regex_captures(COLOR_PARTS_REGEX@, clause) {
            Some(groups) => grouped_colors(groups),
            None => Ok(Colors { foreground: None, background: None }),
        }
    }
}

/// The view of what `parse_color` returns.
pub open spec fn colors_result(result: Result<Colors, ParseError>) -> Result<
    Colors,
    ParseErrorView,
> {
    match result {
        Ok(colors) => Ok(colors),
        Err(e) => Err(e@),
    }
}

/// Reads an optional side of a color clause.
fn side_of(token: Option<&String>) -> (result: Result<Option<Color>, ParseError>)
    ensures
        match side_color(token.deep_view()) {
            Ok(color) => result == Ok::<Option<Color>, ParseError>(color),
            Err(e) => result matches Err(x) && x@ == e,
        },
{
    match token {
        Some(name) => Ok(Some(interpret_color(name.as_str())?)),
        None => Ok(None),
    }
}

/// Reads the groups of a match of `COLOR_PARTS_REGEX`.
pub fn colors_in(groups: &Vec<Option<String>>) -> (result: Result<Colors, ParseError>)
    ensures
        colors_result(result) == grouped_colors(groups.deep_view()),
{
    let foreground = side_of(group_of(groups, 1))?;
    let background = side_of(group_of(groups, 3))?;
    Ok(Colors { foreground, background })
}

/// Reads a color clause.
pub fn parse_color(so_far: &str) -> (result: Result<Colors, ParseError>)
    ensures
        colors_result(result) == colors_of(so_far@),
{
    let clause = trim(so_far);
    if clause.as_str().is_empty() {
        return Ok(Colors::none());
    }
    match captures(COLOR_PARTS_REGEX, clause.as_str()) {
        Some(groups) => colors_in(&groups),
        None => Ok(Colors::none()),
    }
}

} // verus!
