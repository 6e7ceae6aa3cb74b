//! What holds of parsing and rendering as a whole.

use crate::colors::{color_named, colors_of, palette_color};
use crate::error::{ParseErrorView, RenderError};
use crate::model::{Color, Colors, PartView, TextView};
use crate::parser::{
    brace_from_bounds, literal_run, literal_run_bounds, parsed, parts_from, placeholder, unescaped,
};
use crate::styles::{style_tokens, styles_of, tokens_styles};
use crate::text::{decimal, digit, is_whitespace, trimmed_is_identity};
use crate::writer::{
    cursor_at, fragment_at, fragments, is_positional, positionals, prefix, rendered, reset,
    resolved, suffix,
};
use vstd::prelude::*;

verus! {

/// A format that is one escape, a backslash and a character that it can
/// escape, parses to one literal that holds the one character they stand
/// for.
pub proof fn escape_parses_to_its_character(c: char)
    requires
        unescaped(c) is Some,
    ensures
        parsed(seq!['\\', c]) == Ok::<Seq<PartView>, ParseErrorView>(
            seq![PartView::Literal(seq![unescaped(c)->0])],
        ),
{
    assert(literal_run(seq!['\\', c], 2) == Ok::<(Seq<char>, int), ParseErrorView>(
        (Seq::empty(), 2),
    ));
}

/// A backslash before any other character is an error that names the
/// character.
pub proof fn other_escape_is_rejected(c: char)
    requires
        unescaped(c) is None,
    ensures
        parsed(seq!['\\', c]) == Err::<Seq<PartView>, ParseErrorView>(
            ParseErrorView::InvalidEscape(c),
        ),
{
}

/// One literal renders to its text and the final reset, whatever the
/// arguments are.
pub proof fn literal_renders_to_itself(text: Seq<char>, args: Seq<Seq<char>>)
    ensures
        rendered(seq![PartView::Literal(text)], args) == Ok::<Seq<char>, RenderError>(
            text + reset(),
        ),
{
    assert(fragments(seq![PartView::Literal(text)], args) == seq![text]);
    seq![text].lemma_flatten_one_element();
}

/// A format without a placeholder, that is one whose literal text runs to
/// its end, parses to exactly one literal, which holds the format with its
/// escapes decoded, and renders to that text and the final reset. The
/// decoded text must not be empty: a format that decodes to nothing has no
/// part at all.
pub proof fn format_without_placeholder(format: Seq<char>, text: Seq<char>, args: Seq<Seq<char>>)
    requires
        literal_run(format, 0) == Ok::<(Seq<char>, int), ParseErrorView>(
            (text, format.len() as int),
        ),
        text.len() > 0,
    ensures
        parsed(format) == Ok::<Seq<PartView>, ParseErrorView>(seq![PartView::Literal(text)]),
        rendered(seq![PartView::Literal(text)], args) == Ok::<Seq<char>, RenderError>(
            text + reset(),
        ),
{
    literal_renders_to_itself(text, args);
}

/// Text that holds neither a backslash nor a `{` is its own literal run.
proof fn plain_text_is_its_own_run(format: Seq<char>, i: int)
    requires
        0 <= i <= format.len(),
        forall|k: int| 0 <= k < format.len() ==> format[k] != '\\' && format[k] != '{',
    ensures
        literal_run(format, i) == Ok::<(Seq<char>, int), ParseErrorView>(
            (format.skip(i), format.len() as int),
        ),
    decreases format.len() - i,
{
    if i < format.len() {
        plain_text_is_its_own_run(format, i + 1);
        assert(seq![format[i]] + format.skip(i + 1) == format.skip(i));
    } else {
        assert(format.skip(i) == Seq::<char>::empty());
    }
}

/// A format that is not empty and holds neither a backslash nor a `{`
/// parses to exactly one literal equal to the format, and renders to the
/// format and the final reset.
pub proof fn plain_format_is_identity(format: Seq<char>, args: Seq<Seq<char>>)
    requires
        format.len() > 0,
        forall|k: int| 0 <= k < format.len() ==> format[k] != '\\' && format[k] != '{',
    ensures
        parsed(format) == Ok::<Seq<PartView>, ParseErrorView>(seq![PartView::Literal(format)]),
        rendered(seq![PartView::Literal(format)], args) == Ok::<Seq<char>, RenderError>(
            format + reset(),
        ),
{
    plain_text_is_its_own_run(format, 0);
    assert(format.skip(0) == format);
    format_without_placeholder(format, format, args);
}

/// Whatever is rendered ends with a reset.
pub proof fn rendering_ends_with_reset(parts: Seq<PartView>, args: Seq<Seq<char>>)
    ensures
        rendered(parts, args) matches Ok(text) ==> text.len() >= 4 && text.skip(text.len() - 4)
            == reset(),
{
    if let Ok(text) = rendered(parts, args) {
        assert(text.skip(text.len() - 4) == reset());
    }
}

/// A placeholder without color and without style has nothing written
/// before or after its text.
pub proof fn plain_placeholder_has_no_escape()
    ensures
        prefix(Colors { foreground: None, background: None }, Seq::empty()) == Seq::<char>::empty(),
        suffix(Colors { foreground: None, background: None }, Seq::empty()) == Seq::<char>::empty(),
{
}

/// The cursor starts at 1, moves by one over a positional placeholder and
/// stays where it is over every other part: indexed placeholders,
/// placeholders for all arguments and literals do not count.
pub proof fn cursor_moves_over_positionals_only(parts: Seq<PartView>, k: int)
    requires
        0 <= k < parts.len(),
    ensures
        cursor_at(parts, 0) == 1,
        cursor_at(parts, k + 1) == cursor_at(parts, k) + if is_positional(parts[k]) {
            1nat
        } else {
            0nat
        },
{
    assert(parts.take(k + 1).drop_last() == parts.take(k));
}

/// The positional placeholder that has `i - 1` positional placeholders
/// before it, whatever else stands before it or between them, stands for
/// argument `i`.
pub proof fn positional_takes_its_argument(
    parts: Seq<PartView>,
    args: Seq<Seq<char>>,
    k: int,
    i: nat,
)
    requires
        0 <= k < parts.len(),
        is_positional(parts[k]),
        positionals(parts.take(k)) + 1 == i,
        i < args.len(),
    ensures
        resolved(TextView::Positional, args, cursor_at(parts, k)) == Some(args[i as int]),
        parts[k] matches PartView::Specification { color, styles, .. } && fragment_at(
            parts,
            args,
            k,
        ) == Some(prefix(color, styles) + args[i as int] + suffix(color, styles)),
{
}

/// A run of `{}` has as many positional placeholders as it is long.
proof fn positionals_of_plain_run(parts: Seq<PartView>, k: int)
    requires
        0 <= k <= parts.len(),
        forall|j: int| 0 <= j < parts.len() ==> parts[j] == PartView::positional(),
    ensures
        positionals(parts.take(k)) == k,
    decreases k,
{
    if k > 0 {
        positionals_of_plain_run(parts, k - 1);
        assert(parts.take(k).drop_last() == parts.take(k - 1));
    }
}

/// `n` placeholders `{}` in a row, with at least `n` arguments after the
/// format, render to the first `n` of those arguments in their order: the
/// placeholder at place `i`, counted from 1, stands for argument `i`.
pub proof fn positionals_take_arguments_in_order(parts: Seq<PartView>, args: Seq<Seq<char>>)
    requires
        forall|j: int| 0 <= j < parts.len() ==> parts[j] == PartView::positional(),
        parts.len() < args.len(),
    ensures
        forall|j: int| 0 <= j < parts.len() ==> fragment_at(parts, args, j) == Some(args[j + 1]),
        rendered(parts, args) == Ok::<Seq<char>, RenderError>(
            args.subrange(1, parts.len() as int + 1).flatten() + reset(),
        ),
{
    assert forall|j: int| 0 <= j < parts.len() implies #[trigger] fragment_at(parts, args, j)
        == Some(args[j + 1]) by {
        positionals_of_plain_run(parts, j);
    }
    assert(fragments(parts, args) == args.subrange(1, parts.len() as int + 1));
}

/// The three ways to write entry `n` of the palette: its number, its
/// letter and its name, the last two in lower case for the normal colors
/// and in upper case for the bright ones.
pub open spec fn palette_aliases(n: nat) -> Seq<Seq<char>> {
    if n == 0 {
        seq!["0"@, "k"@, "black"@]
    } else if n == 1 {
        seq!["1"@, "r"@, "red"@]
    } else if n == 2 {
        seq!["2"@, "g"@, "green"@]
    } else if n == 3 {
        seq!["3"@, "y"@, "yellow"@]
    } else if n == 4 {
        seq!["4"@, "b"@, "blue"@]
    } else if n == 5 {
        seq!["5"@, "m"@, "magenta"@]
    } else if n == 6 {
        seq!["6"@, "c"@, "cyan"@]
    } else if n == 7 {
        seq!["7"@, "w"@, "white"@]
    } else if n == 8 {
        seq!["8"@, "K"@, "BLACK"@]
    } else if n == 9 {
        seq!["9"@, "R"@, "RED"@]
    } else if n == 10 {
        seq!["10"@, "G"@, "GREEN"@]
    } else if n == 11 {
        seq!["11"@, "Y"@, "YELLOW"@]
    } else if n == 12 {
        seq!["12"@, "B"@, "BLUE"@]
    } else if n == 13 {
        seq!["13"@, "M"@, "MAGENTA"@]
    } else if n == 14 {
        seq!["14"@, "C"@, "CYAN"@]
    } else if n == 15 {
        seq!["15"@, "W"@, "WHITE"@]
    } else {
        Seq::empty()
    }
}

/// The length of `s`, its first and its last character.
spec fn ends(s: Seq<char>) -> (nat, char, char) {
    (s.len(), s[0], s.last())
}

/// No alias of the palette starts or ends with white space, and each names
/// its own entry.
proof fn palette_aliases_spelled()
    ensures
        forall|n: nat, i: int|
            n < 16 && 0 <= i < 3 ==> (#[trigger] palette_aliases(n)[i]).len() > 0 && !is_whitespace(
                palette_aliases(n)[i][0],
            ) && !is_whitespace(palette_aliases(n)[i].last()),
        forall|n: nat, i: int|
            n < 16 && 0 <= i < 3 ==> palette_color(#[trigger] palette_aliases(n)[i]) == Some(
                Color::Byte(n as u8),
            ),
{
    reveal_strlit("0");
    reveal_strlit("k");
    reveal_strlit("black");
    assert(ends("0"@) == (1nat, '0', '0'));
    assert(ends("k"@) == (1nat, 'k', 'k'));
    assert(ends("black"@) == (5nat, 'b', 'k'));
    reveal_strlit("1");
    reveal_strlit("r");
    reveal_strlit("red");
    assert(ends("1"@) == (1nat, '1', '1'));
    assert(ends("r"@) == (1nat, 'r', 'r'));
    assert(ends("red"@) == (3nat, 'r', 'd'));
    reveal_strlit("2");
    reveal_strlit("g");
    reveal_strlit("green");
    assert(ends("2"@) == (1nat, '2', '2'));
    assert(ends("g"@) == (1nat, 'g', 'g'));
    assert(ends("green"@) == (5nat, 'g', 'n'));
    reveal_strlit("3");
    reveal_strlit("y");
    reveal_strlit("yellow");
    assert(ends("3"@) == (1nat, '3', '3'));
    assert(ends("y"@) == (1nat, 'y', 'y'));
    assert(ends("yellow"@) == (6nat, 'y', 'w'));
    reveal_strlit("4");
    reveal_strlit("b");
    reveal_strlit("blue");
    assert(ends("4"@) == (1nat, '4', '4'));
    assert(ends("b"@) == (1nat, 'b', 'b'));
    assert(ends("blue"@) == (4nat, 'b', 'e'));
    reveal_strlit("5");
    reveal_strlit("m");
    reveal_strlit("magenta");
    assert(ends("5"@) == (1nat, '5', '5'));
    assert(ends("m"@) == (1nat, 'm', 'm'));
    assert(ends("magenta"@) == (7nat, 'm', 'a'));
    reveal_strlit("6");
    reveal_strlit("c");
    reveal_strlit("cyan");
    assert(ends("6"@) == (1nat, '6', '6'));
    assert(ends("c"@) == (1nat, 'c', 'c'));
    assert(ends("cyan"@) == (4nat, 'c', 'n'));
    reveal_strlit("7");
    reveal_strlit("w");
    reveal_strlit("white");
    assert(ends("7"@) == (1nat, '7', '7'));
    assert(ends("w"@) == (1nat, 'w', 'w'));
    assert(ends("white"@) == (5nat, 'w', 'e'));
    reveal_strlit("8");
    reveal_strlit("K");
    reveal_strlit("BLACK");
    assert(ends("8"@) == (1nat, '8', '8'));
    assert(ends("K"@) == (1nat, 'K', 'K'));
    assert(ends("BLACK"@) == (5nat, 'B', 'K'));
    reveal_strlit("9");
    reveal_strlit("R");
    reveal_strlit("RED");
    assert(ends("9"@) == (1nat, '9', '9'));
    assert(ends("R"@) == (1nat, 'R', 'R'));
    assert(ends("RED"@) == (3nat, 'R', 'D'));
    reveal_strlit("10");
    reveal_strlit("G");
    reveal_strlit("GREEN");
    assert(ends("10"@) == (2nat, '1', '0'));
    assert(ends("G"@) == (1nat, 'G', 'G'));
    assert(ends("GREEN"@) == (5nat, 'G', 'N'));
    reveal_strlit("11");
    reveal_strlit("Y");
    reveal_strlit("YELLOW");
    assert(ends("11"@) == (2nat, '1', '1'));
    assert(ends("Y"@) == (1nat, 'Y', 'Y'));
    assert(ends("YELLOW"@) == (6nat, 'Y', 'W'));
    reveal_strlit("12");
    reveal_strlit("B");
    reveal_strlit("BLUE");
    assert(ends("12"@) == (2nat, '1', '2'));
    assert(ends("B"@) == (1nat, 'B', 'B'));
    assert(ends("BLUE"@) == (4nat, 'B', 'E'));
    reveal_strlit("13");
    reveal_strlit("M");
    reveal_strlit("MAGENTA");
    assert(ends("13"@) == (2nat, '1', '3'));
    assert(ends("M"@) == (1nat, 'M', 'M'));
    assert(ends("MAGENTA"@) == (7nat, 'M', 'A'));
    reveal_strlit("14");
    reveal_strlit("C");
    reveal_strlit("CYAN");
    assert(ends("14"@) == (2nat, '1', '4'));
    assert(ends("C"@) == (1nat, 'C', 'C'));
    assert(ends("CYAN"@) == (4nat, 'C', 'N'));
    reveal_strlit("15");
    reveal_strlit("W");
    reveal_strlit("WHITE");
    assert(ends("15"@) == (2nat, '1', '5'));
    assert(ends("W"@) == (1nat, 'W', 'W'));
    assert(ends("WHITE"@) == (5nat, 'W', 'E'));
}

/// Each alias of a palette entry names that entry, also as one side of a
/// color clause.
pub proof fn palette_alias_names_its_entry(n: nat, i: int)
    requires
        n < 16,
        0 <= i < 3,
    ensures
        palette_color(palette_aliases(n)[i]) == Some(Color::Byte(n as u8)),
        color_named(palette_aliases(n)[i]) == Ok::<Color, ParseErrorView>(Color::Byte(n as u8)),
{
    palette_aliases_spelled();
    trimmed_is_identity(palette_aliases(n)[i]);
}

/// Only the aliases of a palette entry name an entry of the palette.
pub proof fn palette_entry_has_its_aliases_only(token: Seq<char>)
    ensures
        palette_color(token) matches Some(color) ==> exists|n: nat, i: int|
            n < 16 && 0 <= i < 3 && color == Color::Byte(n as u8) && token
                == #[trigger] palette_aliases(n)[i],
{
    if let Some(Color::Byte(b)) = palette_color(token) {
        let n = b as nat;
        let i: int = if token == palette_aliases(n)[0] {
            0
        } else if token == palette_aliases(n)[1] {
            1
        } else {
            2
        };
        assert(token == palette_aliases(n)[i]);
    }
}

/// A palette entry alone, as the foreground, is written as one SGR
/// sequence: `ESC [ 3 n m` for a normal color `n`, `ESC [ 9 m m` for the
/// bright color `8 + m`.
pub proof fn palette_entry_as_foreground(n: nat)
    requires
        n < 16,
    ensures
        prefix(Colors { foreground: Some(Color::Byte(n as u8)), background: None }, Seq::empty())
            == if n < 8 {
            seq!['\x1b', '[', '3', digit(n), 'm']
        } else {
            seq!['\x1b', '[', '9', digit((n - 8) as nat), 'm']
        },
{
    reveal_with_fuel(decimal, 2);
}

/// Whether each color of the part, if it is a placeholder, is an entry of
/// the palette of sixteen or 24 bits of color.
pub open spec fn colors_in_palette(part: PartView) -> bool {
    part matches PartView::Specification { color, .. } ==> {
        &&& color.foreground matches Some(foreground) ==> foreground.in_palette()
        &&& color.background matches Some(background) ==> background.in_palette()
    }
}

/// A color that a side of a color clause names is an entry of the palette
/// of sixteen or 24 bits of color.
pub proof fn named_color_is_in_palette(token: Seq<char>)
    ensures
        color_named(token) matches Ok(color) ==> color.in_palette(),
{
}

/// Whether the part, if it is a literal, holds at least one character.
pub open spec fn literal_holds_text(part: PartView) -> bool {
    part matches PartView::Literal(text) ==> text.len() > 0
}

/// The parts from any index of a format on hold no color that is neither
/// of the palette nor 24 bits, and no literal without text.
proof fn parts_from_are_sound(format: Seq<char>, i: int)
    requires
        0 <= i <= format.len(),
    ensures
        parts_from(format, i) matches Ok(parts) ==> forall|k: int|
            0 <= k < parts.len() ==> colors_in_palette(#[trigger] parts[k]) && literal_holds_text(
                parts[k],
            ),
    decreases format.len() - i,
{
    if i < format.len() {
        if let Ok((text, end)) = literal_run(format, i) {
            literal_run_bounds(format, i);
            if end < format.len() {
                if let Ok((part, next)) = placeholder(format, end + 1) {
                    brace_from_bounds(format, end + 1);
                    parts_from_are_sound(format, next);
                }
            }
        }
    }
}

/// Every color in the parts of a format is an entry of the palette of
/// sixteen or 24 bits of color, and every literal holds at least one
/// character.
pub proof fn parsed_parts_are_sound(format: Seq<char>)
    ensures
        parsed(format) matches Ok(parts) ==> forall|k: int|
            0 <= k < parts.len() ==> colors_in_palette(#[trigger] parts[k]) && literal_holds_text(
                parts[k],
            ),
{
    parts_from_are_sound(format, 0);
}

/// Whatever the outside calls return, a color clause fails with an
/// unknown color only, and style clauses fail with an unknown style only.
pub proof fn clauses_fail_in_kind(buffer: Seq<char>, clauses: Seq<Seq<char>>)
    ensures
        colors_of(buffer) matches Err(e) ==> e is UnknownColor,
        styles_of(clauses) matches Err(e) ==> e is UnknownStyle,
{
    tokens_fail_in_kind(style_tokens(clauses));
}

/// Tokens of style clauses fail with an unknown style only.
proof fn tokens_fail_in_kind(tokens: Seq<Seq<char>>)
    ensures
        tokens_styles(tokens) matches Err(e) ==> e is UnknownStyle,
    decreases tokens.len(),
{
    if tokens.len() > 0 {
        tokens_fail_in_kind(tokens.drop_last());
    }
}

} // verus!
