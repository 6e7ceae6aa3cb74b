//! The parts of a parsed format string, and the colors and styles that a
//! placeholder can carry.

use crate::text::{append_decimal, decimal};
use vstd::prelude::*;

verus! {

/// A way to set text apart. Each style has its own SGR code.
#[derive(Clone, Copy, PartialEq, Eq, Debug)]
pub enum Style {
    Strong,
    Dim,
    Italic,
    Underline,
    Blink,
    Reversed,
    Hidden,
    CrossedOut,
}

impl Style {
    /// The SGR code of the style.
    pub open spec fn sgr(self) -> nat {
        match self {
            Style::Strong => 1,
            Style::Dim => 2,
            Style::Italic => 3,
            Style::Underline => 4,
            Style::Blink => 5,
            Style::Reversed => 7,
            Style::Hidden => 8,
            Style::CrossedOut => 9,
        }
    }

    /// The SGR code of the style.
    pub fn code(&self) -> (code: u8)
        ensures
            code == self.sgr(),
    {
        match self {
            Style::Strong => 1,
            Style::Dim => 2,
            Style::Italic => 3,
            Style::Underline => 4,
            Style::Blink => 5,
            Style::Reversed => 7,
            Style::Hidden => 8,
            Style::CrossedOut => 9,
        }
    }
}

/// A color: an entry of the palette of sixteen (0 to 7 the normal colors, 8
/// to 15 their bright forms), or 24 bits of red, green and blue. A byte of
/// 16 or more is no entry of the palette; the parser gives none, and the
/// codes below write it like a bright color, as 82 or 92 more than itself.
#[derive(Clone, Copy, PartialEq, Eq, Debug)]
pub enum Color {
    Byte(u8),
    RGB { red: u8, green: u8, blue: u8 },
}

/// Bit 0 of a palette entry: red.
pub const RED: u8 = 1;

/// Bit 1 of a palette entry: green.
pub const GREEN: u8 = 2;

/// Bit 2 of a palette entry: blue.
pub const BLUE: u8 = 4;

/// Bit 3 of a palette entry: bright.
pub const BRIGHT: u8 = 8;

/// `red;green;blue`, each in decimal.
pub open spec fn rgb_code(red: u8, green: u8, blue: u8) -> Seq<char> {
    decimal(red as nat) + seq![';'] + decimal(green as nat) + seq![';'] + decimal(blue as nat)
}

/// Appends `red;green;blue` to `code`.
fn append_rgb(code: &mut String, red: u8, green: u8, blue: u8)
    ensures
        final(code)@ == old(code)@ + rgb_code(red, green, blue),
{
    append_decimal(code, red as u16);
    code.push(';');
    append_decimal(code, green as u16);
    code.push(';');
    append_decimal(code, blue as u16);
}

impl Color {
    /// Entry 0 of the palette.
    pub fn black() -> (c: Color)
        ensures
            c == Color::Byte(0),
    {
        Color::Byte(0)
    }

    /// Entry 1 of the palette.
    pub fn red() -> (c: Color)
        ensures
            c == Color::Byte(1),
    {
        Color::Byte(RED)
    }

    /// Entry 2 of the palette.
    pub fn green() -> (c: Color)
        ensures
            c == Color::Byte(2),
    {
        Color::Byte(GREEN)
    }

    /// Entry 3 of the palette.
    pub fn yellow() -> (c: Color)
        ensures
            c == Color::Byte(3),
    {
        Color::Byte(RED + GREEN)
    }

    /// Entry 4 of the palette.
    pub fn blue() -> (c: Color)
        ensures
            c == Color::Byte(4),
    {
        Color::Byte(BLUE)
    }

    /// Entry 5 of the palette.
    pub fn magenta() -> (c: Color)
        ensures
            c == Color::Byte(5),
    {
        Color::Byte(RED + BLUE)
    }

    /// Entry 6 of the palette.
    pub fn cyan() -> (c: Color)
        ensures
            c == Color::Byte(6),
    {
        Color::Byte(GREEN + BLUE)
    }

    /// Entry 7 of the palette.
    pub fn white() -> (c: Color)
        ensures
            c == Color::Byte(7),
    {
        Color::Byte(RED + GREEN + BLUE)
    }

    /// Entry 8 of the palette.
    pub fn bright_black() -> (c: Color)
        ensures
            c == Color::Byte(8),
    {
        Color::Byte(BRIGHT)
    }

    /// Entry 9 of the palette.
    pub fn bright_red() -> (c: Color)
        ensures
            c == Color::Byte(9),
    {
        Color::Byte(BRIGHT + RED)
    }

    /// Entry 10 of the palette.
    pub fn bright_green() -> (c: Color)
        ensures
            c == Color::Byte(10),
    {
        Color::Byte(BRIGHT + GREEN)
    }

    /// Entry 11 of the palette.
    pub fn bright_yellow() -> (c: Color)
        ensures
            c == Color::Byte(11),
    {
        Color::Byte(BRIGHT + RED + GREEN)
    }

    /// Entry 12 of the palette.
    pub fn bright_blue() -> (c: Color)
        ensures
            c == Color::Byte(12),
    {
        Color::Byte(BRIGHT + BLUE)
    }

    /// Entry 13 of the palette.
    pub fn bright_magenta() -> (c: Color)
        ensures
            c == Color::Byte(13),
    {
        Color::Byte(BRIGHT + RED + BLUE)
    }

    /// Entry 14 of the palette.
    pub fn bright_cyan() -> (c: Color)
        ensures
            c == Color::Byte(14),
    {
        Color::Byte(BRIGHT + GREEN + BLUE)
    }

    /// Entry 15 of the palette.
    pub fn bright_white() -> (c: Color)
        ensures
            c == Color::Byte(15),
    {
        Color::Byte(BRIGHT + RED + GREEN + BLUE)
    }

    /// The color packed in the low 24 bits of `value` as `RRGGBB`; the high
    /// eight bits do not count.
    pub fn u32_rgb(value: u32) -> (c: Color)
        ensures
            c == (Color::RGB {
                red: ((value / 0x1_0000) % 0x100) as u8,
                green: ((value / 0x100) % 0x100) as u8,
                blue: (value % 0x100) as u8,
            }),
    {
        assert((value >> 16) & 0xff == (value / 0x1_0000) % 0x100) by (bit_vector);
        assert((value >> 8) & 0xff == (value / 0x100) % 0x100) by (bit_vector);
        assert(value & 0xff == value % 0x100) by (bit_vector);
        Color::RGB {
            red: ((value >> 16) & 0xff) as u8,
            green: ((value >> 8) & 0xff) as u8,
            blue: (value & 0xff) as u8,
        }
    }

    /// The color with these 24 bits.
    pub fn rgb(red: u8, green: u8, blue: u8) -> (c: Color)
        ensures
            c == (Color::RGB { red, green, blue }),
    {
        Color::RGB { red, green, blue }
    }

    /// Whether the color is one of the sixteen of the palette, or 24 bits.
    pub open spec fn in_palette(self) -> bool {
        match self {
            Color::Byte(n) => n < 16,
            Color::RGB { .. } => true,
        }
    }

    /// The SGR parameters that set this color as the foreground: 30 to 37
    /// for the normal colors, 90 to 97 for the bright ones, `38;2;` and the
    /// three components for 24 bits.
    pub open spec fn foreground_code(self) -> Seq<char> {
        match self {
            Color::Byte(n) => if n < 8 {
                decimal((30 + n) as nat)
            } else {
                decimal((82 + n) as nat)
            },
            Color::RGB { red, green, blue } => seq!['3', '8', ';', '2', ';'] + rgb_code(
                red,
                green,
                blue,
            ),
        }
    }

    /// The SGR parameters that set this color as the background: 40 to 47
    /// for the normal colors, 100 to 107 for the bright ones, `48;2;` and the
    /// three components for 24 bits.
    pub open spec fn background_code(self) -> Seq<char> {
        match self {
            Color::Byte(n) => if n < 8 {
                decimal((40 + n) as nat)
            } else {
                decimal((92 + n) as nat)
            },
            Color::RGB { red, green, blue } => seq!['4', '8', ';', '2', ';'] + rgb_code(
                red,
                green,
                blue,
            ),
        }
    }

    /// The SGR parameters that set this color as the foreground.
    pub fn escape_code(&self) -> (code: String)
        ensures
            code@ == self.foreground_code(),
    {
        let mut code = String::new();
        match self {
            Color::Byte(b) => {
                if *b < 8 {
                    append_decimal(&mut code, 30 + *b as u16);
                } else {
                    append_decimal(&mut code, 82 + *b as u16);
                }
            },
            Color::RGB { red, green, blue } => {
                code.append("38;2;");
                proof {
                    reveal_strlit("38;2;");
                }
                append_rgb(&mut code, *red, *green, *blue);
            },
        }
        code
    }

    /// The SGR parameters that set this color as the background.
    pub fn as_ansi_background_escape_code(&self) -> (code: String)
        ensures
            code@ == self.background_code(),
    {
        let mut code = String::new();
        match self {
            Color::Byte(b) => {
                if *b < 8 {
                    append_decimal(&mut code, 40 + *b as u16);
                } else {
                    append_decimal(&mut code, 92 + *b as u16);
                }
            },
            Color::RGB { red, green, blue } => {
                code.append("48;2;");
                proof {
                    reveal_strlit("48;2;");
                }
                append_rgb(&mut code, *red, *green, *blue);
            },
        }
        code
    }
}

/// The colors of a placeholder: a foreground, a background, both or none.
#[derive(Clone, Copy, PartialEq, Eq, Debug)]
pub struct Colors {
    pub foreground: Option<Color>,
    pub background: Option<Color>,
}

impl Colors {
    /// No color.
    pub fn none() -> (c: Colors)
        ensures
            c == (Colors { foreground: None, background: None }),
    {
        Colors { foreground: None, background: None }
    }

    /// Both colors.
    pub fn new(foreground: Color, background: Color) -> (c: Colors)
        ensures
            c == (Colors { foreground: Some(foreground), background: Some(background) }),
    {
        Colors { foreground: Some(foreground), background: Some(background) }
    }

    /// A foreground alone.
    pub fn new_fg(foreground: Color) -> (c: Colors)
        ensures
            c == (Colors { foreground: Some(foreground), background: None }),
    {
        Colors { foreground: Some(foreground), background: None }
    }

    /// A background alone.
    pub fn new_bg(background: Color) -> (c: Colors)
        ensures
            c == (Colors { foreground: None, background: Some(background) }),
    {
        Colors { foreground: None, background: Some(background) }
    }
}

/// Which argument a placeholder stands for.
#[derive(PartialEq, Eq, Debug)]
pub enum Text {
    /// The next argument that no positional placeholder has taken yet; the
    /// first one takes argument 1.
    Positional,
    /// The argument at this index; argument 0 is the format itself.
    Indexed(usize),
    /// Every argument from index 1 on, with this separator between them.
    AllArgs(String),
}

/// A `Text` with its separator as a sequence of characters.
pub enum TextView {
    Positional,
    Indexed(nat),
    AllArgs(Seq<char>),
}

impl View for Text {
    type V = TextView;

    open spec fn view(&self) -> TextView {
        match self {
            Text::Positional => TextView::Positional,
            Text::Indexed(n) => TextView::Indexed(*n as nat),
            Text::AllArgs(separator) => TextView::AllArgs(separator@),
        }
    }
}

/// One part of a parsed format: text to write as it is, or a placeholder.
#[derive(PartialEq, Eq, Debug)]
pub enum Part {
    Literal(String),
    Specification { text: Text, color: Colors, styles: Vec<Style> },
}

/// A `Part` with its texts and its styles as sequences.
pub enum PartView {
    Literal(Seq<char>),
    Specification { text: TextView, color: Colors, styles: Seq<Style> },
}

impl View for Part {
    type V = PartView;

    open spec fn view(&self) -> PartView {
        match self {
            Part::Literal(text) => PartView::Literal(text@),
            Part::Specification { text, color, styles } => PartView::Specification {
                text: text@,
                color: *color,
                styles: styles@,
            },
        }
    }
}

impl DeepView for Part {
    type V = PartView;

    open spec fn deep_view(&self) -> PartView {
        self@
    }
}

impl PartView {
    /// The placeholder `{}`: positional, with no color and no style.
    pub open spec fn positional() -> PartView {
        PartView::Specification {
            text: TextView::Positional,
            color: Colors { foreground: None, background: None },
            styles: Seq::empty(),
        }
    }
}

impl Part {
    /// Text to write as it is.
    pub fn literal(text: &str) -> (part: Part)
        ensures
            part@ == PartView::Literal(text@),
    {
        Part::Literal(text.to_owned())
    }

    /// The placeholder `{}`.
    pub fn positional() -> (part: Part)
        ensures
            part@ == PartView::positional(),
    {
        Part::Specification { text: Text::Positional, color: Colors::none(), styles: Vec::new() }
    }

    /// Every argument, with one space between each two.
    pub fn all_args() -> (part: Part)
        ensures
            part@ == (PartView::Specification {
                text: TextView::AllArgs(seq![' ']),
                color: Colors { foreground: None, background: None },
                styles: Seq::empty(),
            }),
    {
        proof {
            reveal_strlit(" ");
        }
        assert(" "@ == seq![' ']);
        Part::Specification {
            text: Text::AllArgs(" ".to_owned()),
            color: Colors::none(),
            styles: Vec::new(),
        }
    }

    /// Every argument, with `separator` between each two.
    pub fn all_args_custom_separator(separator: &str) -> (part: Part)
        ensures
            part@ == (PartView::Specification {
                text: TextView::AllArgs(separator@),
                color: Colors { foreground: None, background: None },
                styles: Seq::empty(),
            }),
    {
        Part::Specification {
            text: Text::AllArgs(separator.to_owned()),
            color: Colors::none(),
            styles: Vec::new(),
        }
    }

    /// The next argument, in the foreground `color`.
    pub fn positional_color(color: Color) -> (part: Part)
        ensures
            part@ == (PartView::Specification {
                text: TextView::Positional,
                color: Colors { foreground: Some(color), background: None },
                styles: Seq::empty(),
            }),
    {
        Part::Specification {
            text: Text::Positional,
            color: Colors::new_fg(color),
            styles: Vec::new(),
        }
    }

    /// The next argument, on the background `color`.
    pub fn positional_background_color(color: Color) -> (part: Part)
        ensures
            part@ == (PartView::Specification {
                text: TextView::Positional,
                color: Colors { foreground: None, background: Some(color) },
                styles: Seq::empty(),
            }),
    {
        Part::Specification {
            text: Text::Positional,
            color: Colors::new_bg(color),
            styles: Vec::new(),
        }
    }

    /// The next argument, in one style.
    pub fn positional_style(style: Style) -> (part: Part)
        ensures
            part@ == (PartView::Specification {
                text: TextView::Positional,
                color: Colors { foreground: None, background: None },
                styles: seq![style],
            }),
    {
        let mut styles: Vec<Style> = Vec::new();
        styles.push(style);
        Part::Specification { text: Text::Positional, color: Colors::none(), styles }
    }

    /// The next argument, in these styles.
    pub fn positional_styles(styles: Vec<Style>) -> (part: Part)
        ensures
            part@ == (PartView::Specification {
                text: TextView::Positional,
                color: Colors { foreground: None, background: None },
                styles: styles@,
            }),
    {
        Part::Specification { text: Text::Positional, color: Colors::none(), styles }
    }

    /// The argument at `index`.
    pub fn indexed(index: usize) -> (part: Part)
        ensures
            part@ == (PartView::Specification {
                text: TextView::Indexed(index as nat),
                color: Colors { foreground: None, background: None },
                styles: Seq::empty(),
            }),
    {
        Part::Specification {
            text: Text::Indexed(index),
            color: Colors::none(),
            styles: Vec::new(),
        }
    }

    /// The argument at `index`, in the colors `color`.
    pub fn indexed_color(index: usize, color: Colors) -> (part: Part)
        ensures
            part@ == (PartView::Specification {
                text: TextView::Indexed(index as nat),
                color,
                styles: Seq::empty(),
            }),
    {
        Part::Specification { text: Text::Indexed(index), color, styles: Vec::new() }
    }
}

} // verus!
