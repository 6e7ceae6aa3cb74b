//! Parsing: from a format string to its parts.
//!
//! Outside a placeholder a backslash escapes the character after it, a `{`
//! opens a placeholder and every other character stands for itself. A
//! placeholder runs to the next `}`. Its body is a list of clauses: `%` or
//! `index=` gives the index of the argument, `#` or `color=` the colors, `!`
//! or `style=` the styles.

use crate::colors::{colors_of, parse_color};
use crate::error::{ParseError, ParseErrorView};
use crate::model::{Colors, Part, PartView, Text, TextView};
use crate::styles::{parse_style, styles_of};
use crate::text::{chars_of, parse_unsigned, spells, string_of, trim, trimmed, unsigned_up_to};
use vstd::prelude::*;

verus! {

/// The clause that the characters of a placeholder's body go to.
#[derive(Clone, Copy, PartialEq, Eq, Debug)]
pub enum ParserMode {
    IndexMode,
    ColorMode,
    StyleMode,
}

/// What has been read of the body of a placeholder.
pub struct Clauses {
    /// The clause that is open, if one is.
    pub mode: Option<ParserMode>,
    /// The index clause.
    pub text: String,
    /// The color clause.
    pub color: String,
    /// The style clause that is open.
    pub style: String,
    /// The style clauses that are closed.
    pub styles: Vec<String>,
    /// The characters since the last blank, sigils and `=` left out.
    pub last_word: String,
}

/// `Clauses` with its texts as sequences of characters.
pub struct ClausesView {
    pub mode: Option<ParserMode>,
    pub text: Seq<char>,
    pub color: Seq<char>,
    pub style: Seq<char>,
    pub styles: Seq<Seq<char>>,
    pub last_word: Seq<char>,
}

impl View for Clauses {
    type V = ClausesView;

    open spec fn view(&self) -> ClausesView {
        ClausesView {
            mode: self.mode,
            text: self.text@,
            color: self.color@,
            style: self.style@,
            styles: self.styles.deep_view(),
            last_word: self.last_word@,
        }
    }
}

/// The mode that `word` is the keyword of.
pub open spec fn keyword(word: Seq<char>) -> Option<ParserMode> {
    if word == "color"@ {
        Some(ParserMode::ColorMode)
    } else if word == "index"@ {
        Some(ParserMode::IndexMode)
    } else if word == "style"@ {
        Some(ParserMode::StyleMode)
    } else {
        None
    }
}

impl ClausesView {
    /// Nothing read yet.
    pub open spec fn start() -> ClausesView {
        ClausesView {
            mode: None,
            text: Seq::empty(),
            color: Seq::empty(),
            style: Seq::empty(),
            styles: Seq::empty(),
            last_word: Seq::empty(),
        }
    }

    /// The open style clause, unless it is empty, moves to the closed ones.
    pub open spec fn close_style(self) -> ClausesView {
        if self.style.len() > 0 {
            ClausesView { style: Seq::empty(), styles: self.styles.push(self.style), ..self }
        } else {
            self
        }
    }

    /// A sigil or a keyword with `=` opens the clause of `mode`.
    pub open spec fn open(self, mode: ParserMode) -> ClausesView {
        ClausesView { mode: Some(mode), ..self.close_style() }
    }

    /// Any other character goes to the last word and to the open clause.
    pub open spec fn take(self, c: char) -> ClausesView {
        let word = self.last_word.push(c);
        match self.mode {
            Some(ParserMode::IndexMode) => ClausesView {
                text: self.text.push(c),
                last_word: word,
                ..self
            },
            Some(ParserMode::ColorMode) => ClausesView {
                color: self.color.push(c),
                last_word: word,
                ..self
            },
            Some(ParserMode::StyleMode) => ClausesView {
                style: self.style.push(c),
                last_word: word,
                ..self
            },
            None => ClausesView { last_word: word, ..self },
        }
    }

    /// What one more character `c` of the body makes of the state. A space
    /// or a tab closes the open clause and starts a new word. A `=` takes
    /// the last word for a keyword.
    pub open spec fn step(self, c: char) -> Result<ClausesView, ParseErrorView> {
        if c == '#' {
            Ok(self.open(ParserMode::ColorMode))
        } else if c == '%' {
            Ok(self.open(ParserMode::IndexMode))
        } else if c == '!' {
            Ok(self.open(ParserMode::StyleMode))
        } else if c == ' ' || c == '\t' {
            Ok(ClausesView { mode: None, last_word: Seq::empty(), ..self })
        } else if c == '=' {
            match keyword(self.last_word) {
                Some(mode) => Ok(self.open(mode)),
                None => if self.last_word.len() == 0 {
                    Err(ParseErrorView::EmptySpecifier)
                } else {
                    Err(ParseErrorView::UnknownKeyword(self.last_word))
                },
            }
        } else {
            Ok(self.take(c))
        }
    }

    /// What the characters of `body`, one after the other, make of the
    /// state; the error of the first character that has one.
    pub open spec fn scan(self, body: Seq<char>) -> Result<ClausesView, ParseErrorView>
        decreases body.len(),
    {
        if body.len() == 0 {
            Ok(self)
        } else {
            match self.step(body[0]) {
                Ok(next) => next.scan(body.drop_first()),
                Err(e) => Err(e),
            }
        }
    }
}

/// Moves a style clause that holds something to the closed ones.
fn push_style(style: &mut String, styles: &mut Vec<String>)
    ensures
        final(style)@ == Seq::<char>::empty(),
        final(styles).deep_view() == if old(style)@.len() > 0 {
            old(styles).deep_view().push(old(style)@)
        } else {
            old(styles).deep_view()
        },
{
    if !style.as_str().is_empty() {
        styles.push(style.clone());
        *style = String::new();
    }
}

impl Clauses {
    /// Nothing read yet.
    pub fn new() -> (clauses: Clauses)
        ensures
            clauses@ == ClausesView::start(),
    {
        let clauses = Clauses {
            mode: None,
            text: String::new(),
            color: String::new(),
            style: String::new(),
            styles: Vec::new(),
            last_word: String::new(),
        };
        assert(clauses.styles.deep_view() == Seq::<Seq<char>>::empty());
        clauses
    }

    /// Closes the open style clause.
    fn close_style(&mut self)
        ensures
            final(self)@ == old(self)@.close_style(),
    {
        push_style(&mut self.style, &mut self.styles);
        assert(self.style@ == old(self)@.close_style().style);
    }

    /// Opens the clause of `mode`.
    fn open(&mut self, mode: ParserMode)
        ensures
            final(self)@ == old(self)@.open(mode),
    {
        self.close_style();
        self.mode = Some(mode);
    }

    /// Reads one more character of the body.
    pub fn step(&mut self, c: char) -> (result: Result<(), ParseError>)
        ensures
            match old(self)@.step(c) {
                Ok(next) => result is Ok && final(self)@ == next,
                Err(e) => result matches Err(x) && x@ == e,
            },
    {
        if c == '#' {
            self.open(ParserMode::ColorMode);
        } else if c == '%' {
            self.open(ParserMode::IndexMode);
        } else if c == '!' {
            self.open(ParserMode::StyleMode);
        } else if c == ' ' || c == '\t' {
            self.last_word = String::new();
            self.mode = None;
        } else if c == '=' {
            let word = chars_of(self.last_word.as_str());
            if spells(&word, "color") {
                self.open(ParserMode::ColorMode);
            } else if spells(&word, "index") {
                self.open(ParserMode::IndexMode);
            } else if spells(&word, "style") {
                self.open(ParserMode::StyleMode);
            } else if word.len() == 0 {
                return Err(ParseError::EmptySpecifier);
            } else {
                return Err(ParseError::UnknownKeyword(self.last_word.clone()));
            }
        } else {
            self.last_word.push(c);
            match self.mode {
                Some(ParserMode::IndexMode) => self.text.push(c),
                Some(ParserMode::ColorMode) => self.color.push(c),
                Some(ParserMode::StyleMode) => self.style.push(c),
                None => {},
            }
        }
        Ok(())
    }
}

/// Which argument the index clause `text` asks for. White space around the
/// number does not count. No number asks for the next positional argument.
pub open spec fn selector_of(text: Seq<char>) -> Result<TextView, ParseErrorView> {
    let number = trimmed(text);
    if number.len() == 0 {
        Ok(TextView::Positional)
    } else {
        match unsigned_up_to(number, 10, usize::MAX as nat) {
            Some(n) => Ok(TextView::Indexed(n)),
            None => Err(ParseErrorView::InvalidIndex(text)),
        }
    }
}

/// Reads the index clause.
fn parse_index(text: &str) -> (result: Result<Text, ParseError>)
    ensures
        match selector_of(text@) {
            Ok(selector) => result matches Ok(found) && found@ == selector,
            Err(e) => result matches Err(x) && x@ == e,
        },
{
    let number = trim(text);
    if number.as_str().is_empty() {
        Ok(Text::Positional)
    } else {
        match parse_unsigned(number.as_str(), 10, usize::MAX as u64) {
            Some(n) => Ok(Text::Indexed(n as usize)),
            None => Err(ParseError::InvalidIndex(text.to_owned())),
        }
    }
}

/// The placeholder that the clauses in `clauses` describe. Of several
/// errors the one of the colors is reported before the one of the styles,
/// and that before the one of the index.
pub open spec fn assembled(clauses: ClausesView) -> Result<PartView, ParseErrorView> {
    let closed = clauses.close_style();
    match colors_of(closed.color) {
        Ok(color) => match styles_of(closed.styles) {
            Ok(styles) => match selector_of(closed.text) {
                Ok(text) => Ok(PartView::Specification { text, color, styles }),
                Err(e) => Err(e),
            },
            Err(e) => Err(e),
        },
        Err(e) => Err(e),
    }
}

/// The placeholder with the body `body`. The empty body is the positional
/// placeholder with no color and no style.
pub open spec fn part_of_body(body: Seq<char>) -> Result<PartView, ParseErrorView> {
    if body.len() == 0 {
        Ok(PartView::positional())
    } else {
        match ClausesView::start().scan(body) {
            Ok(clauses) => assembled(clauses),
            Err(e) => Err(e),
        }
    }
}

/// The view of a part or an error.
pub open spec fn part_result(result: Result<Part, ParseError>) -> Result<PartView, ParseErrorView> {
    match result {
        Ok(part) => Ok(part@),
        Err(e) => Err(e@),
    }
}

/// Parses the body of a placeholder.
pub fn parse_spec(spec: &str) -> (result: Result<Part, ParseError>)
    ensures
        part_result(result) == part_of_body(spec@),
{
    if spec.is_empty() {
        return Ok(Part::positional());
    }
    let body = chars_of(spec);
    let mut clauses = Clauses::new();
    let mut i: usize = 0;
    assert(body@.subrange(0, body.len() as int) == body@);
    while i < body.len()
        invariant
            i <= body.len(),
            body@ == spec@,
            spec@.len() > 0,
            ClausesView::start().scan(body@) == clauses@.scan(
                body@.subrange(i as int, body.len() as int),
            ),
        decreases body.len() - i,
    {
        assert(body@.subrange(i as int, body.len() as int).drop_first() == body@.subrange(
            i + 1,
            body.len() as int,
        ));
        clauses.step(body[i])?;
        i += 1;
    }
    clauses.close_style();
    let Clauses { mode: _, text, color, style: _, styles, last_word: _ } = clauses;
    let color_spec = parse_color(color.as_str())?;
    let style_spec = parse_style(styles)?;
    let text_spec = parse_index(text.as_str())?;
    Ok(Part::Specification { text: text_spec, color: color_spec, styles: style_spec })
}

/// The first index from `i` on at which `s` holds a brace; the length of
/// `s` where no brace follows.
pub open spec fn brace_from(s: Seq<char>, i: int) -> int
    decreases s.len() - i,
{
    if i < 0 || i >= s.len() {
        s.len() as int
    } else if s[i] == '{' || s[i] == '}' {
        i
    } else {
        brace_from(s, i + 1)
    }
}

/// Where `brace_from` lands.
pub proof fn brace_from_bounds(s: Seq<char>, i: int)
    requires
        0 <= i <= s.len(),
    ensures
        i <= brace_from(s, i) <= s.len(),
        forall|k: int| i <= k < brace_from(s, i) ==> s[k] != '{' && s[k] != '}',
    decreases s.len() - i,
{
    if i < s.len() && s[i] != '{' && s[i] != '}' {
        brace_from_bounds(s, i + 1);
    }
}

/// The placeholder whose body starts at `start`, just after its `{`, and
/// the index just after its `}`. The body runs to the next brace, which has
/// to be a `}`.
pub open spec fn placeholder(s: Seq<char>, start: int) -> Result<(PartView, int), ParseErrorView> {
    let close = brace_from(s, start);
    if close >= s.len() {
        Err(ParseErrorView::UnbalancedBraces)
    } else if s[close] == '{' {
        Err(ParseErrorView::NestedSpecifier)
    } else {
        match part_of_body(s.subrange(start, close)) {
            Ok(part) => Ok((part, close + 1)),
            Err(e) => Err(e),
        }
    }
}

/// Parses the placeholder whose body starts at `start`, just after its `{`.
/// Returns the placeholder and the index just after its `}`.
pub fn parse_format_in_spec_mode(chars: &Vec<char>, start: usize) -> (result: Result<
    (Part, usize),
    ParseError,
>)
    ensures
        match placeholder(chars@, start as int) {
            Ok((part, next)) => result matches Ok((found, after)) && found@ == part && after
                == next,
            Err(e) => result matches Err(x) && x@ == e,
        },
{
    let mut i: usize = start;
    while i < chars.len() && chars[i] != '{' && chars[i] != '}'
        invariant
            start <= i,
            brace_from(chars@, start as int) == brace_from(chars@, i as int),
        decreases chars.len() - i,
    {
        i += 1;
    }
    if i >= chars.len() {
        return Err(ParseError::UnbalancedBraces);
    }
    if chars[i] == '{' {
        return Err(ParseError::NestedSpecifier);
    }
    let so_far = string_of(chars, start, i);
    let part = parse_spec(so_far.as_str())?;
    Ok((part, i + 1))
}

/// The character that a backslash and `c` stand for.
pub open spec fn unescaped(c: char) -> Option<char> {
    if c == 'a' {
        Some('\x07')
    } else if c == 'b' {
        Some('\x08')
    } else if c == 't' {
        Some('\x09')
    } else if c == 'n' {
        Some('\x0a')
    } else if c == 'v' {
        Some('\x0b')
    } else if c == 'f' {
        Some('\x0c')
    } else if c == 'r' {
        Some('\x0d')
    } else if c == 'e' {
        Some('\x1b')
    } else if c == '\\' || c == '{' || c == '}' {
        Some(c)
    } else {
        None
    }
}

/// The character that a backslash and `c` stand for.
fn unescape(c: char) -> (decoded: Option<char>)
    ensures
        decoded == unescaped(c),
{
    if c == 'a' {
        Some('\x07')
    } else if c == 'b' {
        Some('\x08')
    } else if c == 't' {
        Some('\x09')
    } else if c == 'n' {
        Some('\x0a')
    } else if c == 'v' {
        Some('\x0b')
    } else if c == 'f' {
        Some('\x0c')
    } else if c == 'r' {
        Some('\x0d')
    } else if c == 'e' {
        Some('\x1b')
    } else if c == '\\' || c == '{' || c == '}' {
        Some(c)
    } else {
        None
    }
}

/// The literal text that starts at `i`, with its escapes decoded, and the
/// index at which it ends: that of the first `{` that no backslash escapes,
/// or the length of `s`. A backslash at the very end stands for nothing.
pub open spec fn literal_run(s: Seq<char>, i: int) -> Result<(Seq<char>, int), ParseErrorView>
    decreases s.len() - i,
{
    if i < 0 || i >= s.len() {
        Ok((Seq::empty(), s.len() as int))
    } else if s[i] == '{' {
        Ok((Seq::empty(), i))
    } else if s[i] == '\\' {
        if i + 1 >= s.len() {
            Ok((Seq::empty(), s.len() as int))
        } else {
            match unescaped(s[i + 1]) {
                Some(c) => match literal_run(s, i + 2) {
                    Ok((rest, end)) => Ok((seq![c] + rest, end)),
                    Err(e) => Err(e),
                },
                None => Err(ParseErrorView::InvalidEscape(s[i + 1])),
            }
        }
    } else {
        match literal_run(s, i + 1) {
            Ok((rest, end)) => Ok((seq![s[i]] + rest, end)),
            Err(e) => Err(e),
        }
    }
}

/// A literal run ends at or after its start, within the string, and on a
/// `{` where it ends before the end of the string.
pub proof fn literal_run_bounds(s: Seq<char>, i: int)
    requires
        0 <= i <= s.len(),
    ensures
        literal_run(s, i) matches Ok((_, end)) ==> i <= end <= s.len() && (end < s.len() ==> s[end]
            == '{'),
    decreases s.len() - i,
{
    if i < s.len() && s[i] != '{' {
        if s[i] == '\\' {
            if i + 1 < s.len() && unescaped(s[i + 1]) is Some {
                literal_run_bounds(s, i + 2);
            }
        } else {
            literal_run_bounds(s, i + 1);
        }
    }
}

/// `text` before what a literal run gives.
pub open spec fn after_text(
    text: Seq<char>,
    run: Result<(Seq<char>, int), ParseErrorView>,
) -> Result<(Seq<char>, int), ParseErrorView> {
    match run {
        Ok((rest, end)) => Ok((text + rest, end)),
        Err(e) => Err(e),
    }
}

/// Reads the literal text that starts at `start`.
fn parse_literal(chars: &Vec<char>, start: usize) -> (result: Result<(String, usize), ParseError>)
    requires
        start <= chars.len(),
    ensures
        match literal_run(chars@, start as int) {
            Ok((text, end)) => result matches Ok((found, at)) && found@ == text && at == end,
            Err(e) => result matches Err(x) && x@ == e,
        },
{
    let mut so_far = String::new();
    let mut i: usize = start;
    loop
        invariant
            start <= i <= chars.len(),
            literal_run(chars@, start as int) == after_text(so_far@, literal_run(chars@, i as int)),
        decreases chars.len() - i,
    {
        if i >= chars.len() {
            return Ok((so_far, i));
        }
        let c = chars[i];
        if c == '{' {
            return Ok((so_far, i));
        }
        let ghost before = so_far@;
        if c == '\\' {
            if i + 1 >= chars.len() {
                return Ok((so_far, chars.len()));
            }
            match unescape(chars[i + 1]) {
                Some(decoded) => {
                    so_far.push(decoded);
                    assert(forall|rest: Seq<char>|
                        before + (seq![decoded] + rest) == before.push(decoded) + rest);
                },
                None => {
                    return Err(ParseError::InvalidEscape(chars[i + 1]));
                },
            }
            i += 2;
        } else {
            so_far.push(c);
            assert(forall|rest: Seq<char>| before + (seq![c] + rest) == before.push(c) + rest);
            i += 1;
        }
    }
}

/// The parts of `s` from index `i` on: the literal text up to the next
/// placeholder, if there is any text, the placeholder, and so on. The
/// error that comes first in the string is the one reported.
pub open spec fn parts_from(s: Seq<char>, i: int) -> Result<Seq<PartView>, ParseErrorView>
    decreases s.len() - i,
{
    if i < 0 || i >= s.len() {
        Ok(Seq::empty())
    } else {
        match literal_run(s, i) {
            Ok((text, end)) => {
                let head = if text.len() > 0 {
                    seq![PartView::Literal(text)]
                } else {
                    Seq::empty()
                };
                if end >= s.len() {
                    Ok(head)
                } else {
                    match placeholder(s, end + 1) {
                        Ok((part, next)) => {
                            proof {
                                literal_run_bounds(s, i);
                                brace_from_bounds(s, end + 1);
                            }
                            match parts_from(s, next) {
                                Ok(rest) => Ok(head.push(part) + rest),
                                Err(e) => Err(e),
                            }
                        },
                        Err(e) => Err(e),
                    }
                }
            },
            Err(e) => Err(e),
        }
    }
}

/// The parts of the format string `format`.
pub open spec fn parsed(format: Seq<char>) -> Result<Seq<PartView>, ParseErrorView> {
    parts_from(format, 0)
}

/// `parts` before what the rest of a format gives.
pub open spec fn after_parts(
    parts: Seq<PartView>,
    rest: Result<Seq<PartView>, ParseErrorView>,
) -> Result<Seq<PartView>, ParseErrorView> {
    match rest {
        Ok(more) => Ok(parts + more),
        Err(e) => Err(e),
    }
}

/// The view of parts or an error.
pub open spec fn parts_result(result: Result<Vec<Part>, ParseError>) -> Result<
    Seq<PartView>,
    ParseErrorView,
> {
    match result {
        Ok(parts) => Ok(parts.deep_view()),
        Err(e) => Err(e@),
    }
}

/// Parses a format string given by its characters.
pub fn parse_format_in_default_mode(chars: &Vec<char>) -> (result: Result<Vec<Part>, ParseError>)
    ensures
        parts_result(result) == parsed(chars@),
{
    let mut specs: Vec<Part> = Vec::new();
    let mut i: usize = 0;
    while i < chars.len()
        invariant
            i <= chars.len(),
            parsed(chars@) == after_parts(specs.deep_view(), parts_from(chars@, i as int)),
        decreases chars.len() - i,
    {
        let ghost before = specs.deep_view();
        proof {
            literal_run_bounds(chars@, i as int);
        }
        let (so_far, end) = parse_literal(chars, i)?;
        let ghost head = if so_far@.len() > 0 {
            seq![PartView::Literal(so_far@)]
        } else {
            Seq::empty()
        };
        if !so_far.as_str().is_empty() {
            specs.push(Part::Literal(so_far));
        }
        assert(specs.deep_view() == before + head);
        if end >= chars.len() {
            i = end;
        } else {
            proof {
                brace_from_bounds(chars@, end + 1);
            }
            let (part, next) = parse_format_in_spec_mode(chars, end + 1)?;
            let ghost listed = specs.deep_view();
            specs.push(part);
            assert(specs.deep_view() == listed.push(part@));
            assert(forall|rest: Seq<PartView>|
                before + (head.push(part@) + rest) == (before + head).push(part@) + rest);
            i = next;
        }
    }
    Ok(specs)
}

/// Parses a format string.
pub fn parse_format(format: &String) -> (result: Result<Vec<Part>, ParseError>)
    ensures
        parts_result(result) == parsed(format@),
{
    let chars = chars_of(format.as_str());
    parse_format_in_default_mode(&chars)
}

} // verus!
