//! What can go wrong: in a format string, in rendering, in a whole call.

use vstd::prelude::*;

verus! {

/// Why a format string was rejected.
#[derive(PartialEq, Eq, Debug)]
pub enum ParseError {
    /// A placeholder is opened by `{` and the format ends before its `}`.
    UnbalancedBraces,
    /// A `{` stands inside a placeholder.
    NestedSpecifier,
    /// A backslash is followed by this character, which it cannot escape.
    InvalidEscape(char),
    /// The index of a placeholder, as written, is no decimal number that fits
    /// a `usize`.
    InvalidIndex(String),
    /// This side of a color clause names no color.
    UnknownColor(String),
    /// This token of a style clause names no style.
    UnknownStyle(String),
    /// This word stands before `=` and is none of `index`, `color`, `style`.
    UnknownKeyword(String),
    /// A `=` stands where no word precedes it.
    EmptySpecifier,
}

/// A `ParseError` with its text as a sequence of characters.
pub enum ParseErrorView {
    UnbalancedBraces,
    NestedSpecifier,
    InvalidEscape(char),
    InvalidIndex(Seq<char>),
    UnknownColor(Seq<char>),
    UnknownStyle(Seq<char>),
    UnknownKeyword(Seq<char>),
    EmptySpecifier,
}

impl View for ParseError {
    type V = ParseErrorView;

    open spec fn view(&self) -> ParseErrorView {
        match self {
            ParseError::UnbalancedBraces => ParseErrorView::UnbalancedBraces,
            ParseError::NestedSpecifier => ParseErrorView::NestedSpecifier,
            ParseError::InvalidEscape(c) => ParseErrorView::InvalidEscape(*c),
            ParseError::InvalidIndex(t) => ParseErrorView::InvalidIndex(t@),
            ParseError::UnknownColor(t) => ParseErrorView::UnknownColor(t@),
            ParseError::UnknownStyle(t) => ParseErrorView::UnknownStyle(t@),
            ParseError::UnknownKeyword(t) => ParseErrorView::UnknownKeyword(t@),
            ParseError::EmptySpecifier => ParseErrorView::EmptySpecifier,
        }
    }
}

impl ParseErrorView {
    /// The sentence that tells a user of this error.
    pub open spec fn message(self) -> Seq<char> {
        match self {
            ParseErrorView::UnbalancedBraces => "The specifiers are imbalanced: missing }"@,
            ParseErrorView::NestedSpecifier => "Can't nest specifiers"@,
            ParseErrorView::InvalidEscape(c) => "Invalid escape sequence: \\"@.push(c),
            ParseErrorView::InvalidIndex(t) =>
                "Don't know how to interpret the text specification '"@ + t + "'"@,
            ParseErrorView::UnknownColor(t) => "Don't know how to interpret the color '"@ + t
                + "'"@,
            ParseErrorView::UnknownStyle(t) => "Don't know how to interpret the style '"@ + t
                + "'"@,
            ParseErrorView::UnknownKeyword(t) => "Don't know how to interpret the keyword '"@ + t
                + "' as a mode"@,
            ParseErrorView::EmptySpecifier => "The specifier names no mode before ="@,
        }
    }
}

/// `before`, `token` and `after` in a row.
fn quoted(before: &str, token: &str, after: &str) -> (text: String)
    ensures
        text@ == before@ + token@ + after@,
{
    let mut text = before.to_owned();
    text.append(token);
    text.append(after);
    text
}

impl ParseError {
    /// The sentence that tells a user of this error.
    pub fn message(&self) -> (text: String)
        ensures
            text@ == self@.message(),
    {
        match self {
            ParseError::UnbalancedBraces => "The specifiers are imbalanced: missing }".to_owned(),
            ParseError::NestedSpecifier => "Can't nest specifiers".to_owned(),
            ParseError::InvalidEscape(c) => {
                let mut text = "Invalid escape sequence: \\".to_owned();
                text.push(*c);
                text
            },
            ParseError::InvalidIndex(t) => quoted(
                "Don't know how to interpret the text specification '",
                t.as_str(),
                "'",
            ),
            ParseError::UnknownColor(t) => quoted(
                "Don't know how to interpret the color '",
                t.as_str(),
                "'",
            ),
            ParseError::UnknownStyle(t) => quoted(
                "Don't know how to interpret the style '",
                t.as_str(),
                "'",
            ),
            ParseError::UnknownKeyword(t) => quoted(
                "Don't know how to interpret the keyword '",
                t.as_str(),
                "' as a mode",
            ),
            ParseError::EmptySpecifier => "The specifier names no mode before =".to_owned(),
        }
    }
}

/// Why parts could not be rendered.
#[derive(Clone, Copy, PartialEq, Eq, Debug)]
pub enum RenderError {
    /// A placeholder asks for an argument at or beyond the end of the list.
    IndexOutOfRange,
}

impl RenderError {
    /// The sentence that tells a user of this error.
    pub open spec fn message_text(self) -> Seq<char> {
        "The format asks for an argument that was not given"@
    }

    /// The sentence that tells a user of this error.
    pub fn message(&self) -> (text: String)
        ensures
            text@ == self.message_text(),
    {
        "The format asks for an argument that was not given".to_owned()
    }
}

/// What is said of a call with fewer than two arguments.
pub const TOO_FEW_ARGUMENTS: &'static str =
    "The minimum number of arguments is 2. The first argument is the format. If no formatting is necessary, use an empty string.";

/// Why a call of `cecho` failed.
#[derive(PartialEq, Eq, Debug)]
pub enum EchoError {
    /// Fewer than two arguments were given.
    TooFewArguments,
    /// The format string was rejected.
    Parse(ParseError),
    /// The format asks for more arguments than were given.
    Render(RenderError),
}

/// An `EchoError` with its text as a sequence of characters.
pub enum EchoErrorView {
    TooFewArguments,
    Parse(ParseErrorView),
    Render(RenderError),
}

impl View for EchoError {
    type V = EchoErrorView;

    open spec fn view(&self) -> EchoErrorView {
        match self {
            EchoError::TooFewArguments => EchoErrorView::TooFewArguments,
            EchoError::Parse(e) => EchoErrorView::Parse(e@),
            EchoError::Render(e) => EchoErrorView::Render(*e),
        }
    }
}

impl EchoErrorView {
    /// The sentence that tells a user of this error.
    pub open spec fn message(self) -> Seq<char> {
        match self {
            EchoErrorView::TooFewArguments => TOO_FEW_ARGUMENTS@,
            EchoErrorView::Parse(e) => e.message(),
            EchoErrorView::Render(e) => e.message_text(),
        }
    }
}

impl EchoError {
    /// The sentence that tells a user of this error.
    pub fn message(&self) -> (text: String)
        ensures
            text@ == self@.message(),
    {
        match self {
            EchoError::TooFewArguments => TOO_FEW_ARGUMENTS.to_owned(),
            EchoError::Parse(e) => e.message(),
            EchoError::Render(e) => e.message(),
        }
    }
}

} // verus!
