//! The style clauses of a placeholder: names of styles with commas between
//! them, or a run of single letters.

use crate::error::{ParseError, ParseErrorView};
use crate::model::Style;
use crate::text::{chars_of, spells, trim, trimmed};
use crate::trusted::{lowercase, to_lowercase};
use vstd::prelude::*;

verus! {

/// The pieces of `s` between its commas: one more piece than it has commas.
pub open spec fn split_commas(s: Seq<char>) -> Seq<Seq<char>>
    decreases s.len(),
{
    if s.len() == 0 {
        seq![Seq::empty()]
    } else {
        let before = split_commas(s.drop_last());
        if s.last() == ',' {
            before.push(Seq::empty())
        } else {
            before.drop_last().push(before.last().push(s.last()))
        }
    }
}

/// `split_commas` never returns an empty sequence.
pub proof fn split_commas_has_pieces(s: Seq<char>)
    ensures
        split_commas(s).len() > 0,
    decreases s.len(),
{
    if s.len() > 0 {
        split_commas_has_pieces(s.drop_last());
    }
}

/// Appends the pieces of `s` between its commas to `tokens`.
fn append_pieces(tokens: &mut Vec<String>, s: &str)
    ensures
        final(tokens).deep_view() == old(tokens).deep_view() + split_commas(s@),
{
    let chars = chars_of(s);
    let mut piece = String::new();
    let mut i: usize = 0;
    while i < chars.len()
        invariant
            i <= chars.len(),
            tokens.deep_view().push(piece@) == old(tokens).deep_view() + split_commas(
                chars@.take(i as int),
            ),
        decreases chars.len() - i,
    {
        let ghost before = split_commas(chars@.take(i as int));
        let ghost listed = tokens.deep_view();
        proof {
            split_commas_has_pieces(chars@.take(i as int));
            assert(chars@.take(i + 1).drop_last() == chars@.take(i as int));
            assert(listed.push(piece@).last() == piece@);
            assert(listed == old(tokens).deep_view() + before.drop_last()) by {
                assert((old(tokens).deep_view() + before).drop_last() == old(tokens).deep_view()
                    + before.drop_last());
            }
        }
        if chars[i] == ',' {
            tokens.push(piece);
            piece = String::new();
            assert(tokens.deep_view() == listed.push(before.last()));
        } else {
            piece.push(chars[i]);
        }
        i += 1;
    }
    assert(chars@.take(i as int) == chars@);
    tokens.push(piece);
}

/// The tokens of style clauses: the pieces between the commas of each
/// clause, in the order of the clauses.
pub open spec fn style_tokens(clauses: Seq<Seq<char>>) -> Seq<Seq<char>>
    decreases clauses.len(),
{
    if clauses.len() == 0 {
        Seq::empty()
    } else {
        style_tokens(clauses.drop_last()) + split_commas(clauses.last())
    }
}

/// The style that `name` is a name of.
pub open spec fn style_named(name: Seq<char>) -> Option<Style> {
    if name == "strong"@ || name == "s"@ || name == "bold"@ {
        Some(Style::Strong)
    } else if name == "dim"@ || name == "d"@ || name == "faint"@ {
        Some(Style::Dim)
    } else if name == "italic"@ || name == "i"@ {
        Some(Style::Italic)
    } else if name == "underline"@ || name == "u"@ {
        Some(Style::Underline)
    } else if name == "blink"@ || name == "b"@ || name == "blinking"@ {
        Some(Style::Blink)
    } else if name == "reversed"@ || name == "r"@ || name == "reverse"@ || name == "invert"@
        || name == "inverted"@ || name == "inverse"@ {
        Some(Style::Reversed)
    } else if name == "hidden"@ || name == "h"@ || name == "invisible"@ {
        Some(Style::Hidden)
    } else if name == "crossed-out"@ || name == "c"@ || name == "strikethrough"@ || name
        == "strike"@ {
        Some(Style::CrossedOut)
    } else {
        None
    }
}

/// Looks `name` up among the names of the styles.
fn named(name: &Vec<char>) -> (style: Option<Style>)
    ensures
        style == style_named(name@),
{
    if spells(name, "strong") || spells(name, "s") || spells(name, "bold") {
        Some(Style::Strong)
    } else if spells(name, "dim") || spells(name, "d") || spells(name, "faint") {
        Some(Style::Dim)
    } else if spells(name, "italic") || spells(name, "i") {
        Some(Style::Italic)
    } else if spells(name, "underline") || spells(name, "u") {
        Some(Style::Underline)
    } else if spells(name, "blink") || spells(name, "b") || spells(name, "blinking") {
        Some(Style::Blink)
    } else if spells(name, "reversed") || spells(name, "r") || spells(name, "reverse") || spells(
        name,
        "invert",
    ) || spells(name, "inverted") || spells(name, "inverse") {
        Some(Style::Reversed)
    } else if spells(name, "hidden") || spells(name, "h") || spells(name, "invisible") {
        Some(Style::Hidden)
    } else if spells(name, "crossed-out") || spells(name, "c") || spells(name, "strikethrough")
        || spells(name, "strike") {
        Some(Style::CrossedOut)
    } else {
        None
    }
}

/// The style that the single letter `c` stands for.
pub open spec fn style_lettered(c: char) -> Option<Style> {
    if c == 's' {
        Some(Style::Strong)
    } else if c == 'd' {
        Some(Style::Dim)
    } else if c == 'i' {
        Some(Style::Italic)
    } else if c == 'u' {
        Some(Style::Underline)
    } else if c == 'b' {
        Some(Style::Blink)
    } else if c == 'r' {
        Some(Style::Reversed)
    } else if c == 'h' {
        Some(Style::Hidden)
    } else if c == 'c' {
        Some(Style::CrossedOut)
    } else {
        None
    }
}

/// Looks `c` up among the letters of the styles.
fn lettered(c: char) -> (style: Option<Style>)
    ensures
        style == style_lettered(c),
{
    if c == 's' {
        Some(Style::Strong)
    } else if c == 'd' {
        Some(Style::Dim)
    } else if c == 'i' {
        Some(Style::Italic)
    } else if c == 'u' {
        Some(Style::Underline)
    } else if c == 'b' {
        Some(Style::Blink)
    } else if c == 'r' {
        Some(Style::Reversed)
    } else if c == 'h' {
        Some(Style::Hidden)
    } else if c == 'c' {
        Some(Style::CrossedOut)
    } else {
        None
    }
}

/// The styles that a run of letters stands for, one for each letter; `None`
/// where the run is empty or a letter stands for no style.
pub open spec fn letter_styles(letters: Seq<char>) -> Option<Seq<Style>> {
    if letters.len() > 0 && forall|i: int|
        0 <= i < letters.len() ==> (#[trigger] style_lettered(letters[i])) is Some {
        Some(Seq::new(letters.len(), |i: int| style_lettered(letters[i]).unwrap()))
    } else {
        None
    }
}

/// The styles that a token in lower case names. White space around it does
/// not count. What is left is the name of one style, or else stands for one
/// style with each of its letters.
pub open spec fn lowered_styles(lowered: Seq<char>) -> Option<Seq<Style>> {
    let key = trimmed(lowered);
    match style_named(key) {
        Some(style) => Some(seq![style]),
        None => letter_styles(key),
    }
}

/// Reads a token in lower case.
pub fn styles_of_lowered(lowered: &str) -> (styles: Option<Vec<Style>>)
    ensures
        match lowered_styles(lowered@) {
            Some(named) => styles matches Some(found) && found@ == named,
            None => styles is None,
        },
{
    let key = trim(lowered);
    let letters = chars_of(key.as_str());
    let mut styles: Vec<Style> = Vec::new();
    match named(&letters) {
        Some(style) => {
            styles.push(style);
        },
        None => {
            if letters.len() == 0 {
                return None;
            }
            let mut i: usize = 0;
            while i < letters.len()
                invariant
                    i <= letters.len(),
                    letters@ == trimmed(lowered@),
                    style_named(letters@) is None,
                    styles.len() == i,
                    forall|k: int|
                        0 <= k < i ==> (#[trigger] style_lettered(letters@[k])) == Some(styles@[k]),
                decreases letters.len() - i,
            {
                match lettered(letters[i]) {
                    Some(style) => {
                        styles.push(style);
                    },
                    None => {
                        return None;
                    },
                }
                i += 1;
            }
        },
    }
    Some(styles)
}

/// The styles that one token names. Case does not count, nor white space
/// around the token.
pub open spec fn token_styles(token: Seq<char>) -> Result<Seq<Style>, ParseErrorView> {
    match lowered_styles(lowercase(token)) {
        Some(styles) => Ok(styles),
        None => Err(ParseErrorView::UnknownStyle(token)),
    }
}

/// The styles that `tokens` name, in the order of the tokens; the error of
/// the first token that names none.
pub open spec fn tokens_styles(tokens: Seq<Seq<char>>) -> Result<Seq<Style>, ParseErrorView>
    decreases tokens.len(),
{
    if tokens.len() == 0 {
        Ok(Seq::empty())
    } else {
        match tokens_styles(tokens.drop_last()) {
            Ok(before) => match token_styles(tokens.last()) {
                Ok(more) => Ok(before + more),
                Err(e) => Err(e),
            },
            Err(e) => Err(e),
        }
    }
}

/// The styles that the style clauses of a placeholder name.
pub open spec fn styles_of(clauses: Seq<Seq<char>>) -> Result<Seq<Style>, ParseErrorView> {
    tokens_styles(style_tokens(clauses))
}

/// The view of what `parse_style` returns.
pub open spec fn styles_result(result: Result<Vec<Style>, ParseError>) -> Result<
    Seq<Style>,
    ParseErrorView,
> {
    match result {
        Ok(styles) => Ok(styles@),
        Err(e) => Err(e@),
    }
}

/// Reads the style clauses of a placeholder.
pub fn parse_style(styles: Vec<String>) -> (result: Result<Vec<Style>, ParseError>)
    ensures
        styles_result(result) == styles_of(styles.deep_view()),
{
    let ghost clauses = styles.deep_view();
    let mut normalized: Vec<String> = Vec::new();
    let mut i: usize = 0;
    while i < styles.len()
        invariant
            i <= styles.len(),
            clauses == styles.deep_view(),
            normalized.deep_view() == style_tokens(clauses.take(i as int)),
        decreases styles.len() - i,
    {
        assert(clauses.take(i + 1).drop_last() == clauses.take(i as int));
        append_pieces(&mut normalized, styles[i].as_str());
        i += 1;
    }
    assert(clauses.take(i as int) == clauses);
    let ghost tokens = normalized.deep_view();
    let mut found: Vec<Style> = Vec::new();
    let mut k: usize = 0;
    while k < normalized.len()
        invariant
            k <= normalized.len(),
            tokens == normalized.deep_view(),
            tokens == style_tokens(styles.deep_view()),
            tokens_styles(tokens.take(k as int)) == Ok::<Seq<Style>, ParseErrorView>(found@),
        decreases normalized.len() - k,
    {
        assert(tokens.take(k + 1).drop_last() == tokens.take(k as int));
        let lowered = to_lowercase(normalized[k].as_str());
        match styles_of_lowered(lowered.as_str()) {
            Some(mut more) => {
                found.append(&mut more);
            },
            None => {
                proof {
                    tokens_styles_keeps_error(tokens, k + 1);
                }
                return Err(ParseError::UnknownStyle(normalized[k].clone()));
            },
        }
        k += 1;
    }
    assert(tokens.take(k as int) == tokens);
    Ok(found)
}

/// An error among the first `k` tokens is the error of all the tokens.
proof fn tokens_styles_keeps_error(tokens: Seq<Seq<char>>, k: int)
    requires
        0 <= k <= tokens.len(),
        tokens_styles(tokens.take(k)) is Err,
    ensures
        tokens_styles(tokens) == tokens_styles(tokens.take(k)),
    decreases tokens.len() - k,
{
    if k == tokens.len() {
        assert(tokens.take(k) == tokens);
    } else {
        assert(tokens.take(k + 1).drop_last() == tokens.take(k));
        tokens_styles_keeps_error(tokens, k + 1);
    }
}

} // verus!
