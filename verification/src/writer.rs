//! Rendering: from parts and arguments to text with ANSI escape sequences.

use crate::error::RenderError;
use crate::model::{Color, Colors, Part, PartView, Style, Text, TextView};
use crate::text::{append_decimal, decimal, dropped, joined, joined_with_nothing};
use crate::trusted::{dropping, join};
use vstd::prelude::*;

verus! {

/// The SGR sequence with the parameters `params`: `ESC [ params m`.
pub open spec fn sgr(params: Seq<char>) -> Seq<char> {
    seq!['\x1b', '['] + params + seq!['m']
}

/// The sequence that resets every color and style: `ESC [ 0 m`.
pub open spec fn reset() -> Seq<char> {
    seq!['\x1b', '[', '0', 'm']
}

/// The codes of `styles` in their order, with `;` between each two.
pub open spec fn style_codes(styles: Seq<Style>) -> Seq<char>
    decreases styles.len(),
{
    if styles.len() == 0 {
        Seq::empty()
    } else if styles.len() == 1 {
        decimal(styles[0].sgr())
    } else {
        style_codes(styles.drop_last()) + seq![';'] + decimal(styles.last().sgr())
    }
}

/// What is written before the text of a placeholder. Styles and foreground
/// share one SGR sequence, the styles first; the background has a second
/// sequence of its own. Without style and color nothing is written.
pub open spec fn prefix(color: Colors, styles: Seq<Style>) -> Seq<char> {
    let first = match color.foreground {
        Some(foreground) => sgr(
            style_codes(styles) + (if styles.len() > 0 {
                seq![';']
            } else {
                Seq::empty()
            }) + foreground.foreground_code(),
        ),
        None => if styles.len() > 0 {
            sgr(style_codes(styles))
        } else {
            Seq::empty()
        },
    };
    let second = match color.background {
        Some(background) => sgr(background.background_code()),
        None => Seq::empty(),
    };
    first + second
}

/// What is written after the text of a placeholder: a reset where a style or
/// a color was set, else nothing.
pub open spec fn suffix(color: Colors, styles: Seq<Style>) -> Seq<char> {
    if styles.len() > 0 || color.foreground is Some || color.background is Some {
        reset()
    } else {
        Seq::empty()
    }
}

/// Whether `part` is a placeholder that takes the next positional argument.
pub open spec fn is_positional(part: PartView) -> bool {
    part matches PartView::Specification { text: TextView::Positional, .. }
}

/// How many of `parts` are positional placeholders.
pub open spec fn positionals(parts: Seq<PartView>) -> nat
    decreases parts.len(),
{
    if parts.len() == 0 {
        0
    } else {
        positionals(parts.drop_last()) + if is_positional(parts.last()) {
            1nat
        } else {
            0nat
        }
    }
}

/// The index of the argument that a positional placeholder at `parts[k]`
/// takes: one more than the number of positional placeholders before it.
pub open spec fn cursor_at(parts: Seq<PartView>, k: int) -> nat {
    1 + positionals(parts.take(k))
}

/// The text that a placeholder stands for, `None` where it asks for an
/// argument that `args` does not have. `cursor` is the index that a
/// positional placeholder takes.
pub open spec fn resolved(text: TextView, args: Seq<Seq<char>>, cursor: nat) -> Option<Seq<char>> {
    match text {
        TextView::Positional => if cursor < args.len() {
            Some(args[cursor as int])
        } else {
            None
        },
        TextView::Indexed(n) => if n < args.len() {
            Some(args[n as int])
        } else {
            None
        },
        TextView::AllArgs(separator) => Some(joined(dropped(args, 1), separator)),
    }
}

/// What one part contributes to the output.
pub open spec fn fragment(part: PartView, args: Seq<Seq<char>>, cursor: nat) -> Option<Seq<char>> {
    match part {
        PartView::Literal(text) => Some(text),
        PartView::Specification { text, color, styles } => match resolved(text, args, cursor) {
            Some(argument) => Some(prefix(color, styles) + argument + suffix(color, styles)),
            None => None,
        },
    }
}

/// What `parts[k]` contributes to the output.
pub open spec fn fragment_at(parts: Seq<PartView>, args: Seq<Seq<char>>, k: int) -> Option<
    Seq<char>,
> {
    fragment(parts[k], args, cursor_at(parts, k))
}

/// The fragments of all parts, where each part has one.
pub open spec fn fragments(parts: Seq<PartView>, args: Seq<Seq<char>>) -> Seq<Seq<char>> {
    Seq::new(parts.len(), |k: int| fragment_at(parts, args, k).unwrap())
}

/// The output for `parts` and `args`: the fragments of the parts one after
/// the other and a final reset; an error where a placeholder asks for an
/// argument that is not there.
pub open spec fn rendered(parts: Seq<PartView>, args: Seq<Seq<char>>) -> Result<
    Seq<char>,
    RenderError,
> {
    if forall|k: int| 0 <= k < parts.len() ==> (#[trigger] fragment_at(parts, args, k)) is Some {
        Ok(fragments(parts, args).flatten() + reset())
    } else {
        Err(RenderError::IndexOutOfRange)
    }
}

/// Appends `ESC [`.
fn open_sequence(out: &mut String)
    ensures
        final(out)@ == old(out)@ + seq!['\x1b', '['],
{
    out.push('\x1b');
    out.push('[');
    assert(out@ == old(out)@ + seq!['\x1b', '[']);
}

/// Appends the reset sequence.
fn append_reset(out: &mut String)
    ensures
        final(out)@ == old(out)@ + reset(),
{
    open_sequence(out);
    out.push('0');
    out.push('m');
}

/// Appends the codes of `styles`, with `;` between each two.
fn append_style_codes(out: &mut String, styles: &Vec<Style>)
    ensures
        final(out)@ == old(out)@ + style_codes(styles@),
{
    let mut i: usize = 0;
    while i < styles.len()
        invariant
            i <= styles.len(),
            out@ == old(out)@ + style_codes(styles@.take(i as int)),
        decreases styles.len() - i,
    {
        assert(styles@.take(i + 1).drop_last() == styles@.take(i as int));
        if i > 0 {
            out.push(';');
        }
        append_decimal(out, styles[i].code() as u16);
        i += 1;
    }
    assert(styles@.take(i as int) == styles@);
}

/// What is written before the text of a placeholder.
fn prefix_of(color: &Colors, styles: &Vec<Style>) -> (pre: String)
    ensures
        pre@ == prefix(*color, styles@),
{
    let mut pre = String::new();
    if styles.len() > 0 || color.foreground.is_some() {
        open_sequence(&mut pre);
        append_style_codes(&mut pre, styles);
        match &color.foreground {
            Some(foreground) => {
                if styles.len() > 0 {
                    pre.push(';');
                }
                let code = foreground.escape_code();
                pre.append(code.as_str());
            },
            None => {},
        }
        pre.push('m');
    }
    match &color.background {
        Some(background) => {
            open_sequence(&mut pre);
            let code = background.as_ansi_background_escape_code();
            pre.append(code.as_str());
            pre.push('m');
        },
        None => {},
    }
    pre
}

/// The text that a placeholder stands for.
fn resolve(selector: &Text, inputs: &[String], cursor: usize) -> (text: Option<String>)
    ensures
        text.deep_view() == resolved(selector@, inputs.deep_view(), cursor as nat),
{
    match selector {
        Text::Indexed(i) => {
            if *i < inputs.len() {
                Some(inputs[*i].clone())
            } else {
                None
            }
        },
        Text::AllArgs(separator) => {
            let rest = dropping(inputs, 1);
            Some(join(rest.as_slice(), separator.as_str()))
        },
        Text::Positional => {
            if cursor < inputs.len() {
                Some(inputs[cursor].clone())
            } else {
                None
            }
        },
    }
}

/// Renders `specs` against `inputs`. `inputs[0]` is the place of the format
/// itself; the arguments that placeholders stand for start at index 1.
pub fn spec_to_ansi(inputs: &[String], specs: Vec<Part>) -> (result: Result<String, RenderError>)
    ensures
        match rendered(specs.deep_view(), inputs.deep_view()) {
            Ok(text) => result matches Ok(out) && out@ == text,
            Err(e) => result == Err::<String, RenderError>(e),
        },
{
    let ghost parts = specs.deep_view();
    let ghost args = inputs.deep_view();
    let mut pieces: Vec<String> = Vec::new();
    let mut position: usize = 0;
    let mut i: usize = 0;
    while i < specs.len()
        invariant
            i <= specs.len(),
            parts == specs.deep_view(),
            args == inputs.deep_view(),
            position == positionals(parts.take(i as int)),
            position <= i,
            pieces.len() == i,
            forall|k: int| 0 <= k < i ==> (#[trigger] fragment_at(parts, args, k)) is Some,
            forall|k: int|
                0 <= k < i ==> (#[trigger] pieces@[k])@ == fragment_at(parts, args, k).unwrap(),
        decreases specs.len() - i,
    {
        assert(parts.take(i + 1).drop_last() == parts.take(i as int));
        let piece = match &specs[i] {
            Part::Literal(literal) => literal.clone(),
            Part::Specification { text: selector, color, styles } => {
                let pre = prefix_of(color, styles);
                let mut post = String::new();
                if styles.len() > 0 || color.foreground.is_some() || color.background.is_some() {
                    append_reset(&mut post);
                }
                let argument = match resolve(selector, inputs, position + 1) {
                    Some(argument) => argument,
                    None => {
                        assert(fragment_at(parts, args, i as int) is None);
                        return Err(RenderError::IndexOutOfRange);
                    },
                };
                match selector {
                    Text::Positional => {
                        position += 1;
                    },
                    _ => {},
                }
                let mut full = pre;
                full.append(argument.as_str());
                full.append(post.as_str());
                full
            },
        };
        pieces.push(piece);
        i += 1;
    }
    assert(pieces.deep_view() == fragments(parts, args));
    let mut result = join(pieces.as_slice(), "");
    proof {
        reveal_strlit("");
        assert(""@ == Seq::<char>::empty());
        joined_with_nothing(fragments(parts, args));
    }
    append_reset(&mut result);
    Ok(result)
}

} // verus!
