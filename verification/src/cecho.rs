//! The whole of a call: from the arguments of the program to what it prints.

use crate::error::{EchoError, EchoErrorView};
use crate::parser::{parse_format, parsed};
use crate::writer::{rendered, spec_to_ansi};
use vstd::prelude::*;

verus! {

/// What a call with the arguments `inputs` prints. The first argument is
/// the format. Where it is empty, the other arguments are written one after
/// the other as they are; else it is parsed, and its parts are rendered
/// against all the arguments.
pub open spec fn echoed(inputs: Seq<Seq<char>>) -> Result<Seq<char>, EchoErrorView> {
    if inputs.len() < 2 {
        Err(EchoErrorView::TooFewArguments)
    } else if inputs[0].len() == 0 {
        Ok(inputs.skip(1).flatten())
    } else {
        match parsed(inputs[0]) {
            Ok(parts) => match rendered(parts, inputs) {
                Ok(text) => Ok(text),
                Err(e) => Err(EchoErrorView::Render(e)),
            },
            Err(e) => Err(EchoErrorView::Parse(e)),
        }
    }
}

/// The view of a text or an error.
pub open spec fn echo_result(result: Result<String, EchoError>) -> Result<
    Seq<char>,
    EchoErrorView,
> {
    match result {
        Ok(text) => Ok(text@),
        Err(e) => Err(e@),
    }
}

/// Formats `inputs[1..]` by the format `inputs[0]`.
pub fn cecho(inputs: Vec<String>) -> (result: Result<String, EchoError>)
    ensures
        echo_result(result) == echoed(inputs.deep_view()),
{
    let ghost args = inputs.deep_view();
    if inputs.len() < 2 {
        Err(EchoError::TooFewArguments)
    } else if inputs[0].as_str().is_empty() {
        let mut result = String::new();
        let mut i: usize = 1;
        while i < inputs.len()
            invariant
                1 <= i <= inputs.len(),
                args == inputs.deep_view(),
                result@ == args.skip(1).take(i - 1).flatten(),
            decreases inputs.len() - i,
        {
            result.append(inputs[i].as_str());
            proof {
                let before = args.skip(1).take(i - 1);
                assert(args.skip(1).take(i as int) == before.push(inputs@[i as int]@));
                before.lemma_flatten_push(inputs@[i as int]@);
            }
            i += 1;
        }
        assert(args.skip(1).take(i - 1) == args.skip(1));
        Ok(result)
    } else {
        match parse_format(&inputs[0]) {
            Err(m) => Err(EchoError::Parse(m)),
            Ok(specs) => match spec_to_ansi(inputs.as_slice(), specs) {
                Ok(text) => Ok(text),
                Err(e) => Err(EchoError::Render(e)),
            },
        }
    }
}

} // verus!
