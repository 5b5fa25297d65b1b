//! The pass over the body, as a mathematical function of the tokens.

use vstd::prelude::*;
use crate::parser::errors::ParserErrorView;
use crate::parser::style::{apply_control, ParserState, StyleBlockView};
use crate::tokens::{ControlWordView, TokenView};
use crate::unicode::{utf16_text, without_fallback};

verus! {

/// Whether a token stands for a code unit behind a Unicode escape: another
/// Unicode escape, or a byte escape.
pub open spec fn is_unit_token(token: TokenView) -> bool {
    match token {
        TokenView::ControlSymbol(ControlWordView::Unicode, _) => true,
        TokenView::EscapedChar(c) => c as u32 <= 255,
        _ => false,
    }
}

/// The code unit that a token of a run stands for. A Unicode escape whose
/// argument is no code unit stands for none.
pub open spec fn unit_of(token: TokenView) -> Option<u16> {
    match token {
        TokenView::ControlSymbol(ControlWordView::Unicode, property) =>
            match property.spec_unicode_value() {
            Ok(unit) => Some(unit),
            Err(_) => None,
        },
        TokenView::EscapedChar(c) => Some(c as u16),
        _ => None,
    }
}

/// The end of the run of code unit tokens that starts at `from`.
pub open spec fn run_end(tokens: Seq<TokenView>, from: int) -> int
    decreases tokens.len() - from,
{
    if from < 0 || from >= tokens.len() || !is_unit_token(tokens[from]) {
        from
    } else {
        run_end(tokens, from + 1)
    }
}

/// The code units of the tokens from `from` up to `to`, behind `acc`.
pub open spec fn run_units(tokens: Seq<TokenView>, from: int, to: int, acc: Seq<u16>) -> Seq<u16>
    decreases to - from,
{
    if from < 0 || from >= to || from >= tokens.len() {
        acc
    } else {
        match unit_of(tokens[from]) {
            Some(unit) => run_units(tokens, from + 1, to, acc.push(unit)),
            None => run_units(tokens, from + 1, to, acc),
        }
    }
}

/// The text of a run of code units in a scope that expects `count` fallback
/// characters behind each escape: none for no units, else what the units
/// without the fallback characters spell in UTF-16.
pub open spec fn run_text(units: Seq<u16>, count: i32) -> Result<
    Option<Seq<char>>,
    ParserErrorView,
> {
    if units.len() == 0 {
        Ok(None)
    } else {
        match utf16_text(without_fallback(units, count)) {
            Ok(text) => Ok(Some(text)),
            Err(unit) => Err(ParserErrorView::UnicodeParsingError(unit as i32)),
        }
    }
}

/// The body with `text` added in the format of `state`: at the end of the
/// last run where that run has the same format, else as a new run.
pub open spec fn add_text(body: Seq<StyleBlockView>, state: ParserState, text: Seq<char>) -> Seq<
    StyleBlockView,
> {
    if body.len() > 0 && body.last().painter == state.painter && body.last().paragraph
        == state.paragraph {
        body.update(
            body.len() - 1,
            StyleBlockView { text: body.last().text + text, ..body.last() },
        )
    } else {
        body.push(
            StyleBlockView { painter: state.painter, paragraph: state.paragraph, text },
        )
    }
}

/// The text that a token adds to the body, if it adds one as it stands.
pub open spec fn token_text(token: TokenView) -> Option<Seq<char>> {
    match token {
        TokenView::PlainText(text) => Some(text),
        TokenView::EscapedChar(c) => Some(seq![c]),
        TokenView::CRLF => Some(seq!['\n']),
        _ => None,
    }
}

/// The pass over the body from the token `i` on, with the scopes `stack`
/// open and the runs `body` read. A token that was taken is passed over. An
/// opening bracket opens a scope with the state of the one around it, and a
/// closing bracket closes one. A control word changes the state of the
/// innermost scope; `\u` starts a run of code units, which ends before the
/// first token that is neither another `\u` nor a byte escape, and the text
/// of the run is added. Plain text, a byte escape and a line break add their
/// text. A token that needs a scope where none is open, the mark of an
/// ignorable destination and an `Empty` token are errors. Behind the last
/// token exactly one scope must be open, the one that the pass started in:
/// a scope that was left open, or the scope of the pass itself closed, is the
/// error of the malformed stack.
pub open spec fn body_from(
    tokens: Seq<TokenView>,
    taken: Seq<bool>,
    i: int,
    stack: Seq<ParserState>,
    body: Seq<StyleBlockView>,
) -> Result<Seq<StyleBlockView>, ParserErrorView>
    decreases tokens.len() - i,
{
    if i < 0 || i >= tokens.len() {
        if stack.len() == 1 {
            Ok(body)
        } else {
            Err(ParserErrorView::MalformedPainterStack)
        }
    } else if taken[i] {
        body_from(tokens, taken, i + 1, stack, body)
    } else {
        match tokens[i] {
            TokenView::OpeningBracket => body_from(
                tokens,
                taken,
                i + 1,
                stack.push(
                    if stack.len() > 0 {
                        stack.last()
                    } else {
                        ParserState::spec_default()
                    },
                ),
                body,
            ),
            TokenView::ClosingBracket => if stack.len() == 0 {
                Err(ParserErrorView::MalformedPainterStack)
            } else {
                body_from(tokens, taken, i + 1, stack.drop_last(), body)
            },
            TokenView::ControlSymbol(word, property) => if stack.len() == 0 {
                Err(ParserErrorView::MalformedPainterStack)
            } else if word is Unicode {
                let end = run_end(tokens, i + 1);
                proof {
                    lemma_run_end_bounds(tokens, i + 1);
                }
                match run_text(
                    run_units(tokens, i, end, Seq::empty()),
                    stack.last().unicode_ignore_count,
                ) {
                    Err(e) => Err(e),
                    Ok(None) => body_from(tokens, taken, end, stack, body),
                    Ok(Some(text)) => body_from(
                        tokens,
                        taken,
                        end,
                        stack,
                        add_text(body, stack.last(), text),
                    ),
                }
            } else {
                match apply_control(stack.last(), word, property) {
                    Err(e) => Err(e),
                    Ok(state) => body_from(
                        tokens,
                        taken,
                        i + 1,
                        stack.update(stack.len() - 1, state),
                        body,
                    ),
                }
            },
            TokenView::IgnorableDestination => Err(
                ParserErrorView::IgnorableDestinationParsingError,
            ),
            TokenView::Empty => Err(ParserErrorView::ParseEmptyToken),
            token => if stack.len() == 0 {
                Err(ParserErrorView::MalformedPainterStack)
            } else {
                body_from(
                    tokens,
                    taken,
                    i + 1,
                    stack,
                    add_text(body, stack.last(), token_text(token)->0),
                )
            },
        }
    }
}

/// A run ends at or behind its start, and within the tokens.
pub proof fn lemma_run_end_bounds(tokens: Seq<TokenView>, from: int)
    requires
        0 <= from,
    ensures
        from <= run_end(tokens, from),
        run_end(tokens, from) <= tokens.len() || run_end(tokens, from) == from,
    decreases tokens.len() - from,
{
    if from < tokens.len() && is_unit_token(tokens[from]) {
        lemma_run_end_bounds(tokens, from + 1);
    }
}

/// The runs of the body of a document: the pass over all its tokens, from
/// one open scope in the default state and no run.
pub open spec fn body_pass(tokens: Seq<TokenView>, taken: Seq<bool>) -> Result<
    Seq<StyleBlockView>,
    ParserErrorView,
> {
    body_from(tokens, taken, 0, seq![ParserState::spec_default()], Seq::empty())
}

} // verus!
