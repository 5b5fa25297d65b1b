//! The groups of tokens between matching brackets.

use vstd::prelude::*;
use crate::tokens::{Token, TokenView};

verus! {

/// `tokens` with `Empty` in the places from `from` up to `to`.
pub open spec fn blank(tokens: Seq<TokenView>, from: int, to: int) -> Seq<TokenView> {
    Seq::new(
        tokens.len(),
        |i: int|
            if from <= i < to {
                TokenView::Empty
            } else {
                tokens[i]
            },
    )
}

/// `taken` with `true` in the places from `from` up to `to`.
pub open spec fn mark(taken: Seq<bool>, from: int, to: int) -> Seq<bool> {
    Seq::new(taken.len(), |i: int| (from <= i < to) || taken[i])
}

/// The end of the group whose inside starts at `from`, `depth` groups deep
/// inside it: the place behind the bracket that closes it, or the end of the
/// tokens where none does.
pub open spec fn group_end(tokens: Seq<TokenView>, from: int, depth: nat) -> int
    decreases tokens.len() - from,
{
    if from < 0 || from >= tokens.len() {
        tokens.len() as int
    } else {
        match tokens[from] {
            TokenView::OpeningBracket => group_end(tokens, from + 1, depth + 1),
            TokenView::ClosingBracket => if depth == 0 {
                from + 1
            } else {
                group_end(tokens, from + 1, (depth - 1) as nat)
            },
            _ => group_end(tokens, from + 1, depth),
        }
    }
}

/// A group ends within the tokens, and behind its start where a token stands
/// there.
pub proof fn lemma_group_end_bounds(tokens: Seq<TokenView>, from: int, depth: nat)
    requires
        0 <= from <= tokens.len(),
    ensures
        from <= group_end(tokens, from, depth) <= tokens.len(),
        from < tokens.len() ==> from < group_end(tokens, from, depth),
    decreases tokens.len() - from,
{
    if from < tokens.len() {
        match tokens[from] {
            TokenView::OpeningBracket => lemma_group_end_bounds(tokens, from + 1, depth + 1),
            TokenView::ClosingBracket => if depth > 0 {
                lemma_group_end_bounds(tokens, from + 1, (depth - 1) as nat)
            },
            _ => lemma_group_end_bounds(tokens, from + 1, depth),
        }
    }
}

/// Whether two tokens are of one kind, whatever they hold.
pub open spec fn same_kind(a: TokenView, b: TokenView) -> bool {
    match (a, b) {
        (TokenView::PlainText(_), TokenView::PlainText(_)) => true,
        (TokenView::EscapedChar(_), TokenView::EscapedChar(_)) => true,
        (TokenView::OpeningBracket, TokenView::OpeningBracket) => true,
        (TokenView::ClosingBracket, TokenView::ClosingBracket) => true,
        (TokenView::CRLF, TokenView::CRLF) => true,
        (TokenView::IgnorableDestination, TokenView::IgnorableDestination) => true,
        (TokenView::ControlSymbol(_, _), TokenView::ControlSymbol(_, _)) => true,
        (TokenView::Empty, TokenView::Empty) => true,
        _ => false,
    }
}

/// The place behind the first token of the kind of `reference` at or behind
/// `from`, or the end of the tokens where there is none.
pub open spec fn kind_end(tokens: Seq<TokenView>, from: int, reference: TokenView) -> int
    decreases tokens.len() - from,
{
    if from < 0 || from >= tokens.len() {
        tokens.len() as int
    } else if same_kind(tokens[from], reference) {
        from + 1
    } else {
        kind_end(tokens, from + 1, reference)
    }
}

pub(crate) fn is_same_kind(a: &Token, b: &Token) -> (r: bool)
    ensures
        r == same_kind(a@, b@),
{
    match (a, b) {
        (Token::PlainText(_), Token::PlainText(_)) => true,
        (Token::EscapedChar(_), Token::EscapedChar(_)) => true,
        (Token::OpeningBracket, Token::OpeningBracket) => true,
        (Token::ClosingBracket, Token::ClosingBracket) => true,
        (Token::CRLF, Token::CRLF) => true,
        (Token::IgnorableDestination, Token::IgnorableDestination) => true,
        (Token::ControlSymbol(_), Token::ControlSymbol(_)) => true,
        (Token::Empty, Token::Empty) => true,
        _ => false,
    }
}

/// The end of a group depends on the tokens from its start on alone.
pub proof fn lemma_group_end_local(a: Seq<TokenView>, b: Seq<TokenView>, from: int, depth: nat)
    requires
        a.len() == b.len(),
        0 <= from,
        forall|i: int| from <= i < a.len() ==> a[i] == b[i],
    ensures
        group_end(a, from, depth) == group_end(b, from, depth),
    decreases a.len() - from,
{
    if from < a.len() {
        match a[from] {
            TokenView::OpeningBracket => lemma_group_end_local(a, b, from + 1, depth + 1),
            TokenView::ClosingBracket => if depth > 0 {
                lemma_group_end_local(a, b, from + 1, (depth - 1) as nat)
            },
            _ => lemma_group_end_local(a, b, from + 1, depth),
        }
    }
}

} // verus!
