//! What holds of every document that the parser reads.

use vstd::prelude::*;
use crate::document::body_text;
use crate::lexer::{lemma_next_cut_bounds, next_cut, scan_from, scan_spec};
use crate::text::{trim, CharClass};
use crate::document::RtfDocumentView;
use crate::header::RtfHeaderView;
use crate::parser::{
    add_text, apply_control, body_from, body_pass, header_from, header_group, is_unit_token,
    lemma_run_end_bounds, lookahead, parse_spec, run_end, run_text, run_units, token_text,
    validity, with_character_set, ParserErrorView, ParserState, StyleBlockView,
};
use crate::tokens::{ControlWordView, TokenView};

verus! {

/// No two runs that follow each other have the same character format and
/// the same paragraph format. A proof that needs the runs one by one reveals
/// the definition.
#[verifier::opaque]
pub open spec fn well_merged(body: Seq<StyleBlockView>) -> bool {
    forall|i: int|
        0 <= i < body.len() - 1 ==> (#[trigger] body[i]).painter != body[i + 1].painter
            || body[i].paragraph != body[i + 1].paragraph
}

/// Adding text keeps the runs merged: it joins the last run where the format
/// is the same, and starts a new run only where it differs.
pub proof fn lemma_add_text_keeps_merged(
    body: Seq<StyleBlockView>,
    state: ParserState,
    text: Seq<char>,
)
    requires
        well_merged(body),
    ensures
        well_merged(add_text(body, state, text)),
{
    reveal(well_merged);
}

/// The pass over the body keeps the runs merged.
pub proof fn lemma_body_from_keeps_merged(
    tokens: Seq<TokenView>,
    taken: Seq<bool>,
    i: int,
    stack: Seq<ParserState>,
    body: Seq<StyleBlockView>,
)
    requires
        0 <= i,
        well_merged(body),
    ensures
        body_from(tokens, taken, i, stack, body) is Ok ==> well_merged(
            body_from(tokens, taken, i, stack, body)->Ok_0,
        ),
    decreases tokens.len() - i,
{
    if i >= tokens.len() {
    } else if taken[i] {
        lemma_body_from_keeps_merged(tokens, taken, i + 1, stack, body);
    } else {
        match tokens[i] {
            TokenView::OpeningBracket => {
                let top = if stack.len() > 0 {
                    stack.last()
                } else {
                    ParserState::spec_default()
                };
                lemma_body_from_keeps_merged(tokens, taken, i + 1, stack.push(top), body);
            },
            TokenView::ClosingBracket => {
                if stack.len() > 0 {
                    lemma_body_from_keeps_merged(tokens, taken, i + 1, stack.drop_last(), body);
                }
            },
            TokenView::ControlSymbol(word, property) => {
                if stack.len() == 0 {
                } else if word is Unicode {
                    let end = run_end(tokens, i + 1);
                    lemma_run_end_bounds(tokens, i + 1);
                    match run_text(
                        run_units(tokens, i, end, Seq::empty()),
                        stack.last().unicode_ignore_count,
                    ) {
                        Err(_) => {},
                        Ok(None) => {
                            lemma_body_from_keeps_merged(tokens, taken, end, stack, body);
                        },
                        Ok(Some(text)) => {
                            lemma_add_text_keeps_merged(body, stack.last(), text);
                            lemma_body_from_keeps_merged(
                                tokens,
                                taken,
                                end,
                                stack,
                                add_text(body, stack.last(), text),
                            );
                        },
                    }
                } else {
                    match apply_control(stack.last(), word, property) {
                        Err(_) => {},
                        Ok(state) => {
                            lemma_body_from_keeps_merged(
                                tokens,
                                taken,
                                i + 1,
                                stack.update(stack.len() - 1, state),
                                body,
                            );
                        },
                    }
                }
            },
            TokenView::IgnorableDestination => {},
            TokenView::Empty => {},
            token => {
                if stack.len() > 0 {
                    let text = token_text(token)->0;
                    lemma_add_text_keeps_merged(body, stack.last(), text);
                    lemma_body_from_keeps_merged(
                        tokens,
                        taken,
                        i + 1,
                        stack,
                        add_text(body, stack.last(), text),
                    );
                }
            },
        }
    }
}

/// In the body of every document that is read, two runs that follow each
/// other differ in their character format or in their paragraph format.
pub proof fn lemma_parsed_body_is_merged(tokens: Seq<TokenView>, taken: Seq<bool>)
    ensures
        parse_spec(tokens, taken).result is Ok ==> well_merged(
            parse_spec(tokens, taken).result->Ok_0.body,
        ),
{
    let outcome = parse_spec(tokens, taken);
    if outcome.result is Ok {
        reveal(well_merged);
        lemma_body_from_keeps_merged(
            outcome.tokens,
            outcome.taken,
            0,
            seq![ParserState::spec_default()],
            Seq::empty(),
        );
    }
}

/// Whether a token is a Unicode escape.
pub open spec fn is_unicode_escape(token: TokenView) -> bool {
    token matches TokenView::ControlSymbol(ControlWordView::Unicode, _)
}

/// The text of the tokens from `i` on that were not taken: plain text as it
/// stands, a byte escape as its character and a line break as a line feed,
/// one after the other. Brackets and control words have no text.
pub open spec fn visible_text(tokens: Seq<TokenView>, taken: Seq<bool>, i: int) -> Seq<char>
    decreases tokens.len() - i,
{
    if i < 0 || i >= tokens.len() {
        Seq::empty()
    } else if taken[i] {
        visible_text(tokens, taken, i + 1)
    } else {
        match token_text(tokens[i]) {
            Some(text) => text + visible_text(tokens, taken, i + 1),
            None => visible_text(tokens, taken, i + 1),
        }
    }
}

/// Adding text to the runs adds it to their text.
pub proof fn lemma_add_text_adds_text(
    body: Seq<StyleBlockView>,
    state: ParserState,
    text: Seq<char>,
)
    ensures
        body_text(add_text(body, state, text)) == body_text(body) + text,
{
    let next = add_text(body, state, text);
    if body.len() > 0 && body.last().painter == state.painter && body.last().paragraph
        == state.paragraph {
        assert(next.drop_last() == body.drop_last());
    } else {
        assert(next.drop_last() == body);
    }
}

/// Without a Unicode escape among the tokens from `i` on, the pass over the
/// body adds their visible text, in their order, to the text read so far.
pub proof fn lemma_body_from_adds_visible_text(
    tokens: Seq<TokenView>,
    taken: Seq<bool>,
    i: int,
    stack: Seq<ParserState>,
    body: Seq<StyleBlockView>,
)
    requires
        0 <= i,
        forall|k: int| i <= k < tokens.len() && !taken[k] ==> !is_unicode_escape(tokens[k]),
    ensures
        body_from(tokens, taken, i, stack, body) is Ok ==> body_text(
            body_from(tokens, taken, i, stack, body)->Ok_0,
        ) == body_text(body) + visible_text(tokens, taken, i),
    decreases tokens.len() - i,
{
    if i >= tokens.len() {
    } else if taken[i] {
        lemma_body_from_adds_visible_text(tokens, taken, i + 1, stack, body);
    } else {
        match tokens[i] {
            TokenView::OpeningBracket => {
                let top = if stack.len() > 0 {
                    stack.last()
                } else {
                    ParserState::spec_default()
                };
                lemma_body_from_adds_visible_text(tokens, taken, i + 1, stack.push(top), body);
            },
            TokenView::ClosingBracket => {
                if stack.len() > 0 {
                    lemma_body_from_adds_visible_text(
                        tokens,
                        taken,
                        i + 1,
                        stack.drop_last(),
                        body,
                    );
                }
            },
            TokenView::ControlSymbol(word, property) => {
                if stack.len() > 0 {
                    match apply_control(stack.last(), word, property) {
                        Err(_) => {},
                        Ok(state) => {
                            lemma_body_from_adds_visible_text(
                                tokens,
                                taken,
                                i + 1,
                                stack.update(stack.len() - 1, state),
                                body,
                            );
                        },
                    }
                }
            },
            TokenView::IgnorableDestination => {},
            TokenView::Empty => {},
            token => {
                if stack.len() > 0 {
                    let text = token_text(token)->0;
                    let next = add_text(body, stack.last(), text);
                    lemma_add_text_adds_text(body, stack.last(), text);
                    lemma_body_from_adds_visible_text(tokens, taken, i + 1, stack, next);
                }
            },
        }
    }
}

/// The text of a document without a Unicode escape in its body is the
/// visible text of the tokens that the header has left, in their order: what
/// the runs hold, put together, is what was written between the brackets and
/// control words.
pub proof fn lemma_text_round_trip(tokens: Seq<TokenView>, taken: Seq<bool>)
    requires
        parse_spec(tokens, taken).result is Ok,
        forall|k: int|
            0 <= k < parse_spec(tokens, taken).tokens.len() && !parse_spec(tokens, taken).taken[k]
                ==> !is_unicode_escape(#[trigger] parse_spec(tokens, taken).tokens[k]),
    ensures
        body_text(parse_spec(tokens, taken).result->Ok_0.body) == visible_text(
            parse_spec(tokens, taken).tokens,
            parse_spec(tokens, taken).taken,
            0,
        ),
{
    let outcome = parse_spec(tokens, taken);
    lemma_body_from_adds_visible_text(
        outcome.tokens,
        outcome.taken,
        0,
        seq![ParserState::spec_default()],
        Seq::empty(),
    );
}

/// Whether every token from `i` on that was not taken finds the scope that
/// it needs, with `depth` scopes open before it. An opening bracket needs
/// none and opens one. A closing bracket needs one and closes it. Every
/// other token needs one and leaves it open.
pub open spec fn scopes_hold(tokens: Seq<TokenView>, taken: Seq<bool>, i: int, depth: nat) -> bool
    decreases tokens.len() - i,
{
    if i < 0 || i >= tokens.len() {
        true
    } else if taken[i] {
        scopes_hold(tokens, taken, i + 1, depth)
    } else {
        match tokens[i] {
            TokenView::OpeningBracket => scopes_hold(tokens, taken, i + 1, depth + 1),
            TokenView::ClosingBracket => depth > 0 && scopes_hold(
                tokens,
                taken,
                i + 1,
                (depth - 1) as nat,
            ),
            _ => depth > 0 && scopes_hold(tokens, taken, i + 1, depth),
        }
    }
}

/// The opening brackets less the closing brackets among the tokens from `i`
/// up to `k` that were not taken.
pub open spec fn net_openings(tokens: Seq<TokenView>, taken: Seq<bool>, i: int, k: int) -> int
    decreases k - i,
{
    if i < 0 || i >= k || i >= tokens.len() {
        0
    } else if taken[i] {
        net_openings(tokens, taken, i + 1, k)
    } else {
        match tokens[i] {
            TokenView::OpeningBracket => net_openings(tokens, taken, i + 1, k) + 1,
            TokenView::ClosingBracket => net_openings(tokens, taken, i + 1, k) - 1,
            _ => net_openings(tokens, taken, i + 1, k),
        }
    }
}

/// Whether the brackets from `i` on balance, with `depth` scopes open before
/// them: every token finds the scope that it needs, and behind the last
/// token one scope is open, no more and no less.
pub open spec fn balanced(tokens: Seq<TokenView>, taken: Seq<bool>, i: int, depth: nat) -> bool {
    scopes_hold(tokens, taken, i, depth) && depth + net_openings(
        tokens,
        taken,
        i,
        tokens.len() as int,
    ) == 1
}

/// A run of code unit tokens leaves the open scopes as they are, and holds
/// no bracket.
proof fn lemma_scopes_over_run(tokens: Seq<TokenView>, taken: Seq<bool>, from: int, depth: nat)
    requires
        0 <= from,
        depth > 0,
    ensures
        scopes_hold(tokens, taken, from, depth) == scopes_hold(
            tokens,
            taken,
            run_end(tokens, from),
            depth,
        ),
        net_openings(tokens, taken, from, tokens.len() as int) == net_openings(
            tokens,
            taken,
            run_end(tokens, from),
            tokens.len() as int,
        ),
    decreases tokens.len() - from,
{
    if from < tokens.len() && is_unit_token(tokens[from]) {
        lemma_scopes_over_run(tokens, taken, from + 1, depth);
    }
}

/// Where the pass over the body gives the runs, the brackets balance:
/// whatever the other tokens are.
pub proof fn lemma_accepted_body_is_balanced(
    tokens: Seq<TokenView>,
    taken: Seq<bool>,
    i: int,
    stack: Seq<ParserState>,
    body: Seq<StyleBlockView>,
)
    requires
        0 <= i,
        body_from(tokens, taken, i, stack, body) is Ok,
    ensures
        balanced(tokens, taken, i, stack.len()),
    decreases tokens.len() - i,
{
    if i >= tokens.len() {
    } else if taken[i] {
        lemma_accepted_body_is_balanced(tokens, taken, i + 1, stack, body);
    } else {
        match tokens[i] {
            TokenView::OpeningBracket => {
                let top = if stack.len() > 0 {
                    stack.last()
                } else {
                    ParserState::spec_default()
                };
                lemma_accepted_body_is_balanced(tokens, taken, i + 1, stack.push(top), body);
            },
            TokenView::ClosingBracket => {
                lemma_accepted_body_is_balanced(tokens, taken, i + 1, stack.drop_last(), body);
            },
            TokenView::ControlSymbol(word, property) => {
                if word is Unicode {
                    let end = run_end(tokens, i + 1);
                    lemma_run_end_bounds(tokens, i + 1);
                    lemma_scopes_over_run(tokens, taken, i + 1, stack.len());
                    match run_text(
                        run_units(tokens, i, end, Seq::empty()),
                        stack.last().unicode_ignore_count,
                    ) {
                        Err(_) => {},
                        Ok(None) => {
                            lemma_accepted_body_is_balanced(tokens, taken, end, stack, body);
                        },
                        Ok(Some(text)) => {
                            lemma_accepted_body_is_balanced(
                                tokens,
                                taken,
                                end,
                                stack,
                                add_text(body, stack.last(), text),
                            );
                        },
                    }
                } else {
                    lemma_accepted_body_is_balanced(
                        tokens,
                        taken,
                        i + 1,
                        stack.update(
                            stack.len() - 1,
                            apply_control(stack.last(), word, property)->Ok_0,
                        ),
                        body,
                    );
                }
            },
            TokenView::IgnorableDestination => {},
            TokenView::Empty => {},
            token => {
                lemma_accepted_body_is_balanced(
                    tokens,
                    taken,
                    i + 1,
                    stack,
                    add_text(body, stack.last(), token_text(token)->0),
                );
            },
        }
    }
}

/// A body whose brackets do not balance is never read: the pass over it ends
/// in an error, whether a scope is left open, a bracket closes the scope of
/// the document itself, or a token finds no scope at all.
pub proof fn lemma_unbalanced_body_is_rejected(tokens: Seq<TokenView>, taken: Seq<bool>)
    requires
        !balanced(tokens, taken, 0, 1),
    ensures
        body_pass(tokens, taken) is Err,
{
    if body_pass(tokens, taken) is Ok {
        lemma_accepted_body_is_balanced(
            tokens,
            taken,
            0,
            seq![ParserState::spec_default()],
            Seq::empty(),
        );
    }
}

/// Whether a token can only fail for want of a scope: a bracket, a text, or
/// a control word other than `\u` whose number fits where it goes.
pub open spec fn needs_only_a_scope(token: TokenView) -> bool {
    match token {
        TokenView::IgnorableDestination => false,
        TokenView::Empty => false,
        TokenView::ControlSymbol(word, property) => !(word is Unicode) && apply_control(
            ParserState::spec_default(),
            word,
            property,
        ) is Ok,
        _ => true,
    }
}

/// Where no token from `i` on can fail but for want of a scope, the pass
/// over the body gives the runs exactly where the brackets balance, and ends
/// in the error of the malformed stack where they do not.
pub proof fn lemma_balance_decides(
    tokens: Seq<TokenView>,
    taken: Seq<bool>,
    i: int,
    stack: Seq<ParserState>,
    body: Seq<StyleBlockView>,
)
    requires
        0 <= i,
        forall|k: int| i <= k < tokens.len() && !taken[k] ==> needs_only_a_scope(tokens[k]),
    ensures
        balanced(tokens, taken, i, stack.len()) ==> body_from(tokens, taken, i, stack, body)
            is Ok,
        !balanced(tokens, taken, i, stack.len()) ==> body_from(tokens, taken, i, stack, body)
            == Err::<Seq<StyleBlockView>, ParserErrorView>(ParserErrorView::MalformedPainterStack),
    decreases tokens.len() - i,
{
    if i >= tokens.len() {
    } else if taken[i] {
        lemma_balance_decides(tokens, taken, i + 1, stack, body);
    } else {
        assert(needs_only_a_scope(tokens[i]));
        match tokens[i] {
            TokenView::OpeningBracket => {
                let top = if stack.len() > 0 {
                    stack.last()
                } else {
                    ParserState::spec_default()
                };
                lemma_balance_decides(tokens, taken, i + 1, stack.push(top), body);
            },
            TokenView::ClosingBracket => {
                if stack.len() > 0 {
                    lemma_balance_decides(tokens, taken, i + 1, stack.drop_last(), body);
                }
            },
            TokenView::ControlSymbol(word, property) => {
                if stack.len() > 0 {
                    let state = apply_control(stack.last(), word, property);
                    assert(state is Ok);
                    lemma_balance_decides(
                        tokens,
                        taken,
                        i + 1,
                        stack.update(stack.len() - 1, state->Ok_0),
                        body,
                    );
                }
            },
            TokenView::IgnorableDestination => {},
            TokenView::Empty => {},
            token => {
                if stack.len() > 0 {
                    lemma_balance_decides(
                        tokens,
                        taken,
                        i + 1,
                        stack,
                        add_text(body, stack.last(), token_text(token)->0),
                    );
                }
            },
        }
    }
}

/// Whether no token names a group of the header.
pub open spec fn names_no_group(tokens: Seq<TokenView>) -> bool {
    forall|k: int| 0 <= k < tokens.len() ==> header_group(#[trigger] tokens[k]) is None
}

/// Where no token names a group of the header, none opens at any place.
proof fn lemma_no_group_ahead(tokens: Seq<TokenView>, from: int)
    requires
        names_no_group(tokens),
    ensures
        header_group(lookahead(tokens, from)) is None,
    decreases tokens.len() - from,
{
    if 0 <= from < tokens.len() && tokens[from] is CRLF {
        lemma_no_group_ahead(tokens, from + 1);
    }
}

/// Where no token names a group of the header, the pass over the header
/// takes nothing and does not fail.
pub proof fn lemma_header_pass_without_groups(
    tokens: Seq<TokenView>,
    taken: Seq<bool>,
    cursor: int,
    header: RtfHeaderView,
)
    requires
        0 <= cursor,
        names_no_group(tokens),
    ensures
        header_from(tokens, taken, cursor, header).tokens == tokens,
        header_from(tokens, taken, cursor, header).taken == taken,
        header_from(tokens, taken, cursor, header).result is Ok,
    decreases tokens.len() - cursor,
{
    if cursor + 1 < tokens.len() {
        lemma_no_group_ahead(tokens, cursor + 1);
        lemma_header_pass_without_groups(
            tokens,
            taken,
            cursor + 1,
            with_character_set(header, tokens[cursor]),
        );
    }
}

/// Stack balance. Of tokens that name no group of the header and can only
/// fail for want of a scope, `parse` gives a document exactly where the
/// first token opens, the last closes and the brackets balance. Of any other
/// such tokens it gives the error of the missing token, of the invalid token
/// or of the malformed stack, and never a document.
pub proof fn lemma_stack_balance(tokens: Seq<TokenView>, taken: Seq<bool>)
    requires
        names_no_group(tokens),
        forall|k: int| 0 <= k < tokens.len() && !taken[k] ==> needs_only_a_scope(tokens[k]),
    ensures
        parse_spec(tokens, taken).result is Ok <==> validity(tokens) is Ok && balanced(
            tokens,
            taken,
            0,
            1,
        ),
        parse_spec(tokens, taken).result is Err ==> {
            let e = parse_spec(tokens, taken).result->Err_0;
            e is NoMoreToken || e is InvalidToken || e is MalformedPainterStack
        },
        validity(tokens) is Ok && !balanced(tokens, taken, 0, 1) ==> parse_spec(
            tokens,
            taken,
        ).result == Err::<RtfDocumentView, ParserErrorView>(ParserErrorView::MalformedPainterStack),
{
    lemma_header_pass_without_groups(tokens, taken, 0, RtfHeaderView::spec_default());
    lemma_balance_decides(tokens, taken, 0, seq![ParserState::spec_default()], Seq::empty());
}

/// Whatever the tokens are, a document is read only where the brackets that
/// the header has left balance.
pub proof fn lemma_accepted_document_is_balanced(tokens: Seq<TokenView>, taken: Seq<bool>)
    requires
        parse_spec(tokens, taken).result is Ok,
    ensures
        validity(tokens) is Ok,
        balanced(parse_spec(tokens, taken).tokens, parse_spec(tokens, taken).taken, 0, 1),
{
    let outcome = parse_spec(tokens, taken);
    lemma_accepted_body_is_balanced(
        outcome.tokens,
        outcome.taken,
        0,
        seq![ParserState::spec_default()],
        Seq::empty(),
    );
}

/// Tokens that do not start with an opening bracket and end with a closing
/// bracket are no document: `parse` gives the error of the missing token for
/// no tokens at all, and the error of the invalid token otherwise, and
/// leaves the tokens as they are.
pub proof fn lemma_unbounded_document_is_rejected(tokens: Seq<TokenView>, taken: Seq<bool>)
    requires
        tokens.len() == 0 || !(tokens.first() is OpeningBracket) || !(tokens.last()
            is ClosingBracket),
    ensures
        parse_spec(tokens, taken).result is Err,
        parse_spec(tokens, taken).result->Err_0 is NoMoreToken || parse_spec(
            tokens,
            taken,
        ).result->Err_0 is InvalidToken,
        parse_spec(tokens, taken).result->Err_0 is NoMoreToken <==> tokens.len() == 0,
        parse_spec(tokens, taken).tokens == tokens,
        parse_spec(tokens, taken).taken == taken,
{
}

/// Where the lexer gives tokens from the start of a slice on, the source
/// ends with a closing bracket.
pub proof fn lemma_scan_from_ends_with_bracket(s: Seq<char>, start: int)
    requires
        0 <= start < s.len(),
        scan_from(s, start) is Ok,
    ensures
        s.last() == '}',
    decreases s.len() - start,
{
    let end = next_cut(s, start + 1);
    lemma_next_cut_bounds(s, start + 1);
    if end < s.len() {
        lemma_scan_from_ends_with_bracket(s, end);
    } else {
        assert(s.skip(start)[0] == '}');
    }
}

/// A source text that is scanned is empty, the whitespace around it apart,
/// or ends with a closing bracket: any other text is rejected by the lexer.
pub proof fn lemma_scanned_source_ends_with_bracket(src: Seq<char>)
    requires
        scan_spec(src) is Ok,
    ensures
        trim(src, CharClass::Whitespace).len() == 0 || trim(src, CharClass::Whitespace).last()
            == '}',
{
    let s = trim(src, CharClass::Whitespace);
    if s.len() > 0 {
        lemma_scan_from_ends_with_bracket(s, 0);
    }
}

} // verus!
