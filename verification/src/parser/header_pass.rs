//! The pass over the header, as a mathematical function of the tokens.

use vstd::prelude::*;
use crate::header::{CharacterSet, RtfHeaderView};
use crate::parser::errors::ParserErrorView;
use crate::parser::groups::{blank, group_end, lemma_group_end_bounds, mark};
use crate::parser::tables::{color_table_of, font_table_of};
use crate::tokens::{ControlWordView, Property, TokenView};

verus! {

/// The groups that belong to the header.
pub enum HeaderGroup {
    Ignorable,
    FontTable,
    ColorTable,
    StyleSheet,
}

/// The first token at or behind `from` that is no line break, or a line break
/// where only line breaks are left.
pub open spec fn lookahead(tokens: Seq<TokenView>, from: int) -> TokenView
    decreases tokens.len() - from,
{
    if from < 0 || from >= tokens.len() {
        TokenView::CRLF
    } else if tokens[from] is CRLF {
        lookahead(tokens, from + 1)
    } else {
        tokens[from]
    }
}

/// The group of the header that starts with `first` behind its bracket.
pub open spec fn header_group(first: TokenView) -> Option<HeaderGroup> {
    match first {
        TokenView::IgnorableDestination => Some(HeaderGroup::Ignorable),
        TokenView::ControlSymbol(ControlWordView::FontTable, Property::Unset) => Some(
            HeaderGroup::FontTable,
        ),
        TokenView::ControlSymbol(ControlWordView::ColorTable, Property::Unset) => Some(
            HeaderGroup::ColorTable,
        ),
        TokenView::ControlSymbol(ControlWordView::StyleSheet, Property::Unset) => Some(
            HeaderGroup::StyleSheet,
        ),
        _ => None,
    }
}

/// The group of the header that opens at `cursor`, if one does: an opening
/// bracket, and behind it, line breaks apart, the token that names the group.
pub open spec fn group_at(tokens: Seq<TokenView>, cursor: int) -> Option<HeaderGroup> {
    if tokens[cursor] is OpeningBracket {
        header_group(lookahead(tokens, cursor + 1))
    } else {
        None
    }
}

/// The header with what a group of it declares. A table replaces the one
/// that the header held.
pub open spec fn read_group(kind: HeaderGroup, inside: Seq<TokenView>, header: RtfHeaderView)
    -> Result<RtfHeaderView, ParserErrorView> {
    match kind {
        HeaderGroup::Ignorable => Ok(header),
        HeaderGroup::FontTable => match font_table_of(inside) {
            Ok(table) => Ok(RtfHeaderView { font_table: table, ..header }),
            Err(e) => Err(e),
        },
        HeaderGroup::ColorTable => match color_table_of(inside) {
            Ok(table) => Ok(RtfHeaderView { color_table: table, ..header }),
            Err(e) => Err(e),
        },
        HeaderGroup::StyleSheet => Ok(RtfHeaderView { stylesheet: Map::empty(), ..header }),
    }
}

/// The header with the character set that a token declares, if it does.
pub open spec fn with_character_set(header: RtfHeaderView, token: TokenView) -> RtfHeaderView {
    match CharacterSet::of(token) {
        Some(character_set) => RtfHeaderView { character_set, ..header },
        None => header,
    }
}

/// How the pass over the header ends: the tokens and their marks as it
/// leaves them, and the header or the error.
pub struct HeaderPass {
    pub tokens: Seq<TokenView>,
    pub taken: Seq<bool>,
    pub result: Result<RtfHeaderView, ParserErrorView>,
}

/// The pass over the header from `cursor` on. It looks at every token but
/// the last. Where a group of the header opens, the whole group is taken and
/// read, and the pass goes on behind it. Any other token stays, and may
/// declare the character set. The pass ends at the first error.
pub open spec fn header_from(
    tokens: Seq<TokenView>,
    taken: Seq<bool>,
    cursor: int,
    header: RtfHeaderView,
) -> HeaderPass
    decreases tokens.len() - cursor,
{
    if cursor < 0 || cursor + 1 >= tokens.len() {
        HeaderPass { tokens, taken, result: Ok(header) }
    } else {
        match group_at(tokens, cursor) {
            None => header_from(
                tokens,
                taken,
                cursor + 1,
                with_character_set(header, tokens[cursor]),
            ),
            Some(kind) => {
                let end = group_end(tokens, cursor + 1, 0);
                let left = blank(tokens, cursor, end);
                let marks = mark(taken, cursor, end);
                match read_group(kind, tokens.subrange(cursor + 1, end), header) {
                    Err(e) => HeaderPass { tokens: left, taken: marks, result: Err(e) },
                    Ok(next) => {
                        proof {
                            lemma_group_end_bounds(tokens, cursor + 1, 0);
                        }
                        header_from(left, marks, end, next)
                    },
                }
            },
        }
    }
}

/// The pass over the header of a document.
pub open spec fn header_pass(tokens: Seq<TokenView>, taken: Seq<bool>) -> HeaderPass {
    header_from(tokens, taken, 0, RtfHeaderView::spec_default())
}

} // verus!
