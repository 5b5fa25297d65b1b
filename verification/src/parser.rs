//! The parser: from the tokens to the document.

pub mod body;
pub mod errors;
pub mod groups;
pub mod header_pass;
pub mod style;
pub mod tables;

use vstd::prelude::*;
use vstd::string::*;
use std::collections::HashMap;
use crate::document::{block_views, RtfDocument, RtfDocumentView};
use crate::header::{font_views, CharacterSet, RtfHeader};
use crate::laws::{
    balanced, lemma_accepted_document_is_balanced, lemma_add_text_keeps_merged,
    lemma_parsed_body_is_merged, well_merged,
};
use crate::tokens::{token_views, ControlWord, Property, Token, TokenView};
use crate::unicode::{decode_utf16, drop_fallback};

pub use crate::parser::body::{
    add_text, body_from, body_pass, is_unit_token, lemma_run_end_bounds, run_end, run_text,
    run_units, token_text, unit_of,
};
pub use crate::parser::errors::{ParserError, ParserErrorView};
use crate::parser::groups::is_same_kind;
pub use crate::parser::groups::{
    blank, group_end, kind_end, lemma_group_end_bounds, lemma_group_end_local, mark, same_kind,
};
pub use crate::parser::header_pass::{
    group_at, header_from, header_group, header_pass, lookahead, read_group, with_character_set,
    HeaderGroup, HeaderPass,
};
pub use crate::parser::style::{
    apply_control, arrange, paint, Painter, ParserState, StyleBlock, StyleBlockView,
};
pub use crate::parser::tables::{
    color_table_from, color_table_of, color_table_step, declares_font, font_key, font_number_key,
    font_option_view, font_table_from, font_table_of, font_table_step,
    lemma_one_font_per_declared_key, not_color_table_text, not_font_table_text, ColorTableState,
    FontTableState,
};

verus! {

/// The parser holds the tokens of a document. It takes the groups of the
/// header out of them and reads the body from those that are left.
pub struct Parser<'a> {
    tokens: Vec<Token<'a>>,
    parsed_item: Vec<bool>,
    cursor: usize,
}

/// A parser as a mathematical value: its tokens, and for each of them whether
/// it was taken.
pub struct ParserView {
    pub tokens: Seq<TokenView>,
    pub taken: Seq<bool>,
}

impl<'a> View for Parser<'a> {
    type V = ParserView;

    closed spec fn view(&self) -> ParserView {
        ParserView { tokens: token_views(self.tokens@), taken: self.parsed_item@ }
    }
}

/// The views of a sequence of borrowed tokens.
pub open spec fn token_ref_views(tokens: Seq<&Token>) -> Seq<TokenView> {
    tokens.map_values(|t: &Token| t@)
}

/// The tokens that the parser has not replaced by `Empty`, in their order.
pub open spec fn live_tokens(tokens: Seq<TokenView>) -> Seq<TokenView>
    decreases tokens.len(),
{
    if tokens.len() == 0 {
        Seq::empty()
    } else if tokens.last() is Empty {
        live_tokens(tokens.drop_last())
    } else {
        live_tokens(tokens.drop_last()).push(tokens.last())
    }
}

/// The message of the error for a document that does not start with an
/// opening bracket.
pub open spec fn invalid_first_token_text() -> Seq<char> {
    "Invalid first token : not a '{'"@
}

/// The message of the error for a document that does not end with a closing
/// bracket.
pub open spec fn invalid_last_token_text() -> Seq<char> {
    "Invalid last token : not a '}'"@
}

/// Whether the tokens have the bounds of a document: an opening bracket
/// first and a closing bracket last.
pub open spec fn validity(tokens: Seq<TokenView>) -> Result<(), ParserErrorView> {
    if tokens.len() == 0 {
        Err(ParserErrorView::NoMoreToken)
    } else if !(tokens.first() is OpeningBracket) {
        Err(ParserErrorView::InvalidToken(invalid_first_token_text()))
    } else if !(tokens.last() is ClosingBracket) {
        Err(ParserErrorView::InvalidToken(invalid_last_token_text()))
    } else {
        Ok(())
    }
}

/// How `parse` ends: the tokens and their marks as it leaves them, and the
/// document or the error.
pub struct ParseOutcome {
    pub tokens: Seq<TokenView>,
    pub taken: Seq<bool>,
    pub result: Result<RtfDocumentView, ParserErrorView>,
}

/// The document that the tokens stand for. The bounds are checked first and
/// leave the tokens as they are. Then the pass over the header takes its
/// groups, and the pass over the body reads the runs from what is left.
pub open spec fn parse_spec(tokens: Seq<TokenView>, taken: Seq<bool>) -> ParseOutcome {
    match validity(tokens) {
        Err(e) => ParseOutcome { tokens, taken, result: Err(e) },
        Ok(_) => {
            let pass = header_pass(tokens, taken);
            ParseOutcome {
                tokens: pass.tokens,
                taken: pass.taken,
                result: match pass.result {
                    Err(e) => Err(e),
                    Ok(header) => match body_pass(pass.tokens, pass.taken) {
                        Err(e) => Err(e),
                        Ok(body) => Ok(RtfDocumentView { header, body }),
                    },
                },
            }
        },
    }
}

impl<'a> Parser<'a> {
    /// Each token has its mark.
    pub closed spec fn wf(&self) -> bool {
        self.parsed_item.len() == self.tokens.len()
    }

    /// A parser on `tokens`, none of them taken yet.
    pub fn new(tokens: Vec<Token<'a>>) -> (parser: Self)
        ensures
            parser.wf(),
            parser@.tokens == token_views(tokens@),
            parser@.taken == Seq::new(tokens@.len(), |i: int| false),
    {
        let parsed_item = vec![false; tokens.len()];
        Self { parsed_item, tokens, cursor: 0 }
    }

    /// The tokens that are left: all but those that `parse` has taken for the
    /// header and replaced by `Empty`.
    pub fn get_tokens(&self) -> (live: Vec<&Token<'a>>)
        ensures
            token_ref_views(live@) == live_tokens(self@.tokens),
    {
        let mut live: Vec<&Token<'a>> = Vec::new();
        let mut i: usize = 0;
        while i < self.tokens.len()
            invariant
                i <= self.tokens.len(),
                token_ref_views(live@) == live_tokens(token_views(self.tokens@).take(i as int)),
            decreases self.tokens.len() - i,
        {
            let ghost views = token_views(self.tokens@);
            proof {
                assert(views.take(i + 1).drop_last() == views.take(i as int));
            }
            let token = &self.tokens[i];
            match token {
                Token::Empty => {},
                _ => {
                    live.push(token);
                },
            }
            i += 1;
        }
        proof {
            assert(token_views(self.tokens@).take(i as int) == token_views(self.tokens@));
        }
        live
    }

    /// The token at `index`.
    fn get_token_at(&self, index: usize) -> (r: Option<&Token<'a>>)
        ensures
            index < self.tokens.len() ==> r == Some(&self.tokens@[index as int]),
            index >= self.tokens.len() ==> r is None,
    {
        if index < self.tokens.len() {
            Some(&self.tokens[index])
        } else {
            None
        }
    }

    /// The token at the cursor.
    fn get_next_token(&self) -> (r: Option<&Token<'a>>)
        ensures
            self.cursor < self.tokens.len() ==> r == Some(&self.tokens@[self.cursor as int]),
            self.cursor >= self.tokens.len() ==> r is None,
    {
        self.get_token_at(self.cursor)
    }

    /// Takes the token at `index`: it leaves `Empty` in its place, marks the
    /// place as taken and moves the cursor one on. Behind the last token
    /// there is nothing to take, and nothing changes.
    #[inline]
    fn consume_token_at(&mut self, index: usize) -> (r: Option<Token<'a>>)
        requires
            old(self).wf(),
            old(self).cursor <= index,
        ensures
            final(self).wf(),
            index < old(self).tokens.len() ==> {
                &&& r == Some(old(self).tokens@[index as int])
                &&& final(self).tokens@ == old(self).tokens@.update(index as int, Token::Empty)
                &&& final(self).parsed_item@ == old(self).parsed_item@.update(index as int, true)
                &&& final(self).cursor == old(self).cursor + 1
            },
            index >= old(self).tokens.len() ==> r is None && *final(self) == *old(self),
    {
        if index >= self.tokens.len() {
            return None;
        }
        let token = self.tokens[index];
        self.cursor += 1;
        self.parsed_item.set(index, true);
        self.tokens.set(index, Token::Empty);
        Some(token)
    }

    /// Takes the token at the cursor.
    fn consume_next_token(&mut self) -> (r: Option<Token<'a>>)
        requires
            old(self).wf(),
        ensures
            final(self).wf(),
            old(self).cursor < old(self).tokens.len() ==> {
                &&& r == Some(old(self).tokens@[old(self).cursor as int])
                &&& final(self).tokens@ == old(self).tokens@.update(
                    old(self).cursor as int,
                    Token::Empty,
                )
                &&& final(self).parsed_item@ == old(self).parsed_item@.update(
                    old(self).cursor as int,
                    true,
                )
                &&& final(self).cursor == old(self).cursor + 1
            },
            old(self).cursor >= old(self).tokens.len() ==> r is None && *final(self) == *old(
                self,
            ),
    {
        let index = self.cursor;
        self.consume_token_at(index)
    }

    /// Takes the tokens from the cursor up to the first one of the kind of
    /// `reference_token`, that one included, and gives them back.
    #[allow(dead_code)]
    fn _consume_tokens_until(&mut self, reference_token: &Token<'a>) -> (ret: Vec<Token<'a>>)
        requires
            old(self).wf(),
            old(self).cursor <= old(self).tokens.len(),
        ensures
            final(self).wf(),
            ({
                let from = old(self).cursor as int;
                let end = kind_end(token_views(old(self).tokens@), from, reference_token@);
                &&& ret@ == old(self).tokens@.subrange(from, end)
                &&& final(self).cursor == end
                &&& final(self).tokens@ == Seq::new(
                    old(self).tokens@.len(),
                    |i: int|
                        if from <= i < end {
                            Token::Empty
                        } else {
                            old(self).tokens@[i]
                        },
                )
                &&& final(self).parsed_item@ == mark(old(self).parsed_item@, from, end)
            }),
    {
        let mut ret: Vec<Token<'a>> = Vec::new();
        let ghost orig = self.tokens@;
        let ghost marks = self.parsed_item@;
        let ghost from = self.cursor as int;
        let ghost end = kind_end(token_views(orig), from, reference_token@);
        let mut done = false;
        while !done && self.cursor < self.tokens.len()
            invariant
                self.wf(),
                self.tokens@.len() == orig.len(),
                marks.len() == orig.len(),
                0 <= from <= self.cursor <= orig.len(),
                !done ==> end == kind_end(token_views(orig), self.cursor as int, reference_token@),
                done ==> end == self.cursor,
                ret@ == orig.subrange(from, self.cursor as int),
                self.tokens@ == Seq::new(
                    orig.len(),
                    |i: int|
                        if from <= i < self.cursor {
                            Token::Empty
                        } else {
                            orig[i]
                        },
                ),
                self.parsed_item@ == mark(marks, from, self.cursor as int),
            decreases orig.len() - self.cursor,
        {
            match self.consume_next_token() {
                Some(token) => {
                    done = is_same_kind(&token, reference_token);
                    ret.push(token);
                },
                None => {},
            }
        }
        ret
    }

    /// Takes the tokens from the cursor up to the bracket that closes the
    /// group in which the cursor stands, that bracket included, and gives
    /// them back. Without such a bracket it takes all that is left.
    fn consume_tokens_until_matching_bracket(&mut self) -> (ret: Vec<Token<'a>>)
        requires
            old(self).wf(),
            old(self).cursor <= old(self).tokens.len(),
        ensures
            final(self).wf(),
            ({
                let from = old(self).cursor as int;
                let end = group_end(token_views(old(self).tokens@), from, 0);
                &&& ret@ == old(self).tokens@.subrange(from, end)
                &&& final(self).cursor == end
                &&& final(self).tokens@ == Seq::new(
                    old(self).tokens@.len(),
                    |i: int|
                        if from <= i < end {
                            Token::Empty
                        } else {
                            old(self).tokens@[i]
                        },
                )
                &&& final(self).parsed_item@ == mark(old(self).parsed_item@, from, end)
            }),
    {
        let mut ret: Vec<Token<'a>> = Vec::new();
        let ghost orig = self.tokens@;
        let ghost marks = self.parsed_item@;
        let ghost from = self.cursor as int;
        let ghost end = group_end(token_views(orig), from, 0);
        let mut count: usize = 0;
        let mut done = false;
        while !done && self.cursor < self.tokens.len()
            invariant
                self.wf(),
                self.tokens@.len() == orig.len(),
                marks.len() == orig.len(),
                0 <= from <= self.cursor <= orig.len(),
                count <= self.cursor - from,
                !done ==> end == group_end(token_views(orig), self.cursor as int, count as nat),
                done ==> end == self.cursor,
                ret@ == orig.subrange(from, self.cursor as int),
                self.tokens@ == Seq::new(
                    orig.len(),
                    |i: int|
                        if from <= i < self.cursor {
                            Token::Empty
                        } else {
                            orig[i]
                        },
                ),
                self.parsed_item@ == mark(marks, from, self.cursor as int),
            decreases orig.len() - self.cursor,
        {
            let ghost at = self.cursor as int;
            match self.consume_next_token() {
                Some(token) => {
                    match token {
                        Token::OpeningBracket => {
                            count += 1;
                        },
                        Token::ClosingBracket => {
                            if count == 0 {
                                done = true;
                            } else {
                                count -= 1;
                            }
                        },
                        _ => {},
                    }
                    ret.push(token);
                },
                None => {},
            }
        }
        ret
    }

    /// Takes the group that opens at the cursor, and gives back what stands
    /// behind its opening bracket, the closing bracket included.
    fn consume_group(&mut self) -> (ret: Vec<Token<'a>>)
        requires
            old(self).wf(),
            old(self).cursor < old(self).tokens.len(),
        ensures
            final(self).wf(),
            ({
                let from = old(self).cursor as int;
                let end = group_end(token_views(old(self).tokens@), from + 1, 0);
                &&& ret@ == old(self).tokens@.subrange(from + 1, end)
                &&& final(self).cursor == end
                &&& token_views(final(self).tokens@) == blank(
                    token_views(old(self).tokens@),
                    from,
                    end,
                )
                &&& final(self).parsed_item@ == mark(old(self).parsed_item@, from, end)
            }),
    {
        let ghost orig = self.tokens@;
        let ghost from = self.cursor as int;
        let index = self.cursor;
        self.consume_token_at(index);
        let ghost middle = self.tokens@;
        proof {
            lemma_group_end_local(token_views(orig), token_views(middle), from + 1, 0);
        }
        let ret = self.consume_tokens_until_matching_bracket();
        proof {
            lemma_group_end_bounds(token_views(orig), from + 1, 0);
        }
        ret
    }

    /// The group of the header that opens at the cursor, if one does.
    fn header_group_at_cursor(&self) -> (r: Option<HeaderGroup>)
        requires
            self.cursor + 1 < self.tokens.len(),
        ensures
            r == group_at(token_views(self.tokens@), self.cursor as int),
    {
        let ghost views = token_views(self.tokens@);
        match self.get_next_token() {
            Some(Token::OpeningBracket) => {},
            _ => {
                return None;
            },
        }
        let len = self.tokens.len();
        let mut i: usize = self.cursor + 1;
        while i < len && is_crlf(&self.tokens[i])
            invariant
                self.cursor + 1 <= i <= len,
                len == self.tokens.len(),
                views == token_views(self.tokens@),
                lookahead(views, self.cursor + 1) == lookahead(views, i as int),
            decreases len - i,
        {
            i += 1;
        }
        match self.get_token_at(i) {
            Some(Token::IgnorableDestination) => Some(HeaderGroup::Ignorable),
            Some(Token::ControlSymbol((ControlWord::FontTable, Property::Unset))) => Some(
                HeaderGroup::FontTable,
            ),
            Some(Token::ControlSymbol((ControlWord::ColorTable, Property::Unset))) => Some(
                HeaderGroup::ColorTable,
            ),
            Some(Token::ControlSymbol((ControlWord::StyleSheet, Property::Unset))) => Some(
                HeaderGroup::StyleSheet,
            ),
            _ => None,
        }
    }

    /// Goes over all the tokens once, takes the groups of the header out of
    /// them and reads the header from these groups.
    fn parse_header(&mut self) -> (r: Result<RtfHeader, ParserError>)
        requires
            old(self).wf(),
        ensures
            final(self).wf(),
            ({
                let pass = header_pass(old(self)@.tokens, old(self)@.taken);
                &&& final(self)@.tokens == pass.tokens
                &&& final(self)@.taken == pass.taken
                &&& match pass.result {
                    Ok(header) => r is Ok && r->Ok_0@ == header,
                    Err(e) => r is Err && r->Err_0@ == e,
                }
            }),
    {
        let ghost target = header_pass(self@.tokens, self@.taken);
        self.cursor = 0;
        let mut header = RtfHeader {
            character_set: CharacterSet::Ansi,
            font_table: HashMap::new(),
            color_table: HashMap::new(),
            stylesheet: HashMap::new(),
        };
        proof {
            assert(font_views(header.font_table@) =~= Map::empty());
        }
        while self.cursor < self.tokens.len() && self.cursor + 1 < self.tokens.len()
            invariant
                self.wf(),
                self.cursor <= self.tokens.len(),
                target == header_pass(old(self)@.tokens, old(self)@.taken),
                target == header_from(self@.tokens, self@.taken, self.cursor as int, header@),
            decreases self.tokens.len() - self.cursor,
        {
            let ghost views = token_views(self.tokens@);
            let ghost at = self.cursor as int;
            match self.header_group_at_cursor() {
                None => {
                    match CharacterSet::from(&self.tokens[self.cursor]) {
                        Some(charset) => {
                            header.character_set = charset;
                        },
                        None => {},
                    }
                    self.cursor += 1;
                },
                Some(kind) => {
                    let group_tokens = self.consume_group();
                    proof {
                        let end = group_end(views, at + 1, 0);
                        lemma_group_end_bounds(views, at + 1, 0);
                        assert(token_views(group_tokens@) =~= views.subrange(at + 1, end));
                    }
                    match kind {
                        HeaderGroup::Ignorable => {
                            Self::parse_ignore_groups(&group_tokens);
                        },
                        HeaderGroup::FontTable => {
                            match Self::parse_font_table(&group_tokens) {
                                Ok(table) => {
                                    header.font_table = table;
                                },
                                Err(e) => {
                                    return Err(e);
                                },
                            }
                        },
                        HeaderGroup::ColorTable => {
                            match Self::parse_color_table(&group_tokens) {
                                Ok(table) => {
                                    header.color_table = table;
                                },
                                Err(e) => {
                                    return Err(e);
                                },
                            }
                        },
                        HeaderGroup::StyleSheet => {
                            match Self::parse_stylesheet(&group_tokens) {
                                Ok(table) => {
                                    header.stylesheet = table;
                                },
                                Err(e) => {
                                    return Err(e);
                                },
                            }
                        },
                    }
                },
            }
        }
        Ok(header)
    }

    /// Checks the bounds of the document.
    fn check_document_validity(&self) -> (r: Result<(), ParserError>)
        ensures
            match validity(self@.tokens) {
                Ok(_) => r is Ok,
                Err(e) => r is Err && r->Err_0@ == e,
            },
    {
        let len = self.tokens.len();
        if len == 0 {
            return Err(ParserError::NoMoreToken);
        }
        match self.tokens[0] {
            Token::OpeningBracket => {},
            _ => {
                return Err(
                    ParserError::InvalidToken(String::from_str("Invalid first token : not a '{'")),
                );
            },
        }
        match self.tokens[len - 1] {
            Token::ClosingBracket => {},
            _ => {
                return Err(
                    ParserError::InvalidToken(String::from_str("Invalid last token : not a '}'")),
                );
            },
        }
        Ok(())
    }

    /// Collects the code units of the run that the Unicode escape at `start`
    /// opens, and gives them with the end of the run.
    fn read_unicode_run(&self, start: usize) -> (r: (usize, Vec<u16>))
        requires
            start < self.tokens.len(),
            is_unit_token(self@.tokens[start as int]),
        ensures
            r.0 == run_end(self@.tokens, start + 1),
            start < r.0 <= self.tokens.len(),
            r.1@ == run_units(self@.tokens, start as int, r.0 as int, Seq::empty()),
    {
        let ghost views = token_views(self.tokens@);
        let ghost end = run_end(views, start + 1);
        let len = self.tokens.len();
        let mut unicodes: Vec<u16> = Vec::new();
        let mut i: usize = start;
        let mut in_run = true;
        proof {
            lemma_run_end_bounds(views, start + 1);
        }
        while in_run
            invariant
                len == self.tokens.len(),
                views == token_views(self.tokens@),
                start <= i <= end <= len,
                start < end,
                in_run ==> i < len && is_unit_token(views[i as int]),
                in_run ==> run_end(views, i as int) == end,
                !in_run ==> i == end,
                run_units(views, start as int, end, Seq::empty()) == run_units(
                    views,
                    i as int,
                    end,
                    unicodes@,
                ),
            decreases len - i,
        {
            proof {
                lemma_run_end_bounds(views, i + 1);
            }
            match self.tokens[i] {
                Token::ControlSymbol((ControlWord::Unicode, property)) => {
                    match property.get_unicode_value() {
                        Ok(unicode) => {
                            unicodes.push(unicode);
                        },
                        Err(_) => {},
                    }
                },
                Token::EscapedChar(c) => {
                    unicodes.push(c as u32 as u16);
                },
                _ => {},
            }
            i += 1;
            if i < len {
                in_run = match self.tokens[i] {
                    Token::ControlSymbol((ControlWord::Unicode, _)) => true,
                    Token::EscapedChar(c) => c as u32 <= 255,
                    _ => false,
                };
            } else {
                in_run = false;
            }
        }
        (i, unicodes)
    }

    /// Adds `text` to the document in the format of the innermost scope.
    fn add_text_to_document(
        text: &str,
        state_stack: &Vec<ParserState>,
        document: &mut RtfDocument,
    ) -> (r: Result<(), ParserError>)
        ensures
            final(document).header == old(document).header,
            state_stack@.len() == 0 ==> r is Err && r->Err_0@
                == ParserErrorView::MalformedPainterStack && final(document).body == old(
                document,
            ).body,
            state_stack@.len() > 0 ==> r is Ok && block_views(final(document).body@) == add_text(
                block_views(old(document).body@),
                state_stack@.last(),
                text@,
            ),
            well_merged(block_views(old(document).body@)) ==> well_merged(
                block_views(final(document).body@),
            ),
    {
        if state_stack.len() == 0 {
            return Err(ParserError::MalformedPainterStack);
        }
        let current_state = state_stack[state_stack.len() - 1];
        let ghost before = block_views(document.body@);
        proof {
            if well_merged(before) {
                lemma_add_text_keeps_merged(before, current_state, text@);
            }
        }
        let len = document.body.len();
        if len > 0 {
            let same = document.body[len - 1].painter == current_state.painter
                && document.body[len - 1].paragraph == current_state.paragraph;
            if same {
                let mut group = document.body.pop().unwrap();
                group.text.append(text);
                document.body.push(group);
                proof {
                    assert(block_views(document.body@) == add_text(before, current_state, text@));
                }
                return Ok(());
            }
        }
        document.body.push(
            StyleBlock {
                painter: current_state.painter,
                paragraph: current_state.paragraph,
                text: String::from_str(text),
            },
        );
        proof {
            assert(block_views(document.body@) == add_text(before, current_state, text@));
        }
        Ok(())
    }

    /// Adds the text of the run of code units that the Unicode escape at
    /// `start` opens, and gives the end of the run.
    fn add_unicode_run(
        &self,
        start: usize,
        state_stack: &Vec<ParserState>,
        document: &mut RtfDocument,
    ) -> (r: Result<usize, ParserError>)
        requires
            start < self.tokens.len(),
            is_unit_token(self@.tokens[start as int]),
            state_stack@.len() > 0,
        ensures
            final(document).header == old(document).header,
            ({
                let end = run_end(self@.tokens, start + 1);
                let units = run_units(self@.tokens, start as int, end, Seq::empty());
                let body = block_views(old(document).body@);
                match run_text(units, state_stack@.last().unicode_ignore_count) {
                    Err(e) => r is Err && r->Err_0@ == e,
                    Ok(None) => r is Ok && r->Ok_0 == end && block_views(final(document).body@)
                        == body,
                    Ok(Some(text)) => r is Ok && r->Ok_0 == end && block_views(
                        final(document).body@,
                    ) == add_text(body, state_stack@.last(), text),
                }
            }),
            r is Ok ==> start < r->Ok_0 <= self.tokens.len(),
            well_merged(block_views(old(document).body@)) ==> well_merged(
                block_views(final(document).body@),
            ),
    {
        let (end, unicodes) = self.read_unicode_run(start);
        if unicodes.len() > 0 {
            let count = state_stack[state_stack.len() - 1].unicode_ignore_count;
            let kept = drop_fallback(&unicodes, count);
            match decode_utf16(&kept) {
                Err(unit) => {
                    return Err(ParserError::UnicodeParsingError(unit as i32));
                },
                Ok(text) => {
                    let _ = Self::add_text_to_document(text.as_str(), state_stack, document);
                },
            }
        }
        Ok(end)
    }

    /// Reads the body from the tokens that the pass over the header has
    /// left, and adds its runs to the document.
    fn parse_body(&self, document: &mut RtfDocument) -> (r: Result<(), ParserError>)
        requires
            self.wf(),
            old(document).body@.len() == 0,
        ensures
            final(document).header == old(document).header,
            match body_pass(self@.tokens, self@.taken) {
                Ok(body) => r is Ok && block_views(final(document).body@) == body,
                Err(e) => r is Err && r->Err_0@ == e,
            },
            well_merged(block_views(final(document).body@)),
    {
        let ghost views = token_views(self.tokens@);
        let ghost marks = self.parsed_item@;
        let mut state_stack: Vec<ParserState> = Vec::new();
        state_stack.push(ParserState::default());
        let len = self.tokens.len();
        let mut i: usize = 0;
        proof {
            reveal(well_merged);
            assert(block_views(document.body@) =~= Seq::empty());
        }
        while i < len
            invariant
                self.wf(),
                len == self.tokens.len(),
                views == self@.tokens,
                marks == self@.taken,
                i <= len,
                document.header == old(document).header,
                well_merged(block_views(document.body@)),
                body_pass(views, marks) == body_from(
                    views,
                    marks,
                    i as int,
                    state_stack@,
                    block_views(document.body@),
                ),
            decreases len - i,
        {
            if self.parsed_item[i] {
                i += 1;
                continue ;
            }
            let token = self.tokens[i];
            let depth = state_stack.len();
            match token {
                Token::OpeningBracket => {
                    let state = if depth > 0 {
                        state_stack[depth - 1]
                    } else {
                        ParserState::default()
                    };
                    state_stack.push(state);
                },
                Token::ClosingBracket => {
                    if depth == 0 {
                        return Err(ParserError::MalformedPainterStack);
                    }
                    state_stack.pop();
                },
                Token::ControlSymbol((control_word, property)) => {
                    if depth == 0 {
                        return Err(ParserError::MalformedPainterStack);
                    }
                    match control_word {
                        ControlWord::Unicode => {
                            match self.add_unicode_run(i, &state_stack, document) {
                                Err(e) => {
                                    return Err(e);
                                },
                                Ok(end) => {
                                    i = end;
                                    continue ;
                                },
                            }
                        },
                        _ => {
                            match Self::apply_control_word(
                                &state_stack[depth - 1],
                                &control_word,
                                &property,
                            ) {
                                Err(e) => {
                                    return Err(e);
                                },
                                Ok(state) => {
                                    state_stack.set(depth - 1, state);
                                },
                            }
                        },
                    }
                },
                Token::PlainText(text) => {
                    match Self::add_text_to_document(text, &state_stack, document) {
                        Err(e) => {
                            return Err(e);
                        },
                        Ok(_) => {},
                    }
                },
                Token::EscapedChar(c) => {
                    let mut text = String::new();
                    text.push(c);
                    match Self::add_text_to_document(text.as_str(), &state_stack, document) {
                        Err(e) => {
                            return Err(e);
                        },
                        Ok(_) => {},
                    }
                },
                Token::CRLF => {
                    proof {
                        reveal_strlit("\n");
                        assert("\n"@ =~= seq!['\n']);
                    }
                    match Self::add_text_to_document("\n", &state_stack, document) {
                        Err(e) => {
                            return Err(e);
                        },
                        Ok(_) => {},
                    }
                },
                Token::IgnorableDestination => {
                    return Err(ParserError::IgnorableDestinationParsingError);
                },
                Token::Empty => {
                    return Err(ParserError::ParseEmptyToken);
                },
            }
            i += 1;
        }
        if state_stack.len() != 1 {
            return Err(ParserError::MalformedPainterStack);
        }
        Ok(())
    }

    /// Reads the document that the tokens stand for. The groups of the
    /// header are taken out of the tokens, also where an error ends the
    /// reading after that. A document is given only where the brackets that
    /// are left balance, and its runs are merged.
    pub fn parse(&mut self) -> (r: Result<RtfDocument, ParserError>)
        requires
            old(self).wf(),
        ensures
            final(self).wf(),
            ({
                let outcome = parse_spec(old(self)@.tokens, old(self)@.taken);
                &&& final(self)@.tokens == outcome.tokens
                &&& final(self)@.taken == outcome.taken
                &&& match outcome.result {
                    Ok(document) => r is Ok && r->Ok_0@ == document,
                    Err(e) => r is Err && r->Err_0@ == e,
                }
            }),
            r is Ok ==> well_merged(r->Ok_0@.body),
            r is Ok ==> balanced(final(self)@.tokens, final(self)@.taken, 0, 1),
    {
        proof {
            lemma_parsed_body_is_merged(self@.tokens, self@.taken);
            if parse_spec(self@.tokens, self@.taken).result is Ok {
                lemma_accepted_document_is_balanced(self@.tokens, self@.taken);
            }
        }
        match self.check_document_validity() {
            Err(e) => {
                return Err(e);
            },
            Ok(_) => {},
        }
        let header = match self.parse_header() {
            Err(e) => {
                return Err(e);
            },
            Ok(header) => header,
        };
        let mut document = RtfDocument { header, body: Vec::new() };
        match self.parse_body(&mut document) {
            Err(e) => Err(e),
            Ok(_) => Ok(document),
        }
    }
}

fn is_crlf(token: &Token) -> (r: bool)
    ensures
        r == (token@ is CRLF),
{
    match token {
        Token::CRLF => true,
        _ => false,
    }
}

} // verus!
