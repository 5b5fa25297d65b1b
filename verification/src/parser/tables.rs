//! The tables of the header: fonts, colours and styles.

use vstd::prelude::*;
use vstd::string::*;
use std::collections::HashMap;
use crate::header::{
    font_views, Color, ColorRef, ColorTable, Font, FontFamily, FontRef, FontTable, FontView, Style,
    StyleRef, StyleSheet,
};
use crate::parser::errors::{ParserError, ParserErrorView};
use crate::parser::Parser;
use crate::text::{skip_class_back, to_chars, trim_end, CharClass};
use crate::tokens::{token_views, ControlWord, ControlWordView, Property, Token, TokenView};

verus! {

/// What the parser of the font table holds while it reads: the table so far,
/// and the font under construction, if there is one, with its key.
pub struct FontTableState {
    pub table: Map<FontRef, FontView>,
    pub key: FontRef,
    pub font: Option<FontView>,
}

impl FontTableState {
    /// The table with the font under construction entered under its key.
    pub open spec fn entered(self) -> Map<FontRef, FontView> {
        match self.font {
            Some(font) => self.table.insert(self.key, font),
            None => self.table,
        }
    }
}

/// The key of a font: the low 16 bits of the number behind `\f`.
pub open spec fn font_key(number: i32) -> FontRef {
    number as u16
}

/// The message of the error for a font table group that starts otherwise.
pub open spec fn not_font_table_text() -> Seq<char> {
    "The group does not start with a FontTable token"@
}

/// The message of the error for a colour table group that starts otherwise.
pub open spec fn not_color_table_text() -> Seq<char> {
    "The group does not start with a ColorTable token"@
}

/// The key that a token declares a font under, if it declares one.
pub open spec fn font_number_key(token: TokenView) -> Option<FontRef> {
    match token {
        TokenView::ControlSymbol(ControlWordView::FontNumber, Property::Value(number)) => Some(
            font_key(number),
        ),
        _ => None,
    }
}

/// Whether a token of the table declares a font under the key `key`.
pub open spec fn declares_font(tokens: Seq<TokenView>, key: FontRef) -> bool {
    exists|i: int| 0 <= i < tokens.len() && font_number_key(#[trigger] tokens[i]) == Some(key)
}

/// What one token does to the font table. A font number enters the font
/// under construction, if there is one, and starts a new one under its own
/// key, without a name or a family; it must come with a number. A closing
/// bracket enters the font under construction too. A family word sets the
/// family of the font under construction and a text its name, without the
/// semicolons that end it; where no font is under construction they do
/// nothing.
pub open spec fn font_table_step(state: FontTableState, token: TokenView) -> Result<
    FontTableState,
    ParserErrorView,
> {
    match token {
        TokenView::ControlSymbol(ControlWordView::FontNumber, property) => match property {
            Property::Value(number) => Ok(
                FontTableState {
                    table: state.entered(),
                    key: font_key(number),
                    font: Some(FontView::spec_default()),
                },
            ),
            _ => Err(ParserErrorView::InvalidFontIdentifier(property)),
        },
        TokenView::ControlSymbol(ControlWordView::Unknown(name), _) => match (
            FontFamily::of(name),
            state.font,
        ) {
            (Some(family), Some(font)) => Ok(
                FontTableState { font: Some(FontView { font_family: family, ..font }), ..state },
            ),
            _ => Ok(state),
        },
        TokenView::PlainText(name) => match state.font {
            Some(font) => Ok(
                FontTableState {
                    font: Some(FontView { name: trim_end(name, CharClass::Semicolon), ..font }),
                    ..state
                },
            ),
            None => Ok(state),
        },
        TokenView::ClosingBracket => Ok(FontTableState { table: state.entered(), ..state }),
        _ => Ok(state),
    }
}

/// The font table after the tokens from `i` on. Behind the last token the
/// font under construction is entered.
pub open spec fn font_table_from(tokens: Seq<TokenView>, i: int, state: FontTableState) -> Result<
    Map<FontRef, FontView>,
    ParserErrorView,
>
    decreases tokens.len() - i,
{
    if i < 0 || i >= tokens.len() {
        Ok(state.entered())
    } else {
        match font_table_step(state, tokens[i]) {
            Err(e) => Err(e),
            Ok(next) => font_table_from(tokens, i + 1, next),
        }
    }
}

/// The font table that the inside of a font table group declares: one font
/// for each key that a font number declares. The group must start with the
/// control word `\fonttbl` without an argument.
pub open spec fn font_table_of(tokens: Seq<TokenView>) -> Result<
    Map<FontRef, FontView>,
    ParserErrorView,
> {
    if tokens.len() == 0 {
        Err(ParserErrorView::NoMoreToken)
    } else if tokens[0] != TokenView::ControlSymbol(ControlWordView::FontTable, Property::Unset) {
        Err(ParserErrorView::InvalidToken(not_font_table_text()))
    } else {
        font_table_from(tokens, 0, FontTableState { table: Map::empty(), key: 0, font: None })
    }
}

/// A key is declared before `i + 1` where it is declared before `i` or by
/// the token `i`.
proof fn lemma_declares_font_step(tokens: Seq<TokenView>, i: int, key: FontRef)
    requires
        0 <= i < tokens.len(),
    ensures
        declares_font(tokens.take(i + 1), key) <==> declares_font(tokens.take(i), key)
            || font_number_key(tokens[i]) == Some(key),
{
    let before = tokens.take(i);
    let after = tokens.take(i + 1);
    if declares_font(before, key) {
        let j = choose|j: int|
            0 <= j < before.len() && font_number_key(#[trigger] before[j]) == Some(key);
        assert(font_number_key(after[j]) == Some(key));
    }
    if font_number_key(tokens[i]) == Some(key) {
        assert(font_number_key(after[i]) == Some(key));
    }
    if declares_font(after, key) {
        let j = choose|j: int|
            0 <= j < after.len() && font_number_key(#[trigger] after[j]) == Some(key);
        if j < i {
            assert(font_number_key(before[j]) == Some(key));
        }
    }
}

/// The font table holds the keys that the tokens before `i` and the tokens
/// from `i` on declare, and no other.
pub proof fn lemma_font_table_keys(tokens: Seq<TokenView>, i: int, state: FontTableState)
    requires
        0 <= i <= tokens.len(),
        forall|k: FontRef|
            state.entered().contains_key(k) <==> declares_font(tokens.take(i), k),
        font_table_from(tokens, i, state) is Ok,
    ensures
        forall|k: FontRef|
            font_table_from(tokens, i, state)->Ok_0.contains_key(k) <==> declares_font(tokens, k),
    decreases tokens.len() - i,
{
    if i >= tokens.len() {
        assert(tokens.take(i) == tokens);
    } else {
        let next = font_table_step(state, tokens[i])->Ok_0;
        assert forall|k: FontRef| next.entered().contains_key(k) <==> declares_font(
            tokens.take(i + 1),
            k,
        ) by {
            lemma_declares_font_step(tokens, i, k);
            assert(next.entered().contains_key(k) <==> state.entered().contains_key(k)
                || font_number_key(tokens[i]) == Some(k));
        }
        lemma_font_table_keys(tokens, i + 1, next);
    }
}

/// One entry for each font that is declared: the font table of a group
/// holds a key exactly where a font number of the group declares it.
pub proof fn lemma_one_font_per_declared_key(tokens: Seq<TokenView>)
    requires
        font_table_of(tokens) is Ok,
    ensures
        forall|k: FontRef|
            font_table_of(tokens)->Ok_0.contains_key(k) <==> declares_font(tokens, k),
{
    let start = FontTableState { table: Map::empty(), key: 0, font: None };
    assert forall|k: FontRef| start.entered().contains_key(k) <==> declares_font(
        tokens.take(0),
        k,
    ) by {}
    lemma_font_table_keys(tokens, 0, start);
}

/// What the parser of the colour table holds while it reads: the table so
/// far, the key of the next colour and the colour that it is building.
pub struct ColorTableState {
    pub table: Map<ColorRef, Color>,
    pub key: int,
    pub color: Color,
}

/// What one token does to the colour table. Red and green set their part of
/// the colour. Blue sets its part and enters the colour under the next key;
/// the keys start at 1 and end at 65535. Each part must be a byte. The next
/// colour starts anew, from no red, no green and no blue.
pub open spec fn color_table_step(state: ColorTableState, token: TokenView) -> Result<
    ColorTableState,
    ParserErrorView,
> {
    match token {
        TokenView::ControlSymbol(ControlWordView::ColorRed, property) =>
            match property.spec_value_as_u8() {
            Err(e) => Err(e),
            Ok(red) => Ok(ColorTableState { color: Color { red, ..state.color }, ..state }),
        },
        TokenView::ControlSymbol(ControlWordView::ColorGreen, property) =>
            match property.spec_value_as_u8() {
            Err(e) => Err(e),
            Ok(green) => Ok(ColorTableState { color: Color { green, ..state.color }, ..state }),
        },
        TokenView::ControlSymbol(ControlWordView::ColorBlue, property) =>
            match property.spec_value_as_u8() {
            Err(e) => Err(e),
            Ok(blue) => if state.key > u16::MAX {
                Err(ParserErrorView::InvalidColorIdentifier(property))
            } else {
                Ok(
                    ColorTableState {
                        table: state.table.insert(
                            state.key as u16,
                            Color { blue, ..state.color },
                        ),
                        key: state.key + 1,
                        color: Color { red: 0, green: 0, blue: 0 },
                    },
                )
            },
        },
        _ => Ok(state),
    }
}

/// The colour table after the tokens from `i` on.
pub open spec fn color_table_from(tokens: Seq<TokenView>, i: int, state: ColorTableState)
    -> Result<Map<ColorRef, Color>, ParserErrorView>
    decreases tokens.len() - i,
{
    if i < 0 || i >= tokens.len() {
        Ok(state.table)
    } else {
        match color_table_step(state, tokens[i]) {
            Err(e) => Err(e),
            Ok(next) => color_table_from(tokens, i + 1, next),
        }
    }
}

/// The colour table that the inside of a colour table group declares. The
/// group must start with the control word `\colortbl` without an argument.
pub open spec fn color_table_of(tokens: Seq<TokenView>) -> Result<
    Map<ColorRef, Color>,
    ParserErrorView,
> {
    if tokens.len() == 0 {
        Err(ParserErrorView::NoMoreToken)
    } else if tokens[0] != TokenView::ControlSymbol(ControlWordView::ColorTable, Property::Unset) {
        Err(ParserErrorView::InvalidToken(not_color_table_text()))
    } else {
        color_table_from(
            tokens,
            0,
            ColorTableState {
                table: Map::empty(),
                key: 1,
                color: Color { red: 0, green: 0, blue: 0 },
            },
        )
    }
}

impl<'a> Parser<'a> {
    /// Reads the inside of a font table group.
    pub(crate) fn parse_font_table(font_tables_tokens: &Vec<Token<'a>>) -> (r: Result<
        FontTable,
        ParserError,
    >)
        ensures
            match font_table_of(token_views(font_tables_tokens@)) {
                Ok(table) => r is Ok && font_views(r->Ok_0@) == table,
                Err(e) => r is Err && r->Err_0@ == e,
            },
            r is Ok ==> forall|k: FontRef|
                r->Ok_0@.contains_key(k) <==> declares_font(token_views(font_tables_tokens@), k),
    {
        let ghost views = token_views(font_tables_tokens@);
        if font_tables_tokens.len() == 0 {
            return Err(ParserError::NoMoreToken);
        }
        match font_tables_tokens[0] {
            Token::ControlSymbol((ControlWord::FontTable, Property::Unset)) => {},
            _ => {
                return Err(
                    ParserError::InvalidToken(
                        String::from_str("The group does not start with a FontTable token"),
                    ),
                );
            },
        }
        let mut table: FontTable = HashMap::new();
        let mut current_key: FontRef = 0;
        let mut current_font: Option<Font> = None;
        let mut i: usize = 0;
        proof {
            assert(font_views(table@) =~= Map::empty());
        }
        while i < font_tables_tokens.len()
            invariant
                i <= font_tables_tokens.len(),
                views == token_views(font_tables_tokens@),
                font_table_of(views) == font_table_from(
                    views,
                    i as int,
                    FontTableState {
                        table: font_views(table@),
                        key: current_key,
                        font: font_option_view(current_font),
                    },
                ),
            decreases font_tables_tokens.len() - i,
        {
            let token = font_tables_tokens[i];
            match token {
                Token::ControlSymbol((control_word, property)) => match control_word {
                    ControlWord::FontNumber => {
                        match property {
                            Property::Value(key) => {
                                enter_font(&mut table, current_key, &current_font);
                                current_key = #[verifier::truncate]
                                (key as FontRef);
                                current_font = Some(
                                    Font {
                                        name: String::new(),
                                        character_set: 0,
                                        font_family: FontFamily::Nil,
                                    },
                                );
                            },
                            _ => {
                                return Err(ParserError::InvalidFontIdentifier(property));
                            },
                        }
                    },
                    ControlWord::Unknown(name) => {
                        match FontFamily::from(name) {
                            Some(font_family) => {
                                current_font = match current_font {
                                    Some(font) => Some(
                                        Font {
                                            name: font.name,
                                            character_set: font.character_set,
                                            font_family,
                                        },
                                    ),
                                    None => None,
                                };
                            },
                            None => {},
                        }
                    },
                    _ => {},
                },
                Token::PlainText(name) => {
                    let chars = to_chars(name);
                    let end = skip_class_back(&chars, 0, chars.len(), CharClass::Semicolon);
                    proof {
                        assert(chars@.subrange(0, chars.len() as int) == name@);
                    }
                    current_font = match current_font {
                        Some(font) => Some(
                            Font {
                                name: String::from_str(name.substring_char(0, end)),
                                character_set: font.character_set,
                                font_family: font.font_family,
                            },
                        ),
                        None => None,
                    };
                },
                Token::ClosingBracket => {
                    enter_font(&mut table, current_key, &current_font);
                },
                _ => {},
            }
            i += 1;
        }
        enter_font(&mut table, current_key, &current_font);
        proof {
            lemma_one_font_per_declared_key(views);
            assert forall|k: FontRef| table@.contains_key(k) <==> font_views(
                table@,
            ).contains_key(k) by {}
        }
        Ok(table)
    }

    /// Reads the inside of a colour table group.
    pub(crate) fn parse_color_table(color_table_tokens: &Vec<Token<'a>>) -> (r: Result<
        ColorTable,
        ParserError,
    >)
        ensures
            match color_table_of(token_views(color_table_tokens@)) {
                Ok(table) => r is Ok && r->Ok_0@ == table,
                Err(e) => r is Err && r->Err_0@ == e,
            },
    {
        let ghost views = token_views(color_table_tokens@);
        if color_table_tokens.len() == 0 {
            return Err(ParserError::NoMoreToken);
        }
        match color_table_tokens[0] {
            Token::ControlSymbol((ControlWord::ColorTable, Property::Unset)) => {},
            _ => {
                return Err(
                    ParserError::InvalidToken(
                        String::from_str("The group does not start with a ColorTable token"),
                    ),
                );
            },
        }
        let mut table: ColorTable = HashMap::new();
        let mut current_key: u32 = 1;
        let mut current_color = Color { red: 0, green: 0, blue: 0 };
        let mut i: usize = 0;
        while i < color_table_tokens.len()
            invariant
                i <= color_table_tokens.len(),
                views == token_views(color_table_tokens@),
                1 <= current_key <= 65536,
                color_table_of(views) == color_table_from(
                    views,
                    i as int,
                    ColorTableState {
                        table: table@,
                        key: current_key as int,
                        color: current_color,
                    },
                ),
            decreases color_table_tokens.len() - i,
        {
            let token = color_table_tokens[i];
            match token {
                Token::ControlSymbol((control_word, property)) => match control_word {
                    ControlWord::ColorRed => {
                        match property.get_value_as_u8() {
                            Ok(red) => {
                                current_color.red = red;
                            },
                            Err(e) => {
                                return Err(e);
                            },
                        }
                    },
                    ControlWord::ColorGreen => {
                        match property.get_value_as_u8() {
                            Ok(green) => {
                                current_color.green = green;
                            },
                            Err(e) => {
                                return Err(e);
                            },
                        }
                    },
                    ControlWord::ColorBlue => {
                        match property.get_value_as_u8() {
                            Ok(blue) => {
                                current_color.blue = blue;
                            },
                            Err(e) => {
                                return Err(e);
                            },
                        }
                        if current_key > 65535 {
                            return Err(ParserError::InvalidColorIdentifier(property));
                        }
                        table.insert(current_key as ColorRef, current_color);
                        current_key += 1;
                        current_color = Color { red: 0, green: 0, blue: 0 };
                    },
                    _ => {},
                },
                _ => {},
            }
            i += 1;
        }
        Ok(table)
    }

    /// The stylesheet is read and left aside: its table stays empty.
    pub(crate) fn parse_stylesheet(_stylesheet_tokens: &Vec<Token<'a>>) -> (r: Result<
        StyleSheet,
        ParserError,
    >)
        ensures
            r is Ok,
            r->Ok_0@ == Map::<StyleRef, Style>::empty(),
    {
        Ok(HashMap::new())
    }

    /// An ignorable group is read and left aside.
    pub(crate) fn parse_ignore_groups(_tokens: &Vec<Token<'a>>) {
    }
}

/// The font under construction as a mathematical value.
pub open spec fn font_option_view(font: Option<Font>) -> Option<FontView> {
    match font {
        Some(font) => Some(font@),
        None => None,
    }
}

/// Enters the font under construction, if there is one, under its key.
fn enter_font(table: &mut FontTable, key: FontRef, font: &Option<Font>)
    ensures
        font_views(final(table)@) == (FontTableState {
            table: font_views(old(table)@),
            key,
            font: font_option_view(*font),
        }).entered(),
{
    let ghost before = table@;
    match font {
        Some(font) => {
            table.insert(key, copy_font(font));
            proof {
                assert(font_views(table@) =~= font_views(before).insert(key, font@));
            }
        },
        None => {},
    }
}

/// A font with the same name, character set and family.
fn copy_font(font: &Font) -> (copy: Font)
    ensures
        copy@ == font@,
{
    Font {
        name: font.name.clone(),
        character_set: font.character_set,
        font_family: font.font_family,
    }
}

} // verus!
