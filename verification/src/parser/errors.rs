//! The errors of the parser.

use vstd::prelude::*;
use vstd::string::*;
use crate::text::{decimal, push_decimal};
use crate::tokens::Property;

verus! {

/// Why a sequence of tokens is no document.
#[derive(Debug, Clone)]
pub enum ParserError {
    /// The first or the last token is not the bracket that it must be, or a
    /// table group does not start with its control word.
    InvalidToken(String),
    /// An ignorable destination was left in the body.
    IgnorableDestinationParsingError,
    /// The brackets do not balance: a token needs a scope and none is open,
    /// or the tokens end with a scope left open or with the scope of the
    /// document itself closed.
    MalformedPainterStack,
    InvalidFontIdentifier(Property),
    InvalidColorIdentifier(Property),
    NoMoreToken,
    /// A number does not fit the type named.
    ValueCastError(String),
    /// The number is no UTF-16 code unit, or the code unit cannot be decoded
    /// where it stands.
    UnicodeParsingError(i32),
    /// A token that was already taken stands in the body.
    ParseEmptyToken,
}

/// A parser error as a mathematical value.
pub enum ParserErrorView {
    InvalidToken(Seq<char>),
    IgnorableDestinationParsingError,
    MalformedPainterStack,
    InvalidFontIdentifier(Property),
    InvalidColorIdentifier(Property),
    NoMoreToken,
    ValueCastError(Seq<char>),
    UnicodeParsingError(i32),
    ParseEmptyToken,
}

impl View for ParserError {
    type V = ParserErrorView;

    open spec fn view(&self) -> ParserErrorView {
        match self {
            ParserError::InvalidToken(message) => ParserErrorView::InvalidToken(message@),
            ParserError::IgnorableDestinationParsingError =>
                ParserErrorView::IgnorableDestinationParsingError,
            ParserError::MalformedPainterStack => ParserErrorView::MalformedPainterStack,
            ParserError::InvalidFontIdentifier(p) => ParserErrorView::InvalidFontIdentifier(*p),
            ParserError::InvalidColorIdentifier(p) => ParserErrorView::InvalidColorIdentifier(*p),
            ParserError::NoMoreToken => ParserErrorView::NoMoreToken,
            ParserError::ValueCastError(name) => ParserErrorView::ValueCastError(name@),
            ParserError::UnicodeParsingError(v) => ParserErrorView::UnicodeParsingError(*v),
            ParserError::ParseEmptyToken => ParserErrorView::ParseEmptyToken,
        }
    }
}


impl ParserErrorView {
    /// The message of the error.
    pub open spec fn message(self) -> Seq<char> {
        "[RTF Parser] : "@ + match self {
            ParserErrorView::InvalidToken(message) => message,
            ParserErrorView::IgnorableDestinationParsingError =>
                "No ignorable destination should be left"@,
            ParserErrorView::MalformedPainterStack =>
                "Malformed painter stack : Unbalanced number of brackets"@,
            ParserErrorView::InvalidFontIdentifier(property) => "Invalid font identifier : "@
                + property.spec_text(),
            ParserErrorView::InvalidColorIdentifier(property) => "Invalid color identifier : "@
                + property.spec_text(),
            ParserErrorView::NoMoreToken => "No more token to parse"@,
            ParserErrorView::ValueCastError(name) => "Unable to cast i32 to "@ + name,
            ParserErrorView::UnicodeParsingError(value) => "Unable to parse "@ + decimal(
                value as int,
            ) + " value to unicode"@,
            ParserErrorView::ParseEmptyToken =>
                "Try to parse an empty token, this should never happen"@,
        }
    }
}

impl ParserError {
    /// The message of the error, for a reader.
    pub fn message(&self) -> (text: String)
        ensures
            text@ == self@.message(),
    {
        let mut text = String::from_str("[RTF Parser] : ");
        match self {
            ParserError::InvalidToken(message) => {
                text.append(message.as_str());
            },
            ParserError::IgnorableDestinationParsingError => {
                text.append("No ignorable destination should be left");
            },
            ParserError::MalformedPainterStack => {
                text.append("Malformed painter stack : Unbalanced number of brackets");
            },
            ParserError::InvalidFontIdentifier(property) => {
                text.append("Invalid font identifier : ");
                property.push_text(&mut text);
            },
            ParserError::InvalidColorIdentifier(property) => {
                text.append("Invalid color identifier : ");
                property.push_text(&mut text);
            },
            ParserError::NoMoreToken => {
                text.append("No more token to parse");
            },
            ParserError::ValueCastError(name) => {
                text.append("Unable to cast i32 to ");
                text.append(name.as_str());
            },
            ParserError::UnicodeParsingError(value) => {
                text.append("Unable to parse ");
                push_decimal(&mut text, *value);
                text.append(" value to unicode");
            },
            ParserError::ParseEmptyToken => {
                text.append("Try to parse an empty token, this should never happen");
            },
        }
        text
    }
}

} // verus!
