//! A lexer and parser for Rich Text Format documents.
//!
//! `Lexer::scan` cuts the source text into tokens, and `Parser::parse` turns
//! the tokens into a document: a header with the font and colour tables, and a
//! body of text runs that each carry one character and paragraph format.

pub mod document;
pub mod header;
pub mod laws;
pub mod lexer;
pub mod paragraph;
pub mod parser;
pub mod text;
pub mod tokens;
pub mod unicode;
pub mod utils;

pub use crate::document::{RtfDocument, RtfError};
pub use crate::header::{
    CharacterSet, Color, ColorRef, ColorTable, Font, FontFamily, FontRef, FontTable, RtfHeader,
    Style, StyleRef, StyleSheet,
};
pub use crate::lexer::{Lexer, LexerError};
pub use crate::paragraph::{Alignment, Indentation, Paragraph, SpaceBetweenLine, Spacing};
pub use crate::parser::{Painter, Parser, ParserError, StyleBlock};
pub use crate::tokens::{ControlSymbol, ControlWord, Property, Token};
pub use crate::utils::StrUtils;
