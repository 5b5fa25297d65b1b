use rtf_parser::document::{RtfDocument, RtfError};
use rtf_parser::lexer::LexerError;
use rtf_parser::parser::ParserError;

#[test]
fn get_text_from_document() {
    let rtf = r#"{ \rtf1\ansi{\fonttbl\f0\fswiss Helvetica;}\f0\pard Voici du texte en {\b gras}.\par }"#;
    let document = RtfDocument::try_from(rtf).unwrap();
    assert_eq!(document.get_text(), "Voici du texte en gras.")
}

#[test]
fn get_text_of_an_empty_document() {
    assert_eq!(RtfDocument::default().get_text(), "");
}

#[test]
fn try_from_a_string() {
    let document = RtfDocument::try_from(String::from(r"{\rtf1 one {\b two}}")).unwrap();
    assert_eq!(document.get_text(), "one two");
    assert_eq!(document.body.len(), 2);
}

#[test]
fn try_from_tells_the_lexer_from_the_parser() {
    assert!(matches!(
        RtfDocument::try_from(r"{\rtf1\ansi"),
        Err(RtfError::Lexer(LexerError::InvalidLastChar))
    ));
    assert!(matches!(RtfDocument::try_from(r"a}"), Err(RtfError::Parser(ParserError::InvalidToken(_)))));
    assert!(matches!(RtfDocument::try_from(""), Err(RtfError::Parser(ParserError::NoMoreToken))));
}

#[test]
fn ignorable_group_alone_is_an_empty_document() {
    let document = RtfDocument::try_from(r"{\*\expandedcolortbl;;}").unwrap();
    assert_eq!(document, RtfDocument::default());
    assert!(document.body.is_empty());
    assert_eq!(document.get_text(), "");
}

#[test]
fn document_of_the_lexer_and_the_parser_is_the_document_of_try_from() {
    let source = r"{\rtf1\ansi{\fonttbl\f0\fswiss Helvetica;}\f0\pard Voici du texte en {\b gras}.\par }";
    let tokens = rtf_parser::lexer::Lexer::scan(source).unwrap();
    let by_hand = rtf_parser::parser::Parser::new(tokens).parse().unwrap();
    assert_eq!(RtfDocument::try_from(source).unwrap(), by_hand);
}
