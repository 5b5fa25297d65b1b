use rtf_parser::lexer::{Lexer, LexerError};
use rtf_parser::tokens::ControlWord::{
    Ansi, Bold, ColorBlue, ColorNumber, ColorRed, FontNumber, FontSize, FontTable, Italic, Par,
    Pard, Rtf, Underline, Unicode, Unknown,
};
use rtf_parser::tokens::Property::{Unset, Value};
use rtf_parser::tokens::Token::{
    ClosingBracket, ControlSymbol, EscapedChar, IgnorableDestination, OpeningBracket, PlainText,
    CRLF,
};

#[test]
fn simple_tokenize_test() {
    let tokens = Lexer::tokenize(r"\b Words in bold").unwrap();
    assert_eq!(tokens, vec![ControlSymbol((Bold, Unset)), PlainText("Words in bold"),]);
}

#[test]
fn scan_entire_file_test() {
    let tokens = Lexer::scan(
        r#"{ \rtf1\ansi{\fonttbl\f0\fswiss Helvetica;}\f0\pard Voici du texte en {\b gras}.\par }"#,
    );
    assert_eq!(
        tokens.unwrap(),
        vec![
            OpeningBracket,
            ControlSymbol((Rtf, Value(1))),
            ControlSymbol((Ansi, Unset)),
            OpeningBracket,
            ControlSymbol((FontTable, Unset)),
            ControlSymbol((FontNumber, Value(0))),
            ControlSymbol((Unknown("\\fswiss"), Unset)),
            PlainText("Helvetica;"),
            ClosingBracket,
            ControlSymbol((FontNumber, Value(0))),
            ControlSymbol((Pard, Unset)),
            PlainText("Voici du texte en "),
            OpeningBracket,
            ControlSymbol((Bold, Unset)),
            PlainText("gras"),
            ClosingBracket,
            PlainText("."),
            ControlSymbol((Par, Unset)),
            ClosingBracket,
        ]
    );
}

#[test]
fn scan_escaped_text() {
    let tokens = Lexer::scan(
        r#"\f0\fs24 \cf0 test de code \
if (a == b) \{\
    test();\
\} else \{\
    return;\
\}}"#,
    );
    assert_eq!(
        tokens.unwrap(),
        vec![
            ControlSymbol((FontNumber, Value(0))),
            ControlSymbol((FontSize, Value(24))),
            ControlSymbol((ColorNumber, Value(0))),
            PlainText("test de code "),
            CRLF,
            PlainText("if (a == b) "),
            PlainText("{"),
            CRLF,
            PlainText("    test();"),
            CRLF,
            PlainText("} else "),
            PlainText("{"),
            CRLF,
            PlainText("    return;"),
            CRLF,
            PlainText("}"),
            ClosingBracket
        ],
    );
}

#[test]
fn scan_ignorable_destination() {
    let text = r"{\*\expandedcolortbl;;}";
    let tokens = Lexer::scan(text);
    assert_eq!(
        tokens.unwrap(),
        vec![
            OpeningBracket,
            IgnorableDestination,
            ControlSymbol((Unknown(r"\expandedcolortbl;"), Unset)),
            ClosingBracket,
        ]
    )
}

#[test]
fn should_parse_control_symbol_ending_semicolon() {
    let text = r"{\red255\blue255;}";
    let tokens = Lexer::scan(text);
    assert_eq!(
        tokens.unwrap(),
        vec![
            OpeningBracket,
            ControlSymbol((ColorRed, Value(255))),
            ControlSymbol((ColorBlue, Value(255))),
            ClosingBracket
        ]
    );
}

#[test]
fn lex_with_leading_whitespaces() {
    let rtf_content = "\t {\\rtf1 }\n ";
    let tokens = Lexer::scan(rtf_content).unwrap();
    assert_eq!(tokens, vec![OpeningBracket, ControlSymbol((Rtf, Value(1))), ClosingBracket]);
}

#[test]
fn should_parse_line_return() {
    let text = r#"{\partightenfactor0

\fs24 \cf0 Font size 12,
\f0\b bold text. \ul Underline,bold text.\
 }"#;
    let tokens = Lexer::scan(text).unwrap();
    assert_eq!(
        tokens,
        [
            OpeningBracket,
            ControlSymbol((Unknown("\\partightenfactor"), Value(0))),
            ControlSymbol((FontSize, Value(24))),
            ControlSymbol((ColorNumber, Value(0))),
            PlainText("Font size 12,"),
            ControlSymbol((FontNumber, Value(0))),
            ControlSymbol((Bold, Unset)),
            PlainText("bold text. "),
            ControlSymbol((Underline, Unset)),
            PlainText("Underline,bold text."),
            CRLF,
            ClosingBracket
        ]
    );
}

#[test]
fn space_after_control_word() {
    let text = r"{in{\i cred}ible}";
    let tokens = Lexer::scan(text).unwrap();
    assert_eq!(
        tokens,
        [
            OpeningBracket,
            PlainText("in"),
            OpeningBracket,
            ControlSymbol((Italic, Unset)),
            PlainText("cred"),
            ClosingBracket,
            PlainText("ible"),
            ClosingBracket,
        ]
    )
}

#[test]
fn should_handle_escaped_char() {
    let rtf = r"{je suis une b\'eate}";
    let tokens = Lexer::scan(rtf).unwrap();
    assert_eq!(
        tokens,
        [
            OpeningBracket,
            PlainText("je suis une b"),
            EscapedChar('\u{ea}'),
            PlainText("te"),
            ClosingBracket,
        ]
    );
}

#[test]
fn scan_empty_source_gives_no_token() {
    assert_eq!(Lexer::scan("").unwrap(), vec![]);
    assert_eq!(Lexer::scan(" \n\t ").unwrap(), vec![]);
}

#[test]
fn scan_rejects_a_source_without_its_last_bracket() {
    assert!(matches!(Lexer::scan(r"{\rtf1\ansi"), Err(LexerError::InvalidLastChar)));
    assert!(matches!(Lexer::scan(r"{\rtf1 text"), Err(LexerError::InvalidLastChar)));
    assert!(matches!(Lexer::scan("}x"), Err(LexerError::InvalidLastChar)));
    assert_eq!(Lexer::scan("}}").unwrap(), vec![ClosingBracket, ClosingBracket]);
    assert_eq!(Lexer::scan("}").unwrap(), vec![ClosingBracket]);
}

#[test]
fn scan_keeps_what_follows_a_backslash_in_the_slice() {
    let tokens = Lexer::scan(r"{\\\{x}").unwrap();
    assert_eq!(tokens, vec![OpeningBracket, PlainText(r"\\{x"), ClosingBracket]);
}

#[test]
fn scan_trims_unicode_whitespace_around_the_source() {
    let tokens = Lexer::scan("\u{3000}\u{a0}{a}\u{2028}").unwrap();
    assert_eq!(tokens, vec![OpeningBracket, PlainText("a"), ClosingBracket]);
}

#[test]
fn scan_counts_characters_and_not_bytes() {
    let tokens = Lexer::scan("{h\u{e9}llo \u{554a}{\\b w\u{f6}rld}}").unwrap();
    assert_eq!(
        tokens,
        vec![
            OpeningBracket,
            PlainText("h\u{e9}llo \u{554a}"),
            OpeningBracket,
            ControlSymbol((Bold, Unset)),
            PlainText("w\u{f6}rld"),
            ClosingBracket,
            ClosingBracket,
        ]
    );
}

#[test]
fn tokenize_spaces_alone_is_an_error() {
    match Lexer::tokenize("   ") {
        Err(LexerError::Error(message)) => assert_eq!(message, "Empty token    "),
        other => panic!("unexpected result {:?}", other),
    }
    match Lexer::tokenize("") {
        Err(LexerError::Error(message)) => assert_eq!(message, "Empty token "),
        other => panic!("unexpected result {:?}", other),
    }
}

#[test]
fn tokenize_whitespace_gives_no_token() {
    assert_eq!(Lexer::tokenize("\n").unwrap(), vec![]);
    assert_eq!(Lexer::tokenize(" \t ").unwrap(), vec![]);
}

#[test]
fn tokenize_plain_text_keeps_its_spaces() {
    assert_eq!(Lexer::tokenize("  two words ").unwrap(), vec![PlainText("  two words ")]);
}

#[test]
fn tokenize_byte_escape_needs_two_hex_digits() {
    assert_eq!(Lexer::tokenize(r"\'e9").unwrap(), vec![EscapedChar('\u{e9}')]);
    assert_eq!(Lexer::tokenize(r"\'E9").unwrap(), vec![EscapedChar('\u{e9}')]);
    assert_eq!(Lexer::tokenize(r"\'00").unwrap(), vec![EscapedChar('\u{0}')]);
    assert_eq!(Lexer::tokenize(r"\'ff").unwrap(), vec![EscapedChar('\u{ff}')]);
    match Lexer::tokenize(r"\'e") {
        Err(LexerError::InvalidUnicode(escape)) => assert_eq!(escape, "'e"),
        other => panic!("unexpected result {:?}", other),
    }
    match Lexer::tokenize(r"\'") {
        Err(LexerError::InvalidUnicode(escape)) => assert_eq!(escape, "'"),
        other => panic!("unexpected result {:?}", other),
    }
    match Lexer::tokenize(r"\'zz") {
        Err(LexerError::InvalidUnicode(escape)) => assert_eq!(escape, "'zz"),
        other => panic!("unexpected result {:?}", other),
    }
    match Lexer::tokenize(r"\'+f") {
        Err(LexerError::InvalidUnicode(escape)) => assert_eq!(escape, "'+f"),
        other => panic!("unexpected result {:?}", other),
    }
}

#[test]
fn tokenize_control_word_with_a_bad_number_is_an_error() {
    match Lexer::tokenize(r"\fs1-2") {
        Err(LexerError::Error(message)) => {
            assert_eq!(message, "[Lexer] Unable to parse 1-2 as integer")
        }
        other => panic!("unexpected result {:?}", other),
    }
}

#[test]
fn tokenize_unicode_word_gives_its_tail_once_more() {
    assert_eq!(
        Lexer::tokenize(r"\u21834  ").unwrap(),
        vec![ControlSymbol((Unicode, Value(21834))), PlainText(" ")]
    );
    assert_eq!(
        Lexer::tokenize(r"\u21834 x").unwrap(),
        vec![ControlSymbol((Unicode, Value(21834))), PlainText("x"), PlainText("x")]
    );
    assert_eq!(Lexer::tokenize(r"\u21834 ").unwrap(), vec![ControlSymbol((Unicode, Value(21834)))]);
    assert_eq!(
        Lexer::tokenize(r"\b x").unwrap(),
        vec![ControlSymbol((Bold, Unset)), PlainText("x")]
    );
}

#[test]
fn tokenize_other_escapes() {
    assert_eq!(Lexer::tokenize(r"\*").unwrap(), vec![IgnorableDestination]);
    assert_eq!(Lexer::tokenize(r"\~").unwrap(), vec![]);
    assert_eq!(Lexer::tokenize("\\\nnext").unwrap(), vec![CRLF, PlainText("next")]);
    assert_eq!(Lexer::tokenize(r"\\").unwrap(), vec![PlainText(r"\")]);
    assert_eq!(Lexer::tokenize(r"  \{ x").unwrap(), vec![PlainText("{ x")]);
    assert_eq!(Lexer::tokenize("\\").unwrap(), vec![PlainText("\\")]);
}

#[test]
fn tokenize_brackets_and_line_feed() {
    assert_eq!(Lexer::tokenize("{").unwrap(), vec![OpeningBracket]);
    assert_eq!(Lexer::tokenize("} ").unwrap(), vec![ClosingBracket]);
    assert_eq!(Lexer::tokenize("{{a").unwrap(), vec![OpeningBracket, OpeningBracket, PlainText("a")]);
    assert_eq!(Lexer::tokenize("\n{").unwrap(), vec![OpeningBracket]);
    assert_eq!(Lexer::tokenize("\n  ").unwrap(), vec![]);
    assert!(matches!(Lexer::tokenize("\n\\'"), Err(LexerError::InvalidUnicode(_))));
}
