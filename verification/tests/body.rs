use rtf_parser::document::RtfDocument;
use rtf_parser::header::{CharacterSet, Color, Font, FontFamily, RtfHeader};
use rtf_parser::lexer::Lexer;
use rtf_parser::paragraph::{Alignment, Indentation, Paragraph, SpaceBetweenLine, Spacing};
use rtf_parser::parser::{Painter, Parser, StyleBlock};
use rtf_parser::tokens::{ControlWord, Property, Token};

fn read(text: &str) -> RtfDocument {
    Parser::new(Lexer::scan(text).unwrap()).parse().unwrap()
}

#[test]
fn single_unicode_escape() {
    let document = read("{\\rtf1\\ansi \\u21834 }");
    assert_eq!(document.get_text(), "\u{554a}");
    assert_eq!(document.body.len(), 1);
    assert_eq!(document.header.character_set, CharacterSet::Ansi);
}

#[test]
fn fallback_bytes_are_left_out() {
    let document = read("{\\rtf1\\ansi \\uc2\\u26789\\'97\\'73}");
    assert_eq!(document.get_text(), "\u{68a5}");
    let document = read("{\\rtf1\\ansi \\uc1\\u26789\\'97\\'73}");
    assert_eq!(document.get_text(), "\u{68a5}s");
    let document = read("{\\rtf1\\ansi \\uc0\\u26789\\'97\\'73}");
    assert_eq!(document.get_text(), "\u{68a5}\u{97}s");
    let document = read("{\\rtf1\\ansi \\uc-3\\u26789\\'97\\'73}");
    assert_eq!(document.get_text(), "\u{68a5}\u{97}s");
}

#[test]
fn fallback_count_starts_anew_behind_each_unit_kept() {
    let document = read("{\\uc1\\u26789\\'41\\'42\\u26789\\'43}");
    assert_eq!(document.get_text(), "\u{68a5}B\u{68a5}");
    let document = read("{\\uc2\\u26789\\u65\\u66\\u67\\u26789}");
    assert_eq!(document.get_text(), "\u{68a5}C\u{68a5}");
}

#[test]
fn fallback_count_belongs_to_its_scope() {
    let document = read("{{\\uc0 }\\u26789\\'41}");
    assert_eq!(document.get_text(), "\u{68a5}");
    let document = read("{\\uc0{\\u26789\\'41}}");
    assert_eq!(document.get_text(), "\u{68a5}A");
}

#[test]
fn byte_escapes_alone_are_text() {
    let document = read("{\\'e9\\'e9t\\'e9}");
    assert_eq!(document.get_text(), "\u{e9}\u{e9}t\u{e9}");
    assert_eq!(document.body.len(), 1);
}

#[test]
fn run_goes_over_taken_tokens_as_over_any_other() {
    let tokens = vec![
        Token::OpeningBracket,
        Token::ControlSymbol((ControlWord::Unicode, Property::Value(0x41))),
        Token::EscapedChar('\u{100}'),
        Token::ClosingBracket,
    ];
    let document = Parser::new(tokens).parse().unwrap();
    assert_eq!(document.get_text(), "A\u{100}");
}

#[test]
fn scope_inherits_and_gives_back() {
    let document = read(r"{\b\fs30 a{\i\fs40 b{\b0 c}d}e}");
    let texts: Vec<&str> = document.body.iter().map(|block| block.text.as_str()).collect();
    assert_eq!(texts, vec!["a", "b", "c", "d", "e"]);
    let bold: Vec<bool> = document.body.iter().map(|block| block.painter.bold).collect();
    assert_eq!(bold, vec![true, true, false, true, true]);
    let italic: Vec<bool> = document.body.iter().map(|block| block.painter.italic).collect();
    assert_eq!(italic, vec![false, true, true, true, false]);
    let size: Vec<u16> = document.body.iter().map(|block| block.painter.font_size).collect();
    assert_eq!(size, vec![30, 40, 40, 40, 30]);
}

#[test]
fn painter_words() {
    let document = read(
        r"{\cf3\f2\fs28\b\i\ul\super\sub\scaps\strike a\b0\i0\ulnone\super0\sub0\scaps0\strike0 b\ul1\plain c}",
    );
    assert_eq!(
        document.body[0].painter,
        Painter {
            color_ref: 3,
            font_ref: 2,
            font_size: 28,
            bold: true,
            italic: true,
            underline: true,
            superscript: true,
            subscript: true,
            smallcaps: true,
            strike: true,
        }
    );
    assert_eq!(
        document.body[1].painter,
        Painter { color_ref: 3, font_ref: 2, font_size: 28, ..Painter::default() }
    );
    assert_eq!(document.body[2].painter, Painter::default());
    assert_eq!(Painter::default().font_size, 12);
    assert_eq!(document.body.len(), 3);
}

#[test]
fn paragraph_words() {
    let document = read(r"{\pardeftab709\qr\sb240\sa120\sl288\slmul2\fi-432\li10\ri-1 a\pard b}");
    assert_eq!(
        document.body[0].paragraph,
        Paragraph {
            alignment: Alignment::RightAligned,
            spacing: Spacing {
                before: 240,
                after: 120,
                between_line: SpaceBetweenLine::Value(288),
                line_multiplier: 2,
            },
            indent: Indentation { left: 0, right: 0, first_line: 0 },
            tab_width: 709,
        }
    );
    assert_eq!(document.body[1].paragraph, Paragraph::default());
    assert_eq!(document.body[0].painter, document.body[1].painter);
}

#[test]
fn alignment_words() {
    let document = read(r"{\qc a\qj b\ql c\qr d}");
    let found: Vec<Alignment> =
        document.body.iter().map(|block| block.paragraph.alignment).collect();
    assert_eq!(
        found,
        vec![Alignment::Center, Alignment::Justify, Alignment::LeftAligned, Alignment::RightAligned]
    );
    assert_eq!(Alignment::from(&ControlWord::Bold), Alignment::LeftAligned);
    assert_eq!(Alignment::from(&ControlWord::Center), Alignment::Center);
}

#[test]
fn space_between_lines() {
    assert_eq!(SpaceBetweenLine::from(1000), SpaceBetweenLine::Auto);
    assert_eq!(SpaceBetweenLine::from(-240), SpaceBetweenLine::Value(240));
    assert_eq!(SpaceBetweenLine::from(240), SpaceBetweenLine::Value(240));
    assert_eq!(SpaceBetweenLine::from(0), SpaceBetweenLine::Value(0));
    assert_eq!(SpaceBetweenLine::from(-1000), SpaceBetweenLine::Value(1000));
    assert_eq!(SpaceBetweenLine::from(i32::MIN), SpaceBetweenLine::Invalid);
    assert_eq!(SpaceBetweenLine::from(i32::MAX), SpaceBetweenLine::Value(i32::MAX));
    assert_eq!(SpaceBetweenLine::default(), SpaceBetweenLine::Auto);
}

#[test]
fn defaults() {
    assert_eq!(
        Paragraph::default(),
        Paragraph {
            alignment: Alignment::LeftAligned,
            spacing: Spacing {
                before: 0,
                after: 0,
                between_line: SpaceBetweenLine::Auto,
                line_multiplier: 0
            },
            indent: Indentation { left: 0, right: 0, first_line: 0 },
            tab_width: 0,
        }
    );
    assert_eq!(RtfHeader::default().character_set, CharacterSet::Ansi);
    assert!(RtfHeader::default().font_table.is_empty());
    assert_eq!(StyleBlock::default().text, "");
}

#[test]
fn unknown_words_change_nothing() {
    let document = read(r"{\cocoartf2639\highlight3 a\line\tx720 b}");
    assert_eq!(document.body.len(), 1);
    assert_eq!(document.get_text(), "ab");
    assert_eq!(document.body[0].painter, Painter::default());
    assert_eq!(document.body[0].paragraph, Paragraph::default());
}

#[test]
fn same_format_joins_the_run() {
    let document = read(r"{a{\b b}{\b c}\b d\b0 e{f}}");
    let texts: Vec<&str> = document.body.iter().map(|block| block.text.as_str()).collect();
    assert_eq!(texts, vec!["a", "bcd", "ef"]);
    for pair in document.body.windows(2) {
        assert!(pair[0].painter != pair[1].painter || pair[0].paragraph != pair[1].paragraph);
    }
}

#[test]
fn text_is_what_stands_between_the_marks() {
    let source = "{\\rtf1 one {\\b two\\\n}\\'41 three{\\i }four\\{}";
    let tokens = Lexer::scan(source).unwrap();
    let mut visible = String::new();
    for token in &tokens {
        match token {
            Token::PlainText(text) => visible.push_str(text),
            Token::EscapedChar(c) => visible.push(*c),
            Token::CRLF => visible.push('\n'),
            _ => {}
        }
    }
    let document = Parser::new(tokens).parse().unwrap();
    assert_eq!(document.get_text(), visible);
    assert_eq!(document.get_text(), "one two\nA threefour{");
}

#[test]
fn header_groups_are_taken_wherever_they_stand() {
    let tokens =
        Lexer::scan(r"{before{\fonttbl\f4\froman Times;}between{\*\x y}{\colortbl;\red1\green2\blue3;}{\stylesheet{\s0 Normal;}}after}")
            .unwrap();
    let mut parser = Parser::new(tokens);
    let document = parser.parse().unwrap();
    assert_eq!(document.get_text(), "beforebetweenafter");
    assert_eq!(
        document.header.font_table[&4],
        Font { name: "Times".into(), character_set: 0, font_family: FontFamily::Roman }
    );
    assert!(!document.header.font_table.contains_key(&0));
    assert_eq!(document.header.font_table.len(), 1);
    assert_eq!(document.header.color_table[&1], Color { red: 1, green: 2, blue: 3 });
    assert_eq!(document.header.color_table.len(), 1);
    assert!(document.header.stylesheet.is_empty());
    assert_eq!(
        parser.get_tokens(),
        vec![
            &Token::OpeningBracket,
            &Token::PlainText("before"),
            &Token::PlainText("between"),
            &Token::PlainText("after"),
            &Token::ClosingBracket
        ]
    );
}

#[test]
fn a_later_table_replaces_the_earlier() {
    let document = read(r"{{\fonttbl\f1 A;}{\fonttbl\f2 B;}}");
    assert!(!document.header.font_table.contains_key(&1));
    assert_eq!(document.header.font_table[&2].name, "B");
}

#[test]
fn each_font_of_the_table_starts_anew() {
    let document = read(r"{{\fonttbl\f0\fswiss Helvetica;;\f1 Courier;\f2\fbidi;}}");
    assert_eq!(
        document.header.font_table[&0],
        Font { name: "Helvetica".into(), character_set: 0, font_family: FontFamily::Swiss }
    );
    assert_eq!(
        document.header.font_table[&1],
        Font { name: "Courier".into(), character_set: 0, font_family: FontFamily::Nil }
    );
    assert_eq!(
        document.header.font_table[&2],
        Font { name: "".into(), character_set: 0, font_family: FontFamily::Bidi }
    );
    assert_eq!(document.header.font_table.len(), 3);
}

#[test]
fn font_table_holds_the_declared_keys_alone() {
    let tokens = vec![
        Token::OpeningBracket,
        Token::OpeningBracket,
        Token::ControlSymbol((ControlWord::FontTable, Property::Unset)),
        Token::ControlSymbol((ControlWord::FontNumber, Property::Value(1))),
        Token::PlainText("X;"),
        Token::ClosingBracket,
        Token::ClosingBracket,
    ];
    let document = Parser::new(tokens).parse().unwrap();
    assert_eq!(document.header.font_table.len(), 1);
    assert_eq!(
        document.header.font_table[&1],
        Font { name: "X".into(), character_set: 0, font_family: FontFamily::Nil }
    );
    let document = read(r"{{\fonttbl\froman Times;}}");
    assert!(document.header.font_table.is_empty());
    let document = read(r"{{\fonttbl}}");
    assert!(document.header.font_table.is_empty());
    let document = read(r"{{\fonttbl{\f3 A;}{\f3\fswiss B;}{\f7 C;}}}");
    assert_eq!(document.header.font_table.len(), 2);
    assert_eq!(
        document.header.font_table[&3],
        Font { name: "B".into(), character_set: 0, font_family: FontFamily::Swiss }
    );
    assert_eq!(document.header.font_table[&7].name, "C");
}

#[test]
fn font_key_is_the_low_16_bits() {
    let document = read(r"{{\fonttbl\f65537 A;}}");
    assert_eq!(document.header.font_table[&1].name, "A");
    let document = read(r"{{\fonttbl\f-1 B;}}");
    assert_eq!(document.header.font_table[&65535].name, "B");
}

#[test]
fn unclosed_header_group_takes_the_rest() {
    let tokens = Lexer::scan(r"{a}{\*\x{y}").unwrap();
    let mut parser = Parser::new(tokens);
    let document = parser.parse().unwrap();
    assert_eq!(document.get_text(), "a");
    assert_eq!(
        parser.get_tokens(),
        vec![&Token::OpeningBracket, &Token::PlainText("a"), &Token::ClosingBracket]
    );
    let tokens = Lexer::scan(r"{a{\*\x{y}").unwrap();
    let mut parser = Parser::new(tokens);
    assert!(parser.parse().is_err());
    assert_eq!(parser.get_tokens(), vec![&Token::OpeningBracket, &Token::PlainText("a")]);
}

#[test]
fn last_token_is_never_the_start_of_a_group() {
    let tokens = vec![Token::OpeningBracket, Token::ClosingBracket];
    let mut parser = Parser::new(tokens);
    let document = parser.parse().unwrap();
    assert!(document.body.is_empty());
    assert_eq!(parser.get_tokens().len(), 2);
}

#[test]
fn second_parse_reads_the_same_body() {
    let tokens = Lexer::scan(r"{{\fonttbl\f0 Times;}\b a}").unwrap();
    let mut parser = Parser::new(tokens);
    let first = parser.parse().unwrap();
    let second = parser.parse().unwrap();
    assert_eq!(first.body, second.body);
    assert_eq!(first.header.font_table.len(), 1);
    assert!(second.header.font_table.is_empty());
}

#[test]
fn font_family_names() {
    let names = [
        (r"\fnil", FontFamily::Nil),
        (r"\froman", FontFamily::Roman),
        (r"\fswiss", FontFamily::Swiss),
        (r"\fmodern", FontFamily::Modern),
        (r"\fscript", FontFamily::Script),
        (r"\fdecor", FontFamily::Decor),
        (r"\ftech", FontFamily::Tech),
        (r"\fbidi", FontFamily::Bidi),
    ];
    for (name, family) in names {
        assert_eq!(FontFamily::from(name), Some(family));
    }
    assert_eq!(FontFamily::from("fnil"), None);
    assert_eq!(FontFamily::from(r"\fswiss "), None);
    assert_eq!(FontFamily::from(""), None);
}

#[test]
fn character_set_of_a_token() {
    assert_eq!(
        CharacterSet::from(&Token::ControlSymbol((ControlWord::Ansi, Property::Unset))),
        Some(CharacterSet::Ansi)
    );
    assert_eq!(
        CharacterSet::from(&Token::ControlSymbol((ControlWord::Ansi, Property::Value(3)))),
        Some(CharacterSet::Ansi)
    );
    assert_eq!(CharacterSet::from(&Token::ControlSymbol((ControlWord::Rtf, Property::Unset))), None);
    assert_eq!(CharacterSet::from(&Token::PlainText("ansi")), None);
}

#[test]
fn long_document() {
    let mut source = String::from(r"{\rtf1\ansi{\fonttbl\f0\fswiss Helvetica;}");
    let mut expected = String::new();
    for i in 0..20000 {
        source.push_str(r"{\b bold}{\i0 plain \'e9}\par ");
        source.push_str(&format!("line {} ", i));
        expected.push_str("boldplain \u{e9}");
        expected.push_str(&format!("line {} ", i));
    }
    source.push('}');
    let tokens = Lexer::scan(&source).unwrap();
    assert_eq!(tokens.len(), 9 + 11 * 20000 + 1);
    let document = Parser::new(tokens).parse().unwrap();
    assert_eq!(document.get_text(), expected);
    assert_eq!(document.body.len(), 2 * 20000);
}

#[test]
fn each_colour_of_the_table_starts_anew() {
    let document = read(r"{{\colortbl;\red1\green2\blue3;\blue9;\green5\blue0;}}");
    assert_eq!(document.header.color_table[&1], Color { red: 1, green: 2, blue: 3 });
    assert_eq!(document.header.color_table[&2], Color { red: 0, green: 0, blue: 9 });
    assert_eq!(document.header.color_table[&3], Color { red: 0, green: 5, blue: 0 });
    assert_eq!(document.header.color_table.len(), 3);
}
