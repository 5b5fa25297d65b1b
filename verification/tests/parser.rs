use rtf_parser::document::RtfDocument;
use rtf_parser::header::CharacterSet::Ansi;
use rtf_parser::header::FontFamily::Swiss;
use rtf_parser::header::{Color, ColorTable, Font, FontTable, RtfHeader};
use rtf_parser::lexer::Lexer;
use rtf_parser::paragraph::Alignment;
use rtf_parser::parser::{Painter, Parser, ParserError, StyleBlock};
use rtf_parser::tokens::Token;

const TEST_FILE: &str = r#"{\rtf1\ansi\ansicpg1252\cocoartf2639
\cocoatextscaling0\cocoaplatform0{\fonttbl\f0\fswiss\fcharset0 Helvetica;\f1\fswiss\fcharset0 Helvetica-Bold;}
{\colortbl;\red255\green255\blue255;}
{\*\expandedcolortbl;;}
\paperw11900\paperh16840\margl1440\margr1440\vieww11520\viewh8400\viewkind0
\pard\tx566\tx1133\tx1700\tx2267\tx2834\tx3401\tx3968\tx4535\tx5102\tx5669\tx6236\tx6803\pardirnatural\partightenfactor0

\f0\fs24 \cf0 test de code \
if (a == b) \{\
    test();\
\} else \{\
    return;\
\}\

\f1\b Bold text}"#;

const LIST_ITEM: &str = r#"{\rtf1\ansi\ansicpg1252\cocoartf2639
\cocoatextscaling0\cocoaplatform0{\fonttbl\f0\fswiss\fcharset0 Helvetica;}
{\colortbl;\red255\green255\blue255;}
{\*\expandedcolortbl;;}
\paperw11900\paperh16840\margl1440\margr1440\vieww11520\viewh8400\viewkind0
\pard\tx566\tx1133\tx1700\tx2267\tx2834\tx3401\tx3968\tx4535\tx5102\tx5669\tx6236\tx6803\pardirnatural\partightenfactor0

\f0\fs24 \cf0 \
Empty start\
\
List test : \
 - item 1\
 - item 2\
 - item 3\
 - item 4}"#;

const FILE_WITH_IMAGE: &str = r#"{\rtf1\ansi\ansicpg1252\cocoartf2639
\cocoatextscaling0\cocoaplatform0{\fonttbl\f0\fswiss\fcharset0 Helvetica;}
{\colortbl;\red255\green255\blue255;}
\pard\pardeftab720\partightenfactor0

\f0\fs24 \cf0 A picture :
{\pict\pngblip\picw16\pich16\picwgoal240\pichgoal240
89504e470d0a1a0a0000000d4948445200000010000000100806000000
1ff3ff610000001974455874536f6674776172650041646f626520496d
61676552656164797  1c9653c0000000049454e44ae426082}
 and some text after it.\
}"#;

#[test]
fn parser_header() {
    let tokens = Lexer::scan(
        r#"{ \rtf1\ansi{\fonttbl\f0\fswiss Helvetica;}\f0\pard Voici du texte en {\b gras}.\par }"#,
    )
    .unwrap();
    let doc = Parser::new(tokens).parse().unwrap();
    assert_eq!(
        doc.header,
        RtfHeader {
            character_set: Ansi,
            font_table: FontTable::from([(
                0,
                Font { name: "Helvetica".into(), character_set: 0, font_family: Swiss }
            )]),
            ..RtfHeader::default()
        }
    );
    assert_eq!(
        doc.body,
        [
            StyleBlock {
                painter: Painter::default(),
                paragraph: Default::default(),
                text: "Voici du texte en ".into(),
            },
            StyleBlock {
                painter: Painter { bold: true, ..Painter::default() },
                paragraph: Default::default(),
                text: "gras".into(),
            },
            StyleBlock {
                painter: Painter::default(),
                paragraph: Default::default(),
                text: ".".into(),
            },
        ]
    );
}

#[test]
fn parse_multiline_document() {
    let document = r"{\rtf1\ansi\deff0 {\fonttbl {\f0 Courier;}{\f1 ProFontWindows;}}
            {\colortbl;\red0\green0\blue0;\red255\green0\blue0;\red255\green255\blue0;}
            This line is font 0 which is courier\line
            \f1
            This line is font 1\line
            \f0
            This line is font 0 again\line
            This line has a \cf2 red \cf1 word\line
            \highlight3 while this line has a \cf2 red \cf1 word and is highlighted in yellow\highlight0\line
            Finally, back to the default color.\line
            }";
    let tokens = Lexer::scan(document).unwrap();
    let _doc = Parser::new(tokens).parse().unwrap();
}

#[test]
fn parse_entire_file_header() {
    let file_content = TEST_FILE;
    let tokens = Lexer::scan(file_content).unwrap();
    let doc = Parser::new(tokens).parse().unwrap();
    assert_eq!(
        doc.header,
        RtfHeader {
            character_set: Ansi,
            font_table: FontTable::from([
                (0, Font { name: "Helvetica".into(), character_set: 0, font_family: Swiss }),
                (1, Font { name: "Helvetica-Bold".into(), character_set: 0, font_family: Swiss })
            ]),
            color_table: ColorTable::from([(1, Color { red: 255, green: 255, blue: 255 }),]),
            ..RtfHeader::default()
        }
    );
}

#[test]
fn parse_ignore_group() {
    let rtf = r"{\*\expandedcolortbl;;}";
    let tokens = Lexer::scan(rtf).unwrap();
    let mut parser = Parser::new(tokens);
    let document = parser.parse().unwrap();
    assert_eq!(parser.get_tokens(), Vec::<&Token>::new());
    assert_eq!(document.header, RtfHeader::default());
}

#[test]
fn parse_ignore_group_with_crlf() {
    let rtf = r"{\
        \
        \*\expandedcolortbl;;}";
    let tokens = Lexer::scan(rtf).unwrap();
    let mut parser = Parser::new(tokens);
    let document = parser.parse().unwrap();
    assert_eq!(parser.get_tokens(), Vec::<&Token>::new());
    assert_eq!(document.header, RtfHeader::default());
}

#[test]
fn parse_whitespaces() {
    let file_content = LIST_ITEM;
    let tokens = Lexer::scan(file_content).unwrap();
    let mut parser = Parser::new(tokens);
    let document = parser.parse().unwrap();
    assert_eq!(
        document.body,
        vec![StyleBlock {
            painter: Painter { font_size: 24, ..Painter::default() },
            paragraph: Default::default(),
            text: "\nEmpty start\n\nList test : \n - item 1\n - item 2\n - item 3\n - item 4".into(),
        },]
    );
}

#[test]
fn parse_image_data() {
    let rtf_content = FILE_WITH_IMAGE;
    let tokens = Lexer::scan(rtf_content).unwrap();
    let _document = Parser::new(tokens).parse();
}

#[test]
fn parse_header_and_body() {
    let rtf = r#"{\rtf1\ansi\ansicpg1252\cocoartf2639
\cocoatextscaling0\cocoaplatform0{\fonttbl\f0\froman\fcharset0 Times-Bold;\f1\froman\fcharset0 Times-Roman;\f2\froman\fcharset0 Times-Italic;
\f3\fswiss\fcharset0 Helvetica;}
{\colortbl;\red255\green255\blue255;\red0\green0\blue10;\red0\green0\blue1;\red191\green191\blue191;
}
\f0\b\fs21 \cf2 Lorem ipsum
\fs56 \
\pard\pardeftab709\sl288\slmult1\sa225\qj\partightenfactor0

\f1\b0\fs21 \cf0 \
\pard\pardeftab709\fi-432\ri-1\sb240\sa120\partightenfactor0
\ls1\ilvl0
\f0\b\fs36\cf2\plain Lorem ipsum dolor sit amet, consectetur adipiscing elit. Nunc ac faucibus odio. \
\pard\pardeftab709\sl288\slmult1\sa225\qj\partightenfactor0
}"#;
    let tokens = Lexer::scan(rtf).unwrap();
    let document = Parser::new(tokens).parse().unwrap();
    assert_eq!(document.body[0].text, "Lorem ipsum");
    assert_eq!(document.body[1].text, "\n");
    assert_eq!(document.body[2].text, "\n");
    assert_eq!(
        document.body[3].text,
        "Lorem ipsum dolor sit amet, consectetur adipiscing elit. Nunc ac faucibus odio. \n"
    );
}

#[test]
fn parse_paragraph_aligment() {
    let rtf = r#"{\rtf1\ansi\deff0 {\fonttbl {\f0 Times;}}
        \fs34
        {\pard \qc \fs60 Annalium Romae\par}
        {\pard \qj
            Urbem Romam a principio reges habuere; libertatem et
            \par}
        {\pard \ql
            Non Cinnae, non Sullae longa dominatio; et Pompei Crassique potentia
            \par}"#;
    let tokens = Lexer::scan(rtf).unwrap();
    let result = Parser::new(tokens).parse();
    assert!(matches!(result, Err(ParserError::MalformedPainterStack)));
}

#[test]
fn paragraph_alignment_of_a_balanced_document() {
    let rtf = r#"{\rtf1\ansi\deff0 {\fonttbl {\f0 Times;}}
        \fs34
        {\pard \qc \fs60 Annalium Romae\par}
        {\pard \qj
            Urbem Romam a principio reges habuere; libertatem et
            \par}
        {\pard \ql
            Non Cinnae, non Sullae longa dominatio; et Pompei Crassique potentia
            \par}}"#;
    let tokens = Lexer::scan(rtf).unwrap();
    let document = Parser::new(tokens).parse().unwrap();
    assert_eq!(document.body[0].paragraph.alignment, Alignment::Center);
    assert_eq!(document.body[1].paragraph.alignment, Alignment::Justify);
    assert_eq!(document.body[2].paragraph.alignment, Alignment::LeftAligned);
}

#[test]
fn should_parse_escaped_char() {
    let rtf = r"{\rtf1\ansi\deff0 {\fonttbl {\f0 Times;}}je suis une b\'eate}";
    let tokens = Lexer::scan(rtf).unwrap();
    let document = Parser::new(tokens).parse().unwrap();
    assert_eq!(document.body[0].text, "je suis une b\u{ea}te");
}

#[test]
fn parse_plain_directive() {
    let rtf = r"{\rtf1{\fonttbl {\f0 Times;}}\f0\b\fs36\u\cf2\plain Plain text}";
    let tokens = Lexer::scan(rtf).unwrap();
    let document = Parser::new(tokens).parse().unwrap();
    assert_eq!(document.body[0].painter, Painter::default());
}

#[test]
fn parse_color_table() {
    let rtf = r#"{\rtf1\ansi\ansicpg936\cocoartf2761
            \cocoatextscaling0\cocoaplatform0{\fonttbl\f0\fswiss\fcharset0 Helvetica;\f1\fnil\fcharset134 PingFangSC-Regular;}
            {\colortbl;\red255\green255\blue255;\red251\green2\blue7;\red114\green44\blue253;}
            {\*\expandedcolortbl;;\cssrgb\c100000\c14913\c0;\cssrgb\c52799\c30710\c99498;}
            \f0\fs24 \cf2 A
            \f1 \cf3 B}"#;
    let tokens = Lexer::scan(rtf).unwrap();
    let document = Parser::new(tokens).parse().unwrap();
    assert_eq!(
        document.header.color_table.get(&document.body[0].painter.color_ref).unwrap(),
        &Color { red: 251, green: 2, blue: 7 }
    );
}

#[test]
fn parse_underline() {
    let rtf = r#"{\rtf1\ansi\ansicpg936\cocoartf2761
            \cocoatextscaling0\cocoaplatform0{\fonttbl\f0\fswiss\fcharset0 Helvetica;}
            {\colortbl;\red255\green255\blue255;}
            {\*\expandedcolortbl;;}
            \paperw11900\paperh16840\margl1440\margr1440\vieww11520\viewh8400\viewkind0
            \pard\tx720\tx1440\tx2160\tx2880\tx3600\tx4320\tx5040\tx5760\tx6480\tx7200\tx7920\tx8640\pardirnatural\partightenfactor0

            \f0\fs24 \cf0 \ul \ulc0 a\ulnone A}"#;
    let tokens = Lexer::scan(rtf).unwrap();
    let document = Parser::new(tokens).parse().unwrap();
    assert_eq!(&document.body[0].painter.underline, &true);
    assert_eq!(&document.body[1].painter.underline, &false);
}

#[test]
fn parse_unicode() {
    let rtf = r#"{\rtf1\ansi\ansicpg936\cocoartf2761
            \cocoatextscaling0\cocoaplatform0{\fonttbl\f0\fswiss\fcharset0 Helvetica;}
            \f0\fs24 \cf0 \uc0\u21834  \u21834 }"#;
    let tokens = Lexer::scan(rtf).unwrap();
    let document = Parser::new(tokens).parse().unwrap();
    assert_eq!(&document.body[0].text, "\u{554a} \u{554a}");
}

#[test]
fn parse_two_characters_compound_unicode() {
    let rtf = r#"{\rtf1\ansi
            \f0 a\u55357 \u56447 1 \u21834}"#;
    let tokens = Lexer::scan(rtf).unwrap();
    let document = Parser::new(tokens).parse().unwrap();
    assert_eq!(&document.body[0].text, "a\u{1f47f}1 1 \u{554a}");
}

#[test]
fn parse_unicode_with_fallback() {
    let rtf = r#"{\rtf1\ansi
            {\f0 \u-10179\'5f\u-9089\'5f}
            {\f1 \uc2\u32767\'c2\'52}
            {\f2 \uc2\u26789\'97\'73}
            {\f3 b\'eate}
            {\f4 \uc0 b\'ea\'eate}
           }"#;
    let tokens = Lexer::scan(rtf).unwrap();
    let document = Parser::new(tokens).parse().unwrap();
    assert_eq!(&document.body[0].text, "\u{1f47f}");
    assert_eq!(&document.body[1].text, "\u{7fff}");
    assert_eq!(&document.body[2].text, "\u{68a5}");
    assert_eq!(&document.body[3].text, "b\u{ea}te");
    assert_eq!(&document.body[4].text, "b\u{ea}\u{ea}te");
}

#[test]
fn body_starts_with_a_group() {
    let rtf = r"{\rtf1\ansi\deff0{\fonttbl {\f0\fnil\fcharset0 Calibri;}{\f1\fnil\fcharset2 Symbol;}}{\colortbl ;}{\pard \u21435  \sb70\par}}";
    let tokens = Lexer::scan(rtf).unwrap();
    let _document = Parser::new(tokens).parse().unwrap();
}

#[test]
fn rtf_different_semantic() {
    let rtf1 = r"{\rtf1 \b bold \i Bold Italic \i0 Bold again}";
    let rtf2 = r"{\rtf1 \b bold {\i Bold Italic }Bold again}";
    let rtf3 = r"{\rtf1 \b bold \i Bold Italic \plain\b Bold again}";
    let doc1 = RtfDocument::try_from(rtf1).unwrap();
    let doc2 = RtfDocument::try_from(rtf2).unwrap();
    let doc3 = RtfDocument::try_from(rtf3).unwrap();
    assert_eq!(doc1.body, doc2.body);
    assert_eq!(doc3.body, doc2.body);
}
