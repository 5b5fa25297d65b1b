//! The vocabulary of the lexer: tokens, control words and their arguments.

use vstd::prelude::*;
use vstd::string::*;
use vstd::std_specs::convert::TryFromSpec;
use crate::lexer::{LexerError, LexerErrorView};
use crate::parser::{ParserError, ParserErrorView};
use crate::text::{
    char_is_digit, decimal, is_digit, push_decimal, skip_class_back, spells, to_chars, trail,
    CharClass,
};

verus! {

/// One piece of an RTF source text.
#[derive(Copy, Clone, Debug, PartialEq, Eq)]
pub enum Token<'a> {
    PlainText(&'a str),
    /// A character written as a two-digit byte escape.
    EscapedChar(char),
    OpeningBracket,
    ClosingBracket,
    /// An escaped line break.
    CRLF,
    /// The marker `\*` of a group that a reader may skip.
    IgnorableDestination,
    ControlSymbol(ControlSymbol<'a>),
    /// What the parser leaves in the place of a token that it has taken.
    Empty,
}

/// A control word and its argument.
pub type ControlSymbol<'a> = (ControlWord<'a>, Property);

/// The numeric or boolean argument that follows a control word.
#[derive(Copy, Clone, Debug, PartialEq, Eq, Structural)]
pub enum Property {
    On,
    Off,
    Value(i32),
    /// The control word came without an argument.
    Unset,
}

/// The keyword of a control word.
#[derive(Copy, Clone, Debug, PartialEq, Eq)]
pub enum ControlWord<'a> {
    Rtf,
    Ansi,
    Unicode,
    UnicodeIgnoreCount,
    FontTable,
    FontCharset,
    FontNumber,
    /// In half points.
    FontSize,
    ColorNumber,
    ColorTable,
    FileTable,
    StyleSheet,
    Italic,
    Bold,
    Underline,
    UnderlineNone,
    Superscript,
    Subscript,
    Smallcaps,
    Strikethrough,
    /// A new paragraph.
    Par,
    /// Back to the default paragraph format.
    Pard,
    Sectd,
    /// Back to the default character format.
    Plain,
    ParStyle,
    /// The tab width.
    ParDefTab,
    FirstLineIdent,
    LeftIndent,
    RightIndent,
    LeftAligned,
    RightAligned,
    Center,
    Justify,
    SpaceBefore,
    SpaceAfter,
    SpaceBetweenLine,
    SpaceLineMul,
    ColorRed,
    ColorGreen,
    ColorBlue,
    /// Any other identifier, kept as it was written, backslash included.
    Unknown(&'a str),
}

/// A control word as a mathematical value.
pub enum ControlWordView {
    Rtf,
    Ansi,
    Unicode,
    UnicodeIgnoreCount,
    FontTable,
    FontCharset,
    FontNumber,
    FontSize,
    ColorNumber,
    ColorTable,
    FileTable,
    StyleSheet,
    Italic,
    Bold,
    Underline,
    UnderlineNone,
    Superscript,
    Subscript,
    Smallcaps,
    Strikethrough,
    Par,
    Pard,
    Sectd,
    Plain,
    ParStyle,
    ParDefTab,
    FirstLineIdent,
    LeftIndent,
    RightIndent,
    LeftAligned,
    RightAligned,
    Center,
    Justify,
    SpaceBefore,
    SpaceAfter,
    SpaceBetweenLine,
    SpaceLineMul,
    ColorRed,
    ColorGreen,
    ColorBlue,
    Unknown(Seq<char>),
}

/// A token as a mathematical value.
pub enum TokenView {
    PlainText(Seq<char>),
    EscapedChar(char),
    OpeningBracket,
    ClosingBracket,
    CRLF,
    IgnorableDestination,
    ControlSymbol(ControlWordView, Property),
    Empty,
}

impl<'a> View for ControlWord<'a> {
    type V = ControlWordView;

    open spec fn view(&self) -> ControlWordView {
        match *self {
            ControlWord::Rtf => ControlWordView::Rtf,
            ControlWord::Ansi => ControlWordView::Ansi,
            ControlWord::Unicode => ControlWordView::Unicode,
            ControlWord::UnicodeIgnoreCount => ControlWordView::UnicodeIgnoreCount,
            ControlWord::FontTable => ControlWordView::FontTable,
            ControlWord::FontCharset => ControlWordView::FontCharset,
            ControlWord::FontNumber => ControlWordView::FontNumber,
            ControlWord::FontSize => ControlWordView::FontSize,
            ControlWord::ColorNumber => ControlWordView::ColorNumber,
            ControlWord::ColorTable => ControlWordView::ColorTable,
            ControlWord::FileTable => ControlWordView::FileTable,
            ControlWord::StyleSheet => ControlWordView::StyleSheet,
            ControlWord::Italic => ControlWordView::Italic,
            ControlWord::Bold => ControlWordView::Bold,
            ControlWord::Underline => ControlWordView::Underline,
            ControlWord::UnderlineNone => ControlWordView::UnderlineNone,
            ControlWord::Superscript => ControlWordView::Superscript,
            ControlWord::Subscript => ControlWordView::Subscript,
            ControlWord::Smallcaps => ControlWordView::Smallcaps,
            ControlWord::Strikethrough => ControlWordView::Strikethrough,
            ControlWord::Par => ControlWordView::Par,
            ControlWord::Pard => ControlWordView::Pard,
            ControlWord::Sectd => ControlWordView::Sectd,
            ControlWord::Plain => ControlWordView::Plain,
            ControlWord::ParStyle => ControlWordView::ParStyle,
            ControlWord::ParDefTab => ControlWordView::ParDefTab,
            ControlWord::FirstLineIdent => ControlWordView::FirstLineIdent,
            ControlWord::LeftIndent => ControlWordView::LeftIndent,
            ControlWord::RightIndent => ControlWordView::RightIndent,
            ControlWord::LeftAligned => ControlWordView::LeftAligned,
            ControlWord::RightAligned => ControlWordView::RightAligned,
            ControlWord::Center => ControlWordView::Center,
            ControlWord::Justify => ControlWordView::Justify,
            ControlWord::SpaceBefore => ControlWordView::SpaceBefore,
            ControlWord::SpaceAfter => ControlWordView::SpaceAfter,
            ControlWord::SpaceBetweenLine => ControlWordView::SpaceBetweenLine,
            ControlWord::SpaceLineMul => ControlWordView::SpaceLineMul,
            ControlWord::ColorRed => ControlWordView::ColorRed,
            ControlWord::ColorGreen => ControlWordView::ColorGreen,
            ControlWord::ColorBlue => ControlWordView::ColorBlue,
            ControlWord::Unknown(name) => ControlWordView::Unknown(name@),
        }
    }
}

impl<'a> View for Token<'a> {
    type V = TokenView;

    open spec fn view(&self) -> TokenView {
        match *self {
            Token::PlainText(text) => TokenView::PlainText(text@),
            Token::EscapedChar(c) => TokenView::EscapedChar(c),
            Token::OpeningBracket => TokenView::OpeningBracket,
            Token::ClosingBracket => TokenView::ClosingBracket,
            Token::CRLF => TokenView::CRLF,
            Token::IgnorableDestination => TokenView::IgnorableDestination,
            Token::ControlSymbol(symbol) => TokenView::ControlSymbol(symbol.0@, symbol.1),
            Token::Empty => TokenView::Empty,
        }
    }
}

/// The views of a sequence of tokens.
pub open spec fn token_views(tokens: Seq<Token>) -> Seq<TokenView> {
    tokens.map_values(|t: Token| t@)
}

impl Property {
    /// `On` and a missing argument switch a format on, `Off` switches it off,
    /// and a number switches it on exactly when it is 1.
    pub open spec fn spec_as_bool(self) -> bool {
        match self {
            Property::On => true,
            Property::Off => false,
            Property::Unset => true,
            Property::Value(v) => v == 1,
        }
    }

    /// The number that the argument stands for: its value, or 0 where it has none.
    pub open spec fn spec_value(self) -> i32 {
        match self {
            Property::Value(v) => v,
            _ => 0,
        }
    }

    /// The UTF-16 code unit that the argument of `\u` stands for. A unit above
    /// 32767 is written as a negative number, 65536 below its value.
    pub open spec fn spec_unicode_value(self) -> Result<u16, ParserErrorView> {
        match self {
            Property::Value(v) => {
                let unit = if v < 0 {
                    v + 65536
                } else {
                    v as int
                };
                if 0 <= unit <= 65535 {
                    Ok(unit as u16)
                } else {
                    Err(ParserErrorView::UnicodeParsingError(v))
                }
            },
            _ => Err(ParserErrorView::UnicodeParsingError(0)),
        }
    }

    /// The number of the argument as a 16-bit unsigned number.
    pub open spec fn spec_value_as_u16(self) -> Result<u16, ParserErrorView> {
        if 0 <= self.spec_value() <= u16::MAX {
            Ok(self.spec_value() as u16)
        } else {
            Err(ParserErrorView::ValueCastError("u16"@))
        }
    }

    /// The number of the argument as a byte.
    pub open spec fn spec_value_as_u8(self) -> Result<u8, ParserErrorView> {
        if 0 <= self.spec_value() <= u8::MAX {
            Ok(self.spec_value() as u8)
        } else {
            Err(ParserErrorView::ValueCastError("u8"@))
        }
    }

    /// The argument as `message` writes it.
    pub open spec fn spec_text(self) -> Seq<char> {
        match self {
            Property::On => "On"@,
            Property::Off => "Off"@,
            Property::Value(v) => "Value("@ + decimal(v as int) + ")"@,
            Property::Unset => "Unset"@,
        }
    }

    /// Adds the argument to a text as an error message writes it.
    pub fn push_text(&self, text: &mut String)
        ensures
            final(text)@ == old(text)@ + self.spec_text(),
    {
        match self {
            Property::On => {
                text.append("On");
            },
            Property::Off => {
                text.append("Off");
            },
            Property::Value(v) => {
                text.append("Value(");
                push_decimal(text, *v);
                text.append(")");
            },
            Property::Unset => {
                text.append("Unset");
            },
        }
    }

    /// Whether the argument switches a format on.
    pub fn as_bool(&self) -> (b: bool)
        ensures
            b == self.spec_as_bool(),
    {
        match self {
            Property::On => true,
            Property::Off => false,
            Property::Unset => true,
            Property::Value(val) => *val == 1,
        }
    }

    /// Converts the number of the argument to the type `T`. Where the
    /// conversion of `T` is specified, the result is the converted number, or
    /// `ValueCastError` exactly when the number does not fit. The error cannot
    /// name `T`, and says "the requested type".
    pub fn get_value_as<T: TryFrom<i32>>(&self) -> (r: Result<T, ParserError>)
        ensures
            T::obeys_try_from_spec() ==> (match T::try_from_spec(self.spec_value()) {
                Ok(v) => r == Ok::<T, ParserError>(v),
                Err(_) => r is Err,
            }),
            r is Err ==> r->Err_0@ == ParserErrorView::ValueCastError("the requested type"@),
    {
        let value: i32 = match self {
            Property::Value(v) => *v,
            _ => 0,
        };
        match T::try_from(value) {
            Ok(v) => Ok(v),
            Err(_) => Err(ParserError::ValueCastError(String::from_str("the requested type"))),
        }
    }

    /// `get_value_as` for `u16`, with an error that names the type.
    pub fn get_value_as_u16(&self) -> (r: Result<u16, ParserError>)
        ensures
            match self.spec_value_as_u16() {
                Ok(v) => r == Ok::<u16, ParserError>(v),
                Err(e) => r is Err && r->Err_0@ == e,
            },
    {
        match self.get_value_as::<u16>() {
            Ok(v) => Ok(v),
            Err(_) => Err(ParserError::ValueCastError(String::from_str("u16"))),
        }
    }

    /// `get_value_as` for `u8`, with an error that names the type.
    pub fn get_value_as_u8(&self) -> (r: Result<u8, ParserError>)
        ensures
            match self.spec_value_as_u8() {
                Ok(v) => r == Ok::<u8, ParserError>(v),
                Err(e) => r is Err && r->Err_0@ == e,
            },
    {
        match self.get_value_as::<u8>() {
            Ok(v) => Ok(v),
            Err(_) => Err(ParserError::ValueCastError(String::from_str("u8"))),
        }
    }

    /// The number of the argument, or 0 where it has none.
    pub fn get_value(&self) -> (v: i32)
        ensures
            v == self.spec_value(),
    {
        match self {
            Property::Value(v) => *v,
            _ => 0,
        }
    }

    /// The UTF-16 code unit that the argument of `\u` stands for.
    pub fn get_unicode_value(&self) -> (r: Result<u16, ParserError>)
        ensures
            match self.spec_unicode_value() {
                Ok(unit) => r == Ok::<u16, ParserError>(unit),
                Err(e) => r is Err && r->Err_0@ == e,
            },
    {
        match self {
            Property::Value(value) => {
                let offset: i32 = if *value < 0 {
                    65_536
                } else {
                    0
                };
                let unit: i32 = *value + offset;
                if 0 <= unit && unit <= 65_535 {
                    Ok(unit as u16)
                } else {
                    Err(ParserError::UnicodeParsingError(*value))
                }
            },
            _ => Err(ParserError::UnicodeParsingError(0)),
        }
    }
}

/// The number that a run of decimal digits spells.
pub open spec fn digits_value(s: Seq<char>) -> nat
    decreases s.len(),
{
    if s.len() == 0 {
        0
    } else {
        (digits_value(s.drop_last()) * 10 + (s.last() as u32 - '0' as u32)) as nat
    }
}

/// Whether every character is a decimal digit.
pub open spec fn all_digits(s: Seq<char>) -> bool {
    forall|i: int| 0 <= i < s.len() ==> is_digit(#[trigger] s[i])
}

/// The number that `s` spells: decimal digits, at least one, after at most
/// one minus sign.
pub open spec fn number_value(s: Seq<char>) -> Option<int> {
    if s.len() > 0 && s[0] == '-' {
        if s.len() > 1 && all_digits(s.skip(1)) {
            Some(-(digits_value(s.skip(1)) as int))
        } else {
            None
        }
    } else if s.len() > 0 && all_digits(s) {
        Some(digits_value(s) as int)
    } else {
        None
    }
}

/// The 32-bit signed number that `s` spells, if it spells one.
pub open spec fn i32_value(s: Seq<char>) -> Option<i32> {
    match number_value(s) {
        Some(v) => if i32::MIN <= v <= i32::MAX {
            Some(v as i32)
        } else {
            None
        },
        None => None,
    }
}

/// The control word that the letters of an identifier name.
pub open spec fn keyword(prefix: Seq<char>) -> ControlWordView {
    if prefix == "\\rtf"@ {
        ControlWordView::Rtf
    } else if prefix == "\\ansi"@ {
        ControlWordView::Ansi
    } else if prefix == "\\u"@ {
        ControlWordView::Unicode
    } else if prefix == "\\uc"@ {
        ControlWordView::UnicodeIgnoreCount
    } else if prefix == "\\fonttbl"@ {
        ControlWordView::FontTable
    } else if prefix == "\\colortbl"@ {
        ControlWordView::ColorTable
    } else if prefix == "\\filetbl"@ {
        ControlWordView::FileTable
    } else if prefix == "\\stylesheet"@ {
        ControlWordView::StyleSheet
    } else if prefix == "\\fcharset"@ {
        ControlWordView::FontCharset
    } else if prefix == "\\f"@ {
        ControlWordView::FontNumber
    } else if prefix == "\\fs"@ {
        ControlWordView::FontSize
    } else if prefix == "\\cf"@ {
        ControlWordView::ColorNumber
    } else if prefix == "\\i"@ {
        ControlWordView::Italic
    } else if prefix == "\\b"@ {
        ControlWordView::Bold
    } else if prefix == "\\ul"@ {
        ControlWordView::Underline
    } else if prefix == "\\ulnone"@ {
        ControlWordView::UnderlineNone
    } else if prefix == "\\super"@ {
        ControlWordView::Superscript
    } else if prefix == "\\sub"@ {
        ControlWordView::Subscript
    } else if prefix == "\\scaps"@ {
        ControlWordView::Smallcaps
    } else if prefix == "\\strike"@ {
        ControlWordView::Strikethrough
    } else if prefix == "\\par"@ {
        ControlWordView::Par
    } else if prefix == "\\pard"@ {
        ControlWordView::Pard
    } else if prefix == "\\sectd"@ {
        ControlWordView::Sectd
    } else if prefix == "\\plain"@ {
        ControlWordView::Plain
    } else if prefix == "\\s"@ {
        ControlWordView::ParStyle
    } else if prefix == "\\pardeftab"@ {
        ControlWordView::ParDefTab
    } else if prefix == "\\ql"@ {
        ControlWordView::LeftAligned
    } else if prefix == "\\qr"@ {
        ControlWordView::RightAligned
    } else if prefix == "\\qj"@ {
        ControlWordView::Justify
    } else if prefix == "\\qc"@ {
        ControlWordView::Center
    } else if prefix == "\\fi"@ {
        ControlWordView::FirstLineIdent
    } else if prefix == "\\ri"@ {
        ControlWordView::RightIndent
    } else if prefix == "\\li"@ {
        ControlWordView::LeftIndent
    } else if prefix == "\\sb"@ {
        ControlWordView::SpaceBefore
    } else if prefix == "\\sa"@ {
        ControlWordView::SpaceAfter
    } else if prefix == "\\sl"@ {
        ControlWordView::SpaceBetweenLine
    } else if prefix == "\\slmul"@ {
        ControlWordView::SpaceLineMul
    } else if prefix == "\\red"@ {
        ControlWordView::ColorRed
    } else if prefix == "\\green"@ {
        ControlWordView::ColorGreen
    } else if prefix == "\\blue"@ {
        ControlWordView::ColorBlue
    } else {
        ControlWordView::Unknown(prefix)
    }
}

/// The letters of an identifier: what stands before its trailing digits and
/// minus signs.
pub open spec fn ident_prefix(ident: Seq<char>) -> Seq<char> {
    ident.take(ident.len() - trail(ident, CharClass::NumberPart))
}

/// The argument of an identifier: its trailing digits and minus signs.
pub open spec fn ident_suffix(ident: Seq<char>) -> Seq<char> {
    ident.skip(ident.len() - trail(ident, CharClass::NumberPart))
}

/// The message of the error for an argument that spells no 32-bit number.
pub open spec fn number_error_text(suffix: Seq<char>) -> Seq<char> {
    "[Lexer] Unable to parse "@ + suffix + " as integer"@
}

/// The control word and the argument that an identifier stands for. The
/// letters name the word, and a name outside the table is kept as `Unknown`.
/// An argument must spell a 32-bit signed number.
pub open spec fn control_symbol_of(ident: Seq<char>) -> Result<
    (ControlWordView, Property),
    LexerErrorView,
> {
    let suffix = ident_suffix(ident);
    if suffix.len() == 0 {
        Ok((keyword(ident_prefix(ident)), Property::Unset))
    } else {
        match i32_value(suffix) {
            Some(v) => Ok((keyword(ident_prefix(ident)), Property::Value(v))),
            None => Err(LexerErrorView::Error(number_error_text(suffix))),
        }
    }
}

proof fn lemma_digits_value_grows(s: Seq<char>, i: int, j: int)
    requires
        0 <= i <= j <= s.len(),
        all_digits(s),
    ensures
        digits_value(s.take(i)) <= digits_value(s.take(j)),
    decreases j - i,
{
    if i < j {
        lemma_digits_value_grows(s, i, j - 1);
        assert(s.take(j).drop_last() == s.take(j - 1));
    }
}

/// Reads `chars[from..to]` as a run of decimal digits. The result is the
/// number, or `None` where a character is no digit, the run is empty or
/// the number is above 2147483648.
fn parse_digits(chars: &Vec<char>, from: usize, to: usize) -> (r: Option<i64>)
    requires
        from <= to <= chars.len(),
    ensures
        ({
            let s = chars@.subrange(from as int, to as int);
            r == (if s.len() > 0 && all_digits(s) && digits_value(s) <= 2147483648 {
                Some(digits_value(s) as i64)
            } else {
                None
            })
        }),
{
    let ghost s = chars@.subrange(from as int, to as int);
    if from == to {
        return None;
    }
    let mut acc: i64 = 0;
    let mut i: usize = from;
    while i < to
        invariant
            from <= i <= to <= chars.len(),
            s == chars@.subrange(from as int, to as int),
            all_digits(s.take(i - from)),
            acc == digits_value(s.take(i - from)),
            0 <= acc <= 2147483648,
        decreases to - i,
    {
        let c = chars[i];
        proof {
            assert(s[i - from] == c);
            assert(s.take(i - from + 1).drop_last() == s.take(i - from));
        }
        if !char_is_digit(c) {
            return None;
        }
        let d: i64 = (c as u32 - '0' as u32) as i64;
        let next: i64 = acc * 10 + d;
        if next > 2147483648 {
            proof {
                if all_digits(s) {
                    lemma_digits_value_grows(s, i - from + 1, s.len() as int);
                    assert(s.take(s.len() as int) == s);
                }
            }
            return None;
        }
        acc = next;
        i += 1;
    }
    proof {
        assert(s.take(i - from) == s);
    }
    Some(acc)
}

/// Reads `chars[from..to]` as a 32-bit signed number.
pub fn parse_i32(chars: &Vec<char>, from: usize, to: usize) -> (r: Option<i32>)
    requires
        from <= to <= chars.len(),
    ensures
        r == i32_value(chars@.subrange(from as int, to as int)),
{
    let ghost s = chars@.subrange(from as int, to as int);
    if from < to && chars[from] == '-' {
        proof {
            assert(s.skip(1) == chars@.subrange(from + 1, to as int));
        }
        match parse_digits(chars, from + 1, to) {
            Some(v) => Some((-v) as i32),
            None => None,
        }
    } else {
        match parse_digits(chars, from, to) {
            Some(v) => if v <= 2147483647 {
                Some(v as i32)
            } else {
                None
            },
            None => None,
        }
    }
}

impl<'a> ControlWord<'a> {
    /// Splits an identifier into its letters and its argument, and looks the
    /// letters up in the table of control words.
    pub fn from(input: &'a str) -> (r: Result<ControlSymbol<'a>, LexerError>)
        ensures
            match control_symbol_of(input@) {
                Ok(symbol) => r is Ok && r->Ok_0.0@ == symbol.0 && r->Ok_0.1 == symbol.1,
                Err(e) => r is Err && r->Err_0@ == e,
            },
    {
        let chars = to_chars(input);
        let len = chars.len();
        let index = skip_class_back(&chars, 0, len, CharClass::NumberPart);
        proof {
            assert(chars@.subrange(0, len as int) == input@);
        }
        let property = if index == len {
            Property::Unset
        } else {
            match parse_i32(&chars, index, len) {
                Some(value) => Property::Value(value),
                None => {
                    let suffix = input.substring_char(index, len);
                    let mut message = String::from_str("[Lexer] Unable to parse ");
                    message.append(suffix);
                    message.append(" as integer");
                    return Err(LexerError::Error(message));
                },
            }
        };
        let control_word = if spells(&chars, 0, index, "\\rtf") {
            ControlWord::Rtf
        } else if spells(&chars, 0, index, "\\ansi") {
            ControlWord::Ansi
        } else if spells(&chars, 0, index, "\\u") {
            ControlWord::Unicode
        } else if spells(&chars, 0, index, "\\uc") {
            ControlWord::UnicodeIgnoreCount
        } else if spells(&chars, 0, index, "\\fonttbl") {
            ControlWord::FontTable
        } else if spells(&chars, 0, index, "\\colortbl") {
            ControlWord::ColorTable
        } else if spells(&chars, 0, index, "\\filetbl") {
            ControlWord::FileTable
        } else if spells(&chars, 0, index, "\\stylesheet") {
            ControlWord::StyleSheet
        } else if spells(&chars, 0, index, "\\fcharset") {
            ControlWord::FontCharset
        } else if spells(&chars, 0, index, "\\f") {
            ControlWord::FontNumber
        } else if spells(&chars, 0, index, "\\fs") {
            ControlWord::FontSize
        } else if spells(&chars, 0, index, "\\cf") {
            ControlWord::ColorNumber
        } else if spells(&chars, 0, index, "\\i") {
            ControlWord::Italic
        } else if spells(&chars, 0, index, "\\b") {
            ControlWord::Bold
        } else if spells(&chars, 0, index, "\\ul") {
            ControlWord::Underline
        } else if spells(&chars, 0, index, "\\ulnone") {
            ControlWord::UnderlineNone
        } else if spells(&chars, 0, index, "\\super") {
            ControlWord::Superscript
        } else if spells(&chars, 0, index, "\\sub") {
            ControlWord::Subscript
        } else if spells(&chars, 0, index, "\\scaps") {
            ControlWord::Smallcaps
        } else if spells(&chars, 0, index, "\\strike") {
            ControlWord::Strikethrough
        } else if spells(&chars, 0, index, "\\par") {
            ControlWord::Par
        } else if spells(&chars, 0, index, "\\pard") {
            ControlWord::Pard
        } else if spells(&chars, 0, index, "\\sectd") {
            ControlWord::Sectd
        } else if spells(&chars, 0, index, "\\plain") {
            ControlWord::Plain
        } else if spells(&chars, 0, index, "\\s") {
            ControlWord::ParStyle
        } else if spells(&chars, 0, index, "\\pardeftab") {
            ControlWord::ParDefTab
        } else if spells(&chars, 0, index, "\\ql") {
            ControlWord::LeftAligned
        } else if spells(&chars, 0, index, "\\qr") {
            ControlWord::RightAligned
        } else if spells(&chars, 0, index, "\\qj") {
            ControlWord::Justify
        } else if spells(&chars, 0, index, "\\qc") {
            ControlWord::Center
        } else if spells(&chars, 0, index, "\\fi") {
            ControlWord::FirstLineIdent
        } else if spells(&chars, 0, index, "\\ri") {
            ControlWord::RightIndent
        } else if spells(&chars, 0, index, "\\li") {
            ControlWord::LeftIndent
        } else if spells(&chars, 0, index, "\\sb") {
            ControlWord::SpaceBefore
        } else if spells(&chars, 0, index, "\\sa") {
            ControlWord::SpaceAfter
        } else if spells(&chars, 0, index, "\\sl") {
            ControlWord::SpaceBetweenLine
        } else if spells(&chars, 0, index, "\\slmul") {
            ControlWord::SpaceLineMul
        } else if spells(&chars, 0, index, "\\red") {
            ControlWord::ColorRed
        } else if spells(&chars, 0, index, "\\green") {
            ControlWord::ColorGreen
        } else if spells(&chars, 0, index, "\\blue") {
            ControlWord::ColorBlue
        } else {
            ControlWord::Unknown(input.substring_char(0, index))
        };
        Ok((control_word, property))
    }
}

} // verus!
