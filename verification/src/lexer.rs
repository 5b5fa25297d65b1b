//! The lexer: from the source text to a flat sequence of tokens.

use vstd::prelude::*;
use vstd::string::*;
use crate::text::{
    char_width, lemma_encode_concat, lemma_lead_bounds, lemma_prefix_ends_at_boundary, skip_class,
    skip_class_back, split_chars, to_chars, trim, trim_end, trim_start, utf8_len, CharClass,
};
use crate::tokens::{control_symbol_of, token_views, ControlWord, Token, TokenView};
use crate::utils::{after_first_word, first_word, StrUtils};

verus! {

/// Why a source text is no sequence of tokens.
#[derive(Debug, Clone)]
pub enum LexerError {
    /// A piece of the text stands for no token; the message says which.
    Error(String),
    /// A byte escape without its two hexadecimal digits; it holds the escape
    /// from the quote on.
    InvalidUnicode(String),
    /// The text does not end with the closing bracket of the document.
    InvalidLastChar,
}

/// A lexer error as a mathematical value.
pub enum LexerErrorView {
    Error(Seq<char>),
    InvalidUnicode(Seq<char>),
    InvalidLastChar,
}

impl View for LexerError {
    type V = LexerErrorView;

    open spec fn view(&self) -> LexerErrorView {
        match self {
            LexerError::Error(message) => LexerErrorView::Error(message@),
            LexerError::InvalidUnicode(escape) => LexerErrorView::InvalidUnicode(escape@),
            LexerError::InvalidLastChar => LexerErrorView::InvalidLastChar,
        }
    }
}

impl LexerErrorView {
    /// The message of the error.
    pub open spec fn message(self) -> Seq<char> {
        "[RTF Lexer] : "@ + match self {
            LexerErrorView::InvalidLastChar => "Invalid last char, should be '}'"@,
            LexerErrorView::InvalidUnicode(escape) => "Invalid unicode : "@ + escape,
            LexerErrorView::Error(message) => message,
        }
    }
}

impl LexerError {
    /// The message of the error, for a reader.
    pub fn message(&self) -> (text: String)
        ensures
            text@ == self@.message(),
    {
        let mut text = String::from_str("[RTF Lexer] : ");
        match self {
            LexerError::InvalidLastChar => {
                text.append("Invalid last char, should be '}'");
            },
            LexerError::InvalidUnicode(escape) => {
                text.append("Invalid unicode : ");
                text.append(escape.as_str());
            },
            LexerError::Error(message) => {
                text.append(message.as_str());
            },
        }
        text
    }
}

/// What the lexer gives back, as a mathematical value.
pub open spec fn lex_outcome(r: Result<Vec<Token>, LexerError>) -> Result<
    Seq<TokenView>,
    LexerErrorView,
> {
    match r {
        Ok(tokens) => Ok(token_views(tokens@)),
        Err(e) => Err(e@),
    }
}

/// The value of a hexadecimal digit.
pub open spec fn hex_value(c: char) -> Option<u8> {
    if '0' <= c <= '9' {
        Some((c as u32 - '0' as u32) as u8)
    } else if 'a' <= c <= 'f' {
        Some((c as u32 - 'a' as u32 + 10) as u8)
    } else if 'A' <= c <= 'F' {
        Some((c as u32 - 'A' as u32 + 10) as u8)
    } else {
        None
    }
}

/// Reads a hexadecimal digit.
pub fn hex_digit(c: char) -> (r: Option<u8>)
    ensures
        r == hex_value(c),
{
    if '0' <= c && c <= '9' {
        Some((c as u32 - '0' as u32) as u8)
    } else if 'a' <= c && c <= 'f' {
        Some((c as u32 - 'a' as u32 + 10) as u8)
    } else if 'A' <= c && c <= 'F' {
        Some((c as u32 - 'A' as u32 + 10) as u8)
    } else {
        None
    }
}

/// The character that a byte escape stands for. `escape` starts at the quote,
/// and the two characters behind the quote must be hexadecimal digits: they
/// spell the code point of the character.
pub open spec fn byte_escape(escape: Seq<char>) -> Option<char> {
    if escape.len() >= 3 && hex_value(escape[1]) is Some && hex_value(escape[2]) is Some {
        Some(((hex_value(escape[1])->0 * 16 + hex_value(escape[2])->0) as u8) as char)
    } else {
        None
    }
}

/// An identifier without the semicolon that may end it.
pub open spec fn strip_semicolon(ident: Seq<char>) -> Seq<char> {
    if ident.len() > 0 && ident.last() == ';' {
        ident.drop_last()
    } else {
        ident
    }
}

/// The message of the error for a slice that holds nothing but spaces.
pub open spec fn empty_token_text(slice: Seq<char>) -> Seq<char> {
    "Empty token "@ + slice
}

/// The tokens of a slice `s` that starts with a backslash and holds a second
/// character, which decides:
///
/// - `{`, `}` or a backslash: the text behind the first backslash, as it
///   stands;
/// - a quote: a byte escape, then the tokens of what follows its two digits;
/// - a line feed: a line break, then the tokens of what follows;
/// - a lower-case letter: a control word up to the first blank, then the
///   tokens of what follows the blank; behind the control word `\u` what
///   follows the blank is given once more, as plain text;
/// - `*`: the mark of an ignorable destination;
/// - anything else: nothing.
pub open spec fn escape_tokens(s: Seq<char>) -> Result<Seq<TokenView>, LexerErrorView>
    decreases s.len(), 0nat, 0nat,
{
    if s.len() < 2 {
        Ok(seq![])
    } else {
        let c = s[1];
        if c == '{' || c == '}' || c == '\\' {
            Ok(seq![TokenView::PlainText(s.skip(1))])
        } else if c == '\'' {
            match byte_escape(s.skip(1)) {
                Some(ch) => Ok(seq![TokenView::EscapedChar(ch)] + tail_tokens(s.skip(4))),
                None => Err(LexerErrorView::InvalidUnicode(s.skip(1))),
            }
        } else if c == '\n' {
            Ok(seq![TokenView::CRLF] + tail_tokens(s.skip(2)))
        } else if 'a' <= c <= 'z' {
            let tail = after_first_word(s);
            match control_symbol_of(strip_semicolon(first_word(s))) {
                Err(e) => Err(e),
                Ok(symbol) => {
                    proof {
                        lemma_lead_bounds(s, CharClass::NonBlank);
                    }
                    Ok(
                        seq![TokenView::ControlSymbol(symbol.0, symbol.1)] + tail_tokens(tail) + (
                        if symbol.0 is Unicode && tail.len() > 0 {
                            seq![TokenView::PlainText(tail)]
                        } else {
                            seq![]
                        }),
                    )
                },
            }
        } else if c == '*' {
            Ok(seq![TokenView::IgnorableDestination])
        } else {
            Ok(seq![])
        }
    }
}

/// The tokens of one slice of the source. The first two characters of the
/// slice, its leading and trailing spaces apart, decide what it is:
///
/// - a backslash before another character: see `escape_tokens`;
/// - a line feed before another character: the tokens of what follows it;
/// - a bracket: the bracket, then the tokens of what follows it;
/// - anything else is plain text, spaces included, unless it is all
///   whitespace, which is nothing.
///
/// A slice of spaces alone is an error. Where "the tokens of what follows" is
/// said with "then", a rest that is empty or in error gives no tokens.
pub open spec fn tokenize_spec(slice: Seq<char>) -> Result<Seq<TokenView>, LexerErrorView>
    decreases slice.len(), 0nat, 1nat,
{
    let s = trim_start(slice, CharClass::Space);
    let t = trim_end(s, CharClass::Space);
    if t.len() == 0 {
        Err(LexerErrorView::Error(empty_token_text(slice)))
    } else if t.len() >= 2 && t[0] == '\\' {
        proof {
            lemma_lead_bounds(slice, CharClass::Space);
        }
        escape_tokens(s)
    } else if t.len() >= 2 && t[0] == '\n' {
        proof {
            lemma_lead_bounds(slice, CharClass::Space);
        }
        tokenize_spec(s.skip(1))
    } else if t[0] == '{' {
        proof {
            lemma_lead_bounds(slice, CharClass::Space);
        }
        Ok(seq![TokenView::OpeningBracket] + tail_tokens(s.skip(1)))
    } else if t[0] == '}' {
        proof {
            lemma_lead_bounds(slice, CharClass::Space);
        }
        Ok(seq![TokenView::ClosingBracket] + tail_tokens(s.skip(1)))
    } else if trim(slice, CharClass::Whitespace).len() == 0 {
        Ok(seq![])
    } else {
        Ok(seq![TokenView::PlainText(slice)])
    }
}

/// The tokens of the rest of a slice: none where the rest is empty or in
/// error.
pub open spec fn tail_tokens(tail: Seq<char>) -> Seq<TokenView>
    decreases tail.len(), 1nat, 0nat,
{
    if tail.len() > 0 {
        match tokenize_spec(tail) {
            Ok(tokens) => tokens,
            Err(_) => seq![],
        }
    } else {
        seq![]
    }
}

/// The characters that end a slice of the source.
pub open spec fn is_structural(c: char) -> bool {
    c == '{' || c == '}' || c == '\\' || c == '\n'
}

/// Whether a slice ends before position `i` of the source `s`: a structural
/// character stands there, and no backslash before it.
pub open spec fn is_cut(s: Seq<char>, i: int) -> bool {
    0 < i < s.len() && is_structural(s[i]) && s[i - 1] != '\\'
}

/// The first cut of `s` at or behind `from`, or the end of `s`.
pub open spec fn next_cut(s: Seq<char>, from: int) -> int
    decreases s.len() - from,
{
    if from >= s.len() {
        s.len() as int
    } else if is_cut(s, from) {
        from
    } else {
        next_cut(s, from + 1)
    }
}

/// The tokens of the source `s` from the start of a slice on. Each slice
/// runs to the next cut and gives its own tokens. The last slice runs to the
/// end of the source and must be the closing bracket alone. The first error
/// met is the result.
pub open spec fn scan_from(s: Seq<char>, start: int) -> Result<Seq<TokenView>, LexerErrorView>
    decreases s.len() - start,
{
    if start < 0 || start >= s.len() {
        Ok(seq![])
    } else {
        let end = next_cut(s, start + 1);
        if end >= s.len() {
            if s.skip(start) == seq!['}'] {
                Ok(seq![TokenView::ClosingBracket])
            } else {
                Err(LexerErrorView::InvalidLastChar)
            }
        } else {
            proof {
                lemma_next_cut_bounds(s, start + 1);
            }
            match tokenize_spec(s.subrange(start, end)) {
                Err(e) => Err(e),
                Ok(tokens) => prepend(tokens, scan_from(s, end)),
            }
        }
    }
}

/// `tokens` before the tokens of `rest`, or the error of `rest`.
pub open spec fn prepend(tokens: Seq<TokenView>, rest: Result<Seq<TokenView>, LexerErrorView>)
    -> Result<Seq<TokenView>, LexerErrorView> {
    match rest {
        Ok(more) => Ok(tokens + more),
        Err(e) => Err(e),
    }
}

/// The tokens of a source text: those of the text without the whitespace
/// around it, slice by slice.
pub open spec fn scan_spec(src: Seq<char>) -> Result<Seq<TokenView>, LexerErrorView> {
    scan_from(trim(src, CharClass::Whitespace), 0)
}

/// The next cut stands at or behind the place where the search starts, it is
/// a cut unless it is the end, and no cut stands before it.
pub proof fn lemma_next_cut_bounds(s: Seq<char>, from: int)
    requires
        0 <= from,
    ensures
        from <= next_cut(s, from) || next_cut(s, from) == s.len(),
        next_cut(s, from) <= s.len() || from > s.len(),
        next_cut(s, from) < s.len() ==> is_cut(s, next_cut(s, from)),
        forall|j: int| from <= j < next_cut(s, from) ==> !is_cut(s, j),
    decreases s.len() - from,
{
    if from < s.len() && !is_cut(s, from) {
        lemma_next_cut_bounds(s, from + 1);
    }
}

/// A stretch without a cut does not move the next cut.
pub proof fn lemma_next_cut_skips(s: Seq<char>, from: int, to: int)
    requires
        0 <= from <= to <= s.len(),
        forall|j: int| from <= j < to ==> !is_cut(s, j),
    ensures
        next_cut(s, from) == next_cut(s, to),
    decreases to - from,
{
    if from < to {
        lemma_next_cut_skips(s, from + 1, to);
    }
}

/// The lexer. It holds nothing: `scan` and `tokenize` are called on the type.
pub struct Lexer;

impl Lexer {
    /// Cuts the source text into tokens.
    pub fn scan<'a>(src: &'a str) -> (r: Result<Vec<Token<'a>>, LexerError>)
        ensures
            lex_outcome(r) == scan_spec(src@),
    {
        let all = to_chars(src);
        let from = skip_class(&all, 0, all.len(), CharClass::Whitespace);
        let to = skip_class_back(&all, from, all.len(), CharClass::Whitespace);
        let text = src.substring_char(from, to);
        let chars = to_chars(text);
        let len = chars.len();
        let ghost s = chars@;
        proof {
            assert(all@.subrange(0, all.len() as int) == src@);
        }
        let mut tokens: Vec<Token<'a>> = Vec::new();
        let mut slice_start_index: usize = 0;
        let mut current_index: usize = 0;
        let mut previous_char = ' ';
        // What is left of the text from the start of the slice on, its length
        // in bytes, which bounds the count that follows, and the bytes of the
        // slice so far.
        let mut rest = text;
        let mut rest_bytes = rest.as_bytes().len();
        let mut slice_bytes: usize = 0;
        while current_index < len
            invariant
                s == trim(src@, CharClass::Whitespace),
                chars@ == s,
                len == s.len(),
                slice_start_index <= current_index <= len,
                current_index > 0 ==> previous_char == s[current_index - 1],
                current_index > 0 ==> slice_start_index < current_index,
                forall|j: int| slice_start_index < j < current_index ==> !is_cut(s, j),
                rest@ == s.skip(slice_start_index as int),
                rest_bytes == utf8_len(rest@),
                slice_bytes == utf8_len(
                    s.subrange(slice_start_index as int, current_index as int),
                ),
                scan_from(s, 0) == prepend(
                    token_views(tokens@),
                    scan_from(s, slice_start_index as int),
                ),
            decreases len - current_index,
        {
            let c = chars[current_index];
            let structural = c == '{' || c == '}' || c == '\\' || c == '\n';
            if structural && previous_char != '\\' && slice_start_index < current_index {
                proof {
                    lemma_next_cut_skips(s, slice_start_index + 1, current_index as int);
                    assert(rest@.take(current_index - slice_start_index) =~= s.subrange(
                        slice_start_index as int,
                        current_index as int,
                    ));
                }
                let (slice, tail) = split_chars(
                    rest,
                    Ghost(current_index - slice_start_index),
                    slice_bytes,
                );
                match Self::tokenize(slice) {
                    Err(e) => {
                        return Err(e);
                    },
                    Ok(mut slice_tokens) => {
                        let ghost before = tokens@;
                        let ghost added = slice_tokens@;
                        tokens.append(&mut slice_tokens);
                        proof {
                            assert(token_views(before + added) =~= token_views(before)
                                + token_views(added));
                            let after = scan_from(s, current_index as int);
                            if after is Ok {
                                assert((token_views(before) + token_views(added)) + after->Ok_0
                                    =~= token_views(before) + (token_views(added) + after->Ok_0));
                            }
                        }
                    },
                }
                slice_start_index = current_index;
                rest = tail;
                rest_bytes = rest.as_bytes().len();
                slice_bytes = 0;
            }
            let width = char_width(c);
            proof {
                let start = slice_start_index as int;
                let at = current_index as int;
                lemma_encode_concat(s.subrange(start, at), seq![c]);
                assert(s.subrange(start, at + 1) =~= s.subrange(start, at) + seq![c]);
                lemma_prefix_ends_at_boundary(rest@, at + 1 - start);
                assert(rest@.take(at + 1 - start) =~= s.subrange(start, at + 1));
            }
            slice_bytes += width;
            current_index += 1;
            previous_char = c;
        }
        if slice_start_index < current_index {
            proof {
                lemma_next_cut_skips(s, slice_start_index + 1, len as int);
            }
            let closing = len - slice_start_index == 1 && chars[slice_start_index] == '}';
            proof {
                let last = s.skip(slice_start_index as int);
                if closing {
                    assert(last =~= seq!['}']);
                }
            }
            if !closing {
                return Err(LexerError::InvalidLastChar);
            }
            let ghost before = tokens@;
            tokens.push(Token::ClosingBracket);
            proof {
                assert(token_views(tokens@) =~= token_views(before) + seq![
                    TokenView::ClosingBracket,
                ]);
            }
        }
        Ok(tokens)
    }

    /// Gives the token or tokens of one slice that `scan` has cut.
    pub fn tokenize<'a>(slice: &'a str) -> (r: Result<Vec<Token<'a>>, LexerError>)
        ensures
            lex_outcome(r) == tokenize_spec(slice@),
        decreases slice@.len(), 0nat, 1nat,
    {
        let chars = to_chars(slice);
        let len = chars.len();
        let start = skip_class(&chars, 0, len, CharClass::Space);
        let end = skip_class_back(&chars, start, len, CharClass::Space);
        let from = skip_class(&chars, 0, len, CharClass::Whitespace);
        let to = skip_class_back(&chars, from, len, CharClass::Whitespace);
        let ghost s = trim_start(slice@, CharClass::Space);
        proof {
            assert(chars@.subrange(0, len as int) == slice@);
        }
        if end == start {
            let mut message = String::from_str("Empty token ");
            message.append(slice);
            return Err(LexerError::Error(message));
        }
        let first = chars[start];
        let rest = slice.substring_char(start, len);
        if end - start >= 2 && first == '\\' {
            let second = chars[start + 1];
            Self::tokenize_escape(rest, second)
        } else if end - start >= 2 && first == '\n' {
            let tail = rest.substring_char(1, len - start);
            Self::tokenize(tail)
        } else if first == '{' || first == '}' {
            let bracket = if first == '{' {
                Token::OpeningBracket
            } else {
                Token::ClosingBracket
            };
            let mut ret = vec![bracket];
            let tail = rest.substring_char(1, len - start);
            Self::tokenize_tail(tail, &mut ret);
            proof {
                assert(token_views(ret@) =~= seq![bracket@] + tail_tokens(s.skip(1)));
            }
            Ok(ret)
        } else if from == to {
            let ret: Vec<Token<'a>> = Vec::new();
            proof {
                assert(token_views(ret@) =~= seq![]);
            }
            Ok(ret)
        } else {
            let ret = vec![Token::PlainText(slice)];
            proof {
                assert(token_views(ret@) =~= seq![TokenView::PlainText(slice@)]);
            }
            Ok(ret)
        }
    }

    /// The tokens of a slice `s` that starts with a backslash before the
    /// character `second`.
    fn tokenize_escape<'a>(s: &'a str, second: char) -> (r: Result<Vec<Token<'a>>, LexerError>)
        requires
            s@.len() >= 2,
            s@[0] == '\\',
            s@[1] == second,
        ensures
            lex_outcome(r) == escape_tokens(s@),
        decreases s@.len(), 0nat, 0nat,
    {
        let len = s.unicode_len();
        if second == '{' || second == '}' || second == '\\' {
            let tail = s.substring_char(1, len);
            let ret = vec![Token::PlainText(tail)];
            proof {
                assert(token_views(ret@) =~= seq![TokenView::PlainText(s@.skip(1))]);
            }
            Ok(ret)
        } else if second == '\'' {
            let tail = s.substring_char(1, len);
            if len < 4 {
                return Err(LexerError::InvalidUnicode(String::from_str(tail)));
            }
            let third = s.get_char(2);
            let fourth = s.get_char(3);
            match (hex_digit(third), hex_digit(fourth)) {
                (Some(high), Some(low)) => {
                    let byte: u8 = high * 16 + low;
                    let mut ret = vec![Token::EscapedChar(byte as char)];
                    let rest = s.substring_char(4, len);
                    Self::tokenize_tail(rest, &mut ret);
                    proof {
                        assert(token_views(ret@) =~= seq![TokenView::EscapedChar(byte as char)]
                            + tail_tokens(s@.skip(4)));
                    }
                    Ok(ret)
                },
                _ => Err(LexerError::InvalidUnicode(String::from_str(tail))),
            }
        } else if second == '\n' {
            let mut ret = vec![Token::CRLF];
            let rest = s.substring_char(2, len);
            Self::tokenize_tail(rest, &mut ret);
            proof {
                assert(token_views(ret@) =~= seq![TokenView::CRLF] + tail_tokens(s@.skip(2)));
            }
            Ok(ret)
        } else if 'a' <= second && second <= 'z' {
            let (word, tail) = s.split_first_whitespace();
            let word_chars = to_chars(word);
            let word_len = word_chars.len();
            let ident = if word_len > 0 && word_chars[word_len - 1] == ';' {
                word.substring_char(0, word_len - 1)
            } else {
                word
            };
            match ControlWord::from(ident) {
                Err(e) => Err(e),
                Ok(control_word) => {
                    let mut ret = vec![Token::ControlSymbol(control_word)];
                    let ghost symbol = control_symbol_of(strip_semicolon(first_word(s@)))->Ok_0;
                    let ghost head = seq![TokenView::ControlSymbol(symbol.0, symbol.1)];
                    proof {
                        lemma_lead_bounds(s@, CharClass::NonBlank);
                        assert(token_views(ret@) =~= head);
                    }
                    Self::tokenize_tail(tail, &mut ret);
                    let is_unicode = match control_word.0 {
                        ControlWord::Unicode => true,
                        _ => false,
                    };
                    let ghost before = ret@;
                    if is_unicode && tail.unicode_len() > 0 {
                        ret.push(Token::PlainText(tail));
                        proof {
                            assert(token_views(ret@) =~= token_views(before) + seq![
                                TokenView::PlainText(tail@),
                            ]);
                        }
                    }
                    Ok(ret)
                },
            }
        } else if second == '*' {
            let ret = vec![Token::IgnorableDestination];
            proof {
                assert(token_views(ret@) =~= seq![TokenView::IgnorableDestination]);
            }
            Ok(ret)
        } else {
            let ret: Vec<Token<'a>> = Vec::new();
            proof {
                assert(token_views(ret@) =~= seq![]);
            }
            Ok(ret)
        }
    }

    /// Adds to `ret` the tokens of the rest of a slice: none where the rest
    /// is empty or in error.
    fn tokenize_tail<'a>(tail: &'a str, ret: &mut Vec<Token<'a>>)
        ensures
            token_views(final(ret)@) == token_views(old(ret)@) + tail_tokens(tail@),
        decreases tail@.len(), 1nat, 0nat,
    {
        if tail.unicode_len() > 0 {
            match Self::tokenize(tail) {
                Ok(mut tail_tokens) => {
                    ret.append(&mut tail_tokens);
                },
                Err(_) => {},
            }
        }
    }
}

} // verus!
