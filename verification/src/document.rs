//! The document that the parser builds.

use vstd::prelude::*;
use vstd::string::*;
use vstd::std_specs::convert::TryFromSpecImpl;
use crate::header::{RtfHeader, RtfHeaderView};
use crate::laws::well_merged;
use crate::lexer::{scan_spec, Lexer, LexerError, LexerErrorView};
use crate::parser::{parse_spec, Parser, ParserError, ParserErrorView, StyleBlock, StyleBlockView};

verus! {

/// A parsed document: the header, and the text as runs of one format each.
#[derive(Debug, Default, Clone, PartialEq)]
pub struct RtfDocument {
    pub header: RtfHeader,
    pub body: Vec<StyleBlock>,
}

/// A document as a mathematical value.
pub struct RtfDocumentView {
    pub header: RtfHeaderView,
    pub body: Seq<StyleBlockView>,
}

/// The runs of a body as mathematical values.
pub open spec fn block_views(body: Seq<StyleBlock>) -> Seq<StyleBlockView> {
    body.map_values(|block: StyleBlock| block@)
}

impl View for RtfDocument {
    type V = RtfDocumentView;

    open spec fn view(&self) -> RtfDocumentView {
        RtfDocumentView { header: self.header@, body: block_views(self.body@) }
    }
}

/// The texts of the runs, one after the other.
pub open spec fn body_text(body: Seq<StyleBlockView>) -> Seq<char>
    decreases body.len(),
{
    if body.len() == 0 {
        Seq::empty()
    } else {
        body_text(body.drop_last()) + body.last().text
    }
}

/// Why a text is no document.
#[derive(Debug, Clone)]
pub enum RtfError {
    /// The text is no sequence of tokens.
    Lexer(LexerError),
    /// The tokens are no document.
    Parser(ParserError),
}

/// An error of `RtfDocument::try_from` as a mathematical value.
pub enum RtfErrorView {
    Lexer(LexerErrorView),
    Parser(ParserErrorView),
}

impl View for RtfError {
    type V = RtfErrorView;

    open spec fn view(&self) -> RtfErrorView {
        match self {
            RtfError::Lexer(e) => RtfErrorView::Lexer(e@),
            RtfError::Parser(e) => RtfErrorView::Parser(e@),
        }
    }
}

/// The document that a source text stands for: what the parser reads from
/// the tokens of the lexer, none of them taken.
pub open spec fn document_of(src: Seq<char>) -> Result<RtfDocumentView, RtfErrorView> {
    match scan_spec(src) {
        Err(e) => Err(RtfErrorView::Lexer(e)),
        Ok(tokens) => match parse_spec(tokens, Seq::new(tokens.len(), |i: int| false)).result {
            Err(e) => Err(RtfErrorView::Parser(e)),
            Ok(document) => Ok(document),
        },
    }
}

impl<'a> TryFrom<&'a str> for RtfDocument {
    type Error = RtfError;

    /// Reads a document from its source text.
    fn try_from(file_content: &'a str) -> (r: Result<Self, Self::Error>)
        ensures
            match document_of(file_content@) {
                Ok(document) => r is Ok && r->Ok_0@ == document,
                Err(e) => r is Err && r->Err_0@ == e,
            },
            r is Ok ==> well_merged(r->Ok_0@.body),
    {
        let tokens = match Lexer::scan(file_content) {
            Err(e) => {
                return Err(RtfError::Lexer(e));
            },
            Ok(tokens) => tokens,
        };
        let mut parser = Parser::new(tokens);
        match parser.parse() {
            Err(e) => Err(RtfError::Parser(e)),
            Ok(document) => Ok(document),
        }
    }
}

/// The contract of `try_from` is its `ensures`, which speaks of the document
/// as a mathematical value. The specification of the trait speaks of the
/// document itself, and is left open.
impl<'a> TryFromSpecImpl<&'a str> for RtfDocument {
    open spec fn obeys_try_from_spec() -> bool {
        false
    }

    open spec fn try_from_spec(v: &'a str) -> Result<Self, Self::Error> {
        arbitrary()
    }
}

impl TryFrom<String> for RtfDocument {
    type Error = RtfError;

    /// Reads a document from its source text.
    fn try_from(file_content: String) -> (r: Result<Self, Self::Error>)
        ensures
            match document_of(file_content@) {
                Ok(document) => r is Ok && r->Ok_0@ == document,
                Err(e) => r is Err && r->Err_0@ == e,
            },
            r is Ok ==> well_merged(r->Ok_0@.body),
    {
        let tokens = match Lexer::scan(file_content.as_str()) {
            Err(e) => {
                return Err(RtfError::Lexer(e));
            },
            Ok(tokens) => tokens,
        };
        let mut parser = Parser::new(tokens);
        match parser.parse() {
            Err(e) => Err(RtfError::Parser(e)),
            Ok(document) => Ok(document),
        }
    }
}

/// As for `&str`: the contract of `try_from` is its `ensures`.
impl TryFromSpecImpl<String> for RtfDocument {
    open spec fn obeys_try_from_spec() -> bool {
        false
    }

    open spec fn try_from_spec(v: String) -> Result<Self, Self::Error> {
        arbitrary()
    }
}

impl RtfDocument {
    /// The text of the document without any format.
    pub fn get_text(&self) -> (text: String)
        ensures
            text@ == body_text(self@.body),
    {
        let mut result = String::new();
        let mut i: usize = 0;
        while i < self.body.len()
            invariant
                i <= self.body.len(),
                result@ == body_text(block_views(self.body@).take(i as int)),
            decreases self.body.len() - i,
        {
            proof {
                let views = block_views(self.body@);
                assert(views.take(i + 1).drop_last() == views.take(i as int));
            }
            result.append(self.body[i].text.as_str());
            i += 1;
        }
        proof {
            let views = block_views(self.body@);
            assert(views.take(i as int) == views);
        }
        result
    }
}

} // verus!
