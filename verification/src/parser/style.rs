//! The formats of the text, and what the control words do to them.

use vstd::prelude::*;
use crate::header::{ColorRef, FontRef};
use crate::paragraph::{Alignment, Paragraph, SpaceBetweenLine, Spacing};
use crate::parser::errors::{ParserError, ParserErrorView};
use crate::parser::Parser;
use crate::tokens::{ControlWord, ControlWordView, Property};

verus! {

/// A run of text in one format.
#[derive(Debug, Default, PartialEq, Clone)]
pub struct StyleBlock {
    pub painter: Painter,
    pub paragraph: Paragraph,
    pub text: String,
}

/// A run of text as a mathematical value.
pub struct StyleBlockView {
    pub painter: Painter,
    pub paragraph: Paragraph,
    pub text: Seq<char>,
}

impl View for StyleBlock {
    type V = StyleBlockView;

    open spec fn view(&self) -> StyleBlockView {
        StyleBlockView { painter: self.painter, paragraph: self.paragraph, text: self.text@ }
    }
}

/// The character format: colour, font, size and the switches.
#[derive(Debug, Clone, Copy, PartialEq, Eq, Hash, Structural)]
pub struct Painter {
    pub color_ref: ColorRef,
    pub font_ref: FontRef,
    /// In half points.
    pub font_size: u16,
    pub bold: bool,
    pub italic: bool,
    pub underline: bool,
    pub superscript: bool,
    pub subscript: bool,
    pub smallcaps: bool,
    pub strike: bool,
}

impl Painter {
    /// The character format of a document that sets none: colour 0, font 0,
    /// size 12, every switch off.
    pub open spec fn spec_default() -> Painter {
        Painter {
            color_ref: 0,
            font_ref: 0,
            font_size: 12,
            bold: false,
            italic: false,
            underline: false,
            superscript: false,
            subscript: false,
            smallcaps: false,
            strike: false,
        }
    }
}

impl Default for Painter {
    fn default() -> (r: Self)
        ensures
            r == Painter::spec_default(),
    {
        Self {
            color_ref: 0,
            font_ref: 0,
            font_size: 12,
            bold: false,
            italic: false,
            underline: false,
            superscript: false,
            subscript: false,
            smallcaps: false,
            strike: false,
        }
    }
}

/// The state of one scope of the document: what a group inherits from the
/// group around it, and loses again where it ends.
#[derive(Debug, Clone, Copy, PartialEq, Eq, Hash, Structural)]
pub struct ParserState {
    pub painter: Painter,
    pub paragraph: Paragraph,
    /// How many fallback characters follow each Unicode escape.
    pub unicode_ignore_count: i32,
}

impl ParserState {
    /// The state that a document starts in: the default formats, and one
    /// fallback character for each Unicode escape.
    pub open spec fn spec_default() -> ParserState {
        ParserState {
            painter: Painter::spec_default(),
            paragraph: Paragraph::spec_default(),
            unicode_ignore_count: 1,
        }
    }
}

impl Default for ParserState {
    fn default() -> (r: Self)
        ensures
            r == ParserState::spec_default(),
    {
        Self {
            painter: Painter::default(),
            paragraph: Paragraph::default(),
            unicode_ignore_count: 1,
        }
    }
}

/// The character format after a control word. Colour, font and size must
/// fit 16 bits without a sign, and `\plain` brings the default format back.
/// A word that sets no character format leaves it as it is.
pub open spec fn paint(painter: Painter, word: ControlWordView, property: Property) -> Result<
    Painter,
    ParserErrorView,
> {
    match word {
        ControlWordView::ColorNumber => match property.spec_value_as_u16() {
            Ok(v) => Ok(Painter { color_ref: v, ..painter }),
            Err(e) => Err(e),
        },
        ControlWordView::FontNumber => match property.spec_value_as_u16() {
            Ok(v) => Ok(Painter { font_ref: v, ..painter }),
            Err(e) => Err(e),
        },
        ControlWordView::FontSize => match property.spec_value_as_u16() {
            Ok(v) => Ok(Painter { font_size: v, ..painter }),
            Err(e) => Err(e),
        },
        ControlWordView::Bold => Ok(Painter { bold: property.spec_as_bool(), ..painter }),
        ControlWordView::Italic => Ok(Painter { italic: property.spec_as_bool(), ..painter }),
        ControlWordView::Underline => Ok(Painter { underline: property.spec_as_bool(), ..painter }),
        ControlWordView::UnderlineNone => Ok(Painter { underline: false, ..painter }),
        ControlWordView::Superscript => Ok(
            Painter { superscript: property.spec_as_bool(), ..painter },
        ),
        ControlWordView::Subscript => Ok(Painter { subscript: property.spec_as_bool(), ..painter }),
        ControlWordView::Smallcaps => Ok(Painter { smallcaps: property.spec_as_bool(), ..painter }),
        ControlWordView::Strikethrough => Ok(
            Painter { strike: property.spec_as_bool(), ..painter },
        ),
        ControlWordView::Plain => Ok(Painter::spec_default()),
        _ => Ok(painter),
    }
}

/// The paragraph format after a control word. `\pard` brings the default
/// format back. A word that sets no paragraph format leaves it as it is.
pub open spec fn arrange(paragraph: Paragraph, word: ControlWordView, property: Property)
    -> Paragraph {
    let spacing = paragraph.spacing;
    let value = property.spec_value();
    match word {
        ControlWordView::Pard => Paragraph::spec_default(),
        ControlWordView::ParDefTab => Paragraph { tab_width: value, ..paragraph },
        ControlWordView::LeftAligned
        | ControlWordView::RightAligned
        | ControlWordView::Center
        | ControlWordView::Justify => Paragraph { alignment: Alignment::of(word), ..paragraph },
        ControlWordView::SpaceBefore => Paragraph {
            spacing: Spacing { before: value, ..spacing },
            ..paragraph
        },
        ControlWordView::SpaceAfter => Paragraph {
            spacing: Spacing { after: value, ..spacing },
            ..paragraph
        },
        ControlWordView::SpaceBetweenLine => Paragraph {
            spacing: Spacing { between_line: SpaceBetweenLine::of(value), ..spacing },
            ..paragraph
        },
        ControlWordView::SpaceLineMul => Paragraph {
            spacing: Spacing { line_multiplier: value, ..spacing },
            ..paragraph
        },
        _ => paragraph,
    }
}

/// The state of a scope after a control word: its character format, its
/// paragraph format, and the number of fallback characters, which `\uc`
/// sets. `\u` leaves the state as it is: the body pass adds its text.
pub open spec fn apply_control(state: ParserState, word: ControlWordView, property: Property)
    -> Result<ParserState, ParserErrorView> {
    match paint(state.painter, word, property) {
        Err(e) => Err(e),
        Ok(painter) => Ok(
            ParserState {
                painter,
                paragraph: arrange(state.paragraph, word, property),
                unicode_ignore_count: if word is UnicodeIgnoreCount {
                    property.spec_value()
                } else {
                    state.unicode_ignore_count
                },
            },
        ),
    }
}

impl<'a> Parser<'a> {
    /// Changes the character format as a control word asks.
    pub(crate) fn apply_to_painter(
        painter: &Painter,
        control_word: &ControlWord<'a>,
        property: &Property,
    ) -> (r: Result<Painter, ParserError>)
        ensures
            match paint(*painter, control_word@, *property) {
                Ok(next) => r == Ok::<Painter, ParserError>(next),
                Err(e) => r is Err && r->Err_0@ == e,
            },
    {
        let mut next = *painter;
        match control_word {
            ControlWord::ColorNumber => match property.get_value_as_u16() {
                Ok(v) => {
                    next.color_ref = v;
                },
                Err(e) => {
                    return Err(e);
                },
            },
            ControlWord::FontNumber => match property.get_value_as_u16() {
                Ok(v) => {
                    next.font_ref = v;
                },
                Err(e) => {
                    return Err(e);
                },
            },
            ControlWord::FontSize => match property.get_value_as_u16() {
                Ok(v) => {
                    next.font_size = v;
                },
                Err(e) => {
                    return Err(e);
                },
            },
            ControlWord::Bold => {
                next.bold = property.as_bool();
            },
            ControlWord::Italic => {
                next.italic = property.as_bool();
            },
            ControlWord::Underline => {
                next.underline = property.as_bool();
            },
            ControlWord::UnderlineNone => {
                next.underline = false;
            },
            ControlWord::Superscript => {
                next.superscript = property.as_bool();
            },
            ControlWord::Subscript => {
                next.subscript = property.as_bool();
            },
            ControlWord::Smallcaps => {
                next.smallcaps = property.as_bool();
            },
            ControlWord::Strikethrough => {
                next.strike = property.as_bool();
            },
            ControlWord::Plain => {
                next = Painter::default();
            },
            _ => {},
        }
        Ok(next)
    }

    /// Changes the paragraph format as a control word asks.
    pub(crate) fn apply_to_paragraph(
        paragraph: &Paragraph,
        control_word: &ControlWord<'a>,
        property: &Property,
    ) -> (next: Paragraph)
        ensures
            next == arrange(*paragraph, control_word@, *property),
    {
        let mut next = *paragraph;
        let value = property.get_value();
        match control_word {
            ControlWord::Pard => {
                next = Paragraph::default();
            },
            ControlWord::ParDefTab => {
                next.tab_width = value;
            },
            ControlWord::LeftAligned
            | ControlWord::RightAligned
            | ControlWord::Center
            | ControlWord::Justify => {
                next.alignment = Alignment::from(control_word);
            },
            ControlWord::SpaceBefore => {
                next.spacing.before = value;
            },
            ControlWord::SpaceAfter => {
                next.spacing.after = value;
            },
            ControlWord::SpaceBetweenLine => {
                next.spacing.between_line = SpaceBetweenLine::from(value);
            },
            ControlWord::SpaceLineMul => {
                next.spacing.line_multiplier = value;
            },
            _ => {},
        }
        next
    }

    /// Changes the state of a scope as a control word asks.
    pub(crate) fn apply_control_word(
        state: &ParserState,
        control_word: &ControlWord<'a>,
        property: &Property,
    ) -> (r: Result<ParserState, ParserError>)
        ensures
            match apply_control(*state, control_word@, *property) {
                Ok(next) => r == Ok::<ParserState, ParserError>(next),
                Err(e) => r is Err && r->Err_0@ == e,
            },
    {
        match Self::apply_to_painter(&state.painter, control_word, property) {
            Err(e) => Err(e),
            Ok(painter) => {
                let paragraph = Self::apply_to_paragraph(&state.paragraph, control_word, property);
                let unicode_ignore_count = match control_word {
                    ControlWord::UnicodeIgnoreCount => property.get_value(),
                    _ => state.unicode_ignore_count,
                };
                Ok(ParserState { painter, paragraph, unicode_ignore_count })
            },
        }
    }
}

} // verus!
