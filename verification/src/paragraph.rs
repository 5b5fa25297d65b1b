//! The paragraph format: alignment, spacing, indentation and tab width.

use vstd::prelude::*;
use vstd::std_specs::convert::FromSpecImpl;
use crate::tokens::{ControlWord, ControlWordView};

verus! {

/// The format of a paragraph.
#[derive(Debug, Clone, Copy, PartialEq, Eq, Hash, Structural)]
pub struct Paragraph {
    pub alignment: Alignment,
    pub spacing: Spacing,
    pub indent: Indentation,
    pub tab_width: i32,
}

/// How the lines of a paragraph are aligned.
#[derive(Debug, Default, Clone, Copy, PartialEq, Eq, Hash, Structural)]
pub enum Alignment {
    #[default]
    LeftAligned,
    RightAligned,
    Center,
    Justify,
}

/// The vertical space around and inside a paragraph.
#[derive(Debug, Clone, Copy, PartialEq, Eq, Hash, Structural)]
pub struct Spacing {
    pub before: i32,
    pub after: i32,
    pub between_line: SpaceBetweenLine,
    pub line_multiplier: i32,
}

/// The space between two lines.
#[derive(Default, Debug, Clone, Copy, PartialEq, Eq, Hash, Structural)]
pub enum SpaceBetweenLine {
    Value(i32),
    /// The tallest character of a line decides.
    #[default]
    Auto,
    Invalid,
}

/// Left and right indentation can both be set at once.
#[derive(Debug, Clone, Copy, PartialEq, Eq, Hash, Structural)]
pub struct Indentation {
    pub left: i32,
    pub right: i32,
    pub first_line: i32,
}

impl Alignment {
    /// The alignment that a control word asks for. A word that is no
    /// alignment word gives the left alignment.
    pub open spec fn of(cw: ControlWordView) -> Alignment {
        match cw {
            ControlWordView::LeftAligned => Alignment::LeftAligned,
            ControlWordView::RightAligned => Alignment::RightAligned,
            ControlWordView::Center => Alignment::Center,
            ControlWordView::Justify => Alignment::Justify,
            _ => Alignment::LeftAligned,
        }
    }
}

impl<'a, 'b> From<&'b ControlWord<'a>> for Alignment {
    fn from(cw: &'b ControlWord<'a>) -> (r: Self) {
        match cw {
            ControlWord::LeftAligned => Alignment::LeftAligned,
            ControlWord::RightAligned => Alignment::RightAligned,
            ControlWord::Center => Alignment::Center,
            ControlWord::Justify => Alignment::Justify,
            _ => Alignment::LeftAligned,
        }
    }
}

impl<'a, 'b> FromSpecImpl<&'b ControlWord<'a>> for Alignment {
    open spec fn obeys_from_spec() -> bool {
        true
    }

    open spec fn from_spec(cw: &'b ControlWord<'a>) -> Self {
        Alignment::of(cw@)
    }
}

impl SpaceBetweenLine {
    /// The line spacing that the argument of `\sl` asks for: 1000 leaves it
    /// to the tallest character, and any other number asks for its
    /// magnitude. The one number without a magnitude in 32 bits is invalid.
    pub open spec fn of(value: i32) -> SpaceBetweenLine {
        if value == 1000 {
            SpaceBetweenLine::Auto
        } else if value == i32::MIN {
            SpaceBetweenLine::Invalid
        } else if value < 0 {
            SpaceBetweenLine::Value((-value) as i32)
        } else {
            SpaceBetweenLine::Value(value)
        }
    }
}

impl From<i32> for SpaceBetweenLine {
    fn from(value: i32) -> (r: Self) {
        if value == 1000 {
            SpaceBetweenLine::Auto
        } else if value == i32::MIN {
            SpaceBetweenLine::Invalid
        } else if value < 0 {
            SpaceBetweenLine::Value(-value)
        } else {
            SpaceBetweenLine::Value(value)
        }
    }
}

impl FromSpecImpl<i32> for SpaceBetweenLine {
    open spec fn obeys_from_spec() -> bool {
        true
    }

    open spec fn from_spec(value: i32) -> Self {
        SpaceBetweenLine::of(value)
    }
}

impl Spacing {
    /// No space before or after, and between the lines what the tallest
    /// character asks for.
    pub open spec fn spec_default() -> Spacing {
        Spacing { before: 0, after: 0, between_line: SpaceBetweenLine::Auto, line_multiplier: 0 }
    }
}

impl Default for Spacing {
    fn default() -> (r: Self)
        ensures
            r == Spacing::spec_default(),
    {
        Spacing { before: 0, after: 0, between_line: SpaceBetweenLine::Auto, line_multiplier: 0 }
    }
}

impl Indentation {
    /// No indentation.
    pub open spec fn spec_default() -> Indentation {
        Indentation { left: 0, right: 0, first_line: 0 }
    }
}

impl Default for Indentation {
    fn default() -> (r: Self)
        ensures
            r == Indentation::spec_default(),
    {
        Indentation { left: 0, right: 0, first_line: 0 }
    }
}

impl Paragraph {
    /// The paragraph format of a document that sets none: aligned left, no
    /// spacing, no indentation, no tab width.
    pub open spec fn spec_default() -> Paragraph {
        Paragraph {
            alignment: Alignment::LeftAligned,
            spacing: Spacing::spec_default(),
            indent: Indentation::spec_default(),
            tab_width: 0,
        }
    }
}

impl Default for Paragraph {
    fn default() -> (r: Self)
        ensures
            r == Paragraph::spec_default(),
    {
        Paragraph {
            alignment: Alignment::LeftAligned,
            spacing: Spacing::default(),
            indent: Indentation::default(),
            tab_width: 0,
        }
    }
}

} // verus!
