//! The header of a document: its character set and its tables.

use vstd::prelude::*;
use std::collections::HashMap;
use crate::paragraph::Paragraph;
use crate::parser::Painter;
use crate::text::{spells, to_chars};
use crate::tokens::{ControlWord, ControlWordView, Token, TokenView};

verus! {

/// The index of a colour in the colour table. The body names a colour by it.
pub type ColorRef = u16;

/// The colours of a document by their index.
pub type ColorTable = HashMap<ColorRef, Color>;

/// The index of a font in the font table. The body names a font by it.
pub type FontRef = u16;

/// The fonts of a document by their index.
pub type FontTable = HashMap<FontRef, Font>;

/// The index of a style in the stylesheet.
pub type StyleRef = u16;

/// The styles of a document by their index.
pub type StyleSheet = HashMap<StyleRef, Style>;

/// An entry of the stylesheet.
#[derive(Hash, Default, Debug, Clone, PartialEq)]
pub struct Style {
    pub painter: Painter,
    pub paragraph: Paragraph,
}

/// What a document says of itself before its text: the character set, the
/// fonts, the colours and the styles.
#[derive(Default, Debug, Clone, PartialEq)]
pub struct RtfHeader {
    pub character_set: CharacterSet,
    pub font_table: FontTable,
    pub color_table: ColorTable,
    pub stylesheet: StyleSheet,
}

/// A font of the font table.
#[derive(Hash, Default, Clone, Debug, PartialEq)]
pub struct Font {
    pub name: String,
    pub character_set: u8,
    pub font_family: FontFamily,
}

/// A colour of the colour table.
#[derive(Hash, Default, Clone, Copy, Debug, PartialEq, Eq, Structural)]
pub struct Color {
    pub red: u8,
    pub green: u8,
    pub blue: u8,
}

/// The character set that a document declares.
#[derive(Debug, PartialEq, Eq, Default, Clone, Copy, Hash, Structural)]
pub enum CharacterSet {
    #[default]
    Ansi,
    Mac,
    Pc,
    Pca,
    Ansicpg(u16),
}

/// The family of a font.
#[derive(Debug, PartialEq, Eq, Hash, Clone, Copy, Default, Structural)]
pub enum FontFamily {
    #[default]
    Nil,
    Roman,
    Swiss,
    Modern,
    Script,
    Decor,
    Tech,
    Bidi,
}

/// A font as a mathematical value.
pub struct FontView {
    pub name: Seq<char>,
    pub character_set: u8,
    pub font_family: FontFamily,
}

impl View for Font {
    type V = FontView;

    open spec fn view(&self) -> FontView {
        FontView {
            name: self.name@,
            character_set: self.character_set,
            font_family: self.font_family,
        }
    }
}

impl FontView {
    /// The font that a table starts from: no name, character set 0, no
    /// family.
    pub open spec fn spec_default() -> FontView {
        FontView { name: Seq::empty(), character_set: 0, font_family: FontFamily::Nil }
    }
}

/// A header as a mathematical value.
pub struct RtfHeaderView {
    pub character_set: CharacterSet,
    pub font_table: Map<FontRef, FontView>,
    pub color_table: Map<ColorRef, Color>,
    pub stylesheet: Map<StyleRef, Style>,
}

/// The fonts of a table as mathematical values.
pub open spec fn font_views(table: Map<FontRef, Font>) -> Map<FontRef, FontView> {
    table.map_values(|font: Font| font@)
}

impl View for RtfHeader {
    type V = RtfHeaderView;

    open spec fn view(&self) -> RtfHeaderView {
        RtfHeaderView {
            character_set: self.character_set,
            font_table: font_views(self.font_table@),
            color_table: self.color_table@,
            stylesheet: self.stylesheet@,
        }
    }
}

impl RtfHeaderView {
    /// The header of a document that declares nothing.
    pub open spec fn spec_default() -> RtfHeaderView {
        RtfHeaderView {
            character_set: CharacterSet::Ansi,
            font_table: Map::empty(),
            color_table: Map::empty(),
            stylesheet: Map::empty(),
        }
    }
}

impl CharacterSet {
    /// The character set that a token declares, if it declares one.
    pub open spec fn of(token: TokenView) -> Option<CharacterSet> {
        match token {
            TokenView::ControlSymbol(ControlWordView::Ansi, _) => Some(CharacterSet::Ansi),
            _ => None,
        }
    }

    /// Reads the character set from a token that declares one.
    pub fn from(token: &Token) -> (r: Option<Self>)
        ensures
            r == CharacterSet::of(token@),
    {
        match token {
            Token::ControlSymbol((ControlWord::Ansi, _)) => Some(Self::Ansi),
            _ => None,
        }
    }
}

impl FontFamily {
    /// The font family that a control word names, if it names one.
    pub open spec fn of(name: Seq<char>) -> Option<FontFamily> {
        if name == "\\fnil"@ {
            Some(FontFamily::Nil)
        } else if name == "\\froman"@ {
            Some(FontFamily::Roman)
        } else if name == "\\fswiss"@ {
            Some(FontFamily::Swiss)
        } else if name == "\\fmodern"@ {
            Some(FontFamily::Modern)
        } else if name == "\\fscript"@ {
            Some(FontFamily::Script)
        } else if name == "\\fdecor"@ {
            Some(FontFamily::Decor)
        } else if name == "\\ftech"@ {
            Some(FontFamily::Tech)
        } else if name == "\\fbidi"@ {
            Some(FontFamily::Bidi)
        } else {
            None
        }
    }

    /// Reads the font family from the control word that names it, with its
    /// backslash.
    pub fn from(string: &str) -> (r: Option<Self>)
        ensures
            r == FontFamily::of(string@),
    {
        let chars = to_chars(string);
        let len = chars.len();
        proof {
            assert(chars@.subrange(0, len as int) == string@);
        }
        if spells(&chars, 0, len, "\\fnil") {
            Some(Self::Nil)
        } else if spells(&chars, 0, len, "\\froman") {
            Some(Self::Roman)
        } else if spells(&chars, 0, len, "\\fswiss") {
            Some(Self::Swiss)
        } else if spells(&chars, 0, len, "\\fmodern") {
            Some(Self::Modern)
        } else if spells(&chars, 0, len, "\\fscript") {
            Some(Self::Script)
        } else if spells(&chars, 0, len, "\\fdecor") {
            Some(Self::Decor)
        } else if spells(&chars, 0, len, "\\ftech") {
            Some(Self::Tech)
        } else if spells(&chars, 0, len, "\\fbidi") {
            Some(Self::Bidi)
        } else {
            None
        }
    }
}

} // verus!
