//! The styled text a caller hands in: the content characters together with
//! the configuration the rendering side needs to lay it out and draw it.
use vstd::prelude::*;

use crate::layout::BoundingBox;

verus! {

/// How tall each row is: relative to the font size, in percent, or an
/// absolute measure in the engine's units.
#[derive(Clone, Copy, Debug, PartialEq, Eq, Structural)]
pub enum LineHeight {
    Relative(u64),
    Absolute(u64),
}

/// Horizontal placement of the rows inside the render area.
#[derive(Clone, Copy, Debug, PartialEq, Eq, Structural)]
pub enum Horizontal {
    Left,
    Center,
    Right,
}

/// Vertical placement of the block inside the render area.
#[derive(Clone, Copy, Debug, PartialEq, Eq, Structural)]
pub enum Vertical {
    Top,
    Center,
    Bottom,
}

/// A handle under which the rendering side keeps a font face.
#[derive(Clone, Copy, Debug, PartialEq, Eq, Structural)]
pub struct FontId(pub u64);

/// A styled piece of text: its characters, the font configuration the layout
/// engine works from, and the area the block may cover. When `max_size` is
/// absent the text is drawn without ellipsizing.
#[derive(Debug)]
pub struct Content {
    pub text: Vec<char>,
    pub size: u64,
    pub max_size: Option<BoundingBox>,
    pub font: Option<FontId>,
    pub line_height: LineHeight,
    pub horizontal_alignment: Horizontal,
    pub vertical_alignment: Vertical,
}

impl Content {
    /// A content block in the default style: size 14, rows at 150 percent of
    /// the size, no chosen font, rows left-aligned, block centered.
    pub fn new(text: Vec<char>, max_size: Option<BoundingBox>) -> (c: Content)
        ensures
            c.text == text,
            c.max_size == max_size,
            c.size == 14,
            c.font is None,
            c.line_height == LineHeight::Relative(150),
            c.horizontal_alignment == Horizontal::Left,
            c.vertical_alignment == Vertical::Center,
    {
        Content {
            text,
            size: 14,
            max_size,
            font: None,
            line_height: LineHeight::Relative(150),
            horizontal_alignment: Horizontal::Left,
            vertical_alignment: Vertical::Center,
        }
    }

    /// Chooses the font; the rest of the configuration is kept.
    pub fn font(self, font: FontId) -> (c: Content)
        ensures
            c.font == Some(font),
            c.text == self.text,
            c.size == self.size,
            c.max_size == self.max_size,
            c.line_height == self.line_height,
            c.horizontal_alignment == self.horizontal_alignment,
            c.vertical_alignment == self.vertical_alignment,
    {
        Content { font: Some(font), ..self }
    }

    /// Chooses the font size; the rest of the configuration is kept.
    pub fn size(self, size: u64) -> (c: Content)
        ensures
            c.size == size,
            c.text == self.text,
            c.max_size == self.max_size,
            c.font == self.font,
            c.line_height == self.line_height,
            c.horizontal_alignment == self.horizontal_alignment,
            c.vertical_alignment == self.vertical_alignment,
    {
        Content { size, ..self }
    }

    /// Chooses the row height; the rest of the configuration is kept.
    pub fn line_height(self, line_height: LineHeight) -> (c: Content)
        ensures
            c.line_height == line_height,
            c.text == self.text,
            c.size == self.size,
            c.max_size == self.max_size,
            c.font == self.font,
            c.horizontal_alignment == self.horizontal_alignment,
            c.vertical_alignment == self.vertical_alignment,
    {
        Content { line_height, ..self }
    }

    /// Chooses the horizontal placement; the rest of the configuration is
    /// kept.
    pub fn align_x(self, alignment: Horizontal) -> (c: Content)
        ensures
            c.horizontal_alignment == alignment,
            c.text == self.text,
            c.size == self.size,
            c.max_size == self.max_size,
            c.font == self.font,
            c.line_height == self.line_height,
            c.vertical_alignment == self.vertical_alignment,
    {
        Content { horizontal_alignment: alignment, ..self }
    }

    /// Chooses the vertical placement; the rest of the configuration is
    /// kept.
    pub fn align_y(self, alignment: Vertical) -> (c: Content)
        ensures
            c.vertical_alignment == alignment,
            c.text == self.text,
            c.size == self.size,
            c.max_size == self.max_size,
            c.font == self.font,
            c.line_height == self.line_height,
            c.horizontal_alignment == self.horizontal_alignment,
    {
        Content { vertical_alignment: alignment, ..self }
    }

    /// Centers the block both ways; the rest of the configuration is kept.
    pub fn center(self) -> (c: Content)
        ensures
            c.horizontal_alignment == Horizontal::Center,
            c.vertical_alignment == Vertical::Center,
            c.text == self.text,
            c.size == self.size,
            c.max_size == self.max_size,
            c.font == self.font,
            c.line_height == self.line_height,
    {
        Content {
            horizontal_alignment: Horizontal::Center,
            vertical_alignment: Vertical::Center,
            ..self
        }
    }
}

} // verus!
