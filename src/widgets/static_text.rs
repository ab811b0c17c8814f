use vstd::prelude::*;
use crate::skin::types::{TextAlign, VerticalAlign};

verus! {

/// A line of text that is shown, not edited; it may be bound to a store key.
/// Its glyphs are laid out and rasterized by the font layer.
pub struct StaticText {
    content: String,
    font_size_bits: u32,
    text_color: u32,
    text_align: TextAlign,
    vertical_align: VerticalAlign,
    padding: u32,
    binding: Option<String>,
}

/// The bit pattern of the single-precision value 16.0, the default font size.
pub const DEFAULT_FONT_SIZE_BITS: u32 = 0x4180_0000;

impl StaticText {
    pub closed spec fn content_spec(&self) -> Seq<char> {
        self.content@
    }

    pub closed spec fn binding_spec(&self) -> Option<Seq<char>> {
        match self.binding {
            Some(b) => Some(b@),
            None => None,
        }
    }

    pub closed spec fn style(&self) -> (u32, u32, TextAlign, VerticalAlign, u32) {
        (self.font_size_bits, self.text_color, self.text_align, self.vertical_align, self.padding)
    }

    pub fn new(content: String) -> (r: Self)
        ensures
            r.content_spec() == content@,
            r.binding_spec() is None,
            r.style() == (DEFAULT_FONT_SIZE_BITS, 0u32, TextAlign::Left, VerticalAlign::Center, 0u32),
    {
        StaticText {
            content,
            font_size_bits: DEFAULT_FONT_SIZE_BITS,
            text_color: 0x000000,
            text_align: TextAlign::Left,
            vertical_align: VerticalAlign::Center,
            padding: 0,
            binding: None,
        }
    }

    /// Sets the font size, given as the bit pattern of an IEEE-754 single.
    pub fn with_font_size_bits(self, bits: u32) -> (r: Self)
        ensures
            r.content_spec() == self.content_spec(),
            r.binding_spec() == self.binding_spec(),
            r.style() == (bits, self.style().1, self.style().2, self.style().3, self.style().4),
    {
        StaticText { font_size_bits: bits, ..self }
    }

    pub fn with_text_color(self, color: u32) -> (r: Self)
        ensures
            r.content_spec() == self.content_spec(),
            r.binding_spec() == self.binding_spec(),
            r.style() == (self.style().0, color, self.style().2, self.style().3, self.style().4),
    {
        StaticText { text_color: color, ..self }
    }

    pub fn with_text_align(self, align: TextAlign) -> (r: Self)
        ensures
            r.content_spec() == self.content_spec(),
            r.binding_spec() == self.binding_spec(),
            r.style() == (self.style().0, self.style().1, align, self.style().3, self.style().4),
    {
        StaticText { text_align: align, ..self }
    }

    pub fn with_vertical_align(self, align: VerticalAlign) -> (r: Self)
        ensures
            r.content_spec() == self.content_spec(),
            r.binding_spec() == self.binding_spec(),
            r.style() == (self.style().0, self.style().1, self.style().2, align, self.style().4),
    {
        StaticText { vertical_align: align, ..self }
    }

    pub fn with_padding(self, padding: u32) -> (r: Self)
        ensures
            r.content_spec() == self.content_spec(),
            r.binding_spec() == self.binding_spec(),
            r.style() == (self.style().0, self.style().1, self.style().2, self.style().3, padding),
    {
        StaticText { padding, ..self }
    }

    /// Binds the text to a store key.
    pub fn with_binding(self, binding: String) -> (r: Self)
        ensures
            r.content_spec() == self.content_spec(),
            r.binding_spec() == Some(binding@),
            r.style() == self.style(),
    {
        StaticText { binding: Some(binding), ..self }
    }

    pub fn binding(&self) -> (r: Option<&str>)
        ensures
            match r {
                Some(b) => self.binding_spec() == Some(b@),
                None => self.binding_spec() is None,
            },
    {
        match &self.binding {
            Some(b) => Some(b.as_str()),
            None => None,
        }
    }

    pub fn content(&self) -> (r: &str)
        ensures
            r@ == self.content_spec(),
    {
        self.content.as_str()
    }

    pub fn set_content(&mut self, content: String)
        ensures
            final(self).content_spec() == content@,
            final(self).binding_spec() == old(self).binding_spec(),
            final(self).style() == old(self).style(),
    {
        self.content = content;
    }

    pub fn font_size_bits(&self) -> (r: u32)
        ensures
            r == self.style().0,
    {
        self.font_size_bits
    }

    pub fn text_color(&self) -> (r: u32)
        ensures
            r == self.style().1,
    {
        self.text_color
    }

    pub fn text_align(&self) -> (r: TextAlign)
        ensures
            r == self.style().2,
    {
        self.text_align
    }

    pub fn vertical_align(&self) -> (r: VerticalAlign)
        ensures
            r == self.style().3,
    {
        self.vertical_align
    }

    pub fn padding(&self) -> (r: u32)
        ensures
            r == self.style().4,
    {
        self.padding
    }
}

} // verus!
