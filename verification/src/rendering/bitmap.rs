//! Font selection for the built-in bitmap fonts.
//!
//! Drawing with these fonts is done by the `embedded-graphics` text
//! renderer; this module decides which font a size and style select, and the
//! line spacing that goes with each size.

use vstd::prelude::*;

verus! {

/// Font size selection for the built-in bitmap fonts.
///
/// Each variant maps to an X11 bitmap font from the `embedded-graphics`
/// built-in collection.
#[derive(Debug, Clone, Copy, PartialEq, Eq, Structural)]
pub enum FontSize {
    /// 6×10 px — fine print, status bars.
    Small,
    /// 7×14 px — body text.
    Medium,
    /// 9×18 px — headings, prominent text.
    Large,
    /// 10×20 px — titles, large callouts.
    ExtraLarge,
}

/// Font weight / style for the built-in bitmap fonts.
#[derive(Debug, Clone, Copy, PartialEq, Eq, Structural)]
pub enum FontStyle {
    /// Normal weight, upright.
    Regular,
    /// Heavy weight.
    Bold,
    /// Slanted (only available at Medium; other sizes fall back to Regular).
    Italic,
}

impl Default for FontStyle {
    fn default() -> (s: FontStyle)
        ensures
            s == FontStyle::Regular,
    {
        FontStyle::Regular
    }
}

/// The built-in ASCII bitmap fonts of `embedded-graphics` that are used.
#[derive(Debug, Clone, Copy, PartialEq, Eq, Structural)]
pub enum MonoFontId {
    Font6x10,
    Font7x14,
    Font7x14Bold,
    Font7x13Italic,
    Font9x18,
    Font9x18Bold,
    Font10x20,
}

/// The font a size and style select: Small and ExtraLarge exist only in
/// regular weight, Large has no italic, Medium has all three styles.
pub open spec fn selected_font(size: FontSize, style: FontStyle) -> MonoFontId {
    match (size, style) {
        (FontSize::Small, _) => MonoFontId::Font6x10,
        (FontSize::Medium, FontStyle::Regular) => MonoFontId::Font7x14,
        (FontSize::Medium, FontStyle::Bold) => MonoFontId::Font7x14Bold,
        (FontSize::Medium, FontStyle::Italic) => MonoFontId::Font7x13Italic,
        (FontSize::Large, FontStyle::Bold) => MonoFontId::Font9x18Bold,
        (FontSize::Large, _) => MonoFontId::Font9x18,
        (FontSize::ExtraLarge, _) => MonoFontId::Font10x20,
    }
}

/// Line height in pixels of each size: font cell height plus 2 px spacing.
pub open spec fn spec_line_height(size: FontSize) -> i32 {
    match size {
        FontSize::Small => 12,
        FontSize::Medium => 16,
        FontSize::Large => 20,
        FontSize::ExtraLarge => 22,
    }
}

impl FontSize {
    /// Returns the font for this size and style combination.
    ///
    /// Falls back to `Regular` when the requested style variant doesn't exist
    /// for the chosen size.
    pub fn mono_font(self, style: FontStyle) -> (f: MonoFontId)
        ensures
            f == selected_font(self, style),
    {
        match (self, style) {
            (FontSize::Small, _) => MonoFontId::Font6x10,
            (FontSize::Medium, FontStyle::Regular) => MonoFontId::Font7x14,
            (FontSize::Medium, FontStyle::Bold) => MonoFontId::Font7x14Bold,
            (FontSize::Medium, FontStyle::Italic) => MonoFontId::Font7x13Italic,
            (FontSize::Large, FontStyle::Regular) => MonoFontId::Font9x18,
            (FontSize::Large, FontStyle::Italic) => MonoFontId::Font9x18,
            (FontSize::Large, FontStyle::Bold) => MonoFontId::Font9x18Bold,
            (FontSize::ExtraLarge, _) => MonoFontId::Font10x20,
        }
    }

    /// Approximate line height in pixels (font cell height + 2 px spacing).
    pub fn line_height(self) -> (h: i32)
        ensures
            h == spec_line_height(self),
    {
        match self {
            FontSize::Small => 12,
            FontSize::Medium => 16,
            FontSize::Large => 20,
            FontSize::ExtraLarge => 22,
        }
    }
}

} // verus!
