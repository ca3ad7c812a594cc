//! The font table: which font face serves each role, and the ladder of
//! font sizes the components use.

use vstd::prelude::*;
use crate::resources::Font;

verus! {

/// The fonts and sizes of one theme.
#[derive(Clone, Copy)]
pub struct FontResources {
    pub fonts: Fonts,
    pub size: FontSize,
}

impl FontResources {
    /// Pairs a font table with a size ladder.
    pub fn new(fonts: Fonts, size: FontSize) -> (r: Self)
        ensures
            r.fonts == fonts,
            r.size == size,
    {
        Self { fonts, size }
    }
}

/// The font face serving each role.
#[derive(Clone, Copy)]
pub struct Fonts {
    pub heading: Font,
    pub text: Font,
    pub label: Font,
    pub keyboard: Font,
    pub emoji: Font,
}

impl Fonts {
    /// Assigns a loaded font to each role.
    pub fn new(heading: Font, text: Font, label: Font, keyboard: Font, emoji: Font) -> (r: Self)
        ensures
            r.heading == heading,
            r.text == text,
            r.label == label,
            r.keyboard == keyboard,
            r.emoji == emoji,
    {
        Self { heading, text, label, keyboard, emoji }
    }
}

/// The ladder of font sizes, in logical pixels.
#[derive(Clone, Copy, PartialEq, Eq, Structural)]
pub struct FontSize {
    pub title: i64,
    pub h1: i64,
    pub h2: i64,
    pub h3: i64,
    pub h4: i64,
    pub h5: i64,
    pub h6: i64,
    pub xl: i64,
    pub lg: i64,
    pub md: i64,
    pub sm: i64,
    pub xs: i64,
}

impl Default for FontSize {
    fn default() -> (r: Self)
        ensures
            r == (FontSize {
                title: 72int as i64,
                h1: 48int as i64,
                h2: 32int as i64,
                h3: 24int as i64,
                h4: 20int as i64,
                h5: 16int as i64,
                h6: 14int as i64,
                xl: 24int as i64,
                lg: 20int as i64,
                md: 16int as i64,
                sm: 14int as i64,
                xs: 12int as i64,
            }),
    {
        FontSize {
            title: 72,
            h1: 48,
            h2: 32,
            h3: 24,
            h4: 20,
            h5: 16,
            h6: 14,
            xl: 24,
            lg: 20,
            md: 16,
            sm: 14,
            xs: 12,
        }
    }
}

} // verus!
