//! The theme: every visual resource the components draw from, grouped by
//! kind. Loading the resources from disk is the host's concern; the theme
//! itself only holds and serves plain values and handles.

use vstd::prelude::*;

pub mod colors;
pub mod fonts;
pub mod icons;
pub mod brand;
pub mod layout;

pub use colors::{Color, ColorResources, BackgroundColor, OutlineColor, TextColor, StatusColor, ButtonColors, ButtonColorScheme, ButtonColorSet};
pub use fonts::{FontResources, Fonts, FontSize};
pub use icons::IconResources;
pub use brand::{BrandResources, Illustrations};
pub use layout::LayoutResources;

verus! {

/// All visual and layout resources of one theme.
pub struct Theme {
    pub colors: ColorResources,
    pub fonts: FontResources,
    pub icons: IconResources,
    pub brand: BrandResources,
    pub layout: LayoutResources,
}

impl Theme {
    /// Groups already-loaded resources into a theme.
    pub fn new(
        colors: ColorResources,
        fonts: FontResources,
        icons: IconResources,
        brand: BrandResources,
        layout: LayoutResources,
    ) -> (r: Theme)
        ensures
            r.colors == colors,
            r.fonts == fonts,
            r.icons == icons,
            r.brand == brand,
            r.layout == layout,
    {
        Theme { colors, fonts, icons, brand, layout }
    }
}

} // verus!
