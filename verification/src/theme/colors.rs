//! The color table: background, outline, status, text and button colors,
//! with light and dark variants derived from a brand color.

use vstd::prelude::*;

verus! {

/// An RGBA color, one byte per channel.
#[derive(Clone, Copy, Debug, PartialEq, Eq, Structural)]
pub struct Color {
    pub r: u8,
    pub g: u8,
    pub b: u8,
    pub a: u8,
}

pub open spec fn spec_white() -> Color {
    Color { r: 255u8, g: 255u8, b: 255u8, a: 255u8 }
}

pub open spec fn spec_black() -> Color {
    Color { r: 0u8, g: 0u8, b: 0u8, a: 255u8 }
}

pub open spec fn spec_transparent() -> Color {
    Color { r: 0u8, g: 0u8, b: 0u8, a: 0u8 }
}

/// The value of one hexadecimal digit, or `-1` for any other character.
pub open spec fn spec_hex_digit(c: char) -> int {
    if '0' <= c && c <= '9' {
        c as int - '0' as int
    } else if 'a' <= c && c <= 'f' {
        10 + (c as int - 'a' as int)
    } else if 'A' <= c && c <= 'F' {
        10 + (c as int - 'A' as int)
    } else {
        -1int
    }
}

/// A well-formed hex color string: a hash and six hex digits.
pub open spec fn spec_hex_wf(s: Seq<char>) -> bool {
    &&& s.len() == 7
    &&& s[0] == '#'
    &&& forall|i: int| 1 <= i < 7 ==> spec_hex_digit(#[trigger] s[i]) >= 0
}

/// The channel a pair of hex digits encodes.
pub open spec fn spec_hex_channel(s: Seq<char>, i: int) -> int {
    16 * spec_hex_digit(s[i]) + spec_hex_digit(s[i + 1])
}

/// The color a hex string encodes with the given alpha; a malformed
/// string encodes opaque black.
pub open spec fn spec_from_hex(s: Seq<char>, alpha: u8) -> Color {
    if spec_hex_wf(s) {
        Color {
            r: spec_hex_channel(s, 1) as u8,
            g: spec_hex_channel(s, 3) as u8,
            b: spec_hex_channel(s, 5) as u8,
            a: alpha,
        }
    } else {
        Color { r: 0u8, g: 0u8, b: 0u8, a: alpha }
    }
}

/// The perceived brightness of a color, out of 255: the usual weighted
/// sum of the channels.
pub open spec fn spec_luminance(c: Color) -> int {
    (299 * c.r + 587 * c.g + 114 * c.b) / 1000
}

/// A channel scaled down by a percentage.
pub open spec fn spec_scaled(channel: u8, percent: u8) -> int {
    (channel * percent) / 100
}

impl Color {
    pub fn white() -> (r: Color)
        ensures
            r == spec_white(),
    {
        Color { r: 255, g: 255, b: 255, a: 255 }
    }

    pub fn black() -> (r: Color)
        ensures
            r == spec_black(),
    {
        Color { r: 0, g: 0, b: 0, a: 255 }
    }

    pub fn transparent() -> (r: Color)
        ensures
            r == spec_transparent(),
    {
        Color { r: 0, g: 0, b: 0, a: 0 }
    }

    /// Parses a `#RRGGBB` string into a color with the given alpha; any
    /// malformed string parses as opaque black.
    pub fn from_hex(hex: &str, alpha: u8) -> (r: Color)
        ensures
            r == spec_from_hex(hex@, alpha),
    {
        if hex.unicode_len() != 7 {
            return Color { r: 0, g: 0, b: 0, a: alpha };
        }
        if hex.get_char(0) != '#' {
            return Color { r: 0, g: 0, b: 0, a: alpha };
        }
        let mut digits: Vec<i16> = Vec::new();
        let mut i: usize = 1;
        while i < 7
            invariant
                1 <= i <= 7,
                hex@.len() == 7,
                digits@.len() == i - 1,
                forall|j: int| 0 <= j < i - 1
                    ==> #[trigger] digits@[j] == spec_hex_digit(hex@[j + 1])
                        && 0 <= spec_hex_digit(hex@[j + 1]) <= 15,
            decreases 7 - i,
        {
            let c = hex.get_char(i);
            let v: i16 = if '0' <= c && c <= '9' {
                (c as u32 - '0' as u32) as i16
            } else if 'a' <= c && c <= 'f' {
                (10 + (c as u32 - 'a' as u32)) as i16
            } else if 'A' <= c && c <= 'F' {
                (10 + (c as u32 - 'A' as u32)) as i16
            } else {
                return Color { r: 0, g: 0, b: 0, a: alpha };
            };
            proof {
                assert(c == hex@[i as int]);
                assert(v as int == spec_hex_digit(hex@[i as int]));
                assert(0 <= spec_hex_digit(hex@[i as int]) <= 15);
            }
            let ghost old_digits = digits@;
            digits.push(v);
            proof {
                assert forall|j: int| 0 <= j < i implies
                    #[trigger] digits@[j] == spec_hex_digit(hex@[j + 1])
                        && 0 <= spec_hex_digit(hex@[j + 1]) <= 15 by {
                    if j < i - 1 {
                        assert(digits@[j] == old_digits[j]);
                    } else {
                        assert(digits@[j] == v as int);
                    }
                }
            }
            i = i + 1;
        }
        proof {
            assert(0 <= digits@[0] <= 15 && 0 <= digits@[1] <= 15);
            assert(0 <= digits@[2] <= 15 && 0 <= digits@[3] <= 15);
            assert(0 <= digits@[4] <= 15 && 0 <= digits@[5] <= 15);
        }
        Color {
            r: (16 * digits[0] + digits[1]) as u8,
            g: (16 * digits[2] + digits[3]) as u8,
            b: (16 * digits[4] + digits[5]) as u8,
            a: alpha,
        }
    }

    /// Whether text on this color needs the light label: the perceived
    /// brightness is below the midpoint.
    pub fn is_high_contrast(c: Color) -> (r: bool)
        ensures
            r == (spec_luminance(c) < 128),
    {
        let lum = (299 * (c.r as u32) + 587 * (c.g as u32) + 114 * (c.b as u32)) / 1000;
        lum < 128
    }

    /// Scales each color channel down to the given percentage, keeping
    /// the alpha.
    pub fn darken(c: Color, percent: u8) -> (r: Color)
        requires
            percent <= 100,
        ensures
            r == (Color {
                r: spec_scaled(c.r, percent) as u8,
                g: spec_scaled(c.g, percent) as u8,
                b: spec_scaled(c.b, percent) as u8,
                a: c.a,
            }),
    {
        proof {
            assert(c.r as int * percent as int <= 25500) by (nonlinear_arith)
                requires c.r as int <= 255, 0 <= percent as int <= 100, 0 <= c.r as int;
            assert(c.g as int * percent as int <= 25500) by (nonlinear_arith)
                requires c.g as int <= 255, 0 <= percent as int <= 100, 0 <= c.g as int;
            assert(c.b as int * percent as int <= 25500) by (nonlinear_arith)
                requires c.b as int <= 255, 0 <= percent as int <= 100, 0 <= c.b as int;
        }
        Color {
            r: ((c.r as u32 * percent as u32) / 100) as u8,
            g: ((c.g as u32 * percent as u32) / 100) as u8,
            b: ((c.b as u32 * percent as u32) / 100) as u8,
            a: c.a,
        }
    }
}

/// The background colors.
#[derive(Clone, Copy, Debug, PartialEq, Eq, Structural)]
pub struct BackgroundColor {
    pub primary: Color,
    pub secondary: Color,
}

impl BackgroundColor {
    pub fn dark() -> (r: Self)
        ensures
            r == (BackgroundColor { primary: spec_black(), secondary: spec_from_hex("#262322"@, 255u8) }),
    {
        BackgroundColor { primary: Color::black(), secondary: Color::from_hex("#262322", 255) }
    }

    pub fn light() -> (r: Self)
        ensures
            r == (BackgroundColor { primary: spec_white(), secondary: spec_from_hex("#DDDDDD"@, 255u8) }),
    {
        BackgroundColor { primary: Color::white(), secondary: Color::from_hex("#DDDDDD", 255) }
    }
}

impl Default for BackgroundColor {
    fn default() -> (r: Self)
        ensures
            r == (BackgroundColor { primary: spec_black(), secondary: spec_from_hex("#262322"@, 255u8) }),
    {
        BackgroundColor::dark()
    }
}

/// The outline colors.
#[derive(Clone, Copy, Debug, PartialEq, Eq, Structural)]
pub struct OutlineColor {
    pub primary: Color,
    pub secondary: Color,
}

impl OutlineColor {
    pub fn dark() -> (r: Self)
        ensures
            r == (OutlineColor { primary: spec_white(), secondary: spec_from_hex("#585250"@, 255u8) }),
    {
        OutlineColor { primary: Color::white(), secondary: Color::from_hex("#585250", 255) }
    }

    pub fn light() -> (r: Self)
        ensures
            r == (OutlineColor { primary: spec_black(), secondary: spec_from_hex("#444444"@, 255u8) }),
    {
        OutlineColor { primary: Color::black(), secondary: Color::from_hex("#444444", 255) }
    }
}

impl Default for OutlineColor {
    fn default() -> (r: Self)
        ensures
            r == (OutlineColor { primary: spec_white(), secondary: spec_from_hex("#585250"@, 255u8) }),
    {
        OutlineColor::dark()
    }
}

/// The colors of text elements.
#[derive(Clone, Copy, Debug, PartialEq, Eq, Structural)]
pub struct TextColor {
    pub heading: Color,
    pub primary: Color,
    pub secondary: Color,
}

impl TextColor {
    pub fn dark() -> (r: Self)
        ensures
            r == (TextColor {
                heading: spec_white(),
                primary: spec_from_hex("#e2e1df"@, 255u8),
                secondary: spec_from_hex("#a7a29d"@, 255u8),
            }),
    {
        TextColor {
            heading: Color::white(),
            primary: Color::from_hex("#e2e1df", 255),
            secondary: Color::from_hex("#a7a29d", 255),
        }
    }

    pub fn light() -> (r: Self)
        ensures
            r == (TextColor {
                heading: spec_black(),
                primary: spec_black(),
                secondary: spec_from_hex("#444444"@, 255u8),
            }),
    {
        TextColor {
            heading: Color::black(),
            primary: Color::black(),
            secondary: Color::from_hex("#444444", 255),
        }
    }
}

impl Default for TextColor {
    fn default() -> (r: Self)
        ensures
            r == (TextColor {
                heading: spec_white(),
                primary: spec_from_hex("#e2e1df"@, 255u8),
                secondary: spec_from_hex("#a7a29d"@, 255u8),
            }),
    {
        TextColor::dark()
    }
}

/// The status indicator colors.
#[derive(Clone, Copy, Debug, PartialEq, Eq, Structural)]
pub struct StatusColor {
    pub success: Color,
    pub warning: Color,
    pub danger: Color,
}

impl Default for StatusColor {
    fn default() -> (r: Self)
        ensures
            r == (StatusColor {
                success: spec_from_hex("#3ccb5a"@, 255u8),
                warning: spec_from_hex("#f5bd14"@, 255u8),
                danger: spec_from_hex("#ff330a"@, 255u8),
            }),
    {
        StatusColor {
            success: Color::from_hex("#3ccb5a", 255),
            warning: Color::from_hex("#f5bd14", 255),
            danger: Color::from_hex("#ff330a", 255),
        }
    }
}

/// One button state's colors.
#[derive(Clone, Copy, Debug, PartialEq, Eq, Structural)]
pub struct ButtonColorScheme {
    pub background: Color,
    pub label: Color,
    pub outline: Color,
}

/// The colors of one button style across its states.
#[derive(Clone, Copy, Debug, PartialEq, Eq, Structural)]
pub struct ButtonColorSet {
    pub default: ButtonColorScheme,
    pub disabled: ButtonColorScheme,
    pub hover: ButtonColorScheme,
    pub pressed: ButtonColorScheme,
}

impl ButtonColorSet {
    /// The primary style: the brand color as background, darkened while
    /// hovered and further while pressed, with the label picked for
    /// contrast against the brand color.
    pub fn primary(brand: Color) -> (r: Self)
        ensures
            r.default.background == brand,
            r.default.label == if spec_luminance(brand) < 128 { spec_white() } else { spec_black() },
            r.default.outline == spec_transparent(),
            r.disabled == (ButtonColorScheme {
                background: spec_from_hex("#443f3f"@, 255u8),
                label: spec_black(),
                outline: spec_transparent(),
            }),
            r.hover.background == (Color {
                r: spec_scaled(brand.r, 85u8) as u8,
                g: spec_scaled(brand.g, 85u8) as u8,
                b: spec_scaled(brand.b, 85u8) as u8,
                a: brand.a,
            }),
            r.hover.label == r.default.label,
            r.hover.outline == spec_transparent(),
            r.pressed.background == (Color {
                r: spec_scaled(brand.r, 80u8) as u8,
                g: spec_scaled(brand.g, 80u8) as u8,
                b: spec_scaled(brand.b, 80u8) as u8,
                a: brand.a,
            }),
            r.pressed.label == r.default.label,
            r.pressed.outline == spec_transparent(),
    {
        let label = if Color::is_high_contrast(brand) { Color::white() } else { Color::black() };
        ButtonColorSet {
            default: ButtonColorScheme {
                background: brand,
                label,
                outline: Color::transparent(),
            },
            disabled: ButtonColorScheme {
                background: Color::from_hex("#443f3f", 255),
                label: Color::black(),
                outline: Color::transparent(),
            },
            hover: ButtonColorScheme {
                background: Color::darken(brand, 85),
                label,
                outline: Color::transparent(),
            },
            pressed: ButtonColorScheme {
                background: Color::darken(brand, 80),
                label,
                outline: Color::transparent(),
            },
        }
    }

    /// The secondary style: transparent over an outline.
    pub fn secondary() -> (r: Self)
        ensures
            r.default == (ButtonColorScheme {
                background: spec_transparent(),
                label: spec_white(),
                outline: spec_from_hex("#585250"@, 255u8),
            }),
            r.disabled == (ButtonColorScheme {
                background: spec_from_hex("#78716c"@, 255u8),
                label: spec_black(),
                outline: spec_from_hex("#585250"@, 255u8),
            }),
            r.hover == (ButtonColorScheme {
                background: spec_from_hex("#262322"@, 255u8),
                label: spec_white(),
                outline: spec_from_hex("#585250"@, 255u8),
            }),
            r.pressed == (ButtonColorScheme {
                background: spec_from_hex("#262322"@, 255u8),
                label: spec_white(),
                outline: spec_from_hex("#585250"@, 255u8),
            }),
    {
        ButtonColorSet {
            default: ButtonColorScheme {
                background: Color::transparent(),
                label: Color::white(),
                outline: Color::from_hex("#585250", 255),
            },
            disabled: ButtonColorScheme {
                background: Color::from_hex("#78716c", 255),
                label: Color::black(),
                outline: Color::from_hex("#585250", 255),
            },
            hover: ButtonColorScheme {
                background: Color::from_hex("#262322", 255),
                label: Color::white(),
                outline: Color::from_hex("#585250", 255),
            },
            pressed: ButtonColorScheme {
                background: Color::from_hex("#262322", 255),
                label: Color::white(),
                outline: Color::from_hex("#585250", 255),
            },
        }
    }

    /// The ghost style: fully transparent until hovered.
    pub fn ghost() -> (r: Self)
        ensures
            r.default == (ButtonColorScheme {
                background: spec_transparent(),
                label: spec_white(),
                outline: spec_transparent(),
            }),
            r.disabled == (ButtonColorScheme {
                background: spec_transparent(),
                label: spec_from_hex("#78716c"@, 255u8),
                outline: spec_transparent(),
            }),
            r.hover == (ButtonColorScheme {
                background: spec_from_hex("#262322"@, 255u8),
                label: spec_white(),
                outline: spec_transparent(),
            }),
            r.pressed == (ButtonColorScheme {
                background: spec_from_hex("#262322"@, 255u8),
                label: spec_white(),
                outline: spec_transparent(),
            }),
    {
        ButtonColorSet {
            default: ButtonColorScheme {
                background: Color::transparent(),
                label: Color::white(),
                outline: Color::transparent(),
            },
            disabled: ButtonColorScheme {
                background: Color::transparent(),
                label: Color::from_hex("#78716c", 255),
                outline: Color::transparent(),
            },
            hover: ButtonColorScheme {
                background: Color::from_hex("#262322", 255),
                label: Color::white(),
                outline: Color::transparent(),
            },
            pressed: ButtonColorScheme {
                background: Color::from_hex("#262322", 255),
                label: Color::white(),
                outline: Color::transparent(),
            },
        }
    }
}

/// The colors of every button style.
#[derive(Clone, Copy, Debug, PartialEq, Eq, Structural)]
pub struct ButtonColors {
    pub primary: ButtonColorSet,
    pub secondary: ButtonColorSet,
    /// The ghost style; named in full because `ghost` is a reserved word
    /// of the verifier.
    pub ghost_style: ButtonColorSet,
}

impl ButtonColors {
    /// Derives every button style from the brand color.
    pub fn from(brand: Color) -> (r: Self)
        ensures
            r.primary.default.background == brand,
    {
        ButtonColors {
            primary: ButtonColorSet::primary(brand),
            secondary: ButtonColorSet::secondary(),
            ghost_style: ButtonColorSet::ghost(),
        }
    }
}

impl Default for ButtonColors {
    fn default() -> (r: Self)
        ensures
            r.primary.default.background == spec_from_hex("#02f0cc"@, 255u8),
    {
        ButtonColors {
            primary: ButtonColorSet::primary(Color::from_hex("#02f0cc", 255)),
            secondary: ButtonColorSet::secondary(),
            ghost_style: ButtonColorSet::ghost(),
        }
    }
}

/// The whole color table of one theme.
#[derive(Clone, Copy, Debug, PartialEq, Eq, Structural)]
pub struct ColorResources {
    pub background: BackgroundColor,
    pub outline: OutlineColor,
    pub status: StatusColor,
    pub text: TextColor,
    pub button: ButtonColors,
    pub brand: Color,
}

impl ColorResources {
    /// Groups given color choices.
    pub fn new(
        background: BackgroundColor,
        outline: OutlineColor,
        status: StatusColor,
        text: TextColor,
        brand: Color,
        button: ButtonColors,
    ) -> (r: Self)
        ensures
            r == (ColorResources { background, outline, status, text, button, brand }),
    {
        ColorResources { background, outline, status, text, button, brand }
    }

    /// The light theme for a brand color.
    pub fn light(brand: Color) -> (r: Self)
        ensures
            r.brand == brand,
            r.background == (BackgroundColor { primary: spec_white(), secondary: spec_from_hex("#DDDDDD"@, 255u8) }),
    {
        ColorResources {
            background: BackgroundColor::light(),
            outline: OutlineColor::light(),
            status: StatusColor::default(),
            text: TextColor::light(),
            brand,
            button: ButtonColors::from(brand),
        }
    }

    /// The dark theme for a brand color.
    pub fn dark(brand: Color) -> (r: Self)
        ensures
            r.brand == brand,
            r.background == (BackgroundColor { primary: spec_black(), secondary: spec_from_hex("#262322"@, 255u8) }),
    {
        ColorResources {
            background: BackgroundColor::dark(),
            outline: OutlineColor::dark(),
            status: StatusColor::default(),
            text: TextColor::dark(),
            brand,
            button: ButtonColors::from(brand),
        }
    }

    /// Picks the light or dark theme by the brand color's brightness: a
    /// dark brand color gets the dark theme.
    pub fn from(brand: Color) -> (r: Self)
        ensures
            r.brand == brand,
            spec_luminance(brand) < 128 ==> r.background.primary == spec_black(),
            spec_luminance(brand) >= 128 ==> r.background.primary == spec_white(),
    {
        if Color::is_high_contrast(brand) {
            ColorResources::dark(brand)
        } else {
            ColorResources::light(brand)
        }
    }
}

impl Default for ColorResources {
    fn default() -> (r: Self)
        ensures
            r.background == (BackgroundColor { primary: spec_black(), secondary: spec_from_hex("#262322"@, 255u8) }),
    {
        ColorResources {
            background: BackgroundColor::default(),
            outline: OutlineColor::default(),
            status: StatusColor::default(),
            text: TextColor::default(),
            button: ButtonColors::default(),
            brand: Color::from_hex("#02f0cc", 255),
        }
    }
}

} // verus!
