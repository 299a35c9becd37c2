//! Color themes for the dashboard's surface: plain RGBA color records with
//! their default palettes, and the exact upper-case hexadecimal rendering
//! used when the colors are written into style rules.

use vstd::prelude::*;

use crate::numbers::append_hex_digit;
use crate::numbers::hex_digit_char;

verus! {

/// An RGBA color, one byte per channel, alpha last.
#[derive(Debug, Clone, Copy, PartialEq, Eq, Structural)]
pub struct Color(pub u32);

/// One nibble of a color value, counting bits from the low end.
pub open spec fn nibble(v: u32, k: u32) -> u32 {
    (v >> k) & 0xF
}

/// The eight upper-case hexadecimal digits of a color value, most
/// significant first.
pub open spec fn hex8_seq(v: u32) -> Seq<char> {
    seq![
        hex_digit_char(nibble(v, 28) as int),
        hex_digit_char(nibble(v, 24) as int),
        hex_digit_char(nibble(v, 20) as int),
        hex_digit_char(nibble(v, 16) as int),
        hex_digit_char(nibble(v, 12) as int),
        hex_digit_char(nibble(v, 8) as int),
        hex_digit_char(nibble(v, 4) as int),
        hex_digit_char(nibble(v, 0) as int),
    ]
}

impl Color {
    /// The color as eight upper-case hexadecimal digits.
    pub fn to_upper_hex(&self) -> (r: String)
        ensures
            r@ == hex8_seq(self.0),
    {
        let v = self.0;
        proof {
            assert((v >> 28u32) & 0xF < 16) by (bit_vector);
            assert((v >> 24u32) & 0xF < 16) by (bit_vector);
            assert((v >> 20u32) & 0xF < 16) by (bit_vector);
            assert((v >> 16u32) & 0xF < 16) by (bit_vector);
            assert((v >> 12u32) & 0xF < 16) by (bit_vector);
            assert((v >> 8u32) & 0xF < 16) by (bit_vector);
            assert((v >> 4u32) & 0xF < 16) by (bit_vector);
            assert((v >> 0u32) & 0xF < 16) by (bit_vector);
        }
        let mut out = String::new();
        append_hex_digit(&mut out, (v >> 28) & 0xF);
        append_hex_digit(&mut out, (v >> 24) & 0xF);
        append_hex_digit(&mut out, (v >> 20) & 0xF);
        append_hex_digit(&mut out, (v >> 16) & 0xF);
        append_hex_digit(&mut out, (v >> 12) & 0xF);
        append_hex_digit(&mut out, (v >> 8) & 0xF);
        append_hex_digit(&mut out, (v >> 4) & 0xF);
        append_hex_digit(&mut out, (v >> 0) & 0xF);
        proof {
            assert(out@ =~= hex8_seq(v));
        }
        out
    }
}

/// The primary theme colors: background and foreground.
#[derive(Debug, Clone, Copy, PartialEq, Eq, Structural)]
pub struct ThemePrimary {
    pub background: Color,
    pub forground: Color,
}

impl Default for ThemePrimary {
    /// The light-theme primary palette.
    fn default() -> (r: Self)
        ensures
            r.background == Color(0x62_00_EE_FF),
            r.forground == Color(0xFF_FF_FF_FF),
    {
        ThemePrimary { background: Color(0x62_00_EE_FF), forground: Color(0xFF_FF_FF_FF) }
    }
}

/// The secondary theme colors: background and foreground.
#[derive(Debug, Clone, Copy, PartialEq, Eq, Structural)]
pub struct ThemeSecondary {
    pub background: Color,
    pub forground: Color,
}

impl Default for ThemeSecondary {
    /// The light-theme secondary palette.
    fn default() -> (r: Self)
        ensures
            r.background == Color(0x01_87_86_FF),
            r.forground == Color(0xFF_FF_FF_FF),
    {
        ThemeSecondary { background: Color(0x01_87_86_FF), forground: Color(0xFF_FF_FF_FF) }
    }
}

/// The surface theme colors: background and foreground.
#[derive(Debug, Clone, Copy, PartialEq, Eq, Structural)]
pub struct ThemeSurface {
    pub background: Color,
    pub forground: Color,
}

impl Default for ThemeSurface {
    /// The light-theme surface palette.
    fn default() -> (r: Self)
        ensures
            r.background == Color(0xFF_FF_FF_FF),
            r.forground == Color(0x00_00_00_00),
    {
        ThemeSurface { background: Color(0xFF_FF_FF_FF), forground: Color(0x00_00_00_00) }
    }
}

/// The page background color.
#[derive(Debug, Clone, Copy, PartialEq, Eq, Structural)]
pub struct ThemeBackground(pub Color);

impl Default for ThemeBackground {
    /// The light-theme page background.
    fn default() -> (r: Self)
        ensures
            r.0 == Color(0xFF_FF_FF_FF),
    {
        ThemeBackground(Color(0xFF_FF_FF_FF))
    }
}

impl ThemeBackground {
    /// The color as eight upper-case hexadecimal digits.
    pub fn to_upper_hex(&self) -> (r: String)
        ensures
            r@ == hex8_seq(self.0.0),
    {
        self.0.to_upper_hex()
    }
}

/// The whole palette a theme setter applies.
#[derive(Debug, Clone, Copy, PartialEq, Eq, Structural)]
pub struct MatThemeSetterProps {
    pub primary: ThemePrimary,
    pub secondary: ThemeSecondary,
    pub surface: ThemeSurface,
    pub background: ThemeBackground,
}

/// The dark palette.
pub fn dark_theme() -> (r: MatThemeSetterProps)
    ensures
        r.primary == (ThemePrimary { background: Color(0xD0_BC_FF_FF), forground: Color(0x38_1E_72_FF) }),
        r.secondary == (ThemeSecondary { background: Color(0xCC_C2_DC_FF), forground: Color(0x33_2D_41_FF) }),
        r.surface == (ThemeSurface { background: Color(0x1C_1B_1F_FF), forground: Color(0xE6_E1_E5_FF) }),
        r.background == ThemeBackground(Color(0x00_00_00_FF)),
{
    MatThemeSetterProps {
        primary: ThemePrimary { background: Color(0xD0_BC_FF_FF), forground: Color(0x38_1E_72_FF) },
        secondary: ThemeSecondary {
            background: Color(0xCC_C2_DC_FF),
            forground: Color(0x33_2D_41_FF),
        },
        surface: ThemeSurface { background: Color(0x1C_1B_1F_FF), forground: Color(0xE6_E1_E5_FF) },
        background: ThemeBackground(Color(0x00_00_00_FF)),
    }
}

} // verus!
