//! Theme palettes and their hexadecimal rendering.

use dem_core::theme::{
    dark_theme, Color, ThemeBackground, ThemePrimary, ThemeSecondary, ThemeSurface,
};

#[test]
fn colors_render_as_eight_hex_digits() {
    assert_eq!(Color(0xFF00AB12).to_upper_hex(), "FF00AB12");
    assert_eq!(Color(0).to_upper_hex(), "00000000");
    assert_eq!(Color(0xDEADBEEF).to_upper_hex(), "DEADBEEF");
    assert_eq!(ThemeBackground(Color(0x00_00_00_FF)).to_upper_hex(), "000000FF");
}

#[test]
fn light_theme_defaults() {
    assert_eq!(ThemePrimary::default().background, Color(0x62_00_EE_FF));
    assert_eq!(ThemePrimary::default().forground, Color(0xFF_FF_FF_FF));
    assert_eq!(ThemeSecondary::default().background, Color(0x01_87_86_FF));
    assert_eq!(ThemeSurface::default().forground, Color(0x00_00_00_00));
    assert_eq!(ThemeBackground::default().0, Color(0xFF_FF_FF_FF));
}

#[test]
fn dark_theme_palette() {
    let theme = dark_theme();
    assert_eq!(theme.primary.background, Color(0xD0_BC_FF_FF));
    assert_eq!(theme.secondary.forground, Color(0x33_2D_41_FF));
    assert_eq!(theme.surface.background, Color(0x1C_1B_1F_FF));
    assert_eq!(theme.background.0, Color(0x00_00_00_FF));
}
