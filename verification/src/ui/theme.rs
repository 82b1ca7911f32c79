//! Color palettes: Solarized Light, the active theme, and Geist Dark.

use crate::picture::Rgba;
use vstd::prelude::*;

verus! {

/// Corner radius of controls.
pub const RADIUS_SM: u8 = 6;

/// Corner radius of fullscreen surfaces.
pub const RADIUS_LG: u8 = 16;

/// An opaque color.
pub open spec fn opaque(r: u8, g: u8, b: u8) -> Rgba {
    Rgba { r, g, b, a: 255 }
}

/// An opaque color.
pub fn from_rgb(r: u8, g: u8, b: u8) -> (c: Rgba)
    ensures
        c == opaque(r, g, b),
{
    Rgba { r, g, b, a: 255 }
}

/// A complete color palette. Colors are not premultiplied.
#[derive(Clone, Copy, Debug, PartialEq, Eq, Structural)]
pub struct Palette {
    /// Panel and window fill.
    pub bg: Rgba,
    /// Card, input and secondary surface.
    pub surface: Rgba,
    /// Primary body text.
    pub text_primary: Rgba,
    /// Secondary text.
    pub text_secondary: Rgba,
    /// Disabled text.
    pub text_disabled: Rgba,
    /// Default border.
    pub border: Rgba,
    /// Emphasized border.
    pub border_strong: Rgba,
    /// Selection, active and link accent.
    pub accent_blue: Rgba,
    /// Bright accent.
    pub accent_blue_bright: Rgba,
    /// Error text.
    pub error: Rgba,
    /// Success text.
    pub success: Rgba,
    /// Warning text.
    pub warn: Rgba,
    /// The theme is a dark one.
    pub dark_mode: bool,
}

impl Palette {
    /// Solarized Light, the active theme.
    pub fn light() -> (r: Palette)
        ensures
            r.bg == opaque(0xfd, 0xf6, 0xe3),
            r.surface == opaque(0xee, 0xe8, 0xd5),
            r.text_primary == opaque(0x65, 0x7b, 0x83),
            r.text_secondary == opaque(0x83, 0x94, 0x96),
            r.text_disabled == opaque(0x93, 0xa1, 0xa1),
            r.border == (Rgba { r: 0, g: 0, b: 0, a: 0x1f }),
            r.border_strong == (Rgba { r: 0, g: 0, b: 0, a: 0x55 }),
            r.accent_blue == opaque(0x26, 0x8b, 0xd2),
            r.accent_blue_bright == opaque(0x26, 0x8b, 0xd2),
            r.error == opaque(0xdc, 0x32, 0x2f),
            r.success == opaque(0x85, 0x99, 0x00),
            r.warn == opaque(0xb5, 0x89, 0x00),
            !r.dark_mode,
    {
        Palette {
            bg: from_rgb(0xfd, 0xf6, 0xe3),
            surface: from_rgb(0xee, 0xe8, 0xd5),
            text_primary: from_rgb(0x65, 0x7b, 0x83),
            text_secondary: from_rgb(0x83, 0x94, 0x96),
            text_disabled: from_rgb(0x93, 0xa1, 0xa1),
            border: Rgba { r: 0, g: 0, b: 0, a: 0x1f },
            border_strong: Rgba { r: 0, g: 0, b: 0, a: 0x55 },
            accent_blue: from_rgb(0x26, 0x8b, 0xd2),
            accent_blue_bright: from_rgb(0x26, 0x8b, 0xd2),
            error: from_rgb(0xdc, 0x32, 0x2f),
            success: from_rgb(0x85, 0x99, 0x00),
            warn: from_rgb(0xb5, 0x89, 0x00),
            dark_mode: false,
        }
    }

    /// Geist Dark.
    pub fn dark() -> (r: Palette)
        ensures
            r.bg == opaque(0x0e, 0x0e, 0x10),
            r.surface == opaque(0x16, 0x16, 0x19),
            r.text_primary == opaque(0xed, 0xed, 0xed),
            r.text_secondary == opaque(0xa0, 0xa0, 0xa0),
            r.text_disabled == opaque(0x8f, 0x8f, 0x8f),
            r.border == (Rgba { r: 255, g: 255, b: 255, a: 0x24 }),
            r.border_strong == (Rgba { r: 255, g: 255, b: 255, a: 0x82 }),
            r.accent_blue == opaque(0x00, 0x6e, 0xfe),
            r.accent_blue_bright == opaque(0x47, 0xa8, 0xff),
            r.error == opaque(0xf3, 0x2e, 0x40),
            r.success == opaque(0x4c, 0xe1, 0x5e),
            r.warn == opaque(0xff, 0xae, 0x00),
            r.dark_mode,
    {
        Palette {
            bg: from_rgb(0x0e, 0x0e, 0x10),
            surface: from_rgb(0x16, 0x16, 0x19),
            text_primary: from_rgb(0xed, 0xed, 0xed),
            text_secondary: from_rgb(0xa0, 0xa0, 0xa0),
            text_disabled: from_rgb(0x8f, 0x8f, 0x8f),
            border: Rgba { r: 255, g: 255, b: 255, a: 0x24 },
            border_strong: Rgba { r: 255, g: 255, b: 255, a: 0x82 },
            accent_blue: from_rgb(0x00, 0x6e, 0xfe),
            accent_blue_bright: from_rgb(0x47, 0xa8, 0xff),
            error: from_rgb(0xf3, 0x2e, 0x40),
            success: from_rgb(0x4c, 0xe1, 0x5e),
            warn: from_rgb(0xff, 0xae, 0x00),
            dark_mode: true,
        }
    }
}

} // verus!
