//! Window colour palettes for every theme.
//!
//! Colours are unmultiplied RGBA; the shell hands them to the toolkit.
use vstd::prelude::*;

use crate::config::AppTheme;

verus! {

/// An unmultiplied RGBA colour.
#[derive(Clone, Copy, Debug, PartialEq, Eq, Structural)]
pub struct Rgba {
    pub r: u8,
    pub g: u8,
    pub b: u8,
    pub a: u8,
}

/// The light or dark preference the desktop reports.
#[derive(Clone, Copy, Debug, PartialEq, Eq, Structural)]
pub enum SystemTheme {
    Light,
    Dark,
}

/// The colours of every surface and accent of the window.
#[derive(Clone, Copy, Debug, PartialEq, Eq, Structural)]
pub struct Palette {
    pub surface0: Rgba,
    pub sidebar: Rgba,
    pub surface1: Rgba,
    pub surface2: Rgba,
    pub text: Rgba,
    pub muted: Rgba,
    pub separator: Rgba,
    pub separator_strong: Rgba,
    pub accent: Rgba,
    pub accent_hover: Rgba,
    pub accent_mute: Rgba,
    pub success: Rgba,
    pub warning: Rgba,
    pub error: Rgba,
    pub is_dark: bool,
}

pub open spec fn spec_rgb(r: u8, g: u8, b: u8) -> Rgba {
    Rgba { r, g, b, a: 255 }
}

pub open spec fn spec_rgba(r: u8, g: u8, b: u8, a: u8) -> Rgba {
    Rgba { r, g, b, a }
}

/// An opaque colour.
pub fn rgb(r: u8, g: u8, b: u8) -> (c: Rgba)
    ensures
        c == spec_rgb(r, g, b),
{
    Rgba { r, g, b, a: 255 }
}

/// A colour with the given opacity.
pub fn rgba(r: u8, g: u8, b: u8, a: u8) -> (c: Rgba)
    ensures
        c == spec_rgba(r, g, b, a),
{
    Rgba { r, g, b, a }
}

/// `color` with its opacity replaced.
pub fn with_alpha(color: Rgba, alpha: u8) -> (c: Rgba)
    ensures
        c == (Rgba { a: alpha, ..color }),
{
    Rgba { r: color.r, g: color.g, b: color.b, a: alpha }
}

/// The light palette.
pub open spec fn light_palette() -> Palette {
    Palette {
        surface0: spec_rgb(245, 245, 245),
        sidebar: spec_rgb(239, 242, 247),
        surface1: spec_rgb(255, 255, 255),
        surface2: spec_rgb(232, 236, 242),
        text: spec_rgb(26, 26, 26),
        muted: spec_rgba(26, 26, 26, 160),
        separator: spec_rgba(26, 26, 26, 24),
        separator_strong: spec_rgba(26, 26, 26, 46),
        accent: spec_rgb(45, 127, 249),
        accent_hover: spec_rgb(72, 145, 255),
        accent_mute: spec_rgba(45, 127, 249, 34),
        success: spec_rgb(31, 168, 98),
        warning: spec_rgb(224, 131, 25),
        error: spec_rgb(217, 59, 59),
        is_dark: false,
    }
}

/// The dark palette.
pub open spec fn dark_palette() -> Palette {
    Palette {
        surface0: spec_rgb(0, 0, 0),
        sidebar: spec_rgb(5, 6, 8),
        surface1: spec_rgb(10, 10, 11),
        surface2: spec_rgb(14, 20, 28),
        text: spec_rgb(245, 245, 245),
        muted: spec_rgba(245, 245, 245, 160),
        separator: spec_rgba(245, 245, 245, 24),
        separator_strong: spec_rgba(245, 245, 245, 46),
        accent: spec_rgb(45, 127, 249),
        accent_hover: spec_rgb(72, 145, 255),
        accent_mute: spec_rgba(45, 127, 249, 42),
        success: spec_rgb(31, 168, 98),
        warning: spec_rgb(224, 131, 25),
        error: spec_rgb(217, 59, 59),
        is_dark: true,
    }
}

/// A dark palette built from five colours: background, sidebar (also the
/// raised surface), control surface, text and accent; the muted text and
/// separators are the text colour at reduced opacity.
pub open spec fn stops_palette(surface0: Rgba, sidebar: Rgba, surface2: Rgba, text: Rgba, accent: Rgba) -> Palette {
    Palette {
        surface0,
        sidebar,
        surface1: sidebar,
        surface2,
        text,
        muted: Rgba { a: 166, ..text },
        separator: Rgba { a: 34, ..text },
        separator_strong: Rgba { a: 62, ..text },
        accent,
        accent_hover: accent,
        accent_mute: Rgba { a: 46, ..accent },
        success: spec_rgb(31, 168, 98),
        warning: spec_rgb(224, 131, 25),
        error: spec_rgb(217, 59, 59),
        is_dark: true,
    }
}

/// The palette of a theme; "Follow system" takes the desktop's preference,
/// dark when it is unknown.
pub open spec fn spec_palette(theme: AppTheme, system: Option<SystemTheme>) -> Palette {
    match theme {
        AppTheme::System => if system == Some(SystemTheme::Light) { light_palette() } else { dark_palette() },
        AppTheme::Light => light_palette(),
        AppTheme::Dark => dark_palette(),
        AppTheme::OledBlack => stops_palette(spec_rgb(0, 0, 0), spec_rgb(5, 5, 5), spec_rgb(17, 17, 17), spec_rgb(245, 245, 245), spec_rgb(45, 127, 249)),
        AppTheme::GentleGecko => stops_palette(spec_rgb(0, 0, 0), spec_rgb(0, 51, 34), spec_rgb(0, 89, 61), spec_rgb(255, 255, 255), spec_rgb(0, 184, 107)),
        AppTheme::BlackKnight => stops_palette(spec_rgb(0, 0, 0), spec_rgb(0, 51, 102), spec_rgb(0, 71, 143), spec_rgb(255, 255, 255), spec_rgb(0, 120, 212)),
        AppTheme::Diamond => stops_palette(spec_rgb(45, 91, 103), spec_rgb(79, 127, 140), spec_rgb(124, 162, 177), spec_rgb(185, 218, 233), spec_rgb(165, 197, 213)),
        AppTheme::Dreams => stops_palette(spec_rgb(33, 11, 75), spec_rgb(63, 28, 109), spec_rgb(106, 42, 152), spec_rgb(255, 61, 148), spec_rgb(181, 48, 126)),
        AppTheme::Paranoid => stops_palette(spec_rgb(29, 29, 78), spec_rgb(63, 63, 136), spec_rgb(95, 95, 191), spec_rgb(210, 210, 244), spec_rgb(154, 154, 224)),
        AppTheme::RedVelvet => stops_palette(spec_rgb(26, 15, 15), spec_rgb(60, 20, 20), spec_rgb(139, 35, 35), spec_rgb(255, 220, 220), spec_rgb(220, 60, 60)),
        AppTheme::Subspace => stops_palette(spec_rgb(46, 26, 71), spec_rgb(74, 42, 106), spec_rgb(121, 75, 139), spec_rgb(226, 199, 230), spec_rgb(183, 123, 180)),
        AppTheme::Tiefling => stops_palette(spec_rgb(58, 10, 77), spec_rgb(113, 29, 154), spec_rgb(164, 45, 180), spec_rgb(249, 197, 78), spec_rgb(255, 92, 138)),
        AppTheme::Vibes => stops_palette(spec_rgb(15, 15, 30), spec_rgb(30, 30, 60), spec_rgb(204, 0, 255), spec_rgb(0, 255, 204), spec_rgb(255, 204, 0)),
    }
}

impl Palette {
    /// The palette of a theme.
    pub fn for_theme(theme: AppTheme, system_theme: Option<SystemTheme>) -> (p: Palette)
        ensures
            p == spec_palette(theme, system_theme),
    {
        match theme {
            AppTheme::System => match system_theme {
                Some(SystemTheme::Light) => Palette::light(),
                _ => Palette::dark(),
            },
            AppTheme::Light => Palette::light(),
            AppTheme::Dark => Palette::dark(),
            AppTheme::OledBlack => Palette::from_stops(rgb(0, 0, 0), rgb(5, 5, 5), rgb(17, 17, 17), rgb(245, 245, 245), rgb(45, 127, 249)),
            AppTheme::GentleGecko => Palette::from_stops(rgb(0, 0, 0), rgb(0, 51, 34), rgb(0, 89, 61), rgb(255, 255, 255), rgb(0, 184, 107)),
            AppTheme::BlackKnight => Palette::from_stops(rgb(0, 0, 0), rgb(0, 51, 102), rgb(0, 71, 143), rgb(255, 255, 255), rgb(0, 120, 212)),
            AppTheme::Diamond => Palette::from_stops(rgb(45, 91, 103), rgb(79, 127, 140), rgb(124, 162, 177), rgb(185, 218, 233), rgb(165, 197, 213)),
            AppTheme::Dreams => Palette::from_stops(rgb(33, 11, 75), rgb(63, 28, 109), rgb(106, 42, 152), rgb(255, 61, 148), rgb(181, 48, 126)),
            AppTheme::Paranoid => Palette::from_stops(rgb(29, 29, 78), rgb(63, 63, 136), rgb(95, 95, 191), rgb(210, 210, 244), rgb(154, 154, 224)),
            AppTheme::RedVelvet => Palette::from_stops(rgb(26, 15, 15), rgb(60, 20, 20), rgb(139, 35, 35), rgb(255, 220, 220), rgb(220, 60, 60)),
            AppTheme::Subspace => Palette::from_stops(rgb(46, 26, 71), rgb(74, 42, 106), rgb(121, 75, 139), rgb(226, 199, 230), rgb(183, 123, 180)),
            AppTheme::Tiefling => Palette::from_stops(rgb(58, 10, 77), rgb(113, 29, 154), rgb(164, 45, 180), rgb(249, 197, 78), rgb(255, 92, 138)),
            AppTheme::Vibes => Palette::from_stops(rgb(15, 15, 30), rgb(30, 30, 60), rgb(204, 0, 255), rgb(0, 255, 204), rgb(255, 204, 0)),
        }
    }

    /// The light palette.
    pub fn light() -> (p: Palette)
        ensures
            p == light_palette(),
    {
        Palette {
            surface0: rgb(245, 245, 245),
            sidebar: rgb(239, 242, 247),
            surface1: rgb(255, 255, 255),
            surface2: rgb(232, 236, 242),
            text: rgb(26, 26, 26),
            muted: rgba(26, 26, 26, 160),
            separator: rgba(26, 26, 26, 24),
            separator_strong: rgba(26, 26, 26, 46),
            accent: rgb(45, 127, 249),
            accent_hover: rgb(72, 145, 255),
            accent_mute: rgba(45, 127, 249, 34),
            success: rgb(31, 168, 98),
            warning: rgb(224, 131, 25),
            error: rgb(217, 59, 59),
            is_dark: false,
        }
    }

    /// The dark palette.
    pub fn dark() -> (p: Palette)
        ensures
            p == dark_palette(),
    {
        Palette {
            surface0: rgb(0, 0, 0),
            sidebar: rgb(5, 6, 8),
            surface1: rgb(10, 10, 11),
            surface2: rgb(14, 20, 28),
            text: rgb(245, 245, 245),
            muted: rgba(245, 245, 245, 160),
            separator: rgba(245, 245, 245, 24),
            separator_strong: rgba(245, 245, 245, 46),
            accent: rgb(45, 127, 249),
            accent_hover: rgb(72, 145, 255),
            accent_mute: rgba(45, 127, 249, 42),
            success: rgb(31, 168, 98),
            warning: rgb(224, 131, 25),
            error: rgb(217, 59, 59),
            is_dark: true,
        }
    }

    /// A dark palette from five colours.
    pub fn from_stops(surface0: Rgba, sidebar: Rgba, surface2: Rgba, text: Rgba, accent: Rgba) -> (p: Palette)
        ensures
            p == stops_palette(surface0, sidebar, surface2, text, accent),
    {
        Palette {
            surface0,
            sidebar,
            surface1: sidebar,
            surface2,
            text,
            muted: with_alpha(text, 166),
            separator: with_alpha(text, 34),
            separator_strong: with_alpha(text, 62),
            accent,
            accent_hover: accent,
            accent_mute: with_alpha(accent, 46),
            success: rgb(31, 168, 98),
            warning: rgb(224, 131, 25),
            error: rgb(217, 59, 59),
            is_dark: true,
        }
    }
}

/// Only the light palette, and "Follow system" on a light desktop, are light;
/// every other theme is dark.
pub proof fn lemma_only_light_is_light(theme: AppTheme, system: Option<SystemTheme>)
    ensures
        !spec_palette(theme, system).is_dark <==> (theme == AppTheme::Light
            || (theme == AppTheme::System && system == Some(SystemTheme::Light))),
{
}

} // verus!
