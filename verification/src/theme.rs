//! The colour theme: named tokens that every component's default colours flow
//! from — the one place a re-skin happens.

use vstd::prelude::*;

use crate::color::{argb_word, palette, Color};

verus! {

/// Named colour tokens. Roles, not hues, so a re-theme is a data change.
#[derive(Debug, Clone, Copy, PartialEq, Eq, Structural)]
pub struct Theme {
    /// Backdrop behind the pixel world.
    pub background: Color,
    /// Primary "on" colour — big-text letter bodies.
    pub fill: Color,
    /// Outlines and borders around glyphs.
    pub outline: Color,
    /// Extruded 3D drop-shadow for big text.
    pub shadow: Color,
    /// Bars around the letterboxed screen.
    pub letterbox: Color,
    /// UI accent — the input panel's nested border.
    pub accent: Color,
    /// Error / rejection — the reject cross.
    pub danger: Color,
    /// Alert — the "GAME OVER" sign.
    pub warning: Color,
    /// Foreground text on UI panels — the input line.
    pub ink: Color,
    /// UI panel background — behind the input line.
    pub panel: Color,
}

/// The palette's tokens, as words.
pub open spec fn palette_theme(t: Theme) -> bool {
    &&& t.background.0 == argb_word(0xFF, 0x18, 0x18, 0x30)
    &&& t.fill.0 == argb_word(0xFF, 0x39, 0xD3, 0x53)
    &&& t.outline.0 == argb_word(0xFF, 0x00, 0x00, 0x00)
    &&& t.shadow.0 == argb_word(0xFF, 0xF2, 0xC4, 0x0C)
    &&& t.letterbox.0 == argb_word(0xFF, 0x00, 0x00, 0x00)
    &&& t.accent.0 == argb_word(0xFF, 0x87, 0xCE, 0xFA)
    &&& t.danger.0 == argb_word(0xFF, 0xE0, 0x2C, 0x2C)
    &&& t.warning.0 == argb_word(0xFF, 0xFF, 0xE8, 0x5C)
    &&& t.ink.0 == argb_word(0xFF, 0xF0, 0xF0, 0xF0)
    &&& t.panel.0 == argb_word(0xFF, 0x0A, 0x0A, 0x14)
}

impl Default for Theme {
    fn default() -> (t: Self)
        ensures
            palette_theme(t),
    {
        Theme {
            background: palette::bg(),
            fill: palette::fill(),
            outline: palette::outline(),
            shadow: palette::shadow(),
            letterbox: palette::letterbox(),
            accent: palette::accent(),
            danger: palette::danger(),
            warning: palette::warning(),
            ink: palette::ink(),
            panel: palette::panel(),
        }
    }
}

} // verus!
