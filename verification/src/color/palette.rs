//! The single source of truth for the retro palette. Named by role, not by
//! hue, so a re-theme touches one place.

use super::{argb_word, Color};
use vstd::prelude::*;

verus! {

/// Backdrop of the virtual screen behind everything.
pub fn bg() -> (c: Color)
    ensures
        c.0 == argb_word(0xFF, 0x18, 0x18, 0x30),
{
    Color::rgb(0x18, 0x18, 0x30)
}

/// Big-text letter body.
pub fn fill() -> (c: Color)
    ensures
        c.0 == argb_word(0xFF, 0x39, 0xD3, 0x53),
{
    Color::rgb(0x39, 0xD3, 0x53)
}

/// Big-text outline / border.
pub fn outline() -> (c: Color)
    ensures
        c.0 == argb_word(0xFF, 0x00, 0x00, 0x00),
{
    Color::rgb(0x00, 0x00, 0x00)
}

/// Big-text extruded 3D shadow.
pub fn shadow() -> (c: Color)
    ensures
        c.0 == argb_word(0xFF, 0xF2, 0xC4, 0x0C),
{
    Color::rgb(0xF2, 0xC4, 0x0C)
}

/// Bars around the letterboxed screen in the window.
pub fn letterbox() -> (c: Color)
    ensures
        c.0 == argb_word(0xFF, 0x00, 0x00, 0x00),
{
    Color::rgb(0x00, 0x00, 0x00)
}

/// UI accent — the input panel's nested border (light blue).
pub fn accent() -> (c: Color)
    ensures
        c.0 == argb_word(0xFF, 0x87, 0xCE, 0xFA),
{
    Color::rgb(0x87, 0xCE, 0xFA)
}

/// Error / rejection — the reject cross (red).
pub fn danger() -> (c: Color)
    ensures
        c.0 == argb_word(0xFF, 0xE0, 0x2C, 0x2C),
{
    Color::rgb(0xE0, 0x2C, 0x2C)
}

/// Alert — the "GAME OVER" sign (yellow).
pub fn warning() -> (c: Color)
    ensures
        c.0 == argb_word(0xFF, 0xFF, 0xE8, 0x5C),
{
    Color::rgb(0xFF, 0xE8, 0x5C)
}

/// Foreground text on UI panels — the input line (near-white).
pub fn ink() -> (c: Color)
    ensures
        c.0 == argb_word(0xFF, 0xF0, 0xF0, 0xF0),
{
    Color::rgb(0xF0, 0xF0, 0xF0)
}

/// UI panel background — behind the input line (near-black).
pub fn panel() -> (c: Color)
    ensures
        c.0 == argb_word(0xFF, 0x0A, 0x0A, 0x14),
{
    Color::rgb(0x0A, 0x0A, 0x14)
}

} // verus!
