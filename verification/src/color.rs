//! Packed 32-bit colour.
//!
//! Stored as `0xAARRGGBB`. Pixel-art sprites use 1-bit alpha (a cell is either
//! [`Color::transparent`] or fully opaque); the overlay text pipeline uses the full
//! alpha byte for anti-aliased coverage. Presenting to the framebuffer drops
//! alpha via [`Color::packed`] because the framebuffer expects `0x00RRGGBB`.

use vstd::prelude::*;

pub mod hex;
pub mod palette;

verus! {

/// An `0xAARRGGBB` colour.
#[derive(Debug, Clone, Copy, PartialEq, Eq, Hash, Structural)]
pub struct Color(pub u32);


/// The ARGB word of four channels, as arithmetic.
pub open spec fn argb_word(a: u8, r: u8, g: u8, b: u8) -> int {
    a * 0x100_0000 + r * 0x1_0000 + g * 0x100 + b
}

impl Color {
    /// The raw `0xAARRGGBB` word.
    pub open spec fn word(self) -> u32 {
        self.0
    }

    /// The alpha byte: the top eight bits.
    pub open spec fn spec_alpha(self) -> int {
        (self.0 / 0x100_0000) as int
    }

    /// The colour without its alpha byte: the low 24 bits.
    pub open spec fn spec_packed(self) -> u32 {
        (self.0 % 0x100_0000) as u32
    }

    /// Whether a pixel in this colour is drawn at all.
    pub open spec fn visible(self) -> bool {
        self.spec_alpha() != 0
    }

    /// The fully transparent colour.
    pub fn transparent() -> (c: Self)
        ensures
            c.0 == 0,
    {
        Color(0)
    }

    /// An opaque colour from 8-bit channels.
    pub fn rgb(r: u8, g: u8, b: u8) -> (c: Self)
        ensures
            c.0 == argb_word(0xFF, r, g, b),
    {
        Self::argb(0xFF, r, g, b)
    }

    /// A colour with an explicit alpha (used by the anti-aliased text overlay).
    pub fn argb(a: u8, r: u8, g: u8, b: u8) -> (c: Self)
        ensures
            c.0 == argb_word(a, r, g, b),
    {
        let w = ((a as u32) << 24u32) | ((r as u32) << 16u32) | ((g as u32) << 8u32) | (b as u32);
        assert(((a as u32) << 24u32) | ((r as u32) << 16u32) | ((g as u32) << 8u32) | (b as u32)
            == a as u32 * 0x100_0000u32 + r as u32 * 0x1_0000u32 + g as u32 * 0x100u32 + b as u32)
            by (bit_vector);
        Color(w)
    }

    /// The alpha byte.
    pub fn alpha(self) -> (a: u8)
        ensures
            a == self.spec_alpha(),
    {
        let w = self.0;
        assert(w >> 24u32 == w / 0x100_0000u32) by (bit_vector);
        (w >> 24u32) as u8
    }

    /// Whether the pixel should be drawn at all (any non-zero alpha).
    pub fn is_visible(self) -> (b: bool)
        ensures
            b == self.visible(),
    {
        self.alpha() != 0
    }

    /// The `0x00RRGGBB` word the framebuffer expects (alpha discarded).
    pub fn packed(self) -> (p: u32)
        ensures
            p == self.spec_packed(),
    {
        let w = self.0;
        assert(w & 0x00FF_FFFFu32 == w % 0x100_0000u32) by (bit_vector);
        w & 0x00FF_FFFF
    }
}

} // verus!

