//! Font and glyph-source configuration: which font the input overlay uses,
//! and which glyph source a banner's letters rasterise through.

use vstd::prelude::*;

use crate::chars::str_eq;

verus! {

/// Where the input font comes from: a system family (narrowed by weight, style
/// and stretch), a font file at a path, or the crate-bundled face.
#[derive(Debug, Clone, PartialEq, Eq)]
pub enum FontSource {
    System { family: FontFamily, weight: FontWeight, style: FontStyle, stretch: FontStretch },
    File { path: String },
    Embedded { weight: FontWeight },
}

impl Default for FontSource {
    fn default() -> (s: Self)
        ensures
            s == (FontSource::System {
                family: FontFamily::Default,
                weight: FontWeight(400),
                style: FontStyle::Normal,
                stretch: FontStretch::Normal,
            }),
    {
        FontSource::System {
            family: FontFamily::Default,
            weight: FontWeight(400),
            style: FontStyle::Normal,
            stretch: FontStretch::Normal,
        }
    }
}

/// Which OS font family a [`FontSource::System`] resolves: the platform's
/// generic monospace, or a named family.
#[derive(Debug, Clone, PartialEq, Eq)]
pub enum FontFamily {
    Default,
    Named(String),
}

impl Default for FontFamily {
    fn default() -> (f: Self)
        ensures
            f == FontFamily::Default,
    {
        FontFamily::Default
    }
}

/// A font weight on the OS/2 `usWeightClass` scale (1–1000).
#[derive(Debug, Clone, Copy, PartialEq, Eq, Structural)]
pub struct FontWeight(pub u16);

impl Default for FontWeight {
    fn default() -> (w: Self)
        ensures
            w == FontWeight(400),
    {
        FontWeight(400)
    }
}

/// The standard weight steps, by name.
pub open spec fn weight_named(name: Seq<char>) -> Option<u16> {
    if name == "thin"@ {
        Some(100u16)
    } else if name == "extra_light"@ {
        Some(200u16)
    } else if name == "light"@ {
        Some(300u16)
    } else if name == "normal"@ {
        Some(400u16)
    } else if name == "medium"@ {
        Some(500u16)
    } else if name == "semi_bold"@ {
        Some(600u16)
    } else if name == "bold"@ {
        Some(700u16)
    } else if name == "extra_bold"@ {
        Some(800u16)
    } else if name == "black"@ {
        Some(900u16)
    } else {
        None
    }
}

/// The name of a standard weight step.
pub open spec fn weight_name(w: u16) -> Option<Seq<char>> {
    if w == 100 {
        Some("thin"@)
    } else if w == 200 {
        Some("extra_light"@)
    } else if w == 300 {
        Some("light"@)
    } else if w == 400 {
        Some("normal"@)
    } else if w == 500 {
        Some("medium"@)
    } else if w == 600 {
        Some("semi_bold"@)
    } else if w == 700 {
        Some("bold"@)
    } else if w == 800 {
        Some("extra_bold"@)
    } else if w == 900 {
        Some("black"@)
    } else {
        None
    }
}

/// A standard weight's name reads back as that weight.
pub proof fn law_weight_name_round_trips(w: u16)
    requires
        weight_name(w) is Some,
    ensures
        weight_named(weight_name(w)->0) == Some(w),
{
    reveal_strlit("thin");
    reveal_strlit("extra_light");
    reveal_strlit("light");
    reveal_strlit("normal");
    reveal_strlit("medium");
    reveal_strlit("semi_bold");
    reveal_strlit("bold");
    reveal_strlit("extra_bold");
    reveal_strlit("black");
    assert("thin"@.len() == 4 && "thin"@[0] == 't');
    assert("extra_light"@.len() == 11 && "extra_light"@[0] == 'e');
    assert("light"@.len() == 5 && "light"@[0] == 'l');
    assert("normal"@.len() == 6 && "normal"@[0] == 'n');
    assert("medium"@.len() == 6 && "medium"@[0] == 'm');
    assert("semi_bold"@.len() == 9 && "semi_bold"@[0] == 's');
    assert("bold"@.len() == 4 && "bold"@[0] == 'b');
    assert("extra_bold"@.len() == 10 && "extra_bold"@[0] == 'e');
    assert("black"@.len() == 5 && "black"@[0] == 'b');
}

impl FontWeight {
    /// The canonical name of a standard weight step, if `self` is one.
    pub fn name(self) -> (n: Option<&'static str>)
        ensures
            match n {
                Some(s) => weight_name(self.0) == Some(s@),
                None => weight_name(self.0) is None,
            },
    {
        let w = self.0;
        if w == 100 {
            Some("thin")
        } else if w == 200 {
            Some("extra_light")
        } else if w == 300 {
            Some("light")
        } else if w == 400 {
            Some("normal")
        } else if w == 500 {
            Some("medium")
        } else if w == 600 {
            Some("semi_bold")
        } else if w == 700 {
            Some("bold")
        } else if w == 800 {
            Some("extra_bold")
        } else if w == 900 {
            Some("black")
        } else {
            None
        }
    }

    /// The weight for a standard step name.
    pub fn from_name(name: &str) -> (w: Option<FontWeight>)
        ensures
            match w {
                Some(fw) => weight_named(name@) == Some(fw.0),
                None => weight_named(name@) is None,
            },
    {
        if str_eq(name, "thin") {
            Some(FontWeight(100))
        } else if str_eq(name, "extra_light") {
            Some(FontWeight(200))
        } else if str_eq(name, "light") {
            Some(FontWeight(300))
        } else if str_eq(name, "normal") {
            Some(FontWeight(400))
        } else if str_eq(name, "medium") {
            Some(FontWeight(500))
        } else if str_eq(name, "semi_bold") {
            Some(FontWeight(600))
        } else if str_eq(name, "bold") {
            Some(FontWeight(700))
        } else if str_eq(name, "extra_bold") {
            Some(FontWeight(800))
        } else if str_eq(name, "black") {
            Some(FontWeight(900))
        } else {
            None
        }
    }

    /// A raw weight number, accepted only within `1..=1000`.
    pub fn from_number(value: u64) -> (w: Option<FontWeight>)
        ensures
            match w {
                Some(fw) => 1 <= value <= 1000 && fw.0 == value,
                None => !(1 <= value <= 1000),
            },
    {
        if 1 <= value && value <= 1000 {
            Some(FontWeight(value as u16))
        } else {
            None
        }
    }
}

/// A font slant, matching a real installed face.
#[derive(Debug, Clone, Copy, PartialEq, Eq, Structural)]
pub enum FontStyle {
    Normal,
    Italic,
    Oblique,
}

impl Default for FontStyle {
    fn default() -> (s: Self)
        ensures
            s == FontStyle::Normal,
    {
        FontStyle::Normal
    }
}

/// A font width (condensed…expanded), matching a real installed face.
#[derive(Debug, Clone, Copy, PartialEq, Eq, Structural)]
pub enum FontStretch {
    UltraCondensed,
    ExtraCondensed,
    Condensed,
    SemiCondensed,
    Normal,
    SemiExpanded,
    Expanded,
    ExtraExpanded,
    UltraExpanded,
}

impl Default for FontStretch {
    fn default() -> (s: Self)
        ensures
            s == FontStretch::Normal,
    {
        FontStretch::Normal
    }
}

/// Which glyph source a banner's letters rasterise through: the chunky
/// `font8x8` bitmap (the default) or a TTF rasterised at `cell_px` and
/// thresholded at `threshold`.
#[derive(Debug, Clone, PartialEq, Eq)]
pub enum GlyphSourceConfig {
    Bitmap8x8,
    Raster { cell_px: u32, threshold: u8, font: FontSource },
}

impl Default for GlyphSourceConfig {
    fn default() -> (g: Self)
        ensures
            g is Bitmap8x8,
    {
        GlyphSourceConfig::Bitmap8x8
    }
}

/// The coverage threshold a raster source uses when a config omits it.
pub fn raster_default_threshold() -> (t: u8)
    ensures
        t == 128,
{
    128
}

} // verus!
