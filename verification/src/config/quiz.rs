//! Quiz configuration: the question, the three banners, and flash timing.

use vstd::prelude::*;

use super::layout::{bake_banner, made_from, styled};
use super::{validate_glyph_source, ConfigError, GlyphSourceConfig};
use crate::color::{argb_word, palette};
use crate::glyph::{GlyphMask, GlyphSource};
use crate::sprite::Sprite;
use crate::text::{BigText, TextColors};

verus! {

/// The math-quiz example's tunables: the question, the accepted answer, and the
/// banners it shows.
#[derive(Debug, Clone, PartialEq, Eq)]
pub struct QuizConfig {
    /// Prompt shown inside the input field, ahead of the caret.
    pub question: String,
    /// The answer that wins; compared numerically when both sides parse.
    pub expected: String,
    /// Frames the game-over sign lingers before returning to the question.
    pub game_over_frames: u32,
    /// Text of the winning marquee.
    pub win_text: String,
    /// The red "X" flashed on a wrong answer.
    pub cross: BannerConfig,
    /// How the cross blinks.
    pub flash: FlashConfig,
    /// The "GAME OVER" sign shown after the flashes, before the retry.
    pub game_over: BannerConfig,
}

impl Default for QuizConfig {
    fn default() -> (c: Self)
        ensures
            c.question@ == "What is 6+6? "@,
            c.expected@ == "12"@,
            c.game_over_frames == 90,
            c.win_text@ == "YOU WIN"@,
            c.cross.text@ == "X"@,
            c.cross.scale == 14,
            c.cross.tracking == 0,
            c.cross.shadow_depth == 0,
            c.cross.outline_px == 1,
            c.cross.gap == 0,
            c.cross.glyph_source is Bitmap8x8,
            c.cross.colors.fill.0 == argb_word(0xFF, 0xE0, 0x2C, 0x2C),
            c.cross.colors.outline.0 == argb_word(0xFF, 0x00, 0x00, 0x00),
            c.cross.colors.shadow.0 == argb_word(0xFF, 0x00, 0x00, 0x00),
            c.flash == (FlashConfig { count: 3, on_frames: 10, off_frames: 8 }),
            c.game_over.text@ == "GAMEOVER"@,
            c.game_over.scale == 3,
            c.game_over.tracking == 1,
            c.game_over.shadow_depth == 3,
            c.game_over.outline_px == 1,
            c.game_over.gap == 0,
            c.game_over.glyph_source is Bitmap8x8,
            c.game_over.colors.fill.0 == argb_word(0xFF, 0xFF, 0xE8, 0x5C),
            c.game_over.colors.outline.0 == argb_word(0xFF, 0x00, 0x00, 0x00),
            c.game_over.colors.shadow.0 == argb_word(0xFF, 0xF2, 0xC4, 0x0C),
    {
        QuizConfig {
            question: "What is 6+6? ".to_owned(),
            expected: "12".to_owned(),
            game_over_frames: 90,
            win_text: "YOU WIN".to_owned(),
            cross: BannerConfig {
                text: "X".to_owned(),
                scale: 14,
                tracking: 0,
                shadow_depth: 0,
                outline_px: 1,
                gap: 0,
                colors: TextColors {
                    fill: palette::danger(),
                    outline: palette::outline(),
                    shadow: palette::outline(),
                },
                glyph_source: GlyphSourceConfig::Bitmap8x8,
            },
            flash: FlashConfig::default(),
            game_over: BannerConfig {
                text: "GAMEOVER".to_owned(),
                scale: 3,
                tracking: 1,
                shadow_depth: 3,
                outline_px: 1,
                gap: 0,
                colors: TextColors {
                    fill: palette::warning(),
                    outline: palette::outline(),
                    shadow: palette::shadow(),
                },
                glyph_source: GlyphSourceConfig::Bitmap8x8,
            },
        }
    }
}

/// A styled block of oversized pixel-art text, baked to a [`Sprite`] on demand.
#[derive(Debug, Clone, PartialEq, Eq)]
pub struct BannerConfig {
    pub text: String,
    pub scale: u32,
    pub tracking: u32,
    pub shadow_depth: u32,
    /// Outline thickness around the letters, in source pixels (`0` = none).
    pub outline_px: u32,
    pub gap: u32,
    pub colors: TextColors,
    /// Which glyph source the letters rasterise through.
    pub glyph_source: GlyphSourceConfig,
}

impl Default for BannerConfig {
    /// A neutral, empty banner — a fallback for partial config.
    fn default() -> (c: Self)
        ensures
            c.text@ == Seq::<char>::empty(),
            c.scale == 1,
            c.tracking == 1,
            c.shadow_depth == 0,
            c.outline_px == 1,
            c.gap == 0,
            crate::text::default_colors(c.colors),
            c.glyph_source is Bitmap8x8,
    {
        BannerConfig {
            text: String::new(),
            scale: 1,
            tracking: 1,
            shadow_depth: 0,
            outline_px: 1,
            gap: 0,
            colors: TextColors::default(),
            glyph_source: GlyphSourceConfig::Bitmap8x8,
        }
    }
}

impl BannerConfig {
    /// Bake the configured text into a sprite through `source` (the glyph
    /// source this config selects).
    pub fn sprite<S: GlyphSource + ?Sized>(&self, source: &S) -> (r: Result<Sprite, ConfigError>)
        ensures
            !super::glyph_source_ok(self.glyph_source) ==> r matches Err(ConfigError::Invalid(_)),
            super::glyph_source_ok(self.glyph_source) ==> exists|b: BigText|
                #![trigger styled(b, self.scale, self.tracking, self.shadow_depth, self.outline_px, self.gap, self.colors)]
                styled(
                    b,
                    self.scale,
                    self.tracking,
                    self.shadow_depth,
                    self.outline_px,
                    self.gap,
                    self.colors,
                ) && made_from(source, b, self.text@, r),
    {
        match validate_glyph_source(&self.glyph_source, "banner") {
            Err(e) => Err(e),
            Ok(()) => {
                let big = BigText::new(self.scale).tracking(self.tracking).shadow_depth(
                    self.shadow_depth,
                ).outline(self.outline_px).gap(self.gap).colors(self.colors);
                let r = bake_banner(&big, source, self.text.as_str());
                proof {
                    assert(styled(
                        big,
                        self.scale,
                        self.tracking,
                        self.shadow_depth,
                        self.outline_px,
                        self.gap,
                        self.colors,
                    ));
                }
                r
            },
        }
    }
}

/// Blink timing for the reject cross: `count` on/off cycles, each showing the
/// cross for `on_frames` then hiding it for `off_frames`.
#[derive(Debug, Clone, Copy, PartialEq, Eq, Structural)]
pub struct FlashConfig {
    pub count: u32,
    pub on_frames: u32,
    pub off_frames: u32,
}

impl Default for FlashConfig {
    fn default() -> (f: Self)
        ensures
            f == (FlashConfig { count: 3, on_frames: 10, off_frames: 8 }),
    {
        FlashConfig { count: 3, on_frames: 10, off_frames: 8 }
    }
}

impl FlashConfig {
    /// Frames one full flash sequence spans.
    pub open spec fn spec_total(self) -> int {
        self.count * (self.on_frames + self.off_frames)
    }

    /// Whether the cross shows on `frame` of the sequence: in the first
    /// `on_frames` of each cycle (never when a cycle is zero frames long).
    pub open spec fn spec_visible(self, frame: u32) -> bool {
        let cycle = self.on_frames + self.off_frames;
        cycle != 0 && (frame as int) % cycle < self.on_frames
    }

    /// Total frames one full flash sequence spans.
    pub fn total_frames(self) -> (t: u32)
        requires
            self.on_frames + self.off_frames <= u32::MAX,
            self.spec_total() <= u32::MAX,
        ensures
            t == self.spec_total(),
    {
        let cycle = self.on_frames + self.off_frames;
        proof {
            assert(self.count * cycle == self.spec_total());
        }
        self.count * cycle
    }

    /// Whether the cross is visible on frame `frame` of the sequence.
    pub fn visible_at(self, frame: u32) -> (b: bool)
        requires
            self.on_frames + self.off_frames <= u32::MAX,
        ensures
            b == self.spec_visible(frame),
    {
        let cycle = self.on_frames + self.off_frames;
        if cycle == 0 {
            return false;
        }
        frame % cycle < self.on_frames
    }
}

/// The flash is periodic: a frame and the same frame one cycle later show the
/// same.
pub proof fn law_flash_repeats_each_cycle(f: FlashConfig, frame: u32)
    requires
        frame + f.on_frames + f.off_frames <= u32::MAX,
    ensures
        f.spec_visible(frame) == f.spec_visible((frame + f.on_frames + f.off_frames) as u32),
{
    let cycle = (f.on_frames + f.off_frames) as int;
    if cycle != 0 {
        vstd::arithmetic::div_mod::lemma_mod_add_multiples_vanish(frame as int, cycle);
    }
}

} // verus!
