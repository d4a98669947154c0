//! Window, screen, marquee, and input-panel configuration.

use vstd::prelude::*;

use super::{footprint_verdict, measured, refusal, validate_glyph_source, ConfigError, GlyphSourceConfig};
use crate::color::{argb_word, palette, Color};
use crate::geometry::{Point, Rect, Size};
use crate::glyph::{GlyphMask, GlyphSource};
use crate::sprite::Sprite;
use crate::text::{default_colors, glyphs_of, BigText, TextColors};

verus! {

/// Physical window.
#[derive(Debug, Clone, PartialEq, Eq)]
pub struct WindowConfig {
    pub title: String,
    pub width: u32,
    pub height: u32,
    pub target_fps: usize,
    pub resizable: bool,
}

impl Default for WindowConfig {
    fn default() -> (c: Self)
        ensures
            c.title@ == "ratgames"@,
            c.width == 768,
            c.height == 768,
            c.target_fps == 60,
            c.resizable,
    {
        WindowConfig {
            title: "ratgames".to_owned(),
            width: 768,
            height: 768,
            target_fps: 60,
            resizable: true,
        }
    }
}

/// The low-resolution virtual screen the pixel world composes into.
#[derive(Debug, Clone, Copy, PartialEq, Eq, Structural)]
pub struct ScreenConfig {
    pub backdrop: Color,
    pub letterbox: Color,
    /// Crisp-clip floor for the integer upscale.
    pub min_scale: u32,
    pub size: Size,
}

impl Default for ScreenConfig {
    fn default() -> (c: Self)
        ensures
            c.backdrop.0 == argb_word(0xFF, 0x18, 0x18, 0x30),
            c.letterbox.0 == argb_word(0xFF, 0x00, 0x00, 0x00),
            c.min_scale == 1,
            c.size == (Size { w: 256, h: 256 }),
    {
        ScreenConfig {
            backdrop: palette::bg(),
            letterbox: palette::letterbox(),
            min_scale: 1,
            size: Size::new(256, 256),
        }
    }
}

/// `b` is the big-text builder for these knobs (a zero scale read as one).
pub open spec fn styled(
    b: BigText,
    scale: u32,
    tracking: u32,
    depth: u32,
    outline: u32,
    gap: u32,
    colors: TextColors,
) -> bool {
    b.knobs() == (if scale == 0 { 1u32 } else { scale }, tracking, depth, outline, gap, colors)
}

/// The scrolling big-text banner.
#[derive(Debug, Clone, PartialEq, Eq)]
pub struct MarqueeConfig {
    pub text_scale: u32,
    pub tracking: u32,
    pub shadow_depth: u32,
    /// Outline thickness around the letters, in source pixels (`0` = none).
    pub outline_px: u32,
    pub gap: u32,
    pub speed: u32,
    pub colors: TextColors,
    /// Which glyph source the letters rasterise through.
    pub glyph_source: GlyphSourceConfig,
}

impl Default for MarqueeConfig {
    fn default() -> (c: Self)
        ensures
            c.text_scale == 6,
            c.tracking == 1,
            c.shadow_depth == 3,
            c.outline_px == 1,
            c.gap == 14,
            c.speed == 2,
            default_colors(c.colors),
            c.glyph_source is Bitmap8x8,
    {
        MarqueeConfig {
            text_scale: 6,
            tracking: 1,
            shadow_depth: 3,
            outline_px: 1,
            gap: 14,
            speed: 2,
            colors: TextColors::default(),
            glyph_source: GlyphSourceConfig::Bitmap8x8,
        }
    }
}

/// What baking a banner of `masks` on a `cell_h` grid with `b` gives: the
/// footprint's refusal when it passes a limit, else the bake when the glyphs
/// fit the grid, else a refusal of glyphs inking outside it.
pub open spec fn banner_outcome(
    b: BigText,
    cell_h: int,
    masks: Seq<GlyphMask>,
    r: Result<Sprite, ConfigError>,
) -> bool {
    match refusal(measured(b, cell_h, masks)) {
        Some((k, a, l)) => r matches Err(ConfigError::SpriteTooLarge { kind, area, limit }) && kind@
            == k && area == a && limit == l,
        None => if b.fits(cell_h, masks) {
            r matches Ok(s) && b.baked(s, cell_h, masks)
        } else {
            r matches Err(ConfigError::Invalid(_))
        },
    }
}

/// `r` is what baking `text` with `b` through `source`'s glyphs gives — its
/// cell height and its mask for each character (by view).
pub open spec fn made_from<S: GlyphSource + ?Sized>(
    source: &S,
    b: BigText,
    text: Seq<char>,
    r: Result<Sprite, ConfigError>,
) -> bool {
    exists|cell_h: u32, masks: Seq<GlyphMask>|
        #![trigger banner_outcome(b, cell_h as int, masks, r)]
        {
            &&& cell_h == source.spec_cell_height()
            &&& masks.len() == text.len()
            &&& forall|k: int| 0 <= k < masks.len() ==> (#[trigger] masks[k]).wf()
            &&& forall|k: int|
                0 <= k < masks.len() ==> (#[trigger] masks[k])@ =~= source.spec_glyph(text[k])
            &&& banner_outcome(b, cell_h as int, masks, r)
        }
}

/// Bake `text` through `source` with `big`: refuse a banner over the size
/// limits (see [`footprint_verdict`](super::footprint_verdict)), and one whose
/// glyphs ink outside the banner grid.
pub fn bake_banner<S: GlyphSource + ?Sized>(big: &BigText, source: &S, text: &str) -> (r: Result<Sprite, ConfigError>)
    ensures
        made_from(source, *big, text@, r),
{
    let cell_h = source.cell_height();
    let masks = glyphs_of(source, text);
    let fp = big.measure(cell_h, &masks);
    let r = match footprint_verdict(fp) {
        Err(e) => Err(e),
        Ok(()) => if big.fits_exec(cell_h, &masks) {
            Ok(big.bake(cell_h, &masks))
        } else {
            Err(ConfigError::Invalid("banner glyphs ink outside the banner grid".to_owned()))
        },
    };
    proof {
        let (ch, ms) = (cell_h, masks@);
        if big.line_ok(ch as int, ms) {
            let (c, w) = (big.cols(ms), big.rows(ch as int));
            assert(0 <= c * w <= u64::MAX) by (nonlinear_arith)
                requires
                    0 <= c <= u32::MAX,
                    0 <= w <= u32::MAX,
            ;
        }
        assert(fp == measured(*big, ch as int, ms));
        assert(banner_outcome(*big, ch as int, ms, r));
        assert(forall|k: int| 0 <= k < ms.len() ==> (#[trigger] ms[k])@ =~= source.spec_glyph(text@[k]));
        assert(forall|k: int| 0 <= k < ms.len() ==> (#[trigger] ms[k]).wf());
    }
    r
}

impl MarqueeConfig {
    /// Bake `text` into a scrolling-banner sprite through `source` (the glyph
    /// source this config selects) and this config's style.
    pub fn text_sprite<S: GlyphSource + ?Sized>(&self, source: &S, text: &str) -> (r: Result<Sprite, ConfigError>)
        ensures
            !super::glyph_source_ok(self.glyph_source) ==> r matches Err(ConfigError::Invalid(_)),
            super::glyph_source_ok(self.glyph_source) ==> exists|b: BigText|
                #![trigger styled(b, self.text_scale, self.tracking, self.shadow_depth, self.outline_px, self.gap, self.colors)]
                styled(
                    b,
                    self.text_scale,
                    self.tracking,
                    self.shadow_depth,
                    self.outline_px,
                    self.gap,
                    self.colors,
                ) && made_from(source, b, text@, r),
    {
        match validate_glyph_source(&self.glyph_source, "marquee") {
            Err(e) => Err(e),
            Ok(()) => {
                let big = BigText::new(self.text_scale).tracking(self.tracking).shadow_depth(
                    self.shadow_depth,
                ).outline(self.outline_px).gap(self.gap).colors(self.colors);
                let r = bake_banner(&big, source, text);
                proof {
                    assert(styled(
                        big,
                        self.text_scale,
                        self.tracking,
                        self.shadow_depth,
                        self.outline_px,
                        self.gap,
                        self.colors,
                    ));
                }
                r
            },
        }
    }
}

/// A nested (concentric) line border.
#[derive(Debug, Clone, Copy, PartialEq, Eq, Structural)]
pub struct BorderConfig {
    pub color: Color,
    /// Thickness of each line, in device pixels.
    pub line_thickness_px: u32,
    /// Number of concentric lines.
    pub line_count: u32,
    /// Gap between adjacent lines, in device pixels.
    pub line_gap_px: u32,
}

impl Default for BorderConfig {
    fn default() -> (c: Self)
        ensures
            c.color.0 == argb_word(0xFF, 0x87, 0xCE, 0xFA),
            c.line_thickness_px == 2,
            c.line_count == 2,
            c.line_gap_px == 3,
    {
        BorderConfig {
            color: palette::accent(),
            line_thickness_px: 2,
            line_count: 2,
            line_gap_px: 3,
        }
    }
}

/// Resolved geometry of the input panel.
#[derive(Debug, Clone, PartialEq, Eq)]
pub struct InputLayout {
    pub panel: Rect,
    /// Concentric border rects, outermost first.
    pub borders: Vec<Rect>,
    /// The rect glyphs are drawn (and clipped) into.
    pub text_area: Rect,
}

/// `r` shrunk inward by `by` pixels on every side (its size saturating at 0).
pub open spec fn inset(r: Rect, by: int) -> Rect {
    Rect {
        origin: Point { x: (r.origin.x + by) as i32, y: (r.origin.y + by) as i32 },
        size: Size {
            w: (if r.size.w >= 2 * by { r.size.w - 2 * by } else { 0 }) as u32,
            h: (if r.size.h >= 2 * by { r.size.h - 2 * by } else { 0 }) as u32,
        },
    }
}

/// The panel a `panel_h`-tall input strip takes along the bottom of `window`.
pub open spec fn input_panel(window: Size, panel_h: int) -> Rect {
    Rect {
        origin: Point { x: 0, y: (if window.h >= panel_h { window.h - panel_h } else { 0 }) as i32 },
        size: Size { w: window.w, h: panel_h as u32 },
    }
}

/// How far in the `k`-th border line sits: the margin plus `k` line-and-gap steps.
pub open spec fn border_inset(margin_px: int, border: BorderConfig, k: int) -> int {
    margin_px + k * (border.line_thickness_px + border.line_gap_px)
}

/// How far in the text area sits: inside the innermost line (its trailing gap
/// dropped, saturating at 0) plus the padding.
pub open spec fn text_inset(margin_px: int, padding_px: int, border: BorderConfig) -> int {
    let past = border_inset(margin_px, border, border.line_count as int);
    (if past >= border.line_gap_px { past - border.line_gap_px } else { 0 }) + padding_px
}

/// Shrink `r` inward by `by` pixels on every side, each size saturating at 0.
pub fn inset_rect(r: Rect, by: u32) -> (o: Rect)
    requires
        by <= i32::MAX,
        r.origin.x + by <= i32::MAX,
        r.origin.y + by <= i32::MAX,
    ensures
        o == inset(r, by as int),
{
    let d = by as i32;
    Rect::new(
        Point::new(r.origin.x + d, r.origin.y + d),
        Size::new(r.size.w.saturating_sub(2 * by), r.size.h.saturating_sub(2 * by)),
    )
}

impl InputLayout {
    /// The panel, border and text rects of a `panel_h`-tall input strip along
    /// the bottom of `window`: `border.line_count` concentric lines, the first
    /// `margin_px` in from the panel edge and each next one a line-and-gap step
    /// further in, and the text area `padding_px` inside the innermost line.
    pub fn compute(
        window: Size,
        panel_h: u32,
        margin_px: u32,
        padding_px: u32,
        border: BorderConfig,
    ) -> (l: InputLayout)
        requires
            border.line_thickness_px + border.line_gap_px <= u32::MAX,
            (if window.h >= panel_h { window.h - panel_h } else { 0 }) + border_inset(
                margin_px as int,
                border,
                border.line_count as int,
            ) + padding_px <= i32::MAX,
        ensures
            l.panel == input_panel(window, panel_h as int),
            l.borders@.len() == border.line_count,
            forall|k: int|
                0 <= k < border.line_count ==> #[trigger] l.borders@[k] == inset(
                    input_panel(window, panel_h as int),
                    border_inset(margin_px as int, border, k),
                ),
            l.text_area == inset(
                input_panel(window, panel_h as int),
                text_inset(margin_px as int, padding_px as int, border),
            ),
    {
        let panel = Rect::new(
            Point::new(0, window.h.saturating_sub(panel_h) as i32),
            Size::new(window.w, panel_h),
        );
        let step = border.line_thickness_px + border.line_gap_px;
        let ghost total = border_inset(margin_px as int, border, border.line_count as int);
        let mut borders: Vec<Rect> = Vec::new();
        let mut inset_px = margin_px;
        let mut k: u32 = 0;
        while k < border.line_count
            invariant
                k <= border.line_count,
                step == border.line_thickness_px + border.line_gap_px,
                total == border_inset(margin_px as int, border, border.line_count as int),
                0 <= panel.origin.y,
                panel.origin.y + total + padding_px <= i32::MAX,
                panel == input_panel(window, panel_h as int),
                inset_px == border_inset(margin_px as int, border, k as int),
                borders@.len() == k,
                forall|j: int|
                    0 <= j < k ==> #[trigger] borders@[j] == inset(
                        panel,
                        border_inset(margin_px as int, border, j),
                    ),
            decreases border.line_count - k,
        {
            proof {
                assert(k * step + step <= border.line_count * step) by (nonlinear_arith)
                    requires
                        k < border.line_count,
                ;
                assert(k * step + step == (k + 1) * step) by (nonlinear_arith);
            }
            borders.push(inset_rect(panel, inset_px));
            inset_px = inset_px + step;
            k = k + 1;
        }
        let text_px = inset_px.saturating_sub(border.line_gap_px) + padding_px;
        InputLayout { panel, borders, text_area: inset_rect(panel, text_px) }
    }
}

} // verus!
