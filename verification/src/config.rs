//! Central configuration — the in-code "header" of defaults.
//!
//! Nothing downstream hardcodes a dimension, colour, or size; it flows from
//! here. `Default` supplies the built-in values and colours flow from
//! [`Theme`](crate::theme::Theme). Reading files and parsing TOML/JSON are the
//! host's job; this module holds the values, their checks, and the
//! command-line flag handling.

use vstd::prelude::*;

use crate::chars::{chars_of, decimal, push_all, push_decimal, starts_with, str_eq, string_from_chars, tail_from};
use vstd::string::StringExecFns;
use crate::glyph::{GlyphMask, GlyphSource};
use crate::text::{glyphs_of, BigText, Footprint};

pub mod device;
pub mod font;
pub mod layout;
pub mod levels;
pub mod quiz;

pub use device::DeviceClass;
pub use font::{FontFamily, FontSource, FontStretch, FontStyle, FontWeight, GlyphSourceConfig};
pub use layout::{inset_rect, BorderConfig, InputLayout, MarqueeConfig, ScreenConfig, WindowConfig};
pub use levels::{
    level_index, level_index_of, order_level_files, take_levels_flag, LevelConfig, LevelLoadError,
};
pub use quiz::{BannerConfig, FlashConfig, QuizConfig};

verus! {

/// A configuration value the library refuses.
#[derive(Debug, Clone, PartialEq, Eq)]
pub enum ConfigError {
    /// A value is out of range or malformed.
    Invalid(String),
    /// A banner would bake a sprite over the pre-allocation limit.
    SpriteTooLarge { kind: &'static str, area: u64, limit: u64 },
}

/// The largest raster glyph cell a config may ask for.
pub const MAX_CELL_PX: u32 = 2048;

/// The largest source-resolution banner grid, in cells.
pub const MAX_SOURCE_SPRITE_CELLS: u64 = 4_000_000;

/// The largest scaled banner sprite, in pixels.
pub const MAX_SCALED_SPRITE_PIXELS: u64 = 16_000_000;

/// A glyph source a banner may use: the bitmap, or a raster source with a
/// cell size in `1..=MAX_CELL_PX`.
pub open spec fn glyph_source_ok(source: GlyphSourceConfig) -> bool {
    match source {
        GlyphSourceConfig::Bitmap8x8 => true,
        GlyphSourceConfig::Raster { cell_px, .. } => 1 <= cell_px <= MAX_CELL_PX,
    }
}

/// What is wrong with a glyph source, as the message naming config section
/// `ctx`: a raster cell size of zero, or one over [`MAX_CELL_PX`].
pub open spec fn glyph_source_problem(source: GlyphSourceConfig, ctx: Seq<char>) -> Option<Seq<char>> {
    match source {
        GlyphSourceConfig::Raster { cell_px, .. } => if cell_px == 0 {
            Some(ctx + ".glyph_source.cell_px must be at least 1"@)
        } else if cell_px > MAX_CELL_PX {
            Some(
                ctx + ".glyph_source.cell_px "@ + decimal(cell_px as nat)
                    + " exceeds the 2048 safety limit"@,
            )
        } else {
            None
        },
        GlyphSourceConfig::Bitmap8x8 => None,
    }
}

/// An optional problem as the check's result.
pub open spec fn reports(r: Result<(), ConfigError>, problem: Option<Seq<char>>) -> bool {
    match problem {
        None => r is Ok,
        Some(m) => r matches Err(ConfigError::Invalid(s)) && s@ == m,
    }
}

/// Reject a raster glyph source whose cell size is zero or over the safety
/// limit; `ctx` names the config section in the message.
pub fn validate_glyph_source(source: &GlyphSourceConfig, ctx: &str) -> (r: Result<(), ConfigError>)
    ensures
        r is Ok <==> glyph_source_ok(*source),
        reports(r, glyph_source_problem(*source, ctx@)),
{
    match source {
        GlyphSourceConfig::Raster { cell_px, .. } => {
            if *cell_px == 0 {
                let mut cs = chars_of(ctx);
                push_all(&mut cs, &chars_of(".glyph_source.cell_px must be at least 1"));
                return Err(ConfigError::Invalid(string_from_chars(&cs)));
            }
            if *cell_px > MAX_CELL_PX {
                let mut cs = chars_of(ctx);
                push_all(&mut cs, &chars_of(".glyph_source.cell_px "));
                push_decimal(&mut cs, *cell_px as u64);
                push_all(&mut cs, &chars_of(" exceeds the 2048 safety limit"));
                return Err(ConfigError::Invalid(string_from_chars(&cs)));
            }
            Ok(())
        },
        GlyphSourceConfig::Bitmap8x8 => Ok(()),
    }
}

/// The display sections are usable: a non-empty window and virtual screen,
/// and an upscale floor of at least 1.
pub open spec fn display_ok(window: WindowConfig, screen: ScreenConfig) -> bool {
    &&& window.width != 0 && window.height != 0
    &&& screen.size.w != 0 && screen.size.h != 0
    &&& screen.min_scale != 0
}

/// The banner sections are usable: every text scale at least 1 and every glyph
/// source within its limits.
pub open spec fn banners_ok(marquee: MarqueeConfig, quiz: QuizConfig) -> bool {
    &&& marquee.text_scale != 0
    &&& glyph_source_ok(marquee.glyph_source)
    &&& quiz.cross.scale != 0
    &&& glyph_source_ok(quiz.cross.glyph_source)
    &&& quiz.game_over.scale != 0
    &&& glyph_source_ok(quiz.game_over.glyph_source)
}

/// `"<what> must be non-zero, got <w>x<h>"`.
fn zero_size_message(what: &str, w: u32, h: u32) -> (m: String)
    ensures
        m@ == what@ + " must be non-zero, got "@ + decimal(w as nat) + seq!['x'] + decimal(
            h as nat,
        ),
{
    let mut cs = chars_of(what);
    push_all(&mut cs, &chars_of(" must be non-zero, got "));
    push_decimal(&mut cs, w as u64);
    cs.push('x');
    push_decimal(&mut cs, h as u64);
    proof {
        assert(cs@ =~= what@ + " must be non-zero, got "@ + decimal(w as nat) + seq!['x'] + decimal(
            h as nat,
        ));
    }
    string_from_chars(&cs)
}

/// Check the window and virtual-screen sections: the window and the screen
/// must be non-empty and the upscale floor at least 1, checked in that order.
pub fn validate_display(window: &WindowConfig, screen: &ScreenConfig) -> (r: Result<(), ConfigError>)
    ensures
        r is Ok <==> display_ok(*window, *screen),
        r is Err ==> r->Err_0 is Invalid,
        window.width == 0 || window.height == 0 ==> (r matches Err(ConfigError::Invalid(m)) && m@
            == "window size"@ + " must be non-zero, got "@ + decimal(window.width as nat) + seq![
            'x',
        ] + decimal(window.height as nat)),
        window.width != 0 && window.height != 0 && (screen.size.w == 0 || screen.size.h == 0) ==> (
        r matches Err(ConfigError::Invalid(m)) && m@ == "screen.size"@
            + " must be non-zero, got "@ + decimal(screen.size.w as nat) + seq!['x'] + decimal(
            screen.size.h as nat,
        )),
        window.width != 0 && window.height != 0 && screen.size.w != 0 && screen.size.h != 0
            && screen.min_scale == 0 ==> (r matches Err(ConfigError::Invalid(m)) && m@
            == "screen.min_scale must be at least 1"@),
{
    if window.width == 0 || window.height == 0 {
        return Err(ConfigError::Invalid(zero_size_message("window size", window.width, window.height)));
    }
    if screen.size.w == 0 || screen.size.h == 0 {
        return Err(ConfigError::Invalid(zero_size_message("screen.size", screen.size.w, screen.size.h)));
    }
    if screen.min_scale == 0 {
        return Err(
            ConfigError::Invalid(string_from_chars(&chars_of("screen.min_scale must be at least 1"))),
        );
    }
    Ok(())
}

/// The first problem of the banner sections, in checking order: the
/// marquee's text scale, its glyph source, then each quiz banner's (the
/// cross's, then the game-over sign's) scale and glyph source.
pub open spec fn banners_problem(marquee: MarqueeConfig, quiz: QuizConfig) -> Option<Seq<char>> {
    if marquee.text_scale == 0 {
        Some("marquee.text_scale must be at least 1"@)
    } else if glyph_source_problem(marquee.glyph_source, "marquee"@) is Some {
        glyph_source_problem(marquee.glyph_source, "marquee"@)
    } else if quiz.cross.scale == 0 {
        Some("quiz.cross.scale must be at least 1"@)
    } else if glyph_source_problem(quiz.cross.glyph_source, "quiz.cross"@) is Some {
        glyph_source_problem(quiz.cross.glyph_source, "quiz.cross"@)
    } else if quiz.game_over.scale == 0 {
        Some("quiz.game_over.scale must be at least 1"@)
    } else {
        glyph_source_problem(quiz.game_over.glyph_source, "quiz.game_over"@)
    }
}

/// Check the banner sections: the marquee's text scale and glyph source, then
/// each quiz banner's scale and glyph source, in that order; the first
/// problem found is reported.
pub fn validate_banners(marquee: &MarqueeConfig, quiz: &QuizConfig) -> (r: Result<(), ConfigError>)
    ensures
        r is Ok <==> banners_ok(*marquee, *quiz),
        reports(r, banners_problem(*marquee, *quiz)),
{
    if marquee.text_scale == 0 {
        return Err(ConfigError::Invalid(string_from_chars(&chars_of("marquee.text_scale must be at least 1"))));
    }
    match validate_glyph_source(&marquee.glyph_source, "marquee") {
        Ok(()) => {},
        Err(e) => {
            return Err(e);
        },
    }
    if quiz.cross.scale == 0 {
        return Err(ConfigError::Invalid(string_from_chars(&chars_of("quiz.cross.scale must be at least 1"))));
    }
    match validate_glyph_source(&quiz.cross.glyph_source, "quiz.cross") {
        Ok(()) => {},
        Err(e) => {
            return Err(e);
        },
    }
    if quiz.game_over.scale == 0 {
        return Err(
            ConfigError::Invalid(string_from_chars(&chars_of("quiz.game_over.scale must be at least 1"))),
        );
    }
    validate_glyph_source(&quiz.game_over.glyph_source, "quiz.game_over")
}

/// A banner of `masks` on a `cell_h` grid bakes within both limits: its pen
/// walk stays in range, its source grid holds at most
/// [`MAX_SOURCE_SPRITE_CELLS`] cells, and its scaled sprite at most
/// [`MAX_SCALED_SPRITE_PIXELS`] pixels.
pub open spec fn within_limits(text: BigText, cell_h: int, masks: Seq<GlyphMask>) -> bool {
    &&& text.line_ok(cell_h, masks)
    &&& text.cols(masks) * text.rows(cell_h) <= MAX_SOURCE_SPRITE_CELLS
    &&& text.cols(masks) * text.rows(cell_h) * text.spec_scale() * text.spec_scale()
        <= MAX_SCALED_SPRITE_PIXELS
}

/// What [`BigText::measure`] gives for `masks` on a `cell_h` grid: the
/// source cells and scaled pixels, or `None` when the pen walk leaves range
/// or the scaled size passes `u64`.
pub open spec fn measured(b: BigText, cell_h: int, masks: Seq<GlyphMask>) -> Option<Footprint> {
    let cells = b.cols(masks) * b.rows(cell_h);
    let scaled = cells * b.spec_scale() * b.spec_scale();
    if !b.line_ok(cell_h, masks) || scaled > u64::MAX {
        None
    } else {
        Some(Footprint { source_cells: cells as u64, scaled_pixels: scaled as u64 })
    }
}

/// The refusal a footprint earns, as `(kind, area, limit)`: an unmeasurable
/// banner as a source grid of `u64::MAX` cells, then the source grid over
/// [`MAX_SOURCE_SPRITE_CELLS`], then the scaled sprite over
/// [`MAX_SCALED_SPRITE_PIXELS`]; `None` when it is within both.
pub open spec fn refusal(fp: Option<Footprint>) -> Option<(Seq<char>, u64, u64)> {
    match fp {
        None => Some(("source"@, u64::MAX, MAX_SOURCE_SPRITE_CELLS)),
        Some(f) => if f.source_cells > MAX_SOURCE_SPRITE_CELLS {
            Some(("source"@, f.source_cells, MAX_SOURCE_SPRITE_CELLS))
        } else if f.scaled_pixels > MAX_SCALED_SPRITE_PIXELS {
            Some(("scaled"@, f.scaled_pixels, MAX_SCALED_SPRITE_PIXELS))
        } else {
            None
        },
    }
}

/// `r` answers `fp`: `Ok` when it earns no refusal, else the refusal as a
/// [`ConfigError::SpriteTooLarge`].
pub open spec fn answers(r: Result<(), ConfigError>, fp: Option<Footprint>) -> bool {
    match refusal(fp) {
        None => r is Ok,
        Some((k, a, l)) => r matches Err(ConfigError::SpriteTooLarge { kind, area, limit }) && kind@
            == k && area == a && limit == l,
    }
}

/// Judge a measured banner footprint against the allocation limits: the
/// source grid first, then the scaled sprite; a banner too large to measure
/// (`None`) is refused as a source grid of `u64::MAX` cells.
pub fn footprint_verdict(fp: Option<Footprint>) -> (r: Result<(), ConfigError>)
    ensures
        answers(r, fp),
{
    match fp {
        None => Err(
            ConfigError::SpriteTooLarge {
                kind: "source",
                area: u64::MAX,
                limit: MAX_SOURCE_SPRITE_CELLS,
            },
        ),
        Some(fp) => {
            if fp.source_cells > MAX_SOURCE_SPRITE_CELLS {
                return Err(
                    ConfigError::SpriteTooLarge {
                        kind: "source",
                        area: fp.source_cells,
                        limit: MAX_SOURCE_SPRITE_CELLS,
                    },
                );
            }
            if fp.scaled_pixels > MAX_SCALED_SPRITE_PIXELS {
                return Err(
                    ConfigError::SpriteTooLarge {
                        kind: "scaled",
                        area: fp.scaled_pixels,
                        limit: MAX_SCALED_SPRITE_PIXELS,
                    },
                );
            }
            Ok(())
        },
    }
}

/// Refuse a banner whose footprint, measured over `source`'s glyphs for `s`
/// (its cell height and its mask for each character), passes the limits —
/// see [`footprint_verdict`].
pub fn guard_footprint<S: GlyphSource + ?Sized>(text: &BigText, source: &S, s: &str) -> (r: Result<(), ConfigError>)
    ensures
        r matches Err(e) ==> e is SpriteTooLarge,
        exists|cell_h: u32, masks: Seq<GlyphMask>|
            {
                &&& cell_h == source.spec_cell_height()
                &&& masks.len() == s@.len()
                &&& forall|k: int| 0 <= k < masks.len() ==> (#[trigger] masks[k]).wf()
                &&& forall|k: int|
                    0 <= k < masks.len() ==> (#[trigger] masks[k])@ =~= source.spec_glyph(s@[k])
                &&& answers(r, measured(*text, cell_h as int, masks))
                &&& (r is Ok <==> within_limits(*text, cell_h as int, masks))
            },
{
    let cell_h = source.cell_height();
    let masks = glyphs_of(source, s);
    let fp = text.measure(cell_h, &masks);
    let r = footprint_verdict(fp);
    proof {
        let (ch, ms) = (cell_h, masks@);
        if text.line_ok(ch as int, ms) {
            let (c, w) = (text.cols(ms), text.rows(ch as int));
            assert(0 <= c * w <= u64::MAX) by (nonlinear_arith)
                requires
                    0 <= c <= u32::MAX,
                    0 <= w <= u32::MAX,
            ;
        }
        assert(fp == measured(*text, ch as int, ms));
        assert(fp is Some ==> (within_limits(*text, ch as int, ms) <==> (fp->0.source_cells
            <= MAX_SOURCE_SPRITE_CELLS && fp->0.scaled_pixels <= MAX_SCALED_SPRITE_PIXELS)));
        assert(fp is None ==> !within_limits(*text, ch as int, ms));
        assert(forall|k: int| 0 <= k < ms.len() ==> (#[trigger] ms[k])@ =~= source.spec_glyph(s@[k]));
        assert(forall|k: int| 0 <= k < ms.len() ==> (#[trigger] ms[k]).wf());
    }
    r
}

/// Where a [`Config`] comes from: a file path given on the command line, or the
/// built-in defaults.
#[derive(Debug, Clone, PartialEq, Eq)]
pub enum ConfigSource {
    File(String),
    Default,
}

impl ConfigSource {
    /// A file source when a path was given, else the defaults.
    pub fn resolve(cli_path: Option<String>) -> (s: Self)
        ensures
            match cli_path {
                Some(p) => s matches ConfigSource::File(q) && q@ == p@,
                None => s is Default,
            },
    {
        match cli_path {
            Some(path) => ConfigSource::File(path),
            None => ConfigSource::Default,
        }
    }
}

/// The views of a list of strings.
pub open spec fn views(args: Seq<String>) -> Seq<Seq<char>> {
    args.map_values(|s: String| s@)
}

/// Pull a `--flag value` / `--flag=value` option out of `args`, front to back:
/// the last value given wins, every other argument is kept in order, and a
/// bare flag with nothing after it is an error (`None`).
pub open spec fn split_flag(
    args: Seq<Seq<char>>,
    eq_form: Seq<char>,
    bare: Seq<char>,
    found: Option<Seq<char>>,
    rest: Seq<Seq<char>>,
) -> Option<(Option<Seq<char>>, Seq<Seq<char>>)>
    decreases args.len(),
{
    if args.len() == 0 {
        Some((found, rest))
    } else if eq_form.is_prefix_of(args[0]) {
        split_flag(args.drop_first(), eq_form, bare, Some(args[0].skip(eq_form.len() as int)), rest)
    } else if args[0] == bare {
        if args.len() < 2 {
            None
        } else {
            split_flag(args.skip(2), eq_form, bare, Some(args[1]), rest)
        }
    } else {
        split_flag(args.drop_first(), eq_form, bare, found, rest.push(args[0]))
    }
}

/// The view of an optional string.
pub open spec fn opt_view(o: Option<String>) -> Option<Seq<char>> {
    match o {
        Some(s) => Some(s@),
        None => None,
    }
}

/// [`split_flag`] over owned arguments.
pub fn take_flag(args: Vec<String>, eq_form: &str, bare: &str) -> (r: Option<(Option<String>, Vec<String>)>)
    ensures
        match r {
            Some((found, rest)) => split_flag(views(args@), eq_form@, bare@, None, Seq::empty())
                == Some((opt_view(found), views(rest@))),
            None => split_flag(views(args@), eq_form@, bare@, None, Seq::empty()) is None,
        },
{
    let ghost all = views(args@);
    let n = args.len();
    let e = eq_form.unicode_len();
    let mut found: Option<String> = None;
    let mut rest: Vec<String> = Vec::new();
    let mut i: usize = 0;
    proof {
        assert(views(rest@) =~= Seq::<Seq<char>>::empty());
        assert(all.skip(0) =~= all);
    }
    while i < n
        invariant
            n == args@.len(),
            all == views(args@),
            e == eq_form@.len(),
            i <= n,
            split_flag(all.skip(i as int), eq_form@, bare@, opt_view(found), views(rest@)) == split_flag(
                all,
                eq_form@,
                bare@,
                None,
                Seq::empty(),
            ),
        decreases n - i,
    {
        let arg = args[i].as_str();
        proof {
            assert(all.skip(i as int)[0] == arg@);
            assert(all.skip(i as int).drop_first() =~= all.skip(i + 1));
        }
        if starts_with(arg, eq_form) {
            found = Some(tail_from(arg, e));
            i += 1;
        } else if str_eq(arg, bare) {
            if i + 1 >= n {
                return None;
            }
            proof {
                assert(all.skip(i as int).skip(2) =~= all.skip(i + 2));
                assert(all.skip(i as int)[1] == args@[i + 1]@);
            }
            found = Some(args[i + 1].clone());
            i += 2;
        } else {
            let ghost before = views(rest@);
            rest.push(args[i].clone());
            proof {
                assert(views(rest@) =~= before.push(arg@));
            }
            i += 1;
        }
    }
    proof {
        assert(all.skip(n as int) =~= Seq::<Seq<char>>::empty());
    }
    Some((found, rest))
}

/// Extract `--config <path>` / `--config=<path>` from the command-line
/// arguments (the program name already stripped), returning the path and the
/// remaining positionals in order. A bare `--config` with no value is an error.
pub fn parse_config_flag(args: Vec<String>) -> (r: Result<(Option<String>, Vec<String>), ConfigError>)
    ensures
        match r {
            Ok((path, rest)) => split_flag(views(args@), "--config="@, "--config"@, None, Seq::empty())
                == Some((opt_view(path), views(rest@))),
            Err(e) => split_flag(views(args@), "--config="@, "--config"@, None, Seq::empty()) is None
                && e is Invalid,
        },
{
    match take_flag(args, "--config=", "--config") {
        Some((path, rest)) => Ok((path, rest)),
        None => Err(ConfigError::Invalid("--config requires a path argument".to_owned())),
    }
}

} // verus!
