use ratgames::config::{
    inset_rect, parse_config_flag, validate_banners, validate_display, BorderConfig, ConfigError,
    ConfigSource, DeviceClass, FlashConfig, FontSource, GlyphSourceConfig, InputLayout,
    MarqueeConfig, QuizConfig, ScreenConfig, WindowConfig,
};
use ratgames::geometry::{Point, Rect, Size};
use ratgames::glyph::Bitmap8x8;

// ---- device classes ----

#[test]
fn width_classification_covers_the_bands_and_boundaries() {
    assert_eq!(DeviceClass::for_width(0), DeviceClass::Mobile);
    assert_eq!(DeviceClass::for_width(767), DeviceClass::Mobile);
    assert_eq!(DeviceClass::for_width(768), DeviceClass::Tablet);
    assert_eq!(DeviceClass::for_width(1024), DeviceClass::Tablet);
    assert_eq!(DeviceClass::for_width(1025), DeviceClass::Desktop);
    assert_eq!(DeviceClass::for_width(1280), DeviceClass::Desktop);
}

#[test]
fn each_preset_width_classifies_back_to_its_own_class() {
    for class in [
        DeviceClass::Mobile,
        DeviceClass::Tablet,
        DeviceClass::Desktop,
    ] {
        assert_eq!(DeviceClass::for_width(class.preset_size().w), class);
    }
}

#[test]
fn default_is_desktop_at_1280x720() {
    assert_eq!(DeviceClass::default(), DeviceClass::Desktop);
    assert_eq!(DeviceClass::Desktop.preset_size(), Size::new(1280, 720));
}

// ---- config sources and flags ----

#[test]
fn config_source_is_a_file_when_a_path_is_given() {
    assert_eq!(
        ConfigSource::resolve(Some("/game.toml".to_string())),
        ConfigSource::File("/game.toml".to_string())
    );
}

#[test]
fn config_source_defaults_without_a_path() {
    assert_eq!(ConfigSource::resolve(None), ConfigSource::Default);
}

#[test]
fn parse_config_flag_extracts_path_and_keeps_positionals() {
    let (path, positionals) =
        parse_config_flag(["--config", "banner.toml", "HELLO"].map(String::from).to_vec())
            .expect("parses");
    assert_eq!(path, Some("banner.toml".to_string()));
    assert_eq!(positionals, vec!["HELLO".to_string()]);
}

#[test]
fn parse_config_flag_supports_equals_form() {
    let (path, positionals) =
        parse_config_flag(vec!["--config=x.toml".to_string()]).expect("parses");
    assert_eq!(path, Some("x.toml".to_string()));
    assert!(positionals.is_empty());
}

#[test]
fn parse_config_flag_without_flag_is_all_positional() {
    // Preserves `cargo run -- "GAME OVER"`: a bare positional is banner text.
    let (path, positionals) = parse_config_flag(vec!["GAME OVER".to_string()]).expect("parses");
    assert_eq!(path, None);
    assert_eq!(positionals, vec!["GAME OVER".to_string()]);
}

#[test]
fn parse_config_flag_missing_value_is_an_error() {
    let err = parse_config_flag(vec!["--config".to_string()]).unwrap_err();
    assert!(matches!(err, ConfigError::Invalid(_)));
}

// ---- banners ----

#[test]
fn oversized_banner_is_rejected_before_allocation() {
    // A bitmap banner at an extreme scale exceeds the scaled-pixel ceiling
    // and is rejected without allocating — deterministic, no system font.
    let marquee = MarqueeConfig {
        text_scale: 256,
        ..MarqueeConfig::default()
    };
    assert!(matches!(
        marquee.text_sprite(&Bitmap8x8, "GAME OVER"),
        Err(ConfigError::SpriteTooLarge { .. })
    ));
}

#[test]
fn a_reasonable_banner_builds_within_limits() {
    let marquee = MarqueeConfig {
        text_scale: 4,
        ..MarqueeConfig::default()
    };
    assert!(marquee.text_sprite(&Bitmap8x8, "OK").is_ok());
}

#[test]
fn builder_rejects_oversized_cell_px_without_a_font() {
    // The glyph source is validated before anything is rasterised, so an
    // oversized raster cell_px is rejected deterministically.
    let marquee = MarqueeConfig {
        glyph_source: GlyphSourceConfig::Raster {
            cell_px: 5000,
            threshold: 128,
            font: FontSource::default(),
        },
        ..MarqueeConfig::default()
    };
    assert!(matches!(
        marquee.text_sprite(&Bitmap8x8, "HI"),
        Err(ConfigError::Invalid(_))
    ));
}

#[test]
fn default_strings_are_sourced_from_the_bundled_json() {
    assert_eq!(WindowConfig::default().title, "ratgames");
}

// ---- quiz config ----

#[test]
fn quiz_defaults_are_playable() {
    let q = QuizConfig::default();
    assert_eq!(q.expected, "12");
    assert_eq!(q.flash.count, 3);
    // The cross bakes to a non-empty sprite.
    assert!(q.cross.sprite(&Bitmap8x8).expect("cross bakes").size().area() > 0);
}

#[test]
fn flash_visibility_toggles_within_a_cycle() {
    let f = FlashConfig::default();
    assert!(f.visible_at(0)); // on at the start of a cycle
    assert!(!f.visible_at(f.on_frames)); // off once past the on window
    assert!(f.visible_at(f.on_frames + f.off_frames)); // on again next cycle
    assert_eq!(f.total_frames(), f.count * (f.on_frames + f.off_frames));
}

#[test]
fn default_source_is_generic_monospace() {
    // No product font is baked into the library default: an unnamed system
    // family resolves to the platform's generic monospace.
    assert!(matches!(
        FontSource::default(),
        FontSource::System {
            family: ratgames::config::FontFamily::Default,
            ..
        }
    ));
}

#[test]
fn input_panel_sits_along_the_bottom_of_the_window() {
    // A 15% strip of a 1000px-tall window is 150px tall.
    let l = InputLayout::compute(Size::new(1000, 1000), 150, 8, 8, BorderConfig::default());
    assert_eq!(l.panel.size, Size::new(1000, 150));
    assert_eq!(l.panel.origin, Point::new(0, 850));
}

#[test]
fn input_borders_nest_inward_and_frame_the_text() {
    let border = BorderConfig::default();
    let l = InputLayout::compute(Size::new(800, 600), 90, 8, 8, border);
    assert_eq!(l.borders.len(), border.line_count as usize);
    assert_eq!(l.borders[0], Rect::new(Point::new(8, 518), Size::new(784, 74)));
    assert_eq!(l.borders[1], Rect::new(Point::new(13, 523), Size::new(774, 64)));
    assert_eq!(l.text_area, Rect::new(Point::new(23, 533), Size::new(754, 44)));
    for pair in l.borders.windows(2) {
        assert!(pair[1].origin.x > pair[0].origin.x);
        assert!(pair[1].size.w < pair[0].size.w);
    }
}

#[test]
fn inset_rect_saturates_a_small_rect_at_zero() {
    let r = Rect::new(Point::new(1, 2), Size::new(5, 30));
    assert_eq!(inset_rect(r, 4), Rect::new(Point::new(5, 6), Size::new(0, 22)));
}

#[test]
fn display_checks_reject_an_empty_window_screen_or_scale() {
    let window = WindowConfig::default();
    let screen = ScreenConfig::default();
    assert_eq!(validate_display(&window, &screen), Ok(()));
    let flat = WindowConfig { width: 0, ..WindowConfig::default() };
    assert_eq!(
        validate_display(&flat, &screen),
        Err(ConfigError::Invalid("window size must be non-zero, got 0x768".to_string()))
    );
    let empty = ScreenConfig { size: Size::new(256, 0), ..screen };
    assert_eq!(
        validate_display(&window, &empty),
        Err(ConfigError::Invalid("screen.size must be non-zero, got 256x0".to_string()))
    );
    let unscaled = ScreenConfig { min_scale: 0, ..screen };
    assert_eq!(
        validate_display(&window, &unscaled),
        Err(ConfigError::Invalid("screen.min_scale must be at least 1".to_string()))
    );
}

#[test]
fn banner_checks_reject_zero_scales_and_oversized_cells() {
    let marquee = MarqueeConfig::default();
    let quiz = QuizConfig::default();
    assert_eq!(validate_banners(&marquee, &quiz), Ok(()));
    let flat = MarqueeConfig { text_scale: 0, ..MarqueeConfig::default() };
    assert_eq!(
        validate_banners(&flat, &quiz),
        Err(ConfigError::Invalid("marquee.text_scale must be at least 1".to_string()))
    );
    let huge = MarqueeConfig {
        glyph_source: GlyphSourceConfig::Raster {
            cell_px: 5000,
            threshold: 128,
            font: FontSource::default(),
        },
        ..MarqueeConfig::default()
    };
    assert_eq!(
        validate_banners(&huge, &quiz),
        Err(ConfigError::Invalid(
            "marquee.glyph_source.cell_px 5000 exceeds the 2048 safety limit".to_string()
        ))
    );
    let mut tiny_cross = QuizConfig::default();
    tiny_cross.cross.scale = 0;
    assert_eq!(
        validate_banners(&marquee, &tiny_cross),
        Err(ConfigError::Invalid("quiz.cross.scale must be at least 1".to_string()))
    );
}

#[test]
fn quiz_banners_take_their_colours_from_the_theme() {
    let quiz = QuizConfig::default();
    let theme = ratgames::theme::Theme::default();
    assert_eq!(quiz.cross.colors.fill, theme.danger);
    assert_eq!(quiz.game_over.colors.fill, theme.warning);
    assert_eq!(quiz.game_over.colors.shadow, theme.shadow);
}

#[test]
fn game_over_banner_is_full_sized_but_fits_the_screen() {
    let q = QuizConfig::default();
    let screen = ScreenConfig::default().size;
    let banner = q.game_over.sprite(&Bitmap8x8).expect("bakes").size();
    // "Full sized": spans most of the screen width without overflowing it.
    assert!(banner.w <= screen.w, "banner must fit the virtual screen: {} > {}", banner.w, screen.w);
    assert!(banner.w > screen.w / 2, "banner should read as full sized");
}

#[test]
fn banner_checks_report_the_cross_before_the_game_over_sign() {
    let marquee = MarqueeConfig::default();
    let mut both = QuizConfig::default();
    both.cross.scale = 0;
    both.game_over.scale = 0;
    assert_eq!(
        validate_banners(&marquee, &both),
        Err(ConfigError::Invalid("quiz.cross.scale must be at least 1".to_string()))
    );
    let mut sign = QuizConfig::default();
    sign.game_over.glyph_source =
        GlyphSourceConfig::Raster { cell_px: 0, threshold: 128, font: FontSource::default() };
    assert_eq!(
        validate_banners(&marquee, &sign),
        Err(ConfigError::Invalid("quiz.game_over.glyph_source.cell_px must be at least 1".to_string()))
    );
}

#[test]
fn the_game_over_sign_spans_its_glyphs_pen_and_decoration() {
    // Eight 8-pixel glyphs at tracking 1 walk the pen to 72; the outline takes
    // a column each side and the shadow three more: 77 columns at scale 3.
    let q = QuizConfig::default();
    let banner = q.game_over.sprite(&Bitmap8x8).expect("bakes").size();
    assert_eq!(banner.w, 3 * (1 + 72 + 1 + 3));
    assert_eq!(banner.h, 3 * (1 + 8 + 3 + 1));
}
