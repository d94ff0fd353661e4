use trance::theme::{recommended_min_size, Color, Palette, PowerStatus, Rgb, SystemMetrics, TuiTheme};

fn mock_metrics(dark_mode: bool, high_contrast: bool) -> SystemMetrics {
    SystemMetrics {
        screen_w: 1920,
        screen_h: 1080,
        dpi: 96,
        window_dpi: 96,
        dark_mode,
        high_contrast,
        accent: Rgb(0, 120, 215),
        power: PowerStatus {
            ac_online: true,
            battery_percent: 100,
        },
    }
}

#[test]
fn test_recommended_min_size() {
    assert_eq!(recommended_min_size(96), (60, 25));
    assert_eq!(recommended_min_size(144), (90, 38)); // 1.5x scale
    assert_eq!(recommended_min_size(192), (120, 50)); // 2x scale
}

#[test]
fn test_theme_detect_high_contrast_dark() {
    let metrics = mock_metrics(true, true);
    let palette = Palette::default();
    let theme = TuiTheme::detect_impl(metrics, palette, false);
    assert!(theme.high_contrast);
    assert!(!theme.no_color);
    assert_eq!(theme.bg, Color::Black);
    assert_eq!(theme.border, Color::White);
    assert_eq!(theme.border_active, Color::Yellow);
}

#[test]
fn test_theme_detect_high_contrast_light() {
    let metrics = mock_metrics(false, true);
    let palette = Palette::default();
    let theme = TuiTheme::detect_impl(metrics, palette, false);
    assert!(theme.high_contrast);
    assert!(!theme.no_color);
    assert_eq!(theme.bg, Color::White);
    assert_eq!(theme.border, Color::Black);
    assert_eq!(theme.border_active, Color::Yellow);
}

#[test]
fn test_theme_detect_no_color_dark() {
    let metrics = mock_metrics(true, false);
    let palette = Palette::default();
    let theme = TuiTheme::detect_impl(metrics, palette, true); // no_color = true
    assert!(!theme.high_contrast);
    assert!(theme.no_color);
    assert_eq!(theme.border, Color::DarkGray);
    assert_eq!(theme.border_active, Color::White);
}

#[test]
fn test_theme_detect_normal_dark() {
    let metrics = mock_metrics(true, false);
    let palette = Palette::default();
    let theme = TuiTheme::detect_impl(metrics, palette, false);
    assert!(!theme.high_contrast);
    assert!(!theme.no_color);
    assert_eq!(theme.bg, Color::Reset);
    assert_eq!(theme.border, Color::Rgb(118, 118, 118)); // dark grey (palette index 8)
    assert_eq!(theme.border_active, Color::Rgb(0, 120, 215)); // accent color
}

#[test]
fn min_size_clamps_and_rounds() {
    // Below 100% the size never shrinks; above 300% it stops growing.
    assert_eq!(recommended_min_size(0), (60, 25));
    assert_eq!(recommended_min_size(72), (60, 25));
    assert_eq!(recommended_min_size(288), (180, 75));
    assert_eq!(recommended_min_size(1000), (180, 75));
    // 120 dpi: 1.25x -> 75 x 31.25, rounded to 75 x 31.
    assert_eq!(recommended_min_size(120), (75, 31));
    // 100 dpi: the single-precision scale puts the width just under 62.5.
    assert_eq!(recommended_min_size(100), (62, 26));
    // 108 dpi: an exact half (67.5) rounds up.
    assert_eq!(recommended_min_size(108), (68, 28));
}

#[test]
fn min_size_is_monotone_on_samples() {
    let mut prev = recommended_min_size(0);
    for dpi in 1..400u32 {
        let cur = recommended_min_size(dpi);
        assert!(cur.0 >= prev.0 && cur.1 >= prev.1);
        prev = cur;
    }
}

#[test]
fn detect_prefers_override_names() {
    let metrics = mock_metrics(true, false);
    let light = TuiTheme::detect(Some("LIGHT"), metrics, Palette::default(), false);
    assert!(!light.dark_mode);
    assert_eq!(light.text_main, Color::Rgb(12, 12, 12));
    let dark = TuiTheme::detect(Some("dark"), mock_metrics(false, true), Palette::default(), false);
    assert!(dark.dark_mode);
    assert!(!dark.high_contrast);
    assert_eq!(dark.text_main, Color::Rgb(204, 204, 204));
    let hc = TuiTheme::detect(Some("High-Contrast"), metrics, Palette::default(), false);
    assert_eq!(hc, TuiTheme::high_contrast(true));
    let nc = TuiTheme::detect(Some("no-color"), metrics, Palette::default(), false);
    assert_eq!(nc, TuiTheme::no_color(true));
    let other = TuiTheme::detect(Some("solarized"), metrics, Palette::default(), true);
    assert_eq!(other, TuiTheme::detect_impl(metrics, Palette::default(), true));
    let none = TuiTheme::detect(None, metrics, Palette::default(), false);
    assert_eq!(none, TuiTheme::detect_impl(metrics, Palette::default(), false));
}

#[test]
fn black_accent_falls_back_to_palette_cyan() {
    let mut metrics = mock_metrics(false, false);
    metrics.accent = Rgb(0, 0, 0);
    let theme = TuiTheme::from_metrics_and_palette(metrics, Palette::default());
    assert_eq!(theme.accent_primary, Color::Rgb(97, 214, 214));
    assert_eq!(theme.border_active, Color::Rgb(97, 214, 214));
    assert_eq!(theme.text_main, Color::Rgb(12, 12, 12));
    assert_eq!(theme.applied, Color::Rgb(22, 198, 12));
    assert_eq!(theme.missing, Color::Rgb(231, 72, 86));
}

#[test]
fn colour_words_decode() {
    assert_eq!(Rgb::from_bgr(0x00D7_7800), Rgb(0, 120, 215));
    assert_eq!(Rgb::from_argb(0xFF00_78D7), Rgb(0, 120, 215));
    assert_eq!(Rgb::from_bgr(0x0012_3456), Rgb(0x56, 0x34, 0x12));
    assert_eq!(Rgb::from_argb(0x0012_3456), Rgb(0x12, 0x34, 0x56));
}

#[test]
fn light_high_contrast_and_no_color_light() {
    let hc = TuiTheme::high_contrast(false);
    assert_eq!(hc.text_main, Color::Black);
    assert_eq!(hc.bg, Color::White);
    let nc = TuiTheme::no_color(false);
    assert_eq!(nc.text_dim, Color::Gray);
    assert_eq!(nc.text_main, Color::Black);
    assert_eq!(nc.bg, Color::Reset);
}
