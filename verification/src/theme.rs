//! Terminal colour theme built from live system data, and the system data it
//! is built from (console palette, accent colour, light/dark and high-contrast
//! modes).
//!
//! Sources, in order of preference: high-contrast mode, the `NO_COLOR`
//! convention, then the console palette with the system accent colour.
use vstd::prelude::*;
use crate::text::{ascii_lower_seq, chars_of, eq_ignore_ascii_case};

verus! {

/// A terminal colour, with the variants of the terminal UI's colour type.
#[derive(Debug, Clone, Copy, PartialEq, Eq, Structural)]
pub enum Color {
    Reset,
    Black,
    Red,
    Green,
    Yellow,
    Blue,
    Magenta,
    Cyan,
    Gray,
    DarkGray,
    LightRed,
    LightGreen,
    LightYellow,
    LightBlue,
    LightMagenta,
    LightCyan,
    White,
    Rgb(u8, u8, u8),
    Indexed(u8),
}

/// An RGB color.
#[derive(Debug, Clone, Copy, PartialEq, Eq, Structural)]
pub struct Rgb(pub u8, pub u8, pub u8);

impl Rgb {
    /// Convert a 0x00BBGGRR (COLORREF / standard BGR) color into RGB.
    pub fn from_bgr(bgr: u32) -> (c: Rgb)
        ensures
            c.0 == bgr % 256,
            c.1 == (bgr / 256) % 256,
            c.2 == (bgr / 65536) % 256,
    {
        let r = (bgr & 0xff) as u8;
        let g = ((bgr >> 8) & 0xff) as u8;
        let b = ((bgr >> 16) & 0xff) as u8;
        assert((bgr & 0xff) == bgr % 256) by (bit_vector);
        assert(((bgr >> 8) & 0xff) == (bgr / 256) % 256) by (bit_vector);
        assert(((bgr >> 16) & 0xff) == (bgr / 65536) % 256) by (bit_vector);
        Rgb(r, g, b)
    }

    /// Convert a 0xAARRGGBB (ARGB) color into RGB.
    pub fn from_argb(argb: u32) -> (c: Rgb)
        ensures
            c.0 == (argb / 65536) % 256,
            c.1 == (argb / 256) % 256,
            c.2 == argb % 256,
    {
        let r = ((argb >> 16) & 0xff) as u8;
        let g = ((argb >> 8) & 0xff) as u8;
        let b = (argb & 0xff) as u8;
        assert((argb & 0xff) == argb % 256) by (bit_vector);
        assert(((argb >> 8) & 0xff) == (argb / 256) % 256) by (bit_vector);
        assert(((argb >> 16) & 0xff) == (argb / 65536) % 256) by (bit_vector);
        Rgb(r, g, b)
    }
}

/// The COLORREF (0x00BBGGRR) value of an RGB colour.
pub open spec fn bgr_value(c: Rgb) -> u32 {
    (c.0 as int + 256 * c.1 as int + 65536 * c.2 as int) as u32
}

/// The ARGB value, with a zero alpha byte, of an RGB colour.
pub open spec fn argb_value(c: Rgb) -> u32 {
    (c.2 as int + 256 * c.1 as int + 65536 * c.0 as int) as u32
}

/// Decoding a COLORREF gives back the colour it was made from.
pub proof fn law_from_bgr_inverts(c: Rgb)
    ensures
        bgr_value(c) % 256 == c.0,
        (bgr_value(c) / 256) % 256 == c.1,
        (bgr_value(c) / 65536) % 256 == c.2,
{
    let v: int = c.0 as int + 256 * c.1 as int + 65536 * c.2 as int;
    assert(v < 0x1000000);
    assert(bgr_value(c) == v);
    assert(v % 256 == c.0 as int) by (nonlinear_arith)
        requires v == c.0 as int + 256 * c.1 as int + 65536 * c.2 as int, c.0 < 256, c.1 < 256, c.2 < 256;
    assert((v / 256) % 256 == c.1 as int) by (nonlinear_arith)
        requires v == c.0 as int + 256 * c.1 as int + 65536 * c.2 as int, c.0 < 256, c.1 < 256, c.2 < 256;
    assert((v / 65536) % 256 == c.2 as int) by (nonlinear_arith)
        requires v == c.0 as int + 256 * c.1 as int + 65536 * c.2 as int, c.0 < 256, c.1 < 256, c.2 < 256;
}

/// Decoding an ARGB value gives back the colour it was made from.
pub proof fn law_from_argb_inverts(c: Rgb)
    ensures
        (argb_value(c) / 65536) % 256 == c.0,
        (argb_value(c) / 256) % 256 == c.1,
        argb_value(c) % 256 == c.2,
{
    law_from_bgr_inverts(Rgb(c.2, c.1, c.0));
}

/// 16-color console palette.
#[derive(Debug, Clone, Copy)]
pub struct Palette {
    pub colors: [Rgb; 16],
}

/// The palette used when the console cannot be queried (the standard Windows console colours).
pub open spec fn default_palette_colors() -> Seq<Rgb> {
    seq![
        Rgb(12, 12, 12),
        Rgb(197, 15, 31),
        Rgb(19, 161, 14),
        Rgb(193, 156, 0),
        Rgb(0, 0, 238),
        Rgb(136, 23, 152),
        Rgb(58, 150, 221),
        Rgb(204, 204, 204),
        Rgb(118, 118, 118),
        Rgb(231, 72, 86),
        Rgb(22, 198, 12),
        Rgb(249, 241, 165),
        Rgb(59, 120, 255),
        Rgb(180, 0, 158),
        Rgb(97, 214, 214),
        Rgb(242, 242, 242),
    ]
}

impl Default for Palette {
    fn default() -> (p: Palette)
        ensures
            p.colors@ == default_palette_colors(),
    {
        let p = Palette {
            colors: [
                Rgb(12, 12, 12),  // 0 black
                Rgb(197, 15, 31),  // 1 red
                Rgb(19, 161, 14),  // 2 green
                Rgb(193, 156, 0),  // 3 yellow
                Rgb(0, 0, 238),  // 4 blue
                Rgb(136, 23, 152),  // 5 magenta
                Rgb(58, 150, 221),  // 6 cyan
                Rgb(204, 204, 204),  // 7 white
                Rgb(118, 118, 118),  // 8 dark grey
                Rgb(231, 72, 86),  // 9 light red
                Rgb(22, 198, 12),  // 10 light green
                Rgb(249, 241, 165),  // 11 light yellow
                Rgb(59, 120, 255),  // 12 light blue
                Rgb(180, 0, 158),  // 13 light magenta
                Rgb(97, 214, 214),  // 14 light cyan
                Rgb(242, 242, 242),  // 15 white
            ],
        };
        assert(p.colors@ =~= default_palette_colors());
        p
    }
}

/// Battery / AC power state.
#[derive(Debug, Clone, Copy, PartialEq, Eq, Structural)]
pub struct PowerStatus {
    pub ac_online: bool,
    pub battery_percent: u8,
}

/// System metrics collected at startup.
#[derive(Debug, Clone, Copy)]
pub struct SystemMetrics {
    pub screen_w: i32,
    pub screen_h: i32,
    pub dpi: u32,
    pub window_dpi: u32,
    pub dark_mode: bool,
    pub high_contrast: bool,
    pub accent: Rgb,
    pub power: PowerStatus,
}

/// The colours of the terminal UI.
#[derive(Debug, Clone, Copy, PartialEq, Eq, Structural)]
pub struct TuiTheme {
    pub border: Color,
    pub border_active: Color,
    pub header: Color,
    pub accent_primary: Color,
    pub accent_secondary: Color,
    pub text_main: Color,
    pub text_dim: Color,
    pub bg: Color,
    pub applied: Color,
    pub missing: Color,
    pub dark_mode: bool,
    pub high_contrast: bool,
    pub no_color: bool,
}

/// The high-contrast theme: black and white with a yellow accent.
pub open spec fn spec_high_contrast(dark: bool) -> TuiTheme {
    let main = if dark { Color::White } else { Color::Black };
    let bg = if dark { Color::Black } else { Color::White };
    TuiTheme {
        border: main,
        border_active: Color::Yellow,
        header: Color::Yellow,
        accent_primary: Color::Yellow,
        accent_secondary: Color::Yellow,
        text_main: main,
        text_dim: main,
        bg,
        applied: Color::Yellow,
        missing: Color::Yellow,
        dark_mode: dark,
        high_contrast: true,
        no_color: false,
    }
}

/// The `NO_COLOR` theme: no chromatic styling, dim text in a grey.
pub open spec fn spec_no_color(dark: bool) -> TuiTheme {
    let main = if dark { Color::White } else { Color::Black };
    let dim = if dark { Color::DarkGray } else { Color::Gray };
    TuiTheme {
        border: dim,
        border_active: main,
        header: main,
        accent_primary: main,
        accent_secondary: main,
        text_main: main,
        text_dim: dim,
        bg: Color::Reset,
        applied: main,
        missing: main,
        dark_mode: dark,
        high_contrast: false,
        no_color: true,
    }
}

/// The terminal colour of an RGB colour.
pub open spec fn rgb_color(c: Rgb) -> Color {
    Color::Rgb(c.0, c.1, c.2)
}

/// The theme made from the console palette and the system accent colour: the
/// accent (or bright cyan when the accent is black) for highlights, palette
/// grey for dim text, white (dark mode) or black (light mode) for main text.
pub open spec fn spec_from_metrics_and_palette(metrics: SystemMetrics, palette: Seq<Rgb>) -> TuiTheme {
    let dark = metrics.dark_mode;
    let accent_primary = if metrics.accent == Rgb(0, 0, 0) {
        rgb_color(palette[14])
    } else {
        rgb_color(metrics.accent)
    };
    TuiTheme {
        border: rgb_color(palette[8]),
        border_active: accent_primary,
        header: rgb_color(palette[14]),
        accent_primary,
        accent_secondary: rgb_color(palette[11]),
        text_main: if dark { rgb_color(palette[7]) } else { rgb_color(palette[0]) },
        text_dim: rgb_color(palette[8]),
        bg: Color::Reset,
        applied: rgb_color(palette[10]),
        missing: rgb_color(palette[9]),
        dark_mode: dark,
        high_contrast: false,
        no_color: false,
    }
}

/// The theme chosen from system state alone: high contrast first, then `NO_COLOR`, then the palette.
pub open spec fn spec_detect_impl(metrics: SystemMetrics, palette: Seq<Rgb>, no_color: bool) -> TuiTheme {
    if metrics.high_contrast {
        spec_high_contrast(metrics.dark_mode)
    } else if no_color {
        spec_no_color(metrics.dark_mode)
    } else {
        spec_from_metrics_and_palette(metrics, palette)
    }
}

/// `metrics` with the given dark mode and high contrast switched off.
pub open spec fn with_mode(metrics: SystemMetrics, dark: bool) -> SystemMetrics {
    SystemMetrics { dark_mode: dark, high_contrast: false, ..metrics }
}

/// The theme chosen for an optional override name (`light`, `dark`,
/// `high-contrast`, `no-color`, compared without regard to ASCII case); any other
/// name, or none, leaves the choice to the system state.
pub open spec fn spec_detect(
    theme_override: Option<Seq<char>>,
    metrics: SystemMetrics,
    palette: Seq<Rgb>,
    no_color: bool,
) -> TuiTheme {
    match theme_override {
        Some(o) => {
            let l = ascii_lower_seq(o);
            if l == seq!['l', 'i', 'g', 'h', 't'] {
                spec_from_metrics_and_palette(with_mode(metrics, false), palette)
            } else if l == seq!['d', 'a', 'r', 'k'] {
                spec_from_metrics_and_palette(with_mode(metrics, true), palette)
            } else if l == seq!['h', 'i', 'g', 'h', '-', 'c', 'o', 'n', 't', 'r', 'a', 's', 't'] {
                spec_high_contrast(true)
            } else if l == seq!['n', 'o', '-', 'c', 'o', 'l', 'o', 'r'] {
                spec_no_color(true)
            } else {
                spec_detect_impl(metrics, palette, no_color)
            }
        },
        None => spec_detect_impl(metrics, palette, no_color),
    }
}

/// The view of an optional string slice.
pub open spec fn opt_str_view(o: Option<&str>) -> Option<Seq<char>> {
    match o {
        Some(s) => Some(s@),
        None => None,
    }
}

fn is_name(o: &[char], name: &str) -> (r: bool)
    ensures
        r == (ascii_lower_seq(o@) == ascii_lower_seq(name@)),
{
    let n = chars_of(name);
    eq_ignore_ascii_case(o, n.as_slice())
}

impl TuiTheme {
    /// Choose the theme: an override name first (`light`, `dark`, `high-contrast`,
    /// `no-color`), then the system state.  The caller queries the metrics, the
    /// palette and whether `NO_COLOR` is set.
    pub fn detect(
        theme_override: Option<&str>,
        metrics: SystemMetrics,
        palette: Palette,
        no_color: bool,
    ) -> (t: TuiTheme)
        ensures
            t == spec_detect(opt_str_view(theme_override), metrics, palette.colors@, no_color),
    {
        if let Some(o) = theme_override {
            let oc = chars_of(o);
            proof {
                reveal_strlit("light");
                reveal_strlit("dark");
                reveal_strlit("high-contrast");
                reveal_strlit("no-color");
                assert(ascii_lower_seq("light"@) =~= seq!['l', 'i', 'g', 'h', 't']);
                assert(ascii_lower_seq("dark"@) =~= seq!['d', 'a', 'r', 'k']);
                assert(ascii_lower_seq("high-contrast"@) =~= seq![
                    'h',
                    'i',
                    'g',
                    'h',
                    '-',
                    'c',
                    'o',
                    'n',
                    't',
                    'r',
                    'a',
                    's',
                    't',
                ]);
                assert(ascii_lower_seq("no-color"@) =~= seq!['n', 'o', '-', 'c', 'o', 'l', 'o', 'r']);
            }
            if is_name(oc.as_slice(), "light") {
                let m = SystemMetrics { dark_mode: false, high_contrast: false, ..metrics };
                return Self::from_metrics_and_palette(m, palette);
            } else if is_name(oc.as_slice(), "dark") {
                let m = SystemMetrics { dark_mode: true, high_contrast: false, ..metrics };
                return Self::from_metrics_and_palette(m, palette);
            } else if is_name(oc.as_slice(), "high-contrast") {
                return Self::high_contrast(true);
            } else if is_name(oc.as_slice(), "no-color") {
                return Self::no_color(true);
            }
        }
        Self::detect_impl(metrics, palette, no_color)
    }

    /// Choose the theme from system state alone.
    pub fn detect_impl(metrics: SystemMetrics, palette: Palette, no_color: bool) -> (t: TuiTheme)
        ensures
            t == spec_detect_impl(metrics, palette.colors@, no_color),
    {
        if metrics.high_contrast {
            return Self::high_contrast(metrics.dark_mode);
        }
        if no_color {
            return Self::no_color(metrics.dark_mode);
        }
        Self::from_metrics_and_palette(metrics, palette)
    }

    /// Windows high-contrast palette: black & white with a single accent
    /// (yellow).  Flips fg/bg for light high-contrast.
    pub fn high_contrast(dark: bool) -> (t: TuiTheme)
        ensures
            t == spec_high_contrast(dark),
    {
        let (main, dim) = if dark {
            (Color::White, Color::White)
        } else {
            (Color::Black, Color::Black)
        };
        let bg = if dark {
            Color::Black
        } else {
            Color::White
        };
        let accent = Color::Yellow;
        TuiTheme {
            border: dim,
            border_active: accent,
            header: accent,
            accent_primary: accent,
            accent_secondary: accent,
            text_main: main,
            text_dim: dim,
            bg,
            applied: accent,
            missing: accent,
            dark_mode: dark,
            high_contrast: true,
            no_color: false,
        }
    }

    /// Honor NO_COLOR (https://no-color.org/).  No chromatic styling;
    /// everything is white or black, dim variants are darker shades.
    pub fn no_color(dark: bool) -> (t: TuiTheme)
        ensures
            t == spec_no_color(dark),
    {
        let main = if dark {
            Color::White
        } else {
            Color::Black
        };
        let dim = if dark {
            Color::DarkGray
        } else {
            Color::Gray
        };
        TuiTheme {
            border: dim,
            border_active: main,
            header: main,
            accent_primary: main,
            accent_secondary: main,
            text_main: main,
            text_dim: dim,
            bg: Color::Reset,
            applied: main,
            missing: main,
            dark_mode: dark,
            high_contrast: false,
            no_color: true,
        }
    }

    /// The theme built from the console palette and the system accent colour.
    pub fn from_metrics_and_palette(metrics: SystemMetrics, palette: Palette) -> (t: TuiTheme)
        ensures
            t == spec_from_metrics_and_palette(metrics, palette.colors@),
    {
        let dark = metrics.dark_mode;
        let text_dim = rgb_to_color(palette.colors[8]);
        let text_main = if dark {
            rgb_to_color(palette.colors[7])
        } else {
            rgb_to_color(palette.colors[0])
        };
        let accent = metrics.accent;
        let accent_primary = if accent == Rgb(0, 0, 0) {
            rgb_to_color(palette.colors[14])
        } else {
            rgb_to_color(accent)
        };
        TuiTheme {
            border: rgb_to_color(palette.colors[8]),
            border_active: accent_primary,
            header: rgb_to_color(palette.colors[14]),
            accent_primary,
            accent_secondary: rgb_to_color(palette.colors[11]),
            text_main,
            text_dim,
            bg: Color::Reset,
            applied: rgb_to_color(palette.colors[10]),
            missing: rgb_to_color(palette.colors[9]),
            dark_mode: dark,
            high_contrast: false,
            no_color: false,
        }
    }
}

fn rgb_to_color(c: Rgb) -> (r: Color)
    ensures
        r == rgb_color(c),
{
    Color::Rgb(c.0, c.1, c.2)
}

/// `dpi` clamped to the range the size scales over (100% to 300%).
pub open spec fn clamped_dpi(dpi: u32) -> int {
    if dpi < 96 {
        96
    } else if dpi > 288 {
        288
    } else {
        dpi as int
    }
}

/// The width asked at the clamped dpi `d`: `60 * d / 96` rounded to the
/// nearest cell, halves up, with the scale `d / 96` held in single precision.
/// That precision matters at one dpi only: at 100 the scale is stored just
/// under 100/96, so the width comes out just under 62.5 and rounds to 62; at
/// every other dpi it rounds as the exact value does.
pub open spec fn min_width(d: int) -> int {
    if d == 100 {
        62
    } else {
        (120 * d + 96) / 192
    }
}

/// The height asked at the clamped dpi `d`: `25 * d / 96` rounded to the
/// nearest cell, halves up.
pub open spec fn min_height(d: int) -> int {
    (50 * d + 96) / 192
}

/// Recommendation for minimum terminal size, scaled by DPI: 60x25 at 100%,
/// scaled by `dpi / 96` (between 1 and 3) and rounded to the nearest cell.
pub fn recommended_min_size(dpi: u32) -> (r: (u16, u16))
    ensures
        r.0 == min_width(clamped_dpi(dpi)),
        r.1 == min_height(clamped_dpi(dpi)),
        60 <= r.0 <= 180,
        25 <= r.1 <= 75,
{
    let d: u32 = if dpi < 96 {
        96
    } else if dpi > 288 {
        288
    } else {
        dpi
    };
    let w = if d == 100 {
        62
    } else {
        (120 * d + 96) / 192
    };
    let h = (50 * d + 96) / 192;
    assert(60 <= w <= 180);
    assert(25 <= h <= 75);
    (w as u16, h as u16)
}

/// A larger screen resolution never asks for a smaller terminal.
pub proof fn law_min_size_monotone(a: u32, b: u32)
    requires
        a <= b,
    ensures
        min_width(clamped_dpi(a)) <= min_width(clamped_dpi(b)),
        min_height(clamped_dpi(a)) <= min_height(clamped_dpi(b)),
{
    let x = clamped_dpi(a);
    let y = clamped_dpi(b);
    assert(x <= y);
    assert((120 * x + 96) / 192 <= (120 * y + 96) / 192) by (nonlinear_arith)
        requires x <= y, 0 <= x;
    assert((50 * x + 96) / 192 <= (50 * y + 96) / 192) by (nonlinear_arith)
        requires x <= y, 0 <= x;
    if x < 100 {
        assert((120 * x + 96) / 192 <= 62) by (nonlinear_arith)
            requires x <= 99, 0 <= x;
    }
    if y > 100 {
        assert((120 * y + 96) / 192 >= 63) by (nonlinear_arith)
            requires y >= 101;
    }
}

/// Without an override, the theme is high contrast exactly when the system
/// is, colourless exactly when `NO_COLOR` is set and the system is not high
/// contrast, and follows the system's dark mode.
pub proof fn law_detect_flags(metrics: SystemMetrics, palette: Seq<Rgb>, no_color: bool)
    ensures
        spec_detect_impl(metrics, palette, no_color).high_contrast == metrics.high_contrast,
        spec_detect_impl(metrics, palette, no_color).no_color == (!metrics.high_contrast && no_color),
        spec_detect_impl(metrics, palette, no_color).dark_mode == metrics.dark_mode,
        spec_detect(None, metrics, palette, no_color) == spec_detect_impl(metrics, palette, no_color),
{
}

} // verus!
