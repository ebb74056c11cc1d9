//! Theme data: the theme mode, theme files with their color sets, the
//! default color configuration, and ANSI color-cube arithmetic.
//!
//! Colors are carried as `#RRGGBBAA` hex strings; turning them into the
//! renderer's color values is the presentation layer's business.

use vstd::prelude::*;
use crate::text::{spec_is_prefix, spec_is_suffix, starts_with_str, ends_with_str};

verus! {

/// Theme mode selection.
#[derive(Debug, Clone, Copy, PartialEq, Eq, Structural)]
pub enum ThemeMode {
    /// Always use the light theme.
    Light,
    /// Always use the dark theme.
    Dark,
    /// Follow the system dark-mode setting.
    System,
}

impl core::default::Default for ThemeMode {
    /// The mode used when none is configured: dark.
    fn default() -> (r: Self)
        ensures
            r == ThemeMode::Dark,
    {
        ThemeMode::Dark
    }
}

/// Theme colors: a simplified set from which the full palette is derived.
/// Bright and dim variants are auto-derived when not given.
#[derive(Debug, Clone)]
pub struct ThemeColors {
    // Core colors - most other colors derive from these.
    pub background: Option<String>,
    pub foreground: Option<String>,
    pub accent: Option<String>,
    pub border: Option<String>,
    // ANSI colors (8 base colors; bright variants auto-derived if absent).
    pub black: Option<String>,
    pub red: Option<String>,
    pub green: Option<String>,
    pub yellow: Option<String>,
    pub blue: Option<String>,
    pub magenta: Option<String>,
    pub cyan: Option<String>,
    pub white: Option<String>,
    pub bright_black: Option<String>,
    pub bright_red: Option<String>,
    pub bright_green: Option<String>,
    pub bright_yellow: Option<String>,
    pub bright_blue: Option<String>,
    pub bright_magenta: Option<String>,
    pub bright_cyan: Option<String>,
    pub bright_white: Option<String>,
    /// Cursor color; defaults to the accent color.
    pub cursor: Option<String>,
}

/// Whether every color of the set is unset.
pub open spec fn spec_theme_colors_unset(c: ThemeColors) -> bool {
    &&& c.background is None
    &&& c.foreground is None
    &&& c.accent is None
    &&& c.border is None
    &&& c.black is None
    &&& c.red is None
    &&& c.green is None
    &&& c.yellow is None
    &&& c.blue is None
    &&& c.magenta is None
    &&& c.cyan is None
    &&& c.white is None
    &&& c.bright_black is None
    &&& c.bright_red is None
    &&& c.bright_green is None
    &&& c.bright_yellow is None
    &&& c.bright_blue is None
    &&& c.bright_magenta is None
    &&& c.bright_cyan is None
    &&& c.bright_white is None
    &&& c.cursor is None
}

impl core::default::Default for ThemeColors {
    /// An empty color set: every color falls back to the built-in palette.
    fn default() -> (r: Self)
        ensures
            spec_theme_colors_unset(r),
    {
        ThemeColors {
            background: None,
            foreground: None,
            accent: None,
            border: None,
            black: None,
            red: None,
            green: None,
            yellow: None,
            blue: None,
            magenta: None,
            cyan: None,
            white: None,
            bright_black: None,
            bright_red: None,
            bright_green: None,
            bright_yellow: None,
            bright_blue: None,
            bright_magenta: None,
            bright_cyan: None,
            bright_white: None,
            cursor: None,
        }
    }
}

/// A theme file: a display name, the dark colors, and optional light
/// colors that fall back to the dark ones.
#[derive(Debug, Clone)]
pub struct ThemeFile {
    /// Display name of the theme.
    pub name: String,
    /// Dark theme colors (required).
    pub dark: ThemeColors,
    /// Light theme colors (optional; the dark colors serve when absent).
    pub light: Option<ThemeColors>,
}

/// The uppercase hex digit for a value below sixteen.
pub open spec fn spec_hex_digit(v: int) -> char {
    if v == 0 {
        '0'
    } else if v == 1 {
        '1'
    } else if v == 2 {
        '2'
    } else if v == 3 {
        '3'
    } else if v == 4 {
        '4'
    } else if v == 5 {
        '5'
    } else if v == 6 {
        '6'
    } else if v == 7 {
        '7'
    } else if v == 8 {
        '8'
    } else if v == 9 {
        '9'
    } else if v == 10 {
        'A'
    } else if v == 11 {
        'B'
    } else if v == 12 {
        'C'
    } else if v == 13 {
        'D'
    } else if v == 14 {
        'E'
    } else {
        'F'
    }
}

/// A byte as two uppercase hex digits.
pub open spec fn spec_hex_byte(b: u8) -> Seq<char> {
    seq![spec_hex_digit(b as int / 16), spec_hex_digit(b as int % 16)]
}

/// A color as `#RRGGBBAA`, uppercase.
pub open spec fn spec_hex_rgba(r: u8, g: u8, b: u8, a: u8) -> Seq<char> {
    seq!['#'] + spec_hex_byte(r) + spec_hex_byte(g) + spec_hex_byte(b) + spec_hex_byte(a)
}

/// The uppercase hex digit for a value below sixteen.
fn hex_digit_str(v: u8) -> (r: &'static str)
    requires
        v < 16,
    ensures
        r@ == seq![spec_hex_digit(v as int)],
{
    proof {
        reveal_strlit("0");
        reveal_strlit("1");
        reveal_strlit("2");
        reveal_strlit("3");
        reveal_strlit("4");
        reveal_strlit("5");
        reveal_strlit("6");
        reveal_strlit("7");
        reveal_strlit("8");
        reveal_strlit("9");
        reveal_strlit("A");
        reveal_strlit("B");
        reveal_strlit("C");
        reveal_strlit("D");
        reveal_strlit("E");
        reveal_strlit("F");
    }
    let r = if v == 0 {
        "0"
    } else if v == 1 {
        "1"
    } else if v == 2 {
        "2"
    } else if v == 3 {
        "3"
    } else if v == 4 {
        "4"
    } else if v == 5 {
        "5"
    } else if v == 6 {
        "6"
    } else if v == 7 {
        "7"
    } else if v == 8 {
        "8"
    } else if v == 9 {
        "9"
    } else if v == 10 {
        "A"
    } else if v == 11 {
        "B"
    } else if v == 12 {
        "C"
    } else if v == 13 {
        "D"
    } else if v == 14 {
        "E"
    } else {
        "F"
    };
    proof {
        assert(r@ =~= seq![spec_hex_digit(v as int)]);
    }
    r
}

/// The color (r, g, b, a) written as `#RRGGBBAA`, uppercase.
pub fn hex_rgba_string(r: u8, g: u8, b: u8, a: u8) -> (out: String)
    ensures
        out@ == spec_hex_rgba(r, g, b, a),
{
    proof {
        reveal_strlit("#");
    }
    let s = String::from_str("#").concat(hex_digit_str(r / 16)).concat(
        hex_digit_str(r % 16),
    ).concat(hex_digit_str(g / 16)).concat(hex_digit_str(g % 16)).concat(
        hex_digit_str(b / 16),
    ).concat(hex_digit_str(b % 16)).concat(hex_digit_str(a / 16)).concat(hex_digit_str(a % 16));
    proof {
        assert(s@ =~= spec_hex_rgba(r, g, b, a));
    }
    s
}

/// The color (r, g, b), fully opaque, written as `#RRGGBBAA`.
pub fn hex_rgb_string(r: u8, g: u8, b: u8) -> (out: String)
    ensures
        out@ == spec_hex_rgba(r, g, b, 255),
{
    hex_rgba_string(r, g, b, 255)
}

/// Theme color configuration, as it stands in the configuration file: each
/// color an optional `#RRGGBBAA` string.
#[derive(Debug, Clone)]
pub struct ThemeColorsConfig {
    // Terminal colors
    pub terminal_background: Option<String>,
    pub terminal_foreground: Option<String>,
    pub terminal_cursor: Option<String>,
    pub terminal_ansi_black: Option<String>,
    pub terminal_ansi_red: Option<String>,
    pub terminal_ansi_green: Option<String>,
    pub terminal_ansi_yellow: Option<String>,
    pub terminal_ansi_blue: Option<String>,
    pub terminal_ansi_magenta: Option<String>,
    pub terminal_ansi_cyan: Option<String>,
    pub terminal_ansi_white: Option<String>,
    pub terminal_ansi_bright_black: Option<String>,
    pub terminal_ansi_bright_red: Option<String>,
    pub terminal_ansi_bright_green: Option<String>,
    pub terminal_ansi_bright_yellow: Option<String>,
    pub terminal_ansi_bright_blue: Option<String>,
    pub terminal_ansi_bright_magenta: Option<String>,
    pub terminal_ansi_bright_cyan: Option<String>,
    pub terminal_ansi_bright_white: Option<String>,
    // UI colors
    pub background: Option<String>,
    pub surface_background: Option<String>,
    pub text: Option<String>,
    pub text_muted: Option<String>,
    pub border: Option<String>,
    pub tab_active_background: Option<String>,
    pub tab_inactive_background: Option<String>,
    pub title_bar_background: Option<String>,
}

/// The option holds exactly the hex form of the color (r, g, b), opaque.
pub open spec fn spec_is_hex_of(o: Option<String>, r: u8, g: u8, b: u8) -> bool {
    o matches Some(s) && s@ == spec_hex_rgba(r, g, b, 255)
}

impl core::default::Default for ThemeColorsConfig {
    /// The built-in palette, written out as hex: every color is populated.
    fn default() -> (r: Self)
        ensures
            spec_is_hex_of(r.terminal_background, 40, 44, 51),
            spec_is_hex_of(r.terminal_foreground, 220, 224, 229),
            spec_is_hex_of(r.terminal_cursor, 116, 173, 232),
            spec_is_hex_of(r.terminal_ansi_black, 40, 44, 51),
            spec_is_hex_of(r.terminal_ansi_red, 208, 114, 119),
            spec_is_hex_of(r.terminal_ansi_green, 161, 193, 129),
            spec_is_hex_of(r.terminal_ansi_yellow, 222, 193, 132),
            spec_is_hex_of(r.terminal_ansi_blue, 116, 173, 232),
            spec_is_hex_of(r.terminal_ansi_magenta, 180, 119, 207),
            spec_is_hex_of(r.terminal_ansi_cyan, 110, 180, 191),
            spec_is_hex_of(r.terminal_ansi_white, 220, 224, 229),
            spec_is_hex_of(r.terminal_ansi_bright_black, 82, 85, 97),
            spec_is_hex_of(r.terminal_ansi_bright_red, 103, 58, 60),
            spec_is_hex_of(r.terminal_ansi_bright_green, 79, 100, 65),
            spec_is_hex_of(r.terminal_ansi_bright_yellow, 229, 192, 123),
            spec_is_hex_of(r.terminal_ansi_bright_blue, 56, 83, 120),
            spec_is_hex_of(r.terminal_ansi_bright_magenta, 214, 180, 228),
            spec_is_hex_of(r.terminal_ansi_bright_cyan, 58, 86, 91),
            spec_is_hex_of(r.terminal_ansi_bright_white, 250, 250, 250),
            spec_is_hex_of(r.background, 40, 44, 51),
            spec_is_hex_of(r.surface_background, 36, 40, 59),
            spec_is_hex_of(r.text, 220, 224, 229),
            spec_is_hex_of(r.text_muted, 220, 224, 229),
            spec_is_hex_of(r.border, 70, 75, 87),
            spec_is_hex_of(r.tab_active_background, 40, 44, 51),
            spec_is_hex_of(r.tab_inactive_background, 43, 48, 57),
            spec_is_hex_of(r.title_bar_background, 47, 52, 62),
    {
        ThemeColorsConfig {
            terminal_background: Some(hex_rgb_string(40, 44, 51)),
            terminal_foreground: Some(hex_rgb_string(220, 224, 229)),
            terminal_cursor: Some(hex_rgb_string(116, 173, 232)),
            terminal_ansi_black: Some(hex_rgb_string(40, 44, 51)),
            terminal_ansi_red: Some(hex_rgb_string(208, 114, 119)),
            terminal_ansi_green: Some(hex_rgb_string(161, 193, 129)),
            terminal_ansi_yellow: Some(hex_rgb_string(222, 193, 132)),
            terminal_ansi_blue: Some(hex_rgb_string(116, 173, 232)),
            terminal_ansi_magenta: Some(hex_rgb_string(180, 119, 207)),
            terminal_ansi_cyan: Some(hex_rgb_string(110, 180, 191)),
            terminal_ansi_white: Some(hex_rgb_string(220, 224, 229)),
            terminal_ansi_bright_black: Some(hex_rgb_string(82, 85, 97)),
            terminal_ansi_bright_red: Some(hex_rgb_string(103, 58, 60)),
            terminal_ansi_bright_green: Some(hex_rgb_string(79, 100, 65)),
            terminal_ansi_bright_yellow: Some(hex_rgb_string(229, 192, 123)),
            terminal_ansi_bright_blue: Some(hex_rgb_string(56, 83, 120)),
            terminal_ansi_bright_magenta: Some(hex_rgb_string(214, 180, 228)),
            terminal_ansi_bright_cyan: Some(hex_rgb_string(58, 86, 91)),
            terminal_ansi_bright_white: Some(hex_rgb_string(250, 250, 250)),
            background: Some(hex_rgb_string(40, 44, 51)),
            surface_background: Some(hex_rgb_string(36, 40, 59)),
            text: Some(hex_rgb_string(220, 224, 229)),
            text_muted: Some(hex_rgb_string(220, 224, 229)),
            border: Some(hex_rgb_string(70, 75, 87)),
            tab_active_background: Some(hex_rgb_string(40, 44, 51)),
            tab_inactive_background: Some(hex_rgb_string(43, 48, 57)),
            title_bar_background: Some(hex_rgb_string(47, 52, 62)),
        }
    }
}

/// Generates the RGB channels in `[0, 5]` for an index into the 6x6x6 ANSI
/// color cube (indices 16 through 231), inverting the packing
/// `index = 16 + 36*r + 6*g + b`.
pub fn rgb_for_index(i: u8) -> (rgb: (u8, u8, u8))
    requires
        16 <= i <= 231,
    ensures
        ({
            let (r, g, b) = rgb;
            &&& r == (i - 16) / 36
            &&& g == ((i - 16) % 36) / 6
            &&& b == (i - 16) % 6
            &&& i == 16 + 36 * r + 6 * g + b
        }),
{
    let j = i - 16;
    let r = (j - (j % 36)) / 36;
    let g = ((j % 36) - (j % 6)) / 6;
    let b = (j % 36) % 6;
    (r, g, b)
}

/// The theme names among a list of embedded asset paths: the paths of the
/// form `themes/<name>.toml`, with the directory and extension stripped,
/// in order.
pub open spec fn spec_theme_names(paths: Seq<Seq<char>>) -> Seq<Seq<char>>
    decreases paths.len(),
{
    if paths.len() == 0 {
        Seq::empty()
    } else {
        let p = paths[0];
        let rest = spec_theme_names(paths.drop_first());
        if p.len() >= "themes/"@.len() + ".toml"@.len() && spec_is_prefix("themes/"@, p)
            && spec_is_suffix(".toml"@, p) {
            seq![p.subrange("themes/"@.len() as int, p.len() - ".toml"@.len())] + rest
        } else {
            rest
        }
    }
}

/// The embedded theme names among the given asset paths, as
/// [`spec_theme_names`] lists them.
pub fn list_themes(paths: &Vec<String>) -> (r: Vec<String>)
    ensures
        r@.len() == spec_theme_names(paths@.map_values(|p: String| p@)).len(),
        forall|q: int|
            0 <= q < r@.len() ==> (#[trigger] r@[q])@ == spec_theme_names(
                paths@.map_values(|p: String| p@),
            )[q],
{
    let ghost views = paths@.map_values(|p: String| p@);
    let n = paths.len();
    let mut out: Vec<String> = Vec::new();
    let mut i: usize = 0;
    while i < n
        invariant
            n == paths@.len(),
            i <= n,
            views == paths@.map_values(|p: String| p@),
            views.len() == n,
            forall|q: int| 0 <= q < n ==> views[q] == (#[trigger] paths@[q])@,
            out@.len() == spec_theme_names(views.take(i as int)).len(),
            forall|q: int|
                0 <= q < out@.len() ==> (#[trigger] out@[q])@ == spec_theme_names(
                    views.take(i as int),
                )[q],
        decreases n - i,
    {
        proof {
            reveal_with_fuel(spec_theme_names, 3);
            assert(views.take(i + 1) =~= views.take(i as int) + seq![views[i as int]]);
            lemma_theme_names_concat(views.take(i as int), seq![views[i as int]]);
            assert(seq![views[i as int]].drop_first() =~= Seq::<Seq<char>>::empty());
            reveal_strlit("themes/");
            reveal_strlit(".toml");
        }
        let p = paths[i].as_str();
        if p.unicode_len() >= 12 && starts_with_str(p, "themes/") && ends_with_str(p, ".toml") {
            let name = p.substring_char(7, p.unicode_len() - 5);
            out.push(String::from_str(name));
        }
        i = i + 1;
    }
    proof {
        assert(views.take(n as int) =~= views);
    }
    out
}

/// Reading theme names distributes over concatenation of path lists.
proof fn lemma_theme_names_concat(l1: Seq<Seq<char>>, l2: Seq<Seq<char>>)
    ensures
        spec_theme_names(l1 + l2) == spec_theme_names(l1) + spec_theme_names(l2),
    decreases l1.len(),
{
    if l1.len() == 0 {
        assert(l1 + l2 =~= l2);
        assert(spec_theme_names(l1) + spec_theme_names(l2) =~= spec_theme_names(l2));
    } else {
        assert((l1 + l2).drop_first() =~= l1.drop_first() + l2);
        lemma_theme_names_concat(l1.drop_first(), l2);
        assert(spec_theme_names(l1 + l2) =~= spec_theme_names(l1) + spec_theme_names(l2));
    }
}

} // verus!
