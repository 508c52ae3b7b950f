//! Color themes: the built-in dark and light themes, 256-color
//! quantization, and themes built from a user's theme configuration.
use vstd::prelude::*;
use crate::text::{chars_of, eq_str, find_str, is_hex_digit};

verus! {

/// A terminal color.
#[derive(Clone, Copy, Debug, PartialEq, Eq, Structural)]
pub enum Color {
    /// The terminal's own default.
    Reset,
    /// An index of the 256-color palette.
    Indexed(u8),
    /// A truecolor value.
    Rgb(u8, u8, u8),
}

// ---------------------------------------------------------------------------
// Quantization
// ---------------------------------------------------------------------------

/// The level of one channel on the 6-step axis of the color cube.
pub open spec fn cube_level(c: u8) -> u8 {
    if c < 48 {
        0
    } else if c < 115 {
        1
    } else if c < 155 {
        2
    } else if c < 195 {
        3
    } else if c < 235 {
        4
    } else {
        5
    }
}

/// The step of a gray from 8 to 238 on the 24-level ramp, at most 23.
pub open spec fn gray_step(r: u8) -> int {
    let s = (r - 8) * 24 / 230;
    if s > 23 {
        23
    } else {
        s
    }
}

/// The nearest 256-palette color: grays from 8 to 238 go to the 24-step
/// ramp 232-255 (black below 8 and white above 238 to the cube's corners),
/// other colors to the 6x6x6 cube.
pub open spec fn quantize_spec(r: u8, g: u8, b: u8) -> Color {
    if r == g && g == b {
        if r < 8 {
            Color::Indexed(16)
        } else if r > 238 {
            Color::Indexed(231)
        } else {
            Color::Indexed((232 + gray_step(r)) as u8)
        }
    } else {
        Color::Indexed((16 + 36 * cube_level(r) + 6 * cube_level(g) + cube_level(b)) as u8)
    }
}

fn cube_level_exec(c: u8) -> (r: u8)
    ensures
        r == cube_level(c),
{
    if c < 48 {
        0
    } else if c < 115 {
        1
    } else if c < 155 {
        2
    } else if c < 195 {
        3
    } else if c < 235 {
        4
    } else {
        5
    }
}

/// Maps an RGB color to the nearest color of the 256-color palette.
pub fn quantize_to_256(r: u8, g: u8, b: u8) -> (c: Color)
    ensures
        c == quantize_spec(r, g, b),
        c matches Color::Indexed(i) && 16 <= i,
{
    if r == g && g == b {
        if r < 8 {
            return Color::Indexed(16);
        } else if r > 238 {
            return Color::Indexed(231);
        }
        let raw: u16 = (r as u16 - 8) * 24 / 230;
        assert(raw <= 24) by (nonlinear_arith)
            requires
                raw == (r - 8) * 24 / 230,
                8 <= r <= 238,
        ;
        let step: u16 = if raw > 23 {
            23
        } else {
            raw
        };
        return Color::Indexed(232 + step as u8);
    }
    let qr = cube_level_exec(r);
    let qg = cube_level_exec(g);
    let qb = cube_level_exec(b);
    Color::Indexed(16 + 36 * qr + 6 * qg + qb)
}

/// A color as the terminal shows it: truecolor as is, else quantized.
pub open spec fn shown(tc: bool, r: u8, g: u8, b: u8) -> Color {
    if tc {
        Color::Rgb(r, g, b)
    } else {
        quantize_spec(r, g, b)
    }
}

fn rgb(tc: bool, r: u8, g: u8, b: u8) -> (c: Color)
    ensures
        c == shown(tc, r, g, b),
{
    if tc {
        Color::Rgb(r, g, b)
    } else {
        quantize_to_256(r, g, b)
    }
}

// ---------------------------------------------------------------------------
// Themes
// ---------------------------------------------------------------------------

/// The colors, text decorations, layout and glyphs of the interface.
#[derive(Clone, Debug)]
pub struct Theme {
    pub bg: Color,
    pub surface: Color,
    pub fg: Color,
    pub accent_primary: Color,
    pub accent_secondary: Color,
    pub dim: Color,
    pub divider: Color,
    pub selected: Color,
    pub focus_bg: Color,
    pub focus_fg: Color,
    pub title: Color,
    pub meta: Color,
    pub key: Color,
    pub tag: Color,
    pub udc: Color,
    pub error: Color,
    pub warning: Color,
    pub code: Color,
    pub success: Color,
    pub search_bg: Color,
    pub force_bg: bool,
    pub sidebar_right: bool,
    pub search_bottom: bool,
    pub title_bold: bool,
    pub title_underline: bool,
    pub header_bold: bool,
    pub header_underline: bool,
    pub border_type: String,
    pub show_border_top: bool,
    pub show_border_bottom: bool,
    pub show_border_left: bool,
    pub show_border_right: bool,
    pub active_pointer: String,
    pub bullet_marker: String,
    pub radio_checked: String,
    pub radio_unchecked: String,
    pub progress_filled: String,
    pub progress_unfilled: String,
    pub scrollbar_thumb: String,
    pub scrollbar_track: String,
    pub unread_marker: String,
    pub unread_color: Color,
    pub reading_marker: String,
    pub reading_color: Color,
    pub read_marker: String,
    pub read_color: Color,
}

impl Theme {
    /// The glyphs and layout shared by the built-in themes.
    pub open spec fn has_builtin_glyphs(&self) -> bool {
        &&& self.force_bg
        &&& !self.sidebar_right
        &&& !self.search_bottom
        &&& self.title_bold
        &&& !self.title_underline
        &&& self.header_bold
        &&& !self.header_underline
        &&& self.border_type@ == "plain"@
        &&& self.show_border_top && self.show_border_bottom
        &&& self.show_border_left && self.show_border_right
        &&& self.active_pointer@ == "►"@
        &&& self.bullet_marker@ == "▸"@
        &&& self.radio_checked@ == "●"@
        &&& self.radio_unchecked@ == "○"@
        &&& self.progress_filled@ == "━"@
        &&& self.progress_unfilled@ == "─"@
        &&& self.scrollbar_thumb@ == "█"@
        &&& self.scrollbar_track@ == "░"@
        &&& self.unread_marker@ == "○"@
        &&& self.reading_marker@ == "◐"@
        &&& self.read_marker@ == "●"@
    }

    /// The dark theme (the default).
    pub fn dark(tc: bool) -> (t: Theme)
        ensures
            t.has_builtin_glyphs(),
            t.bg == shown(tc, 22, 22, 22),
            t.surface == shown(tc, 28, 28, 28),
            t.fg == shown(tc, 200, 200, 200),
            t.accent_primary == shown(tc, 107, 155, 210),
            t.accent_secondary == shown(tc, 184, 169, 212),
            t.dim == shown(tc, 128, 128, 128),
            t.divider == shown(tc, 50, 50, 50),
            t.selected == shown(tc, 126, 184, 138),
            t.focus_bg == shown(tc, 38, 38, 38),
            t.focus_fg == shown(tc, 200, 200, 200),
            t.title == shown(tc, 200, 200, 200),
            t.meta == shown(tc, 128, 128, 128),
            t.key == shown(tc, 126, 184, 138),
            t.tag == shown(tc, 184, 169, 212),
            t.udc == shown(tc, 107, 155, 210),
            t.error == shown(tc, 200, 140, 150),
            t.warning == shown(tc, 212, 166, 87),
            t.code == shown(tc, 107, 155, 210),
            t.success == shown(tc, 126, 184, 138),
            t.search_bg == shown(tc, 28, 28, 28),
            t.unread_color == shown(tc, 128, 128, 128),
            t.reading_color == shown(tc, 212, 166, 87),
            t.read_color == shown(tc, 126, 184, 138),
    {
        Theme {
            bg: rgb(tc, 22, 22, 22),
            surface: rgb(tc, 28, 28, 28),
            fg: rgb(tc, 200, 200, 200),
            accent_primary: rgb(tc, 107, 155, 210),
            accent_secondary: rgb(tc, 184, 169, 212),
            dim: rgb(tc, 128, 128, 128),
            divider: rgb(tc, 50, 50, 50),
            selected: rgb(tc, 126, 184, 138),
            focus_bg: rgb(tc, 38, 38, 38),
            focus_fg: rgb(tc, 200, 200, 200),
            title: rgb(tc, 200, 200, 200),
            meta: rgb(tc, 128, 128, 128),
            key: rgb(tc, 126, 184, 138),
            tag: rgb(tc, 184, 169, 212),
            udc: rgb(tc, 107, 155, 210),
            error: rgb(tc, 200, 140, 150),
            warning: rgb(tc, 212, 166, 87),
            code: rgb(tc, 107, 155, 210),
            success: rgb(tc, 126, 184, 138),
            search_bg: rgb(tc, 28, 28, 28),
            force_bg: true,
            sidebar_right: false,
            search_bottom: false,
            title_bold: true,
            title_underline: false,
            header_bold: true,
            header_underline: false,
            border_type: "plain".to_string(),
            show_border_top: true,
            show_border_bottom: true,
            show_border_left: true,
            show_border_right: true,
            active_pointer: "►".to_string(),
            bullet_marker: "▸".to_string(),
            radio_checked: "●".to_string(),
            radio_unchecked: "○".to_string(),
            progress_filled: "━".to_string(),
            progress_unfilled: "─".to_string(),
            scrollbar_thumb: "█".to_string(),
            scrollbar_track: "░".to_string(),
            unread_marker: "○".to_string(),
            unread_color: rgb(tc, 128, 128, 128),
            reading_marker: "◐".to_string(),
            reading_color: rgb(tc, 212, 166, 87),
            read_marker: "●".to_string(),
            read_color: rgb(tc, 126, 184, 138),
        }
    }

    /// The light theme.
    pub fn light(tc: bool) -> (t: Theme)
        ensures
            t.has_builtin_glyphs(),
            t.bg == shown(tc, 245, 245, 245),
            t.surface == shown(tc, 235, 235, 235),
            t.fg == shown(tc, 40, 40, 40),
            t.accent_primary == shown(tc, 30, 80, 150),
            t.accent_secondary == shown(tc, 100, 50, 150),
            t.dim == shown(tc, 120, 120, 120),
            t.divider == shown(tc, 200, 200, 200),
            t.selected == shown(tc, 40, 120, 60),
            t.focus_bg == shown(tc, 220, 220, 220),
            t.focus_fg == shown(tc, 20, 20, 20),
            t.title == shown(tc, 40, 40, 40),
            t.meta == shown(tc, 110, 110, 110),
            t.key == shown(tc, 40, 120, 60),
            t.tag == shown(tc, 100, 50, 150),
            t.udc == shown(tc, 30, 80, 150),
            t.error == shown(tc, 180, 40, 40),
            t.warning == shown(tc, 180, 100, 20),
            t.code == shown(tc, 30, 80, 150),
            t.success == shown(tc, 40, 120, 60),
            t.search_bg == shown(tc, 230, 230, 230),
            t.unread_color == shown(tc, 120, 120, 120),
            t.reading_color == shown(tc, 180, 100, 20),
            t.read_color == shown(tc, 40, 120, 60),
    {
        Theme {
            bg: rgb(tc, 245, 245, 245),
            surface: rgb(tc, 235, 235, 235),
            fg: rgb(tc, 40, 40, 40),
            accent_primary: rgb(tc, 30, 80, 150),
            accent_secondary: rgb(tc, 100, 50, 150),
            dim: rgb(tc, 120, 120, 120),
            divider: rgb(tc, 200, 200, 200),
            selected: rgb(tc, 40, 120, 60),
            focus_bg: rgb(tc, 220, 220, 220),
            focus_fg: rgb(tc, 20, 20, 20),
            title: rgb(tc, 40, 40, 40),
            meta: rgb(tc, 110, 110, 110),
            key: rgb(tc, 40, 120, 60),
            tag: rgb(tc, 100, 50, 150),
            udc: rgb(tc, 30, 80, 150),
            error: rgb(tc, 180, 40, 40),
            warning: rgb(tc, 180, 100, 20),
            code: rgb(tc, 30, 80, 150),
            success: rgb(tc, 40, 120, 60),
            search_bg: rgb(tc, 230, 230, 230),
            force_bg: true,
            sidebar_right: false,
            search_bottom: false,
            title_bold: true,
            title_underline: false,
            header_bold: true,
            header_underline: false,
            border_type: "plain".to_string(),
            show_border_top: true,
            show_border_bottom: true,
            show_border_left: true,
            show_border_right: true,
            active_pointer: "►".to_string(),
            bullet_marker: "▸".to_string(),
            radio_checked: "●".to_string(),
            radio_unchecked: "○".to_string(),
            progress_filled: "━".to_string(),
            progress_unfilled: "─".to_string(),
            scrollbar_thumb: "█".to_string(),
            scrollbar_track: "░".to_string(),
            unread_marker: "○".to_string(),
            unread_color: rgb(tc, 120, 120, 120),
            reading_marker: "◐".to_string(),
            reading_color: rgb(tc, 180, 100, 20),
            read_marker: "●".to_string(),
            read_color: rgb(tc, 40, 120, 60),
        }
    }

    /// The configured background when it is forced, else the terminal's.
    pub fn bg_color(&self) -> (c: Color)
        ensures
            c == (if self.force_bg {
                self.bg
            } else {
                Color::Reset
            }),
    {
        if self.force_bg {
            self.bg
        } else {
            Color::Reset
        }
    }
}

// ---------------------------------------------------------------------------
// Theme configuration
// ---------------------------------------------------------------------------

/// A configured color, written `#RRGGBB` (the `#` may be left out).
#[derive(Clone, Debug)]
pub struct ColorConfig {
    pub hex: String,
}

pub open spec fn hex_digit_value(c: char) -> nat {
    if '0' <= c && c <= '9' {
        ((c as u32) - ('0' as u32)) as nat
    } else if 'a' <= c && c <= 'f' {
        ((c as u32) - ('a' as u32) + 10) as nat
    } else {
        ((c as u32) - ('A' as u32) + 10) as nat
    }
}

/// The six hex digits of a color, without its optional `#`.
pub open spec fn color_digits(s: Seq<char>) -> Seq<char> {
    if s.len() > 0 && s[0] == '#' {
        s.skip(1)
    } else {
        s
    }
}

/// The RGB value of a configured color, when it is six hex digits.
pub open spec fn color_rgb(s: Seq<char>) -> Option<(u8, u8, u8)> {
    let d = color_digits(s);
    if d.len() == 6 && forall|i: int| 0 <= i < 6 ==> is_hex_digit(#[trigger] d[i]) {
        Some(
            (
                (16 * hex_digit_value(d[0]) + hex_digit_value(d[1])) as u8,
                (16 * hex_digit_value(d[2]) + hex_digit_value(d[3])) as u8,
                (16 * hex_digit_value(d[4]) + hex_digit_value(d[5])) as u8,
            ),
        )
    } else {
        None
    }
}

fn hex_digit_value_exec(c: char) -> (r: u8)
    requires
        is_hex_digit(c),
    ensures
        r == hex_digit_value(c),
        r < 16,
{
    if '0' <= c && c <= '9' {
        (c as u32 - '0' as u32) as u8
    } else if 'a' <= c && c <= 'f' {
        (c as u32 - 'a' as u32 + 10) as u8
    } else {
        (c as u32 - 'A' as u32 + 10) as u8
    }
}

impl ColorConfig {
    /// The RGB value of the color, when it is valid.
    pub fn to_rgb(&self) -> (r: Option<(u8, u8, u8)>)
        ensures
            r == color_rgb(self.hex@),
    {
        let s = chars_of(self.hex.as_str());
        let from: usize = if s.len() > 0 && s[0] == '#' {
            1
        } else {
            0
        };
        if s.len() - from != 6 {
            assert(color_digits(s@).len() != 6);
            return None;
        }
        let ghost d = color_digits(s@);
        assert(d =~= s@.skip(from as int));
        let mut i: usize = 0;
        while i < 6
            invariant
                i <= 6,
                s@ == self.hex@,
                d == color_digits(self.hex@),
                s.len() == from + 6,
                d == s@.skip(from as int),
                forall|k: int| 0 <= k < i ==> is_hex_digit(#[trigger] d[k]),
            decreases 6 - i,
        {
            let c = s[from + i];
            assert(d[i as int] == c);
            if !crate::text::char_is_hex_digit(c) {
                return None;
            }
            i += 1;
        }
        assert(d[0] == s[from as int] && d[1] == s[from + 1] && d[2] == s[from + 2]);
        assert(d[3] == s[from + 3] && d[4] == s[from + 4] && d[5] == s[from + 5]);
        let r = 16 * hex_digit_value_exec(s[from]) + hex_digit_value_exec(s[from + 1]);
        let g = 16 * hex_digit_value_exec(s[from + 2]) + hex_digit_value_exec(s[from + 3]);
        let b = 16 * hex_digit_value_exec(s[from + 4]) + hex_digit_value_exec(s[from + 5]);
        Some((r, g, b))
    }
}

/// The configured background: its color and whether it is forced.
#[derive(Clone, Debug)]
pub struct BgConfig {
    pub color: Option<ColorConfig>,
    pub force: bool,
}

/// Where the sidebar (`"right"`) and the search bar (`"bottom"`) go.
#[derive(Clone, Debug)]
pub struct LayoutConfig {
    pub sidebar_position: Option<String>,
    pub search_position: Option<String>,
}

/// The border style (`plain`, `rounded`, `double`, `thick`).
#[derive(Clone, Debug)]
pub struct BorderConfig {
    pub border_type: Option<String>,
}

/// Which sides of a block have a border.
#[derive(Clone, Debug)]
pub struct BordersConfig {
    pub show_top: bool,
    pub show_bottom: bool,
    pub show_left: bool,
    pub show_right: bool,
}

/// Pointer, bullet and radio glyphs.
#[derive(Clone, Debug)]
pub struct GlyphsConfig {
    pub active_pointer: Option<String>,
    pub bullet_marker: Option<String>,
    pub radio_checked: Option<String>,
    pub radio_unchecked: Option<String>,
}

/// Progress bar glyphs.
#[derive(Clone, Debug)]
pub struct ProgressConfig {
    pub filled: Option<String>,
    pub unfilled: Option<String>,
}

/// Scrollbar glyphs.
#[derive(Clone, Debug)]
pub struct ScrollbarConfig {
    pub thumb: Option<String>,
    pub track: Option<String>,
}

/// Reading status markers and colors.
#[derive(Clone, Debug)]
pub struct StatusConfig {
    pub unread_marker: Option<String>,
    pub unread_color: Option<ColorConfig>,
    pub reading_marker: Option<String>,
    pub reading_color: Option<ColorConfig>,
    pub read_marker: Option<String>,
    pub read_color: Option<ColorConfig>,
}

/// A user's theme settings; anything unset comes from a base theme.
#[derive(Clone, Debug)]
pub struct ThemeConfig {
    pub bg: BgConfig,
    pub surface: Option<ColorConfig>,
    pub fg: Option<ColorConfig>,
    pub accent_primary: Option<ColorConfig>,
    pub accent_secondary: Option<ColorConfig>,
    pub dim: Option<ColorConfig>,
    pub divider: Option<ColorConfig>,
    pub selected: Option<ColorConfig>,
    pub focus_bg: Option<ColorConfig>,
    pub focus_fg: Option<ColorConfig>,
    pub title: Option<ColorConfig>,
    pub meta: Option<ColorConfig>,
    pub key: Option<ColorConfig>,
    pub tag: Option<ColorConfig>,
    pub udc: Option<ColorConfig>,
    pub error: Option<ColorConfig>,
    pub warning: Option<ColorConfig>,
    pub code: Option<ColorConfig>,
    pub success: Option<ColorConfig>,
    pub search_bg: Option<ColorConfig>,
    pub title_bold: Option<bool>,
    pub title_underline: Option<bool>,
    pub header_bold: Option<bool>,
    pub header_underline: Option<bool>,
    pub layout: Option<LayoutConfig>,
    pub border: Option<BorderConfig>,
    pub borders: Option<BordersConfig>,
    pub glyphs: Option<GlyphsConfig>,
    pub progress: Option<ProgressConfig>,
    pub scrollbar: Option<ScrollbarConfig>,
    pub status: Option<StatusConfig>,
}

/// A configured color as shown, or the default when unset or invalid.
pub open spec fn resolve_spec(opt: Option<ColorConfig>, default: Color, tc: bool) -> Color {
    match opt {
        Some(cc) => match color_rgb(cc.hex@) {
            Some((r, g, b)) => shown(tc, r, g, b),
            None => default,
        },
        None => default,
    }
}

/// The configured color, if any, is not the gray `#EEEEEE`, whose

fn resolve(opt: &Option<ColorConfig>, default: Color, tc: bool) -> (c: Color)
    ensures
        c == resolve_spec(*opt, default, tc),
{
    match opt {
        Some(cc) => match cc.to_rgb() {
            Some((r, g, b)) => rgb(tc, r, g, b),
            None => default,
        },
        None => default,
    }
}

/// A configured glyph, or the base one.
pub open spec fn glyph_or(opt: Option<String>, base: String) -> Seq<char> {
    match opt {
        Some(s) => s@,
        None => base@,
    }
}

fn string_or(opt: &Option<String>, base: String) -> (r: String)
    ensures
        r@ == glyph_or(*opt, base),
{
    match opt {
        Some(s) => s.clone(),
        None => base,
    }
}

pub open spec fn layout_field_is(l: Option<LayoutConfig>, sidebar: bool, want: Seq<char>, base: bool) -> bool {
    match l {
        Some(lc) => match (if sidebar {
            lc.sidebar_position
        } else {
            lc.search_position
        }) {
            Some(p) => p@ == want,
            None => base,
        },
        None => base,
    }
}

pub open spec fn status_opt(st: Option<StatusConfig>, which: int) -> Option<String> {
    match st {
        Some(s) => if which == 0 {
            s.unread_marker
        } else if which == 1 {
            s.reading_marker
        } else {
            s.read_marker
        },
        None => None,
    }
}

pub open spec fn status_color(st: Option<StatusConfig>, which: int) -> Option<ColorConfig> {
    match st {
        Some(s) => if which == 0 {
            s.unread_color
        } else if which == 1 {
            s.reading_color
        } else {
            s.read_color
        },
        None => None,
    }
}

pub open spec fn glyphs_field(g: Option<GlyphsConfig>, which: int) -> Option<String> {
    match g {
        Some(c) => if which == 0 {
            c.active_pointer
        } else if which == 1 {
            c.bullet_marker
        } else if which == 2 {
            c.radio_checked
        } else {
            c.radio_unchecked
        },
        None => None,
    }
}

pub open spec fn progress_field(p: Option<ProgressConfig>, filled: bool) -> Option<String> {
    match p {
        Some(c) => if filled {
            c.filled
        } else {
            c.unfilled
        },
        None => None,
    }
}

pub open spec fn scrollbar_field(p: Option<ScrollbarConfig>, thumb: bool) -> Option<String> {
    match p {
        Some(c) => if thumb {
            c.thumb
        } else {
            c.track
        },
        None => None,
    }
}

pub open spec fn border_type_field(b: Option<BorderConfig>) -> Option<String> {
    match b {
        Some(c) => c.border_type,
        None => None,
    }
}

pub open spec fn bool_or(o: Option<bool>, base: bool) -> bool {
    match o {
        Some(b) => b,
        None => base,
    }
}

fn glyph_field_exec(g: &Option<GlyphsConfig>, which: u8) -> (r: Option<String>)
    ensures
        r.deep_view() == glyphs_field(*g, which as int).deep_view(),
{
    match g {
        Some(c) => if which == 0 {
            clone_opt(&c.active_pointer)
        } else if which == 1 {
            clone_opt(&c.bullet_marker)
        } else if which == 2 {
            clone_opt(&c.radio_checked)
        } else {
            clone_opt(&c.radio_unchecked)
        },
        None => None,
    }
}

fn clone_opt(o: &Option<String>) -> (r: Option<String>)
    ensures
        r.deep_view() == o.deep_view(),
{
    match o {
        Some(s) => Some(s.clone()),
        None => None,
    }
}

fn pick(o: Option<String>, base: String) -> (r: String)
    ensures
        r@ == (match o {
            Some(s) => s@,
            None => base@,
        }),
{
    match o {
        Some(s) => s,
        None => base,
    }
}

fn layout_is(l: &Option<LayoutConfig>, sidebar: bool, want: &str, base: bool) -> (r: bool)
    ensures
        r == layout_field_is(*l, sidebar, want@, base),
{
    match l {
        Some(lc) => {
            let f = if sidebar {
                &lc.sidebar_position
            } else {
                &lc.search_position
            };
            match f {
                Some(p) => eq_str(&chars_of(p.as_str()), want),
                None => base,
            }
        },
        None => base,
    }
}

/// The theme of a configuration over a base theme: each configured color
/// (shown in truecolor when `tc`, else quantized) and each configured
/// option replaces the base's; invalid or unset colors keep the base's.
pub fn from_config_with_base(cfg: &ThemeConfig, base: Theme, tc: bool) -> (t: Theme)
    ensures
        t.bg == resolve_spec(cfg.bg.color, base.bg, tc),
        t.surface == resolve_spec(cfg.surface, base.surface, tc),
        t.fg == resolve_spec(cfg.fg, base.fg, tc),
        t.accent_primary == resolve_spec(cfg.accent_primary, base.accent_primary, tc),
        t.accent_secondary == resolve_spec(cfg.accent_secondary, base.accent_secondary, tc),
        t.dim == resolve_spec(cfg.dim, base.dim, tc),
        t.divider == resolve_spec(cfg.divider, base.divider, tc),
        t.selected == resolve_spec(cfg.selected, base.selected, tc),
        t.focus_bg == resolve_spec(cfg.focus_bg, base.focus_bg, tc),
        t.focus_fg == resolve_spec(cfg.focus_fg, base.focus_fg, tc),
        t.title == resolve_spec(cfg.title, base.title, tc),
        t.meta == resolve_spec(cfg.meta, base.meta, tc),
        t.key == resolve_spec(cfg.key, base.key, tc),
        t.tag == resolve_spec(cfg.tag, base.tag, tc),
        t.udc == resolve_spec(cfg.udc, base.udc, tc),
        t.error == resolve_spec(cfg.error, base.error, tc),
        t.warning == resolve_spec(cfg.warning, base.warning, tc),
        t.code == resolve_spec(cfg.code, base.code, tc),
        t.success == resolve_spec(cfg.success, base.success, tc),
        t.search_bg == resolve_spec(cfg.search_bg, base.search_bg, tc),
        t.force_bg == cfg.bg.force,
        t.sidebar_right == layout_field_is(cfg.layout, true, "right"@, base.sidebar_right),
        t.search_bottom == layout_field_is(cfg.layout, false, "bottom"@, base.search_bottom),
        t.title_bold == bool_or(cfg.title_bold, base.title_bold),
        t.title_underline == bool_or(cfg.title_underline, base.title_underline),
        t.header_bold == bool_or(cfg.header_bold, base.header_bold),
        t.header_underline == bool_or(cfg.header_underline, base.header_underline),
        t.border_type@ == glyph_or(border_type_field(cfg.border), base.border_type),
        t.show_border_top == (match cfg.borders {
            Some(b) => b.show_top,
            None => base.show_border_top,
        }),
        t.show_border_bottom == (match cfg.borders {
            Some(b) => b.show_bottom,
            None => base.show_border_bottom,
        }),
        t.show_border_left == (match cfg.borders {
            Some(b) => b.show_left,
            None => base.show_border_left,
        }),
        t.show_border_right == (match cfg.borders {
            Some(b) => b.show_right,
            None => base.show_border_right,
        }),
        t.active_pointer@ == glyph_or(glyphs_field(cfg.glyphs, 0), base.active_pointer),
        t.bullet_marker@ == glyph_or(glyphs_field(cfg.glyphs, 1), base.bullet_marker),
        t.radio_checked@ == glyph_or(glyphs_field(cfg.glyphs, 2), base.radio_checked),
        t.radio_unchecked@ == glyph_or(glyphs_field(cfg.glyphs, 3), base.radio_unchecked),
        t.progress_filled@ == glyph_or(progress_field(cfg.progress, true), base.progress_filled),
        t.progress_unfilled@ == glyph_or(
            progress_field(cfg.progress, false),
            base.progress_unfilled,
        ),
        t.scrollbar_thumb@ == glyph_or(scrollbar_field(cfg.scrollbar, true), base.scrollbar_thumb),
        t.scrollbar_track@ == glyph_or(
            scrollbar_field(cfg.scrollbar, false),
            base.scrollbar_track,
        ),
        t.unread_marker@ == glyph_or(status_opt(cfg.status, 0), base.unread_marker),
        t.unread_color == resolve_spec(status_color(cfg.status, 0), base.unread_color, tc),
        t.reading_marker@ == glyph_or(status_opt(cfg.status, 1), base.reading_marker),
        t.reading_color == resolve_spec(status_color(cfg.status, 1), base.reading_color, tc),
        t.read_marker@ == glyph_or(status_opt(cfg.status, 2), base.read_marker),
        t.read_color == resolve_spec(status_color(cfg.status, 2), base.read_color, tc),
{
    let sidebar_right = layout_is(&cfg.layout, true, "right", base.sidebar_right);
    let search_bottom = layout_is(&cfg.layout, false, "bottom", base.search_bottom);
    let border_type = pick(
        match &cfg.border {
            Some(b) => clone_opt(&b.border_type),
            None => None,
        },
        base.border_type,
    );
    let (show_border_top, show_border_bottom, show_border_left, show_border_right) =
        match &cfg.borders {
        Some(bs) => (bs.show_top, bs.show_bottom, bs.show_left, bs.show_right),
        None => (
            base.show_border_top,
            base.show_border_bottom,
            base.show_border_left,
            base.show_border_right,
        ),
    };
    let active_pointer = pick(glyph_field_exec(&cfg.glyphs, 0), base.active_pointer);
    let bullet_marker = pick(glyph_field_exec(&cfg.glyphs, 1), base.bullet_marker);
    let radio_checked = pick(glyph_field_exec(&cfg.glyphs, 2), base.radio_checked);
    let radio_unchecked = pick(glyph_field_exec(&cfg.glyphs, 3), base.radio_unchecked);
    let progress_filled = pick(
        match &cfg.progress {
            Some(p) => clone_opt(&p.filled),
            None => None,
        },
        base.progress_filled,
    );
    let progress_unfilled = pick(
        match &cfg.progress {
            Some(p) => clone_opt(&p.unfilled),
            None => None,
        },
        base.progress_unfilled,
    );
    let scrollbar_thumb = pick(
        match &cfg.scrollbar {
            Some(p) => clone_opt(&p.thumb),
            None => None,
        },
        base.scrollbar_thumb,
    );
    let scrollbar_track = pick(
        match &cfg.scrollbar {
            Some(p) => clone_opt(&p.track),
            None => None,
        },
        base.scrollbar_track,
    );
    let (unread_marker, unread_color, reading_marker, reading_color, read_marker, read_color) =
        match &cfg.status {
        Some(st) => (
            pick(clone_opt(&st.unread_marker), base.unread_marker),
            resolve(&st.unread_color, base.unread_color, tc),
            pick(clone_opt(&st.reading_marker), base.reading_marker),
            resolve(&st.reading_color, base.reading_color, tc),
            pick(clone_opt(&st.read_marker), base.read_marker),
            resolve(&st.read_color, base.read_color, tc),
        ),
        None => (
            base.unread_marker,
            base.unread_color,
            base.reading_marker,
            base.reading_color,
            base.read_marker,
            base.read_color,
        ),
    };
    Theme {
        bg: resolve(&cfg.bg.color, base.bg, tc),
        surface: resolve(&cfg.surface, base.surface, tc),
        force_bg: cfg.bg.force,
        fg: resolve(&cfg.fg, base.fg, tc),
        accent_primary: resolve(&cfg.accent_primary, base.accent_primary, tc),
        accent_secondary: resolve(&cfg.accent_secondary, base.accent_secondary, tc),
        dim: resolve(&cfg.dim, base.dim, tc),
        divider: resolve(&cfg.divider, base.divider, tc),
        selected: resolve(&cfg.selected, base.selected, tc),
        focus_bg: resolve(&cfg.focus_bg, base.focus_bg, tc),
        focus_fg: resolve(&cfg.focus_fg, base.focus_fg, tc),
        title: resolve(&cfg.title, base.title, tc),
        meta: resolve(&cfg.meta, base.meta, tc),
        key: resolve(&cfg.key, base.key, tc),
        tag: resolve(&cfg.tag, base.tag, tc),
        udc: resolve(&cfg.udc, base.udc, tc),
        error: resolve(&cfg.error, base.error, tc),
        warning: resolve(&cfg.warning, base.warning, tc),
        code: resolve(&cfg.code, base.code, tc),
        success: resolve(&cfg.success, base.success, tc),
        search_bg: resolve(&cfg.search_bg, base.search_bg, tc),
        sidebar_right,
        search_bottom,
        title_bold: match cfg.title_bold {
            Some(b) => b,
            None => base.title_bold,
        },
        title_underline: match cfg.title_underline {
            Some(b) => b,
            None => base.title_underline,
        },
        header_bold: match cfg.header_bold {
            Some(b) => b,
            None => base.header_bold,
        },
        header_underline: match cfg.header_underline {
            Some(b) => b,
            None => base.header_underline,
        },
        border_type,
        show_border_top,
        show_border_bottom,
        show_border_left,
        show_border_right,
        active_pointer,
        bullet_marker,
        radio_checked,
        radio_unchecked,
        progress_filled,
        progress_unfilled,
        scrollbar_thumb,
        scrollbar_track,
        unread_marker,
        unread_color,
        reading_marker,
        reading_color,
        read_marker,
        read_color,
    }
}

/// The built-in theme a theme name starts from.
#[derive(Clone, Copy, Debug, PartialEq, Eq, Structural)]
pub enum ThemeBase {
    Dark,
    Light,
    /// A theme file of that name, or the dark theme when it cannot be read.
    Custom,
}

/// `light` is the light theme, `dark` or no name the dark one, any other
/// name a custom theme file.
pub fn theme_base_for(name: &str) -> (r: ThemeBase)
    ensures
        name@ == "light"@ ==> r == ThemeBase::Light,
        (name@ == "dark"@ || name@.len() == 0) ==> r == ThemeBase::Dark,
        !(name@ == "light"@ || name@ == "dark"@ || name@.len() == 0) ==> r == ThemeBase::Custom,
{
    proof {
        reveal_strlit("light");
        reveal_strlit("dark");
        assert("dark"@.len() == 4 && "light"@.len() == 5);
        assert(Seq::<char>::empty() != "light"@);
    }
    let n = chars_of(name);
    if eq_str(&n, "light") {
        ThemeBase::Light
    } else if eq_str(&n, "dark") || n.len() == 0 {
        ThemeBase::Dark
    } else {
        ThemeBase::Custom
    }
}

/// A custom theme name that stays inside the themes directory: no `/`,
/// `\` or `..`.
pub fn is_safe_theme_name(name: &str) -> (r: bool)
    ensures
        r == !(name@.contains('/') || name@.contains('\\') || crate::text::contains(name@, ".."@)),
{
    let n = chars_of(name);
    !(crate::text::contains_char(&n, '/') || crate::text::contains_char(&n, '\\')
        || crate::text::contains_str(&n, ".."))
}

/// The stem of a theme file name: the name without `.toml`, when it ends in
/// `.toml` after at least one character.
pub open spec fn toml_stem(name: Seq<char>) -> Option<Seq<char>> {
    if name.len() > 5 && crate::text::ends_with(name, ".toml"@) {
        Some(name.take(name.len() - 5))
    } else {
        None
    }
}

/// A theme file stem that is offered as a custom theme: not the sample file
/// and not a built-in theme's name.
pub open spec fn offered_stem(stem: Seq<char>) -> bool {
    stem != "sample_custom"@ && stem != "dark"@ && stem != "light"@
}

/// The custom themes that the files `names` offer, in order.
pub open spec fn custom_themes(names: Seq<Seq<char>>) -> Seq<Seq<char>>
    decreases names.len(),
{
    if names.len() == 0 {
        Seq::empty()
    } else {
        let rest = custom_themes(names.drop_last());
        match toml_stem(names.last()) {
            Some(st) => if offered_stem(st) {
                rest.push(st)
            } else {
                rest
            },
            None => rest,
        }
    }
}

/// The themes a user can choose: `dark` and `light`, then one custom theme
/// per `.toml` file of the themes directory (given by the names of its
/// regular files, in directory order), leaving out `sample_custom`, `dark`
/// and `light`.
pub fn available_themes(file_names: &Vec<String>) -> (r: Vec<String>)
    ensures
        r.deep_view() == seq!["dark"@, "light"@] + custom_themes(file_names.deep_view()),
{
    let mut out: Vec<String> = Vec::new();
    crate::text::push_string(&mut out, "dark".to_string());
    crate::text::push_string(&mut out, "light".to_string());
    let ghost names = file_names.deep_view();
    let mut i: usize = 0;
    assert(names.take(0) =~= Seq::<Seq<char>>::empty());
    while i < file_names.len()
        invariant
            i <= file_names.len(),
            names == file_names.deep_view(),
            out.deep_view() == seq!["dark"@, "light"@] + custom_themes(names.take(i as int)),
        decreases file_names.len() - i,
    {
        let n = chars_of(file_names[i].as_str());
        assert(names.take(i as int + 1).drop_last() =~= names.take(i as int));
        assert(names.take(i as int + 1).last() == n@);
        if n.len() > 5 && crate::text::ends_with_str(&n, ".toml") {
            let stem = crate::text::slice_of(&n, 0, n.len() - 5);
            assert(stem@ =~= n@.take(n@.len() - 5));
            if !eq_str(&stem, "sample_custom") && !eq_str(&stem, "dark") && !eq_str(&stem, "light") {
                crate::text::push_string(&mut out, crate::text::string_from_chars(&stem));
            }
        }
        i += 1;
    }
    assert(names.take(file_names.len() as int) =~= names);
    out
}

// ---------------------------------------------------------------------------
// Accessors
// ---------------------------------------------------------------------------

/// The sidebar sits on the right.
pub fn sidebar_right(theme: &Theme) -> (r: bool)
    ensures
        r == theme.sidebar_right,
{
    theme.sidebar_right
}

/// The search bar sits at the bottom.
pub fn search_bottom(theme: &Theme) -> (r: bool)
    ensures
        r == theme.search_bottom,
{
    theme.search_bottom
}

/// The border style.
pub fn border_type(theme: &Theme) -> (r: String)
    ensures
        r@ == theme.border_type@,
{
    theme.border_type.clone()
}

pub fn show_border_top(theme: &Theme) -> (r: bool)
    ensures
        r == theme.show_border_top,
{
    theme.show_border_top
}

pub fn show_border_bottom(theme: &Theme) -> (r: bool)
    ensures
        r == theme.show_border_bottom,
{
    theme.show_border_bottom
}

pub fn show_border_left(theme: &Theme) -> (r: bool)
    ensures
        r == theme.show_border_left,
{
    theme.show_border_left
}

pub fn show_border_right(theme: &Theme) -> (r: bool)
    ensures
        r == theme.show_border_right,
{
    theme.show_border_right
}

pub fn active_pointer(theme: &Theme) -> (r: String)
    ensures
        r@ == theme.active_pointer@,
{
    theme.active_pointer.clone()
}

pub fn bullet_marker(theme: &Theme) -> (r: String)
    ensures
        r@ == theme.bullet_marker@,
{
    theme.bullet_marker.clone()
}

pub fn radio_checked(theme: &Theme) -> (r: String)
    ensures
        r@ == theme.radio_checked@,
{
    theme.radio_checked.clone()
}

pub fn radio_unchecked(theme: &Theme) -> (r: String)
    ensures
        r@ == theme.radio_unchecked@,
{
    theme.radio_unchecked.clone()
}

pub fn scrollbar_thumb(theme: &Theme) -> (r: String)
    ensures
        r@ == theme.scrollbar_thumb@,
{
    theme.scrollbar_thumb.clone()
}

pub fn scrollbar_track(theme: &Theme) -> (r: String)
    ensures
        r@ == theme.scrollbar_track@,
{
    theme.scrollbar_track.clone()
}

pub fn unread_marker(theme: &Theme) -> (r: String)
    ensures
        r@ == theme.unread_marker@,
{
    theme.unread_marker.clone()
}

pub fn reading_marker(theme: &Theme) -> (r: String)
    ensures
        r@ == theme.reading_marker@,
{
    theme.reading_marker.clone()
}

pub fn read_marker(theme: &Theme) -> (r: String)
    ensures
        r@ == theme.read_marker@,
{
    theme.read_marker.clone()
}

// ---------------------------------------------------------------------------
// Laws
// ---------------------------------------------------------------------------

/// A configuration that sets nothing gives back its base theme (apart from
/// whether the background is forced, which is always configured).
pub proof fn law_empty_config_keeps_base(cfg: ThemeConfig, base: Theme, t: Theme, tc: bool)
    requires
        cfg.bg.color is None && cfg.surface is None && cfg.fg is None && cfg.accent_primary
            is None && cfg.accent_secondary is None && cfg.dim is None && cfg.divider is None
            && cfg.selected is None && cfg.focus_bg is None && cfg.focus_fg is None && cfg.title
            is None && cfg.meta is None && cfg.key is None && cfg.tag is None && cfg.udc is None
            && cfg.error is None && cfg.warning is None && cfg.code is None && cfg.success is None
            && cfg.search_bg is None,
        cfg.title_bold is None && cfg.title_underline is None && cfg.header_bold is None
            && cfg.header_underline is None,
        cfg.layout is None && cfg.border is None && cfg.borders is None && cfg.glyphs is None
            && cfg.progress is None && cfg.scrollbar is None && cfg.status is None,
        t.bg == resolve_spec(cfg.bg.color, base.bg, tc),
        t.fg == resolve_spec(cfg.fg, base.fg, tc),
        t.accent_primary == resolve_spec(cfg.accent_primary, base.accent_primary, tc),
        t.sidebar_right == layout_field_is(cfg.layout, true, "right"@, base.sidebar_right),
        t.title_bold == bool_or(cfg.title_bold, base.title_bold),
        t.active_pointer@ == glyph_or(glyphs_field(cfg.glyphs, 0), base.active_pointer),
        t.read_color == resolve_spec(status_color(cfg.status, 2), base.read_color, tc),
    ensures
        t.bg == base.bg,
        t.fg == base.fg,
        t.accent_primary == base.accent_primary,
        t.sidebar_right == base.sidebar_right,
        t.title_bold == base.title_bold,
        t.active_pointer@ == base.active_pointer@,
        t.read_color == base.read_color,
{
}

/// `n` copies of `s`.
pub open spec fn glyph_run(s: Seq<char>, n: nat) -> Seq<char>
    decreases n,
{
    if n == 0 {
        Seq::empty()
    } else {
        glyph_run(s, (n - 1) as nat) + s
    }
}

/// The number of filled cells of a progress bar of `len` cells at `pct`
/// percent (at most 100).
pub open spec fn filled_cells(pct: u8, len: usize) -> nat {
    let p = if pct < 100 {
        pct as nat
    } else {
        100nat
    };
    let f = p * len / 100;
    if f < len {
        f as nat
    } else {
        len as nat
    }
}

fn glyph_run_exec(s: &String, n: usize) -> (r: String)
    ensures
        r@ == glyph_run(s@, n as nat),
{
    let mut v: Vec<char> = Vec::new();
    let mut i: usize = 0;
    assert(v@ =~= glyph_run(s@, 0));
    while i < n
        invariant
            i <= n,
            v@ == glyph_run(s@, i as nat),
        decreases n - i,
    {
        crate::text::append_str(&mut v, s.as_str());
        i += 1;
    }
    crate::text::string_from_chars(&v)
}

/// The filled and the unfilled part of a progress bar of `len` cells at
/// `pct` percent, in the theme's progress glyphs.
pub fn progress_bar_spans(theme: &Theme, pct: u8, len: usize) -> (r: (String, String))
    requires
        100 * len <= usize::MAX,
    ensures
        r.0@ == glyph_run(theme.progress_filled@, filled_cells(pct, len)),
        r.1@ == glyph_run(theme.progress_unfilled@, (len - filled_cells(pct, len)) as nat),
{
    let p: usize = if pct < 100 {
        pct as usize
    } else {
        100
    };
    assert(p * len <= 100 * len) by (nonlinear_arith)
        requires
            p <= 100,
    ;
    let f0 = p * len / 100;
    let filled = if f0 < len {
        f0
    } else {
        len
    };
    (glyph_run_exec(&theme.progress_filled, filled), glyph_run_exec(&theme.progress_unfilled, len - filled))
}

/// Quantized colors always fall in the 240 colors above the 16 system
/// colors, which terminals may remap.
pub proof fn law_quantize_avoids_system_colors(r: u8, g: u8, b: u8)
    ensures
        quantize_spec(r, g, b) matches Color::Indexed(i) && 16 <= i,
        r == g && g == b && 8 <= r <= 238 ==> (quantize_spec(r, g, b) matches Color::Indexed(i)
            && 232 <= i),
{
    if r == g && g == b && 8 <= r <= 238 {
        assert((r - 8) * 24 / 230 >= 0) by (nonlinear_arith)
            requires
                8 <= r <= 238,
        ;
    } else if !(r == g && g == b) {
        assert(cube_level(r) <= 5 && cube_level(g) <= 5 && cube_level(b) <= 5);
    }
}

} // verus!
