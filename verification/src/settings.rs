//! The settings panel: the values it shows, the theme colors it edits and
//! what Enter does on each item of its main tab.
use vstd::prelude::*;
use crate::number::digits_of_u64;
use crate::theme::{color_rgb, ColorConfig, Color, Theme, ThemeConfig};
use crate::text::{
    append_str, byte_len, byte_len_exec, chars_of, eq_chars, eq_str, is_hex_digit, join, join_str,
    string_from_chars,
};

verus! {

pub const MAIN_THEME: usize = 0;
pub const MAIN_BG_FORCE: usize = 1;
pub const MAIN_SIDEBAR_WIDTH: usize = 2;
pub const MAIN_GLYPH_SET: usize = 3;
pub const MAIN_PDF_VIEWER: usize = 4;
pub const MAIN_WIDGET_PANEL: usize = 5;
pub const MAIN_IMPORT_DB: usize = 6;
pub const MAIN_RESET: usize = 7;

// ---------------------------------------------------------------------------
// Small helpers
// ---------------------------------------------------------------------------

/// A color written `#RRGGBB` or `RRGGBB`.
pub open spec fn valid_hex_spec(s: Seq<char>) -> bool {
    let d = crate::theme::color_digits(s);
    d.len() == 6 && forall|i: int| 0 <= i < 6 ==> is_hex_digit(#[trigger] d[i])
}

/// Whether the text is a hex color.
pub fn is_valid_hex(s: &str) -> (r: bool)
    ensures
        r == valid_hex_spec(s@),
{
    let v = chars_of(s);
    let from: usize = if v.len() > 0 && v[0] == '#' {
        1
    } else {
        0
    };
    let ghost d = if v@.len() > 0 && v@[0] == '#' {
        v@.skip(1)
    } else {
        v@
    };
    assert(d =~= v@.skip(from as int));
    if v.len() - from != 6 {
        return false;
    }
    let mut i: usize = 0;
    while i < 6
        invariant
            i <= 6,
            v@ == s@,
            v.len() == from + 6,
            d == v@.skip(from as int),
            d == crate::theme::color_digits(s@),
            forall|k: int| 0 <= k < i ==> is_hex_digit(#[trigger] d[k]),
        decreases 6 - i,
    {
        assert(d[i as int] == v@[from + i]);
        if !crate::text::char_is_hex_digit(v[from + i]) {
            assert(!is_hex_digit(d[i as int]));
            assert(!(forall|k: int| 0 <= k < 6 ==> is_hex_digit(#[trigger] d[k])));
            return false;
        }
        i += 1;
    }
    true
}

/// One of two labels for a flag.
pub fn bool_display(val: bool, on: &str, off: &str) -> (r: String)
    ensures
        r@ == (if val {
            on@
        } else {
            off@
        }),
{
    if val {
        on.to_string()
    } else {
        off.to_string()
    }
}

/// A label cut to `max_len`: one no longer than that (in bytes) stays;
/// a longer one keeps its first `max_len - 1` characters and an ellipsis.
pub open spec fn truncate_spec(label: Seq<char>, max_len: nat) -> Seq<char> {
    if byte_len(label) <= max_len {
        label
    } else {
        label.take(if max_len - 1 < label.len() {
            max_len - 1
        } else {
            label.len() as int
        }) + "…"@
    }
}

/// Shortens a label for the citation graph.
pub fn truncate_label(label: &str, max_len: usize) -> (r: String)
    requires
        max_len > 0 || label@.len() == 0,
    ensures
        r@ == truncate_spec(label@, max_len as nat),
{
    let v = chars_of(label);
    if byte_len_exec(&v) <= max_len as u128 {
        return label.to_string();
    }
    proof {
        if max_len == 0 {
            crate::text::lemma_byte_len_bounds(v@);
        }
    }
    let k: usize = if max_len - 1 < v.len() {
        max_len - 1
    } else {
        v.len()
    };
    let mut t = crate::text::slice_of(&v, 0, k);
    append_str(&mut t, "…");
    string_from_chars(&t)
}

/// How a citation was matched to a library document.
#[derive(Clone, Copy, Debug, PartialEq, Eq, Structural)]
pub enum MatchStatus {
    AutoDoi,
    AutoArxiv,
    AutoTitle,
    AutoFuzzy,
    Manual,
    BibtexImport,
}

pub open spec fn match_status_text(s: MatchStatus) -> Seq<char> {
    match s {
        MatchStatus::AutoDoi => "DOI"@,
        MatchStatus::AutoArxiv => "arXiv"@,
        MatchStatus::AutoTitle => "제목"@,
        MatchStatus::AutoFuzzy => "퍼지"@,
        MatchStatus::Manual => "⊕수동"@,
        MatchStatus::BibtexImport => "⊕BibTeX"@,
    }
}

/// The short label of a match status.
pub fn match_status_label(status: &MatchStatus) -> (r: &'static str)
    ensures
        r@ == match_status_text(*status),
{
    match status {
        MatchStatus::AutoDoi => "DOI",
        MatchStatus::AutoArxiv => "arXiv",
        MatchStatus::AutoTitle => "제목",
        MatchStatus::AutoFuzzy => "퍼지",
        MatchStatus::Manual => "⊕수동",
        MatchStatus::BibtexImport => "⊕BibTeX",
    }
}

// ---------------------------------------------------------------------------
// PDF viewer
// ---------------------------------------------------------------------------

/// The PDF viewer a command line selects.
#[derive(Clone, Copy, Debug, PartialEq, Eq, Structural)]
pub enum ViewerMode {
    Sioyek,
    Okular,
    Preview,
    Custom,
}

pub open spec fn viewer_mode_spec(cmd: Option<Seq<Seq<char>>>) -> ViewerMode {
    match cmd {
        Some(parts) => if parts.len() == 0 {
            ViewerMode::Sioyek
        } else if parts.len() >= 3 && parts[0] == "open"@ && parts[1] == "-a"@ && parts[2]
            == "Preview"@ {
            ViewerMode::Preview
        } else if parts[0] == "okular"@ {
            ViewerMode::Okular
        } else {
            ViewerMode::Custom
        },
        None => ViewerMode::Sioyek,
    }
}

pub open spec fn cmd_view(cmd: Option<Vec<String>>) -> Option<Seq<Seq<char>>> {
    match cmd {
        Some(v) => Some(v.deep_view()),
        None => None,
    }
}

/// The viewer that the configured command line runs; none or an empty one
/// is the default, Sioyek.
pub fn viewer_mode(cmd: &Option<Vec<String>>) -> (r: ViewerMode)
    ensures
        r == viewer_mode_spec(cmd_view(*cmd)),
{
    match cmd {
        Some(parts) => {
            if parts.len() == 0 {
                ViewerMode::Sioyek
            } else {
                assert(parts.deep_view()[0] == parts@[0]@);
                let p0 = chars_of(parts[0].as_str());
                if parts.len() >= 3 {
                    assert(parts.deep_view()[1] == parts@[1]@);
                    assert(parts.deep_view()[2] == parts@[2]@);
                    if eq_str(&p0, "open") && eq_str(&chars_of(parts[1].as_str()), "-a") && eq_str(
                        &chars_of(parts[2].as_str()),
                        "Preview",
                    ) {
                        return ViewerMode::Preview;
                    }
                }
                if eq_str(&p0, "okular") {
                    ViewerMode::Okular
                } else {
                    ViewerMode::Custom
                }
            }
        },
        None => ViewerMode::Sioyek,
    }
}

/// How the settings show the viewer.
pub open spec fn viewer_label_spec(cmd: Option<Seq<Seq<char>>>) -> Seq<char> {
    match viewer_mode_spec(cmd) {
        ViewerMode::Preview => "macOS Preview (미리보기)"@,
        ViewerMode::Okular => "Okular (자동 동기화)"@,
        ViewerMode::Custom => "커스텀: "@ + join(cmd->0, " "@),
        ViewerMode::Sioyek => "Sioyek (기본값 / 자동 동기화)"@,
    }
}

fn viewer_label(cmd: &Option<Vec<String>>) -> (r: String)
    ensures
        r@ == viewer_label_spec(cmd_view(*cmd)),
{
    match viewer_mode(cmd) {
        ViewerMode::Preview => "macOS Preview (미리보기)".to_string(),
        ViewerMode::Okular => "Okular (자동 동기화)".to_string(),
        ViewerMode::Custom => {
            let parts = match cmd {
                Some(p) => p,
                None => {
                    return "".to_string();
                },
            };
            let mut cv: Vec<Vec<char>> = Vec::new();
            let mut i: usize = 0;
            while i < parts.len()
                invariant
                    i <= parts.len(),
                    cv.deep_view() == parts.deep_view().take(i as int),
                decreases parts.len() - i,
            {
                assert(parts.deep_view()[i as int] == parts@[i as int]@);
                crate::text::push_piece(&mut cv, chars_of(parts[i].as_str()));
                assert(cv.deep_view() =~= parts.deep_view().take(i + 1));
                i += 1;
            }
            assert(parts.deep_view().take(parts.len() as int) =~= parts.deep_view());
            let mut out = chars_of("커스텀: ");
            let j = join_str(&cv, " ");
            crate::text::append(&mut out, &j);
            string_from_chars(&out)
        },
        ViewerMode::Sioyek => "Sioyek (기본값 / 자동 동기화)".to_string(),
    }
}

// ---------------------------------------------------------------------------
// The main tab
// ---------------------------------------------------------------------------

/// The open settings panel.
pub struct SettingsPanel {
    /// The tab shown: the main settings or the theme colors.
    pub active_tab: usize,
    pub cursor: usize,
    pub editing: bool,
    pub edit_input: String,
    pub theme_dropdown_open: bool,
    pub available_themes: Vec<String>,
    pub theme_cursor: usize,
    pub color_picker_open: bool,
    /// Saturation column of the picker's palette.
    pub picker_grid_x: usize,
    /// Value row of the picker's palette.
    pub picker_grid_y: usize,
    /// The cursor of the theme-color tab.
    pub theme_color_cursor: usize,
}

/// The settings and the state around the panel that its main tab reads
/// and changes.
pub struct SettingsModel {
    pub panel: Option<SettingsPanel>,
    pub panel_mode: bool,
    pub theme_name: String,
    pub bg_force: bool,
    pub glyph_set: String,
    pub viewer_command: Option<Vec<String>>,
    pub left_panel_width: u16,
    pub show_widget_panel: bool,
    pub command_mode: bool,
    pub command_input: String,
}

/// The default settings that a reset restores.
pub struct SettingsDefaults {
    pub theme_name: String,
    pub bg_force: bool,
    pub glyph_set: String,
}

pub open spec fn cursor_of(m: SettingsModel) -> usize {
    match m.panel {
        Some(p) => p.cursor,
        None => 0,
    }
}

/// The value shown for item `idx` of the main tab: the input line (with a
/// block cursor) while editing it, else the setting's value.
pub open spec fn item_value_spec(m: SettingsModel, idx: usize) -> Seq<char> {
    let editing = match m.panel {
        Some(p) => p.editing,
        None => false,
    };
    let input = match m.panel {
        Some(p) => p.edit_input@,
        None => Seq::empty(),
    };
    if editing && idx == cursor_of(m) {
        input + "█"@
    } else if idx == MAIN_THEME {
        m.theme_name@
    } else if idx == MAIN_BG_FORCE {
        if m.bg_force {
            "강제"@
        } else {
            "터미널 따름"@
        }
    } else if idx == MAIN_SIDEBAR_WIDTH {
        crate::number::decimal_digits(m.left_panel_width as nat) + " 열"@
    } else if idx == MAIN_GLYPH_SET {
        m.glyph_set@
    } else if idx == MAIN_PDF_VIEWER {
        viewer_label_spec(cmd_view(m.viewer_command))
    } else {
        Seq::empty()
    }
}

/// The value shown next to an item of the main tab.
pub fn item_value_str(m: &SettingsModel, idx: usize) -> (r: String)
    ensures
        r@ == item_value_spec(*m, idx),
{
    let (editing, cursor) = match &m.panel {
        Some(p) => (p.editing, p.cursor),
        None => (false, 0),
    };
    if editing && idx == cursor {
        let mut v = match &m.panel {
            Some(p) => chars_of(p.edit_input.as_str()),
            None => Vec::new(),
        };
        append_str(&mut v, "█");
        return string_from_chars(&v);
    }
    if idx == MAIN_THEME {
        m.theme_name.clone()
    } else if idx == MAIN_BG_FORCE {
        bool_display(m.bg_force, "강제", "터미널 따름")
    } else if idx == MAIN_SIDEBAR_WIDTH {
        let mut v = digits_of_u64(m.left_panel_width as u64);
        append_str(&mut v, " 열");
        string_from_chars(&v)
    } else if idx == MAIN_GLYPH_SET {
        m.glyph_set.clone()
    } else if idx == MAIN_PDF_VIEWER {
        viewer_label(&m.viewer_command)
    } else {
        String::new()
    }
}

/// What a key asks of the rest of the program besides the new state.
pub struct EnterOutcome {
    /// Save the configuration and apply the theme again.
    pub save: bool,
    /// Reset the sidebar width.
    pub reset_left_panel: bool,
    /// The status message to show.
    pub status: Option<&'static str>,
    /// Widen (positive) or narrow (negative) the sidebar by that many columns.
    pub resize_left_panel: i16,
    /// Put the theme colors back to their defaults (before saving).
    pub reset_theme_colors: bool,
    /// Open the color picker on this theme-color item.
    pub open_picker: Option<usize>,
}

/// Nothing beyond the settings' new state is asked for.
pub open spec fn quiet(r: EnterOutcome) -> bool {
    &&& !r.save
    &&& !r.reset_left_panel
    &&& r.status is None
    &&& r.resize_left_panel == 0
    &&& !r.reset_theme_colors
    &&& r.open_picker is None
}

/// Only the asks of Enter on the main tab.
pub open spec fn enter_only(r: EnterOutcome) -> bool {
    &&& r.resize_left_panel == 0
    &&& !r.reset_theme_colors
    &&& r.open_picker is None
}

/// The glyph set after the other one is chosen: `circles` and `ballot`
/// swap, anything else becomes `circles`.
pub open spec fn toggled_glyphs(g: Seq<char>) -> Seq<char> {
    if g == "circles"@ {
        "ballot"@
    } else {
        "circles"@
    }
}

/// The viewer after the next one is chosen: Sioyek, Okular, Preview, then
/// Sioyek again; a custom command goes back to Sioyek.
pub open spec fn next_viewer(m: ViewerMode) -> ViewerMode {
    match m {
        ViewerMode::Sioyek => ViewerMode::Okular,
        ViewerMode::Okular => ViewerMode::Preview,
        _ => ViewerMode::Sioyek,
    }
}

/// The position of `name` among `names`, 0 when absent.
pub open spec fn position_or_zero(names: Seq<Seq<char>>, name: Seq<char>, i: int) -> int
    decreases names.len() - i,
{
    if i < 0 || i >= names.len() {
        0
    } else if names[i] == name {
        i
    } else {
        position_or_zero(names, name, i + 1)
    }
}

fn position_exec(names: &Vec<String>, name: &String) -> (r: usize)
    ensures
        r == position_or_zero(names.deep_view(), name@, 0),
{
    let n = chars_of(name.as_str());
    let mut i: usize = 0;
    while i < names.len()
        invariant
            i <= names.len(),
            n@ == name@,
            position_or_zero(names.deep_view(), name@, 0) == position_or_zero(
                names.deep_view(),
                name@,
                i as int,
            ),
        decreases names.len() - i,
    {
        assert(names.deep_view()[i as int] == names@[i as int]@);
        if eq_chars(&chars_of(names[i].as_str()), &n) {
            return i;
        }
        i += 1;
    }
    0
}

fn strings(items: &[&str]) -> (r: Vec<String>)
    ensures
        r.deep_view() == Seq::new(items@.len(), |i: int| items@[i]@),
{
    let mut out: Vec<String> = Vec::new();
    let mut i: usize = 0;
    while i < items.len()
        invariant
            i <= items.len(),
            out.deep_view() == Seq::new(i as nat, |k: int| items@[k]@),
        decreases items.len() - i,
    {
        crate::text::push_string(&mut out, items[i].to_string());
        assert(out.deep_view() =~= Seq::new((i + 1) as nat, |k: int| items@[k]@));
        i += 1;
    }
    out
}

/// The command line stored after the viewer item is chosen: Okular after
/// Sioyek, Preview after Okular, and none (Sioyek) after anything else.
pub open spec fn next_viewer_cmd(cmd: Option<Seq<Seq<char>>>) -> Option<Seq<Seq<char>>> {
    match viewer_mode_spec(cmd) {
        ViewerMode::Sioyek => Some(seq!["okular"@, "%p"@]),
        ViewerMode::Okular => Some(seq!["open"@, "-a"@, "Preview"@, "%p"@]),
        _ => None,
    }
}

/// The status message shown after the viewer item is chosen.
pub open spec fn next_viewer_status(cmd: Option<Seq<Seq<char>>>) -> Seq<char> {
    match viewer_mode_spec(cmd) {
        ViewerMode::Sioyek => "PDF 뷰어: Okular (자동 동기화)"@,
        ViewerMode::Okular => "PDF 뷰어: macOS Preview (미리보기)"@,
        _ => "PDF 뷰어: Sioyek (기본값 / 자동 감지)"@,
    }
}

/// What Enter on the main tab does, by the focused item; `available` is the
/// list of theme names offered by the theme dropdown.
pub open spec fn main_enter_effect(
    old: SettingsModel,
    new: SettingsModel,
    available: Vec<String>,
    defaults: SettingsDefaults,
    r: EnterOutcome,
) -> bool {
    &&& (cursor_of(old) == MAIN_THEME ==> {
        &&& new.panel == (match old.panel {
            Some(p) => Some(
                SettingsPanel {
                    editing: true,
                    theme_dropdown_open: true,
                    available_themes: available,
                    theme_cursor: position_or_zero(available.deep_view(), old.theme_name@, 0)
                        as usize,
                    ..p
                },
            ),
            None => None,
        })
        &&& !r.save && r.status is None
    })
    &&& (cursor_of(old) == MAIN_BG_FORCE ==> {
        &&& new.bg_force == !old.bg_force
        &&& r.save
        &&& r.status matches Some(s) && s@ == "배경 강제 토글됨"@
    })
    &&& (cursor_of(old) == MAIN_SIDEBAR_WIDTH ==> {
        &&& r.reset_left_panel && !r.save
        &&& r.status matches Some(s) && s@ == "사이드바 너비 초기화됨"@
    })
    &&& (cursor_of(old) == MAIN_GLYPH_SET ==> {
        &&& new.glyph_set@ == toggled_glyphs(old.glyph_set@)
        &&& r.save
        &&& r.status matches Some(s) && s@ == "글리프 세트 변경됨"@
    })
    &&& (cursor_of(old) == MAIN_PDF_VIEWER ==> {
        &&& cmd_view(new.viewer_command) == next_viewer_cmd(cmd_view(old.viewer_command))
        &&& viewer_mode_spec(cmd_view(new.viewer_command)) == next_viewer(
            viewer_mode_spec(cmd_view(old.viewer_command)),
        )
        &&& r.save
        &&& r.status matches Some(s) && s@ == next_viewer_status(cmd_view(old.viewer_command))
    })
    &&& (cursor_of(old) == MAIN_WIDGET_PANEL ==> {
        &&& new.panel is None && !new.panel_mode && new.show_widget_panel
        &&& !r.save && r.status is None
    })
    &&& (cursor_of(old) == MAIN_IMPORT_DB ==> {
        &&& new.panel is None && !new.panel_mode && new.command_mode
        &&& new.command_input@ == ":import-db "@
        &&& !r.save
        &&& r.status matches Some(s) && s@ == "가져올 DB 파일 경로 입력"@
    })
    &&& (cursor_of(old) == MAIN_RESET ==> {
        &&& new.theme_name@ == defaults.theme_name@
        &&& new.bg_force == defaults.bg_force
        &&& new.glyph_set@ == defaults.glyph_set@
        &&& new.viewer_command is None
        &&& new.left_panel_width == 28
        &&& r.save
        &&& r.status matches Some(s) && s@ == "기본 설정이 초기화되었습니다."@
    })
    &&& (cursor_of(old) > MAIN_RESET ==> !r.save && !r.reset_left_panel && r.status is None)
    &&& (cursor_of(old) != MAIN_BG_FORCE && cursor_of(old) != MAIN_RESET ==> new.bg_force
        == old.bg_force)
    &&& (cursor_of(old) != MAIN_GLYPH_SET && cursor_of(old) != MAIN_RESET ==> new.glyph_set
        == old.glyph_set)
    &&& (cursor_of(old) != MAIN_RESET ==> new.theme_name == old.theme_name)
    &&& (cursor_of(old) != MAIN_PDF_VIEWER && cursor_of(old) != MAIN_RESET ==> new.viewer_command
        == old.viewer_command)
    &&& (cursor_of(old) != MAIN_RESET ==> new.left_panel_width == old.left_panel_width)
    &&& (cursor_of(old) != MAIN_IMPORT_DB ==> new.command_mode == old.command_mode
        && new.command_input == old.command_input)
    &&& (cursor_of(old) != MAIN_WIDGET_PANEL && cursor_of(old) != MAIN_IMPORT_DB ==> new.panel_mode
        == old.panel_mode)
    &&& (cursor_of(old) != MAIN_WIDGET_PANEL ==> new.show_widget_panel == old.show_widget_panel)
    &&& (cursor_of(old) != MAIN_THEME && cursor_of(old) != MAIN_WIDGET_PANEL && cursor_of(old)
        != MAIN_IMPORT_DB ==> new.panel == old.panel)
    &&& (cursor_of(old) != MAIN_SIDEBAR_WIDTH ==> !r.reset_left_panel)
    &&& enter_only(r)
}

/// Carries out Enter on the focused item of the main tab. `available` is
/// the list of theme names offered by the theme dropdown.
pub fn handle_main_enter(m: &mut SettingsModel, available: Vec<String>, defaults: &SettingsDefaults) -> (r:
    EnterOutcome)
    ensures
        main_enter_effect(*old(m), *final(m), available, *defaults, r),
{
    let cursor = match &m.panel {
        Some(p) => p.cursor,
        None => 0,
    };
    let mut out = EnterOutcome {
        save: false,
        reset_left_panel: false,
        status: None,
        resize_left_panel: 0,
        reset_theme_colors: false,
        open_picker: None,
    };
    if cursor == MAIN_THEME {
        let cur_idx = position_exec(&available, &m.theme_name);
        match &mut m.panel {
            Some(p) => {
                p.editing = true;
                p.theme_dropdown_open = true;
                p.available_themes = available;
                p.theme_cursor = cur_idx;
            },
            None => {},
        }
    } else if cursor == MAIN_BG_FORCE {
        m.bg_force = !m.bg_force;
        out.save = true;
        out.status = Some("배경 강제 토글됨");
    } else if cursor == MAIN_SIDEBAR_WIDTH {
        out.reset_left_panel = true;
        out.status = Some("사이드바 너비 초기화됨");
    } else if cursor == MAIN_GLYPH_SET {
        if eq_str(&chars_of(m.glyph_set.as_str()), "circles") {
            m.glyph_set = "ballot".to_string();
        } else {
            m.glyph_set = "circles".to_string();
        }
        out.save = true;
        out.status = Some("글리프 세트 변경됨");
    } else if cursor == MAIN_PDF_VIEWER {
        proof {
            reveal_strlit("okular");
            reveal_strlit("open");
        }
        match viewer_mode(&m.viewer_command) {
            ViewerMode::Sioyek => {
                let cmd = strings(&["okular", "%p"]);
                assert(cmd.deep_view() =~= seq!["okular"@, "%p"@]);
                m.viewer_command = Some(cmd);
                out.status = Some("PDF 뷰어: Okular (자동 동기화)");
            },
            ViewerMode::Okular => {
                let cmd = strings(&["open", "-a", "Preview", "%p"]);
                assert(cmd.deep_view() =~= seq!["open"@, "-a"@, "Preview"@, "%p"@]);
                m.viewer_command = Some(cmd);
                out.status = Some("PDF 뷰어: macOS Preview (미리보기)");
            },
            _ => {
                m.viewer_command = None;
                out.status = Some("PDF 뷰어: Sioyek (기본값 / 자동 감지)");
            },
        }
        out.save = true;
    } else if cursor == MAIN_WIDGET_PANEL {
        m.panel_mode = false;
        m.panel = None;
        m.show_widget_panel = true;
    } else if cursor == MAIN_IMPORT_DB {
        m.panel_mode = false;
        m.panel = None;
        m.command_mode = true;
        m.command_input = ":import-db ".to_string();
        out.status = Some("가져올 DB 파일 경로 입력");
    } else if cursor == MAIN_RESET {
        m.theme_name = defaults.theme_name.clone();
        m.bg_force = defaults.bg_force;
        m.glyph_set = defaults.glyph_set.clone();
        m.viewer_command = None;
        m.left_panel_width = 28;
        out.save = true;
        out.status = Some("기본 설정이 초기화되었습니다.");
    }
    out
}

// ---------------------------------------------------------------------------
// Theme colors
// ---------------------------------------------------------------------------

/// The configured color of theme-color item `idx` (background, surface,
/// foreground, ..., success); none for other items.
pub open spec fn theme_color_spec(t: ThemeConfig, idx: usize) -> Option<ColorConfig> {
    if idx == 0 {
        t.bg.color
    } else if idx == 1 {
        t.surface
    } else if idx == 2 {
        t.fg
    } else if idx == 3 {
        t.accent_primary
    } else if idx == 4 {
        t.accent_secondary
    } else if idx == 5 {
        t.dim
    } else if idx == 6 {
        t.divider
    } else if idx == 7 {
        t.selected
    } else if idx == 8 {
        t.focus_bg
    } else if idx == 9 {
        t.focus_fg
    } else if idx == 10 {
        t.title
    } else if idx == 11 {
        t.meta
    } else if idx == 12 {
        t.key
    } else if idx == 13 {
        t.tag
    } else if idx == 14 {
        t.udc
    } else if idx == 15 {
        t.error
    } else if idx == 16 {
        t.warning
    } else if idx == 17 {
        t.code
    } else if idx == 18 {
        t.success
    } else {
        None
    }
}

/// The hex texts of two optional colors are the same.
pub open spec fn same_color(a: Option<ColorConfig>, b: Option<ColorConfig>) -> bool {
    match (a, b) {
        (Some(x), Some(y)) => x.hex@ == y.hex@,
        (None, None) => true,
        _ => false,
    }
}

fn copy_color(c: &Option<ColorConfig>) -> (r: Option<ColorConfig>)
    ensures
        same_color(r, *c),
{
    match c {
        Some(cc) => Some(ColorConfig { hex: cc.hex.clone() }),
        None => None,
    }
}

/// Reads the configured color of a theme-color item.
pub fn get_theme_color(theme: &ThemeConfig, idx: usize) -> (r: Option<ColorConfig>)
    ensures
        same_color(r, theme_color_spec(*theme, idx)),
{
    if idx == 0 {
        copy_color(&theme.bg.color)
    } else if idx == 1 {
        copy_color(&theme.surface)
    } else if idx == 2 {
        copy_color(&theme.fg)
    } else if idx == 3 {
        copy_color(&theme.accent_primary)
    } else if idx == 4 {
        copy_color(&theme.accent_secondary)
    } else if idx == 5 {
        copy_color(&theme.dim)
    } else if idx == 6 {
        copy_color(&theme.divider)
    } else if idx == 7 {
        copy_color(&theme.selected)
    } else if idx == 8 {
        copy_color(&theme.focus_bg)
    } else if idx == 9 {
        copy_color(&theme.focus_fg)
    } else if idx == 10 {
        copy_color(&theme.title)
    } else if idx == 11 {
        copy_color(&theme.meta)
    } else if idx == 12 {
        copy_color(&theme.key)
    } else if idx == 13 {
        copy_color(&theme.tag)
    } else if idx == 14 {
        copy_color(&theme.udc)
    } else if idx == 15 {
        copy_color(&theme.error)
    } else if idx == 16 {
        copy_color(&theme.warning)
    } else if idx == 17 {
        copy_color(&theme.code)
    } else if idx == 18 {
        copy_color(&theme.success)
    } else {
        None
    }
}

/// The parts of a theme configuration other than its colors agree.
pub open spec fn same_non_colors(a: ThemeConfig, b: ThemeConfig) -> bool {
    &&& a.bg.force == b.bg.force
    &&& a.search_bg == b.search_bg
    &&& a.title_bold == b.title_bold
    &&& a.title_underline == b.title_underline
    &&& a.header_bold == b.header_bold
    &&& a.header_underline == b.header_underline
    &&& a.layout == b.layout
    &&& a.border == b.border
    &&& a.borders == b.borders
    &&& a.glyphs == b.glyphs
    &&& a.progress == b.progress
    &&& a.scrollbar == b.scrollbar
    &&& a.status == b.status
}

/// `new` is `old` with theme-color item `idx` set to `color`; an index past
/// the items changes nothing.
pub open spec fn color_set(old: ThemeConfig, new: ThemeConfig, idx: usize, color: Option<ColorConfig>) -> bool {
    &&& (idx < 19 ==> theme_color_spec(new, idx) == color)
    &&& forall|j: usize| j != idx ==> #[trigger] theme_color_spec(new, j) == theme_color_spec(old, j)
    &&& same_non_colors(old, new)
}

/// Sets the configured color of a theme-color item; other items leave the
/// configuration as it is.
pub fn set_theme_color(theme: &mut ThemeConfig, idx: usize, color: Option<ColorConfig>)
    ensures
        color_set(*old(theme), *final(theme), idx, color),
{
    if idx == 0 {
        theme.bg.color = color;
    } else if idx == 1 {
        theme.surface = color;
    } else if idx == 2 {
        theme.fg = color;
    } else if idx == 3 {
        theme.accent_primary = color;
    } else if idx == 4 {
        theme.accent_secondary = color;
    } else if idx == 5 {
        theme.dim = color;
    } else if idx == 6 {
        theme.divider = color;
    } else if idx == 7 {
        theme.selected = color;
    } else if idx == 8 {
        theme.focus_bg = color;
    } else if idx == 9 {
        theme.focus_fg = color;
    } else if idx == 10 {
        theme.title = color;
    } else if idx == 11 {
        theme.meta = color;
    } else if idx == 12 {
        theme.key = color;
    } else if idx == 13 {
        theme.tag = color;
    } else if idx == 14 {
        theme.udc = color;
    } else if idx == 15 {
        theme.error = color;
    } else if idx == 16 {
        theme.warning = color;
    } else if idx == 17 {
        theme.code = color;
    } else if idx == 18 {
        theme.success = color;
    }
}

/// The default of theme-color item `idx` when the current theme's color is
/// not a truecolor value.
pub open spec fn fallback_rgb(idx: usize) -> (u8, u8, u8) {
    if idx == 0 {
        (22, 22, 22)
    } else if idx == 1 {
        (28, 28, 28)
    } else if idx == 2 || idx == 9 || idx == 10 {
        (200, 200, 200)
    } else if idx == 3 || idx == 14 || idx == 17 {
        (107, 155, 210)
    } else if idx == 4 || idx == 13 {
        (184, 169, 212)
    } else if idx == 5 || idx == 11 {
        (128, 128, 128)
    } else if idx == 6 {
        (50, 50, 50)
    } else if idx == 7 || idx == 12 || idx == 18 {
        (126, 184, 138)
    } else if idx == 8 {
        (38, 38, 38)
    } else if idx == 15 {
        (200, 140, 150)
    } else if idx == 16 {
        (212, 166, 87)
    } else {
        (128, 128, 128)
    }
}

/// The current theme's color behind item `idx` (the title item reads the
/// foreground color).
pub open spec fn current_color(t: Theme, idx: usize) -> Option<Color> {
    if idx == 0 {
        Some(
            if t.force_bg {
                t.bg
            } else {
                Color::Reset
            },
        )
    } else if idx == 1 {
        Some(t.surface)
    } else if idx == 2 || idx == 10 {
        Some(t.fg)
    } else if idx == 3 {
        Some(t.accent_primary)
    } else if idx == 4 {
        Some(t.accent_secondary)
    } else if idx == 5 {
        Some(t.dim)
    } else if idx == 6 {
        Some(t.divider)
    } else if idx == 7 {
        Some(t.selected)
    } else if idx == 8 {
        Some(t.focus_bg)
    } else if idx == 9 {
        Some(t.focus_fg)
    } else if idx == 11 {
        Some(t.meta)
    } else if idx == 12 {
        Some(t.key)
    } else if idx == 13 {
        Some(t.tag)
    } else if idx == 14 {
        Some(t.udc)
    } else if idx == 15 {
        Some(t.error)
    } else if idx == 16 {
        Some(t.warning)
    } else if idx == 17 {
        Some(t.code)
    } else if idx == 18 {
        Some(t.success)
    } else {
        None
    }
}

/// The color the picker opens on: the configured one (gray when invalid),
/// else the current theme's truecolor value, else the item's default.
pub open spec fn picker_start_spec(cfg: ThemeConfig, idx: usize, t: Theme) -> (u8, u8, u8) {
    match theme_color_spec(cfg, idx) {
        Some(cc) => match color_rgb(cc.hex@) {
            Some(c) => c,
            None => (128, 128, 128),
        },
        None => match current_color(t, idx) {
            Some(Color::Rgb(r, g, b)) => (r, g, b),
            _ => fallback_rgb(idx),
        },
    }
}

fn current_color_exec(t: &Theme, idx: usize) -> (r: Option<Color>)
    ensures
        r == current_color(*t, idx),
{
    if idx == 0 {
        Some(t.bg_color())
    } else if idx == 1 {
        Some(t.surface)
    } else if idx == 2 || idx == 10 {
        Some(t.fg)
    } else if idx == 3 {
        Some(t.accent_primary)
    } else if idx == 4 {
        Some(t.accent_secondary)
    } else if idx == 5 {
        Some(t.dim)
    } else if idx == 6 {
        Some(t.divider)
    } else if idx == 7 {
        Some(t.selected)
    } else if idx == 8 {
        Some(t.focus_bg)
    } else if idx == 9 {
        Some(t.focus_fg)
    } else if idx == 11 {
        Some(t.meta)
    } else if idx == 12 {
        Some(t.key)
    } else if idx == 13 {
        Some(t.tag)
    } else if idx == 14 {
        Some(t.udc)
    } else if idx == 15 {
        Some(t.error)
    } else if idx == 16 {
        Some(t.warning)
    } else if idx == 17 {
        Some(t.code)
    } else if idx == 18 {
        Some(t.success)
    } else {
        None
    }
}

fn fallback_rgb_exec(idx: usize) -> (r: (u8, u8, u8))
    ensures
        r == fallback_rgb(idx),
{
    if idx == 0 {
        (22, 22, 22)
    } else if idx == 1 {
        (28, 28, 28)
    } else if idx == 2 || idx == 9 || idx == 10 {
        (200, 200, 200)
    } else if idx == 3 || idx == 14 || idx == 17 {
        (107, 155, 210)
    } else if idx == 4 || idx == 13 {
        (184, 169, 212)
    } else if idx == 5 || idx == 11 {
        (128, 128, 128)
    } else if idx == 6 {
        (50, 50, 50)
    } else if idx == 7 || idx == 12 || idx == 18 {
        (126, 184, 138)
    } else if idx == 8 {
        (38, 38, 38)
    } else if idx == 15 {
        (200, 140, 150)
    } else if idx == 16 {
        (212, 166, 87)
    } else {
        (128, 128, 128)
    }
}

/// The RGB color the color picker opens on for a theme-color item.
pub fn picker_start_color(cfg: &ThemeConfig, idx: usize, current: &Theme) -> (r: (u8, u8, u8))
    ensures
        r == picker_start_spec(*cfg, idx, *current),
{
    match get_theme_color(cfg, idx) {
        Some(cc) => match cc.to_rgb() {
            Some(c) => c,
            None => (128, 128, 128),
        },
        None => match current_color_exec(current, idx) {
            Some(Color::Rgb(r, g, b)) => (r, g, b),
            _ => fallback_rgb_exec(idx),
        },
    }
}

// ---------------------------------------------------------------------------
// Laws
// ---------------------------------------------------------------------------

/// Choosing the glyph set twice from `circles` or `ballot` gives it back.
pub proof fn law_glyph_toggle_involutive(g: Seq<char>)
    requires
        g == "circles"@ || g == "ballot"@,
    ensures
        toggled_glyphs(toggled_glyphs(g)) == g,
{
    reveal_strlit("circles");
    reveal_strlit("ballot");
}

/// Three presses of Enter on the viewer item go round Sioyek, Okular and
/// Preview back to where they started.
pub proof fn law_viewer_cycle(m: ViewerMode)
    requires
        m != ViewerMode::Custom,
    ensures
        next_viewer(next_viewer(next_viewer(m))) == m,
{
}

} // verus!
