//! Keyboard handling of the settings panel: which key does what in each
//! of its modes (color picker, theme dropdown, line editing, the two tabs).
use vstd::prelude::*;
use crate::settings::{
    color_set, cursor_of, handle_main_enter, is_valid_hex, main_enter_effect, quiet,
    set_theme_color, valid_hex_spec, EnterOutcome, SettingsDefaults, SettingsModel,
    SettingsPanel, MAIN_SIDEBAR_WIDTH,
};
use crate::text::{
    byte_len, byte_len_exec, char_is_hex_digit, chars_of, is_hex_digit, string_from_chars, trim,
    trim_exec,
};
use crate::theme::{ColorConfig, ThemeConfig};

verus! {

/// The main settings tab.
pub const TAB_MAIN: usize = 0;
/// The theme-color tab.
pub const TAB_THEME: usize = 1;
/// The number of tabs.
pub const NUM_TABS: usize = 2;
/// The number of items of the main tab.
pub const MAIN_NUM_ITEMS: usize = 8;
/// The number of items of the theme-color tab: the colors and a reset.
pub const TC_NUM_ITEMS: usize = 20;
/// The item of the theme-color tab that resets all colors.
pub const TC_RESET: usize = 19;

/// The rows of the color picker's palette (value steps).
pub const PALETTE_ROWS: usize = 10;
/// The columns of the color picker's palette (saturation steps).
pub const PALETTE_COLS: usize = 24;

/// A key pressed in the settings panel.
#[derive(Clone, Copy, Debug, PartialEq, Eq, Structural)]
pub enum SettingsKey {
    Esc,
    Tab,
    Up,
    Down,
    Left,
    Right,
    Enter,
    Backspace,
    Char(char),
    Other,
}

/// The cursor after a step down a list of `n` entries, wrapping to the top.
pub open spec fn step_down(c: usize, n: usize) -> usize {
    ((c + 1) % (n as int)) as usize
}

/// The cursor after a step up a list of `n` entries, wrapping to the bottom.
pub open spec fn step_up(c: usize, n: usize) -> usize {
    if c == 0 {
        (n - 1) as usize
    } else {
        (c - 1) as usize
    }
}

fn down(c: usize, n: usize) -> (r: usize)
    requires
        c < usize::MAX,
        n > 0,
    ensures
        r == step_down(c, n),
{
    (c + 1) % n
}

fn up(c: usize, n: usize) -> (r: usize)
    requires
        n > 0,
    ensures
        r == step_up(c, n),
{
    if c == 0 {
        n - 1
    } else {
        c - 1
    }
}

/// Moves the color picker's cursor; a move past an edge wraps round.
pub fn move_picker(p: &mut SettingsPanel, key: SettingsKey)
    requires
        old(p).picker_grid_x < usize::MAX,
        old(p).picker_grid_y < usize::MAX,
    ensures
        key == SettingsKey::Up ==> *final(p) == (SettingsPanel {
            picker_grid_y: step_up(old(p).picker_grid_y, PALETTE_ROWS),
            ..*old(p)
        }),
        key == SettingsKey::Down ==> *final(p) == (SettingsPanel {
            picker_grid_y: step_down(old(p).picker_grid_y, PALETTE_ROWS),
            ..*old(p)
        }),
        key == SettingsKey::Left ==> *final(p) == (SettingsPanel {
            picker_grid_x: step_up(old(p).picker_grid_x, PALETTE_COLS),
            ..*old(p)
        }),
        key == SettingsKey::Right ==> *final(p) == (SettingsPanel {
            picker_grid_x: step_down(old(p).picker_grid_x, PALETTE_COLS),
            ..*old(p)
        }),
        !(key == SettingsKey::Up || key == SettingsKey::Down || key == SettingsKey::Left || key
            == SettingsKey::Right) ==> *final(p) == *old(p),
{
    match key {
        SettingsKey::Up => p.picker_grid_y = up(p.picker_grid_y, PALETTE_ROWS),
        SettingsKey::Down => p.picker_grid_y = down(p.picker_grid_y, PALETTE_ROWS),
        SettingsKey::Left => p.picker_grid_x = up(p.picker_grid_x, PALETTE_COLS),
        SettingsKey::Right => p.picker_grid_x = down(p.picker_grid_x, PALETTE_COLS),
        _ => {},
    }
}

// ---------------------------------------------------------------------------
// Outcomes
// ---------------------------------------------------------------------------

fn no_effect() -> (r: EnterOutcome)
    ensures
        quiet(r),
{
    EnterOutcome {
        save: false,
        reset_left_panel: false,
        status: None,
        resize_left_panel: 0,
        reset_theme_colors: false,
        open_picker: None,
    }
}

/// Saves, with status `msg`, and asks nothing else.
pub open spec fn saved_with(r: EnterOutcome, msg: Seq<char>) -> bool {
    &&& r.save
    &&& !r.reset_left_panel
    &&& r.status matches Some(s) && s@ == msg
    &&& r.resize_left_panel == 0
    &&& !r.reset_theme_colors
    &&& r.open_picker is None
}

/// Only shows status `msg`.
pub open spec fn told(r: EnterOutcome, msg: Seq<char>) -> bool {
    &&& !r.save
    &&& !r.reset_left_panel
    &&& r.status matches Some(s) && s@ == msg
    &&& r.resize_left_panel == 0
    &&& !r.reset_theme_colors
    &&& r.open_picker is None
}

fn saving(msg: &'static str) -> (r: EnterOutcome)
    ensures
        saved_with(r, msg@),
{
    EnterOutcome {
        save: true,
        reset_left_panel: false,
        status: Some(msg),
        resize_left_panel: 0,
        reset_theme_colors: false,
        open_picker: None,
    }
}

fn telling(msg: &'static str) -> (r: EnterOutcome)
    ensures
        told(r, msg@),
{
    EnterOutcome {
        save: false,
        reset_left_panel: false,
        status: Some(msg),
        resize_left_panel: 0,
        reset_theme_colors: false,
        open_picker: None,
    }
}

// ---------------------------------------------------------------------------
// Modes
// ---------------------------------------------------------------------------

/// What the keys act on.
#[derive(Clone, Copy, Debug, PartialEq, Eq, Structural)]
pub enum KeyMode {
    /// The color picker is open.
    Picker,
    /// The theme dropdown is open.
    Dropdown,
    /// A color of the theme-color tab is being typed.
    ThemeEdit,
    /// A value of the main tab is being typed.
    MainEdit,
    /// The list of the theme-color tab.
    ThemeTab,
    /// The list of the main tab (also when no panel is open).
    MainTab,
}

pub open spec fn key_mode(m: SettingsModel) -> KeyMode {
    match m.panel {
        Some(p) => if p.color_picker_open {
            KeyMode::Picker
        } else if p.theme_dropdown_open {
            KeyMode::Dropdown
        } else if p.editing && p.active_tab == TAB_THEME {
            KeyMode::ThemeEdit
        } else if p.editing && p.active_tab == TAB_MAIN {
            KeyMode::MainEdit
        } else if p.active_tab == TAB_THEME {
            KeyMode::ThemeTab
        } else {
            KeyMode::MainTab
        },
        None => KeyMode::MainTab,
    }
}

/// The panel's counters can be stepped without overflow.
pub open spec fn counters_ok(p: SettingsPanel) -> bool {
    &&& p.cursor < usize::MAX
    &&& p.theme_cursor < usize::MAX
    &&& p.theme_color_cursor < usize::MAX
    &&& p.picker_grid_x < usize::MAX
    &&& p.picker_grid_y < usize::MAX
    &&& p.active_tab < usize::MAX
}

// ---------------------------------------------------------------------------
// The color picker
// ---------------------------------------------------------------------------

/// The panel with the picker (and its editing) closed.
pub open spec fn picker_closed(p: SettingsPanel) -> SettingsPanel {
    SettingsPanel { color_picker_open: false, editing: false, ..p }
}

/// Keys in the open color picker: arrows move, Esc closes, Enter takes
/// `color` (the color under the cursor) for the focused theme color when
/// the theme-color tab is shown, saves and closes.
pub open spec fn picker_effect(
    old_p: SettingsPanel,
    new_p: SettingsPanel,
    old_t: ThemeConfig,
    new_t: ThemeConfig,
    key: SettingsKey,
    color: ColorConfig,
    r: EnterOutcome,
) -> bool {
    if key == SettingsKey::Esc {
        new_p == picker_closed(old_p) && new_t == old_t && quiet(r)
    } else if key == SettingsKey::Enter {
        &&& new_p == picker_closed(old_p)
        &&& (old_p.active_tab == TAB_THEME ==> color_set(old_t, new_t, old_p.theme_color_cursor, Some(color)))
        &&& (old_p.active_tab != TAB_THEME ==> new_t == old_t)
        &&& saved_with(r, "색상이 변경되었습니다."@)
    } else {
        &&& new_t == old_t
        &&& quiet(r)
        &&& key == SettingsKey::Up ==> new_p == (SettingsPanel {
            picker_grid_y: step_up(old_p.picker_grid_y, PALETTE_ROWS),
            ..old_p
        })
        &&& key == SettingsKey::Down ==> new_p == (SettingsPanel {
            picker_grid_y: step_down(old_p.picker_grid_y, PALETTE_ROWS),
            ..old_p
        })
        &&& key == SettingsKey::Left ==> new_p == (SettingsPanel {
            picker_grid_x: step_up(old_p.picker_grid_x, PALETTE_COLS),
            ..old_p
        })
        &&& key == SettingsKey::Right ==> new_p == (SettingsPanel {
            picker_grid_x: step_down(old_p.picker_grid_x, PALETTE_COLS),
            ..old_p
        })
        &&& !(key == SettingsKey::Up || key == SettingsKey::Down || key == SettingsKey::Left || key
            == SettingsKey::Right) ==> new_p == old_p
    }
}

fn picker_key(p: &mut SettingsPanel, theme: &mut ThemeConfig, key: SettingsKey, color: ColorConfig) -> (r:
    EnterOutcome)
    requires
        counters_ok(*old(p)),
    ensures
        picker_effect(*old(p), *final(p), *old(theme), *final(theme), key, color, r),
{
    match key {
        SettingsKey::Esc => {
            p.color_picker_open = false;
            p.editing = false;
            no_effect()
        },
        SettingsKey::Enter => {
            if p.active_tab == TAB_THEME {
                set_theme_color(theme, p.theme_color_cursor, Some(color));
            }
            p.color_picker_open = false;
            p.editing = false;
            saving("색상이 변경되었습니다.")
        },
        _ => {
            move_picker(p, key);
            no_effect()
        },
    }
}

/// Opens the color picker with its cursor on a palette cell (clamped to
/// the palette), for the caller that placed it by the current color.
pub fn open_color_picker(p: &mut SettingsPanel, grid_x: usize, grid_y: usize)
    ensures
        *final(p) == (SettingsPanel {
            editing: true,
            color_picker_open: true,
            picker_grid_x: if grid_x < PALETTE_COLS - 1 {
                grid_x
            } else {
                (PALETTE_COLS - 1) as usize
            },
            picker_grid_y: if grid_y < PALETTE_ROWS - 1 {
                grid_y
            } else {
                (PALETTE_ROWS - 1) as usize
            },
            ..*old(p)
        }),
{
    p.editing = true;
    p.color_picker_open = true;
    p.picker_grid_x = if grid_x < PALETTE_COLS - 1 {
        grid_x
    } else {
        PALETTE_COLS - 1
    };
    p.picker_grid_y = if grid_y < PALETTE_ROWS - 1 {
        grid_y
    } else {
        PALETTE_ROWS - 1
    };
}

// ---------------------------------------------------------------------------
// The theme dropdown
// ---------------------------------------------------------------------------

pub open spec fn dropdown_closed(p: SettingsPanel) -> SettingsPanel {
    SettingsPanel { theme_dropdown_open: false, editing: false, ..p }
}

pub open spec fn with_panel(m: SettingsModel, p: SettingsPanel) -> SettingsModel {
    SettingsModel { panel: Some(p), ..m }
}

/// Keys in the open theme dropdown: arrows move round the list, Enter
/// chooses the theme under the cursor, saves and closes, Esc closes; an
/// empty list closes on any key.
pub open spec fn dropdown_effect(old: SettingsModel, new: SettingsModel, key: SettingsKey, r: EnterOutcome) -> bool {
    let p = old.panel->0;
    let total = p.available_themes@.len();
    if total == 0 || key == SettingsKey::Esc {
        new == with_panel(old, dropdown_closed(p)) && quiet(r)
    } else if key == SettingsKey::Down {
        new == with_panel(old, SettingsPanel { theme_cursor: step_down(p.theme_cursor, total as usize), ..p })
            && quiet(r)
    } else if key == SettingsKey::Up {
        new == with_panel(old, SettingsPanel { theme_cursor: step_up(p.theme_cursor, total as usize), ..p })
            && quiet(r)
    } else if key == SettingsKey::Enter {
        &&& new == SettingsModel {
            theme_name: p.available_themes@[p.theme_cursor as int],
            ..with_panel(old, dropdown_closed(p))
        }
        &&& saved_with(r, "테마가 변경되었습니다."@)
    } else {
        new == old && quiet(r)
    }
}

fn dropdown_key(m: &mut SettingsModel, key: SettingsKey) -> (r: EnterOutcome)
    requires
        old(m).panel is Some,
        counters_ok(old(m).panel->0),
        key == SettingsKey::Enter && old(m).panel->0.available_themes@.len() > 0 ==> old(
            m,
        ).panel->0.theme_cursor < old(m).panel->0.available_themes@.len(),
    ensures
        dropdown_effect(*old(m), *final(m), key, r),
{
    let mut out = no_effect();
    let mut chosen: Option<String> = None;
    match &mut m.panel {
        Some(p) => {
            let total = p.available_themes.len();
            if total == 0 {
                p.theme_dropdown_open = false;
                p.editing = false;
            } else {
                match key {
                    SettingsKey::Esc => {
                        p.theme_dropdown_open = false;
                        p.editing = false;
                    },
                    SettingsKey::Down => {
                        p.theme_cursor = down(p.theme_cursor, total);
                    },
                    SettingsKey::Up => {
                        p.theme_cursor = up(p.theme_cursor, total);
                    },
                    SettingsKey::Enter => {
                        chosen = Some(p.available_themes[p.theme_cursor].clone());
                        p.theme_dropdown_open = false;
                        p.editing = false;
                    },
                    _ => {},
                }
            }
        },
        None => {},
    }
    match chosen {
        Some(c) => {
            m.theme_name = c;
            out = saving("테마가 변경되었습니다.");
        },
        None => {},
    }
    out
}

// ---------------------------------------------------------------------------
// Typing a color
// ---------------------------------------------------------------------------

/// The input line after typing `c`: hex digits and `#` are taken while
/// the line has fewer than 7 bytes.
pub open spec fn typed(input: Seq<char>, c: char) -> Seq<char> {
    if (is_hex_digit(c) || c == '#') && byte_len(input) < 7 {
        input.push(c)
    } else {
        input
    }
}

/// The input line after a backspace.
pub open spec fn erased(input: Seq<char>) -> Seq<char> {
    if input.len() > 0 {
        input.drop_last()
    } else {
        input
    }
}

/// `new_p` is `old_p` with the input line `text`.
pub open spec fn input_set(old_p: SettingsPanel, new_p: SettingsPanel, text: Seq<char>) -> bool {
    new_p == SettingsPanel { edit_input: new_p.edit_input, ..old_p } && new_p.edit_input@ == text
}

/// `new_p` is `old_p` with editing ended and the input line cleared.
pub open spec fn edit_closed(old_p: SettingsPanel, new_p: SettingsPanel) -> bool {
    input_set(SettingsPanel { editing: false, ..old_p }, new_p, Seq::empty())
}

/// Theme-color item `idx` set to a color spelled `hex`, nothing else changed.
pub open spec fn color_set_hex(old: ThemeConfig, new: ThemeConfig, idx: usize, hex: Seq<char>) -> bool {
    exists|c: ColorConfig| c.hex@ == hex && #[trigger] color_set(old, new, idx, Some(c))
}

/// Keys while a color is typed. Enter takes the trimmed line when it is a
/// valid hex color, for theme-color item `item` when there is one, saves and
/// ends editing; an invalid line only ends editing with a message.
pub open spec fn edit_effect(
    old_p: SettingsPanel,
    new_p: SettingsPanel,
    old_t: ThemeConfig,
    new_t: ThemeConfig,
    key: SettingsKey,
    item: Option<usize>,
    r: EnterOutcome,
) -> bool {
    let input = trim(old_p.edit_input@);
    if key == SettingsKey::Esc {
        edit_closed(old_p, new_p) && new_t == old_t && quiet(r)
    } else if key == SettingsKey::Enter {
        &&& edit_closed(old_p, new_p)
        &&& if valid_hex_spec(input) {
            &&& saved_with(r, "색상 변경됨"@)
            &&& match item {
                Some(i) => color_set_hex(old_t, new_t, i, input),
                None => new_t == old_t,
            }
        } else {
            new_t == old_t && told(r, "잘못된 색상 형식 (예: #94A3B8)"@)
        }
    } else if key == SettingsKey::Backspace {
        input_set(old_p, new_p, erased(old_p.edit_input@)) && new_t == old_t && quiet(r)
    } else {
        &&& new_t == old_t
        &&& quiet(r)
        &&& match key {
            SettingsKey::Char(c) => input_set(old_p, new_p, typed(old_p.edit_input@, c)),
            _ => new_p == old_p,
        }
    }
}

fn edit_key(p: &mut SettingsPanel, theme: &mut ThemeConfig, key: SettingsKey, item: Option<usize>) -> (r:
    EnterOutcome)
    ensures
        edit_effect(*old(p), *final(p), *old(theme), *final(theme), key, item, r),
{
    match key {
        SettingsKey::Esc => {
            p.editing = false;
            p.edit_input = String::new();
            no_effect()
        },
        SettingsKey::Enter => {
            let t = trim_exec(&chars_of(p.edit_input.as_str()));
            let input = string_from_chars(&t);
            let out = if is_valid_hex(input.as_str()) {
                match item {
                    Some(i) => {
                        let c = ColorConfig { hex: input };
                        let ghost cv = c;
                        set_theme_color(theme, i, Some(c));
                        assert(color_set(*old(theme), *theme, i, Some(cv)));
                    },
                    None => {},
                }
                saving("색상 변경됨")
            } else {
                telling("잘못된 색상 형식 (예: #94A3B8)")
            };
            p.editing = false;
            p.edit_input = String::new();
            out
        },
        SettingsKey::Backspace => {
            let mut v = chars_of(p.edit_input.as_str());
            if v.len() > 0 {
                v.pop();
            }
            p.edit_input = string_from_chars(&v);
            no_effect()
        },
        SettingsKey::Char(c) => {
            if char_is_hex_digit(c) || c == '#' {
                let mut v = chars_of(p.edit_input.as_str());
                if byte_len_exec(&v) < 7 {
                    v.push(c);
                    p.edit_input = string_from_chars(&v);
                }
            }
            no_effect()
        },
        _ => no_effect(),
    }
}

// ---------------------------------------------------------------------------
// The two tabs
// ---------------------------------------------------------------------------

/// Tab shows the other tab, with its cursors at the top and nothing open.
pub open spec fn tab_switched(old_p: SettingsPanel, new_p: SettingsPanel) -> bool {
    input_set(
        SettingsPanel {
            active_tab: ((old_p.active_tab + 1) % (NUM_TABS as int)) as usize,
            cursor: 0,
            theme_color_cursor: 0,
            editing: false,
            color_picker_open: false,
            ..old_p
        },
        new_p,
        Seq::empty(),
    )
}

/// The panel closed: Esc, `p` or `q` on either tab.
pub open spec fn closing_key(key: SettingsKey) -> bool {
    key == SettingsKey::Esc || key == SettingsKey::Char('p') || key == SettingsKey::Char('q')
}

pub open spec fn panel_closed(old: SettingsModel) -> SettingsModel {
    SettingsModel { panel_mode: false, panel: None, ..old }
}

/// Keys on the theme-color tab: arrows move round its items, Enter opens
/// the color picker on a color, or on the last item resets all colors and
/// saves.
pub open spec fn theme_tab_effect(old: SettingsModel, new: SettingsModel, key: SettingsKey, r: EnterOutcome) -> bool {
    let p = old.panel->0;
    if closing_key(key) {
        new == panel_closed(old) && quiet(r)
    } else if key == SettingsKey::Down {
        new == with_panel(
            old,
            SettingsPanel { theme_color_cursor: step_down(p.theme_color_cursor, TC_NUM_ITEMS), ..p },
        ) && quiet(r)
    } else if key == SettingsKey::Up {
        new == with_panel(
            old,
            SettingsPanel { theme_color_cursor: step_up(p.theme_color_cursor, TC_NUM_ITEMS), ..p },
        ) && quiet(r)
    } else if key == SettingsKey::Enter && p.theme_color_cursor == TC_RESET {
        &&& new == old
        &&& r.reset_theme_colors && r.save
        &&& r.status matches Some(s) && s@ == "테마 색상이 기본값으로 초기화되었습니다."@
        &&& !r.reset_left_panel && r.resize_left_panel == 0 && r.open_picker is None
    } else if key == SettingsKey::Enter {
        &&& new == old
        &&& r.open_picker == Some(p.theme_color_cursor)
        &&& !r.save && r.status is None && !r.reset_left_panel && r.resize_left_panel == 0
        &&& !r.reset_theme_colors
    } else {
        new == old && quiet(r)
    }
}

fn theme_tab_key(m: &mut SettingsModel, key: SettingsKey) -> (r: EnterOutcome)
    requires
        old(m).panel is Some,
        counters_ok(old(m).panel->0),
    ensures
        theme_tab_effect(*old(m), *final(m), key, r),
{
    if key == SettingsKey::Esc || key == SettingsKey::Char('p') || key == SettingsKey::Char('q') {
        m.panel_mode = false;
        m.panel = None;
        return no_effect();
    }
    let mut out = no_effect();
    match &mut m.panel {
        Some(p) => match key {
            SettingsKey::Down => {
                p.theme_color_cursor = down(p.theme_color_cursor, TC_NUM_ITEMS);
            },
            SettingsKey::Up => {
                p.theme_color_cursor = up(p.theme_color_cursor, TC_NUM_ITEMS);
            },
            SettingsKey::Enter => {
                if p.theme_color_cursor == TC_RESET {
                    out = EnterOutcome {
                        save: true,
                        reset_left_panel: false,
                        status: Some("테마 색상이 기본값으로 초기화되었습니다."),
                        resize_left_panel: 0,
                        reset_theme_colors: true,
                        open_picker: None,
                    };
                } else {
                    out.open_picker = Some(p.theme_color_cursor);
                }
            },
            _ => {},
        },
        None => {},
    }
    out
}

/// Keys on the main tab: arrows move round its items, Enter carries out
/// the focused item, and `+`, `-` and `=` on the sidebar width widen,
/// narrow and reset it.
pub open spec fn main_tab_effect(
    old: SettingsModel,
    new: SettingsModel,
    key: SettingsKey,
    available: Vec<String>,
    defaults: SettingsDefaults,
    r: EnterOutcome,
) -> bool {
    let on_width = cursor_of(old) == MAIN_SIDEBAR_WIDTH;
    if closing_key(key) {
        new == panel_closed(old) && quiet(r)
    } else if key == SettingsKey::Down {
        quiet(r) && match old.panel {
            Some(p) => new == with_panel(
                old,
                SettingsPanel { cursor: step_down(p.cursor, MAIN_NUM_ITEMS), ..p },
            ),
            None => new == old,
        }
    } else if key == SettingsKey::Up {
        quiet(r) && match old.panel {
            Some(p) => new == with_panel(old, SettingsPanel { cursor: step_up(p.cursor, MAIN_NUM_ITEMS), ..p }),
            None => new == old,
        }
    } else if key == SettingsKey::Enter {
        main_enter_effect(old, new, available, defaults, r)
    } else if on_width && (key == SettingsKey::Char('+') || key == SettingsKey::Char('-')) {
        &&& new == old
        &&& r.resize_left_panel == (if key == SettingsKey::Char('+') {
            2int
        } else {
            -2int
        })
        &&& !r.save && !r.reset_left_panel && r.status is None && !r.reset_theme_colors
        &&& r.open_picker is None
    } else if on_width && key == SettingsKey::Char('=') {
        &&& new == old
        &&& r.reset_left_panel
        &&& !r.save && r.status is None && r.resize_left_panel == 0 && !r.reset_theme_colors
        &&& r.open_picker is None
    } else {
        new == old && quiet(r)
    }
}

fn main_tab_key(
    m: &mut SettingsModel,
    key: SettingsKey,
    available: Vec<String>,
    defaults: &SettingsDefaults,
) -> (r: EnterOutcome)
    requires
        old(m).panel matches Some(p) ==> counters_ok(p),
    ensures
        main_tab_effect(*old(m), *final(m), key, available, *defaults, r),
{
    if key == SettingsKey::Esc || key == SettingsKey::Char('p') || key == SettingsKey::Char('q') {
        m.panel_mode = false;
        m.panel = None;
        return no_effect();
    }
    if key == SettingsKey::Enter {
        return handle_main_enter(m, available, defaults);
    }
    let cursor = match &m.panel {
        Some(p) => p.cursor,
        None => 0,
    };
    let mut out = no_effect();
    match key {
        SettingsKey::Down => match &mut m.panel {
            Some(p) => {
                p.cursor = down(p.cursor, MAIN_NUM_ITEMS);
            },
            None => {},
        },
        SettingsKey::Up => match &mut m.panel {
            Some(p) => {
                p.cursor = up(p.cursor, MAIN_NUM_ITEMS);
            },
            None => {},
        },
        SettingsKey::Char('+') => {
            if cursor == MAIN_SIDEBAR_WIDTH {
                out.resize_left_panel = 2;
            }
        },
        SettingsKey::Char('-') => {
            if cursor == MAIN_SIDEBAR_WIDTH {
                out.resize_left_panel = -2;
            }
        },
        SettingsKey::Char('=') => {
            if cursor == MAIN_SIDEBAR_WIDTH {
                out.reset_left_panel = true;
            }
        },
        _ => {},
    }
    out
}

// ---------------------------------------------------------------------------
// Dispatch
// ---------------------------------------------------------------------------

/// `new` differs from `old` at most in its panel, which is `new_p`.
pub open spec fn only_panel(old: SettingsModel, new: SettingsModel, new_p: SettingsPanel) -> bool {
    new == with_panel(old, new_p)
}

/// Handles a key in the settings panel. `picker_color` is the color under
/// the color picker's cursor (taken by Enter while the picker is open),
/// `available` the theme names the theme dropdown offers, `defaults` what a
/// reset restores.
pub fn handle_key(
    m: &mut SettingsModel,
    theme: &mut ThemeConfig,
    key: SettingsKey,
    picker_color: ColorConfig,
    available: Vec<String>,
    defaults: &SettingsDefaults,
) -> (r: EnterOutcome)
    requires
        old(m).panel matches Some(p) ==> counters_ok(p),
        key == SettingsKey::Enter && key_mode(*old(m)) == KeyMode::Dropdown
            && old(m).panel->0.available_themes@.len() > 0 ==> old(m).panel->0.theme_cursor < old(
            m,
        ).panel->0.available_themes@.len(),
    ensures
        key_mode(*old(m)) == KeyMode::Picker ==> (final(m).panel matches Some(np) && only_panel(
            *old(m),
            *final(m),
            np,
        ) && picker_effect(old(m).panel->0, np, *old(theme), *final(theme), key, picker_color, r)),
        key_mode(*old(m)) == KeyMode::Dropdown ==> dropdown_effect(*old(m), *final(m), key, r)
            && *final(theme) == *old(theme),
        key_mode(*old(m)) == KeyMode::ThemeEdit ==> (final(m).panel matches Some(np) && only_panel(
            *old(m),
            *final(m),
            np,
        ) && edit_effect(
            old(m).panel->0,
            np,
            *old(theme),
            *final(theme),
            key,
            Some(old(m).panel->0.theme_color_cursor),
            r,
        )),
        key_mode(*old(m)) == KeyMode::MainEdit ==> (final(m).panel matches Some(np) && only_panel(
            *old(m),
            *final(m),
            np,
        ) && edit_effect(old(m).panel->0, np, *old(theme), *final(theme), key, None, r)),
        key_mode(*old(m)) == KeyMode::ThemeTab && key == SettingsKey::Tab ==> (final(m).panel matches Some(
            np,
        ) && only_panel(*old(m), *final(m), np) && tab_switched(old(m).panel->0, np) && quiet(r)
            && *final(theme) == *old(theme)),
        key_mode(*old(m)) == KeyMode::ThemeTab && key != SettingsKey::Tab ==> theme_tab_effect(
            *old(m),
            *final(m),
            key,
            r,
        ) && *final(theme) == *old(theme),
        key_mode(*old(m)) == KeyMode::MainTab && key == SettingsKey::Tab ==> quiet(r) && *final(theme)
            == *old(theme) && match old(m).panel {
            Some(p) => final(m).panel matches Some(np) && only_panel(*old(m), *final(m), np)
                && tab_switched(p, np),
            None => *final(m) == *old(m),
        },
        key_mode(*old(m)) == KeyMode::MainTab && key != SettingsKey::Tab ==> main_tab_effect(
            *old(m),
            *final(m),
            key,
            available,
            *defaults,
            r,
        ) && *final(theme) == *old(theme),
{
    let (picker_open, dropdown_open, editing, tab) = match &m.panel {
        Some(p) => (p.color_picker_open, p.theme_dropdown_open, p.editing, p.active_tab),
        None => (false, false, false, TAB_MAIN),
    };
    if picker_open {
        match &mut m.panel {
            Some(p) => picker_key(p, theme, key, picker_color),
            None => no_effect(),
        }
    } else if dropdown_open {
        dropdown_key(m, key)
    } else if editing && tab == TAB_THEME {
        match &mut m.panel {
            Some(p) => {
                let item = p.theme_color_cursor;
                edit_key(p, theme, key, Some(item))
            },
            None => no_effect(),
        }
    } else if editing && tab == TAB_MAIN {
        match &mut m.panel {
            Some(p) => edit_key(p, theme, key, None),
            None => no_effect(),
        }
    } else if key == SettingsKey::Tab {
        match &mut m.panel {
            Some(p) => {
                p.active_tab = (p.active_tab + 1) % NUM_TABS;
                p.cursor = 0;
                p.theme_color_cursor = 0;
                p.editing = false;
                p.edit_input = String::new();
                p.color_picker_open = false;
            },
            None => {},
        }
        no_effect()
    } else if tab == TAB_THEME {
        theme_tab_key(m, key)
    } else {
        main_tab_key(m, key, available, defaults)
    }
}

// ---------------------------------------------------------------------------
// The mouse on the color picker
// ---------------------------------------------------------------------------

/// The palette cell under the mouse: each cell is two columns wide, the
/// palette starts at column `grid_x` and row `grid_y`.
pub open spec fn palette_cell_spec(grid_x: u16, grid_y: u16, column: u16, row: u16) -> Option<(usize, usize)> {
    if grid_x <= column < grid_x + 48 && grid_y <= row < grid_y + PALETTE_ROWS {
        Some((((column - grid_x) / 2) as usize, (row - grid_y) as usize))
    } else {
        None
    }
}

/// The palette cell under the mouse, if any.
pub fn palette_cell_at(grid_x: u16, grid_y: u16, column: u16, row: u16) -> (r: Option<(usize, usize)>)
    requires
        grid_x + 48 <= u16::MAX,
        grid_y + PALETTE_ROWS <= u16::MAX,
    ensures
        r == palette_cell_spec(grid_x, grid_y, column, row),
        r matches Some(c) ==> c.0 < PALETTE_COLS && c.1 < PALETTE_ROWS,
{
    if column >= grid_x && column < grid_x + 48 && row >= grid_y && row < grid_y + 10 {
        Some((((column - grid_x) / 2) as usize, (row - grid_y) as usize))
    } else {
        None
    }
}

/// The offset along the hue bar (48 columns from `bar_x`, on the bar's row
/// or the marker row below it) under the mouse, if any.
pub fn hue_bar_offset(bar_x: u16, bar_row: u16, marker_row: u16, column: u16, row: u16) -> (r: Option<usize>)
    requires
        bar_x + 48 <= u16::MAX,
    ensures
        r == (if bar_x <= column < bar_x + 48 && (row == bar_row || row == marker_row) {
            Some((column - bar_x) as usize)
        } else {
            None::<usize>
        }),
{
    if column >= bar_x && column < bar_x + 48 && (row == bar_row || row == marker_row) {
        Some((column - bar_x) as usize)
    } else {
        None
    }
}

// ---------------------------------------------------------------------------
// Laws
// ---------------------------------------------------------------------------

/// A step up then a step down (or the other way round) through a list
/// returns the cursor to where it was.
pub proof fn law_step_up_down(c: usize, n: usize)
    requires
        c < n,
    ensures
        step_down(step_up(c, n), n) == c,
        step_up(step_down(c, n), n) == c,
{
    if c == 0 {
        vstd::arithmetic::div_mod::lemma_mod_self_0(n as int);
    } else {
        vstd::arithmetic::div_mod::lemma_small_mod(c as nat, n as nat);
    }
    if c + 1 < n {
        vstd::arithmetic::div_mod::lemma_small_mod((c + 1) as nat, n as nat);
    } else {
        vstd::arithmetic::div_mod::lemma_mod_self_0(n as int);
    }
}

/// Backspace removes a character that typing took.
pub proof fn law_backspace_undoes_typing(input: Seq<char>, c: char)
    requires
        is_hex_digit(c) || c == '#',
        byte_len(input) < 7,
    ensures
        erased(typed(input, c)) == input,
{
    assert(input.push(c).drop_last() =~= input);
}

} // verus!
