use libran::settings_lines::{settings_item_lines, SettingsLine};
use libran::theme::available_themes;
use libran::settings::{
    bool_display, get_theme_color, handle_main_enter, is_valid_hex, item_value_str,
    match_status_label, picker_start_color, set_theme_color, truncate_label, viewer_mode,
    MatchStatus, SettingsDefaults, SettingsModel, SettingsPanel, ViewerMode, MAIN_BG_FORCE,
    MAIN_GLYPH_SET, MAIN_PDF_VIEWER, MAIN_RESET, MAIN_SIDEBAR_WIDTH, MAIN_THEME,
};
use libran::theme::{
    from_config_with_base, is_safe_theme_name, progress_bar_spans, quantize_to_256, theme_base_for, BgConfig, Color,
    ColorConfig, Theme, ThemeBase, ThemeConfig,
};

fn empty_config() -> ThemeConfig {
    ThemeConfig {
        bg: BgConfig { color: None, force: true },
        surface: None,
        fg: None,
        accent_primary: None,
        accent_secondary: None,
        dim: None,
        divider: None,
        selected: None,
        focus_bg: None,
        focus_fg: None,
        title: None,
        meta: None,
        key: None,
        tag: None,
        udc: None,
        error: None,
        warning: None,
        code: None,
        success: None,
        search_bg: None,
        title_bold: None,
        title_underline: None,
        header_bold: None,
        header_underline: None,
        layout: None,
        border: None,
        borders: None,
        glyphs: None,
        progress: None,
        scrollbar: None,
        status: None,
    }
}

fn hex(s: &str) -> Option<ColorConfig> {
    Some(ColorConfig { hex: s.to_string() })
}

// ---------------------------------------------------------------------------
// Themes
// ---------------------------------------------------------------------------

#[test]
fn theme_default_has_blue_accent() {
    let t = Theme::dark(true);
    assert_eq!(t.accent_primary, Color::Rgb(107, 155, 210));
}

#[test]
fn theme_force_bg_defaults_to_true() {
    assert!(Theme::dark(true).force_bg);
    assert!(Theme::dark(false).force_bg);
}

#[test]
fn theme_bg_color_returns_rgb_when_forced() {
    let mut t = Theme::dark(true);
    t.force_bg = true;
    t.bg = Color::Rgb(10, 20, 30);
    assert_eq!(t.bg_color(), Color::Rgb(10, 20, 30));
}

#[test]
fn theme_bg_color_returns_reset_when_not_forced() {
    let mut t = Theme::dark(true);
    t.force_bg = false;
    assert_eq!(t.bg_color(), Color::Reset);
}

#[test]
fn quantize_black_is_indexed_16() {
    assert_eq!(quantize_to_256(0, 0, 0), Color::Indexed(16));
}

#[test]
fn quantize_white_is_indexed_231() {
    assert_eq!(quantize_to_256(255, 255, 255), Color::Indexed(231));
}

#[test]
fn quantize_gray_is_grayscale_ramp() {
    let c = quantize_to_256(128, 128, 128);
    assert!(matches!(c, Color::Indexed(idx) if idx >= 232));
    assert_eq!(c, Color::Indexed(244));
}

#[test]
fn quantize_red_is_color_cube() {
    assert_eq!(quantize_to_256(205, 0, 0), Color::Indexed(160));
}

#[test]
fn quantize_cube_levels() {
    assert_eq!(quantize_to_256(47, 48, 115), Color::Indexed(16 + 6 + 2));
    assert_eq!(quantize_to_256(235, 0, 1), Color::Indexed(16 + 36 * 5));
}

#[test]
fn dark_theme_without_truecolor_is_quantized() {
    let t = Theme::dark(false);
    assert_eq!(t.bg, quantize_to_256(22, 22, 22));
    assert_eq!(t.accent_primary, quantize_to_256(107, 155, 210));
}

#[test]
fn empty_config_keeps_base() {
    let t = from_config_with_base(&empty_config(), Theme::dark(true), true);
    let d = Theme::dark(true);
    assert_eq!(t.bg, d.bg);
    assert_eq!(t.fg, d.fg);
    assert_eq!(t.accent_primary, d.accent_primary);
    assert_eq!(t.active_pointer, d.active_pointer);
    assert!(t.force_bg);
}

#[test]
fn config_colors_override_base() {
    let mut cfg = empty_config();
    cfg.fg = hex("#102030");
    cfg.accent_primary = hex("zzzzzz");
    cfg.bg.force = false;
    let t = from_config_with_base(&cfg, Theme::dark(true), true);
    assert_eq!(t.fg, Color::Rgb(0x10, 0x20, 0x30));
    // an invalid color keeps the base's
    assert_eq!(t.accent_primary, Theme::dark(true).accent_primary);
    assert!(!t.force_bg);
    assert_eq!(t.bg_color(), Color::Reset);
}

#[test]
fn color_config_parsing() {
    assert_eq!(ColorConfig { hex: "#6B9BD2".into() }.to_rgb(), Some((107, 155, 210)));
    assert_eq!(ColorConfig { hex: "6b9bd2".into() }.to_rgb(), Some((107, 155, 210)));
    assert_eq!(ColorConfig { hex: "#6B9BD".into() }.to_rgb(), None);
    assert_eq!(ColorConfig { hex: "#GGGGGG".into() }.to_rgb(), None);
}

#[test]
fn theme_names() {
    assert_eq!(theme_base_for("light"), ThemeBase::Light);
    assert_eq!(theme_base_for("dark"), ThemeBase::Dark);
    assert!(is_safe_theme_name("solarized-dark"));
    assert!(!is_safe_theme_name("../etc"));
}

// ---------------------------------------------------------------------------
// Settings
// ---------------------------------------------------------------------------

fn model(cursor: usize) -> SettingsModel {
    SettingsModel {
        panel: Some(SettingsPanel {
            active_tab: 0,
            cursor,
            editing: false,
            edit_input: String::new(),
            theme_dropdown_open: false,
            available_themes: vec![],
            theme_cursor: 0,
            color_picker_open: false,
            picker_grid_x: 0,
            picker_grid_y: 0,
            theme_color_cursor: 0,
        }),
        panel_mode: true,
        theme_name: "light".to_string(),
        bg_force: true,
        glyph_set: "circles".to_string(),
        viewer_command: None,
        left_panel_width: 30,
        show_widget_panel: true,
        command_mode: false,
        command_input: String::new(),
    }
}

fn defaults() -> SettingsDefaults {
    SettingsDefaults { theme_name: "dark".to_string(), bg_force: true, glyph_set: "circles".to_string() }
}

#[test]
fn enter_on_theme_opens_dropdown_at_current() {
    let mut m = model(MAIN_THEME);
    let out = handle_main_enter(&mut m, vec!["dark".to_string(), "light".to_string()], &defaults());
    let p = m.panel.as_ref().unwrap();
    assert!(p.editing && p.theme_dropdown_open);
    assert_eq!(p.theme_cursor, 1);
    assert!(!out.save);
    assert!(out.status.is_none());
}

#[test]
fn enter_on_bg_force_toggles() {
    let mut m = model(MAIN_BG_FORCE);
    let out = handle_main_enter(&mut m, vec![], &defaults());
    assert!(!m.bg_force);
    assert!(out.save);
    assert_eq!(out.status, Some("배경 강제 토글됨"));
}

#[test]
fn enter_on_sidebar_width_resets() {
    let mut m = model(MAIN_SIDEBAR_WIDTH);
    let out = handle_main_enter(&mut m, vec![], &defaults());
    assert!(out.reset_left_panel);
    assert!(!out.save);
}

#[test]
fn enter_on_glyphs_toggles_twice_back() {
    let mut m = model(MAIN_GLYPH_SET);
    handle_main_enter(&mut m, vec![], &defaults());
    assert_eq!(m.glyph_set, "ballot");
    handle_main_enter(&mut m, vec![], &defaults());
    assert_eq!(m.glyph_set, "circles");
}

#[test]
fn enter_on_viewer_cycles() {
    let mut m = model(MAIN_PDF_VIEWER);
    assert_eq!(viewer_mode(&m.viewer_command), ViewerMode::Sioyek);
    let out = handle_main_enter(&mut m, vec![], &defaults());
    assert_eq!(viewer_mode(&m.viewer_command), ViewerMode::Okular);
    assert_eq!(m.viewer_command, Some(vec!["okular".to_string(), "%p".to_string()]));
    assert_eq!(out.status, Some("PDF 뷰어: Okular (자동 동기화)"));
    assert_eq!(m.left_panel_width, 30);
    handle_main_enter(&mut m, vec![], &defaults());
    assert_eq!(viewer_mode(&m.viewer_command), ViewerMode::Preview);
    assert_eq!(
        m.viewer_command,
        Some(vec!["open".to_string(), "-a".to_string(), "Preview".to_string(), "%p".to_string()])
    );
    handle_main_enter(&mut m, vec![], &defaults());
    assert_eq!(viewer_mode(&m.viewer_command), ViewerMode::Sioyek);
    assert_eq!(m.viewer_command, None);
}

#[test]
fn enter_on_reset_restores_defaults() {
    let mut m = model(MAIN_RESET);
    m.bg_force = false;
    m.glyph_set = "ballot".to_string();
    let out = handle_main_enter(&mut m, vec![], &defaults());
    assert_eq!(m.theme_name, "dark");
    assert!(m.bg_force);
    assert_eq!(m.glyph_set, "circles");
    assert!(out.save);
}

#[test]
fn item_values() {
    let m = model(MAIN_THEME);
    assert_eq!(item_value_str(&m, MAIN_THEME), "light");
    assert_eq!(item_value_str(&m, MAIN_BG_FORCE), "강제");
    assert_eq!(item_value_str(&m, MAIN_SIDEBAR_WIDTH), "30 열");
    assert_eq!(item_value_str(&m, MAIN_GLYPH_SET), "circles");
    assert_eq!(item_value_str(&m, MAIN_PDF_VIEWER), "Sioyek (기본값 / 자동 동기화)");
    let mut e = model(MAIN_GLYPH_SET);
    e.panel.as_mut().unwrap().editing = true;
    e.panel.as_mut().unwrap().edit_input = "abc".to_string();
    assert_eq!(item_value_str(&e, MAIN_GLYPH_SET), "abc█");
}

#[test]
fn viewer_modes() {
    let cmd = |v: &[&str]| Some(v.iter().map(|s| s.to_string()).collect::<Vec<_>>());
    assert_eq!(viewer_mode(&None), ViewerMode::Sioyek);
    assert_eq!(viewer_mode(&cmd(&["okular"])), ViewerMode::Okular);
    assert_eq!(viewer_mode(&cmd(&["open", "-a", "Preview"])), ViewerMode::Preview);
    assert_eq!(viewer_mode(&cmd(&["zathura"])), ViewerMode::Custom);
}

#[test]
fn small_helpers() {
    assert!(is_valid_hex("#a1B2c3"));
    assert!(is_valid_hex("a1B2c3"));
    assert!(!is_valid_hex("#a1B2c"));
    assert!(!is_valid_hex("#a1B2cg"));
    assert_eq!(bool_display(true, "on", "off"), "on");
    assert_eq!(bool_display(false, "on", "off"), "off");
    assert_eq!(truncate_label("short", 10), "short");
    assert_eq!(truncate_label("a longer label", 6), "a lon…");
    assert_eq!(match_status_label(&MatchStatus::AutoDoi), "DOI");
    assert_eq!(match_status_label(&MatchStatus::Manual), "⊕수동");
}

#[test]
fn theme_color_read_after_write() {
    let mut cfg = empty_config();
    assert!(get_theme_color(&cfg, 2).is_none());
    set_theme_color(&mut cfg, 2, hex("#010203"));
    assert_eq!(get_theme_color(&cfg, 2).unwrap().hex, "#010203");
    assert!(get_theme_color(&cfg, 3).is_none());
    assert_eq!(picker_start_color(&cfg, 2, &Theme::dark(true)), (1, 2, 3));
    // unset: the current theme's truecolor value
    assert_eq!(picker_start_color(&cfg, 3, &Theme::dark(true)), (107, 155, 210));
}

// ---------------------------------------------------------------------------
// Keys
// ---------------------------------------------------------------------------

use libran::settings_keys::{
    handle_key, hue_bar_offset, open_color_picker, palette_cell_at, SettingsKey, TAB_THEME,
    TC_RESET,
};

fn key(m: &mut SettingsModel, t: &mut ThemeConfig, k: SettingsKey) -> libran::settings::EnterOutcome {
    handle_key(m, t, k, ColorConfig { hex: "#102030".to_string() }, vec!["dark".into(), "light".into()], &defaults())
}

#[test]
fn main_tab_cursor_wraps_and_closes() {
    let mut m = model(0);
    let mut t = empty_config();
    key(&mut m, &mut t, SettingsKey::Up);
    assert_eq!(m.panel.as_ref().unwrap().cursor, 7);
    key(&mut m, &mut t, SettingsKey::Down);
    assert_eq!(m.panel.as_ref().unwrap().cursor, 0);
    let out = key(&mut m, &mut t, SettingsKey::Char('q'));
    assert!(m.panel.is_none() && !m.panel_mode);
    assert!(!out.save && out.status.is_none());
}

#[test]
fn sidebar_width_keys() {
    let mut m = model(MAIN_SIDEBAR_WIDTH);
    let mut t = empty_config();
    assert_eq!(key(&mut m, &mut t, SettingsKey::Char('+')).resize_left_panel, 2);
    assert_eq!(key(&mut m, &mut t, SettingsKey::Char('-')).resize_left_panel, -2);
    assert!(key(&mut m, &mut t, SettingsKey::Char('=')).reset_left_panel);
    let mut other = model(MAIN_THEME);
    assert_eq!(key(&mut other, &mut t, SettingsKey::Char('+')).resize_left_panel, 0);
}

#[test]
fn tab_switches_and_resets_cursors() {
    let mut m = model(3);
    let mut t = empty_config();
    key(&mut m, &mut t, SettingsKey::Tab);
    let p = m.panel.as_ref().unwrap();
    assert_eq!(p.active_tab, TAB_THEME);
    assert_eq!(p.cursor, 0);
    key(&mut m, &mut t, SettingsKey::Tab);
    assert_eq!(m.panel.as_ref().unwrap().active_tab, 0);
}

#[test]
fn theme_tab_enter_opens_picker_or_resets() {
    let mut m = model(0);
    let mut t = empty_config();
    key(&mut m, &mut t, SettingsKey::Tab);
    key(&mut m, &mut t, SettingsKey::Down);
    key(&mut m, &mut t, SettingsKey::Down);
    let out = key(&mut m, &mut t, SettingsKey::Enter);
    assert_eq!(out.open_picker, Some(2));
    key(&mut m, &mut t, SettingsKey::Up);
    key(&mut m, &mut t, SettingsKey::Up);
    key(&mut m, &mut t, SettingsKey::Up);
    assert_eq!(m.panel.as_ref().unwrap().theme_color_cursor, TC_RESET);
    let out = key(&mut m, &mut t, SettingsKey::Enter);
    assert!(out.reset_theme_colors && out.save);
    assert_eq!(out.status, Some("테마 색상이 기본값으로 초기화되었습니다."));
}

#[test]
fn picker_moves_and_takes_color() {
    let mut m = model(0);
    let mut t = empty_config();
    key(&mut m, &mut t, SettingsKey::Tab);
    key(&mut m, &mut t, SettingsKey::Down);
    open_color_picker(m.panel.as_mut().unwrap(), 99, 3);
    let p = m.panel.as_ref().unwrap();
    assert!(p.color_picker_open && p.editing);
    assert_eq!((p.picker_grid_x, p.picker_grid_y), (23, 3));
    key(&mut m, &mut t, SettingsKey::Right);
    assert_eq!(m.panel.as_ref().unwrap().picker_grid_x, 0);
    key(&mut m, &mut t, SettingsKey::Up);
    assert_eq!(m.panel.as_ref().unwrap().picker_grid_y, 2);
    let out = key(&mut m, &mut t, SettingsKey::Enter);
    assert!(out.save);
    assert_eq!(out.status, Some("색상이 변경되었습니다."));
    assert_eq!(get_theme_color(&t, 1).unwrap().hex, "#102030");
    assert!(!m.panel.as_ref().unwrap().color_picker_open);
}

#[test]
fn dropdown_chooses_theme() {
    let mut m = model(MAIN_THEME);
    let mut t = empty_config();
    key(&mut m, &mut t, SettingsKey::Enter);
    assert!(m.panel.as_ref().unwrap().theme_dropdown_open);
    assert_eq!(m.panel.as_ref().unwrap().theme_cursor, 1);
    key(&mut m, &mut t, SettingsKey::Down);
    assert_eq!(m.panel.as_ref().unwrap().theme_cursor, 0);
    let out = key(&mut m, &mut t, SettingsKey::Enter);
    assert_eq!(m.theme_name, "dark");
    assert!(out.save);
    assert!(!m.panel.as_ref().unwrap().theme_dropdown_open);
}

#[test]
fn typing_a_color() {
    let mut m = model(0);
    let mut t = empty_config();
    key(&mut m, &mut t, SettingsKey::Tab);
    key(&mut m, &mut t, SettingsKey::Down);
    m.panel.as_mut().unwrap().editing = true;
    for c in "#a1b2c3ff".chars() {
        key(&mut m, &mut t, SettingsKey::Char(c));
    }
    key(&mut m, &mut t, SettingsKey::Char('z'));
    assert_eq!(m.panel.as_ref().unwrap().edit_input, "#a1b2c3");
    key(&mut m, &mut t, SettingsKey::Backspace);
    assert_eq!(m.panel.as_ref().unwrap().edit_input, "#a1b2c");
    let out = key(&mut m, &mut t, SettingsKey::Enter);
    assert_eq!(out.status, Some("잘못된 색상 형식 (예: #94A3B8)"));
    assert!(!out.save);
    assert!(get_theme_color(&t, 1).is_none());
    m.panel.as_mut().unwrap().editing = true;
    for c in "A1B2C3".chars() {
        key(&mut m, &mut t, SettingsKey::Char(c));
    }
    let out = key(&mut m, &mut t, SettingsKey::Enter);
    assert!(out.save);
    assert_eq!(get_theme_color(&t, 1).unwrap().hex, "A1B2C3");
    assert!(!m.panel.as_ref().unwrap().editing);
    assert_eq!(m.panel.as_ref().unwrap().edit_input, "");
}

#[test]
fn mouse_hits() {
    assert_eq!(palette_cell_at(10, 5, 10, 5), Some((0, 0)));
    assert_eq!(palette_cell_at(10, 5, 57, 14), Some((23, 9)));
    assert_eq!(palette_cell_at(10, 5, 58, 14), None);
    assert_eq!(palette_cell_at(10, 5, 12, 15), None);
    assert_eq!(hue_bar_offset(10, 16, 17, 20, 17), Some(10));
    assert_eq!(hue_bar_offset(10, 16, 17, 20, 18), None);
}

#[test]
fn progress_bar_parts() {
    let t = Theme::dark(true);
    assert_eq!(progress_bar_spans(&t, 50, 10), ("━━━━━".to_string(), "─────".to_string()));
    assert_eq!(progress_bar_spans(&t, 250, 4), ("━━━━".to_string(), String::new()));
    assert_eq!(progress_bar_spans(&t, 33, 10), ("━━━".to_string(), "───────".to_string()));
    assert_eq!(progress_bar_spans(&t, 0, 3), (String::new(), "───".to_string()));
}

#[test]
fn available_themes_lists_builtin_then_custom_files() {
    let files: Vec<String> = ["forest.toml", "sample_custom.toml", "dark.toml", "notes.txt", ".toml", "ocean.toml", "a.b.toml"]
        .iter()
        .map(|s| s.to_string())
        .collect();
    assert_eq!(
        available_themes(&files),
        vec!["dark", "light", "forest", "ocean", "a.b"]
            .into_iter()
            .map(|s| s.to_string())
            .collect::<Vec<String>>()
    );
    assert_eq!(available_themes(&Vec::new()), vec!["dark".to_string(), "light".to_string()]);
}

fn padded(s: &str) -> String {
    format!("{:<14}", s)
}

#[test]
fn settings_main_tab_lines() {
    let m = model(MAIN_SIDEBAR_WIDTH);
    let lines = settings_item_lines(&m, &empty_config());
    assert_eq!(lines.len(), 15);
    assert_eq!(lines[0], SettingsLine::Heading(" 외관 · Appearance ".to_string()));
    assert_eq!(lines[1], SettingsLine::Divider);
    assert_eq!(
        lines[2],
        SettingsLine::Item(false, padded("테마 이름"), Some("light".to_string()))
    );
    assert_eq!(
        lines[4],
        SettingsLine::Item(true, padded("사이드바 너비"), Some("30 열".to_string()))
    );
    assert_eq!(
        lines[6],
        SettingsLine::Item(false, padded("PDF 뷰어"), Some("Sioyek (기본값 / 자동 동기화)".to_string()))
    );
    assert_eq!(lines[7], SettingsLine::Blank);
    assert_eq!(lines[8], SettingsLine::Heading(" 도구 · Tools ".to_string()));
    assert_eq!(lines[10], SettingsLine::Item(false, padded("▶ 위젯 패널 열기"), None));
    assert_eq!(lines[14], SettingsLine::Reset(false, padded("기본값으로 초기화")));
}

#[test]
fn settings_theme_tab_lines() {
    let mut m = model(0);
    if let Some(p) = m.panel.as_mut() {
        p.active_tab = 1;
        p.theme_color_cursor = 2;
    }
    let mut cfg = empty_config();
    cfg.bg.color = hex("#0a1b2c");
    cfg.surface = hex("nothex");
    let lines = settings_item_lines(&m, &cfg);
    assert_eq!(lines.len(), 21);
    assert_eq!(
        lines[0],
        SettingsLine::Note(" 각 항목에서 Enter → 컬러 피커 또는 #RRGGBB 직접 입력 ".to_string())
    );
    assert_eq!(lines[1], SettingsLine::Item(false, padded("배경색"), Some("#0A1B2C".to_string())));
    assert_eq!(lines[2], SettingsLine::Item(false, padded("표면색"), Some("(잘못됨)".to_string())));
    assert_eq!(lines[3], SettingsLine::Item(true, padded("전경색"), Some("기본값".to_string())));
    assert_eq!(lines[20], SettingsLine::Reset(false, "── 기본값으로 초기화 ──".to_string()));
    if let Some(p) = m.panel.as_mut() {
        p.editing = true;
        p.edit_input = "#12".to_string();
    }
    let editing = settings_item_lines(&m, &cfg);
    assert_eq!(editing[3], SettingsLine::Item(true, padded("전경색"), Some("#12█".to_string())));
}

#[test]
fn quantize_light_gray_238_stays_on_the_ramp() {
    assert_eq!(quantize_to_256(238, 238, 238), Color::Indexed(255));
    assert_eq!(quantize_to_256(128, 128, 128), Color::Indexed(244));
    assert_eq!(quantize_to_256(205, 0, 0), Color::Indexed(160));
}
