use libran::dialog::{
    section_entry, section_window, CitationLanguage, CitationStyle, DialogSection, DisplayMode,
    EntryLook, ExportDialogState,
};
use libran::documents::Document;
use libran::export::{
    custom_format_names, export, export_custom, get_custom_format, register_custom_format,
    register_custom_formats, substitute_template, CustomFormats, ExportError, ExportFormat,
    ExportFormatConfig,
};
use std::collections::HashSet;

fn make_doc() -> Document {
    Document {
        id: Some(1),
        title: "Deep learning".to_string(),
        authors: Some("Smith, John".to_string()),
        journal: Some("Nature".to_string()),
        conference: None,
        pub_year: Some(2023),
        doi: Some("10.1234/test".to_string()),
        arxiv_id: None,
        abstract_text: None,
        keywords: None,
        file_path: None,
        file_hash: None,
        citation_key: None,
        source: None,
        rating: None,
        ..Default::default()
    }
}

// ── dialog ──

#[test]
fn test_tab_cycles_through_sections() {
    let mut state = ExportDialogState::new();
    assert_eq!(state.focused_section, DialogSection::Format);
    state.tab_next();
    assert_eq!(state.focused_section, DialogSection::Style);
    state.tab_next();
    assert_eq!(state.focused_section, DialogSection::Language);
    state.tab_next();
    assert_eq!(state.focused_section, DialogSection::Preview);
    state.tab_next();
    assert_eq!(state.focused_section, DialogSection::Format);
}

#[test]
fn test_tab_prev_cycles_backwards() {
    let mut state = ExportDialogState::new();
    state.tab_prev();
    assert_eq!(state.focused_section, DialogSection::Preview);
    state.tab_prev();
    assert_eq!(state.focused_section, DialogSection::Language);
}

#[test]
fn test_format_cursor_cycles_through_all() {
    let mut state = ExportDialogState::new();
    assert_eq!(state.selected_format, ExportFormat::Bibtex);
    state.cursor_down();
    assert_eq!(state.selected_format, ExportFormat::Bookmarks);
    state.cursor_down();
    assert_eq!(state.selected_format, ExportFormat::Cff);
    state.cursor_up();
    assert_eq!(state.selected_format, ExportFormat::Bookmarks);
    state.cursor_up();
    assert_eq!(state.selected_format, ExportFormat::Bibtex);
}

#[test]
fn test_style_cursor_cycles_all_styles() {
    let mut state = ExportDialogState::new();
    state.focused_section = DialogSection::Style;
    assert_eq!(state.selected_style, CitationStyle::Apa7th);
    state.cursor_down();
    assert_ne!(state.selected_style, CitationStyle::Apa7th);
    state.cursor_up();
    assert_eq!(state.selected_style, CitationStyle::Apa7th);
}

#[test]
fn test_language_cursor_wraps() {
    let mut state = ExportDialogState::new();
    state.focused_section = DialogSection::Language;
    assert_eq!(state.selected_language, CitationLanguage::English);
    state.cursor_down();
    assert_eq!(state.selected_language, CitationLanguage::Korean);
    state.cursor_down();
    assert_eq!(state.selected_language, CitationLanguage::Japanese);
    state.cursor_down();
    assert_eq!(state.selected_language, CitationLanguage::Chinese);
    state.cursor_down();
    assert_eq!(state.selected_language, CitationLanguage::English);
}

#[test]
fn test_display_mode_not_active_for_apa() {
    let state = ExportDialogState::new();
    assert!(!state.is_display_mode_active());
}

#[test]
fn format_cursor_wraps_backwards_to_the_last_format() {
    let mut state = ExportDialogState::new();
    state.selected_format = ExportFormat::BibliontologyRdf;
    state.cursor_up();
    assert_eq!(state.selected_format, ExportFormat::WikidataQuickStatements);
    assert_eq!(state.format_cursor, 15);
}

#[test]
fn notes_style_shows_display_mode_and_focus_leaves_it() {
    let mut state = ExportDialogState::new();
    state.selected_style = CitationStyle::Chicago18th;
    assert!(state.is_display_mode_active());
    state.focused_section = DialogSection::DisplayMode;
    state.cursor_down();
    assert_eq!(state.display_mode, DisplayMode::Footnotes);
    state.cursor_up();
    assert_eq!(state.display_mode, DisplayMode::InText);
    // Leaving a notes style while focused on the display mode moves the focus on.
    state.focused_section = DialogSection::DisplayMode;
    state.move_style_cursor(1);
    assert_eq!(state.selected_style, CitationStyle::CiteThemRightHarvard);
    assert_eq!(state.focused_section, DialogSection::Format);
}

#[test]
fn tab_then_shift_tab_returns() {
    for section in [
        DialogSection::Format,
        DialogSection::Style,
        DialogSection::Language,
        DialogSection::Preview,
    ] {
        let mut state = ExportDialogState::new();
        state.focused_section = section;
        state.tab_next();
        state.tab_prev();
        assert_eq!(state.focused_section, section);
    }
}

#[test]
fn preview_shows_rendering_or_error() {
    let mut state = ExportDialogState::new();
    state.update_preview(Ok("Smith, J. (2023). Deep learning.".to_string()));
    assert!(state.preview_text.contains("Smith, J. (2023)"));
    state.update_preview(Err("no authors".to_string()));
    assert_eq!(state.preview_text, "[APA 7th] no authors");
}

// ── formats ──

#[test]
fn test_all_formats_are_implemented() {
    for format in ExportFormat::all() {
        assert!(format.is_implemented(), "{:?} should be implemented", format);
    }
}

#[test]
fn test_all_formats_have_unique_extensions_and_names() {
    let all = ExportFormat::all();
    assert_eq!(all.len(), 16, "should have 16 formats");

    let mut extensions = HashSet::new();
    let mut names = HashSet::new();
    for format in &all {
        extensions.insert(format.file_extension().to_string());
        names.insert(format.format_name().to_string());
    }
    assert_eq!(names.len(), 16, "all format names should be unique");
}

#[test]
fn test_custom_format_registered() {
    let mut formats = CustomFormats::new();
    let config = ExportFormatConfig {
        name: "test_registered_fmt".to_string(),
        file_extension: "txt".to_string(),
        template: "{title} - {authors} ({year})".to_string(),
    };
    register_custom_format(&mut formats, config);

    assert!(get_custom_format(&formats, "test_registered_fmt").is_some());
    assert!(ExportFormat::from_str("test_registered_fmt", &formats).is_some());
}

#[test]
fn test_custom_format_generates() {
    let mut formats = CustomFormats::new();
    let config = ExportFormatConfig {
        name: "test_gen_fmt".to_string(),
        file_extension: "txt".to_string(),
        template: "{title} | {authors} | {year} | {doi} | {journal} | {abstract}".to_string(),
    };
    register_custom_format(&mut formats, config);

    let doc = Document {
        title: "Deep Learning".to_string(),
        authors: Some("Smith, John".to_string()),
        journal: Some("Nature".to_string()),
        pub_year: Some(2023),
        doi: Some("10.1234/test".to_string()),
        abstract_text: Some("A survey of deep learning methods.".to_string()),
        ..Default::default()
    };

    let out = export(&[doc], ExportFormat::Custom("test_gen_fmt".to_string()), &formats).unwrap();
    assert!(out.contains("Deep Learning"), "missing title: {out}");
    assert!(out.contains("Smith, John"), "missing authors: {out}");
    assert!(out.contains("2023"), "missing year: {out}");
    assert!(out.contains("10.1234/test"), "missing doi: {out}");
    assert!(out.contains("Nature"), "missing journal: {out}");
    assert!(
        out.contains("A survey of deep learning methods."),
        "missing abstract: {out}"
    );
}

#[test]
fn format_keys_round_trip() {
    let formats = CustomFormats::new();
    for format in ExportFormat::all() {
        assert_eq!(ExportFormat::from_str(format.as_str(), &formats), Some(format.clone()));
    }
    assert_eq!(ExportFormat::from_str("nope", &formats), None);
}

#[test]
fn registering_again_replaces_by_name() {
    let mut formats = CustomFormats::new();
    let a = ExportFormatConfig {
        name: "mine".to_string(),
        file_extension: "txt".to_string(),
        template: "{title}".to_string(),
    };
    let b = ExportFormatConfig {
        name: "mine".to_string(),
        file_extension: "md".to_string(),
        template: "- {title}".to_string(),
    };
    register_custom_formats(&mut formats, &[a, b]);
    assert_eq!(custom_format_names(&formats), vec!["mine".to_string()]);
    assert_eq!(get_custom_format(&formats, "mine").unwrap().file_extension, "md");
}

#[test]
fn template_substitution_exact() {
    let doc = make_doc();
    assert_eq!(
        substitute_template("{title} ({year}) {doi} {abstract}!", &doc),
        "Deep learning (2023) 10.1234/test !"
    );
    let mut d2 = make_doc();
    d2.pub_year = Some(-45);
    assert_eq!(substitute_template("{year}{year}", &d2), "-45-45");
}

#[test]
fn custom_export_one_document_per_line() {
    let config = ExportFormatConfig {
        name: "t".to_string(),
        file_extension: "txt".to_string(),
        template: "{title}".to_string(),
    };
    let mut other = make_doc();
    other.title = "Second".to_string();
    assert_eq!(export_custom(&[make_doc(), other], &config), "Deep learning\nSecond");
    assert_eq!(export_custom(&[], &config), "");
}

#[test]
fn export_errors() {
    let formats = CustomFormats::new();
    assert_eq!(
        export(&[make_doc()], ExportFormat::Custom("missing".to_string()), &formats),
        Err(ExportError::UnknownCustomFormat("missing".to_string()))
    );
    assert_eq!(
        export(&[make_doc()], ExportFormat::Ris, &formats),
        Err(ExportError::UnsupportedFormat("ris".to_string()))
    );
}

#[test]
fn format_properties() {
    assert_eq!(ExportFormat::Bibtex.file_extension(), "bib");
    assert_eq!(ExportFormat::Custom("x".to_string()).file_extension(), "txt");
    assert_eq!(ExportFormat::EvernoteExport.format_name(), "Simple Evernote Export");
    assert!(ExportFormat::Bookmarks.is_style_dependent());
    assert!(!ExportFormat::Ris.is_style_dependent());
    assert_eq!(ExportFormat::WikidataQuickStatements.as_str(), "wikidata_quick_statements");
}

#[test]
fn section_window_keeps_cursor_visible() {
    assert_eq!(section_window(3, 2), (0, 3));
    assert_eq!(section_window(13, 0), (0, 5));
    assert_eq!(section_window(13, 1), (0, 5));
    assert_eq!(section_window(13, 6), (4, 9));
    assert_eq!(section_window(13, 11), (8, 13));
    assert_eq!(section_window(13, 12), (8, 13));
    for total in 0..20usize {
        for cursor in 0..total {
            let (s, e) = section_window(total, cursor);
            assert!(s <= cursor && cursor < e && e <= total);
        }
    }
}

#[test]
fn section_entries() {
    assert_eq!(section_entry("APA", true, true, true), ("  ► APA".to_string(), EntryLook::Focused));
    assert_eq!(section_entry("APA", true, false, true), ("    APA".to_string(), EntryLook::Chosen));
    assert_eq!(section_entry("RIS", false, true, false), ("    RIS (미구현)".to_string(), EntryLook::Dimmed));
    assert_eq!(section_entry("MLA", false, false, true), ("    MLA".to_string(), EntryLook::Plain));
}
