//! The export dialog: citation style, language and display mode choices,
//! and the focus and cursor moves between its sections.
use vstd::prelude::*;
use crate::export::{builtin_formats, ExportFormat};

verus! {

/// A citation style.
#[derive(Clone, Copy, Debug, PartialEq, Eq, Structural)]
pub enum CitationStyle {
    Apa7th,
    Acs,
    Ama,
    Apsa,
    Asa,
    Chicago18th,
    CiteThemRightHarvard,
    ElsevierHarvard,
    Ieee,
    Mhra,
    Mla9th,
    Nature,
    NlmVancouver,
}

pub open spec fn styles() -> Seq<CitationStyle> {
    seq![
        CitationStyle::Apa7th,
        CitationStyle::Acs,
        CitationStyle::Ama,
        CitationStyle::Apsa,
        CitationStyle::Asa,
        CitationStyle::Chicago18th,
        CitationStyle::CiteThemRightHarvard,
        CitationStyle::ElsevierHarvard,
        CitationStyle::Ieee,
        CitationStyle::Mhra,
        CitationStyle::Mla9th,
        CitationStyle::Nature,
        CitationStyle::NlmVancouver,
    ]
}

/// The position of a style in `styles()`.
pub open spec fn style_index(s: CitationStyle) -> int {
    match s {
        CitationStyle::Apa7th => 0,
        CitationStyle::Acs => 1,
        CitationStyle::Ama => 2,
        CitationStyle::Apsa => 3,
        CitationStyle::Asa => 4,
        CitationStyle::Chicago18th => 5,
        CitationStyle::CiteThemRightHarvard => 6,
        CitationStyle::ElsevierHarvard => 7,
        CitationStyle::Ieee => 8,
        CitationStyle::Mhra => 9,
        CitationStyle::Mla9th => 10,
        CitationStyle::Nature => 11,
        CitationStyle::NlmVancouver => 12,
    }
}

/// Footnote styles, for which a display mode is chosen.
pub open spec fn notes_based(s: CitationStyle) -> bool {
    s is Chicago18th || s is Mhra
}

pub open spec fn style_name(s: CitationStyle) -> Seq<char> {
    match s {
        CitationStyle::Apa7th => "APA 7th"@,
        CitationStyle::Acs => "ACS"@,
        CitationStyle::Ama => "AMA"@,
        CitationStyle::Apsa => "APSA"@,
        CitationStyle::Asa => "ASA"@,
        CitationStyle::Chicago18th => "Chicago 18th"@,
        CitationStyle::CiteThemRightHarvard => "Cite Them Right Harvard"@,
        CitationStyle::ElsevierHarvard => "Elsevier Harvard"@,
        CitationStyle::Ieee => "IEEE"@,
        CitationStyle::Mhra => "MHRA"@,
        CitationStyle::Mla9th => "MLA 9th"@,
        CitationStyle::Nature => "Nature"@,
        CitationStyle::NlmVancouver => "NLM/Vancouver"@,
    }
}

impl CitationStyle {
    /// The styles, in menu order.
    pub fn all() -> (r: Vec<CitationStyle>)
        ensures
            r@ == styles(),
    {
        let r = vec![
            CitationStyle::Apa7th,
            CitationStyle::Acs,
            CitationStyle::Ama,
            CitationStyle::Apsa,
            CitationStyle::Asa,
            CitationStyle::Chicago18th,
            CitationStyle::CiteThemRightHarvard,
            CitationStyle::ElsevierHarvard,
            CitationStyle::Ieee,
            CitationStyle::Mhra,
            CitationStyle::Mla9th,
            CitationStyle::Nature,
            CitationStyle::NlmVancouver,
        ];
        assert(r@ =~= styles());
        r
    }

    /// Every style is implemented.
    pub fn is_implemented(&self) -> (r: bool)
        ensures
            r,
    {
        true
    }

    /// Whether citations of the style go in notes.
    pub fn is_notes_based(&self) -> (r: bool)
        ensures
            r == notes_based(*self),
    {
        match self {
            CitationStyle::Chicago18th => true,
            CitationStyle::Mhra => true,
            _ => false,
        }
    }

    /// The name shown in the dialog.
    pub fn display_name(&self) -> (r: &'static str)
        ensures
            r@ == style_name(*self),
    {
        match self {
            CitationStyle::Apa7th => "APA 7th",
            CitationStyle::Acs => "ACS",
            CitationStyle::Ama => "AMA",
            CitationStyle::Apsa => "APSA",
            CitationStyle::Asa => "ASA",
            CitationStyle::Chicago18th => "Chicago 18th",
            CitationStyle::CiteThemRightHarvard => "Cite Them Right Harvard",
            CitationStyle::ElsevierHarvard => "Elsevier Harvard",
            CitationStyle::Ieee => "IEEE",
            CitationStyle::Mhra => "MHRA",
            CitationStyle::Mla9th => "MLA 9th",
            CitationStyle::Nature => "Nature",
            CitationStyle::NlmVancouver => "NLM/Vancouver",
        }
    }
}

/// The language of citation terms.
#[derive(Clone, Copy, Debug, PartialEq, Eq, Structural)]
pub enum CitationLanguage {
    English,
    Korean,
    Japanese,
    Chinese,
}

pub open spec fn languages() -> Seq<CitationLanguage> {
    seq![
        CitationLanguage::English,
        CitationLanguage::Korean,
        CitationLanguage::Japanese,
        CitationLanguage::Chinese,
    ]
}

pub open spec fn language_index(l: CitationLanguage) -> int {
    match l {
        CitationLanguage::English => 0,
        CitationLanguage::Korean => 1,
        CitationLanguage::Japanese => 2,
        CitationLanguage::Chinese => 3,
    }
}

impl CitationLanguage {
    /// The languages, in menu order.
    pub fn all() -> (r: Vec<CitationLanguage>)
        ensures
            r@ == languages(),
    {
        let r = vec![
            CitationLanguage::English,
            CitationLanguage::Korean,
            CitationLanguage::Japanese,
            CitationLanguage::Chinese,
        ];
        assert(r@ =~= languages());
        r
    }
}

/// Where the citations of a notes-based style go.
#[derive(Clone, Copy, Debug, PartialEq, Eq, Structural)]
pub enum DisplayMode {
    InText,
    Footnotes,
    Endnotes,
}

pub open spec fn display_modes() -> Seq<DisplayMode> {
    seq![DisplayMode::InText, DisplayMode::Footnotes, DisplayMode::Endnotes]
}

pub open spec fn mode_index(m: DisplayMode) -> int {
    match m {
        DisplayMode::InText => 0,
        DisplayMode::Footnotes => 1,
        DisplayMode::Endnotes => 2,
    }
}

/// A section of the export dialog.
#[derive(Clone, Copy, Debug, PartialEq, Eq, Structural)]
pub enum DialogSection {
    Format,
    Style,
    Language,
    DisplayMode,
    Preview,
}

/// The sections that focus cycles through: the display mode only for a
/// notes-based style.
pub open spec fn sections_for(style: CitationStyle) -> Seq<DialogSection> {
    if notes_based(style) {
        seq![
            DialogSection::Format,
            DialogSection::Style,
            DialogSection::Language,
            DialogSection::DisplayMode,
            DialogSection::Preview,
        ]
    } else {
        seq![
            DialogSection::Format,
            DialogSection::Style,
            DialogSection::Language,
            DialogSection::Preview,
        ]
    }
}

/// The first position of `f` in `secs`, from `i` on.
pub open spec fn position_in(secs: Seq<DialogSection>, f: DialogSection, i: int) -> Option<int>
    decreases secs.len() - i,
{
    if i < 0 || i >= secs.len() {
        None
    } else if secs[i] == f {
        Some(i)
    } else {
        position_in(secs, f, i + 1)
    }
}

/// The section after `f` in `secs`, wrapping; the first one when `f` is
/// not among them.
pub open spec fn next_section(secs: Seq<DialogSection>, f: DialogSection) -> DialogSection {
    match position_in(secs, f, 0) {
        Some(p) => secs[(p + 1) % (secs.len() as int)],
        None => secs[0],
    }
}

/// The section before `f` in `secs`, wrapping; the last one when `f` is not
/// among them.
pub open spec fn prev_section(secs: Seq<DialogSection>, f: DialogSection) -> DialogSection {
    match position_in(secs, f, 0) {
        Some(p) => if p == 0 {
            secs[secs.len() - 1]
        } else {
            secs[p - 1]
        },
        None => secs[secs.len() - 1],
    }
}

/// The position, in a cyclic list of `n` entries, one step from `pos`:
/// forward when `forward`, else backward.
pub open spec fn step(pos: int, n: int, forward: bool) -> int {
    if forward {
        (pos + 1) % n
    } else if pos == 0 {
        n - 1
    } else {
        pos - 1
    }
}

/// The position of a format among the built-in ones; 0 for a custom one.
pub open spec fn format_index(f: ExportFormat) -> int {
    match f {
        ExportFormat::BibliontologyRdf => 0,
        ExportFormat::Bibtex => 1,
        ExportFormat::Bookmarks => 2,
        ExportFormat::Cff => 3,
        ExportFormat::CffReferences => 4,
        ExportFormat::Coins => 5,
        ExportFormat::CslJson => 6,
        ExportFormat::Csv => 7,
        ExportFormat::EndnoteXml => 8,
        ExportFormat::Mods => 9,
        ExportFormat::ReferBibix => 10,
        ExportFormat::RefworksTagged => 11,
        ExportFormat::Ris => 12,
        ExportFormat::EvernoteExport => 13,
        ExportFormat::Tei => 14,
        ExportFormat::WikidataQuickStatements => 15,
        ExportFormat::Custom(_) => 0,
    }
}

fn format_position(f: &ExportFormat) -> (r: usize)
    ensures
        r == format_index(*f),
{
    match f {
        ExportFormat::BibliontologyRdf => 0,
        ExportFormat::Bibtex => 1,
        ExportFormat::Bookmarks => 2,
        ExportFormat::Cff => 3,
        ExportFormat::CffReferences => 4,
        ExportFormat::Coins => 5,
        ExportFormat::CslJson => 6,
        ExportFormat::Csv => 7,
        ExportFormat::EndnoteXml => 8,
        ExportFormat::Mods => 9,
        ExportFormat::ReferBibix => 10,
        ExportFormat::RefworksTagged => 11,
        ExportFormat::Ris => 12,
        ExportFormat::EvernoteExport => 13,
        ExportFormat::Tei => 14,
        ExportFormat::WikidataQuickStatements => 15,
        ExportFormat::Custom(_) => 0,
    }
}

fn cyclic_step(pos: usize, n: usize, direction: i32) -> (r: usize)
    requires
        0 < n,
        pos < n,
    ensures
        r == step(pos as int, n as int, direction > 0),
        r < n,
{
    if direction > 0 {
        (pos + 1) % n
    } else if pos == 0 {
        n - 1
    } else {
        pos - 1
    }
}

/// The state of the export dialog.
#[derive(Clone, Debug)]
pub struct ExportDialogState {
    pub selected_format: ExportFormat,
    pub selected_style: CitationStyle,
    pub selected_language: CitationLanguage,
    pub display_mode: DisplayMode,
    pub focused_section: DialogSection,
    pub format_cursor: usize,
    pub style_cursor: usize,
    pub language_cursor: usize,
    pub display_mode_cursor: usize,
    pub preview_text: String,
}

impl ExportDialogState {
    /// BibTeX, APA 7th, English, in-text citations, focus on the format list.
    pub fn new() -> (r: Self)
        ensures
            r.selected_format == ExportFormat::Bibtex,
            r.selected_style == CitationStyle::Apa7th,
            r.selected_language == CitationLanguage::English,
            r.display_mode == DisplayMode::InText,
            r.focused_section == DialogSection::Format,
            r.format_cursor == 0,
            r.style_cursor == 0,
            r.language_cursor == 0,
            r.display_mode_cursor == 0,
            r.preview_text@.len() == 0,
    {
        ExportDialogState {
            selected_format: ExportFormat::Bibtex,
            selected_style: CitationStyle::Apa7th,
            selected_language: CitationLanguage::English,
            display_mode: DisplayMode::InText,
            focused_section: DialogSection::Format,
            format_cursor: 0,
            style_cursor: 0,
            language_cursor: 0,
            display_mode_cursor: 0,
            preview_text: String::new(),
        }
    }

    /// The sections that focus cycles through.
    pub fn active_sections(&self) -> (r: Vec<DialogSection>)
        ensures
            r@ == sections_for(self.selected_style),
    {
        let r = if self.is_display_mode_active() {
            vec![
                DialogSection::Format,
                DialogSection::Style,
                DialogSection::Language,
                DialogSection::DisplayMode,
                DialogSection::Preview,
            ]
        } else {
            vec![
                DialogSection::Format,
                DialogSection::Style,
                DialogSection::Language,
                DialogSection::Preview,
            ]
        };
        assert(r@ =~= sections_for(self.selected_style));
        r
    }

    /// Moves the focus to the next active section.
    pub fn tab_next(&mut self)
        ensures
            final(self).focused_section == next_section(
                sections_for(old(self).selected_style),
                old(self).focused_section,
            ),
            final(self).selected_format == old(self).selected_format,
            final(self).selected_style == old(self).selected_style,
            final(self).selected_language == old(self).selected_language,
            final(self).display_mode == old(self).display_mode,
            final(self).format_cursor == old(self).format_cursor,
            final(self).style_cursor == old(self).style_cursor,
            final(self).language_cursor == old(self).language_cursor,
            final(self).display_mode_cursor == old(self).display_mode_cursor,
            final(self).preview_text == old(self).preview_text,
    {
        let sections = self.active_sections();
        match position_of(&sections, self.focused_section) {
            Some(pos) => {
                let next = (pos + 1) % sections.len();
                self.focused_section = sections[next];
            },
            None => {
                self.focused_section = sections[0];
            },
        }
    }

    /// Moves the focus to the previous active section.
    pub fn tab_prev(&mut self)
        ensures
            final(self).focused_section == prev_section(
                sections_for(old(self).selected_style),
                old(self).focused_section,
            ),
            final(self).selected_format == old(self).selected_format,
            final(self).selected_style == old(self).selected_style,
            final(self).selected_language == old(self).selected_language,
            final(self).display_mode == old(self).display_mode,
            final(self).format_cursor == old(self).format_cursor,
            final(self).style_cursor == old(self).style_cursor,
            final(self).language_cursor == old(self).language_cursor,
            final(self).display_mode_cursor == old(self).display_mode_cursor,
            final(self).preview_text == old(self).preview_text,
    {
        let sections = self.active_sections();
        match position_of(&sections, self.focused_section) {
            Some(pos) => {
                let prev = if pos == 0 {
                    sections.len() - 1
                } else {
                    pos - 1
                };
                self.focused_section = sections[prev];
            },
            None => {
                self.focused_section = sections[sections.len() - 1];
            },
        }
    }

    /// Moves the cursor of the focused section down.
    pub fn cursor_down(&mut self)
        ensures
            cursor_moved(*old(self), *final(self), 1),
    {
        match self.focused_section {
            DialogSection::Format => self.move_format_cursor(1),
            DialogSection::Style => self.move_style_cursor(1),
            DialogSection::Language => self.move_language_cursor(1),
            DialogSection::DisplayMode => self.move_display_mode_cursor(1),
            DialogSection::Preview => {},
        }
    }

    /// Moves the cursor of the focused section up.
    pub fn cursor_up(&mut self)
        ensures
            cursor_moved(*old(self), *final(self), -1),
    {
        match self.focused_section {
            DialogSection::Format => self.move_format_cursor(-1),
            DialogSection::Style => self.move_style_cursor(-1),
            DialogSection::Language => self.move_language_cursor(-1),
            DialogSection::DisplayMode => self.move_display_mode_cursor(-1),
            DialogSection::Preview => {},
        }
    }

    /// Selects the next (`direction > 0`) or previous format, wrapping.
    pub fn move_format_cursor(&mut self, direction: i32)
        ensures
            final(self).format_cursor == step(format_index(old(self).selected_format), 16, direction > 0),
            final(self).selected_format == builtin_formats()[final(self).format_cursor as int],
            final(self).selected_style == old(self).selected_style,
            final(self).selected_language == old(self).selected_language,
            final(self).display_mode == old(self).display_mode,
            final(self).focused_section == old(self).focused_section,
            final(self).style_cursor == old(self).style_cursor,
            final(self).language_cursor == old(self).language_cursor,
            final(self).display_mode_cursor == old(self).display_mode_cursor,
            final(self).preview_text == old(self).preview_text,
    {
        let pos = format_position(&self.selected_format);
        let new_pos = cyclic_step(pos, 16, direction);
        self.format_cursor = new_pos;
        self.selected_format = ExportFormat::builtin(new_pos);
    }

    /// Selects the next or previous style, wrapping; the focus leaves the
    /// display mode section when the new style has none.
    pub fn move_style_cursor(&mut self, direction: i32)
        ensures
            final(self).style_cursor == step(style_index(old(self).selected_style), 13, direction > 0),
            final(self).selected_style == styles()[final(self).style_cursor as int],
            final(self).focused_section == (if !notes_based(final(self).selected_style)
                && old(self).focused_section == DialogSection::DisplayMode {
                next_section(sections_for(final(self).selected_style), DialogSection::DisplayMode)
            } else {
                old(self).focused_section
            }),
            final(self).selected_format == old(self).selected_format,
            final(self).selected_language == old(self).selected_language,
            final(self).display_mode == old(self).display_mode,
            final(self).format_cursor == old(self).format_cursor,
            final(self).language_cursor == old(self).language_cursor,
            final(self).display_mode_cursor == old(self).display_mode_cursor,
            final(self).preview_text == old(self).preview_text,
    {
        let all = CitationStyle::all();
        let pos = style_position(self.selected_style);
        let new_pos = cyclic_step(pos, 13, direction);
        self.style_cursor = new_pos;
        self.selected_style = all[new_pos];
        if !self.is_display_mode_active() && self.focused_section == DialogSection::DisplayMode {
            self.tab_next();
        }
    }

    /// Selects the next or previous language, wrapping.
    pub fn move_language_cursor(&mut self, direction: i32)
        ensures
            final(self).language_cursor == step(
                language_index(old(self).selected_language),
                4,
                direction > 0,
            ),
            final(self).selected_language == languages()[final(self).language_cursor as int],
            final(self).selected_format == old(self).selected_format,
            final(self).selected_style == old(self).selected_style,
            final(self).display_mode == old(self).display_mode,
            final(self).focused_section == old(self).focused_section,
            final(self).format_cursor == old(self).format_cursor,
            final(self).style_cursor == old(self).style_cursor,
            final(self).display_mode_cursor == old(self).display_mode_cursor,
            final(self).preview_text == old(self).preview_text,
    {
        let all = CitationLanguage::all();
        let pos: usize = match self.selected_language {
            CitationLanguage::English => 0,
            CitationLanguage::Korean => 1,
            CitationLanguage::Japanese => 2,
            CitationLanguage::Chinese => 3,
        };
        let new_pos = cyclic_step(pos, 4, direction);
        self.language_cursor = new_pos;
        self.selected_language = all[new_pos];
    }

    /// Selects the next or previous display mode, wrapping.
    pub fn move_display_mode_cursor(&mut self, direction: i32)
        ensures
            final(self).display_mode_cursor == step(
                mode_index(old(self).display_mode),
                3,
                direction > 0,
            ),
            final(self).display_mode == display_modes()[final(self).display_mode_cursor as int],
            final(self).selected_format == old(self).selected_format,
            final(self).selected_style == old(self).selected_style,
            final(self).selected_language == old(self).selected_language,
            final(self).focused_section == old(self).focused_section,
            final(self).format_cursor == old(self).format_cursor,
            final(self).style_cursor == old(self).style_cursor,
            final(self).language_cursor == old(self).language_cursor,
            final(self).preview_text == old(self).preview_text,
    {
        let modes = [DisplayMode::InText, DisplayMode::Footnotes, DisplayMode::Endnotes];
        let pos: usize = match self.display_mode {
            DisplayMode::InText => 0,
            DisplayMode::Footnotes => 1,
            DisplayMode::Endnotes => 2,
        };
        let new_pos = cyclic_step(pos, 3, direction);
        self.display_mode_cursor = new_pos;
        self.display_mode = modes[new_pos];
        assert(display_modes()[new_pos as int] == modes@[new_pos as int]);
    }

    /// Whether the display mode section is shown: for notes-based styles.
    pub fn is_display_mode_active(&self) -> (r: bool)
        ensures
            r == notes_based(self.selected_style),
    {
        self.selected_style.is_notes_based()
    }

    /// Shows a rendered citation, or the rendering error after the style's
    /// name in brackets.
    pub fn update_preview(&mut self, rendered: Result<String, String>)
        ensures
            final(self).preview_text@ == (match rendered {
                Ok(t) => t@,
                Err(e) => "["@ + style_name(old(self).selected_style) + "] "@ + e@,
            }),
            final(self).selected_format == old(self).selected_format,
            final(self).selected_style == old(self).selected_style,
            final(self).selected_language == old(self).selected_language,
            final(self).display_mode == old(self).display_mode,
            final(self).focused_section == old(self).focused_section,
    {
        match rendered {
            Ok(t) => {
                self.preview_text = t;
            },
            Err(e) => {
                let mut v = crate::text::chars_of("[");
                crate::text::append_str(&mut v, self.selected_style.display_name());
                crate::text::append_str(&mut v, "] ");
                crate::text::append_str(&mut v, e.as_str());
                self.preview_text = crate::text::string_from_chars(&v);
            },
        }
    }
}

impl Default for ExportDialogState {
    fn default() -> (r: Self)
        ensures
            r.selected_format == ExportFormat::Bibtex,
            r.selected_style == CitationStyle::Apa7th,
            r.focused_section == DialogSection::Format,
    {
        Self::new()
    }
}

fn style_position(s: CitationStyle) -> (r: usize)
    ensures
        r == style_index(s),
{
    match s {
        CitationStyle::Apa7th => 0,
        CitationStyle::Acs => 1,
        CitationStyle::Ama => 2,
        CitationStyle::Apsa => 3,
        CitationStyle::Asa => 4,
        CitationStyle::Chicago18th => 5,
        CitationStyle::CiteThemRightHarvard => 6,
        CitationStyle::ElsevierHarvard => 7,
        CitationStyle::Ieee => 8,
        CitationStyle::Mhra => 9,
        CitationStyle::Mla9th => 10,
        CitationStyle::Nature => 11,
        CitationStyle::NlmVancouver => 12,
    }
}

fn position_of(secs: &Vec<DialogSection>, f: DialogSection) -> (r: Option<usize>)
    ensures
        r matches Some(p) ==> position_in(secs@, f, 0) == Some(p as int) && p < secs@.len(),
        r is None ==> position_in(secs@, f, 0) is None,
{
    let mut i: usize = 0;
    while i < secs.len()
        invariant
            i <= secs.len(),
            position_in(secs@, f, 0) == position_in(secs@, f, i as int),
        decreases secs.len() - i,
    {
        if secs[i] == f {
            return Some(i);
        }
        i += 1;
    }
    None
}

/// The effect of a cursor move by `dir` in the focused section.
pub open spec fn cursor_moved(s: ExportDialogState, t: ExportDialogState, dir: int) -> bool {
    match s.focused_section {
        DialogSection::Format => {
            &&& t.format_cursor == step(format_index(s.selected_format), 16, dir > 0)
            &&& t.selected_format == builtin_formats()[t.format_cursor as int]
            &&& t.selected_style == s.selected_style
            &&& t.selected_language == s.selected_language
            &&& t.display_mode == s.display_mode
            &&& t.focused_section == s.focused_section
        },
        DialogSection::Style => {
            &&& t.style_cursor == step(style_index(s.selected_style), 13, dir > 0)
            &&& t.selected_style == styles()[t.style_cursor as int]
            &&& t.selected_format == s.selected_format
            &&& t.selected_language == s.selected_language
            &&& t.display_mode == s.display_mode
            &&& t.focused_section == s.focused_section
        },
        DialogSection::Language => {
            &&& t.language_cursor == step(language_index(s.selected_language), 4, dir > 0)
            &&& t.selected_language == languages()[t.language_cursor as int]
            &&& t.selected_format == s.selected_format
            &&& t.selected_style == s.selected_style
            &&& t.display_mode == s.display_mode
            &&& t.focused_section == s.focused_section
        },
        DialogSection::DisplayMode => {
            &&& t.display_mode_cursor == step(mode_index(s.display_mode), 3, dir > 0)
            &&& t.display_mode == display_modes()[t.display_mode_cursor as int]
            &&& t.selected_format == s.selected_format
            &&& t.selected_style == s.selected_style
            &&& t.selected_language == s.selected_language
            &&& t.focused_section == s.focused_section
        },
        DialogSection::Preview => {
            &&& t.selected_format == s.selected_format
            &&& t.selected_style == s.selected_style
            &&& t.selected_language == s.selected_language
            &&& t.display_mode == s.display_mode
            &&& t.focused_section == s.focused_section
        },
    }
}

// ---------------------------------------------------------------------------
// Laws
// ---------------------------------------------------------------------------

/// Tab then shift-tab returns the focus to an active section.
pub proof fn law_tab_round_trip(style: CitationStyle, f: DialogSection)
    requires
        position_in(sections_for(style), f, 0) is Some,
    ensures
        prev_section(sections_for(style), next_section(sections_for(style), f)) == f,
{
    reveal_with_fuel(position_in, 6);
    let secs = sections_for(style);
    let n = secs.len() as int;
    let p = position_in(secs, f, 0)->0;
    let g = next_section(secs, f);
    if notes_based(style) {
        assert(n == 5);
        match f {
            DialogSection::Format => assert(p == 0 && (p + 1) % n == 1),
            DialogSection::Style => assert(p == 1 && (p + 1) % n == 2),
            DialogSection::Language => assert(p == 2 && (p + 1) % n == 3),
            DialogSection::DisplayMode => assert(p == 3 && (p + 1) % n == 4),
            DialogSection::Preview => assert(p == 4 && (p + 1) % n == 0),
        }
    } else {
        assert(n == 4);
        match f {
            DialogSection::Format => assert(p == 0 && (p + 1) % n == 1),
            DialogSection::Style => assert(p == 1 && (p + 1) % n == 2),
            DialogSection::Language => assert(p == 2 && (p + 1) % n == 3),
            DialogSection::DisplayMode => assert(false),
            DialogSection::Preview => assert(p == 3 && (p + 1) % n == 0),
        }
    }
    assert(position_in(secs, g, 0) == Some((p + 1) % n));
}

/// The focus after `k` presses of tab.
pub open spec fn tabbed(secs: Seq<DialogSection>, f: DialogSection, k: nat) -> DialogSection
    decreases k,
{
    if k == 0 {
        f
    } else {
        next_section(secs, tabbed(secs, f, (k - 1) as nat))
    }
}

/// On an active section, shift-tab then tab returns the focus too, and
/// pressing tab once per active section (5 with the display-mode section,
/// else 4) comes back to where the focus started.
pub proof fn law_tab_cycle(style: CitationStyle, f: DialogSection)
    requires
        position_in(sections_for(style), f, 0) is Some,
    ensures
        next_section(sections_for(style), prev_section(sections_for(style), f)) == f,
        sections_for(style).len() == (if notes_based(style) {
            5int
        } else {
            4int
        }),
        tabbed(sections_for(style), f, sections_for(style).len()) == f,
{
    reveal_with_fuel(position_in, 6);
    reveal_with_fuel(tabbed, 6);
    let secs = sections_for(style);
    if notes_based(style) {
        assert(secs.len() == 5);
        assert(secs[0] == DialogSection::Format && secs[1] == DialogSection::Style && secs[2]
            == DialogSection::Language && secs[3] == DialogSection::DisplayMode && secs[4]
            == DialogSection::Preview);
        assert(position_in(secs, DialogSection::Format, 0) == Some(0int));
        assert(position_in(secs, DialogSection::Style, 0) == Some(1int));
        assert(position_in(secs, DialogSection::Language, 0) == Some(2int));
        assert(position_in(secs, DialogSection::DisplayMode, 0) == Some(3int));
        assert(position_in(secs, DialogSection::Preview, 0) == Some(4int));
        assert(1int % 5 == 1 && 2int % 5 == 2 && 3int % 5 == 3 && 4int % 5 == 4 && 5int % 5 == 0);
    } else {
        assert(secs.len() == 4);
        assert(secs[0] == DialogSection::Format && secs[1] == DialogSection::Style && secs[2]
            == DialogSection::Language && secs[3] == DialogSection::Preview);
        assert(position_in(secs, DialogSection::Format, 0) == Some(0int));
        assert(position_in(secs, DialogSection::Style, 0) == Some(1int));
        assert(position_in(secs, DialogSection::Language, 0) == Some(2int));
        assert(position_in(secs, DialogSection::Preview, 0) == Some(3int));
        assert(position_in(secs, DialogSection::DisplayMode, 0) is None);
        assert(1int % 4 == 1 && 2int % 4 == 2 && 3int % 4 == 3 && 4int % 4 == 0);
    }
}

/// A step forward then a step backward returns to the same position.
pub proof fn law_step_round_trip(pos: int, n: int)
    requires
        0 <= pos < n,
    ensures
        step(step(pos, n, true), n, false) == pos,
{
    if pos + 1 < n {
        vstd::arithmetic::div_mod::lemma_small_mod((pos + 1) as nat, n as nat);
    } else {
        vstd::arithmetic::div_mod::lemma_mod_self_0(n);
    }
}

/// Moving the cursor down then up selects again what was selected, in every
/// section, for a built-in format.
pub proof fn law_cursor_round_trip(s: ExportDialogState, t: ExportDialogState, u: ExportDialogState)
    requires
        cursor_moved(s, t, 1),
        cursor_moved(t, u, -1),
        !(s.selected_format is Custom),
    ensures
        u.selected_format == s.selected_format,
        u.selected_style == s.selected_style,
        u.selected_language == s.selected_language,
        u.display_mode == s.display_mode,
        u.focused_section == s.focused_section,
{
    match s.focused_section {
        DialogSection::Format => {
            law_step_round_trip(format_index(s.selected_format), 16);
            let i = format_index(s.selected_format);
            assert(builtin_formats()[i] == s.selected_format);
            let j = t.format_cursor as int;
            assert(format_index(builtin_formats()[j]) == j);
        },
        DialogSection::Style => {
            law_step_round_trip(style_index(s.selected_style), 13);
            let j = t.style_cursor as int;
            assert(style_index(styles()[j]) == j);
            assert(styles()[style_index(s.selected_style)] == s.selected_style);
        },
        DialogSection::Language => {
            law_step_round_trip(language_index(s.selected_language), 4);
            let j = t.language_cursor as int;
            assert(language_index(languages()[j]) == j);
            assert(languages()[language_index(s.selected_language)] == s.selected_language);
        },
        DialogSection::DisplayMode => {
            law_step_round_trip(mode_index(s.display_mode), 3);
            let j = t.display_mode_cursor as int;
            assert(mode_index(display_modes()[j]) == j);
            assert(display_modes()[mode_index(s.display_mode)] == s.display_mode);
        },
        DialogSection::Preview => {},
    }
}

// ---------------------------------------------------------------------------
// The visible part of a section's list
// ---------------------------------------------------------------------------

/// The number of entries a section of the dialog shows at once.
pub const VISIBLE_ITEMS: usize = 5;

/// The first entry shown of a list of `total` entries with the cursor at
/// `cursor`: the cursor is kept in the middle where the list allows.
pub open spec fn window_start(total: int, cursor: int) -> int {
    if total <= VISIBLE_ITEMS {
        0
    } else if cursor < VISIBLE_ITEMS / 2 {
        0
    } else if cursor > total - VISIBLE_ITEMS / 2 - 1 {
        total - VISIBLE_ITEMS
    } else {
        cursor - VISIBLE_ITEMS / 2
    }
}

/// The range `[start, end)` of the entries shown.
pub fn section_window(total: usize, cursor: usize) -> (r: (usize, usize))
    ensures
        r.0 == window_start(total as int, cursor as int),
        r.1 == (if r.0 + VISIBLE_ITEMS < total {
            r.0 + VISIBLE_ITEMS
        } else {
            total as int
        }),
{
    let start = if total <= VISIBLE_ITEMS {
        0
    } else if cursor < VISIBLE_ITEMS / 2 {
        0
    } else if cursor > total - VISIBLE_ITEMS / 2 - 1 {
        total - VISIBLE_ITEMS
    } else {
        cursor - VISIBLE_ITEMS / 2
    };
    let end = if start + VISIBLE_ITEMS < total {
        start + VISIBLE_ITEMS
    } else {
        total
    };
    (start, end)
}

/// The entry under the cursor is always among those shown, and as many
/// entries are shown as fit.
pub proof fn law_cursor_visible(total: int, cursor: int)
    requires
        0 <= cursor < total,
    ensures
        0 <= window_start(total, cursor) <= cursor,
        cursor < window_start(total, cursor) + VISIBLE_ITEMS,
        window_start(total, cursor) + (if total < VISIBLE_ITEMS {
            total
        } else {
            VISIBLE_ITEMS as int
        }) <= total,
{
}

/// How an entry of a section is drawn.
#[derive(Clone, Copy, Debug, PartialEq, Eq, Structural)]
pub enum EntryLook {
    /// Not implemented yet.
    Dimmed,
    /// The chosen entry of the focused section.
    Focused,
    /// The chosen entry of another section.
    Chosen,
    /// Any other entry.
    Plain,
}

/// The text and look of one entry: a pointer before the chosen entry of
/// the focused section, and a note after an entry not implemented yet.
pub fn section_entry(name: &str, is_current: bool, focused: bool, implemented: bool) -> (r: (
    String,
    EntryLook,
))
    ensures
        r.0@ == (if focused && is_current {
            "  ► "@
        } else {
            "    "@
        }) + name@ + (if implemented {
            Seq::empty()
        } else {
            " (미구현)"@
        }),
        r.1 == (if !implemented {
            EntryLook::Dimmed
        } else if focused && is_current {
            EntryLook::Focused
        } else if is_current {
            EntryLook::Chosen
        } else {
            EntryLook::Plain
        }),
{
    let mut v = crate::text::chars_of(if focused && is_current {
        "  ► "
    } else {
        "    "
    });
    crate::text::append_str(&mut v, name);
    if !implemented {
        crate::text::append_str(&mut v, " (미구현)");
    }
    let look = if !implemented {
        EntryLook::Dimmed
    } else if focused && is_current {
        EntryLook::Focused
    } else if is_current {
        EntryLook::Chosen
    } else {
        EntryLook::Plain
    };
    (crate::text::string_from_chars(&v), look)
}

} // verus!
