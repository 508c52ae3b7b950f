//! Assembly of the metadata of one PDF from what was read out of it.
//!
//! Reading the file (its Info dictionary and its text) is the caller's I/O;
//! here the answers are combined: embedded metadata first, then identifiers
//! from the text, heuristics only for papers without an identifier, and the
//! file name as a last resort.
use vstd::prelude::*;
use crate::authors::{guess_authors, guess_authors_spec};
use crate::heuristic::{guess_title, guess_title_spec};
use crate::identifiers::{arxiv_of_text, doi_of_text, search_academic_identifiers};
use crate::journal::{extract_journal_and_year, extract_journal_and_year_spec, first_pages_spec};
use crate::matching::{
    caps_or_empty, captures_of, first_group, first_group_exec, regex_captures, span_in_exec,
    span_text,
};
use crate::metadata::{
    is_plausible_metadata, is_plausible_metadata_spec, is_plausible_title, is_plausible_title_spec,
    parse_metadata_authors, parse_metadata_authors_spec,
};
use crate::text::{
    chars_of, join, join_str, lemma_chars_deep_view, slice_of, string_from_chars, words,
    words_exec,
};

verus! {

/// Where the metadata of a document came from.
#[derive(Clone, Copy, Debug, PartialEq, Eq, Structural)]
pub enum MetadataSource {
    PdfExtract,
    Crossref,
    Arxiv,
    Manual,
}

impl Default for MetadataSource {
    fn default() -> (r: Self)
        ensures
            r == MetadataSource::PdfExtract,
    {
        MetadataSource::PdfExtract
    }
}

/// Bibliographic fields extracted from a PDF.
#[derive(Clone, Debug)]
pub struct RawMetadata {
    pub title: Option<String>,
    pub authors: Vec<String>,
    pub journal: Option<String>,
    pub pub_year: Option<i64>,
    pub doi: Option<String>,
    pub arxiv_id: Option<String>,
    pub abstract_text: Option<String>,
    pub keywords: Vec<String>,
    pub source: MetadataSource,
    pub body_text: Option<String>,
}

impl RawMetadata {
    /// Every field empty, the source a PDF extraction.
    pub open spec fn is_empty_extract(self) -> bool {
        &&& self.title is None
        &&& self.authors@.len() == 0
        &&& self.journal is None
        &&& self.pub_year is None
        &&& self.doi is None
        &&& self.arxiv_id is None
        &&& self.abstract_text is None
        &&& self.keywords@.len() == 0
        &&& self.source == MetadataSource::PdfExtract
        &&& self.body_text is None
    }
}

impl Default for RawMetadata {
    fn default() -> (r: Self)
        ensures
            r.is_empty_extract(),
    {
        RawMetadata {
            title: None,
            authors: Vec::new(),
            journal: None,
            pub_year: None,
            doi: None,
            arxiv_id: None,
            abstract_text: None,
            keywords: Vec::new(),
            source: MetadataSource::PdfExtract,
            body_text: None,
        }
    }
}

/// Extracts the metadata embedded in a PDF file.
pub trait PdfMetadataExtractor {
    fn extract_metadata(&self, path: &str) -> Result<RawMetadata, String>;
}

/// Extracts the plain text of a PDF file.
pub trait PdfTextExtractor {
    fn extract_text(&self, path: &str) -> Result<String, String>;
}

// ---------------------------------------------------------------------------
// Embedded metadata
// ---------------------------------------------------------------------------

pub open spec fn opt_view(o: Option<String>) -> Option<Seq<char>> {
    match o {
        Some(s) => Some(s@),
        None => None,
    }
}

/// The fields kept from the Title, Subject and Author entries of a PDF's
/// Info dictionary: a plausible title, a plausible subject as the journal,
/// and the authors of a plausible author entry.
pub fn metadata_from_info(title: Option<String>, subject: Option<String>, author: Option<String>) -> (r:
    RawMetadata)
    ensures
        r.title.deep_view() == (match title {
            Some(t) => if is_plausible_title_spec(t@) {
                Some(t@)
            } else {
                None
            },
            None => None,
        }),
        r.journal.deep_view() == (match subject {
            Some(s) => if is_plausible_metadata_spec(s@) {
                Some(s@)
            } else {
                None
            },
            None => None,
        }),
        r.authors.deep_view() == (match author {
            Some(a) => if is_plausible_metadata_spec(a@) {
                parse_metadata_authors_spec(a@)
            } else {
                Seq::empty()
            },
            None => Seq::empty(),
        }),
        r.pub_year is None,
        r.doi is None,
        r.arxiv_id is None,
        r.abstract_text is None,
        r.keywords@.len() == 0,
        r.source == MetadataSource::PdfExtract,
        r.body_text is None,
{
    let mut meta = RawMetadata::default();
    match title {
        Some(t) => {
            if is_plausible_title(t.as_str()) {
                meta.title = Some(t);
            }
        },
        None => {},
    }
    match subject {
        Some(s) => {
            if is_plausible_metadata(s.as_str()) {
                meta.journal = Some(s);
            }
        },
        None => {},
    }
    match author {
        Some(a) => {
            if is_plausible_metadata(a.as_str()) {
                meta.authors = parse_metadata_authors(a.as_str());
            } else {
                assert(meta.authors.deep_view() =~= Seq::<Seq<char>>::empty());
            }
        },
        None => {
            assert(meta.authors.deep_view() =~= Seq::<Seq<char>>::empty());
        },
    }
    meta
}

// ---------------------------------------------------------------------------
// File names
// ---------------------------------------------------------------------------

/// A new-scheme arXiv id anywhere in a file name (group 1).
pub open spec fn file_arxiv_pattern() -> Seq<char> {
    "(\\d{4}\\.\\d{4,5}(?:v\\d+)?)"@
}

pub fn file_arxiv_pattern_str() -> (r: &'static str)
    ensures
        r@ == file_arxiv_pattern(),
{
    "(\\d{4}\\.\\d{4,5}(?:v\\d+)?)"
}

/// The text of group 1 of the first match given.
pub open spec fn arxiv_in_name(name: Seq<char>, caps: Seq<Seq<Option<(usize, usize)>>>) -> Option<
    Seq<char>,
> {
    span_text(name, first_group(caps, 1))
}

pub open spec fn arxiv_from_file_name_spec(name: Seq<char>) -> Option<Seq<char>> {
    arxiv_in_name(name, caps_or_empty(regex_captures(file_arxiv_pattern(), name)))
}

/// Reads the arXiv id of a file name from the matches given.
pub fn arxiv_in_file_name_matches(name: &str, caps: &Vec<Vec<Option<(usize, usize)>>>) -> (r:
    Option<String>)
    ensures
        r.deep_view() == arxiv_in_name(name@, caps.deep_view()),
{
    let n = chars_of(name);
    arxiv_in_name_chars(&n, caps)
}

fn arxiv_in_name_chars(n: &Vec<char>, caps: &Vec<Vec<Option<(usize, usize)>>>) -> (r: Option<
    String,
>)
    ensures
        r.deep_view() == arxiv_in_name(n@, caps.deep_view()),
{
    match span_in_exec(n, first_group_exec(caps, 1)) {
        Some((a, c)) => {
            let id = slice_of(n, a, c);
            Some(string_from_chars(&id))
        },
        None => None,
    }
}

/// The arXiv id that a file name carries, such as `2301.00123v2.pdf`.
pub fn extract_arxiv_from_filename(file_name: &str) -> (r: Option<String>)
    ensures
        r.deep_view() == arxiv_from_file_name_spec(file_name@),
{
    let n = chars_of(file_name);
    let caps = captures_of(file_arxiv_pattern_str(), &n);
    arxiv_in_name_chars(&n, &caps)
}

/// Underscores and hyphens read as spaces.
pub open spec fn seps_to_spaces(s: Seq<char>) -> Seq<char> {
    s.map_values(
        |c: char|
            if c == '_' || c == '-' {
                ' '
            } else {
                c
            },
    )
}

/// The words of a file stem, `_` and `-` counting as spaces, joined by
/// single spaces; `None` when there are none.
pub open spec fn title_from_stem_spec(stem: Seq<char>) -> Option<Seq<char>> {
    let t = join(words(seps_to_spaces(stem)), " "@);
    if t.len() == 0 {
        None
    } else {
        Some(t)
    }
}

/// A title made from a file stem such as `deep_learning-review`.
pub fn extract_title_from_filename(file_stem: &str) -> (r: Option<String>)
    ensures
        r.deep_view() == title_from_stem_spec(file_stem@),
{
    let s = chars_of(file_stem);
    let mut m: Vec<char> = Vec::new();
    let mut i: usize = 0;
    while i < s.len()
        invariant
            i <= s.len(),
            m@ == seps_to_spaces(s@).take(i as int),
        decreases s.len() - i,
    {
        let c = s[i];
        if c == '_' || c == '-' {
            m.push(' ');
        } else {
            m.push(c);
        }
        assert(m@ =~= seps_to_spaces(s@).take(i + 1));
        i += 1;
    }
    assert(seps_to_spaces(s@).take(s.len() as int) =~= seps_to_spaces(s@));
    let ws = words_exec(&m);
    let t = join_str(&ws, " ");
    if t.len() == 0 {
        None
    } else {
        Some(string_from_chars(&t))
    }
}

// ---------------------------------------------------------------------------
// One file
// ---------------------------------------------------------------------------

pub open spec fn base_title(meta: Option<RawMetadata>) -> Option<Seq<char>> {
    match meta {
        Some(m) => m.title.deep_view(),
        None => None,
    }
}

pub open spec fn base_authors(meta: Option<RawMetadata>) -> Seq<Seq<char>> {
    match meta {
        Some(m) => m.authors.deep_view(),
        None => Seq::empty(),
    }
}

pub open spec fn base_journal(meta: Option<RawMetadata>) -> Option<Seq<char>> {
    match meta {
        Some(m) => m.journal.deep_view(),
        None => None,
    }
}

pub open spec fn base_year(meta: Option<RawMetadata>) -> Option<i64> {
    match meta {
        Some(m) => m.pub_year,
        None => None,
    }
}

/// The DOI found in the first two pages of a text.
pub open spec fn text_doi(text: Seq<char>) -> Option<Seq<char>> {
    doi_of_text(first_pages_spec(text, 2))
}

/// The arXiv id of the first two pages, else that of the file name.
pub open spec fn text_arxiv(text: Seq<char>, name: Option<Seq<char>>) -> Option<Seq<char>> {
    match arxiv_of_text(first_pages_spec(text, 2)) {
        Some(a) => Some(a),
        None => match name {
            Some(n) => arxiv_from_file_name_spec(n),
            None => None,
        },
    }
}

/// The paper carries a DOI or an arXiv id.
pub open spec fn identified(text: Seq<char>, name: Option<Seq<char>>) -> bool {
    text_doi(text) is Some || text_arxiv(text, name) is Some
}

pub open spec fn title_after_text(
    meta: Option<RawMetadata>,
    text: Option<Seq<char>>,
    name: Option<Seq<char>>,
) -> Option<Seq<char>> {
    match text {
        Some(t) => if !identified(t, name) && base_title(meta) is None {
            guess_title_spec(t)
        } else {
            base_title(meta)
        },
        None => base_title(meta),
    }
}

pub open spec fn process_title(
    meta: Option<RawMetadata>,
    text: Option<Seq<char>>,
    name: Option<Seq<char>>,
    stem: Option<Seq<char>>,
) -> Option<Seq<char>> {
    match title_after_text(meta, text, name) {
        Some(t) => Some(t),
        None => match stem {
            Some(s) => title_from_stem_spec(s),
            None => None,
        },
    }
}

pub open spec fn process_authors(
    meta: Option<RawMetadata>,
    text: Option<Seq<char>>,
    name: Option<Seq<char>>,
) -> Seq<Seq<char>> {
    match text {
        Some(t) => if !identified(t, name) && base_authors(meta).len() == 0 {
            guess_authors_spec(t)
        } else {
            base_authors(meta)
        },
        None => base_authors(meta),
    }
}

pub open spec fn process_journal(
    meta: Option<RawMetadata>,
    text: Option<Seq<char>>,
    name: Option<Seq<char>>,
) -> Option<Seq<char>> {
    match text {
        Some(t) => if !identified(t, name) && base_journal(meta) is None {
            extract_journal_and_year_spec(t).0
        } else {
            base_journal(meta)
        },
        None => base_journal(meta),
    }
}

pub open spec fn process_year(
    meta: Option<RawMetadata>,
    text: Option<Seq<char>>,
    name: Option<Seq<char>>,
) -> Option<i64> {
    match text {
        Some(t) => if !identified(t, name) && base_year(meta) is None {
            extract_journal_and_year_spec(t).1
        } else {
            base_year(meta)
        },
        None => base_year(meta),
    }
}

/// The metadata of one PDF, from its embedded metadata (`None` when it could
/// not be read), its text (`None` when it could not be extracted), its file
/// name and its file stem.
pub fn process_file(
    meta: Option<RawMetadata>,
    text: Option<String>,
    file_name: Option<String>,
    file_stem: Option<String>,
) -> (r: RawMetadata)
    ensures
        r.title.deep_view() == process_title(
            meta,
            opt_view(text),
            opt_view(file_name),
            opt_view(file_stem),
        ),
        r.authors.deep_view() == process_authors(meta, opt_view(text), opt_view(file_name)),
        r.journal.deep_view() == process_journal(meta, opt_view(text), opt_view(file_name)),
        r.pub_year == process_year(meta, opt_view(text), opt_view(file_name)),
        r.doi.deep_view() == (match text {
            Some(t) => text_doi(t@),
            None => None,
        }),
        r.arxiv_id.deep_view() == (match text {
            Some(t) => text_arxiv(t@, opt_view(file_name)),
            None => None,
        }),
        r.body_text.deep_view() == opt_view(text),
        r.abstract_text is None,
        r.keywords@.len() == 0,
        r.source == MetadataSource::PdfExtract,
{
    let mut out = RawMetadata::default();
    let ghost m0 = meta;
    match meta {
        Some(m) => {
            out.title = m.title;
            out.authors = m.authors;
            out.journal = m.journal;
            out.pub_year = m.pub_year;
        },
        None => {
            assert(out.authors.deep_view() =~= Seq::<Seq<char>>::empty());
        },
    }
    assert(out.title.deep_view() == base_title(m0));
    assert(out.authors.deep_view() == base_authors(m0));
    assert(out.journal.deep_view() == base_journal(m0));
    assert(out.pub_year == base_year(m0));
    match text {
        Some(t) => {
            let ids = search_academic_identifiers(t.as_str());
            out.doi = ids.doi;
            out.arxiv_id = ids.arxiv_id;
            if out.arxiv_id.is_none() {
                match &file_name {
                    Some(n) => {
                        out.arxiv_id = extract_arxiv_from_filename(n.as_str());
                    },
                    None => {},
                }
            }
            let has_identifier = out.doi.is_some() || out.arxiv_id.is_some();
            if !has_identifier {
                if out.title.is_none() {
                    out.title = guess_title(t.as_str());
                }
                if out.authors.len() == 0 {
                    out.authors = guess_authors(t.as_str());
                }
                if out.journal.is_none() || out.pub_year.is_none() {
                    let (journal, year) = extract_journal_and_year(t.as_str());
                    if out.journal.is_none() {
                        out.journal = journal;
                    }
                    if out.pub_year.is_none() {
                        out.pub_year = year;
                    }
                }
            }
            out.body_text = Some(t);
        },
        None => {},
    }
    if out.title.is_none() {
        match &file_stem {
            Some(s) => {
                out.title = extract_title_from_filename(s.as_str());
            },
            None => {},
        }
    }
    out
}

} // verus!
