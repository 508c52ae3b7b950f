//! Export formats, user-defined template formats and their registry.
use vstd::prelude::*;
use crate::documents::Document;
use crate::number::{decimal_of, format_i64};
use crate::text::{
    append, chars_of, join, join_str, lemma_chars_deep_view, replace_all_exec, replace_all_spec,
    string_from_chars,
};

verus! {

/// A classification assigned to a document.
#[derive(Clone, Debug)]
pub struct DocClassification {
    pub scheme: String,
    pub notation: String,
    pub label: String,
}

/// User data attached to a document for export: notes, tags,
/// classifications, projects and custom fields.
#[derive(Clone, Debug)]
pub struct DocUserData {
    pub notes: Option<String>,
    pub tags: Vec<String>,
    pub classifications: Vec<DocClassification>,
    pub projects: Vec<String>,
    pub custom_fields: Vec<(String, String)>,
}

impl Default for DocUserData {
    fn default() -> (r: Self)
        ensures
            r.notes is None,
            r.tags@.len() == 0,
            r.classifications@.len() == 0,
            r.projects@.len() == 0,
            r.custom_fields@.len() == 0,
    {
        DocUserData {
            notes: None,
            tags: Vec::new(),
            classifications: Vec::new(),
            projects: Vec::new(),
            custom_fields: Vec::new(),
        }
    }
}

/// A user-defined export format: a name, a file extension and a template
/// with `{title}`, `{authors}`, `{year}`, `{doi}`, `{journal}` and
/// `{abstract}` placeholders.
#[derive(Clone, Debug)]
pub struct ExportFormatConfig {
    pub name: String,
    pub file_extension: String,
    pub template: String,
}

impl ExportFormatConfig {
    pub open spec fn view(&self) -> (Seq<char>, Seq<char>, Seq<char>) {
        (self.name@, self.file_extension@, self.template@)
    }

    /// A field-by-field copy.
    pub fn copy(&self) -> (r: Self)
        ensures
            r.view() == self.view(),
    {
        ExportFormatConfig {
            name: self.name.clone(),
            file_extension: self.file_extension.clone(),
            template: self.template.clone(),
        }
    }
}

// ---------------------------------------------------------------------------
// Registry of user-defined formats
// ---------------------------------------------------------------------------

/// The user-defined formats, at most one per name.
pub struct CustomFormats {
    formats: Vec<ExportFormatConfig>,
}

/// The format named `name` among `fs`, if any.
pub open spec fn lookup_format(fs: Seq<(Seq<char>, Seq<char>, Seq<char>)>, name: Seq<char>) -> Option<
    (Seq<char>, Seq<char>, Seq<char>),
>
    decreases fs.len(),
{
    if fs.len() == 0 {
        None
    } else if fs.last().0 == name {
        Some(fs.last())
    } else {
        lookup_format(fs.drop_last(), name)
    }
}

/// The formats after registering `c`: it replaces the format of the same
/// name, else it is added last.
pub open spec fn register_spec(
    fs: Seq<(Seq<char>, Seq<char>, Seq<char>)>,
    c: (Seq<char>, Seq<char>, Seq<char>),
) -> Seq<(Seq<char>, Seq<char>, Seq<char>)> {
    if exists|i: int| 0 <= i < fs.len() && (#[trigger] fs[i]).0 == c.0 {
        fs.update(choose|i: int| 0 <= i < fs.len() && (#[trigger] fs[i]).0 == c.0, c)
    } else {
        fs.push(c)
    }
}

pub open spec fn names_unique(fs: Seq<(Seq<char>, Seq<char>, Seq<char>)>) -> bool {
    forall|i: int, j: int| 0 <= i < j < fs.len() ==> (#[trigger] fs[i]).0 != (#[trigger] fs[j]).0
}

impl CustomFormats {
    pub closed spec fn view(&self) -> Seq<(Seq<char>, Seq<char>, Seq<char>)> {
        Seq::new(self.formats@.len(), |i: int| self.formats@[i].view())
    }

    #[verifier::type_invariant]
    spec fn inv(&self) -> bool {
        names_unique(self.view())
    }

    /// No formats.
    pub fn new() -> (r: Self)
        ensures
            r.view() == Seq::<(Seq<char>, Seq<char>, Seq<char>)>::empty(),
            names_unique(r.view()),
    {
        let r = CustomFormats { formats: Vec::new() };
        assert(r.view() =~= Seq::<(Seq<char>, Seq<char>, Seq<char>)>::empty());
        r
    }

    fn index_of(&self, name: &str) -> (r: Option<usize>)
        ensures
            r matches Some(i) ==> i < self.view().len() && self.view()[i as int].0 == name@,
            r is None ==> forall|i: int|
                0 <= i < self.view().len() ==> (#[trigger] self.view()[i]).0 != name@,
    {
        let mut i: usize = 0;
        while i < self.formats.len()
            invariant
                i <= self.formats.len(),
                forall|j: int| 0 <= j < i ==> (#[trigger] self.view()[j]).0 != name@,
            decreases self.formats.len() - i,
        {
            if crate::text::eq_str(&chars_of(self.formats[i].name.as_str()), name) {
                return Some(i);
            }
            i += 1;
        }
        None
    }
}

proof fn lemma_lookup_unique(fs: Seq<(Seq<char>, Seq<char>, Seq<char>)>, name: Seq<char>)
    requires
        names_unique(fs),
    ensures
        (exists|i: int| 0 <= i < fs.len() && (#[trigger] fs[i]).0 == name) ==> lookup_format(
            fs,
            name,
        ) == Some(fs[choose|i: int| 0 <= i < fs.len() && (#[trigger] fs[i]).0 == name]),
        (forall|i: int| 0 <= i < fs.len() ==> (#[trigger] fs[i]).0 != name) ==> lookup_format(
            fs,
            name,
        ) is None,
    decreases fs.len(),
{
    if fs.len() > 0 {
        let init = fs.drop_last();
        assert(names_unique(init)) by {
            assert forall|i: int, j: int| 0 <= i < j < init.len() implies (
            #[trigger] init[i]).0 != (#[trigger] init[j]).0 by {
                assert(init[i] == fs[i] && init[j] == fs[j]);
            }
        }
        lemma_lookup_unique(init, name);
        if exists|i: int| 0 <= i < fs.len() && (#[trigger] fs[i]).0 == name {
            let k = choose|i: int| 0 <= i < fs.len() && (#[trigger] fs[i]).0 == name;
            if k < fs.len() - 1 {
                assert(init[k] == fs[k]);
                assert(fs.last() == fs[fs.len() - 1]);
                assert(fs.last().0 != name);
                let k2 = choose|i: int| 0 <= i < init.len() && (#[trigger] init[i]).0 == name;
                if k2 != k {
                    assert(init[k2] == fs[k2]);
                }
            }
        } else {
            assert forall|i: int| 0 <= i < init.len() implies (#[trigger] init[i]).0 != name by {
                assert(init[i] == fs[i]);
            }
            assert(fs.last() == fs[fs.len() - 1]);
        }
    }
}

/// Registers a user-defined format, replacing the one of the same name.
pub fn register_custom_format(formats: &mut CustomFormats, config: ExportFormatConfig)
    ensures
        final(formats).view() == register_spec(old(formats).view(), config.view()),
        names_unique(old(formats).view()),
        names_unique(final(formats).view()),
{
    proof {
        use_type_invariant(&*formats);
    }
    let ghost old_v = formats.view();
    match formats.index_of(config.name.as_str()) {
        Some(i) => {
            proof {
                let k = choose|j: int| 0 <= j < old_v.len() && (#[trigger] old_v[j]).0 == config.view().0;
                if k != i {
                    if k < i {
                        assert(old_v[k].0 != old_v[i as int].0);
                    } else {
                        assert(old_v[i as int].0 != old_v[k].0);
                    }
                }
            }
            let mut v: Vec<ExportFormatConfig> = Vec::new();
            std::mem::swap(&mut v, &mut formats.formats);
            v.set(i, config);
            proof {
                let nv = Seq::new(v@.len(), |k: int| v@[k].view());
                assert(nv =~= old_v.update(i as int, config.view()));
                assert forall|a: int, b: int| 0 <= a < b < nv.len() implies (#[trigger] nv[a]).0
                    != (#[trigger] nv[b]).0 by {
                    assert(nv[a].0 == old_v[a].0);
                    assert(nv[b].0 == old_v[b].0);
                }
            }
            formats.formats = v;
            assert(formats.view() =~= old_v.update(i as int, config.view()));
        },
        None => {
            let mut v: Vec<ExportFormatConfig> = Vec::new();
            std::mem::swap(&mut v, &mut formats.formats);
            v.push(config);
            proof {
                let nv = Seq::new(v@.len(), |k: int| v@[k].view());
                assert(nv =~= old_v.push(config.view()));
                assert forall|a: int, b: int| 0 <= a < b < nv.len() implies (#[trigger] nv[a]).0
                    != (#[trigger] nv[b]).0 by {
                    if b == old_v.len() {
                        assert(nv[a] == old_v[a]);
                    } else {
                        assert(nv[a] == old_v[a] && nv[b] == old_v[b]);
                    }
                }
            }
            formats.formats = v;
            assert(formats.view() =~= old_v.push(config.view()));
        },
    }
    proof {
        use_type_invariant(&*formats);
    }
}

/// Registers user-defined formats in order.
pub fn register_custom_formats(formats: &mut CustomFormats, configs: &[ExportFormatConfig])
    ensures
        final(formats).view() == register_all(old(formats).view(), configs@, configs@.len() as int),
        names_unique(final(formats).view()),
{
    proof {
        use_type_invariant(&*formats);
    }
    let mut i: usize = 0;
    while i < configs.len()
        invariant
            i <= configs.len(),
            formats.view() == register_all(old(formats).view(), configs@, i as int),
            names_unique(formats.view()),
        decreases configs.len() - i,
    {
        register_custom_format(formats, configs[i].copy());
        i += 1;
    }
}

/// The formats after registering the first `n` of `cs`.
pub open spec fn register_all(
    fs: Seq<(Seq<char>, Seq<char>, Seq<char>)>,
    cs: Seq<ExportFormatConfig>,
    n: int,
) -> Seq<(Seq<char>, Seq<char>, Seq<char>)>
    decreases n,
{
    if n <= 0 {
        fs
    } else {
        register_spec(register_all(fs, cs, n - 1), cs[n - 1].view())
    }
}

/// The user-defined format of that name.
pub fn get_custom_format(formats: &CustomFormats, name: &str) -> (r: Option<ExportFormatConfig>)
    ensures
        names_unique(formats.view()),
        r matches Some(c) ==> lookup_format(formats.view(), name@) == Some(c.view()),
        r is None ==> lookup_format(formats.view(), name@) is None,
{
    proof {
        use_type_invariant(formats);
        lemma_lookup_unique(formats.view(), name@);
    }
    match formats.index_of(name) {
        Some(i) => {
            proof {
                let k = choose|j: int|
                    0 <= j < formats.view().len() && (#[trigger] formats.view()[j]).0 == name@;
                if k != i {
                    if k < i {
                        assert(formats.view()[k].0 != formats.view()[i as int].0);
                    } else {
                        assert(formats.view()[i as int].0 != formats.view()[k].0);
                    }
                }
            }
            Some(formats.formats[i].copy())
        },
        None => None,
    }
}

/// Registering a format makes a lookup of its name give it back, leaves
/// the lookup of every other name as it was, and keeps one format per name.
pub proof fn law_lookup_after_register(
    fs: Seq<(Seq<char>, Seq<char>, Seq<char>)>,
    c: (Seq<char>, Seq<char>, Seq<char>),
    other: Seq<char>,
)
    requires
        names_unique(fs),
    ensures
        names_unique(register_spec(fs, c)),
        lookup_format(register_spec(fs, c), c.0) == Some(c),
        other != c.0 ==> lookup_format(register_spec(fs, c), other) == lookup_format(fs, other),
{
    let r = register_spec(fs, c);
    if exists|i: int| 0 <= i < fs.len() && (#[trigger] fs[i]).0 == c.0 {
        let k = choose|i: int| 0 <= i < fs.len() && (#[trigger] fs[i]).0 == c.0;
        assert(names_unique(r)) by {
            assert forall|a: int, b: int| 0 <= a < b < r.len() implies (#[trigger] r[a]).0
                != (#[trigger] r[b]).0 by {
                if a != k && b != k {
                    assert(r[a] == fs[a] && r[b] == fs[b]);
                } else if a == k {
                    assert(r[b] == fs[b]);
                } else {
                    assert(r[a] == fs[a]);
                }
            }
        }
        lemma_lookup_unique(r, c.0);
        assert(r[k].0 == c.0);
        let k2 = choose|i: int| 0 <= i < r.len() && (#[trigger] r[i]).0 == c.0;
        if k2 != k {
            assert(r[k2] == fs[k2]);
        }
        lemma_lookup_unique(fs, other);
        lemma_lookup_unique(r, other);
        if other != c.0 {
            if exists|i: int| 0 <= i < fs.len() && (#[trigger] fs[i]).0 == other {
                let j = choose|i: int| 0 <= i < fs.len() && (#[trigger] fs[i]).0 == other;
                assert(r[j] == fs[j]);
                let j2 = choose|i: int| 0 <= i < r.len() && (#[trigger] r[i]).0 == other;
                assert(r[j2] == fs[j2]);
                if j2 != j {
                    assert(fs[j2].0 != fs[j].0);
                }
            } else {
                assert forall|i: int| 0 <= i < r.len() implies (#[trigger] r[i]).0 != other by {
                    if i != k {
                        assert(r[i] == fs[i]);
                    }
                }
            }
        }
    } else {
        assert(r == fs.push(c));
        assert(names_unique(r)) by {
            assert forall|a: int, b: int| 0 <= a < b < r.len() implies (#[trigger] r[a]).0
                != (#[trigger] r[b]).0 by {
                assert(r[a] == fs[a]);
                if b < fs.len() {
                    assert(r[b] == fs[b]);
                }
            }
        }
        lemma_lookup_unique(r, c.0);
        assert(r[fs.len() as int].0 == c.0);
        let k2 = choose|i: int| 0 <= i < r.len() && (#[trigger] r[i]).0 == c.0;
        if k2 < fs.len() {
            assert(r[k2] == fs[k2]);
        }
        lemma_lookup_unique(fs, other);
        lemma_lookup_unique(r, other);
        if other != c.0 {
            if exists|i: int| 0 <= i < fs.len() && (#[trigger] fs[i]).0 == other {
                let j = choose|i: int| 0 <= i < fs.len() && (#[trigger] fs[i]).0 == other;
                assert(r[j] == fs[j]);
                let j2 = choose|i: int| 0 <= i < r.len() && (#[trigger] r[i]).0 == other;
                if j2 < fs.len() {
                    assert(r[j2] == fs[j2]);
                    if j2 != j {
                        assert(fs[j2].0 != fs[j].0);
                    }
                }
            } else {
                assert forall|i: int| 0 <= i < r.len() implies (#[trigger] r[i]).0 != other by {
                    if i < fs.len() {
                        assert(r[i] == fs[i]);
                    }
                }
            }
        }
    }
}

/// The names of the user-defined formats.
pub fn custom_format_names(formats: &CustomFormats) -> (r: Vec<String>)
    ensures
        r.deep_view() == Seq::new(formats.view().len(), |i: int| formats.view()[i].0),
        names_unique(formats.view()),
{
    proof {
        use_type_invariant(formats);
    }
    let mut out: Vec<String> = Vec::new();
    let mut i: usize = 0;
    while i < formats.formats.len()
        invariant
            i <= formats.formats.len(),
            out.deep_view() == Seq::new(i as nat, |k: int| formats.view()[k].0),
        decreases formats.formats.len() - i,
    {
        let ghost before = out.deep_view();
        crate::text::push_string(&mut out, formats.formats[i].name.clone());
        assert(out.deep_view() =~= Seq::new((i + 1) as nat, |k: int| formats.view()[k].0));
        i += 1;
    }
    out
}

// ---------------------------------------------------------------------------
// Formats
// ---------------------------------------------------------------------------

/// An export format: one of the built-in ones, or a user-defined one by name.
#[derive(Clone, Debug, PartialEq, Eq)]
pub enum ExportFormat {
    BibliontologyRdf,
    Bibtex,
    Bookmarks,
    Cff,
    CffReferences,
    Coins,
    CslJson,
    Csv,
    EndnoteXml,
    Mods,
    ReferBibix,
    RefworksTagged,
    Ris,
    EvernoteExport,
    Tei,
    WikidataQuickStatements,
    Custom(String),
}

/// The built-in formats, in menu order.
pub open spec fn builtin_formats() -> Seq<ExportFormat> {
    seq![
        ExportFormat::BibliontologyRdf,
        ExportFormat::Bibtex,
        ExportFormat::Bookmarks,
        ExportFormat::Cff,
        ExportFormat::CffReferences,
        ExportFormat::Coins,
        ExportFormat::CslJson,
        ExportFormat::Csv,
        ExportFormat::EndnoteXml,
        ExportFormat::Mods,
        ExportFormat::ReferBibix,
        ExportFormat::RefworksTagged,
        ExportFormat::Ris,
        ExportFormat::EvernoteExport,
        ExportFormat::Tei,
        ExportFormat::WikidataQuickStatements,
    ]
}

pub open spec fn extension_spec(f: ExportFormat) -> Seq<char> {
    match f {
        ExportFormat::BibliontologyRdf => "rdf"@,
        ExportFormat::Bibtex => "bib"@,
        ExportFormat::Bookmarks => "html"@,
        ExportFormat::Cff => "cff"@,
        ExportFormat::CffReferences => "cff"@,
        ExportFormat::Coins => "html"@,
        ExportFormat::CslJson => "json"@,
        ExportFormat::Csv => "csv"@,
        ExportFormat::EndnoteXml => "xml"@,
        ExportFormat::Mods => "xml"@,
        ExportFormat::ReferBibix => "ref"@,
        ExportFormat::RefworksTagged => "txt"@,
        ExportFormat::Ris => "ris"@,
        ExportFormat::EvernoteExport => "enex"@,
        ExportFormat::Tei => "xml"@,
        ExportFormat::WikidataQuickStatements => "tsv"@,
        ExportFormat::Custom(_) => "txt"@,
    }
}

pub open spec fn format_name_spec(f: ExportFormat) -> Seq<char> {
    match f {
        ExportFormat::BibliontologyRdf => "Bibliontology RDF"@,
        ExportFormat::Bibtex => "BibTeX"@,
        ExportFormat::Bookmarks => "Bookmarks"@,
        ExportFormat::Cff => "CFF"@,
        ExportFormat::CffReferences => "CFF References"@,
        ExportFormat::Coins => "COinS"@,
        ExportFormat::CslJson => "CSL JSON"@,
        ExportFormat::Csv => "CSV"@,
        ExportFormat::EndnoteXml => "Endnote XML"@,
        ExportFormat::Mods => "MODS"@,
        ExportFormat::ReferBibix => "Refer/BibIX"@,
        ExportFormat::RefworksTagged => "RefWorks Tagged"@,
        ExportFormat::Ris => "RIS"@,
        ExportFormat::EvernoteExport => "Simple Evernote Export"@,
        ExportFormat::Tei => "TEI"@,
        ExportFormat::WikidataQuickStatements => "Wikidata QuickStatements"@,
        ExportFormat::Custom(name) => name@,
    }
}

/// The key of a format in settings and on the command line.
pub open spec fn format_key(f: ExportFormat) -> Seq<char> {
    match f {
        ExportFormat::BibliontologyRdf => "bibliontology_rdf"@,
        ExportFormat::Bibtex => "bibtex"@,
        ExportFormat::Bookmarks => "bookmarks"@,
        ExportFormat::Cff => "cff"@,
        ExportFormat::CffReferences => "cff_references"@,
        ExportFormat::Coins => "coins"@,
        ExportFormat::CslJson => "csl_json"@,
        ExportFormat::Csv => "csv"@,
        ExportFormat::EndnoteXml => "endnote_xml"@,
        ExportFormat::Mods => "mods"@,
        ExportFormat::ReferBibix => "refer_bibix"@,
        ExportFormat::RefworksTagged => "refworks_tagged"@,
        ExportFormat::Ris => "ris"@,
        ExportFormat::EvernoteExport => "evernote_export"@,
        ExportFormat::Tei => "tei"@,
        ExportFormat::WikidataQuickStatements => "wikidata_quick_statements"@,
        ExportFormat::Custom(name) => name@,
    }
}

/// The first built-in format, from the `i`-th on, whose key is `s`.
pub open spec fn builtin_with_key(s: Seq<char>, i: int) -> Option<ExportFormat>
    decreases 16 - i,
{
    if i < 0 || i >= 16 {
        None
    } else if format_key(builtin_formats()[i]) == s {
        Some(builtin_formats()[i])
    } else {
        builtin_with_key(s, i + 1)
    }
}

impl ExportFormat {
    /// The built-in formats, in menu order.
    pub fn all() -> (r: Vec<ExportFormat>)
        ensures
            r@ == builtin_formats(),
    {
        let r = vec![
            ExportFormat::BibliontologyRdf,
            ExportFormat::Bibtex,
            ExportFormat::Bookmarks,
            ExportFormat::Cff,
            ExportFormat::CffReferences,
            ExportFormat::Coins,
            ExportFormat::CslJson,
            ExportFormat::Csv,
            ExportFormat::EndnoteXml,
            ExportFormat::Mods,
            ExportFormat::ReferBibix,
            ExportFormat::RefworksTagged,
            ExportFormat::Ris,
            ExportFormat::EvernoteExport,
            ExportFormat::Tei,
            ExportFormat::WikidataQuickStatements,
        ];
        assert(r@ =~= builtin_formats());
        r
    }

    /// The `i`-th built-in format.
    pub fn builtin(i: usize) -> (r: ExportFormat)
        requires
            i < 16,
        ensures
            r == builtin_formats()[i as int],
    {
        match i {
            0 => ExportFormat::BibliontologyRdf,
            1 => ExportFormat::Bibtex,
            2 => ExportFormat::Bookmarks,
            3 => ExportFormat::Cff,
            4 => ExportFormat::CffReferences,
            5 => ExportFormat::Coins,
            6 => ExportFormat::CslJson,
            7 => ExportFormat::Csv,
            8 => ExportFormat::EndnoteXml,
            9 => ExportFormat::Mods,
            10 => ExportFormat::ReferBibix,
            11 => ExportFormat::RefworksTagged,
            12 => ExportFormat::Ris,
            13 => ExportFormat::EvernoteExport,
            14 => ExportFormat::Tei,
            _ => ExportFormat::WikidataQuickStatements,
        }
    }

    /// The file extension of the format's output.
    pub fn file_extension(&self) -> (r: &str)
        ensures
            r@ == extension_spec(*self),
    {
        match self {
            ExportFormat::BibliontologyRdf => "rdf",
            ExportFormat::Bibtex => "bib",
            ExportFormat::Bookmarks => "html",
            ExportFormat::Cff => "cff",
            ExportFormat::CffReferences => "cff",
            ExportFormat::Coins => "html",
            ExportFormat::CslJson => "json",
            ExportFormat::Csv => "csv",
            ExportFormat::EndnoteXml => "xml",
            ExportFormat::Mods => "xml",
            ExportFormat::ReferBibix => "ref",
            ExportFormat::RefworksTagged => "txt",
            ExportFormat::Ris => "ris",
            ExportFormat::EvernoteExport => "enex",
            ExportFormat::Tei => "xml",
            ExportFormat::WikidataQuickStatements => "tsv",
            ExportFormat::Custom(_) => "txt",
        }
    }

    /// The display name of the format.
    pub fn format_name(&self) -> (r: &str)
        ensures
            r@ == format_name_spec(*self),
    {
        match self {
            ExportFormat::BibliontologyRdf => "Bibliontology RDF",
            ExportFormat::Bibtex => "BibTeX",
            ExportFormat::Bookmarks => "Bookmarks",
            ExportFormat::Cff => "CFF",
            ExportFormat::CffReferences => "CFF References",
            ExportFormat::Coins => "COinS",
            ExportFormat::CslJson => "CSL JSON",
            ExportFormat::Csv => "CSV",
            ExportFormat::EndnoteXml => "Endnote XML",
            ExportFormat::Mods => "MODS",
            ExportFormat::ReferBibix => "Refer/BibIX",
            ExportFormat::RefworksTagged => "RefWorks Tagged",
            ExportFormat::Ris => "RIS",
            ExportFormat::EvernoteExport => "Simple Evernote Export",
            ExportFormat::Tei => "TEI",
            ExportFormat::WikidataQuickStatements => "Wikidata QuickStatements",
            ExportFormat::Custom(name) => name.as_str(),
        }
    }

    /// Formats whose output embeds rendered citation text: Bookmarks and
    /// Evernote.
    pub fn is_style_dependent(&self) -> (r: bool)
        ensures
            r == (*self is Bookmarks || *self is EvernoteExport),
    {
        match self {
            ExportFormat::Bookmarks => true,
            ExportFormat::EvernoteExport => true,
            _ => false,
        }
    }

    /// Every format is implemented.
    pub fn is_implemented(&self) -> (r: bool)
        ensures
            r,
    {
        true
    }

    /// The key of the format.
    pub fn as_str(&self) -> (r: &str)
        ensures
            r@ == format_key(*self),
    {
        match self {
            ExportFormat::BibliontologyRdf => "bibliontology_rdf",
            ExportFormat::Bibtex => "bibtex",
            ExportFormat::Bookmarks => "bookmarks",
            ExportFormat::Cff => "cff",
            ExportFormat::CffReferences => "cff_references",
            ExportFormat::Coins => "coins",
            ExportFormat::CslJson => "csl_json",
            ExportFormat::Csv => "csv",
            ExportFormat::EndnoteXml => "endnote_xml",
            ExportFormat::Mods => "mods",
            ExportFormat::ReferBibix => "refer_bibix",
            ExportFormat::RefworksTagged => "refworks_tagged",
            ExportFormat::Ris => "ris",
            ExportFormat::EvernoteExport => "evernote_export",
            ExportFormat::Tei => "tei",
            ExportFormat::WikidataQuickStatements => "wikidata_quick_statements",
            ExportFormat::Custom(name) => name.as_str(),
        }
    }

    /// The format with that key: a built-in one, else a registered
    /// user-defined one.
    pub fn from_str(s: &str, formats: &CustomFormats) -> (r: Option<ExportFormat>)
        ensures
            builtin_with_key(s@, 0) is Some ==> r == builtin_with_key(s@, 0),
            builtin_with_key(s@, 0) is None && lookup_format(formats.view(), s@) is Some ==> (
            r matches Some(ExportFormat::Custom(n)) && n@ == s@),
            builtin_with_key(s@, 0) is None && lookup_format(formats.view(), s@) is None ==> r
                is None,
    {
        let sv = chars_of(s);
        let mut i: usize = 0;
        while i < 16
            invariant
                i <= 16,
                sv@ == s@,
                builtin_with_key(s@, 0) == builtin_with_key(s@, i as int),
            decreases 16 - i,
        {
            let f = ExportFormat::builtin(i);
            if crate::text::eq_str(&sv, f.as_str()) {
                return Some(f);
            }
            i += 1;
        }
        if get_custom_format(formats, s).is_some() {
            return Some(ExportFormat::Custom(s.to_string()));
        }
        None
    }
}

// ---------------------------------------------------------------------------
// Template export
// ---------------------------------------------------------------------------

pub open spec fn opt_text(o: Option<String>) -> Seq<char> {
    match o {
        Some(s) => s@,
        None => Seq::empty(),
    }
}

/// The template with each placeholder replaced, in this order, by the
/// document's title, authors, year, DOI, journal and abstract (an absent
/// field reads as empty).
pub open spec fn substitute_spec(template: Seq<char>, doc: Document) -> Seq<char> {
    let year = match doc.pub_year {
        Some(y) => decimal_of(y as int),
        None => Seq::empty(),
    };
    let t1 = replace_all_spec(template, "{title}"@, doc.title@);
    let t2 = replace_all_spec(t1, "{authors}"@, opt_text(doc.authors));
    let t3 = replace_all_spec(t2, "{year}"@, year);
    let t4 = replace_all_spec(t3, "{doi}"@, opt_text(doc.doi));
    let t5 = replace_all_spec(t4, "{journal}"@, opt_text(doc.journal));
    replace_all_spec(t5, "{abstract}"@, opt_text(doc.abstract_text))
}

fn opt_chars(o: &Option<String>) -> (r: Vec<char>)
    ensures
        r@ == opt_text(*o),
{
    match o {
        Some(s) => chars_of(s.as_str()),
        None => Vec::new(),
    }
}

fn replace_lit(s: &Vec<char>, from: &str, to: &Vec<char>) -> (r: Vec<char>)
    ensures
        from@.len() > 0 ==> r@ == replace_all_spec(s@, from@, to@),
{
    let f = chars_of(from);
    if f.len() == 0 {
        return crate::text::slice_of(s, 0, s.len());
    }
    replace_all_exec(s, &f, to)
}

fn substitute_chars(template: &Vec<char>, doc: &Document) -> (r: Vec<char>)
    ensures
        r@ == substitute_spec(template@, *doc),
{
    proof {
        reveal_strlit("{title}");
        reveal_strlit("{authors}");
        reveal_strlit("{year}");
        reveal_strlit("{doi}");
        reveal_strlit("{journal}");
        reveal_strlit("{abstract}");
    }
    let title = chars_of(doc.title.as_str());
    let t1 = replace_lit(template, "{title}", &title);
    let t2 = replace_lit(&t1, "{authors}", &opt_chars(&doc.authors));
    let year = match doc.pub_year {
        Some(y) => format_i64(y),
        None => Vec::new(),
    };
    let t3 = replace_lit(&t2, "{year}", &year);
    let t4 = replace_lit(&t3, "{doi}", &opt_chars(&doc.doi));
    let t5 = replace_lit(&t4, "{journal}", &opt_chars(&doc.journal));
    replace_lit(&t5, "{abstract}", &opt_chars(&doc.abstract_text))
}

/// Fills a template's placeholders from a document.
pub fn substitute_template(template: &str, doc: &Document) -> (r: String)
    ensures
        r@ == substitute_spec(template@, *doc),
{
    let t = chars_of(template);
    let r = substitute_chars(&t, doc);
    string_from_chars(&r)
}

/// The filled templates of the documents, one per line.
pub open spec fn export_custom_spec(docs: Seq<Document>, template: Seq<char>) -> Seq<char> {
    join(Seq::new(docs.len(), |i: int| substitute_spec(template, docs[i])), "\n"@)
}

/// Exports documents with a user-defined template, one per line.
pub fn export_custom(documents: &[Document], config: &ExportFormatConfig) -> (r: String)
    ensures
        r@ == export_custom_spec(documents@, config.template@),
{
    broadcast use lemma_chars_deep_view;

    let t = chars_of(config.template.as_str());
    let mut parts: Vec<Vec<char>> = Vec::new();
    let mut i: usize = 0;
    while i < documents.len()
        invariant
            i <= documents.len(),
            t@ == config.template@,
            parts.deep_view() == Seq::new(
                i as nat,
                |k: int| substitute_spec(config.template@, documents@[k]),
            ),
        decreases documents.len() - i,
    {
        let p = substitute_chars(&t, &documents[i]);
        crate::text::push_piece(&mut parts, p);
        assert(parts.deep_view() =~= Seq::new(
            (i + 1) as nat,
            |k: int| substitute_spec(config.template@, documents@[k]),
        ));
        i += 1;
    }
    let r = join_str(&parts, "\n");
    string_from_chars(&r)
}

/// Why an export produced nothing.
#[derive(Clone, Debug, PartialEq, Eq)]
pub enum ExportError {
    /// No user-defined format of that name is registered.
    UnknownCustomFormat(String),
    /// The built-in format (by key) has no writer in this library.
    UnsupportedFormat(String),
}

/// Exports documents in a format: a registered user-defined format renders
/// its template; an unregistered name is an error, as is a built-in format,
/// for which this library has no writer.
pub fn export(documents: &[Document], format: ExportFormat, formats: &CustomFormats) -> (r: Result<
    String,
    ExportError,
>)
    ensures
        format matches ExportFormat::Custom(name) ==> (match lookup_format(formats.view(), name@) {
            Some(c) => r matches Ok(out) && out@ == export_custom_spec(documents@, c.2),
            None => r matches Err(ExportError::UnknownCustomFormat(n)) && n@ == name@,
        }),
        !(format is Custom) ==> (r matches Err(ExportError::UnsupportedFormat(k)) && k@
            == format_key(format)),
{
    match format {
        ExportFormat::Custom(name) => {
            match get_custom_format(formats, name.as_str()) {
                Some(config) => Ok(export_custom(documents, &config)),
                None => Err(ExportError::UnknownCustomFormat(name)),
            }
        },
        other => {
            let k = other.as_str().to_string();
            Err(ExportError::UnsupportedFormat(k))
        },
    }
}

// ---------------------------------------------------------------------------
// Laws
// ---------------------------------------------------------------------------

/// Distinct built-in formats have distinct keys.
pub proof fn law_builtin_keys_distinct()
    ensures
        forall|a: int, b: int|
            0 <= a < b < 16 ==> format_key(#[trigger] builtin_formats()[a]) != format_key(
                #[trigger] builtin_formats()[b],
            ),
{
    reveal_strlit("bibliontology_rdf");
    reveal_strlit("bibtex");
    reveal_strlit("bookmarks");
    reveal_strlit("cff");
    reveal_strlit("cff_references");
    reveal_strlit("coins");
    reveal_strlit("csl_json");
    reveal_strlit("csv");
    reveal_strlit("endnote_xml");
    reveal_strlit("mods");
    reveal_strlit("refer_bibix");
    reveal_strlit("refworks_tagged");
    reveal_strlit("ris");
    reveal_strlit("evernote_export");
    reveal_strlit("tei");
    reveal_strlit("wikidata_quick_statements");
    assert forall|a: int, b: int| 0 <= a < b < 16 implies format_key(
        #[trigger] builtin_formats()[a],
    ) != format_key(#[trigger] builtin_formats()[b]) by {
        let ka = format_key(builtin_formats()[a]);
        let kb = format_key(builtin_formats()[b]);
        if ka.len() == kb.len() {
            assert(ka[0] != kb[0] || ka[1] != kb[1]);
        }
    }
}

/// Every built-in format's key names it back: `from_str(as_str(f)) == f`.
pub proof fn law_builtin_key_round_trip(i: int)
    requires
        0 <= i < 16,
    ensures
        builtin_with_key(format_key(builtin_formats()[i]), 0) == Some(builtin_formats()[i]),
{
    law_builtin_keys_distinct();
    lemma_builtin_keys_distinct(i, 0);
}

proof fn lemma_builtin_keys_distinct(i: int, j: int)
    requires
        0 <= j <= i < 16,
        forall|a: int, b: int|
            0 <= a < b < 16 ==> format_key(#[trigger] builtin_formats()[a]) != format_key(
                #[trigger] builtin_formats()[b],
            ),
    ensures
        builtin_with_key(format_key(builtin_formats()[i]), j) == Some(builtin_formats()[i]),
    decreases i - j,
{
    if j < i {
        lemma_builtin_keys_distinct(i, j + 1);
    }
}

// ---------------------------------------------------------------------------
// Laws of the file extensions
// ---------------------------------------------------------------------------

/// The formats written as XML documents.
pub open spec fn writes_xml(f: ExportFormat) -> bool {
    f is EndnoteXml || f is Mods || f is Tei
}

/// The formats written as HTML pages.
pub open spec fn writes_html(f: ExportFormat) -> bool {
    f is Bookmarks || f is Coins
}

/// The formats written as Citation File Format files.
pub open spec fn writes_cff(f: ExportFormat) -> bool {
    f is Cff || f is CffReferences
}

/// The formats written as plain text: RefWorks tagged records and user
/// templates.
pub open spec fn writes_plain_text(f: ExportFormat) -> bool {
    f is RefworksTagged || f is Custom
}

/// Two formats write the same kind of file: the same format, or both XML,
/// both HTML, both CFF, or both plain text.
pub open spec fn same_file_type(f: ExportFormat, g: ExportFormat) -> bool {
    ||| f == g
    ||| writes_xml(f) && writes_xml(g)
    ||| writes_html(f) && writes_html(g)
    ||| writes_cff(f) && writes_cff(g)
    ||| writes_plain_text(f) && writes_plain_text(g)
}

/// An ASCII capital made small; any other character unchanged.
pub open spec fn ascii_small(c: char) -> char {
    if 'A' <= c && c <= 'Z' {
        ((c as u32) + 32) as char
    } else {
        c
    }
}

/// `s` with its ASCII capitals made small.
pub open spec fn ascii_lowered(s: Seq<char>) -> Seq<char> {
    Seq::new(s.len(), |i: int| ascii_small(s[i]))
}

/// Two formats share a file extension exactly when they write the same kind
/// of file: the extension tells the kinds apart.
pub proof fn law_extension_tells_file_types_apart(f: ExportFormat, g: ExportFormat)
    ensures
        extension_spec(f) == extension_spec(g) <==> same_file_type(f, g),
{
    reveal_strlit("rdf");
    reveal_strlit("bib");
    reveal_strlit("html");
    reveal_strlit("cff");
    reveal_strlit("json");
    reveal_strlit("csv");
    reveal_strlit("xml");
    reveal_strlit("ref");
    reveal_strlit("txt");
    reveal_strlit("ris");
    reveal_strlit("enex");
    reveal_strlit("tsv");
    let (a, b) = (extension_spec(f), extension_spec(g));
    if a == b {
        assert(a.len() == b.len());
        assert(a[0] == b[0]);
        assert(a[1] == b[1]);
        assert(a[a.len() - 1] == b[b.len() - 1]);
        match f {
            ExportFormat::BibliontologyRdf => {},
            ExportFormat::Bibtex => {},
            ExportFormat::Bookmarks => {},
            ExportFormat::Cff => {},
            ExportFormat::CffReferences => {},
            ExportFormat::Coins => {},
            ExportFormat::CslJson => {},
            ExportFormat::Csv => {},
            ExportFormat::EndnoteXml => {},
            ExportFormat::Mods => {},
            ExportFormat::ReferBibix => {},
            ExportFormat::RefworksTagged => {},
            ExportFormat::Ris => {},
            ExportFormat::EvernoteExport => {},
            ExportFormat::Tei => {},
            ExportFormat::WikidataQuickStatements => {},
            ExportFormat::Custom(_) => {},
        }
        match g {
            ExportFormat::BibliontologyRdf => {},
            ExportFormat::Bibtex => {},
            ExportFormat::Bookmarks => {},
            ExportFormat::Cff => {},
            ExportFormat::CffReferences => {},
            ExportFormat::Coins => {},
            ExportFormat::CslJson => {},
            ExportFormat::Csv => {},
            ExportFormat::EndnoteXml => {},
            ExportFormat::Mods => {},
            ExportFormat::ReferBibix => {},
            ExportFormat::RefworksTagged => {},
            ExportFormat::Ris => {},
            ExportFormat::EvernoteExport => {},
            ExportFormat::Tei => {},
            ExportFormat::WikidataQuickStatements => {},
            ExportFormat::Custom(_) => {},
        }
    }
}

/// The kinds of file have their usual extensions: XML formats `xml`, HTML
/// formats `html`, CFF formats `cff`, plain text `txt`; and a format named
/// after its file type (RIS, CSV, CFF) uses its name in small letters.
pub proof fn law_extension_of_file_type(f: ExportFormat)
    ensures
        writes_xml(f) ==> extension_spec(f) == "xml"@,
        writes_html(f) ==> extension_spec(f) == "html"@,
        writes_cff(f) ==> extension_spec(f) == "cff"@,
        writes_plain_text(f) ==> extension_spec(f) == "txt"@,
        (f is Ris || f is Csv || f is Cff) ==> extension_spec(f) == ascii_lowered(
            format_name_spec(f),
        ),
        (f is Bibtex || f is ReferBibix) ==> ascii_lowered(format_name_spec(f)).take(
            extension_spec(f).len() as int,
        ) == extension_spec(f),
        (f is BibliontologyRdf || f is CslJson) ==> ascii_lowered(format_name_spec(f)).skip(
            format_name_spec(f).len() - extension_spec(f).len(),
        ) == extension_spec(f),
{
    reveal_strlit("bib");
    reveal_strlit("BibTeX");
    reveal_strlit("ref");
    reveal_strlit("Refer/BibIX");
    reveal_strlit("rdf");
    reveal_strlit("Bibliontology RDF");
    reveal_strlit("json");
    reveal_strlit("CSL JSON");
    let n = ascii_lowered(format_name_spec(f));
    let e = extension_spec(f);
    if f is Bibtex || f is ReferBibix {
        assert(n.take(e.len() as int) =~= e);
    }
    if f is BibliontologyRdf || f is CslJson {
        assert(n.skip(format_name_spec(f).len() - e.len()) =~= e);
    }
    reveal_strlit("ris");
    reveal_strlit("RIS");
    reveal_strlit("csv");
    reveal_strlit("CSV");
    reveal_strlit("cff");
    reveal_strlit("CFF");
    assert(extension_spec(f) =~= ascii_lowered(format_name_spec(f)) || !(f is Ris || f is Csv
        || f is Cff));
}

} // verus!
