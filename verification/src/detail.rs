//! The lines of the document detail view: the document's fields with their
//! labels, its attachments, tags, abstract, custom fields and bookmarks.
use vstd::prelude::*;
use crate::documents::Document;
use crate::number::{decimal_of, format_i64};
use crate::records::Attachment;
use crate::text::{append, append_str, chars_of, eq_str, lines, lines_exec, string_from_chars};

verus! {

/// What the detail view shows: the selected document (if any) and what
/// belongs to it.
pub struct DetailState {
    pub doc: Option<Document>,
    /// `ballot` or another glyph set for the reading status.
    pub glyph_set: String,
    pub attachments: Vec<Attachment>,
    pub tags: Vec<String>,
    /// `(id, key, value)` of each custom field.
    pub custom_fields: Vec<(i64, String, String)>,
    /// `(title, page)` of each bookmark.
    pub bookmarks: Vec<(String, i64)>,
}

/// One line of the detail view.
#[derive(Clone, Debug, PartialEq, Eq)]
pub enum DetailLine {
    /// No document is selected.
    NoDocument,
    /// An empty line.
    Blank,
    /// The title, after the glyph of the reading status.
    Title(String, String),
    /// A labeled field and its value.
    Field(String, String),
    /// The number of attachments.
    AttachmentCount(usize),
    /// The heading of a section (abstract, custom fields, bookmarks).
    Section(String),
    /// An indented line of text.
    Text(String),
    /// The tags, or none.
    Tags(Vec<String>),
    /// The document has no abstract.
    NoAbstract,
    /// A custom field: key and value.
    Custom(String, String),
}

/// The spec form of a detail line.
pub ghost enum LineView {
    NoDocument,
    Blank,
    Title(Seq<char>, Seq<char>),
    Field(Seq<char>, Seq<char>),
    AttachmentCount(nat),
    Section(Seq<char>),
    Text(Seq<char>),
    Tags(Seq<Seq<char>>),
    NoAbstract,
    Custom(Seq<char>, Seq<char>),
}

pub open spec fn line_view(l: DetailLine) -> LineView {
    match l {
        DetailLine::NoDocument => LineView::NoDocument,
        DetailLine::Blank => LineView::Blank,
        DetailLine::Title(g, t) => LineView::Title(g@, t@),
        DetailLine::Field(a, b) => LineView::Field(a@, b@),
        DetailLine::AttachmentCount(n) => LineView::AttachmentCount(n as nat),
        DetailLine::Section(s) => LineView::Section(s@),
        DetailLine::Text(s) => LineView::Text(s@),
        DetailLine::Tags(ts) => LineView::Tags(ts.deep_view()),
        DetailLine::NoAbstract => LineView::NoAbstract,
        DetailLine::Custom(k, v) => LineView::Custom(k@, v@),
    }
}

pub open spec fn lines_view(ls: Seq<DetailLine>) -> Seq<LineView> {
    Seq::new(ls.len(), |i: int| line_view(ls[i]))
}

// ---------------------------------------------------------------------------
// Field values
// ---------------------------------------------------------------------------

/// The glyph of a reading status: `read`, `reading` or anything else
/// (unread), in the ballot or the circle set.
pub open spec fn status_glyph(glyph_set: Seq<char>, status: Option<String>) -> Seq<char> {
    let ballot = glyph_set == "ballot"@;
    match status {
        Some(s) => if s@ == "read"@ {
            if ballot {
                "☒"@
            } else {
                "✓"@
            }
        } else if s@ == "reading"@ {
            if ballot {
                "⊡"@
            } else {
                "◐"@
            }
        } else if ballot {
            "☐"@
        } else {
            "○"@
        },
        None => if ballot {
            "☐"@
        } else {
            "○"@
        },
    }
}

/// A value, or a dash when it is missing.
pub open spec fn or_dash(v: Option<String>) -> Seq<char> {
    match v {
        Some(s) => s@,
        None => "—"@,
    }
}

pub open spec fn reading_label(status: Option<String>) -> Seq<char> {
    match status {
        Some(s) => if s@ == "reading"@ {
            "읽는 중"@
        } else if s@ == "read"@ {
            "읽음"@
        } else {
            "안 읽음"@
        },
        None => "안 읽음"@,
    }
}

/// `n` copies of `s`.
pub open spec fn repeated(s: Seq<char>, n: nat) -> Seq<char>
    decreases n,
{
    if n == 0 {
        Seq::empty()
    } else {
        repeated(s, (n - 1) as nat) + s
    }
}

/// A rating from 1 to 5 as filled and empty stars with the number, else a dash.
pub open spec fn rating_text(rating: Option<i64>) -> Seq<char> {
    match rating {
        Some(r) => if 1 <= r <= 5 {
            repeated("★"@, r as nat) + repeated("☆"@, (5 - r) as nat) + " ("@ + decimal_of(r as int)
                + "점)"@
        } else {
            "—"@
        },
        None => "—"@,
    }
}

/// An attachment as listed: its kind, its path, and its label when it has one.
pub open spec fn attachment_text(a: Attachment) -> Seq<char> {
    let kind = if a.attachment_type@ == "supplementary"@ {
        "보충"@
    } else if a.attachment_type@ == "dataset"@ {
        "데이터"@
    } else {
        "기타"@
    };
    let label = match a.label {
        Some(l) => if l@.len() > 0 {
            " — "@ + l@
        } else {
            Seq::empty()
        },
        None => Seq::empty(),
    };
    "["@ + kind + "] "@ + a.file_path@ + label
}

/// A bookmark as listed: its title, and its page when positive.
pub open spec fn bookmark_text(b: (String, i64)) -> Seq<char> {
    b.0@ + if b.1 > 0 {
        " (p."@ + decimal_of(b.1 as int) + ")"@
    } else {
        Seq::empty()
    }
}

// ---------------------------------------------------------------------------
// The lines
// ---------------------------------------------------------------------------

/// The title and the labeled fields of a document, each followed by a
/// blank line.
pub open spec fn field_lines(s: DetailState, d: Document) -> Seq<LineView> {
    seq![
        LineView::Blank,
        LineView::Title(status_glyph(s.glyph_set@, d.reading_status), d.title@),
        LineView::Blank,
        LineView::Field("저자"@, or_dash(d.authors)),
        LineView::Blank,
        LineView::Field("저널"@, or_dash(d.journal)),
        LineView::Blank,
        LineView::Field("학회"@, or_dash(d.conference)),
        LineView::Blank,
        LineView::Field(
            "연도"@,
            match d.pub_year {
                Some(y) => decimal_of(y as int),
                None => "—"@,
            },
        ),
        LineView::Blank,
        LineView::Field("DOI"@, or_dash(d.doi)),
        LineView::Blank,
        LineView::Field("arXiv"@, or_dash(d.arxiv_id)),
        LineView::Blank,
        LineView::Field("키"@, or_dash(d.citation_key)),
        LineView::Blank,
        LineView::Field("파일 (p로 열기)"@, or_dash(d.file_path)),
        LineView::Blank,
    ]
}

/// The attachments: their number, one line each, a blank line; nothing
/// without attachments.
pub open spec fn attachment_lines(s: DetailState) -> Seq<LineView> {
    if s.attachments@.len() == 0 {
        Seq::empty()
    } else {
        seq![LineView::AttachmentCount(s.attachments@.len())] + Seq::new(
            s.attachments@.len(),
            |i: int| LineView::Text(attachment_text(s.attachments@[i])),
        ) + seq![LineView::Blank]
    }
}

/// Reading status, progress, source and rating, then the tags.
pub open spec fn status_lines(s: DetailState, d: Document) -> Seq<LineView> {
    seq![
        LineView::Field("읽음 상태 (u)"@, reading_label(d.reading_status)),
        LineView::Blank,
        LineView::Field(
            "진행률 (>/<)"@,
            decimal_of(
                match d.reading_progress {
                    Some(p) => p as int,
                    None => 0,
                },
            ) + "%"@,
        ),
        LineView::Blank,
        LineView::Field("출처"@, or_dash(d.source)),
        LineView::Blank,
        LineView::Field("별점"@, rating_text(d.rating)),
        LineView::Blank,
        LineView::Tags(s.tags.deep_view()),
        LineView::Blank,
    ]
}

/// The abstract's first ten lines under a heading, or a note that there is none.
pub open spec fn abstract_lines(d: Document) -> Seq<LineView> {
    match d.abstract_text {
        Some(a) => {
            let ls = lines(a@);
            let n = if ls.len() < 10 {
                ls.len() as int
            } else {
                10
            };
            seq![LineView::Section("─ ─ 초록 ─ ─"@), LineView::Blank] + Seq::new(
                n as nat,
                |i: int| LineView::Text(ls[i]),
            )
        },
        None => seq![LineView::NoAbstract],
    }
}

/// The custom fields under a heading, each followed by a blank line.
pub open spec fn custom_lines(s: DetailState) -> Seq<LineView> {
    let cs = s.custom_fields@;
    if cs.len() == 0 {
        Seq::empty()
    } else {
        seq![LineView::Blank, LineView::Section("─ ─ 추가 필드 ─ ─"@), LineView::Blank] + Seq::new(
            2 * cs.len(),
            |i: int|
                if i % 2 == 0 {
                    LineView::Custom(cs[i / 2].1@, cs[i / 2].2@)
                } else {
                    LineView::Blank
                },
        )
    }
}

/// The first twenty bookmarks under a heading.
pub open spec fn bookmark_lines(s: DetailState) -> Seq<LineView> {
    let bs = s.bookmarks@;
    let n = if bs.len() < 20 {
        bs.len() as int
    } else {
        20
    };
    if bs.len() == 0 {
        Seq::empty()
    } else {
        seq![LineView::Blank, LineView::Section("─ ─ 북마크 (b로 추출) ─ ─"@), LineView::Blank]
            + Seq::new(n as nat, |i: int| LineView::Text(bookmark_text(bs[i])))
    }
}

/// All lines of the detail view.
pub open spec fn detail_spec(s: DetailState) -> Seq<LineView> {
    match s.doc {
        Some(d) => field_lines(s, d) + attachment_lines(s) + status_lines(s, d) + abstract_lines(d)
            + custom_lines(s) + bookmark_lines(s),
        None => seq![LineView::NoDocument],
    }
}

// ---------------------------------------------------------------------------
// Building the lines
// ---------------------------------------------------------------------------

fn push_line(out: &mut Vec<DetailLine>, l: DetailLine)
    ensures
        lines_view(final(out)@) == lines_view(old(out)@).push(line_view(l)),
{
    out.push(l);
    assert(lines_view(out@) =~= lines_view(old(out)@).push(line_view(l)));
}

fn append_lines(out: &mut Vec<DetailLine>, other: Vec<DetailLine>)
    ensures
        lines_view(final(out)@) == lines_view(old(out)@) + lines_view(other@),
{
    let mut o = other;
    let ghost ov = o@;
    out.append(&mut o);
    assert(lines_view(out@) =~= lines_view(old(out)@) + lines_view(ov));
}

fn is_text(s: &String, lit: &str) -> (r: bool)
    ensures
        r == (s@ == lit@),
{
    eq_str(&chars_of(s.as_str()), lit)
}

fn or_dash_exec(v: &Option<String>) -> (r: String)
    ensures
        r@ == or_dash(*v),
{
    match v {
        Some(s) => s.clone(),
        None => "—".to_string(),
    }
}

pub(crate) fn status_glyph_exec(glyph_set: &String, status: &Option<String>) -> (r: &'static str)
    ensures
        r@ == status_glyph(glyph_set@, *status),
{
    let ballot = is_text(glyph_set, "ballot");
    let (read, reading, unread) = if ballot {
        ("☒", "⊡", "☐")
    } else {
        ("✓", "◐", "○")
    };
    match status {
        Some(s) => if is_text(s, "read") {
            read
        } else if is_text(s, "reading") {
            reading
        } else {
            unread
        },
        None => unread,
    }
}

fn reading_label_exec(status: &Option<String>) -> (r: &'static str)
    ensures
        r@ == reading_label(*status),
{
    match status {
        Some(s) => if is_text(s, "reading") {
            "읽는 중"
        } else if is_text(s, "read") {
            "읽음"
        } else {
            "안 읽음"
        },
        None => "안 읽음",
    }
}

pub(crate) fn repeat_onto(out: &mut Vec<char>, s: &str, n: u64)
    ensures
        final(out)@ == old(out)@ + repeated(s@, n as nat),
{
    let mut i: u64 = 0;
    assert(old(out)@ + repeated(s@, 0) =~= old(out)@);
    while i < n
        invariant
            i <= n,
            out@ == old(out)@ + repeated(s@, i as nat),
        decreases n - i,
    {
        append_str(out, s);
        assert(out@ =~= old(out)@ + repeated(s@, (i + 1) as nat));
        i += 1;
    }
}

fn rating_text_exec(rating: Option<i64>) -> (r: String)
    ensures
        r@ == rating_text(rating),
{
    match rating {
        Some(r) => if 1 <= r && r <= 5 {
            let mut v: Vec<char> = Vec::new();
            repeat_onto(&mut v, "★", r as u64);
            repeat_onto(&mut v, "☆", (5 - r) as u64);
            append_str(&mut v, " (");
            let d = format_i64(r);
            append(&mut v, &d);
            append_str(&mut v, "점)");
            string_from_chars(&v)
        } else {
            "—".to_string()
        },
        None => "—".to_string(),
    }
}

fn attachment_text_exec(a: &Attachment) -> (r: String)
    ensures
        r@ == attachment_text(*a),
{
    let kind = if is_text(&a.attachment_type, "supplementary") {
        "보충"
    } else if is_text(&a.attachment_type, "dataset") {
        "데이터"
    } else {
        "기타"
    };
    let mut v = chars_of("[");
    append_str(&mut v, kind);
    append_str(&mut v, "] ");
    append_str(&mut v, a.file_path.as_str());
    let ghost head = v@;
    match &a.label {
        Some(l) => {
            if chars_of(l.as_str()).len() > 0 {
                append_str(&mut v, " — ");
                append_str(&mut v, l.as_str());
            }
        },
        None => {},
    }
    assert(head =~= "["@ + (if a.attachment_type@ == "supplementary"@ {
        "보충"@
    } else if a.attachment_type@ == "dataset"@ {
        "데이터"@
    } else {
        "기타"@
    }) + "] "@ + a.file_path@);
    assert(v@ =~= attachment_text(*a));
    string_from_chars(&v)
}

fn bookmark_text_exec(b: &(String, i64)) -> (r: String)
    ensures
        r@ == bookmark_text(*b),
{
    let mut v = chars_of(b.0.as_str());
    if b.1 > 0 {
        append_str(&mut v, " (p.");
        let d = format_i64(b.1);
        append(&mut v, &d);
        append_str(&mut v, ")");
    }
    string_from_chars(&v)
}

fn field(label: &str, value: String) -> (r: DetailLine)
    ensures
        line_view(r) == LineView::Field(label@, value@),
{
    DetailLine::Field(label.to_string(), value)
}

fn field_lines_exec(s: &DetailState, d: &Document) -> (r: Vec<DetailLine>)
    ensures
        lines_view(r@) == field_lines(*s, *d),
{
    let mut out: Vec<DetailLine> = Vec::new();
    push_line(&mut out, DetailLine::Blank);
    push_line(
        &mut out,
        DetailLine::Title(status_glyph_exec(&s.glyph_set, &d.reading_status).to_string(), d.title.clone()),
    );
    push_line(&mut out, DetailLine::Blank);
    push_line(&mut out, field("저자", or_dash_exec(&d.authors)));
    push_line(&mut out, DetailLine::Blank);
    push_line(&mut out, field("저널", or_dash_exec(&d.journal)));
    push_line(&mut out, DetailLine::Blank);
    push_line(&mut out, field("학회", or_dash_exec(&d.conference)));
    push_line(&mut out, DetailLine::Blank);
    let year = match d.pub_year {
        Some(y) => string_from_chars(&format_i64(y)),
        None => "—".to_string(),
    };
    push_line(&mut out, field("연도", year));
    push_line(&mut out, DetailLine::Blank);
    push_line(&mut out, field("DOI", or_dash_exec(&d.doi)));
    push_line(&mut out, DetailLine::Blank);
    push_line(&mut out, field("arXiv", or_dash_exec(&d.arxiv_id)));
    push_line(&mut out, DetailLine::Blank);
    push_line(&mut out, field("키", or_dash_exec(&d.citation_key)));
    push_line(&mut out, DetailLine::Blank);
    push_line(&mut out, field("파일 (p로 열기)", or_dash_exec(&d.file_path)));
    push_line(&mut out, DetailLine::Blank);
    assert(lines_view(out@) =~= field_lines(*s, *d));
    out
}

fn attachment_lines_exec(s: &DetailState) -> (r: Vec<DetailLine>)
    ensures
        lines_view(r@) == attachment_lines(*s),
{
    let mut out: Vec<DetailLine> = Vec::new();
    let n = s.attachments.len();
    if n == 0 {
        assert(lines_view(out@) =~= attachment_lines(*s));
        return out;
    }
    push_line(&mut out, DetailLine::AttachmentCount(n));
    let ghost items = Seq::new(n as nat, |i: int| LineView::Text(attachment_text(s.attachments@[i])));
    let mut i: usize = 0;
    while i < n
        invariant
            n == s.attachments@.len(),
            i <= n,
            items == Seq::new(n as nat, |k: int| LineView::Text(attachment_text(s.attachments@[k]))),
            lines_view(out@) == seq![LineView::AttachmentCount(n as nat)] + items.take(i as int),
        decreases n - i,
    {
        push_line(&mut out, DetailLine::Text(attachment_text_exec(&s.attachments[i])));
        assert(items.take(i + 1) =~= items.take(i as int).push(items[i as int]));
        i += 1;
    }
    assert(items.take(n as int) =~= items);
    push_line(&mut out, DetailLine::Blank);
    assert(lines_view(out@) =~= attachment_lines(*s));
    out
}

fn copy_strings(v: &Vec<String>) -> (r: Vec<String>)
    ensures
        r.deep_view() == v.deep_view(),
{
    let mut out: Vec<String> = Vec::new();
    let mut i: usize = 0;
    while i < v.len()
        invariant
            i <= v.len(),
            out.deep_view() == v.deep_view().take(i as int),
        decreases v.len() - i,
    {
        crate::text::push_string(&mut out, v[i].clone());
        assert(v.deep_view()[i as int] == v@[i as int]@);
        assert(out.deep_view() =~= v.deep_view().take(i + 1));
        i += 1;
    }
    assert(v.deep_view().take(v.len() as int) =~= v.deep_view());
    out
}

fn status_lines_exec(s: &DetailState, d: &Document) -> (r: Vec<DetailLine>)
    ensures
        lines_view(r@) == status_lines(*s, *d),
{
    let mut out: Vec<DetailLine> = Vec::new();
    push_line(&mut out, field("읽음 상태 (u)", reading_label_exec(&d.reading_status).to_string()));
    push_line(&mut out, DetailLine::Blank);
    let progress = match d.reading_progress {
        Some(p) => p,
        None => 0,
    };
    let mut pv = format_i64(progress);
    append_str(&mut pv, "%");
    push_line(&mut out, field("진행률 (>/<)", string_from_chars(&pv)));
    push_line(&mut out, DetailLine::Blank);
    push_line(&mut out, field("출처", or_dash_exec(&d.source)));
    push_line(&mut out, DetailLine::Blank);
    push_line(&mut out, field("별점", rating_text_exec(d.rating)));
    push_line(&mut out, DetailLine::Blank);
    push_line(&mut out, DetailLine::Tags(copy_strings(&s.tags)));
    push_line(&mut out, DetailLine::Blank);
    assert(lines_view(out@) =~= status_lines(*s, *d));
    out
}

fn abstract_lines_exec(d: &Document) -> (r: Vec<DetailLine>)
    ensures
        lines_view(r@) == abstract_lines(*d),
{
    let mut out: Vec<DetailLine> = Vec::new();
    match &d.abstract_text {
        Some(a) => {
            push_line(&mut out, DetailLine::Section("─ ─ 초록 ─ ─".to_string()));
            push_line(&mut out, DetailLine::Blank);
            let ls = lines_exec(&chars_of(a.as_str()));
            let ghost lv = lines(a@);
            let n: usize = if ls.len() < 10 {
                ls.len()
            } else {
                10
            };
            let ghost items = Seq::new(n as nat, |i: int| LineView::Text(lv[i]));
            let ghost head = lines_view(out@);
            let mut i: usize = 0;
            while i < n
                invariant
                    i <= n,
                    n <= ls.len(),
                    ls.deep_view() == lv,
                    items == Seq::new(n as nat, |k: int| LineView::Text(lv[k])),
                    lines_view(out@) == head + items.take(i as int),
                decreases n - i,
            {
                assert(ls.deep_view()[i as int] == ls@[i as int]@);
                push_line(&mut out, DetailLine::Text(string_from_chars(&ls[i])));
                assert(items.take(i + 1) =~= items.take(i as int).push(items[i as int]));
                i += 1;
            }
            assert(items.take(n as int) =~= items);
        },
        None => {
            push_line(&mut out, DetailLine::NoAbstract);
        },
    }
    assert(lines_view(out@) =~= abstract_lines(*d));
    out
}

fn custom_lines_exec(s: &DetailState) -> (r: Vec<DetailLine>)
    ensures
        lines_view(r@) == custom_lines(*s),
{
    let mut out: Vec<DetailLine> = Vec::new();
    let cs = &s.custom_fields;
    if cs.len() == 0 {
        assert(lines_view(out@) =~= custom_lines(*s));
        return out;
    }
    push_line(&mut out, DetailLine::Blank);
    push_line(&mut out, DetailLine::Section("─ ─ 추가 필드 ─ ─".to_string()));
    push_line(&mut out, DetailLine::Blank);
    let ghost head = lines_view(out@);
    let ghost items = Seq::new(
        2 * cs@.len(),
        |i: int|
            if i % 2 == 0 {
                LineView::Custom(cs@[i / 2].1@, cs@[i / 2].2@)
            } else {
                LineView::Blank
            },
    );
    let mut i: usize = 0;
    while i < cs.len()
        invariant
            i <= cs.len(),
            items == Seq::new(
                2 * cs@.len(),
                |k: int|
                    if k % 2 == 0 {
                        LineView::Custom(cs@[k / 2].1@, cs@[k / 2].2@)
                    } else {
                        LineView::Blank
                    },
            ),
            lines_view(out@) == head + items.take(2 * i),
        decreases cs.len() - i,
    {
        push_line(&mut out, DetailLine::Custom(cs[i].1.clone(), cs[i].2.clone()));
        push_line(&mut out, DetailLine::Blank);
        assert(items[2 * i as int] == LineView::Custom(cs@[i as int].1@, cs@[i as int].2@));
        assert(items[2 * i + 1] == LineView::Blank);
        assert(items.take(2 * (i + 1)) =~= items.take(2 * i).push(items[2 * i as int]).push(
            items[2 * i + 1],
        ));
        i += 1;
    }
    assert(items.take(2 * cs.len()) =~= items);
    assert(lines_view(out@) =~= custom_lines(*s));
    out
}

fn bookmark_lines_exec(s: &DetailState) -> (r: Vec<DetailLine>)
    ensures
        lines_view(r@) == bookmark_lines(*s),
{
    let mut out: Vec<DetailLine> = Vec::new();
    let bs = &s.bookmarks;
    if bs.len() == 0 {
        assert(lines_view(out@) =~= bookmark_lines(*s));
        return out;
    }
    push_line(&mut out, DetailLine::Blank);
    push_line(&mut out, DetailLine::Section("─ ─ 북마크 (b로 추출) ─ ─".to_string()));
    push_line(&mut out, DetailLine::Blank);
    let n: usize = if bs.len() < 20 {
        bs.len()
    } else {
        20
    };
    let ghost head = lines_view(out@);
    let ghost items = Seq::new(n as nat, |i: int| LineView::Text(bookmark_text(bs@[i])));
    let mut i: usize = 0;
    while i < n
        invariant
            i <= n,
            n <= bs.len(),
            items == Seq::new(n as nat, |k: int| LineView::Text(bookmark_text(bs@[k]))),
            lines_view(out@) == head + items.take(i as int),
        decreases n - i,
    {
        push_line(&mut out, DetailLine::Text(bookmark_text_exec(&bs[i])));
        assert(items.take(i + 1) =~= items.take(i as int).push(items[i as int]));
        i += 1;
    }
    assert(items.take(n as int) =~= items);
    assert(lines_view(out@) =~= bookmark_lines(*s));
    out
}

/// The lines of the detail view of the selected document.
pub fn detail_lines(s: &DetailState) -> (r: Vec<DetailLine>)
    ensures
        lines_view(r@) == detail_spec(*s),
{
    match &s.doc {
        Some(d) => {
            let mut out = field_lines_exec(s, d);
            append_lines(&mut out, attachment_lines_exec(s));
            append_lines(&mut out, status_lines_exec(s, d));
            append_lines(&mut out, abstract_lines_exec(d));
            append_lines(&mut out, custom_lines_exec(s));
            append_lines(&mut out, bookmark_lines_exec(s));
            assert(lines_view(out@) =~= detail_spec(*s));
            out
        },
        None => {
            let mut out: Vec<DetailLine> = Vec::new();
            push_line(&mut out, DetailLine::NoDocument);
            assert(lines_view(out@) =~= detail_spec(*s));
            out
        },
    }
}

} // verus!
