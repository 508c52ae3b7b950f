//! The lines of the document list in the right panel: for each document a
//! title line (reading-status marker, title, stars, similarity label), a
//! metadata line (authors, year, DOI, citation key, reading progress) and a
//! thin rule; a note when the list is empty.
use vstd::prelude::*;
use crate::detail::{repeat_onto, repeated, status_glyph, status_glyph_exec};
use crate::number::{decimal_of, format_i64};
use crate::text::{append, append_str, chars_of, string_from_chars};

verus! {

/// What the list shows of a document.
pub struct ListDoc {
    pub id: Option<i64>,
    pub title: String,
    pub authors: Option<String>,
    pub pub_year: Option<i64>,
    pub doi: Option<String>,
    pub citation_key: Option<String>,
    pub reading_status: Option<String>,
    pub rating: Option<i64>,
    pub progress: Option<i64>,
}

/// One line of the list.
#[derive(Clone, Debug, PartialEq, Eq)]
pub enum ListLine {
    /// The note shown instead of an empty list.
    Empty(String),
    /// Marker glyph, title, stars (with a leading space, or empty) and
    /// similarity label (or empty).
    Title(String, String, String, String),
    /// Authors, year, DOI when there is one, `[key]` when there is a
    /// citation key, the reading progress in percent, and its text
    /// (` n%`, or empty at 0).
    Meta(String, String, Option<String>, Option<String>, i64, String),
    /// The thin rule under an entry.
    Rule,
}

/// The spec form of a line.
pub ghost enum ListLineView {
    Empty(Seq<char>),
    Title(Seq<char>, Seq<char>, Seq<char>, Seq<char>),
    Meta(Seq<char>, Seq<char>, Option<Seq<char>>, Option<Seq<char>>, i64, Seq<char>),
    Rule,
}

pub open spec fn opt_view(v: Option<String>) -> Option<Seq<char>> {
    match v {
        Some(s) => Some(s@),
        None => None,
    }
}

pub open spec fn list_line_view(l: ListLine) -> ListLineView {
    match l {
        ListLine::Empty(s) => ListLineView::Empty(s@),
        ListLine::Title(a, b, c, d) => ListLineView::Title(a@, b@, c@, d@),
        ListLine::Meta(a, y, d, k, p, t) => ListLineView::Meta(a@, y@, opt_view(d), opt_view(k), p, t@),
        ListLine::Rule => ListLineView::Rule,
    }
}

pub open spec fn list_lines_view(ls: Seq<ListLine>) -> Seq<ListLineView> {
    Seq::new(ls.len(), |i: int| list_line_view(ls[i]))
}

/// The stars of a rating from 1 to 5 after a space; nothing for others.
pub open spec fn list_stars(rating: Option<i64>) -> Seq<char> {
    match rating {
        Some(r) => if 1 <= r <= 5 {
            " "@ + repeated("★"@, r as nat) + repeated("☆"@, (5 - r) as nat)
        } else {
            Seq::empty()
        },
        None => Seq::empty(),
    }
}

/// The label given for document `id`, the first one listed for it.
pub open spec fn label_for(labels: Seq<(i64, String)>, id: i64) -> Option<Seq<char>>
    decreases labels.len(),
{
    if labels.len() == 0 {
        None
    } else if labels[0].0 == id {
        Some(labels[0].1@)
    } else {
        label_for(labels.drop_first(), id)
    }
}

/// The similarity label of a document: ` [기준]` for the reference
/// document, else the score text given for it (by the caller, who formats
/// the score), and nothing for a document without a score.
pub open spec fn score_text(labels: Seq<(i64, String)>, reference: Option<i64>, d: ListDoc) -> Seq<char> {
    let key = match d.id {
        Some(i) => i,
        None => 0,
    };
    match label_for(labels, key) {
        Some(t) => if d.id == reference {
            " [기준]"@
        } else {
            t
        },
        None => Seq::empty(),
    }
}

/// A field that is missing or empty is left out.
pub open spec fn non_empty(v: Option<String>) -> Option<Seq<char>> {
    match v {
        Some(s) => if s@.len() > 0 {
            Some(s@)
        } else {
            None
        },
        None => None,
    }
}

pub open spec fn progress_of(d: ListDoc) -> i64 {
    match d.progress {
        Some(p) => p,
        None => 0,
    }
}

/// The three lines of one document.
pub open spec fn doc_lines(
    d: ListDoc,
    glyph_set: Seq<char>,
    labels: Seq<(i64, String)>,
    reference: Option<i64>,
) -> Seq<ListLineView> {
    let p = progress_of(d);
    seq![
        ListLineView::Title(
            status_glyph(glyph_set, d.reading_status),
            d.title@,
            list_stars(d.rating),
            score_text(labels, reference, d),
        ),
        ListLineView::Meta(
            match d.authors {
                Some(a) => a@,
                None => "저자 불명"@,
            },
            match d.pub_year {
                Some(y) => decimal_of(y as int),
                None => "n.d."@,
            },
            non_empty(d.doi),
            match non_empty(d.citation_key) {
                Some(k) => Some("["@ + k + "]"@),
                None => None,
            },
            p,
            if p > 0 {
                " "@ + decimal_of(p as int) + "%"@
            } else {
                Seq::empty()
            },
        ),
        ListLineView::Rule,
    ]
}

/// The lines of the whole list: a note when it is empty (for the reading
/// queue or the library), else three lines per document in order.
/// Selection does not change what a line shows.
pub open spec fn document_list_spec(
    docs: Seq<ListDoc>,
    queue_view: bool,
    glyph_set: Seq<char>,
    selected: Seq<i64>,
    labels: Seq<(i64, String)>,
    reference: Option<i64>,
) -> Seq<ListLineView> {
    if docs.len() == 0 {
        seq![
            ListLineView::Empty(
                if queue_view {
                    "읽기 큐가 비어 있습니다. Q 키로 문헌을 추가하세요."@
                } else {
                    "문헌이 없습니다. PDF 파일을 드래그하여 추가하세요."@
                },
            ),
        ]
    } else {
        Seq::new(
            3 * docs.len(),
            |i: int| doc_lines(docs[i / 3], glyph_set, labels, reference)[i % 3],
        )
    }
}

/// The header above the list: the reading queue's keys, or nothing.
pub fn document_list_header(queue_view: bool) -> (r: &'static str)
    ensures
        r@ == (if queue_view {
            " 읽기 큐 (Q: 추가, R: 제거, J/K: 순서 변경, Y: 종료) "@
        } else {
            ""@
        }),
{
    if queue_view {
        " 읽기 큐 (Q: 추가, R: 제거, J/K: 순서 변경, Y: 종료) "
    } else {
        ""
    }
}

fn label_for_exec(labels: &Vec<(i64, String)>, id: i64) -> (r: Option<String>)
    ensures
        opt_view(r) == label_for(labels@, id),
{
    let mut i: usize = 0;
    assert(labels@.skip(0) =~= labels@);
    while i < labels.len()
        invariant
            i <= labels.len(),
            label_for(labels@.skip(i as int), id) == label_for(labels@, id),
        decreases labels.len() - i,
    {
        assert(labels@.skip(i as int)[0] == labels@[i as int]);
        assert(labels@.skip(i as int).drop_first() =~= labels@.skip(i as int + 1));
        if labels[i].0 == id {
            return Some(labels[i].1.clone());
        }
        i += 1;
    }
    assert(labels@.skip(i as int).len() == 0);
    None
}

fn non_empty_exec(v: &Option<String>) -> (r: Option<String>)
    ensures
        opt_view(r) == non_empty(*v),
{
    match v {
        Some(s) => if chars_of(s.as_str()).len() > 0 {
            Some(s.clone())
        } else {
            None
        },
        None => None,
    }
}

fn doc_lines_exec(
    d: &ListDoc,
    glyph_set: &String,
    labels: &Vec<(i64, String)>,
    reference: Option<i64>,
    out: &mut Vec<ListLine>,
)
    ensures
        list_lines_view(final(out)@) == list_lines_view(old(out)@) + doc_lines(
            *d,
            glyph_set@,
            labels@,
            reference,
        ),
{
    let marker = status_glyph_exec(glyph_set, &d.reading_status).to_string();
    let stars = match d.rating {
        Some(r) => if 1 <= r && r <= 5 {
            let mut v = chars_of(" ");
            repeat_onto(&mut v, "★", r as u64);
            repeat_onto(&mut v, "☆", (5 - r) as u64);
            assert(v@ =~= " "@ + repeated("★"@, r as nat) + repeated("☆"@, (5 - r) as nat));
            string_from_chars(&v)
        } else {
            String::new()
        },
        None => String::new(),
    };
    let key: i64 = match d.id {
        Some(i) => i,
        None => 0,
    };
    let score = match label_for_exec(labels, key) {
        Some(t) => {
            let same = match (d.id, reference) {
                (Some(a), Some(b)) => a == b,
                (None, None) => true,
                _ => false,
            };
            if same {
                " [기준]".to_string()
            } else {
                t
            }
        },
        None => String::new(),
    };
    let authors = match &d.authors {
        Some(a) => a.clone(),
        None => "저자 불명".to_string(),
    };
    let year = match d.pub_year {
        Some(y) => string_from_chars(&format_i64(y)),
        None => "n.d.".to_string(),
    };
    let doi = non_empty_exec(&d.doi);
    let ckey = match non_empty_exec(&d.citation_key) {
        Some(k) => {
            let mut v = chars_of("[");
            append_str(&mut v, k.as_str());
            append_str(&mut v, "]");
            Some(string_from_chars(&v))
        },
        None => None,
    };
    let p: i64 = match d.progress {
        Some(p) => p,
        None => 0,
    };
    let ptext = if p > 0 {
        let mut v = chars_of(" ");
        append(&mut v, &format_i64(p));
        append_str(&mut v, "%");
        string_from_chars(&v)
    } else {
        String::new()
    };
    let ghost before = list_lines_view(out@);
    out.push(ListLine::Title(marker, d.title.clone(), stars, score));
    out.push(ListLine::Meta(authors, year, doi, ckey, p, ptext));
    out.push(ListLine::Rule);
    assert(list_lines_view(out@) =~= before + doc_lines(*d, glyph_set@, labels@, reference));
}

/// The lines of the document list. `score_labels` holds, for the documents
/// with a similarity score, the text shown for it (the caller formats the
/// score; the list is empty when the library is not sorted by similarity);
/// `reference` is the reference document of that sort.
pub fn document_list_lines(
    docs: &Vec<ListDoc>,
    queue_view: bool,
    glyph_set: &str,
    selected: &Vec<i64>,
    score_labels: &Vec<(i64, String)>,
    reference: Option<i64>,
) -> (r: Vec<ListLine>)
    requires
        3 * docs.len() <= usize::MAX,
    ensures
        list_lines_view(r@) == document_list_spec(
            docs@,
            queue_view,
            glyph_set@,
            selected@,
            score_labels@,
            reference,
        ),
{
    let mut out: Vec<ListLine> = Vec::new();
    if docs.len() == 0 {
        let msg = if queue_view {
            "읽기 큐가 비어 있습니다. Q 키로 문헌을 추가하세요."
        } else {
            "문헌이 없습니다. PDF 파일을 드래그하여 추가하세요."
        };
        out.push(ListLine::Empty(msg.to_string()));
        assert(list_lines_view(out@) =~= document_list_spec(
            docs@,
            queue_view,
            glyph_set@,
            selected@,
            score_labels@,
            reference,
        ));
        return out;
    }
    let gs = glyph_set.to_string();
    let ghost want = document_list_spec(docs@, queue_view, glyph_set@, selected@, score_labels@, reference);
    let mut i: usize = 0;
    while i < docs.len()
        invariant
            i <= docs.len(),
            3 * docs.len() <= usize::MAX,
            docs.len() > 0,
            gs@ == glyph_set@,
            want == document_list_spec(docs@, queue_view, glyph_set@, selected@, score_labels@, reference),
            list_lines_view(out@) == want.take(3 * i),
        decreases docs.len() - i,
    {
        doc_lines_exec(&docs[i], &gs, score_labels, reference, &mut out);
        assert(list_lines_view(out@) =~= want.take(3 * i + 3)) by {
            assert forall|k: int| 0 <= k < 3 * i + 3 implies list_lines_view(out@)[k] == want[k] by {
                if k >= 3 * i {
                    assert((k / 3) == i as int);
                    assert(k % 3 == k - 3 * i);
                }
            }
        }
        i += 1;
    }
    assert(want.take(3 * docs.len()) =~= want);
    out
}

} // verus!
