//! The document record and the splitting of its author list.
use vstd::prelude::*;
use crate::authors::{split_and_in_segment, split_and_spec};
use crate::text::{
    chars_of, eq_chars, find_ci, is_trimmed, join, join_str, string_from_chars, trim_exec, lemma_chars_deep_view, lemma_split_char_absent,
    lemma_split_char_concat, lemma_split_char_pieces, lemma_trim_is_trimmed, lemma_trim_of_trimmed,
    lemma_trim_space_prefix, split_char, split_char_exec, strings_of, trim,
};

verus! {

/// A bibliographic record of the library.
#[derive(Clone, Debug)]
pub struct Document {
    pub id: Option<i64>,
    pub title: String,
    pub authors: Option<String>,
    pub journal: Option<String>,
    pub conference: Option<String>,
    pub pub_year: Option<i64>,
    pub doi: Option<String>,
    pub arxiv_id: Option<String>,
    pub abstract_text: Option<String>,
    pub keywords: Option<String>,
    pub file_path: Option<String>,
    pub file_hash: Option<String>,
    pub citation_key: Option<String>,
    pub source: Option<String>,
    pub rating: Option<i64>,
    pub volume: Option<String>,
    pub issue: Option<String>,
    pub page_start: Option<String>,
    pub page_end: Option<String>,
    pub publisher: Option<String>,
    pub city: Option<String>,
    pub edition: Option<String>,
    pub isbn: Option<String>,
    pub issn: Option<String>,
    pub url: Option<String>,
    pub accessed_date: Option<String>,
    pub reading_status: Option<String>,
    pub reading_progress: Option<i64>,
    pub queue_position: Option<i64>,
    pub item_type: String,
}

impl Document {
    /// No field set, an empty title and the item type `misc`.
    pub open spec fn is_blank(self) -> bool {
        &&& self.id is None
        &&& self.title@.len() == 0
        &&& self.authors is None
        &&& self.journal is None
        &&& self.conference is None
        &&& self.pub_year is None
        &&& self.doi is None
        &&& self.arxiv_id is None
        &&& self.abstract_text is None
        &&& self.keywords is None
        &&& self.file_path is None
        &&& self.file_hash is None
        &&& self.citation_key is None
        &&& self.source is None
        &&& self.rating is None
        &&& self.volume is None
        &&& self.issue is None
        &&& self.page_start is None
        &&& self.page_end is None
        &&& self.publisher is None
        &&& self.city is None
        &&& self.edition is None
        &&& self.isbn is None
        &&& self.issn is None
        &&& self.url is None
        &&& self.accessed_date is None
        &&& self.reading_status is None
        &&& self.reading_progress is None
        &&& self.queue_position is None
        &&& self.item_type@ == "misc"@
    }
}

impl Default for Document {
    fn default() -> (r: Self)
        ensures
            r.is_blank(),
    {
        Document {
            id: None,
            title: String::new(),
            authors: None,
            journal: None,
            conference: None,
            pub_year: None,
            doi: None,
            arxiv_id: None,
            abstract_text: None,
            keywords: None,
            file_path: None,
            file_hash: None,
            citation_key: None,
            source: None,
            rating: None,
            volume: None,
            issue: None,
            page_start: None,
            page_end: None,
            publisher: None,
            city: None,
            edition: None,
            isbn: None,
            issn: None,
            url: None,
            accessed_date: None,
            reading_status: None,
            reading_progress: None,
            queue_position: None,
            item_type: "misc".to_string(),
        }
    }
}

/// The names of the segments, in order.
pub open spec fn split_segments(segs: Seq<Seq<char>>) -> Seq<Seq<char>>
    decreases segs.len(),
{
    if segs.len() == 0 {
        seq![]
    } else {
        split_segments(segs.drop_last()) + split_and_spec(segs.last())
    }
}

/// The names of an author list: its `;`-separated segments, trimmed, blank
/// ones dropped, each split once at its first " and " (any case).
pub open spec fn split_authors_spec(authors: Seq<char>) -> Seq<Seq<char>> {
    split_segments(split_char(authors, ';'))
}

/// A name as `split_authors` yields it: non-empty, trimmed, without `;`.
pub open spec fn is_author_name(n: Seq<char>) -> bool {
    n.len() > 0 && is_trimmed(n) && !n.contains(';')
}

proof fn lemma_split_and_names(seg: Seq<char>)
    requires
        !seg.contains(';'),
    ensures
        forall|i: int|
            0 <= i < split_and_spec(seg).len() ==> is_author_name(#[trigger] split_and_spec(seg)[i]),
{
    lemma_trim_is_trimmed(seg, ';');
    let t = trim(seg);
    if t.len() > 0 {
        crate::text::lemma_find_ci_bounds(t, " and "@);
        match find_ci(t, " and "@) {
            Some((a, c)) => {
                assert(!t.take(a).contains(';')) by {
                    if t.take(a).contains(';') {
                        let k = choose|k: int| 0 <= k < t.take(a).len() && t.take(a)[k] == ';';
                        assert(t[k] == ';');
                    }
                }
                assert(!t.skip(c).contains(';')) by {
                    if t.skip(c).contains(';') {
                        let k = choose|k: int| 0 <= k < t.skip(c).len() && t.skip(c)[k] == ';';
                        assert(t[c + k] == ';');
                    }
                }
                lemma_trim_is_trimmed(t.take(a), ';');
                lemma_trim_is_trimmed(t.skip(c), ';');
            },
            None => {},
        }
    }
}

proof fn lemma_split_segments_names(segs: Seq<Seq<char>>)
    requires
        forall|i: int| 0 <= i < segs.len() ==> !(#[trigger] segs[i]).contains(';'),
    ensures
        forall|i: int|
            0 <= i < split_segments(segs).len() ==> is_author_name(
                #[trigger] split_segments(segs)[i],
            ),
    decreases segs.len(),
{
    if segs.len() > 0 {
        lemma_split_segments_names(segs.drop_last());
        lemma_split_and_names(segs.last());
        let a = split_segments(segs.drop_last());
        let b = split_and_spec(segs.last());
        assert forall|i: int| 0 <= i < (a + b).len() implies is_author_name(#[trigger] (a + b)[i]) by {
            if i >= a.len() {
                assert((a + b)[i] == b[i - a.len()]);
            }
        }
    }
}

/// Every name of an author list is non-empty, trimmed and free of `;`.
pub proof fn lemma_split_authors_names(authors: Seq<char>)
    ensures
        forall|i: int|
            0 <= i < split_authors_spec(authors).len() ==> is_author_name(
                #[trigger] split_authors_spec(authors)[i],
            ),
{
    lemma_split_char_pieces(authors, ';');
    lemma_split_segments_names(split_char(authors, ';'));
}

/// Names joined by `"; "` split back into the same names, when none holds
/// `" and "`.
pub proof fn lemma_split_authors_of_join(ns: Seq<Seq<char>>)
    requires
        forall|i: int|
            0 <= i < ns.len() ==> is_author_name(#[trigger] ns[i]) && find_ci(ns[i], " and "@) is None,
    ensures
        split_authors_spec(join(ns, "; "@)) == ns,
    decreases ns.len(),
{
    if ns.len() == 0 {
        assert(split_char(Seq::<char>::empty(), ';') == seq![Seq::<char>::empty()]) by {
            lemma_split_char_absent(Seq::<char>::empty(), ';');
        }
        let segs = seq![Seq::<char>::empty()];
        assert(segs.drop_last() =~= Seq::<Seq<char>>::empty());
        assert(split_segments(Seq::<Seq<char>>::empty()) == Seq::<Seq<char>>::empty());
        assert(trim(Seq::<char>::empty()) =~= Seq::<char>::empty());
        assert(split_and_spec(segs.last()) =~= Seq::<Seq<char>>::empty());
        assert(split_segments(segs) =~= ns);
    } else if ns.len() == 1 {
        let n = ns[0];
        lemma_split_char_absent(n, ';');
        lemma_trim_of_trimmed(n);
        let segs = seq![n];
        assert(segs.drop_last() =~= Seq::<Seq<char>>::empty());
        assert(split_and_spec(n) =~= seq![n]);
        assert(split_segments(Seq::<Seq<char>>::empty()) == Seq::<Seq<char>>::empty());
        assert(segs.last() == n);
        assert(join(ns, "; "@) == n);
        assert(split_segments(segs) =~= ns);
    } else {
        let init = ns.drop_last();
        let last = ns.last();
        lemma_split_authors_of_join(init);
        reveal_strlit("; ");
        let head = join(init, "; "@);
        let tail = seq![' '] + last;
        assert(join(ns, "; "@) =~= head + seq![';'] + tail);
        lemma_split_char_concat(head, tail, ';');
        assert(!tail.contains(';')) by {
            if tail.contains(';') {
                let k = choose|k: int| 0 <= k < tail.len() && tail[k] == ';';
                assert(last[k - 1] == ';');
            }
        }
        lemma_split_char_absent(tail, ';');
        let segs = split_char(head, ';') + seq![tail];
        assert(segs.drop_last() =~= split_char(head, ';'));
        lemma_trim_space_prefix(last);
        lemma_trim_of_trimmed(last);
        assert(split_and_spec(tail) =~= seq![last]);
        assert(split_segments(segs) =~= ns);
    }
}

pub fn split_authors_chars(authors: &Vec<char>) -> (r: Vec<Vec<char>>)
    ensures
        r.deep_view() == split_authors_spec(authors@),
{
    broadcast use lemma_chars_deep_view;

    let segs = split_char_exec(authors, ';');
    let ghost sv = segs.deep_view();
    let mut out: Vec<Vec<char>> = Vec::new();
    let mut i: usize = 0;
    assert(sv.take(0) =~= Seq::<Seq<char>>::empty());
    assert(out.deep_view() =~= Seq::<Seq<char>>::empty());
    while i < segs.len()
        invariant
            i <= segs.len(),
            sv == segs.deep_view(),
            out.deep_view() == split_segments(sv.take(i as int)),
        decreases segs.len() - i,
    {
        assert(sv[i as int] == segs@[i as int]@);
        let parts = split_and_in_segment(&segs[i]);
        let mut k: usize = 0;
        let ghost base = out.deep_view();
        while k < parts.len()
            invariant
                k <= parts.len(),
                out.deep_view() == base + parts.deep_view().take(k as int),
            decreases parts.len() - k,
        {
            assert(parts.deep_view()[k as int] == parts@[k as int]@);
            crate::text::push_piece(&mut out, crate::text::slice_of(&parts[k], 0, parts[k].len()));
            assert(parts@[k as int]@.subrange(0, parts@[k as int]@.len() as int)
                =~= parts@[k as int]@);
            assert(out.deep_view() =~= base + parts.deep_view().take(k + 1));
            k += 1;
        }
        assert(parts.deep_view().take(parts.len() as int) =~= parts.deep_view());
        assert(sv.take(i + 1).drop_last() =~= sv.take(i as int));
        i += 1;
    }
    assert(sv.take(segs.len() as int) =~= sv);
    out
}

/// Splits an author list into names.
pub fn split_authors(authors: &str) -> (r: Vec<String>)
    ensures
        r.deep_view() == split_authors_spec(authors@),
{
    let a = chars_of(authors);
    let v = split_authors_chars(&a);
    strings_of(&v)
}

// ---------------------------------------------------------------------------
// Merging an author name into its canonical form
// ---------------------------------------------------------------------------

/// The code of a character with ASCII letters lowercased.
pub open spec fn ascii_folded(c: char) -> int {
    if 'A' <= c && c <= 'Z' {
        (c as int) + 32
    } else {
        c as int
    }
}

/// `str::eq_ignore_ascii_case`: equal once ASCII letters are lowercased.
pub open spec fn eq_ignore_ascii_case(a: Seq<char>, b: Seq<char>) -> bool {
    a.len() == b.len() && forall|i: int| 0 <= i < a.len() ==> ascii_folded(#[trigger] a[i]) == ascii_folded(b[i])
}

fn fold_code(c: char) -> (r: u32)
    ensures
        r as int == ascii_folded(c),
{
    let v = c as u32;
    assert(v as int == c as int);
    if 'A' <= c && c <= 'Z' {
        v + 32
    } else {
        v
    }
}

fn eq_ignore_ascii_case_exec(a: &Vec<char>, b: &Vec<char>) -> (r: bool)
    ensures
        r == eq_ignore_ascii_case(a@, b@),
{
    if a.len() != b.len() {
        return false;
    }
    let mut i: usize = 0;
    while i < a.len()
        invariant
            a.len() == b.len(),
            i <= a.len(),
            forall|k: int| 0 <= k < i ==> ascii_folded(#[trigger] a@[k]) == ascii_folded(b@[k]),
        decreases a.len() - i,
    {
        if fold_code(a[i]) != fold_code(b[i]) {
            return false;
        }
        i += 1;
    }
    true
}

/// The name as it stands after merging: `canonical` where the name,
/// trimmed, equals `source`, trimmed, ignoring ASCII case.
pub open spec fn merged_name(name: Seq<char>, source: Seq<char>, canonical: Seq<char>) -> Seq<char> {
    if eq_ignore_ascii_case(trim(name), trim(source)) {
        canonical
    } else {
        name
    }
}

/// The author list with `source` replaced by `canonical`, `"; "`-joined.
pub open spec fn merged_authors_spec(authors: Seq<char>, source: Seq<char>, canonical: Seq<char>) -> Seq<char> {
    let parts = split_authors_spec(authors);
    join(Seq::new(parts.len(), |i: int| merged_name(parts[i], source, canonical)), "; "@)
}

/// The new author list of a document when `source` is merged into
/// `canonical`, or `None` when the list stays as it is.
pub fn merge_author_names(authors: &str, source: &str, canonical: &str) -> (r: Option<String>)
    ensures
        merged_authors_spec(authors@, source@, canonical@) != authors@ ==> (r matches Some(s) && s@
            == merged_authors_spec(authors@, source@, canonical@)),
        merged_authors_spec(authors@, source@, canonical@) == authors@ ==> r is None,
{
    let a = chars_of(authors);
    let parts = split_authors_chars(&a);
    let src = trim_exec(&chars_of(source));
    let can = chars_of(canonical);
    let ghost pv = parts.deep_view();
    let mut changed: Vec<Vec<char>> = Vec::new();
    let mut i: usize = 0;
    while i < parts.len()
        invariant
            i <= parts.len(),
            pv == parts.deep_view(),
            pv == split_authors_spec(a@),
            src@ == trim(source@),
            can@ == canonical@,
            changed.deep_view() == Seq::new(i as nat, |k: int| merged_name(pv[k], source@, canonical@)),
        decreases parts.len() - i,
    {
        assert(pv[i as int] == parts@[i as int]@);
        let t = trim_exec(&parts[i]);
        let piece = if eq_ignore_ascii_case_exec(&t, &src) {
            crate::text::slice_of(&can, 0, can.len())
        } else {
            crate::text::slice_of(&parts[i], 0, parts[i].len())
        };
        assert(can@.subrange(0, can@.len() as int) =~= can@);
        assert(parts@[i as int]@.subrange(0, parts@[i as int]@.len() as int) =~= parts@[i as int]@);
        crate::text::push_piece(&mut changed, piece);
        assert(changed.deep_view() =~= Seq::new(
            (i + 1) as nat,
            |k: int| merged_name(pv[k], source@, canonical@),
        ));
        i += 1;
    }
    let joined = join_str(&changed, "; ");
    assert(joined@ == merged_authors_spec(authors@, source@, canonical@));
    if eq_chars(&joined, &a) {
        None
    } else {
        Some(string_from_chars(&joined))
    }
}

} // verus!
