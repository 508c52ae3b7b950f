//! The rows of the left sidebar: projects, series, authors and the
//! classification trees, and how many of them are visible.
use vstd::prelude::*;
use crate::search::{facet_count_from, get_facet_count, FacetCount};
use crate::text::{chars_of, contains, eq_chars, find_exec, lower, unicode_lower};

verus! {

/// A project or series listed in the sidebar, with its document count.
pub struct SidebarEntry {
    pub id: Option<i64>,
    pub name: String,
    pub count: i64,
}

/// An author listed under "by researcher", with the number of documents
/// and, when known, the h-index.
pub struct SidebarAuthor {
    pub name: String,
    pub count: i64,
    pub h_index: Option<i64>,
}

/// What the sidebar shows, as plain values.
pub struct SidebarState {
    pub projects: Vec<SidebarEntry>,
    pub active_project_id: Option<i64>,
    pub series_grouping_enabled: bool,
    pub series: Vec<SidebarEntry>,
    pub active_series_id: Option<i64>,
    pub authors: Vec<SidebarAuthor>,
    pub active_author: Option<String>,
    pub authors_expanded: bool,
    pub author_search_mode: bool,
    pub author_search_input: String,
    /// The notations whose children are shown.
    pub expanded_nodes: Vec<String>,
    pub facets: Vec<FacetCount>,
}

/// The top-level UDC classes, `0` to `9`.
pub open spec fn udc_top_level() -> Seq<Seq<char>> {
    seq!["0"@, "1"@, "2"@, "3"@, "4"@, "5"@, "6"@, "7"@, "8"@, "9"@]
}

/// The labels of the top-level UDC classes.
pub open spec fn udc_top_labels() -> Seq<Seq<char>> {
    seq![
        "총류·정보학"@,
        "철학·심리학"@,
        "종교"@,
        "사회과학"@,
        "(Vacant)·빈 분류"@,
        "자연과학"@,
        "응용과학"@,
        "예술·레크리에이션"@,
        "언어·언어학"@,
        "역사·지리"@,
    ]
}

/// The subclasses listed under a UDC notation, with their labels.
pub open spec fn udc_children(n: Seq<char>) -> Seq<(Seq<char>, Seq<char>)> {
    if n == "5"@ {
        seq![
            ("51"@, "수학"@),
            ("52"@, "천문학"@),
            ("53"@, "물리학"@),
            ("54"@, "화학"@),
            ("55"@, "지질학"@),
            ("57"@, "생물학"@),
        ]
    } else if n == "51"@ {
        seq![("512"@, "대수학"@), ("514"@, "기하학"@), ("517"@, "해석학"@)]
    } else if n == "53"@ {
        seq![
            ("531"@, "역학"@),
            ("532"@, "유체역학"@),
            ("535"@, "광학"@),
            ("537"@, "전자기학"@),
            ("538.9"@, "응집물질물리학"@),
        ]
    } else if n == "0"@ {
        seq![("004"@, "컴퓨터과학"@), ("01"@, "서지학"@), ("02"@, "도서관학"@)]
    } else if n == "6"@ {
        seq![("61"@, "의학·보건"@), ("62"@, "공학"@), ("63"@, "농업"@)]
    } else {
        Seq::empty()
    }
}

/// The number of children listed under a UDC notation.
pub open spec fn udc_child_count(n: Seq<char>) -> nat {
    udc_children(n).len()
}

/// The top-level PhySH subjects.
pub open spec fn physh_top() -> Seq<Seq<char>> {
    seq!["Condensed"@, "Particles"@, "Gravitation"@, "Quantum"@]
}

/// The labels of the top-level PhySH subjects.
pub open spec fn physh_labels() -> Seq<Seq<char>> {
    seq!["응축물질"@, "입자물리"@, "중력·우주론"@, "양자정보"@]
}

fn udc_top(i: usize) -> (r: &'static str)
    requires
        i < 10,
    ensures
        r@ == udc_top_level()[i as int],
{
    match i {
        0 => "0",
        1 => "1",
        2 => "2",
        3 => "3",
        4 => "4",
        5 => "5",
        6 => "6",
        7 => "7",
        8 => "8",
        _ => "9",
    }
}

fn physh(i: usize) -> (r: &'static str)
    requires
        i < 4,
    ensures
        r@ == physh_top()[i as int],
{
    match i {
        0 => "Condensed",
        1 => "Particles",
        2 => "Gravitation",
        _ => "Quantum",
    }
}

fn udc_top_label(i: usize) -> (r: &'static str)
    requires
        i < 10,
    ensures
        r@ == udc_top_labels()[i as int],
{
    match i {
        0 => "총류·정보학",
        1 => "철학·심리학",
        2 => "종교",
        3 => "사회과학",
        4 => "(Vacant)·빈 분류",
        5 => "자연과학",
        6 => "응용과학",
        7 => "예술·레크리에이션",
        8 => "언어·언어학",
        _ => "역사·지리",
    }
}

fn physh_label(i: usize) -> (r: &'static str)
    requires
        i < 4,
    ensures
        r@ == physh_labels()[i as int],
{
    match i {
        0 => "응축물질",
        1 => "입자물리",
        2 => "중력·우주론",
        _ => "양자정보",
    }
}

fn pairs(items: &[(&'static str, &'static str)]) -> (r: Vec<(&'static str, &'static str)>)
    ensures
        r@ == items@,
{
    let mut out: Vec<(&'static str, &'static str)> = Vec::new();
    let mut i: usize = 0;
    while i < items.len()
        invariant
            i <= items.len(),
            out@ == items@.take(i as int),
        decreases items.len() - i,
    {
        out.push(items[i]);
        assert(out@ =~= items@.take(i + 1));
        i += 1;
    }
    assert(items@.take(items.len() as int) =~= items@);
    out
}

fn udc_children_exec(n: &str) -> (r: Vec<(&'static str, &'static str)>)
    ensures
        r@.len() == udc_children(n@).len(),
        forall|k: int|
            0 <= k < r@.len() ==> (#[trigger] r@[k]).0@ == udc_children(n@)[k].0 && r@[k].1@
                == udc_children(n@)[k].1,
{
    let v = chars_of(n);
    if crate::text::eq_str(&v, "5") {
        pairs(
            &[
                ("51", "수학"),
                ("52", "천문학"),
                ("53", "물리학"),
                ("54", "화학"),
                ("55", "지질학"),
                ("57", "생물학"),
            ],
        )
    } else if crate::text::eq_str(&v, "51") {
        pairs(&[("512", "대수학"), ("514", "기하학"), ("517", "해석학")])
    } else if crate::text::eq_str(&v, "53") {
        pairs(
            &[
                ("531", "역학"),
                ("532", "유체역학"),
                ("535", "광학"),
                ("537", "전자기학"),
                ("538.9", "응집물질물리학"),
            ],
        )
    } else if crate::text::eq_str(&v, "0") {
        pairs(&[("004", "컴퓨터과학"), ("01", "서지학"), ("02", "도서관학")])
    } else if crate::text::eq_str(&v, "6") {
        pairs(&[("61", "의학·보건"), ("62", "공학"), ("63", "농업")])
    } else {
        Vec::new()
    }
}

/// The children shown under the expanded top-level classes, from the
/// `i`-th class on.
pub open spec fn expanded_children(expanded: Seq<Seq<char>>, i: int) -> nat
    decreases 10 - i,
{
    if i < 0 || i >= 10 {
        0
    } else {
        (if expanded.contains(udc_top_level()[i]) {
            udc_child_count(udc_top_level()[i])
        } else {
            0
        }) + expanded_children(expanded, i + 1)
    }
}

/// An author is listed for search text `q` (already lowercased): any author
/// when `q` is empty, else one whose lowercase name contains `q`.
pub open spec fn author_matches(name: Seq<char>, q: Seq<char>) -> bool {
    q.len() == 0 || contains(unicode_lower(name), q)
}

/// The authors listed for search text `q`, in order.
pub open spec fn matching_authors(authors: Seq<SidebarAuthor>, q: Seq<char>) -> Seq<SidebarAuthor>
    decreases authors.len(),
{
    if authors.len() == 0 {
        Seq::empty()
    } else {
        let rest = matching_authors(authors.drop_last(), q);
        if author_matches(authors.last().name@, q) {
            rest.push(authors.last())
        } else {
            rest
        }
    }
}

/// Some PhySH subject has documents.
pub open spec fn physh_has_docs(facets: Seq<FacetCount>) -> bool {
    exists|i: int| 0 <= i < 4 && facet_count_from(facets, #[trigger] physh_top()[i], 0) is Some
}

pub open spec fn max1(n: nat) -> nat {
    if n == 0 {
        1
    } else {
        n
    }
}

/// The rows of the author section: its header, the search line while
/// searching, the matching names or a "none" line, and a spacer; nothing
/// without authors.
pub open spec fn author_rows(s: SidebarState) -> nat {
    let filtered = matching_authors(s.authors@, unicode_lower(s.author_search_input@)).len();
    if s.authors@.len() > 0 {
        1 + (if s.authors_expanded {
            (if s.author_search_mode {
                1nat
            } else {
                0nat
            }) + if filtered == 0 && s.author_search_input@.len() > 0 {
                1nat
            } else {
                filtered
            }
        } else {
            0
        }) + 1
    } else {
        0
    }
}

/// The rows of the sidebar: the projects (or a hint) with their header
/// and spacer; the series likewise when grouping by series; the author
/// section; the UDC header, top classes and expanded children; the PhySH
/// section when any of its subjects has documents.
pub open spec fn visible_nodes_spec(s: SidebarState) -> nat {
    let projects = 1 + max1(s.projects@.len()) + 1;
    let series = if s.series_grouping_enabled {
        1 + max1(s.series@.len()) + 1
    } else {
        0
    };
    let udc = 1 + 10 + expanded_children(s.expanded_nodes.deep_view(), 0);
    let physh = if physh_has_docs(s.facets@) {
        6nat
    } else {
        0nat
    };
    (projects + series + author_rows(s) + udc + physh) as nat
}

fn contains_name(v: &Vec<String>, n: &str) -> (r: bool)
    ensures
        r == v.deep_view().contains(n@),
{
    let nv = chars_of(n);
    let mut i: usize = 0;
    while i < v.len()
        invariant
            i <= v.len(),
            nv@ == n@,
            forall|k: int| 0 <= k < i ==> v.deep_view()[k] != n@,
        decreases v.len() - i,
    {
        assert(v.deep_view()[i as int] == v@[i as int]@);
        if eq_chars(&chars_of(v[i].as_str()), &nv) {
            assert(v.deep_view()[i as int] == n@);
            return true;
        }
        i += 1;
    }
    false
}

fn physh_has_docs_exec(facets: &Vec<FacetCount>) -> (r: bool)
    ensures
        r == physh_has_docs(facets@),
{
    let mut p: usize = 0;
    while p < 4
        invariant
            p <= 4,
            forall|j: int|
                0 <= j < p ==> facet_count_from(facets@, #[trigger] physh_top()[j], 0) is None,
        decreases 4 - p,
    {
        if get_facet_count(facets.as_slice(), physh(p)).is_some() {
            return true;
        }
        p += 1;
    }
    false
}

/// The number of rows of the sidebar tree, which bounds its cursor.
pub fn count_visible_nodes(state: &SidebarState) -> (r: usize)
    ensures
        r == visible_nodes_spec(*state),
        r == tree_rows_spec(*state).len(),
{
    let rows = build_tree_items(state);
    proof {
        law_rows_match_count(*state);
    }
    rows.len()
}

// ---------------------------------------------------------------------------
// The rows themselves
// ---------------------------------------------------------------------------

/// A section of the sidebar.
#[derive(Clone, Copy, Debug, PartialEq, Eq, Structural)]
pub enum SidebarSection {
    Projects,
    Series,
    Authors,
    Udc,
    Physh,
}

/// One row of the sidebar tree.
#[derive(Clone, Debug, PartialEq, Eq)]
pub enum TreeRow {
    /// A section's title; for the author section, whether it is expanded.
    Header(SidebarSection, bool),
    /// The hint shown in place of the entries of an empty section.
    Hint(SidebarSection),
    /// A project or series: its name, its document count, whether it is
    /// the selected one.
    Entry(String, i64, bool),
    /// The author search line with the text typed so far.
    AuthorSearch(String),
    /// No author matches the search.
    NoMatchingAuthor,
    /// An author: name, document count, whether selected, h-index.
    Author(String, i64, bool, Option<i64>),
    /// A UDC class: notation, label, whether a subclass, whether expanded,
    /// its document count.
    Udc(String, String, bool, bool, Option<i64>),
    /// A PhySH subject: notation, label, document count.
    Physh(String, String, Option<i64>),
    /// An empty spacer line.
    Blank,
}

/// The spec form of a row.
pub ghost enum RowView {
    Header(SidebarSection, bool),
    Hint(SidebarSection),
    Entry(Seq<char>, i64, bool),
    AuthorSearch(Seq<char>),
    NoMatchingAuthor,
    Author(Seq<char>, i64, bool, Option<i64>),
    Udc(Seq<char>, Seq<char>, bool, bool, Option<i64>),
    Physh(Seq<char>, Seq<char>, Option<i64>),
    Blank,
}

pub open spec fn row_view(r: TreeRow) -> RowView {
    match r {
        TreeRow::Header(s, e) => RowView::Header(s, e),
        TreeRow::Hint(s) => RowView::Hint(s),
        TreeRow::Entry(n, c, a) => RowView::Entry(n@, c, a),
        TreeRow::AuthorSearch(t) => RowView::AuthorSearch(t@),
        TreeRow::NoMatchingAuthor => RowView::NoMatchingAuthor,
        TreeRow::Author(n, c, a, h) => RowView::Author(n@, c, a, h),
        TreeRow::Udc(n, l, ch, e, c) => RowView::Udc(n@, l@, ch, e, c),
        TreeRow::Physh(n, l, c) => RowView::Physh(n@, l@, c),
        TreeRow::Blank => RowView::Blank,
    }
}

pub open spec fn rows_view(rs: Seq<TreeRow>) -> Seq<RowView> {
    Seq::new(rs.len(), |i: int| row_view(rs[i]))
}

/// The entries of a project or series section; the selected one is the one
/// whose id equals `active` (two missing ids are equal).
pub open spec fn entry_rows(es: Seq<SidebarEntry>, active: Option<i64>) -> Seq<RowView> {
    Seq::new(es.len(), |i: int| RowView::Entry(es[i].name@, es[i].count, es[i].id == active))
}

/// A section of projects or series: title, entries or a hint, spacer.
pub open spec fn entry_section(sec: SidebarSection, es: Seq<SidebarEntry>, active: Option<i64>) -> Seq<RowView> {
    seq![RowView::Header(sec, false)] + (if es.len() == 0 {
        seq![RowView::Hint(sec)]
    } else {
        entry_rows(es, active)
    }) + seq![RowView::Blank]
}

pub open spec fn author_entry_rows(authors: Seq<SidebarAuthor>, active: Option<String>) -> Seq<RowView> {
    Seq::new(
        authors.len(),
        |i: int|
            RowView::Author(
                authors[i].name@,
                authors[i].count,
                match active {
                    Some(a) => a@ == authors[i].name@,
                    None => false,
                },
                authors[i].h_index,
            ),
    )
}

/// The author section: title; when expanded, the search line while
/// searching, a "none" line when a search matches nothing, and the matching
/// authors; a spacer. Nothing without authors.
pub open spec fn author_section(s: SidebarState) -> Seq<RowView> {
    let filtered = matching_authors(s.authors@, unicode_lower(s.author_search_input@));
    if s.authors@.len() == 0 {
        Seq::empty()
    } else {
        seq![RowView::Header(SidebarSection::Authors, s.authors_expanded)] + (if s.authors_expanded {
            (if s.author_search_mode {
                seq![RowView::AuthorSearch(s.author_search_input@)]
            } else {
                Seq::empty()
            }) + (if filtered.len() == 0 && s.author_search_input@.len() > 0 {
                seq![RowView::NoMatchingAuthor]
            } else {
                Seq::empty()
            }) + author_entry_rows(filtered, s.active_author)
        } else {
            Seq::empty()
        }) + seq![RowView::Blank]
    }
}

pub open spec fn facet_of(s: SidebarState, n: Seq<char>) -> Option<i64> {
    facet_count_from(s.facets@, n, 0)
}

pub open spec fn is_expanded(s: SidebarState, n: Seq<char>) -> bool {
    s.expanded_nodes.deep_view().contains(n)
}

/// The rows of the subclasses of `n`.
pub open spec fn child_rows(s: SidebarState, n: Seq<char>) -> Seq<RowView> {
    let cs = udc_children(n);
    Seq::new(
        cs.len(),
        |k: int| RowView::Udc(cs[k].0, cs[k].1, true, is_expanded(s, cs[k].0), facet_of(s, cs[k].0)),
    )
}

/// The rows of top-level UDC classes `i` to 9, each followed by its
/// subclasses when expanded.
pub open spec fn udc_rows_from(s: SidebarState, i: int) -> Seq<RowView>
    decreases 10 - i,
{
    if i < 0 || i >= 10 {
        Seq::empty()
    } else {
        let n = udc_top_level()[i];
        seq![RowView::Udc(n, udc_top_labels()[i], false, is_expanded(s, n), facet_of(s, n))] + (if is_expanded(
            s,
            n,
        ) {
            child_rows(s, n)
        } else {
            Seq::empty()
        }) + udc_rows_from(s, i + 1)
    }
}

/// The PhySH section, shown when some subject has documents.
pub open spec fn physh_section(s: SidebarState) -> Seq<RowView> {
    if physh_has_docs(s.facets@) {
        seq![RowView::Blank, RowView::Header(SidebarSection::Physh, false)] + Seq::new(
            4,
            |k: int| RowView::Physh(physh_top()[k], physh_labels()[k], facet_of(s, physh_top()[k])),
        )
    } else {
        Seq::empty()
    }
}

/// All rows of the sidebar, top to bottom.
pub open spec fn tree_rows_spec(s: SidebarState) -> Seq<RowView> {
    entry_section(SidebarSection::Projects, s.projects@, s.active_project_id) + (if s.series_grouping_enabled {
        entry_section(SidebarSection::Series, s.series@, s.active_series_id)
    } else {
        Seq::empty()
    }) + author_section(s) + seq![RowView::Header(SidebarSection::Udc, false)] + udc_rows_from(s, 0)
        + physh_section(s)
}

// ---------------------------------------------------------------------------
// The number of rows
// ---------------------------------------------------------------------------

proof fn lemma_udc_rows_len(s: SidebarState, i: int)
    requires
        0 <= i <= 10,
    ensures
        udc_rows_from(s, i).len() == (10 - i) + expanded_children(s.expanded_nodes.deep_view(), i),
    decreases 10 - i,
{
    if i < 10 {
        lemma_udc_rows_len(s, i + 1);
    }
}

/// The sidebar has as many rows as `count_visible_nodes` counts, so the
/// cursor bound and the drawn tree agree.
pub proof fn law_rows_match_count(s: SidebarState)
    ensures
        tree_rows_spec(s).len() == visible_nodes_spec(s),
{
    lemma_udc_rows_len(s, 0);
}

// ---------------------------------------------------------------------------
// Building the rows
// ---------------------------------------------------------------------------

fn push_row(out: &mut Vec<TreeRow>, r: TreeRow)
    ensures
        rows_view(final(out)@) == rows_view(old(out)@).push(row_view(r)),
{
    out.push(r);
    assert(rows_view(out@) =~= rows_view(old(out)@).push(row_view(r)));
}

fn append_rows(out: &mut Vec<TreeRow>, other: Vec<TreeRow>)
    ensures
        rows_view(final(out)@) == rows_view(old(out)@) + rows_view(other@),
{
    let mut o = other;
    let ghost ov = o@;
    out.append(&mut o);
    assert(rows_view(out@) =~= rows_view(old(out)@) + rows_view(ov));
}

fn entry_section_exec(sec: SidebarSection, es: &Vec<SidebarEntry>, active: Option<i64>) -> (r: Vec<
    TreeRow,
>)
    ensures
        rows_view(r@) == entry_section(sec, es@, active),
{
    let mut out: Vec<TreeRow> = Vec::new();
    push_row(&mut out, TreeRow::Header(sec, false));
    if es.len() == 0 {
        push_row(&mut out, TreeRow::Hint(sec));
    } else {
        let ghost start = rows_view(out@);
        let mut i: usize = 0;
        while i < es.len()
            invariant
                i <= es.len(),
                rows_view(out@) == start + entry_rows(es@, active).take(i as int),
            decreases es.len() - i,
        {
            let e = &es[i];
            push_row(&mut out, TreeRow::Entry(e.name.clone(), e.count, e.id == active));
            assert(entry_rows(es@, active).take(i + 1) =~= entry_rows(es@, active).take(i as int).push(
                RowView::Entry(es@[i as int].name@, es@[i as int].count, es@[i as int].id == active),
            ));
            i += 1;
        }
        assert(entry_rows(es@, active).take(es.len() as int) =~= entry_rows(es@, active));
    }
    push_row(&mut out, TreeRow::Blank);
    assert(rows_view(out@) =~= entry_section(sec, es@, active));
    out
}

fn author_section_exec(state: &SidebarState) -> (r: Vec<TreeRow>)
    ensures
        rows_view(r@) == author_section(*state),
{
    let mut out: Vec<TreeRow> = Vec::new();
    if state.authors.len() == 0 {
        assert(rows_view(out@) =~= author_section(*state));
        return out;
    }
    push_row(&mut out, TreeRow::Header(SidebarSection::Authors, state.authors_expanded));
    if state.authors_expanded {
        if state.author_search_mode {
            push_row(&mut out, TreeRow::AuthorSearch(state.author_search_input.clone()));
        }
        let q = lower(&chars_of(state.author_search_input.as_str()));
        let ghost all = state.authors@;
        let ghost qv = unicode_lower(state.author_search_input@);
        let mut picked: Vec<usize> = Vec::new();
        let mut i: usize = 0;
        assert(all.take(0) =~= Seq::<SidebarAuthor>::empty());
        while i < state.authors.len()
            invariant
                i <= state.authors.len(),
                all == state.authors@,
                q@ == qv,
                qv == unicode_lower(state.author_search_input@),
                picked@.len() == matching_authors(all.take(i as int), qv).len(),
                forall|k: int|
                    0 <= k < picked@.len() ==> (#[trigger] picked@[k]) < i && all[picked@[k] as int]
                        == matching_authors(all.take(i as int), qv)[k],
            decreases state.authors.len() - i,
        {
            assert(all.take(i + 1).drop_last() =~= all.take(i as int));
            assert(all.take(i + 1).last() == all[i as int]);
            let nl = lower(&chars_of(state.authors[i].name.as_str()));
            if q.len() == 0 || find_exec(&nl, &q).is_some() {
                picked.push(i);
            }
            i += 1;
        }
        assert(all.take(all.len() as int) =~= all);
        let ghost filtered = matching_authors(all, qv);
        if picked.len() == 0 && !state.author_search_input.as_str().is_empty() {
            push_row(&mut out, TreeRow::NoMatchingAuthor);
        }
        let ghost start = rows_view(out@);
        let mut k: usize = 0;
        while k < picked.len()
            invariant
                k <= picked.len(),
                all == state.authors@,
                filtered == matching_authors(all, qv),
                picked@.len() == filtered.len(),
                forall|j: int|
                    0 <= j < picked@.len() ==> (#[trigger] picked@[j]) < all.len() && all[picked@[j] as int]
                        == filtered[j],
                rows_view(out@) == start + author_entry_rows(filtered, state.active_author).take(k as int),
            decreases picked.len() - k,
        {
            let a = &state.authors[picked[k]];
            let active = match &state.active_author {
                Some(x) => eq_chars(&chars_of(x.as_str()), &chars_of(a.name.as_str())),
                None => false,
            };
            push_row(&mut out, TreeRow::Author(a.name.clone(), a.count, active, a.h_index));
            assert(author_entry_rows(filtered, state.active_author).take(k + 1) =~= author_entry_rows(
                filtered,
                state.active_author,
            ).take(k as int).push(author_entry_rows(filtered, state.active_author)[k as int]));
            k += 1;
        }
        assert(author_entry_rows(filtered, state.active_author).take(picked.len() as int)
            =~= author_entry_rows(filtered, state.active_author));
    }
    push_row(&mut out, TreeRow::Blank);
    assert(rows_view(out@) =~= author_section(*state));
    out
}

fn udc_section_rows(state: &SidebarState) -> (r: Vec<TreeRow>)
    ensures
        rows_view(r@) == udc_rows_from(*state, 0),
{
    let mut out: Vec<TreeRow> = Vec::new();
    let mut i: usize = 0;
    assert(rows_view(out@) + udc_rows_from(*state, 0) =~= udc_rows_from(*state, 0));
    while i < 10
        invariant
            i <= 10,
            rows_view(out@) + udc_rows_from(*state, i as int) == udc_rows_from(*state, 0),
        decreases 10 - i,
    {
        let ghost before = rows_view(out@);
        let top = udc_top(i);
        let expanded = contains_name(&state.expanded_nodes, top);
        let count = get_facet_count(state.facets.as_slice(), top);
        push_row(
            &mut out,
            TreeRow::Udc(top.to_string(), udc_top_label(i).to_string(), false, expanded, count),
        );
        if expanded {
            let cs = udc_children_exec(top);
            let ghost base = rows_view(out@);
            let mut k: usize = 0;
            while k < cs.len()
                invariant
                    k <= cs.len(),
                    cs@.len() == udc_children(top@).len(),
                    forall|j: int|
                        0 <= j < cs@.len() ==> (#[trigger] cs@[j]).0@ == udc_children(top@)[j].0
                            && cs@[j].1@ == udc_children(top@)[j].1,
                    rows_view(out@) == base + child_rows(*state, top@).take(k as int),
                decreases cs.len() - k,
            {
                let (cn, cl) = cs[k];
                let ce = contains_name(&state.expanded_nodes, cn);
                let cc = get_facet_count(state.facets.as_slice(), cn);
                push_row(&mut out, TreeRow::Udc(cn.to_string(), cl.to_string(), true, ce, cc));
                assert(child_rows(*state, top@).take(k + 1) =~= child_rows(*state, top@).take(
                    k as int,
                ).push(child_rows(*state, top@)[k as int]));
                k += 1;
            }
            assert(child_rows(*state, top@).take(cs.len() as int) =~= child_rows(*state, top@));
        }
        assert(rows_view(out@) + udc_rows_from(*state, i + 1) =~= before + udc_rows_from(
            *state,
            i as int,
        ));
        i += 1;
    }
    assert(udc_rows_from(*state, 10) =~= Seq::<RowView>::empty());
    assert(rows_view(out@) =~= udc_rows_from(*state, 0));
    out
}

fn physh_section_exec(state: &SidebarState) -> (r: Vec<TreeRow>)
    ensures
        rows_view(r@) == physh_section(*state),
{
    let mut out: Vec<TreeRow> = Vec::new();
    if !physh_has_docs_exec(&state.facets) {
        assert(rows_view(out@) =~= physh_section(*state));
        return out;
    }
    push_row(&mut out, TreeRow::Blank);
    push_row(&mut out, TreeRow::Header(SidebarSection::Physh, false));
    let ghost base = rows_view(out@);
    let ghost subjects = Seq::new(
        4,
        |k: int| RowView::Physh(physh_top()[k], physh_labels()[k], facet_of(*state, physh_top()[k])),
    );
    let mut p: usize = 0;
    while p < 4
        invariant
            p <= 4,
            rows_view(out@) == base + subjects.take(p as int),
            subjects == Seq::new(
                4,
                |k: int| RowView::Physh(physh_top()[k], physh_labels()[k], facet_of(*state, physh_top()[k])),
            ),
        decreases 4 - p,
    {
        let n = physh(p);
        let c = get_facet_count(state.facets.as_slice(), n);
        push_row(&mut out, TreeRow::Physh(n.to_string(), physh_label(p).to_string(), c));
        assert(subjects.take(p + 1) =~= subjects.take(p as int).push(subjects[p as int]));
        p += 1;
    }
    assert(subjects.take(4) =~= subjects);
    assert(rows_view(out@) =~= physh_section(*state));
    out
}

/// The rows of the sidebar tree, top to bottom.
pub fn build_tree_items(state: &SidebarState) -> (r: Vec<TreeRow>)
    ensures
        rows_view(r@) == tree_rows_spec(*state),
{
    let mut out = entry_section_exec(SidebarSection::Projects, &state.projects, state.active_project_id);
    if state.series_grouping_enabled {
        append_rows(
            &mut out,
            entry_section_exec(SidebarSection::Series, &state.series, state.active_series_id),
        );
    }
    append_rows(&mut out, author_section_exec(state));
    push_row(&mut out, TreeRow::Header(SidebarSection::Udc, false));
    append_rows(&mut out, udc_section_rows(state));
    append_rows(&mut out, physh_section_exec(state));
    assert(rows_view(out@) =~= tree_rows_spec(*state));
    out
}

} // verus!
