//! Bundling documents into series by journal: proposals become series, and
//! the series named after a journal take in that journal's documents.
use vstd::prelude::*;
use crate::ranking::{
    group_by_journal, ids_for, lemma_ids_for_occurs, lemma_lex_irreflexive, propose_series_by_journal,
    proposed, ranks_before, rows_view, texts,
};
use crate::records::SeriesProposal;
use crate::text::{chars_of, eq_chars};

verus! {

/// A series: its id, its name and the ids of its documents.
pub struct SeriesEntry {
    pub id: i64,
    pub name: String,
    pub members: Vec<i64>,
}

/// The documents with a journal, in journal order, and the series.
pub struct SeriesLibrary {
    /// Each document's id and journal.
    pub docs: Vec<(i64, String)>,
    pub series: Vec<SeriesEntry>,
    /// The id the next series created gets.
    pub next_id: i64,
}

/// The spec form of the library.
pub ghost struct LibView {
    pub docs: Seq<(i64, Seq<char>)>,
    pub series: Seq<(i64, Seq<char>, Seq<i64>)>,
    pub next_id: int,
}

pub open spec fn series_view(s: Seq<SeriesEntry>) -> Seq<(i64, Seq<char>, Seq<i64>)> {
    Seq::new(s.len(), |i: int| (s[i].id, s[i].name@, s[i].members@))
}

pub open spec fn lib_view(l: SeriesLibrary) -> LibView {
    LibView { docs: rows_view(l.docs@), series: series_view(l.series@), next_id: l.next_id as int }
}

pub open spec fn series_names(ss: Seq<(i64, Seq<char>, Seq<i64>)>) -> Seq<Seq<char>> {
    Seq::new(ss.len(), |i: int| ss[i].1)
}

/// Series `k` is the first one named `name`.
pub open spec fn is_first_named(ss: Seq<(i64, Seq<char>, Seq<i64>)>, name: Seq<char>, k: int) -> bool {
    &&& 0 <= k < ss.len()
    &&& ss[k].1 == name
    &&& forall|j: int| 0 <= j < k ==> (#[trigger] ss[j]).1 != name
}

/// The first series named `name`: the one a lookup by name finds.
pub open spec fn first_named(ss: Seq<(i64, Seq<char>, Seq<i64>)>, name: Seq<char>) -> Option<int> {
    if exists|k: int| is_first_named(ss, name, k) {
        Some(choose|k: int| is_first_named(ss, name, k))
    } else {
        None
    }
}

proof fn lemma_first_named_unique(ss: Seq<(i64, Seq<char>, Seq<i64>)>, name: Seq<char>, k: int)
    requires
        is_first_named(ss, name, k),
    ensures
        first_named(ss, name) == Some(k),
{
    let c = choose|j: int| is_first_named(ss, name, j);
    if c < k {
        assert(ss[c].1 != name);
    }
    if k < c {
        assert(ss[k].1 != name);
    }
}

proof fn lemma_first_named_exists(ss: Seq<(i64, Seq<char>, Seq<i64>)>, name: Seq<char>, k: int)
    requires
        0 <= k < ss.len(),
        ss[k].1 == name,
    ensures
        first_named(ss, name) is Some,
    decreases k,
{
    if exists|j: int| 0 <= j < k && (#[trigger] ss[j]).1 == name {
        let j = choose|j: int| 0 <= j < k && (#[trigger] ss[j]).1 == name;
        lemma_first_named_exists(ss, name, j);
    } else {
        assert(is_first_named(ss, name, k));
    }
}

proof fn lemma_first_named_none(ss: Seq<(i64, Seq<char>, Seq<i64>)>, name: Seq<char>)
    requires
        first_named(ss, name) is None,
    ensures
        forall|j: int| 0 <= j < ss.len() ==> (#[trigger] ss[j]).1 != name,
{
    assert forall|j: int| 0 <= j < ss.len() implies (#[trigger] ss[j]).1 != name by {
        if ss[j].1 == name {
            lemma_first_named_exists(ss, name, j);
        }
    }
}

/// The series found by name, if any.
fn find_series(series: &Vec<SeriesEntry>, name: &Vec<char>) -> (r: Option<usize>)
    ensures
        match r {
            Some(k) => first_named(series_view(series@), name@) == Some(k as int),
            None => first_named(series_view(series@), name@) is None,
        },
{
    let ghost ss = series_view(series@);
    let mut i: usize = 0;
    while i < series.len()
        invariant
            i <= series.len(),
            ss == series_view(series@),
            forall|j: int| 0 <= j < i ==> (#[trigger] ss[j]).1 != name@,
        decreases series.len() - i,
    {
        if eq_chars(&chars_of(series[i].name.as_str()), name) {
            proof {
                assert(is_first_named(ss, name@, i as int));
                lemma_first_named_unique(ss, name@, i as int);
            }
            return Some(i);
        }
        i += 1;
    }
    proof {
        if first_named(ss, name@) is Some {
            let k = choose|k: int| is_first_named(ss, name@, k);
            assert(ss[k].1 == name@);
        }
    }
    None
}

/// `m` after each of `ids` that is not in it yet is added, in order.
pub open spec fn add_members(m: Seq<i64>, ids: Seq<i64>) -> Seq<i64>
    decreases ids.len(),
{
    if ids.len() == 0 {
        m
    } else {
        let m2 = add_members(m, ids.drop_last());
        if m2.contains(ids.last()) {
            m2
        } else {
            m2.push(ids.last())
        }
    }
}

proof fn lemma_add_members(m: Seq<i64>, ids: Seq<i64>)
    ensures
        forall|x: i64| add_members(m, ids).contains(x) <==> (m.contains(x) || ids.contains(x)),
        (forall|x: i64| ids.contains(x) ==> m.contains(x)) ==> add_members(m, ids) == m,
    decreases ids.len(),
{
    if ids.len() > 0 {
        let init = ids.drop_last();
        lemma_add_members(m, init);
        let m2 = add_members(m, init);
        assert forall|x: i64| add_members(m, ids).contains(x) <==> (m.contains(x) || ids.contains(x)) by {
            if ids.contains(x) && x != ids.last() {
                let k = choose|k: int| 0 <= k < ids.len() && ids[k] == x;
                assert(init[k] == x);
            }
            if init.contains(x) {
                let k = choose|k: int| 0 <= k < init.len() && init[k] == x;
                assert(ids[k] == x);
            }
            if add_members(m, ids).contains(x) && !m2.contains(x) {
                let k = choose|k: int| 0 <= k < add_members(m, ids).len() && add_members(m, ids)[k] == x;
                assert(ids[ids.len() - 1] == ids.last());
            }
            if x == ids.last() {
                assert(ids[ids.len() - 1] == x);
                if !m2.contains(x) {
                    assert(add_members(m, ids)[m2.len() as int] == x);
                }
            }
            if m2.contains(x) && !m2.contains(ids.last()) {
                let k = choose|k: int| 0 <= k < m2.len() && m2[k] == x;
                assert(add_members(m, ids)[k] == x);
            }
        }
        if forall|x: i64| ids.contains(x) ==> m.contains(x) {
            assert forall|x: i64| init.contains(x) implies m.contains(x) by {
                let k = choose|k: int| 0 <= k < init.len() && init[k] == x;
                assert(ids[k] == x);
            }
            assert(ids[ids.len() - 1] == ids.last());
        }
    }
}

fn copy_ids(v: &Vec<i64>) -> (r: Vec<i64>)
    ensures
        r@ == v@,
{
    let mut r: Vec<i64> = Vec::new();
    let mut i: usize = 0;
    while i < v.len()
        invariant
            i <= v.len(),
            r@ == v@.take(i as int),
        decreases v.len() - i,
    {
        r.push(v[i]);
        assert(r@ =~= v@.take(i + 1));
        i += 1;
    }
    assert(v@.take(v.len() as int) =~= v@);
    r
}

fn contains_id(v: &Vec<i64>, x: i64) -> (r: bool)
    ensures
        r == v@.contains(x),
{
    let mut i: usize = 0;
    while i < v.len()
        invariant
            i <= v.len(),
            forall|k: int| 0 <= k < i ==> v@[k] != x,
        decreases v.len() - i,
    {
        if v[i] == x {
            return true;
        }
        i += 1;
    }
    false
}

fn add_members_exec(m: &mut Vec<i64>, ids: &Vec<i64>)
    ensures
        final(m)@ == add_members(old(m)@, ids@),
{
    let ghost m0 = m@;
    let mut i: usize = 0;
    while i < ids.len()
        invariant
            i <= ids.len(),
            m@ == add_members(m0, ids@.take(i as int)),
        decreases ids.len() - i,
    {
        assert(ids@.take(i + 1).drop_last() =~= ids@.take(i as int));
        assert(ids@.take(i + 1).last() == ids@[i as int]);
        if !contains_id(m, ids[i]) {
            m.push(ids[i]);
        }
        i += 1;
    }
    assert(ids@.take(ids.len() as int) =~= ids@);
}

/// One proposal applied: the series of that name (created with the next id
/// when there is none) takes in the proposal's documents; its id is
/// returned.
pub open spec fn apply_one(l: LibView, name: Seq<char>, ids: Seq<i64>) -> (LibView, i64) {
    match first_named(l.series, name) {
        Some(k) => (
            LibView {
                series: l.series.update(k, (l.series[k].0, l.series[k].1, add_members(l.series[k].2, ids))),
                ..l
            },
            l.series[k].0,
        ),
        None => (
            LibView {
                series: l.series.push((l.next_id as i64, name, add_members(Seq::empty(), ids))),
                next_id: l.next_id + 1,
                ..l
            },
            l.next_id as i64,
        ),
    }
}

/// The proposals as names and document ids.
pub open spec fn proposals_view(p: Seq<SeriesProposal>) -> Seq<(Seq<char>, Seq<i64>)> {
    Seq::new(p.len(), |i: int| (p[i].name@, p[i].document_ids@))
}

/// The proposals applied in order, with the series id of each.
pub open spec fn apply_all(l: LibView, p: Seq<(Seq<char>, Seq<i64>)>) -> (LibView, Seq<i64>)
    decreases p.len(),
{
    if p.len() == 0 {
        (l, Seq::empty())
    } else {
        let (l1, ids) = apply_all(l, p.drop_last());
        let (l2, id) = apply_one(l1, p.last().0, p.last().1);
        (l2, ids.push(id))
    }
}

proof fn lemma_apply_all_next_id(l: LibView, p: Seq<(Seq<char>, Seq<i64>)>)
    ensures
        l.next_id <= apply_all(l, p).0.next_id <= l.next_id + p.len(),
        apply_all(l, p).0.docs == l.docs,
    decreases p.len(),
{
    if p.len() > 0 {
        lemma_apply_all_next_id(l, p.drop_last());
    }
}

fn apply_one_exec(lib: &mut SeriesLibrary, name: &String, ids: &Vec<i64>) -> (r: i64)
    requires
        old(lib).next_id < i64::MAX,
    ensures
        (lib_view(*final(lib)), r) == apply_one(lib_view(*old(lib)), name@, ids@),
{
    let n = chars_of(name.as_str());
    let ghost l0 = lib_view(*lib);
    match find_series(&lib.series, &n) {
        Some(k) => {
            let mut m = copy_ids(&lib.series[k].members);
            add_members_exec(&mut m, ids);
            let id = lib.series[k].id;
            let nm = lib.series[k].name.clone();
            lib.series.set(k, SeriesEntry { id, name: nm, members: m });
            assert(series_view(lib.series@) =~= l0.series.update(
                k as int,
                (l0.series[k as int].0, l0.series[k as int].1, add_members(l0.series[k as int].2, ids@)),
            ));
            id
        },
        None => {
            let mut m: Vec<i64> = Vec::new();
            add_members_exec(&mut m, ids);
            let id = lib.next_id;
            lib.series.push(SeriesEntry { id, name: name.clone(), members: m });
            lib.next_id = lib.next_id + 1;
            assert(series_view(lib.series@) =~= l0.series.push((id, name@, add_members(Seq::empty(), ids@))));
            id
        },
    }
}

/// Applies the proposals in order: each becomes a series (or joins the
/// existing series of its name) holding its documents; the series ids are
/// returned in proposal order.
pub fn apply_proposals(lib: &mut SeriesLibrary, proposals: &Vec<SeriesProposal>) -> (r: Vec<i64>)
    requires
        old(lib).next_id + proposals.len() <= i64::MAX,
    ensures
        (lib_view(*final(lib)), r@) == apply_all(lib_view(*old(lib)), proposals_view(proposals@)),
{
    let ghost l0 = lib_view(*lib);
    let ghost pv = proposals_view(proposals@);
    let mut out: Vec<i64> = Vec::new();
    let mut i: usize = 0;
    while i < proposals.len()
        invariant
            i <= proposals.len(),
            pv == proposals_view(proposals@),
            l0.next_id + proposals.len() <= i64::MAX,
            (lib_view(*lib), out@) == apply_all(l0, pv.take(i as int)),
        decreases proposals.len() - i,
    {
        assert(pv.take(i + 1).drop_last() =~= pv.take(i as int));
        assert(pv.take(i + 1).last() == pv[i as int]);
        proof {
            lemma_apply_all_next_id(l0, pv.take(i as int));
        }
        let id = apply_one_exec(lib, &proposals[i].name, &proposals[i].document_ids);
        out.push(id);
        i += 1;
    }
    assert(pv.take(proposals.len() as int) =~= pv);
    out
}

/// One journal's documents joined to the series named after it, when there
/// is one; the series id is noted once when a document was missing from it.
pub open spec fn backfill_one(l: LibView, out: Seq<i64>, x: Seq<char>) -> (LibView, Seq<i64>) {
    match first_named(l.series, x) {
        None => (l, out),
        Some(k) => {
            let want = ids_for(l.docs, x);
            let m = l.series[k].2;
            if forall|d: i64| want.contains(d) ==> m.contains(d) {
                (l, out)
            } else {
                (
                    LibView {
                        series: l.series.update(k, (l.series[k].0, l.series[k].1, add_members(m, want))),
                        ..l
                    },
                    if out.contains(l.series[k].0) {
                        out
                    } else {
                        out.push(l.series[k].0)
                    },
                )
            }
        },
    }
}

/// The journals `js` backfilled in order.
pub open spec fn backfill_all(l: LibView, out: Seq<i64>, js: Seq<Seq<char>>) -> (LibView, Seq<i64>)
    decreases js.len(),
{
    if js.len() == 0 {
        (l, out)
    } else {
        let (l1, o1) = backfill_all(l, out, js.drop_last());
        backfill_one(l1, o1, js.last())
    }
}

fn backfill_one_exec(lib: &mut SeriesLibrary, out: &mut Vec<i64>, x: &Vec<char>, want: &Vec<i64>)
    requires
        want@ == ids_for(lib_view(*old(lib)).docs, x@),
    ensures
        (lib_view(*final(lib)), final(out)@) == backfill_one(lib_view(*old(lib)), old(out)@, x@),
{
    let ghost l0 = lib_view(*lib);
    match find_series(&lib.series, x) {
        None => {},
        Some(k) => {
            let m = copy_ids(&lib.series[k].members);
            let mut touched = false;
            let mut j: usize = 0;
            while j < want.len()
                invariant
                    j <= want.len(),
                    touched <==> exists|t: int| 0 <= t < j && !m@.contains(#[trigger] want@[t]),
                decreases want.len() - j,
            {
                if !contains_id(&m, want[j]) {
                    touched = true;
                }
                j += 1;
            }
            assert(touched <==> !(forall|d: i64| want@.contains(d) ==> m@.contains(d))) by {
                if !touched {
                    assert forall|d: i64| want@.contains(d) implies m@.contains(d) by {
                        let t = choose|t: int| 0 <= t < want@.len() && want@[t] == d;
                    }
                } else {
                    let t = choose|t: int| 0 <= t < want@.len() && !m@.contains(#[trigger] want@[t]);
                    assert(want@.contains(want@[t]));
                }
            }
            if touched {
                let mut m2 = m;
                add_members_exec(&mut m2, want);
                let id = lib.series[k].id;
                let nm = lib.series[k].name.clone();
                lib.series.set(k, SeriesEntry { id, name: nm, members: m2 });
                assert(series_view(lib.series@) =~= l0.series.update(
                    k as int,
                    (l0.series[k as int].0, l0.series[k as int].1, add_members(l0.series[k as int].2, want@)),
                ));
                if !contains_id(out, id) {
                    out.push(id);
                }
            }
        },
    }
}

/// Every journal of the documents is listed once.
pub open spec fn journals_ok(docs: Seq<(i64, Seq<char>)>, js: Seq<Seq<char>>) -> bool {
    &&& forall|a: int, b: int| 0 <= a < b < js.len() ==> js[a] != js[b]
    &&& forall|k: int| 0 <= k < docs.len() ==> js.contains(#[trigger] docs[k].1)
}

/// The proposals for a library: the journals with two or more documents and
/// no series of their name, each with its documents, the largest first and
/// equally large ones by name.
pub open spec fn proposals_ok(l: LibView, p: Seq<(Seq<char>, Seq<i64>)>) -> bool {
    &&& forall|i: int, j: int|
        0 <= i < j < p.len() ==> ranks_before(
            (#[trigger] p[i]).1.len() as int,
            p[i].0,
            (#[trigger] p[j]).1.len() as int,
            p[j].0,
        )
    &&& forall|i: int|
        0 <= i < p.len() ==> (#[trigger] p[i]).1 == ids_for(l.docs, p[i].0) && proposed(
            l.docs,
            series_names(l.series),
            p[i].0,
        )
    &&& forall|x: Seq<char>|
        proposed(l.docs, series_names(l.series), x) ==> exists|i: int|
            0 <= i < p.len() && (#[trigger] p[i]).0 == x
}

/// Proposals applied, then the journals `js` backfilled.
pub open spec fn run_with(l: LibView, p: Seq<(Seq<char>, Seq<i64>)>, js: Seq<Seq<char>>) -> (LibView, Seq<i64>) {
    let (l1, ids) = apply_all(l, p);
    backfill_all(l1, ids, js)
}

/// There are never more proposals than documents.
proof fn lemma_proposals_len(l: LibView, p: Seq<(Seq<char>, Seq<i64>)>)
    requires
        proposals_ok(l, p),
    ensures
        p.len() <= l.docs.len(),
{
    broadcast use vstd::seq_lib::seq_to_set_is_finite;

    let names = Seq::new(p.len(), |i: int| p[i].0);
    let js = Seq::new(l.docs.len(), |k: int| l.docs[k].1);
    assert forall|i: int, j: int| 0 <= i < names.len() && 0 <= j < names.len() && i != j implies names[i]
        != names[j] by {
        if names[i] == names[j] {
            lemma_lex_irreflexive(names[i]);
            if i < j {
                assert(ranks_before(p[i].1.len() as int, p[i].0, p[j].1.len() as int, p[j].0));
            } else {
                assert(ranks_before(p[j].1.len() as int, p[j].0, p[i].1.len() as int, p[i].0));
            }
        }
    }
    assert(names.no_duplicates());
    names.unique_seq_to_set();
    assert forall|x: Seq<char>| names.to_set().contains(x) implies js.to_set().contains(x) by {
        let i = choose|i: int| 0 <= i < names.len() && names[i] == x;
        assert(p[i].0 == x);
        assert(proposed(l.docs, series_names(l.series), x));
        lemma_ids_for_occurs(l.docs, x);
        let k = choose|k: int| 0 <= k < l.docs.len() && (#[trigger] l.docs[k]).1 == x;
        assert(js[k] == x);
    }
    vstd::set_lib::lemma_len_subset(names.to_set(), js.to_set());
    js.lemma_cardinality_of_set();
}

fn clone_names(series: &Vec<SeriesEntry>) -> (r: Vec<String>)
    ensures
        texts(r@) == series_names(series_view(series@)),
{
    let mut out: Vec<String> = Vec::new();
    let mut i: usize = 0;
    while i < series.len()
        invariant
            i <= series.len(),
            out@.len() == i,
            texts(out@) == series_names(series_view(series@)).take(i as int),
        decreases series.len() - i,
    {
        let n = series[i].name.clone();
        assert(n@ == series@[i as int].name@);
        let ghost before = out@;
        out.push(n);
        assert(out@[i as int]@ == series_names(series_view(series@))[i as int]);
        assert(texts(out@) =~= series_names(series_view(series@)).take(i + 1));
        i += 1;
    }
    assert(series_names(series_view(series@)).take(series.len() as int) =~= series_names(
        series_view(series@),
    ));
    out
}

/// Bundles documents into series by journal: each journal with two or more
/// documents and no series of its name becomes a series of them (largest
/// first), then every series named after a journal takes in that journal's
/// documents it lacks. Returns the ids of the series created, then of those
/// that took in documents, each once. The journals are backfilled in some
/// order; the library that results does not depend on it.
pub fn auto_group_by_journal(lib: &mut SeriesLibrary) -> (r: Vec<i64>)
    requires
        old(lib).next_id + old(lib).docs.len() <= i64::MAX,
    ensures
        exists|p: Seq<(Seq<char>, Seq<i64>)>, js: Seq<Seq<char>>|
            proposals_ok(lib_view(*old(lib)), p) && journals_ok(lib_view(*old(lib)).docs, js) && (
            lib_view(*final(lib)),
            r@,
        ) == run_with(lib_view(*old(lib)), p, js),
{
    let ghost l0 = lib_view(*lib);
    let names = clone_names(&lib.series);
    let proposals = propose_series_by_journal(&lib.docs, &names);
    let ghost p = proposals_view(proposals@);
    assert(proposals_ok(l0, p)) by {
        assert forall|x: Seq<char>| proposed(l0.docs, series_names(l0.series), x) implies exists|i: int|
            0 <= i < p.len() && (#[trigger] p[i]).0 == x by {
            let i = choose|i: int| 0 <= i < proposals@.len() && (#[trigger] proposals@[i]).name@ == x;
            assert(p[i].0 == x);
        }
        assert forall|i: int, j: int| 0 <= i < j < p.len() implies ranks_before(
            (#[trigger] p[i]).1.len() as int,
            p[i].0,
            (#[trigger] p[j]).1.len() as int,
            p[j].0,
        ) by {
            assert(ranks_before(
                proposals@[i].document_ids@.len() as int,
                proposals@[i].name@,
                proposals@[j].document_ids@.len() as int,
                proposals@[j].name@,
            ));
        }
    }
    proof {
        lemma_proposals_len(l0, p);
    }
    let mut out = apply_proposals(lib, &proposals);
    proof {
        lemma_apply_all_next_id(l0, p);
    }
    let ghost l1 = lib_view(*lib);
    let ghost o1 = out@;
    let (journals, groups) = group_by_journal(&lib.docs);
    let ghost js = Seq::new(journals@.len(), |a: int| journals@[a]@);
    assert(journals_ok(l0.docs, js)) by {
        assert forall|k: int| 0 <= k < l0.docs.len() implies js.contains(#[trigger] l0.docs[k].1) by {
            assert(l0.docs[k].1 == lib.docs@[k].1@);
            let a = choose|a: int| 0 <= a < journals@.len() && (#[trigger] journals@[a])@ == lib.docs@[k].1@;
            assert(js[a] == l0.docs[k].1);
        }
    }
    let mut a: usize = 0;
    while a < journals.len()
        invariant
            a <= journals.len(),
            journals.len() == groups.len(),
            js == Seq::new(journals@.len(), |b: int| journals@[b]@),
            forall|b: int|
                0 <= b < journals.len() ==> groups@[b]@ == ids_for(
                    rows_view(lib.docs@),
                    (#[trigger] journals@[b])@,
                ),
            lib_view(*lib).docs == l1.docs,
            (lib_view(*lib), out@) == backfill_all(l1, o1, js.take(a as int)),
        decreases journals.len() - a,
    {
        assert(js.take(a + 1).drop_last() =~= js.take(a as int));
        assert(js.take(a + 1).last() == journals@[a as int]@);
        backfill_one_exec(lib, &mut out, &journals[a], &groups[a]);
        a += 1;
    }
    assert(js.take(journals.len() as int) =~= js);
    assert((lib_view(*lib), out@) == run_with(l0, p, js));
    assert(proposals_ok(l0, p) && journals_ok(l0.docs, js) && (lib_view(*lib), out@) == run_with(
        l0,
        p,
        js,
    ));
    out
}

// ---------------------------------------------------------------------------
// Running twice
// ---------------------------------------------------------------------------

/// The series found by the name `y` holds every document of journal `y`.
pub open spec fn filled(l: LibView, y: Seq<char>) -> bool {
    match first_named(l.series, y) {
        Some(k) => forall|d: i64| ids_for(l.docs, y).contains(d) ==> #[trigger] l.series[k].2.contains(d),
        None => true,
    }
}

/// Every journal with two or more documents has a series of its name, and
/// every series found by a journal's name holds all of its documents.
pub open spec fn grouped(l: LibView) -> bool {
    &&& forall|x: Seq<char>| #[trigger] ids_for(l.docs, x).len() >= 2 ==> first_named(l.series, x) is Some
    &&& forall|x: Seq<char>| #[trigger] filled(l, x)
}

proof fn lemma_first_named_same_names(
    a: Seq<(i64, Seq<char>, Seq<i64>)>,
    b: Seq<(i64, Seq<char>, Seq<i64>)>,
    x: Seq<char>,
)
    requires
        a.len() <= b.len(),
        forall|j: int| 0 <= j < a.len() ==> (#[trigger] a[j]).1 == b[j].1,
        first_named(a, x) is Some,
    ensures
        first_named(b, x) == first_named(a, x),
{
    let k = choose|k: int| is_first_named(a, x, k);
    assert(is_first_named(b, x, k)) by {
        assert forall|j: int| 0 <= j < k implies (#[trigger] b[j]).1 != x by {
            assert(a[j].1 != x);
        }
    }
    lemma_first_named_unique(b, x, k);
}

proof fn lemma_first_named_equal_names(
    a: Seq<(i64, Seq<char>, Seq<i64>)>,
    b: Seq<(i64, Seq<char>, Seq<i64>)>,
    x: Seq<char>,
)
    requires
        a.len() == b.len(),
        forall|j: int| 0 <= j < a.len() ==> (#[trigger] a[j]).1 == b[j].1,
    ensures
        first_named(b, x) == first_named(a, x),
{
    if first_named(a, x) is Some {
        lemma_first_named_same_names(a, b, x);
    } else if first_named(b, x) is Some {
        lemma_first_named_same_names(b, a, x);
    }
}

proof fn lemma_apply_one_named(l: LibView, x: Seq<char>, ids: Seq<i64>, y: Seq<char>)
    ensures
        ({
            let r = apply_one(l, x, ids).0;
            &&& r.docs == l.docs
            &&& l.series.len() <= r.series.len()
            &&& forall|j: int| 0 <= j < l.series.len() ==> (#[trigger] l.series[j]).1 == r.series[j].1
            &&& first_named(r.series, x) is Some
            &&& first_named(l.series, y) is Some ==> first_named(r.series, y) == first_named(l.series, y)
        }),
{
    let r = apply_one(l, x, ids).0;
    if first_named(l.series, x) is Some {
        let k = first_named(l.series, x)->0;
        let kk = choose|kk: int| is_first_named(l.series, x, kk);
        lemma_first_named_equal_names(l.series, r.series, x);
        lemma_first_named_equal_names(l.series, r.series, y);
    } else {
        assert(r.series[l.series.len() as int].1 == x);
        lemma_first_named_exists(r.series, x, l.series.len() as int);
        if first_named(l.series, y) is Some {
            lemma_first_named_same_names(l.series, r.series, y);
        }
    }
}

proof fn lemma_apply_all_named(l: LibView, p: Seq<(Seq<char>, Seq<i64>)>)
    ensures
        ({
            let r = apply_all(l, p).0;
            &&& r.docs == l.docs
            &&& forall|y: Seq<char>|
                first_named(l.series, y) is Some ==> (#[trigger] first_named(r.series, y)) is Some
            &&& forall|i: int| 0 <= i < p.len() ==> first_named(r.series, (#[trigger] p[i]).0) is Some
        }),
    decreases p.len(),
{
    if p.len() > 0 {
        let init = p.drop_last();
        lemma_apply_all_named(l, init);
        let m = apply_all(l, init).0;
        let r = apply_all(l, p).0;
        assert(r == apply_one(m, p.last().0, p.last().1).0);
        lemma_apply_one_named(m, p.last().0, p.last().1, p.last().0);
        assert forall|y: Seq<char>|
            first_named(l.series, y) is Some implies (#[trigger] first_named(r.series, y)) is Some by {
            lemma_apply_one_named(m, p.last().0, p.last().1, y);
        }
        assert forall|i: int| 0 <= i < p.len() implies first_named(r.series, (#[trigger] p[i]).0) is Some by {
            if i < p.len() - 1 {
                assert(p[i] == init[i]);
                lemma_apply_one_named(m, p.last().0, p.last().1, p[i].0);
            }
        }
    }
}

proof fn lemma_backfill_one_keeps(l: LibView, out: Seq<i64>, x: Seq<char>, y: Seq<char>)
    ensures
        ({
            let r = backfill_one(l, out, x).0;
            &&& r.docs == l.docs
            &&& r.series.len() == l.series.len()
            &&& forall|j: int| 0 <= j < l.series.len() ==> (#[trigger] l.series[j]).1 == r.series[j].1
            &&& first_named(r.series, y) == first_named(l.series, y)
            &&& filled(l, y) ==> filled(r, y)
            &&& first_named(l.series, x) is Some ==> filled(r, x)
        }),
{
    let r = backfill_one(l, out, x).0;
    lemma_first_named_equal_names(l.series, r.series, y);
    lemma_first_named_equal_names(l.series, r.series, x);
    if let Some(k) = first_named(l.series, x) {
        let want = ids_for(l.docs, x);
        lemma_add_members(l.series[k].2, want);
        if let Some(ky) = first_named(l.series, y) {
            if filled(l, y) {
                assert forall|d: i64| ids_for(r.docs, y).contains(d) implies #[trigger] r.series[ky].2.contains(d) by {
                    assert(l.series[ky].2.contains(d));
                }
            }
        }
        assert forall|d: i64| ids_for(r.docs, x).contains(d) implies #[trigger] r.series[k].2.contains(d) by {
        }
    }
}

proof fn lemma_backfill_all(l: LibView, out: Seq<i64>, js: Seq<Seq<char>>)
    ensures
        ({
            let r = backfill_all(l, out, js).0;
            &&& r.docs == l.docs
            &&& r.series.len() == l.series.len()
            &&& forall|j: int| 0 <= j < l.series.len() ==> (#[trigger] l.series[j]).1 == r.series[j].1
            &&& forall|y: Seq<char>| filled(l, y) ==> #[trigger] filled(r, y)
            &&& forall|y: Seq<char>|
                js.contains(y) && first_named(l.series, y) is Some ==> #[trigger] filled(r, y)
        }),
    decreases js.len(),
{
    if js.len() > 0 {
        let init = js.drop_last();
        lemma_backfill_all(l, out, init);
        let (m, o) = backfill_all(l, out, init);
        let r = backfill_all(l, out, js).0;
        assert(r == backfill_one(m, o, js.last()).0);
        lemma_backfill_one_keeps(m, o, js.last(), js.last());
        assert forall|y: Seq<char>| filled(l, y) implies #[trigger] filled(r, y) by {
            lemma_backfill_one_keeps(m, o, js.last(), y);
        }
        assert forall|y: Seq<char>|
            js.contains(y) && first_named(l.series, y) is Some implies #[trigger] filled(r, y) by {
            lemma_backfill_one_keeps(m, o, js.last(), y);
            lemma_first_named_equal_names(l.series, m.series, y);
            if y != js.last() {
                let a = choose|a: int| 0 <= a < js.len() && js[a] == y;
                assert(init[a] == y);
            }
        }
    }
}

proof fn lemma_backfill_all_grouped(l: LibView, out: Seq<i64>, js: Seq<Seq<char>>)
    requires
        grouped(l),
    ensures
        backfill_all(l, out, js) == (l, out),
    decreases js.len(),
{
    if js.len() > 0 {
        lemma_backfill_all_grouped(l, out, js.drop_last());
        let x = js.last();
        assert(filled(l, x));
    }
}

/// Bundling by journal a second time, with no new documents, changes
/// nothing and returns no series: whatever proposals and journal order the
/// runs take, the first leaves every journal of two or more documents with
/// a series holding all of them.
pub proof fn law_auto_group_idempotent(
    l0: LibView,
    p1: Seq<(Seq<char>, Seq<i64>)>,
    js1: Seq<Seq<char>>,
    p2: Seq<(Seq<char>, Seq<i64>)>,
    js2: Seq<Seq<char>>,
)
    requires
        proposals_ok(l0, p1),
        journals_ok(l0.docs, js1),
        proposals_ok(run_with(l0, p1, js1).0, p2),
    ensures
        run_with(l0, p1, js1).0.docs == l0.docs,
        grouped(run_with(l0, p1, js1).0),
        run_with(run_with(l0, p1, js1).0, p2, js2) == (run_with(l0, p1, js1).0, Seq::<i64>::empty()),
{
    let (la, ida) = apply_all(l0, p1);
    let l1 = run_with(l0, p1, js1).0;
    lemma_apply_all_named(l0, p1);
    lemma_backfill_all(la, ida, js1);
    // Every journal with two or more documents has a series after the first run.
    assert forall|x: Seq<char>| #[trigger] ids_for(l1.docs, x).len() >= 2 implies first_named(l1.series, x) is Some by {
        if series_names(l0.series).contains(x) {
            let j = choose|j: int| 0 <= j < series_names(l0.series).len() && series_names(l0.series)[j] == x;
            lemma_first_named_exists(l0.series, x, j);
        } else {
            assert(proposed(l0.docs, series_names(l0.series), x));
            let i = choose|i: int| 0 <= i < p1.len() && (#[trigger] p1[i]).0 == x;
        }
        assert(first_named(la.series, x) is Some);
        lemma_first_named_equal_names(la.series, l1.series, x);
    }
    // Every series found by a journal's name holds its documents.
    assert forall|x: Seq<char>| #[trigger] filled(l1, x) by {
        lemma_first_named_equal_names(la.series, l1.series, x);
        if ids_for(l1.docs, x).len() > 0 && first_named(l1.series, x) is Some {
            lemma_ids_for_occurs(l0.docs, x);
            let k = choose|k: int| 0 <= k < l0.docs.len() && (#[trigger] l0.docs[k]).1 == x;
            assert(js1.contains(l0.docs[k].1));
        }
    }
    assert(grouped(l1));
    // The second run: nothing is proposed, and backfilling changes nothing.
    if p2.len() > 0 {
        let x = p2[0].0;
        assert(proposed(l1.docs, series_names(l1.series), x));
        let k = choose|k: int| is_first_named(l1.series, x, k);
        assert(series_names(l1.series)[k] == x);
    }
    assert(p2 =~= Seq::<(Seq<char>, Seq<i64>)>::empty());
    lemma_backfill_all_grouped(l1, Seq::<i64>::empty(), js2);
}

} // verus!
