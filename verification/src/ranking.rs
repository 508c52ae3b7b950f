//! Ranked groupings of the library: author names by how many documents
//! list them, and journals proposed as series. Both are listed by count,
//! largest first, and then by name.
use vstd::prelude::*;
use vstd::multiset::Multiset;
use crate::documents::{split_authors_chars, split_authors_spec};
use crate::fts_query::{nfc, normalize_nfc};
use crate::records::SeriesProposal;
use crate::text::{chars_of, eq_chars, slice_of, string_from_chars};

verus! {

// ---------------------------------------------------------------------------
// The order of names
// ---------------------------------------------------------------------------

/// `a` comes before `b` in code-point order, the order of Rust strings.
pub open spec fn lex_lt(a: Seq<char>, b: Seq<char>) -> bool
    decreases a.len(),
{
    if a.len() == 0 {
        b.len() > 0
    } else if b.len() == 0 {
        false
    } else if a[0] != b[0] {
        a[0] < b[0]
    } else {
        lex_lt(a.drop_first(), b.drop_first())
    }
}

pub proof fn lemma_lex_irreflexive(a: Seq<char>)
    ensures
        !lex_lt(a, a),
    decreases a.len(),
{
    if a.len() > 0 {
        lemma_lex_irreflexive(a.drop_first());
    }
}

pub proof fn lemma_lex_transitive(a: Seq<char>, b: Seq<char>, c: Seq<char>)
    requires
        lex_lt(a, b),
        lex_lt(b, c),
    ensures
        lex_lt(a, c),
    decreases a.len(),
{
    if a.len() > 0 && b.len() > 0 && c.len() > 0 && a[0] == b[0] && b[0] == c[0] {
        lemma_lex_transitive(a.drop_first(), b.drop_first(), c.drop_first());
    }
}

pub proof fn lemma_lex_total(a: Seq<char>, b: Seq<char>)
    requires
        a != b,
    ensures
        lex_lt(a, b) || lex_lt(b, a),
    decreases a.len(),
{
    if a.len() == 0 && b.len() == 0 {
        assert(a =~= b);
    }
    if a.len() > 0 && b.len() > 0 && a[0] == b[0] {
        if a.drop_first() == b.drop_first() {
            assert(a.len() == b.len()) by {
                assert(a.drop_first().len() == b.drop_first().len());
            }
            assert(a =~= b) by {
                assert forall|i: int| 0 <= i < a.len() implies a[i] == b[i] by {
                    if i > 0 {
                        assert(a[i] == a.drop_first()[i - 1]);
                        assert(b[i] == b.drop_first()[i - 1]);
                    }
                }
            }
        }
        lemma_lex_total(a.drop_first(), b.drop_first());
    }
}

/// Whether `a` comes before `b` in code-point order.
pub fn lex_less(a: &Vec<char>, b: &Vec<char>) -> (r: bool)
    ensures
        r == lex_lt(a@, b@),
{
    let mut i: usize = 0;
    assert(a@.skip(0) =~= a@ && b@.skip(0) =~= b@);
    while i < a.len() && i < b.len() && a[i] == b[i]
        invariant
            i <= a.len(),
            i <= b.len(),
            lex_lt(a@, b@) == lex_lt(a@.skip(i as int), b@.skip(i as int)),
        decreases a.len() - i,
    {
        assert(a@.skip(i as int).drop_first() =~= a@.skip(i + 1));
        assert(b@.skip(i as int).drop_first() =~= b@.skip(i + 1));
        assert(a@.skip(i as int)[0] == a@[i as int]);
        assert(b@.skip(i as int)[0] == b@[i as int]);
        i += 1;
    }
    if i == a.len() {
        i < b.len()
    } else if i == b.len() {
        false
    } else {
        assert(a@.skip(i as int)[0] == a@[i as int]);
        assert(b@.skip(i as int)[0] == b@[i as int]);
        a[i] < b[i]
    }
}

// ---------------------------------------------------------------------------
// Ranking by count, then by name
// ---------------------------------------------------------------------------

/// A name with count `c1` is listed before one with count `c2`: the larger
/// count first, and for equal counts the name that comes first.
pub open spec fn ranks_before(c1: int, n1: Seq<char>, c2: int, n2: Seq<char>) -> bool {
    c1 > c2 || (c1 == c2 && lex_lt(n1, n2))
}

pub open spec fn entry_before<T>(a: (Vec<char>, usize, T), b: (Vec<char>, usize, T)) -> bool {
    ranks_before(a.1 as int, a.0@, b.1 as int, b.0@)
}

/// Entries listed in rank order.
pub open spec fn ranked<T>(s: Seq<(Vec<char>, usize, T)>) -> bool {
    forall|i: int, j: int| 0 <= i < j < s.len() ==> entry_before(#[trigger] s[i], #[trigger] s[j])
}

/// No name occurs twice.
pub open spec fn names_distinct<T>(s: Seq<(Vec<char>, usize, T)>) -> bool {
    forall|i: int, j: int| 0 <= i < j < s.len() ==> (#[trigger] s[i]).0@ != (#[trigger] s[j]).0@
}

proof fn lemma_rank_transitive(c1: int, n1: Seq<char>, c2: int, n2: Seq<char>, c3: int, n3: Seq<char>)
    requires
        ranks_before(c1, n1, c2, n2),
        ranks_before(c2, n2, c3, n3),
    ensures
        ranks_before(c1, n1, c3, n3),
{
    if c1 == c2 && c2 == c3 {
        lemma_lex_transitive(n1, n2, n3);
    }
}

proof fn lemma_rank_total(c1: int, n1: Seq<char>, c2: int, n2: Seq<char>)
    requires
        n1 != n2,
        !ranks_before(c1, n1, c2, n2),
    ensures
        ranks_before(c2, n2, c1, n1),
{
    lemma_lex_total(n1, n2);
}

fn before_exec<T>(a: &(Vec<char>, usize, T), b: &(Vec<char>, usize, T)) -> (r: bool)
    ensures
        r == entry_before(*a, *b),
{
    a.1 > b.1 || (a.1 == b.1 && lex_less(&a.0, &b.0))
}

fn insert_ranked<T>(out: &mut Vec<(Vec<char>, usize, T)>, x: (Vec<char>, usize, T)) -> (p: usize)
    requires
        ranked(old(out)@),
        forall|k: int| 0 <= k < old(out)@.len() ==> (#[trigger] old(out)@[k]).0@ != x.0@,
    ensures
        p <= old(out)@.len(),
        final(out)@ == old(out)@.insert(p as int, x),
        ranked(final(out)@),
{
    let mut p: usize = 0;
    while p < out.len() && before_exec(&out[p], &x)
        invariant
            p <= out.len(),
            forall|k: int| 0 <= k < p ==> entry_before(#[trigger] out@[k], x),
        decreases out.len() - p,
    {
        p += 1;
    }
    let ghost old_s = out@;
    proof {
        if p < old_s.len() {
            lemma_rank_total(old_s[p as int].1 as int, old_s[p as int].0@, x.1 as int, x.0@);
        }
    }
    out.insert(p, x);
    proof {
        let s = out@;
        assert forall|i: int, j: int| 0 <= i < j < s.len() implies entry_before(
            #[trigger] s[i],
            #[trigger] s[j],
        ) by {
            if j < p {
                assert(s[i] == old_s[i] && s[j] == old_s[j]);
            } else if j == p {
                assert(s[i] == old_s[i] && s[j] == x);
            } else if i < p {
                assert(s[i] == old_s[i] && s[j] == old_s[j - 1]);
            } else if i == p {
                assert(s[i] == x && s[j] == old_s[j - 1]);
                if j - 1 > p {
                    assert(entry_before(old_s[p as int], old_s[j - 1]));
                    lemma_rank_transitive(
                        x.1 as int,
                        x.0@,
                        old_s[p as int].1 as int,
                        old_s[p as int].0@,
                        old_s[j - 1].1 as int,
                        old_s[j - 1].0@,
                    );
                }
            } else {
                assert(s[i] == old_s[i - 1] && s[j] == old_s[j - 1]);
            }
        }
    }
    p
}

proof fn lemma_empty_multiset<A>(s: Seq<A>)
    requires
        s.len() == 0,
    ensures
        s.to_multiset() == Multiset::<A>::empty(),
{
    vstd::seq_lib::to_multiset_len(s);
    vstd::multiset::lemma_multiset_empty_len(s.to_multiset());
}

/// The entries in rank order: the same entries, the larger count first,
/// then by name.
pub fn rank_entries<T>(entries: Vec<(Vec<char>, usize, T)>) -> (r: Vec<(Vec<char>, usize, T)>)
    requires
        names_distinct(entries@),
    ensures
        ranked(r@),
        r@.to_multiset() == entries@.to_multiset(),
        r@.len() == entries@.len(),
{
    broadcast use vstd::multiset::group_multiset_axioms;

    let ghost orig = entries@;
    let mut rest = entries;
    let mut out: Vec<(Vec<char>, usize, T)> = Vec::new();
    assert(orig.take(orig.len() as int) =~= orig);
    proof {
        lemma_empty_multiset(out@);
    }
    assert(out@.to_multiset().add(rest@.to_multiset()) =~= orig.to_multiset());
    while rest.len() > 0
        invariant
            names_distinct(orig),
            rest@ == orig.take(rest@.len() as int),
            rest@.len() <= orig.len(),
            ranked(out@),
            forall|k: int, j: int|
                0 <= k < out@.len() && 0 <= j < rest@.len() ==> (#[trigger] out@[k]).0@
                    != (#[trigger] rest@[j]).0@,
            out@.to_multiset().add(rest@.to_multiset()) == orig.to_multiset(),
        decreases rest.len(),
    {
        let ghost n = rest@.len() as int;
        let ghost rest_before = rest@;
        let ghost before = out@;
        let x = rest.pop().unwrap();
        assert(x == orig[n - 1]);
        assert(rest@ =~= orig.take(n - 1));
        assert(rest_before =~= rest@.push(x));
        assert forall|k: int| 0 <= k < before.len() implies (#[trigger] before[k]).0@ != x.0@ by {
            assert(rest_before[n - 1] == x);
        }
        let p = insert_ranked(&mut out, x);
        assert forall|k: int, j: int|
            0 <= k < out@.len() && 0 <= j < rest@.len() implies (#[trigger] out@[k]).0@
                != (#[trigger] rest@[j]).0@ by {
            assert(rest@[j] == orig[j] && rest_before[j] == orig[j]);
            if k < p {
                assert(out@[k] == before[k]);
            } else if k == p {
                assert(out@[k] == orig[n - 1]);
            } else {
                assert(out@[k] == before[k - 1]);
            }
        }
        assert(out@.to_multiset().add(rest@.to_multiset()) =~= orig.to_multiset()) by {
            vstd::seq_lib::to_multiset_insert(before, p as int, x);
            vstd::seq_lib::to_multiset_build(rest@, x);
        }
    }
    proof {
        lemma_empty_multiset(rest@);
        vstd::seq_lib::to_multiset_len(out@);
        vstd::seq_lib::to_multiset_len(orig);
    }
    assert(out@.to_multiset() =~= orig.to_multiset());
    out
}

// ---------------------------------------------------------------------------
// Authors by number of documents
// ---------------------------------------------------------------------------

pub open spec fn texts(v: Seq<String>) -> Seq<Seq<char>> {
    Seq::new(v.len(), |i: int| v[i]@)
}

/// The names of the author lists, list by list, each in NFC.
pub open spec fn all_names(lists: Seq<Seq<char>>) -> Seq<Seq<char>>
    decreases lists.len(),
{
    if lists.len() == 0 {
        Seq::empty()
    } else {
        all_names(lists.drop_last()) + split_authors_spec(lists.last()).map_values(
            |n: Seq<char>| nfc(n),
        )
    }
}

/// How often `x` occurs in `s`.
pub open spec fn occurrences(s: Seq<Seq<char>>, x: Seq<char>) -> nat
    decreases s.len(),
{
    if s.len() == 0 {
        0
    } else {
        occurrences(s.drop_last(), x) + if s.last() == x {
            1nat
        } else {
            0nat
        }
    }
}

proof fn lemma_occurrences_push(s: Seq<Seq<char>>, y: Seq<char>, x: Seq<char>)
    ensures
        occurrences(s.push(y), x) == occurrences(s, x) + if y == x {
            1nat
        } else {
            0nat
        },
        occurrences(s, x) <= s.len(),
    decreases s.len(),
{
    assert(s.push(y).drop_last() =~= s);
    if s.len() > 0 {
        lemma_occurrences_push(s.drop_last(), s.last(), x);
        assert(s.drop_last().push(s.last()) =~= s);
    }
}

proof fn lemma_all_names_prefix(lists: Seq<Seq<char>>, i: int, j: int)
    requires
        0 <= i <= j <= lists.len(),
    ensures
        all_names(lists.take(i)).len() <= all_names(lists.take(j)).len(),
    decreases j - i,
{
    if i < j {
        lemma_all_names_prefix(lists, i, j - 1);
        assert(lists.take(j).drop_last() =~= lists.take(j - 1));
    }
}

fn find_name(names: &Vec<Vec<char>>, x: &Vec<char>) -> (r: Option<usize>)
    ensures
        r matches Some(a) ==> a < names.len() && names@[a as int]@ == x@,
        r is None ==> forall|a: int| 0 <= a < names.len() ==> (#[trigger] names@[a])@ != x@,
{
    let mut a: usize = 0;
    while a < names.len()
        invariant
            a <= names.len(),
            forall|b: int| 0 <= b < a ==> (#[trigger] names@[b])@ != x@,
        decreases names.len() - a,
    {
        if eq_chars(&names[a], x) {
            return Some(a);
        }
        a += 1;
    }
    None
}

/// The distinct names of the author lists with how often each occurs.
fn count_names(author_lists: &Vec<String>) -> (r: (Vec<Vec<char>>, Vec<usize>))
    requires
        all_names(texts(author_lists@)).len() < usize::MAX,
    ensures
        r.0.len() == r.1.len(),
        forall|a: int, b: int|
            0 <= a < b < r.0.len() ==> (#[trigger] r.0@[a])@ != (#[trigger] r.0@[b])@,
        forall|a: int|
            0 <= a < r.0.len() ==> r.1@[a] == occurrences(
                all_names(texts(author_lists@)),
                (#[trigger] r.0@[a])@,
            ) && all_names(texts(author_lists@)).contains(r.0@[a]@),
        forall|x: Seq<char>|
            all_names(texts(author_lists@)).contains(x) ==> exists|a: int|
                0 <= a < r.0.len() && (#[trigger] r.0@[a])@ == x,
{
    let ghost lists = texts(author_lists@);
    let mut names: Vec<Vec<char>> = Vec::new();
    let mut counts: Vec<usize> = Vec::new();
    let ghost mut seen: Seq<Seq<char>> = Seq::empty();
    let mut i: usize = 0;
    assert(lists.take(0) =~= Seq::<Seq<char>>::empty());
    while i < author_lists.len()
        invariant
            lists == texts(author_lists@),
            all_names(lists).len() < usize::MAX,
            i <= author_lists.len(),
            seen == all_names(lists.take(i as int)),
            names.len() == counts.len(),
            forall|a: int, b: int|
                0 <= a < b < names.len() ==> (#[trigger] names@[a])@ != (#[trigger] names@[b])@,
            forall|a: int|
                0 <= a < names.len() ==> counts@[a] == occurrences(seen, (#[trigger] names@[a])@)
                    && seen.contains(names@[a]@),
            forall|x: Seq<char>|
                seen.contains(x) ==> exists|a: int| 0 <= a < names.len() && (#[trigger] names@[a])@ == x,
        decreases author_lists.len() - i,
    {
        let parts = split_authors_chars(&chars_of(author_lists[i].as_str()));
        let ghost base = seen;
        let ghost mapped = split_authors_spec(lists[i as int]).map_values(|n: Seq<char>| nfc(n));
        proof {
            assert(lists.take(i + 1).drop_last() =~= lists.take(i as int));
            assert(lists.take(i + 1).last() == lists[i as int]);
            lemma_all_names_prefix(lists, i + 1, lists.len() as int);
            assert(lists.take(lists.len() as int) =~= lists);
        }
        let mut k: usize = 0;
        assert(mapped.take(0) =~= Seq::<Seq<char>>::empty());
        assert(base + mapped.take(0) =~= base);
        while k < parts.len()
            invariant
                lists == texts(author_lists@),
                i < author_lists.len(),
                parts.deep_view() == split_authors_spec(lists[i as int]),
                mapped == split_authors_spec(lists[i as int]).map_values(|n: Seq<char>| nfc(n)),
                base == all_names(lists.take(i as int)),
                (base + mapped).len() < usize::MAX,
                k <= parts.len(),
                seen == base + mapped.take(k as int),
                names.len() == counts.len(),
                forall|a: int, b: int|
                    0 <= a < b < names.len() ==> (#[trigger] names@[a])@ != (#[trigger] names@[b])@,
                forall|a: int|
                    0 <= a < names.len() ==> counts@[a] == occurrences(seen, (#[trigger] names@[a])@)
                        && seen.contains(names@[a]@),
                forall|x: Seq<char>|
                    seen.contains(x) ==> exists|a: int|
                        0 <= a < names.len() && (#[trigger] names@[a])@ == x,
            decreases parts.len() - k,
        {
            assert(parts.deep_view()[k as int] == parts@[k as int]@);
            let nm = chars_of(normalize_nfc(string_from_chars(&parts[k]).as_str()).as_str());
            assert(nm@ == mapped[k as int]);
            let ghost prev = seen;
            proof {
                seen = seen.push(nm@);
                assert(seen =~= base + mapped.take(k + 1));
                assert(seen.len() <= (base + mapped).len());
                assert forall|x: Seq<char>| #![auto] prev.contains(x) implies seen.contains(x) by {
                    let j = choose|j: int| 0 <= j < prev.len() && prev[j] == x;
                    assert(seen[j] == x);
                }
                assert(seen[seen.len() - 1] == nm@);
            }
            match find_name(&names, &nm) {
                Some(a) => {
                    proof {
                        lemma_occurrences_push(prev, nm@, nm@);
                    }
                    let c = counts[a];
                    counts.set(a, c + 1);
                    assert forall|b: int|
                        0 <= b < names.len() implies counts@[b] == occurrences(
                        seen,
                        (#[trigger] names@[b])@,
                    ) && seen.contains(names@[b]@) by {
                        lemma_occurrences_push(prev, nm@, names@[b]@);
                    }
                    assert forall|x: Seq<char>| seen.contains(x) implies exists|b: int|
                        0 <= b < names.len() && (#[trigger] names@[b])@ == x by {
                        if x != nm@ {
                            let j = choose|j: int| 0 <= j < seen.len() && seen[j] == x;
                            assert(prev[j] == x);
                            assert(prev.contains(x));
                        } else {
                            assert(names@[a as int]@ == x);
                        }
                    }
                },
                None => {
                    proof {
                        lemma_occurrences_push(prev, nm@, nm@);
                        if prev.contains(nm@) {
                            let b = choose|b: int| 0 <= b < names.len() && names@[b]@ == nm@;
                            assert(false);
                        }
                        assert(occurrences(prev, nm@) == 0) by {
                            lemma_not_contained(prev, nm@);
                        }
                    }
                    let ghost old_names = names@;
                    names.push(nm);
                    counts.push(1);
                    assert forall|b: int|
                        0 <= b < names.len() implies counts@[b] == occurrences(
                        seen,
                        (#[trigger] names@[b])@,
                    ) && seen.contains(names@[b]@) by {
                        lemma_occurrences_push(prev, seen[seen.len() - 1], names@[b]@);
                        if b < old_names.len() {
                            assert(names@[b] == old_names[b]);
                        }
                    }
                    assert forall|x: Seq<char>| seen.contains(x) implies exists|b: int|
                        0 <= b < names.len() && (#[trigger] names@[b])@ == x by {
                        if x != seen[seen.len() - 1] {
                            let j = choose|j: int| 0 <= j < seen.len() && seen[j] == x;
                            assert(prev[j] == x);
                            assert(prev.contains(x));
                            let b = choose|b: int| 0 <= b < old_names.len() && old_names[b]@ == x;
                            assert(names@[b] == old_names[b]);
                        } else {
                            assert(names@[names.len() - 1]@ == x);
                        }
                    }
                },
            }
            k += 1;
        }
        assert(mapped.take(parts.len() as int) =~= mapped);
        i += 1;
    }
    assert(lists.take(author_lists.len() as int) =~= lists);
    (names, counts)
}

proof fn lemma_not_contained(s: Seq<Seq<char>>, x: Seq<char>)
    requires
        !s.contains(x),
    ensures
        occurrences(s, x) == 0,
    decreases s.len(),
{
    if s.len() > 0 {
        assert(!s.drop_last().contains(x)) by {
            if s.drop_last().contains(x) {
                let j = choose|j: int| 0 <= j < s.drop_last().len() && s.drop_last()[j] == x;
                assert(s[j] == x);
            }
        }
        assert(s[s.len() - 1] != x);
        lemma_not_contained(s.drop_last(), x);
    }
}

proof fn lemma_same_members<T>(r: Seq<(Vec<char>, usize, T)>, e: Seq<(Vec<char>, usize, T)>)
    requires
        r.to_multiset() == e.to_multiset(),
    ensures
        forall|i: int| 0 <= i < r.len() ==> e.contains(#[trigger] r[i]),
        forall|j: int| 0 <= j < e.len() ==> r.contains(#[trigger] e[j]),
{
    assert forall|i: int| 0 <= i < r.len() implies e.contains(#[trigger] r[i]) by {
        vstd::seq_lib::to_multiset_contains(r, r[i]);
        vstd::seq_lib::to_multiset_contains(e, r[i]);
        assert(r.contains(r[i]));
    }
    assert forall|j: int| 0 <= j < e.len() implies r.contains(#[trigger] e[j]) by {
        vstd::seq_lib::to_multiset_contains(r, e[j]);
        vstd::seq_lib::to_multiset_contains(e, e[j]);
        assert(e.contains(e[j]));
    }
}

/// A name listed with its count: it occurs in the author lists, `count`
/// times, and at least `min_count` times.
pub open spec fn counted_name(ns: Seq<Seq<char>>, min_count: usize, name: Seq<char>, count: int) -> bool {
    &&& ns.contains(name)
    &&& count == occurrences(ns, name)
    &&& count >= min_count
}

fn qualifying_names(
    names: &Vec<Vec<char>>,
    counts: &Vec<usize>,
    min_count: usize,
    Ghost(ns): Ghost<Seq<Seq<char>>>,
) -> (r: Vec<(Vec<char>, usize, ())>)
    requires
        names.len() == counts.len(),
        forall|a: int, b: int|
            0 <= a < b < names.len() ==> (#[trigger] names@[a])@ != (#[trigger] names@[b])@,
        forall|a: int|
            0 <= a < names.len() ==> counts@[a] == occurrences(ns, (#[trigger] names@[a])@)
                && ns.contains(names@[a]@),
        forall|x: Seq<char>|
            ns.contains(x) ==> exists|a: int| 0 <= a < names.len() && (#[trigger] names@[a])@ == x,
    ensures
        names_distinct(r@),
        forall|j: int|
            0 <= j < r@.len() ==> counted_name(ns, min_count, (#[trigger] r@[j]).0@, r@[j].1 as int),
        forall|x: Seq<char>|
            ns.contains(x) && occurrences(ns, x) >= min_count ==> exists|j: int|
                0 <= j < r@.len() && (#[trigger] r@[j]).0@ == x,
{
    let mut r: Vec<(Vec<char>, usize, ())> = Vec::new();
    let ghost mut idx: Seq<int> = Seq::empty();
    let mut a: usize = 0;
    while a < names.len()
        invariant
            names.len() == counts.len(),
            a <= names.len(),
            r@.len() == idx.len(),
            forall|b1: int, b2: int|
                0 <= b1 < b2 < names.len() ==> (#[trigger] names@[b1])@ != (#[trigger] names@[b2])@,
            forall|j: int|
                0 <= j < r@.len() ==> 0 <= #[trigger] idx[j] < a && r@[j].0@ == names@[idx[j]]@
                    && r@[j].1 == counts@[idx[j]] && counts@[idx[j]] >= min_count,
            forall|j1: int, j2: int| 0 <= j1 < j2 < r@.len() ==> #[trigger] idx[j1] < #[trigger] idx[j2],
            forall|b: int|
                0 <= b < a && counts@[b] >= min_count ==> exists|j: int|
                    0 <= j < r@.len() && #[trigger] idx[j] == b,
        decreases names.len() - a,
    {
        let ghost idx_before = idx;
        let ghost len_before = r@.len();
        if counts[a] >= min_count {
            let copy = slice_of(&names[a], 0, names[a].len());
            assert(copy@ =~= names@[a as int]@);
            let ghost old_len = r@.len();
            r.push((copy, counts[a], ()));
            proof {
                idx = idx.push(a as int);
                assert(idx[old_len as int] == a);
            }
        }
        assert forall|b: int|
            0 <= b < a + 1 && counts@[b] >= min_count implies exists|j: int|
                0 <= j < r@.len() && #[trigger] idx[j] == b by {
            if b < a {
                let j = choose|j: int| 0 <= j < len_before && #[trigger] idx_before[j] == b;
                assert(idx[j] == b);
            } else {
                assert(idx[len_before as int] == b);
            }
        }
        a += 1;
    }
    assert forall|j1: int, j2: int| 0 <= j1 < j2 < r@.len() implies (#[trigger] r@[j1]).0@
        != (#[trigger] r@[j2]).0@ by {
        assert(idx[j1] < idx[j2]);
    }
    assert forall|j: int| 0 <= j < r@.len() implies counted_name(
        ns,
        min_count,
        (#[trigger] r@[j]).0@,
        r@[j].1 as int,
    ) by {
        assert(0 <= idx[j] < names.len());
    }
    assert forall|x: Seq<char>| ns.contains(x) && occurrences(ns, x) >= min_count implies exists|j: int|
        0 <= j < r@.len() && (#[trigger] r@[j]).0@ == x by {
        let b = choose|b: int| 0 <= b < names.len() && (#[trigger] names@[b])@ == x;
        let j = choose|j: int| 0 <= j < r@.len() && #[trigger] idx[j] == b;
        assert(r@[j].0@ == x);
    }
    r
}

/// The names of the author lists (each list a document's authors) with
/// the number of times each occurs, those that occur at least `min_count`
/// times, the most frequent first and equally frequent ones by name.
pub fn list_authors(author_lists: &Vec<String>, min_count: usize) -> (r: Vec<(String, i64)>)
    requires
        all_names(texts(author_lists@)).len() < usize::MAX,
        all_names(texts(author_lists@)).len() <= i64::MAX,
    ensures
        forall|i: int, j: int|
            0 <= i < j < r@.len() ==> ranks_before(
                (#[trigger] r@[i]).1 as int,
                r@[i].0@,
                (#[trigger] r@[j]).1 as int,
                r@[j].0@,
            ),
        forall|i: int|
            0 <= i < r@.len() ==> counted_name(
                all_names(texts(author_lists@)),
                min_count,
                (#[trigger] r@[i]).0@,
                r@[i].1 as int,
            ),
        forall|x: Seq<char>|
            all_names(texts(author_lists@)).contains(x) && occurrences(
                all_names(texts(author_lists@)),
                x,
            ) >= min_count ==> exists|i: int| 0 <= i < r@.len() && (#[trigger] r@[i]).0@ == x,
{
    let ghost ns = all_names(texts(author_lists@));
    let (names, counts) = count_names(author_lists);
    let entries = qualifying_names(&names, &counts, min_count, Ghost(ns));
    let ghost e = entries@;
    let ranked = rank_entries(entries);
    proof {
        lemma_same_members(ranked@, e);
        assert forall|i: int| 0 <= i < ranked@.len() implies counted_name(
            ns,
            min_count,
            (#[trigger] ranked@[i]).0@,
            ranked@[i].1 as int,
        ) by {
            assert(e.contains(ranked@[i]));
            let j = choose|j: int| 0 <= j < e.len() && e[j] == ranked@[i];
            assert(counted_name(ns, min_count, e[j].0@, e[j].1 as int));
        }
    }
    let mut out: Vec<(String, i64)> = Vec::new();
    let mut i: usize = 0;
    while i < ranked.len()
        invariant
            i <= ranked.len(),
            ns.len() <= i64::MAX,
            out@.len() == i,
            forall|k: int|
                0 <= k < ranked@.len() ==> counted_name(
                    ns,
                    min_count,
                    (#[trigger] ranked@[k]).0@,
                    ranked@[k].1 as int,
                ),
            forall|k: int|
                0 <= k < i ==> (#[trigger] out@[k]).0@ == ranked@[k].0@ && out@[k].1 == ranked@[k].1,
        decreases ranked.len() - i,
    {
        proof {
            assert(counted_name(ns, min_count, ranked@[i as int].0@, ranked@[i as int].1 as int));
            lemma_occurrences_push(ns, Seq::empty(), ranked@[i as int].0@);
        }
        out.push((string_from_chars(&ranked[i].0), ranked[i].1 as i64));
        i += 1;
    }
    proof {
        assert forall|x: Seq<char>| ns.contains(x) && occurrences(ns, x) >= min_count implies exists|i: int|
            0 <= i < out@.len() && (#[trigger] out@[i]).0@ == x by {
            let j = choose|j: int| 0 <= j < e.len() && (#[trigger] e[j]).0@ == x;
            assert(ranked@.contains(e[j]));
            let k = choose|k: int| 0 <= k < ranked@.len() && ranked@[k] == e[j];
            assert(out@[k].0@ == x);
        }
        assert forall|a: int, b: int| 0 <= a < b < out@.len() implies ranks_before(
            (#[trigger] out@[a]).1 as int,
            out@[a].0@,
            (#[trigger] out@[b]).1 as int,
            out@[b].0@,
        ) by {
            assert(entry_before(ranked@[a], ranked@[b]));
        }
    }
    out
}

// ---------------------------------------------------------------------------
// Journals proposed as series
// ---------------------------------------------------------------------------

pub open spec fn rows_view(rows: Seq<(i64, String)>) -> Seq<(i64, Seq<char>)> {
    Seq::new(rows.len(), |i: int| (rows[i].0, rows[i].1@))
}

/// The document ids of the rows with journal `j`, in row order.
pub open spec fn ids_for(rows: Seq<(i64, Seq<char>)>, j: Seq<char>) -> Seq<i64>
    decreases rows.len(),
{
    if rows.len() == 0 {
        Seq::empty()
    } else {
        let p = ids_for(rows.drop_last(), j);
        if rows.last().1 == j {
            p.push(rows.last().0)
        } else {
            p
        }
    }
}

/// A journal that is proposed as a series: it has two or more documents
/// and no series of that name exists yet.
pub open spec fn proposed(rows: Seq<(i64, Seq<char>)>, existing: Seq<Seq<char>>, j: Seq<char>) -> bool {
    ids_for(rows, j).len() >= 2 && !existing.contains(j)
}

pub(crate) proof fn lemma_ids_for_occurs(rows: Seq<(i64, Seq<char>)>, j: Seq<char>)
    requires
        ids_for(rows, j).len() > 0,
    ensures
        exists|k: int| 0 <= k < rows.len() && (#[trigger] rows[k]).1 == j,
    decreases rows.len(),
{
    if rows.last().1 != j {
        lemma_ids_for_occurs(rows.drop_last(), j);
        let k = choose|k: int| 0 <= k < rows.drop_last().len() && (#[trigger] rows.drop_last()[k]).1 == j;
        assert(rows[k] == rows.drop_last()[k]);
    } else {
        assert(rows[rows.len() - 1].1 == j);
    }
}

fn copy_ids(v: &Vec<i64>) -> (r: Vec<i64>)
    ensures
        r@ == v@,
{
    let mut r: Vec<i64> = Vec::new();
    let mut i: usize = 0;
    while i < v.len()
        invariant
            i <= v.len(),
            r@ == v@.take(i as int),
        decreases v.len() - i,
    {
        r.push(v[i]);
        assert(r@ =~= v@.take(i + 1));
        i += 1;
    }
    assert(v@.take(v.len() as int) =~= v@);
    r
}

/// Some entry of `names` spells `x`.
pub open spec fn has_name(names: Seq<Vec<char>>, x: Seq<char>) -> bool {
    exists|a: int| 0 <= a < names.len() && (#[trigger] names[a])@ == x
}

/// The distinct journals of the rows with the ids of their documents.
pub(crate) fn group_by_journal(rows: &Vec<(i64, String)>) -> (r: (Vec<Vec<char>>, Vec<Vec<i64>>))
    ensures
        r.0.len() == r.1.len(),
        forall|a: int, b: int|
            0 <= a < b < r.0.len() ==> (#[trigger] r.0@[a])@ != (#[trigger] r.0@[b])@,
        forall|a: int|
            0 <= a < r.0.len() ==> r.1@[a]@ == ids_for(rows_view(rows@), (#[trigger] r.0@[a])@),
        forall|k: int| 0 <= k < rows@.len() ==> has_name(r.0@, (#[trigger] rows@[k]).1@),
{
    let ghost rv = rows_view(rows@);
    let mut names: Vec<Vec<char>> = Vec::new();
    let mut ids: Vec<Vec<i64>> = Vec::new();
    let mut i: usize = 0;
    while i < rows.len()
        invariant
            rv == rows_view(rows@),
            i <= rows.len(),
            names.len() == ids.len(),
            forall|a: int, b: int|
                0 <= a < b < names.len() ==> (#[trigger] names@[a])@ != (#[trigger] names@[b])@,
            forall|a: int|
                0 <= a < names.len() ==> ids@[a]@ == ids_for(rv.take(i as int), (#[trigger] names@[a])@),
            forall|k: int| 0 <= k < i ==> has_name(names@, (#[trigger] rv[k]).1),
        decreases rows.len() - i,
    {
        let j = chars_of(rows[i].1.as_str());
        let id = rows[i].0;
        let ghost prefix = rv.take(i as int);
        let ghost next = rv.take(i + 1);
        assert(next.drop_last() =~= prefix);
        assert(next.last() == (id, j@));
        let ghost names_before = names@;
        match find_name(&names, &j) {
            Some(a) => {
                let mut v = copy_ids(&ids[a]);
                v.push(id);
                ids.set(a, v);
                assert forall|b: int|
                    0 <= b < names.len() implies ids@[b]@ == ids_for(next, (#[trigger] names@[b])@) by {
                    if b == a {
                    } else {
                        assert(names@[b]@ != j@);
                    }
                }
                assert forall|k: int| 0 <= k < i + 1 implies has_name(names@, (#[trigger] rv[k]).1) by {
                    if k == i {
                        assert(names@[a as int]@ == rv[k].1);
                    }
                }
            },
            None => {
                let mut v: Vec<i64> = Vec::new();
                v.push(id);
                proof {
                    lemma_ids_for_absent(rv, i as int, j@, names@);
                }
                names.push(j);
                ids.push(v);
                assert forall|b: int|
                    0 <= b < names.len() implies ids@[b]@ == ids_for(next, (#[trigger] names@[b])@) by {
                    if b < names.len() - 1 {
                        assert(names@[b] == names_before[b]);
                        assert(names@[b]@ != j@);
                    } else {
                        assert(v@ =~= Seq::<i64>::empty().push(id));
                    }
                }
                assert forall|k: int| 0 <= k < i + 1 implies has_name(names@, (#[trigger] rv[k]).1) by {
                    if k == i {
                        assert(names@[names.len() - 1]@ == rv[k].1);
                    } else {
                        assert(has_name(names_before, rv[k].1));
                        let b = choose|b: int| 0 <= b < names_before.len() && (#[trigger] names_before[b])@ == rv[k].1;
                        assert(names@[b] == names_before[b]);
                    }
                }
            },
        }
        i += 1;
    }
    assert(rv.take(rows.len() as int) =~= rv);
    assert forall|k: int| 0 <= k < rows@.len() implies has_name(names@, (#[trigger] rows@[k]).1@) by {
        assert(rv[k].1 == rows@[k].1@);
    }
    (names, ids)
}

/// A journal that is not among the grouped names has no rows.
proof fn lemma_ids_for_absent(rv: Seq<(i64, Seq<char>)>, i: int, j: Seq<char>, names: Seq<Vec<char>>)
    requires
        0 <= i <= rv.len(),
        forall|k: int| 0 <= k < i ==> has_name(names, (#[trigger] rv[k]).1),
        forall|a: int| 0 <= a < names.len() ==> (#[trigger] names[a])@ != j,
    ensures
        ids_for(rv.take(i), j) == Seq::<i64>::empty(),
{
    let rows = rv.take(i);
    if ids_for(rows, j).len() > 0 {
        lemma_ids_for_occurs(rows, j);
        let k = choose|k: int| 0 <= k < rows.len() && (#[trigger] rows[k]).1 == j;
        assert(rows[k] == rv[k]);
        assert(has_name(names, rv[k].1));
        let a = choose|a: int| 0 <= a < names.len() && (#[trigger] names[a])@ == rv[k].1;
    }
}

fn contains_text(v: &Vec<String>, x: &Vec<char>) -> (r: bool)
    ensures
        r == texts(v@).contains(x@),
{
    let mut i: usize = 0;
    while i < v.len()
        invariant
            i <= v.len(),
            forall|k: int| 0 <= k < i ==> (#[trigger] v@[k])@ != x@,
        decreases v.len() - i,
    {
        if eq_chars(&chars_of(v[i].as_str()), x) {
            assert(texts(v@)[i as int] == x@);
            return true;
        }
        i += 1;
    }
    assert(!texts(v@).contains(x@)) by {
        if texts(v@).contains(x@) {
            let k = choose|k: int| 0 <= k < texts(v@).len() && texts(v@)[k] == x@;
            assert(v@[k]@ == x@);
        }
    }
    false
}

/// A proposal for journal `e.0` as the ranking carries it.
pub open spec fn proposal_entry(
    rv: Seq<(i64, Seq<char>)>,
    ev: Seq<Seq<char>>,
    e: (Vec<char>, usize, SeriesProposal),
) -> bool {
    &&& e.2.name@ == e.0@
    &&& e.2.publisher is None
    &&& e.2.document_ids@ == ids_for(rv, e.0@)
    &&& e.1 == e.2.document_ids@.len()
    &&& proposed(rv, ev, e.0@)
}

fn proposal_entries(
    names: &Vec<Vec<char>>,
    ids: &Vec<Vec<i64>>,
    existing: &Vec<String>,
    Ghost(rv): Ghost<Seq<(i64, Seq<char>)>>,
) -> (r: Vec<(Vec<char>, usize, SeriesProposal)>)
    requires
        names.len() == ids.len(),
        forall|a: int, b: int|
            0 <= a < b < names.len() ==> (#[trigger] names@[a])@ != (#[trigger] names@[b])@,
        forall|a: int| 0 <= a < names.len() ==> ids@[a]@ == ids_for(rv, (#[trigger] names@[a])@),
        forall|k: int| 0 <= k < rv.len() ==> has_name(names@, (#[trigger] rv[k]).1),
    ensures
        names_distinct(r@),
        forall|j: int| 0 <= j < r@.len() ==> proposal_entry(rv, texts(existing@), #[trigger] r@[j]),
        forall|x: Seq<char>|
            proposed(rv, texts(existing@), x) ==> exists|j: int| 0 <= j < r@.len() && (#[trigger] r@[j]).0@ == x,
{
    let ghost ev = texts(existing@);
    let mut r: Vec<(Vec<char>, usize, SeriesProposal)> = Vec::new();
    let ghost mut idx: Seq<int> = Seq::empty();
    let mut a: usize = 0;
    while a < names.len()
        invariant
            ev == texts(existing@),
            names.len() == ids.len(),
            a <= names.len(),
            r@.len() == idx.len(),
            forall|b1: int, b2: int|
                0 <= b1 < b2 < names.len() ==> (#[trigger] names@[b1])@ != (#[trigger] names@[b2])@,
            forall|b: int| 0 <= b < names.len() ==> ids@[b]@ == ids_for(rv, (#[trigger] names@[b])@),
            forall|j: int|
                0 <= j < r@.len() ==> 0 <= #[trigger] idx[j] < a && r@[j].0@ == names@[idx[j]]@
                    && proposal_entry(rv, ev, r@[j]),
            forall|j1: int, j2: int| 0 <= j1 < j2 < r@.len() ==> #[trigger] idx[j1] < #[trigger] idx[j2],
            forall|b: int|
                0 <= b < a && proposed(rv, ev, (#[trigger] names@[b])@) ==> exists|j: int|
                    0 <= j < r@.len() && #[trigger] idx[j] == b,
        decreases names.len() - a,
    {
        let ghost idx_before = idx;
        let ghost len_before = r@.len();
        if ids[a].len() >= 2 && !contains_text(existing, &names[a]) {
            let key = slice_of(&names[a], 0, names[a].len());
            assert(key@ =~= names@[a as int]@);
            let p = SeriesProposal {
                name: string_from_chars(&names[a]),
                publisher: None,
                document_ids: copy_ids(&ids[a]),
            };
            let n = ids[a].len();
            r.push((key, n, p));
            proof {
                idx = idx.push(a as int);
                assert(idx[len_before as int] == a);
            }
        }
        assert forall|b: int|
            0 <= b < a + 1 && proposed(rv, ev, (#[trigger] names@[b])@) implies exists|j: int|
                0 <= j < r@.len() && #[trigger] idx[j] == b by {
            if b < a {
                let j = choose|j: int| 0 <= j < len_before && #[trigger] idx_before[j] == b;
                assert(idx[j] == b);
            } else {
                assert(idx[len_before as int] == b);
            }
        }
        a += 1;
    }
    assert forall|j1: int, j2: int| 0 <= j1 < j2 < r@.len() implies (#[trigger] r@[j1]).0@
        != (#[trigger] r@[j2]).0@ by {
        assert(idx[j1] < idx[j2]);
    }
    assert forall|j: int| 0 <= j < r@.len() implies proposal_entry(rv, ev, #[trigger] r@[j]) by {
        assert(0 <= idx[j]);
    }
    assert forall|x: Seq<char>| proposed(rv, ev, x) implies exists|j: int|
        0 <= j < r@.len() && (#[trigger] r@[j]).0@ == x by {
        lemma_ids_for_occurs(rv, x);
        let k = choose|k: int| 0 <= k < rv.len() && (#[trigger] rv[k]).1 == x;
        assert(has_name(names@, rv[k].1));
        let b = choose|b: int| 0 <= b < names@.len() && (#[trigger] names@[b])@ == rv[k].1;
        assert(proposed(rv, ev, names@[b]@));
        let j = choose|j: int| 0 <= j < r@.len() && #[trigger] idx[j] == b;
        assert(r@[j].0@ == x);
    }
    r
}

/// The journals of the rows (each a document id and its journal) that
/// have two or more documents and no series of that name among `existing`,
/// each proposed as a series of those documents in row order; the largest
/// first, equally large ones by name.
pub fn propose_series_by_journal(rows: &Vec<(i64, String)>, existing: &Vec<String>) -> (r: Vec<
    SeriesProposal,
>)
    ensures
        forall|i: int, j: int|
            0 <= i < j < r@.len() ==> ranks_before(
                (#[trigger] r@[i]).document_ids@.len() as int,
                r@[i].name@,
                (#[trigger] r@[j]).document_ids@.len() as int,
                r@[j].name@,
            ),
        forall|i: int|
            0 <= i < r@.len() ==> {
                &&& (#[trigger] r@[i]).publisher is None
                &&& r@[i].document_ids@ == ids_for(rows_view(rows@), r@[i].name@)
                &&& proposed(rows_view(rows@), texts(existing@), r@[i].name@)
            },
        forall|x: Seq<char>|
            proposed(rows_view(rows@), texts(existing@), x) ==> exists|i: int|
                0 <= i < r@.len() && (#[trigger] r@[i]).name@ == x,
{
    let ghost rv = rows_view(rows@);
    let ghost ev = texts(existing@);
    let (names, ids) = group_by_journal(rows);
    let entries = proposal_entries(&names, &ids, existing, Ghost(rv));
    let ghost e = entries@;
    let mut ranked = rank_entries(entries);
    let ghost rk = ranked@;
    proof {
        lemma_same_members(rk, e);
        assert forall|i: int| 0 <= i < rk.len() implies proposal_entry(rv, ev, #[trigger] rk[i]) by {
            assert(e.contains(rk[i]));
            let j = choose|j: int| 0 <= j < e.len() && e[j] == rk[i];
            assert(proposal_entry(rv, ev, e[j]));
        }
    }
    let mut out: Vec<SeriesProposal> = Vec::new();
    assert(rk.skip(0) =~= rk);
    while ranked.len() > 0
        invariant
            out@.len() + ranked@.len() == rk.len(),
            ranked@ == rk.skip(out@.len() as int),
            forall|k: int| 0 <= k < out@.len() ==> #[trigger] out@[k] == rk[k].2,
        decreases ranked.len(),
    {
        let ghost k = out@.len() as int;
        let x = ranked.remove(0);
        assert(x == rk[k]);
        assert(ranked@ =~= rk.skip(k + 1));
        out.push(x.2);
    }
    proof {
        assert forall|x: Seq<char>| proposed(rv, ev, x) implies exists|i: int|
            0 <= i < out@.len() && (#[trigger] out@[i]).name@ == x by {
            let j = choose|j: int| 0 <= j < e.len() && (#[trigger] e[j]).0@ == x;
            assert(rk.contains(e[j]));
            let k = choose|k: int| 0 <= k < rk.len() && rk[k] == e[j];
            assert(proposal_entry(rv, ev, rk[k]));
            assert(out@[k].name@ == x);
        }
        assert forall|a: int, b: int| 0 <= a < b < out@.len() implies ranks_before(
            (#[trigger] out@[a]).document_ids@.len() as int,
            out@[a].name@,
            (#[trigger] out@[b]).document_ids@.len() as int,
            out@[b].name@,
        ) by {
            assert(entry_before(rk[a], rk[b]));
            assert(proposal_entry(rv, ev, rk[a]));
            assert(proposal_entry(rv, ev, rk[b]));
        }
        assert forall|i: int| 0 <= i < out@.len() implies {
            &&& (#[trigger] out@[i]).publisher is None
            &&& out@[i].document_ids@ == ids_for(rv, out@[i].name@)
            &&& proposed(rv, ev, out@[i].name@)
        } by {
            assert(proposal_entry(rv, ev, rk[i]));
        }
    }
    out
}

} // verus!
