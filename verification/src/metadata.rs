//! Checks and parsing of the document-information strings of a PDF
//! (Title, Subject, Author).
use vstd::prelude::*;
use crate::authors::{looks_like_initial_spec, merge_initial_parts, merge_initials_spec};
use crate::text::{
    byte_len, byte_len_exec, chars_of, contains, contains_char, contains_str, count_class,
    count_class_exec, eq_str, find, find_char, find_char_exec, find_ci, find_ci_exec, find_str,
    is_digit, lemma_byte_len_bounds, lemma_chars_deep_view, lemma_count_class_le,
    lemma_find, lemma_find_char_from, lemma_split_char_absent, lemma_trim_is_trimmed,
    lemma_trim_of_trimmed, lower, push_piece, slice_of, split_char, split_char_exec,
    starts_with, starts_with_str, string_from_chars, strings_of, trim, trim_exec,
    unicode_lower, words, words_exec, CountClass,
};

verus! {

// ---------------------------------------------------------------------------
// Plausibility
// ---------------------------------------------------------------------------

/// Number of ASCII digits at the start of `s`.
pub open spec fn leading_digits(s: Seq<char>) -> nat
    decreases s.len(),
{
    if s.len() > 0 && is_digit(s[0]) {
        1 + leading_digits(s.drop_first())
    } else {
        0
    }
}

/// After the first "10." (case-insensitive) come at least four digits and a
/// '/' no further than right after the digits (positions in bytes).
pub open spec fn has_doi_pattern_spec(s: Seq<char>) -> bool {
    let l = unicode_lower(s);
    match find(l, "10."@) {
        Some(pos) => {
            let rest = l.skip(pos + 3);
            let d = leading_digits(rest);
            if d >= 4 {
                match find_char(rest, '/') {
                    Some(j) => byte_len(rest.take(j)) <= d,
                    None => false,
                }
            } else {
                false
            }
        },
        None => false,
    }
}

fn leading_digits_exec(s: &Vec<char>) -> (n: usize)
    ensures
        n == leading_digits(s@),
{
    let mut i: usize = 0;
    while i < s.len() && crate::text::char_is_digit(s[i])
        invariant
            i <= s.len(),
            forall|j: int| 0 <= j < i ==> is_digit(#[trigger] s@[j]),
        decreases s.len() - i,
    {
        i += 1;
    }
    proof {
        lemma_leading_digits(s@, i as int);
    }
    i
}

proof fn lemma_leading_digits(s: Seq<char>, i: int)
    requires
        0 <= i <= s.len(),
        forall|j: int| 0 <= j < i ==> is_digit(#[trigger] s[j]),
        i == s.len() || !is_digit(s[i]),
    ensures
        leading_digits(s) == i,
    decreases i,
{
    if i > 0 {
        let t = s.drop_first();
        assert forall|j: int| 0 <= j < i - 1 implies is_digit(#[trigger] t[j]) by {
            assert(t[j] == s[j + 1]);
        }
        if i - 1 < t.len() {
            assert(t[i - 1] == s[i]);
        }
        lemma_leading_digits(t, i - 1);
    }
}

/// A DOI-like "10.NNNN/" pattern occurs.
pub fn has_doi_pattern(s: &Vec<char>) -> (b: bool)
    ensures
        b == has_doi_pattern_spec(s@),
{
    let l = lower(s);
    match find_str(&l, "10.") {
        Some(pos) => {
            proof {
                lemma_find(l@, "10."@);
                reveal_strlit("10.");
            }
            assert(pos + 3 <= l.len());
            let rest = slice_of(&l, pos + 3, l.len());
            assert(rest@ =~= l@.skip(pos + 3));
            let d = leading_digits_exec(&rest);
            if d >= 4 {
                match find_char_exec(&rest, '/') {
                    Some(j) => {
                        proof {
                            lemma_find_char_from(rest@, '/', 0);
                        }
                        let pre = slice_of(&rest, 0, j);
                        assert(pre@ =~= rest@.take(j as int));
                        byte_len_exec(&pre) <= d as u128
                    },
                    None => false,
                }
            } else {
                false
            }
        },
        None => false,
    }
}

/// No NUL, tab, ":null", "-null" or DOI pattern; not empty; at least three
/// quarters of the characters printable.
pub open spec fn is_plausible_metadata_spec(s: Seq<char>) -> bool {
    !s.contains('\0') && !s.contains('\t') && !contains(s, ":null"@) && !contains(s, "-null"@)
        && !has_doi_pattern_spec(s) && s.len() > 0 && count_class(s, CountClass::Printable) > 0
        && count_class(s, CountClass::Printable) * 4 >= s.len() * 3
}

/// A metadata string that looks like real text rather than noise.
pub fn is_plausible_metadata(s: &str) -> (b: bool)
    ensures
        b == is_plausible_metadata_spec(s@),
{
    let v = chars_of(s);
    plausible_metadata_chars(&v)
}

fn plausible_metadata_chars(v: &Vec<char>) -> (b: bool)
    ensures
        b == is_plausible_metadata_spec(v@),
{
    if contains_char(v, '\0') || contains_char(v, '\t') {
        return false;
    }
    if contains_str(v, ":null") || contains_str(v, "-null") {
        return false;
    }
    if has_doi_pattern(v) {
        return false;
    }
    let printable = count_class_exec(v, CountClass::Printable);
    if v.len() == 0 || printable == 0 {
        return false;
    }
    (printable as u128) * 4 >= (v.len() as u128) * 3
}

/// Not blank, not "untitled" (or "untitled document"), not starting with a
/// DOI prefix, and plausible metadata once trimmed.
pub open spec fn is_plausible_title_spec(s: Seq<char>) -> bool {
    let t = trim(s);
    let l = unicode_lower(t);
    t.len() > 0 && l != "untitled"@ && l != "untitled document"@ && !starts_with(l, "doi:"@)
        && !starts_with(l, "doi "@) && is_plausible_metadata_spec(t)
}

/// A PDF Title entry that can stand as the document title.
pub fn is_plausible_title(s: &str) -> (b: bool)
    ensures
        b == is_plausible_title_spec(s@),
{
    let v = chars_of(s);
    let t = trim_exec(&v);
    if t.len() == 0 {
        return false;
    }
    let l = lower(&t);
    if eq_str(&l, "untitled") || eq_str(&l, "untitled document") {
        return false;
    }
    if starts_with_str(&l, "doi:") || starts_with_str(&l, "doi ") {
        return false;
    }
    plausible_metadata_chars(&t)
}

// ---------------------------------------------------------------------------
// Author entry
// ---------------------------------------------------------------------------

/// The trimmed pieces that are not empty.
pub open spec fn trimmed_nonempty(ps: Seq<Seq<char>>) -> Seq<Seq<char>>
    decreases ps.len(),
{
    if ps.len() == 0 {
        seq![]
    } else {
        trimmed_nonempty(ps.drop_last()) + if trim(ps.last()).len() > 0 {
            seq![trim(ps.last())]
        } else {
            seq![]
        }
    }
}

fn trimmed_nonempty_exec(ps: &Vec<Vec<char>>) -> (r: Vec<Vec<char>>)
    ensures
        r.deep_view() == trimmed_nonempty(ps.deep_view()),
{
    broadcast use lemma_chars_deep_view;

    let mut out: Vec<Vec<char>> = Vec::new();
    let mut i: usize = 0;
    assert(out.deep_view() =~= trimmed_nonempty(ps.deep_view().take(0)));
    while i < ps.len()
        invariant
            i <= ps.len(),
            out.deep_view() == trimmed_nonempty(ps.deep_view().take(i as int)),
        decreases ps.len() - i,
    {
        let ghost t = ps.deep_view().take(i + 1);
        assert(t.drop_last() =~= ps.deep_view().take(i as int));
        assert(t.last() == ps@[i as int]@);
        let tr = trim_exec(&ps[i]);
        if tr.len() > 0 {
            push_piece(&mut out, tr);
        }
        assert(out.deep_view() =~= trimmed_nonempty(t));
        i += 1;
    }
    assert(ps.deep_view().take(ps.len() as int) =~= ps.deep_view());
    out
}

/// Pieces of at most four words and forty bytes each.
pub open spec fn short_pieces(ps: Seq<Seq<char>>) -> bool {
    forall|i: int| 0 <= i < ps.len() ==> words(#[trigger] ps[i]).len() <= 4 && byte_len(ps[i]) <= 40
}

/// The pieces found around the first " and " of `single` (case-insensitive),
/// when there is one and the text before it, after it, or between it and a
/// second " and " gives names.
pub open spec fn and_split_authors(single: Seq<char>) -> Option<Seq<Seq<char>>> {
    match find_ci(single, " and "@) {
        Some((a, c)) => {
            let rest = single.skip(c);
            let before = trim(single.take(a));
            let first: Seq<Seq<char>> = if before.len() > 0 {
                merge_initials_spec(trimmed_nonempty(split_char(before, ',')))
            } else {
                seq![]
            };
            let second: Seq<Seq<char>> = match find_ci(rest, " and "@) {
                Some((a2, c2)) => {
                    let mid = trim(rest.take(a2));
                    let after = trim(rest.skip(c2));
                    (if mid.len() > 0 {
                        seq![mid]
                    } else {
                        seq![]
                    }) + (if after.len() > 0 {
                        seq![after]
                    } else {
                        seq![]
                    })
                },
                None => if rest.len() > 0 {
                    merge_initials_spec(trimmed_nonempty(split_char(rest, ',')))
                } else {
                    seq![]
                },
            };
            let result = first + second;
            if result.len() > 0 {
                Some(result)
            } else {
                None
            }
        },
        None => None,
    }
}

/// The author list of a PDF Author entry: ';'-separated names; else names
/// around " and "; else short comma-separated names; else the whole entry.
pub open spec fn parse_metadata_authors_spec(s: Seq<char>) -> Seq<Seq<char>> {
    let trimmed = trim(s);
    let semis = trimmed_nonempty(split_char(trimmed, ';'));
    let single = if semis.len() > 0 {
        semis[0]
    } else {
        trimmed
    };
    let commas = trimmed_nonempty(split_char(single, ','));
    if trimmed.len() == 0 {
        seq![]
    } else if semis.len() > 1 {
        semis
    } else if and_split_authors(single) is Some {
        and_split_authors(single)->0
    } else if single.contains(',') && commas.len() >= 2 && short_pieces(commas) {
        merge_initials_spec(commas)
    } else {
        seq![single]
    }
}

fn extend(out: &mut Vec<Vec<char>>, more: Vec<Vec<char>>)
    ensures
        final(out).deep_view() == old(out).deep_view() + more.deep_view(),
{
    broadcast use lemma_chars_deep_view;

    let ghost base = out.deep_view();
    let mut i: usize = 0;
    assert(base + more.deep_view().take(0) =~= base);
    while i < more.len()
        invariant
            i <= more.len(),
            out.deep_view() == base + more.deep_view().take(i as int),
        decreases more.len() - i,
    {
        assert(more.deep_view()[i as int] == more@[i as int]@);
        push_piece(out, more[i].clone());
        assert(out.deep_view() =~= base + more.deep_view().take(i + 1));
        i += 1;
    }
    assert(more.deep_view().take(more.len() as int) =~= more.deep_view());
}

fn and_split_authors_exec(single: &Vec<char>) -> (r: Option<Vec<Vec<char>>>)
    ensures
        r matches Some(v) ==> and_split_authors(single@) == Some(v.deep_view()),
        r is None ==> and_split_authors(single@) is None,
{
    match find_ci_exec(single, " and ") {
        Some((a, c)) => {
            let rest = slice_of(single, c, single.len());
            assert(rest@ =~= single@.skip(c as int));
            let b0 = slice_of(single, 0, a);
            assert(b0@ =~= single@.take(a as int));
            let before = trim_exec(&b0);
            let mut result: Vec<Vec<char>> = Vec::new();
            assert(result.deep_view() =~= Seq::<Seq<char>>::empty());
            if before.len() > 0 {
                let parts = split_char_exec(&before, ',');
                let raw = trimmed_nonempty_exec(&parts);
                let merged = merge_initial_parts(&raw);
                extend(&mut result, merged);
            }
            let ghost first = result.deep_view();
            let mut second: Vec<Vec<char>> = Vec::new();
            assert(second.deep_view() =~= Seq::<Seq<char>>::empty());
            match find_ci_exec(&rest, " and ") {
                Some((a2, c2)) => {
                    let m0 = slice_of(&rest, 0, a2);
                    assert(m0@ =~= rest@.take(a2 as int));
                    let mid = trim_exec(&m0);
                    let f0 = slice_of(&rest, c2, rest.len());
                    assert(f0@ =~= rest@.skip(c2 as int));
                    let after = trim_exec(&f0);
                    if mid.len() > 0 {
                        push_piece(&mut second, mid);
                    }
                    if after.len() > 0 {
                        push_piece(&mut second, after);
                    }
                    assert(second.deep_view() =~= (if mid@.len() > 0 {
                        seq![mid@]
                    } else {
                        Seq::<Seq<char>>::empty()
                    }) + (if after@.len() > 0 {
                        seq![after@]
                    } else {
                        Seq::<Seq<char>>::empty()
                    }));
                },
                None => {
                    if rest.len() > 0 {
                        let parts = split_char_exec(&rest, ',');
                        let raw = trimmed_nonempty_exec(&parts);
                        let merged = merge_initial_parts(&raw);
                        extend(&mut second, merged);
                        assert(second.deep_view() =~= merge_initials_spec(
                            trimmed_nonempty(split_char(rest@, ',')),
                        ));
                    }
                },
            }
            extend(&mut result, second);
            if result.len() > 0 {
                Some(result)
            } else {
                None
            }
        },
        None => None,
    }
}

fn parse_metadata_authors_chars(s: &Vec<char>) -> (r: Vec<Vec<char>>)
    ensures
        r.deep_view() == parse_metadata_authors_spec(s@),
{
    broadcast use lemma_chars_deep_view;

    let trimmed = trim_exec(s);
    if trimmed.len() == 0 {
        let out: Vec<Vec<char>> = Vec::new();
        assert(out.deep_view() =~= Seq::<Seq<char>>::empty());
        return out;
    }
    let sp = split_char_exec(&trimmed, ';');
    let semis = trimmed_nonempty_exec(&sp);
    if semis.len() > 1 {
        return semis;
    }
    let single: Vec<char> = if semis.len() > 0 {
        assert(semis.deep_view()[0] == semis@[0]@);
        semis[0].clone()
    } else {
        trimmed
    };
    match and_split_authors_exec(&single) {
        Some(r) => {
            return r;
        },
        None => {},
    }
    if contains_char(&single, ',') {
        let cp = split_char_exec(&single, ',');
        let parts = trimmed_nonempty_exec(&cp);
        if parts.len() >= 2 {
            let mut all = true;
            let mut i: usize = 0;
            while i < parts.len()
                invariant
                    i <= parts.len(),
                    all == short_pieces(parts.deep_view().take(i as int)),
                decreases parts.len() - i,
            {
                assert(parts.deep_view()[i as int] == parts@[i as int]@);
                let wc = words_exec(&parts[i]).len();
                let bl = byte_len_exec(&parts[i]);
                let ok = wc <= 4 && bl <= 40;
                proof {
                    let t = parts.deep_view().take(i + 1);
                    let u = parts.deep_view().take(i as int);
                    assert(t[i as int] == parts.deep_view()[i as int]);
                    if !ok {
                        assert(!short_pieces(t));
                    }
                    if all && ok {
                        assert forall|k: int| 0 <= k < t.len() implies words(#[trigger] t[k]).len()
                            <= 4 && byte_len(t[k]) <= 40 by {
                            if k < i {
                                assert(t[k] == u[k]);
                            }
                        }
                    }
                    if !all {
                        let k = choose|k: int|
                            0 <= k < u.len() && !(words(#[trigger] u[k]).len() <= 4 && byte_len(
                                u[k],
                            ) <= 40);
                        assert(t[k] == u[k]);
                    }
                }
                all = all && ok;
                i += 1;
            }
            assert(parts.deep_view().take(parts.len() as int) =~= parts.deep_view());
            if all {
                return merge_initial_parts(&parts);
            }
        }
    }
    let mut out: Vec<Vec<char>> = Vec::new();
    push_piece(&mut out, single);
    assert(out.deep_view() =~= seq![single@]);
    out
}

/// Splits a PDF Author entry into author names.
pub fn parse_metadata_authors(s: &str) -> (r: Vec<String>)
    ensures
        r.deep_view() == parse_metadata_authors_spec(s@),
{
    let v = chars_of(s);
    let r = parse_metadata_authors_chars(&v);
    strings_of(&r)
}

// ---------------------------------------------------------------------------
// Laws
// ---------------------------------------------------------------------------

/// Merging initials keeps a list whose parts after the first are none of
/// them only initials.
pub proof fn lemma_merge_without_initials(ps: Seq<Seq<char>>)
    requires
        forall|i: int| 1 <= i < ps.len() ==> !looks_like_initial_spec(#[trigger] ps[i]),
    ensures
        merge_initials_spec(ps) == ps,
    decreases ps.len(),
{
    if ps.len() > 0 {
        let q = ps.drop_last();
        assert forall|i: int| 1 <= i < q.len() implies !looks_like_initial_spec(#[trigger] q[i]) by {
            assert(q[i] == ps[i]);
        }
        lemma_merge_without_initials(q);
        if ps.len() == 1 {
            assert(merge_initials_spec(q).len() == 0);
        } else {
            assert(!looks_like_initial_spec(ps[ps.len() - 1]));
        }
        assert(q.push(ps.last()) =~= ps);
    }
}

/// A single piece leaves at most one trimmed, non-empty piece.
proof fn lemma_trimmed_nonempty_one(x: Seq<char>)
    ensures
        trimmed_nonempty(seq![x]).len() <= 1,
        trim(x).len() > 0 ==> trimmed_nonempty(seq![x]) == seq![trim(x)],
{
    let e = Seq::<Seq<char>>::empty();
    assert(seq![x].drop_last() =~= e);
    assert(trimmed_nonempty(e) == e);
    assert(seq![x].last() == x);
    assert(trimmed_nonempty(seq![x]) == trimmed_nonempty(e) + if trim(x).len() > 0 {
        seq![trim(x)]
    } else {
        e
    });
    if trim(x).len() > 0 {
        assert(e + seq![trim(x)] =~= seq![trim(x)]);
    } else {
        assert(e + e =~= e);
    }
}

/// An Author entry without ';' and without " and " whose comma-separated
/// pieces are two or more short names (none after the first only initials)
/// gives one author per piece, in order: so more than one author.
pub proof fn law_comma_separated_authors(s: Seq<char>)
    requires
        !s.contains(';'),
        find_ci(trim(s), " and "@) is None,
        trimmed_nonempty(split_char(trim(s), ',')).len() >= 2,
        short_pieces(trimmed_nonempty(split_char(trim(s), ','))),
        forall|i: int|
            1 <= i < trimmed_nonempty(split_char(trim(s), ',')).len() ==> !looks_like_initial_spec(
                #[trigger] trimmed_nonempty(split_char(trim(s), ','))[i],
            ),
    ensures
        parse_metadata_authors_spec(s) == trimmed_nonempty(split_char(trim(s), ',')),
        parse_metadata_authors_spec(s).len() >= 2,
{
    let t = trim(s);
    let ps = trimmed_nonempty(split_char(t, ','));
    lemma_trim_is_trimmed(s, ';');
    lemma_trim_of_trimmed(t);
    if !t.contains(',') {
        lemma_split_char_absent(t, ',');
        lemma_trimmed_nonempty_one(t);
    }
    assert(t.contains(','));
    assert(t.len() > 0);
    lemma_split_char_absent(t, ';');
    lemma_trimmed_nonempty_one(t);
    let semis = trimmed_nonempty(split_char(t, ';'));
    assert(semis == seq![t]);
    assert(semis[0] == t);
    assert(and_split_authors(t) is None);
    lemma_merge_without_initials(ps);
}

/// An Author entry with two or more non-empty ';'-separated names gives
/// those names, trimmed, in order.
pub proof fn law_semicolon_separated_authors(s: Seq<char>)
    requires
        trimmed_nonempty(split_char(trim(s), ';')).len() >= 2,
    ensures
        parse_metadata_authors_spec(s) == trimmed_nonempty(split_char(trim(s), ';')),
{
    if trim(s).len() == 0 {
        lemma_split_char_absent(trim(s), ';');
        lemma_trimmed_nonempty_one(trim(s));
    }
}

} // verus!
