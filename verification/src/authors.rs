//! Heuristics that find author names in the text of a paper's first page.
use vstd::prelude::*;
use crate::lexicon::{
    author_marker, author_markers, citation_marker, citation_markers, has_author_marker,
    has_author_marker_exec, is_journal_abbrev, is_journal_abbrev_exec, is_preposition,
    is_preposition_exec,
};
use crate::text::{
    append, append_str, byte_len, byte_len_exec, chars_of, contains, contains_char,
    contains_str, count_class, count_class_exec, ends_with, ends_with_str, eq_str, find,
    find_ci, find_ci_exec, find_exec, find_str, join, join_str, lemma_byte_len_bounds,
    lemma_chars_deep_view, lemma_count_class_le, lemma_find, lower, push_piece, set_piece, push_string,
    slice_of, split_char, split_char_exec, starts_upper, starts_upper_exec, starts_lower,
    starts_lower_exec, string_from_chars, strings_of, trim, trim_end_set, trim_end_set_exec,
    trim_exec, trim_start_set, trim_start_set_exec, unicode_lower, words, words_exec, CharSet,
    CountClass, is_ascii_upper, char_is_ascii_upper,
};

verus! {

// ---------------------------------------------------------------------------
// Citation suffixes
// ---------------------------------------------------------------------------

/// The line cut before the first citation marker found (markers tried in order), trimmed.
pub open spec fn cite_strip_from(line: Seq<char>, m: int) -> Seq<char>
    decreases 4 - m,
{
    if m < 0 || m >= 4 {
        line
    } else {
        match find(line, citation_markers()[m]) {
            Some(pos) => trim(line.take(pos)),
            None => cite_strip_from(line, m + 1),
        }
    }
}

pub open spec fn strip_citation_suffix_spec(line: Seq<char>) -> Seq<char> {
    cite_strip_from(line, 0)
}

pub fn strip_citation_suffix(line: &Vec<char>) -> (r: Vec<char>)
    ensures
        r@ == strip_citation_suffix_spec(line@),
{
    let mut m: usize = 0;
    while m < 4
        invariant
            m <= 4,
            strip_citation_suffix_spec(line@) == cite_strip_from(line@, m as int),
        decreases 4 - m,
    {
        match find_str(line, citation_marker(m)) {
            Some(pos) => {
                proof {
                    lemma_find(line@, citation_markers()[m as int]);
                }
                let pre = slice_of(line, 0, pos);
                assert(pre@ =~= line@.take(pos as int));
                return trim_exec(&pre);
            },
            None => {},
        }
        m += 1;
    }
    line.clone()
}

/// The citation-stripped form of a trimmed line when it is shorter (in bytes).
pub open spec fn working_line(trimmed: Seq<char>) -> Seq<char> {
    let c = strip_citation_suffix_spec(trimmed);
    if byte_len(c) < byte_len(trimmed) {
        c
    } else {
        trimmed
    }
}

pub fn working_line_exec(trimmed: &Vec<char>) -> (r: Vec<char>)
    ensures
        r@ == working_line(trimmed@),
{
    let c = strip_citation_suffix(trimmed);
    if byte_len_exec(&c) < byte_len_exec(trimmed) {
        c
    } else {
        trimmed.clone()
    }
}

// ---------------------------------------------------------------------------
// Initials
// ---------------------------------------------------------------------------

/// `et`, `al` or `al.` (after lowercasing).
pub open spec fn is_et_al(lw: Seq<char>) -> bool {
    lw == "et"@ || lw == "al"@ || lw == "al."@
}

/// A word of initials: at most two ASCII capitals once trailing periods go.
pub open spec fn is_initial_word(w: Seq<char>) -> bool {
    let t = trim_end_set(w, CharSet::Period);
    byte_len(t) <= 2 && forall|i: int| 0 <= i < t.len() ==> is_ascii_upper(#[trigger] t[i])
}

/// Some word other than "et"/"al" exists, and every such word is initials.
pub open spec fn looks_like_initial_spec(s: Seq<char>) -> bool {
    let ws = words(trim(s));
    trim(s).len() > 0 && (exists|i: int|
        0 <= i < ws.len() && !is_et_al(unicode_lower(#[trigger] ws[i]))) && (forall|i: int|
        0 <= i < ws.len() && !is_et_al(unicode_lower(#[trigger] ws[i])) ==> is_initial_word(
            ws[i],
        ))
}

fn is_et_al_exec(w: &Vec<char>) -> (b: bool)
    ensures
        b == is_et_al(unicode_lower(w@)),
{
    let lw = lower(w);
    eq_str(&lw, "et") || eq_str(&lw, "al") || eq_str(&lw, "al.")
}

fn is_initial_word_exec(w: &Vec<char>) -> (b: bool)
    ensures
        b == is_initial_word(w@),
{
    let t = trim_end_set_exec(w, CharSet::Period);
    if byte_len_exec(&t) > 2 {
        return false;
    }
    let mut i: usize = 0;
    while i < t.len()
        invariant
            i <= t.len(),
            t@ == trim_end_set(w@, CharSet::Period),
            forall|j: int| 0 <= j < i ==> is_ascii_upper(#[trigger] t@[j]),
        decreases t.len() - i,
    {
        if !char_is_ascii_upper(t[i]) {
            assert(!is_ascii_upper(t@[i as int]));
            assert(trim_end_set(w@, CharSet::Period)[i as int] == t@[i as int]);
            return false;
        }
        i += 1;
    }
    true
}

/// A part made only of initials (and "et al.").
pub fn looks_like_initial(s: &Vec<char>) -> (b: bool)
    ensures
        b == looks_like_initial_spec(s@),
{
    broadcast use lemma_chars_deep_view;

    let t = trim_exec(s);
    if t.len() == 0 {
        return false;
    }
    let ws = words_exec(&t);
    let mut any = false;
    let mut i: usize = 0;
    while i < ws.len()
        invariant
            i <= ws.len(),
            ws.deep_view() == words(t@),
            t@ == trim(s@),
            any == exists|j: int| 0 <= j < i && !is_et_al(unicode_lower(#[trigger] ws.deep_view()[j])),
            forall|j: int|
                0 <= j < i && !is_et_al(unicode_lower(#[trigger] ws.deep_view()[j]))
                    ==> is_initial_word(ws.deep_view()[j]),
        decreases ws.len() - i,
    {
        assert(ws.deep_view()[i as int] == ws@[i as int]@);
        if !is_et_al_exec(&ws[i]) {
            if !is_initial_word_exec(&ws[i]) {
                return false;
            }
            any = true;
        }
        i += 1;
    }
    any
}

/// Each part that is only initials joins the previous part with ", ".
pub open spec fn merge_initials_spec(parts: Seq<Seq<char>>) -> Seq<Seq<char>>
    decreases parts.len(),
{
    if parts.len() == 0 {
        seq![]
    } else {
        let m = merge_initials_spec(parts.drop_last());
        let p = parts.last();
        if looks_like_initial_spec(p) && m.len() > 0 {
            m.update(m.len() - 1, m.last() + ", "@ + p)
        } else {
            m.push(p)
        }
    }
}

pub fn merge_initial_parts(parts: &Vec<Vec<char>>) -> (r: Vec<Vec<char>>)
    ensures
        r.deep_view() == merge_initials_spec(parts.deep_view()),
{
    broadcast use lemma_chars_deep_view;

    let mut merged: Vec<Vec<char>> = Vec::new();
    let mut i: usize = 0;
    assert(merged.deep_view() =~= merge_initials_spec(parts.deep_view().take(0)));
    while i < parts.len()
        invariant
            i <= parts.len(),
            merged.deep_view() == merge_initials_spec(parts.deep_view().take(i as int)),
        decreases parts.len() - i,
    {
        let ghost t = parts.deep_view().take(i + 1);
        assert(t.drop_last() =~= parts.deep_view().take(i as int));
        assert(t.last() == parts@[i as int]@);
        let part = &parts[i];
        if looks_like_initial(part) && merged.len() > 0 {
            let k = merged.len() - 1;
            assert(merged.deep_view()[k as int] == merged@[k as int]@);
            let mut last = merged[k].clone();
            append_str(&mut last, ", ");
            append(&mut last, part);
            set_piece(&mut merged, k, last);
            assert(merged.deep_view() =~= merge_initials_spec(t));
        } else {
            push_piece(&mut merged, part.clone());
            assert(merged.deep_view() =~= merge_initials_spec(t));
        }
        i += 1;
    }
    assert(parts.deep_view().take(parts.len() as int) =~= parts.deep_view());
    merged
}

// ---------------------------------------------------------------------------
// Splitting at " and "
// ---------------------------------------------------------------------------

/// The non-empty pieces of `seg` before and after its first case-insensitive
/// " and ", located as `find_ci` locates it: at the byte offsets of the match
/// in the lowercased text, read back in `seg`.
pub open spec fn split_and_spec(seg0: Seq<char>) -> Seq<Seq<char>> {
    let seg = trim(seg0);
    if seg.len() == 0 {
        seq![]
    } else {
        match find_ci(seg, " and "@) {
            Some((a, c)) => {
                let before = trim(seg.take(a));
                let after = trim(seg.skip(c));
                (if before.len() > 0 {
                    seq![before]
                } else {
                    seq![]
                }) + (if after.len() > 0 {
                    seq![after]
                } else {
                    seq![]
                })
            },
            None => seq![seg],
        }
    }
}

pub fn split_and_in_segment(seg0: &Vec<char>) -> (r: Vec<Vec<char>>)
    ensures
        r.deep_view() == split_and_spec(seg0@),
{
    let seg = trim_exec(seg0);
    let mut result: Vec<Vec<char>> = Vec::new();
    if seg.len() == 0 {
        assert(result.deep_view() =~= Seq::<Seq<char>>::empty());
        return result;
    }
    match find_ci_exec(&seg, " and ") {
        Some((a, c)) => {
            let b0 = slice_of(&seg, 0, a);
            let before = trim_exec(&b0);
            let a0 = slice_of(&seg, c, seg.len());
            let after = trim_exec(&a0);
            assert(b0@ =~= seg@.take(a as int));
            assert(a0@ =~= seg@.skip(c as int));
            assert(result.deep_view() =~= Seq::<Seq<char>>::empty());
            if before.len() > 0 {
                push_piece(&mut result, before);
            }
            if after.len() > 0 {
                push_piece(&mut result, after);
            }
            assert(result.deep_view() =~= split_and_spec(seg0@));
            result
        },
        None => {
            let ghost e = result.deep_view();
            push_piece(&mut result, seg);
            assert(result.deep_view() =~= seq![trim(seg0@)]);
            result
        },
    }
}

// ---------------------------------------------------------------------------
// Name-like words
// ---------------------------------------------------------------------------

/// At least three quarters (by UTF-8 length) of a word are letters.
pub open spec fn mostly_alpha(w: Seq<char>) -> bool {
    count_class(w, CountClass::Alpha) >= byte_len(w) * 3 / 4
}

fn mostly_alpha_exec(w: &Vec<char>) -> (b: bool)
    ensures
        b == mostly_alpha(w@),
{
    let n = count_class_exec(w, CountClass::Alpha);
    let bl = byte_len_exec(w);
    proof {
        lemma_byte_len_bounds(w@);
    }
    (n as u128) >= bl * 3 / 4
}

/// A word of a name: capitalised, not a particle, mostly letters, no trailing colon.
pub open spec fn name_like_word(w: Seq<char>) -> bool {
    let clean = trim_end_set(w, CharSet::Comma);
    clean.len() > 0 && !ends_with(clean, ":"@) && starts_upper(clean) && !is_preposition(
        unicode_lower(clean),
    ) && mostly_alpha(clean)
}

/// One to four words, each name-like.
pub open spec fn is_name_like_spec(s: Seq<char>) -> bool {
    let ws = words(s);
    1 <= ws.len() <= 4 && forall|i: int| 0 <= i < ws.len() ==> name_like_word(#[trigger] ws[i])
}

fn name_like_word_exec(w: &Vec<char>) -> (b: bool)
    ensures
        b == name_like_word(w@),
{
    let clean = trim_end_set_exec(w, CharSet::Comma);
    if clean.len() == 0 || ends_with_str(&clean, ":") {
        return false;
    }
    if !starts_upper_exec(&clean) {
        return false;
    }
    let lc = lower(&clean);
    if is_preposition_exec(&lc) {
        return false;
    }
    mostly_alpha_exec(&clean)
}

pub fn is_name_like(s: &Vec<char>) -> (b: bool)
    ensures
        b == is_name_like_spec(s@),
{
    broadcast use lemma_chars_deep_view;

    let ws = words_exec(s);
    if !(1 <= ws.len() && ws.len() <= 4) {
        return false;
    }
    let mut i: usize = 0;
    while i < ws.len()
        invariant
            i <= ws.len(),
            ws.deep_view() == words(s@),
            forall|j: int| 0 <= j < i ==> name_like_word(#[trigger] ws.deep_view()[j]),
        decreases ws.len() - i,
    {
        assert(ws.deep_view()[i as int] == ws@[i as int]@);
        if !name_like_word_exec(&ws[i]) {
            return false;
        }
        i += 1;
    }
    true
}

/// The name words that begin `text`: up to four words, stopping at the
/// first that is empty once commas and colons go, a journal abbreviation,
/// not capitalised, a particle, or not mostly letters.
pub open spec fn first_name_words(ws: Seq<Seq<char>>, i: int, acc: Seq<Seq<char>>) -> Seq<
    Seq<char>,
>
    decreases ws.len() - i,
{
    if i < 0 || i >= ws.len() {
        acc
    } else {
        let clean = trim_end_set(ws[i], CharSet::CommaColon);
        if clean.len() == 0 || is_journal_abbrev(clean) || !starts_upper(clean)
            || is_preposition(unicode_lower(clean)) || !mostly_alpha(clean) {
            acc
        } else if acc.len() + 1 >= 4 {
            acc.push(clean)
        } else {
            first_name_words(ws, i + 1, acc.push(clean))
        }
    }
}

pub open spec fn extract_first_name_spec(text: Seq<char>) -> Option<Seq<char>> {
    let ns = first_name_words(words(text), 0, seq![]);
    if ns.len() == 0 {
        None
    } else {
        Some(join(ns, " "@))
    }
}

fn first_name_words_exec(ws: &Vec<Vec<char>>) -> (r: Vec<Vec<char>>)
    ensures
        r.deep_view() == first_name_words(ws.deep_view(), 0, seq![]),
{
    broadcast use lemma_chars_deep_view;

    let mut names: Vec<Vec<char>> = Vec::new();
    let mut i: usize = 0;
    assert(names.deep_view() =~= Seq::<Seq<char>>::empty());
    while i < ws.len()
        invariant
            i <= ws.len(),
            names.deep_view().len() < 4,
            first_name_words(ws.deep_view(), 0, seq![]) == first_name_words(
                ws.deep_view(),
                i as int,
                names.deep_view(),
            ),
        decreases ws.len() - i,
    {
        assert(ws.deep_view()[i as int] == ws@[i as int]@);
        let clean = trim_end_set_exec(&ws[i], CharSet::CommaColon);
        if clean.len() == 0 || is_journal_abbrev_exec(&clean) || !starts_upper_exec(&clean) {
            return names;
        }
        let lc = lower(&clean);
        if is_preposition_exec(&lc) || !mostly_alpha_exec(&clean) {
            return names;
        }
        push_piece(&mut names, clean);
        if names.len() >= 4 {
            return names;
        }
        i += 1;
    }
    names
}

pub fn extract_first_name(text: &Vec<char>) -> (r: Option<Vec<char>>)
    ensures
        r matches Some(v) ==> extract_first_name_spec(text@) == Some(v@),
        r is None ==> extract_first_name_spec(text@) is None,
{
    let ws = words_exec(text);
    let names = first_name_words_exec(&ws);
    if names.len() == 0 {
        None
    } else {
        Some(join_str(&names, " "))
    }
}

// ---------------------------------------------------------------------------
// Author lines
// ---------------------------------------------------------------------------

/// Number of words that start with an uppercase character.
pub open spec fn capitalized_count(ws: Seq<Seq<char>>) -> nat
    decreases ws.len(),
{
    if ws.len() == 0 {
        0
    } else {
        capitalized_count(ws.drop_last()) + if starts_upper(ws.last()) {
            1nat
        } else {
            0nat
        }
    }
}

/// A word that starts lowercase and is not a particle (commas and periods aside).
pub open spec fn lowercase_non_prep(w: Seq<char>) -> bool {
    let clean = trim_end_set(w, CharSet::CommaPeriod);
    clean.len() > 0 && starts_lower(clean) && !is_preposition(unicode_lower(clean))
}

/// The pieces of `ps` that are longer than two bytes.
pub open spec fn long_pieces(ps: Seq<Seq<char>>) -> Seq<Seq<char>>
    decreases ps.len(),
{
    if ps.len() == 0 {
        seq![]
    } else {
        long_pieces(ps.drop_last()) + if ps.last().len() > 0 && byte_len(ps.last()) > 2 {
            seq![ps.last()]
        } else {
            seq![]
        }
    }
}

/// Comma-separated segments, each split at " and ", keeping pieces over two bytes.
pub open spec fn and_split_parts(segs: Seq<Seq<char>>) -> Seq<Seq<char>>
    decreases segs.len(),
{
    if segs.len() == 0 {
        seq![]
    } else {
        and_split_parts(segs.drop_last()) + long_pieces(split_and_spec(trim(segs.last())))
    }
}

/// Authors of a line that reads as a list of names, if it does.
pub open spec fn authors_from_line_spec(t: Seq<char>) -> Option<Seq<Seq<char>>> {
    let ws = words(t);
    if t.contains('\t') || t.contains('(') || t.contains(')') {
        None
    } else if count_class(t, CountClass::Digit) > 2 {
        None
    } else if count_class(t, CountClass::AlphaOrPunct) < byte_len(t) * 4 / 5 {
        None
    } else if !(2 <= ws.len() <= 6) {
        None
    } else if capitalized_count(ws) * 2 < ws.len() {
        None
    } else if exists|i: int| 0 <= i < ws.len() && lowercase_non_prep(#[trigger] ws[i]) {
        None
    } else if contains(unicode_lower(t), "tutorial"@) || contains(unicode_lower(t), "clustering"@) {
        None
    } else {
        let a = merge_initials_spec(and_split_parts(split_char(t, ',')));
        if a.len() == 0 {
            None
        } else {
            Some(a)
        }
    }
}

fn capitalized_count_exec(ws: &Vec<Vec<char>>) -> (n: usize)
    ensures
        n == capitalized_count(ws.deep_view()),
        n <= ws.len(),
{
    broadcast use lemma_chars_deep_view;

    let mut n: usize = 0;
    let mut i: usize = 0;
    while i < ws.len()
        invariant
            i <= ws.len(),
            n <= i,
            n == capitalized_count(ws.deep_view().take(i as int)),
        decreases ws.len() - i,
    {
        assert(ws.deep_view().take(i + 1).drop_last() =~= ws.deep_view().take(i as int));
        assert(ws.deep_view()[i as int] == ws@[i as int]@);
        if starts_upper_exec(&ws[i]) {
            n += 1;
        }
        i += 1;
    }
    assert(ws.deep_view().take(ws.len() as int) =~= ws.deep_view());
    n
}

fn lowercase_non_prep_exec(w: &Vec<char>) -> (b: bool)
    ensures
        b == lowercase_non_prep(w@),
{
    let clean = trim_end_set_exec(w, CharSet::CommaPeriod);
    if clean.len() == 0 || !starts_lower_exec(&clean) {
        return false;
    }
    let lc = lower(&clean);
    !is_preposition_exec(&lc)
}

fn long_pieces_exec(ps: &Vec<Vec<char>>, out: &mut Vec<Vec<char>>)
    ensures
        final(out).deep_view() == old(out).deep_view() + long_pieces(ps.deep_view()),
{
    broadcast use lemma_chars_deep_view;

    let ghost base = out.deep_view();
    let mut i: usize = 0;
    assert(base + long_pieces(ps.deep_view().take(0)) =~= base);
    while i < ps.len()
        invariant
            i <= ps.len(),
            out.deep_view() == base + long_pieces(ps.deep_view().take(i as int)),
        decreases ps.len() - i,
    {
        let ghost t = ps.deep_view().take(i + 1);
        assert(t.drop_last() =~= ps.deep_view().take(i as int));
        assert(t.last() == ps@[i as int]@);
        if ps[i].len() > 0 && byte_len_exec(&ps[i]) > 2 {
            push_piece(out, ps[i].clone());
        }
        assert(out.deep_view() =~= base + long_pieces(t));
        i += 1;
    }
    assert(ps.deep_view().take(ps.len() as int) =~= ps.deep_view());
}

fn and_split_parts_exec(segs: &Vec<Vec<char>>) -> (r: Vec<Vec<char>>)
    ensures
        r.deep_view() == and_split_parts(segs.deep_view()),
{
    broadcast use lemma_chars_deep_view;

    let mut out: Vec<Vec<char>> = Vec::new();
    let mut i: usize = 0;
    assert(out.deep_view() =~= and_split_parts(segs.deep_view().take(0)));
    while i < segs.len()
        invariant
            i <= segs.len(),
            out.deep_view() == and_split_parts(segs.deep_view().take(i as int)),
        decreases segs.len() - i,
    {
        let ghost t = segs.deep_view().take(i + 1);
        assert(t.drop_last() =~= segs.deep_view().take(i as int));
        assert(t.last() == segs@[i as int]@);
        let tr = trim_exec(&segs[i]);
        let pieces = split_and_in_segment(&tr);
        long_pieces_exec(&pieces, &mut out);
        i += 1;
    }
    assert(segs.deep_view().take(segs.len() as int) =~= segs.deep_view());
    out
}

pub fn extract_authors_from_line(t: &Vec<char>) -> (r: Option<Vec<Vec<char>>>)
    ensures
        r matches Some(v) ==> authors_from_line_spec(t@) == Some(v.deep_view()),
        r is None ==> authors_from_line_spec(t@) is None,
{
    broadcast use lemma_chars_deep_view;

    if contains_char(t, '\t') || contains_char(t, '(') || contains_char(t, ')') {
        return None;
    }
    if count_class_exec(t, CountClass::Digit) > 2 {
        return None;
    }
    let alpha = count_class_exec(t, CountClass::AlphaOrPunct);
    let bl = byte_len_exec(t);
    if (alpha as u128) < bl * 4 / 5 {
        return None;
    }
    let ws = words_exec(t);
    if !(2 <= ws.len() && ws.len() <= 6) {
        return None;
    }
    let cap = capitalized_count_exec(&ws);
    if cap * 2 < ws.len() {
        return None;
    }
    let mut i: usize = 0;
    while i < ws.len()
        invariant
            i <= ws.len(),
            ws.deep_view() == words(t@),
            forall|j: int| 0 <= j < i ==> !lowercase_non_prep(#[trigger] ws.deep_view()[j]),
        decreases ws.len() - i,
    {
        assert(ws.deep_view()[i as int] == ws@[i as int]@);
        if lowercase_non_prep_exec(&ws[i]) {
            return None;
        }
        i += 1;
    }
    let lt = lower(t);
    if contains_str(&lt, "tutorial") || contains_str(&lt, "clustering") {
        return None;
    }
    let segs = split_char_exec(t, ',');
    let raw = and_split_parts_exec(&segs);
    let a = merge_initial_parts(&raw);
    if a.len() == 0 {
        None
    } else {
        Some(a)
    }
}

/// The text cut before the first occurrence of `marker` and trimmed, if it occurs.
pub open spec fn cut_at(s: Seq<char>, marker: Seq<char>) -> Seq<char> {
    match find(s, marker) {
        Some(p) => trim(s.take(p)),
        None => s,
    }
}

/// `cut_at` applied with each citation marker from `m` on.
pub open spec fn cut_citations(s: Seq<char>, m: int) -> Seq<char>
    decreases 4 - m,
{
    if m < 0 || m >= 4 {
        s
    } else {
        cut_citations(cut_at(s, citation_markers()[m]), m + 1)
    }
}

/// Names of the comma-separated part before " and "; `None` once one is not name-like.
pub open spec fn leading_names(parts: Seq<Seq<char>>) -> Option<Seq<Seq<char>>>
    decreases parts.len(),
{
    if parts.len() == 0 {
        Some(seq![])
    } else {
        match leading_names(parts.drop_last()) {
            None => None,
            Some(acc) => {
                let t = trim_end_set(trim(parts.last()), CharSet::Comma);
                if t.len() == 0 {
                    Some(acc)
                } else if !is_name_like_spec(t) {
                    None
                } else {
                    Some(acc.push(t))
                }
            },
        }
    }
}

/// The name-like comma-separated pieces after the first.
pub open spec fn trailing_names(parts: Seq<Seq<char>>) -> Seq<Seq<char>>
    decreases parts.len(),
{
    if parts.len() <= 1 {
        seq![]
    } else {
        let t = trim_end_set(trim(parts.last()), CharSet::Comma);
        trailing_names(parts.drop_last()) + if t.len() > 0 && is_name_like_spec(t) {
            seq![t]
        } else {
            seq![]
        }
    }
}

/// No-break spaces replaced by spaces.
pub open spec fn nbsp_to_space(s: Seq<char>) -> Seq<char> {
    Seq::new(s.len(), |i: int| if s[i] == '\u{a0}' { ' ' } else { s[i] })
}

/// Authors of a line of the form "A, B, C and D ...", if it is one.
pub open spec fn and_pattern_spec(line: Seq<char>) -> Option<Seq<Seq<char>>> {
    let stripped = trim(trim_start_set(nbsp_to_space(line), CharSet::DigitCommaSpace));
    if stripped.len() == 0 || !contains(stripped, " and "@) {
        None
    } else {
        let pos = find(stripped, " and "@)->0;
        let before = cut_citations(trim(stripped.take(pos)), 0);
        let after = cut_citations(trim(stripped.skip(pos + 5)), 0);
        match leading_names(split_char(before, ',')) {
            None => None,
            Some(names) => match extract_first_name_spec(after) {
                None => None,
                Some(last) => {
                    let extra = if after.contains(',') {
                        trailing_names(split_char(after, ','))
                    } else {
                        seq![]
                    };
                    let all = names.push(last) + extra;
                    if all.len() >= 2 {
                        Some(all)
                    } else {
                        None
                    }
                },
            },
        }
    }
}

fn cut_citations_exec(s: &Vec<char>) -> (r: Vec<char>)
    ensures
        r@ == cut_citations(s@, 0),
{
    let mut cur = s.clone();
    let mut m: usize = 0;
    while m < 4
        invariant
            m <= 4,
            cut_citations(s@, 0) == cut_citations(cur@, m as int),
        decreases 4 - m,
    {
        match find_str(&cur, citation_marker(m)) {
            Some(p) => {
                proof {
                    lemma_find(cur@, citation_markers()[m as int]);
                }
                let pre = slice_of(&cur, 0, p);
                assert(pre@ =~= cur@.take(p as int));
                cur = trim_exec(&pre);
            },
            None => {},
        }
        m += 1;
    }
    cur
}

fn leading_names_exec(parts: &Vec<Vec<char>>) -> (r: Option<Vec<Vec<char>>>)
    ensures
        r matches Some(v) ==> leading_names(parts.deep_view()) == Some(v.deep_view()),
        r is None ==> leading_names(parts.deep_view()) is None,
{
    broadcast use lemma_chars_deep_view;

    let mut acc: Vec<Vec<char>> = Vec::new();
    let mut i: usize = 0;
    assert(leading_names(parts.deep_view().take(0)) == Some(acc.deep_view())) by {
        assert(acc.deep_view() =~= Seq::<Seq<char>>::empty());
        assert(parts.deep_view().take(0).len() == 0);
    }
    while i < parts.len()
        invariant
            i <= parts.len(),
            leading_names(parts.deep_view().take(i as int)) == Some(acc.deep_view()),
        decreases parts.len() - i,
    {
        let ghost t = parts.deep_view().take(i + 1);
        assert(t.drop_last() =~= parts.deep_view().take(i as int));
        assert(t.last() == parts@[i as int]@);
        let tr = trim_exec(&parts[i]);
        let tt = trim_end_set_exec(&tr, CharSet::Comma);
        if tt.len() > 0 {
            if !is_name_like(&tt) {
                proof {
                    lemma_leading_names_none_extends(parts.deep_view(), i as int + 1);
                }
                return None;
            }
            push_piece(&mut acc, tt);
        }
        i += 1;
    }
    assert(parts.deep_view().take(parts.len() as int) =~= parts.deep_view());
    Some(acc)
}

/// Once a prefix has no leading names, neither has any longer prefix.
pub proof fn lemma_leading_names_none_extends(ps: Seq<Seq<char>>, k: int)
    requires
        0 <= k <= ps.len(),
        leading_names(ps.take(k)) is None,
    ensures
        leading_names(ps) is None,
    decreases ps.len() - k,
{
    if k < ps.len() {
        assert(ps.take(k + 1).drop_last() =~= ps.take(k));
        lemma_leading_names_none_extends(ps, k + 1);
    } else {
        assert(ps.take(k) =~= ps);
    }
}

fn trailing_names_exec(parts: &Vec<Vec<char>>, out: &mut Vec<Vec<char>>)
    ensures
        final(out).deep_view() == old(out).deep_view() + trailing_names(parts.deep_view()),
{
    broadcast use lemma_chars_deep_view;

    let ghost base = out.deep_view();
    if parts.len() <= 1 {
        assert(base + trailing_names(parts.deep_view()) =~= base);
        return ;
    }
    let mut i: usize = 1;
    assert(base + trailing_names(parts.deep_view().take(1)) =~= base);
    while i < parts.len()
        invariant
            1 <= i <= parts.len(),
            out.deep_view() == base + trailing_names(parts.deep_view().take(i as int)),
        decreases parts.len() - i,
    {
        let ghost t = parts.deep_view().take(i + 1);
        assert(t.drop_last() =~= parts.deep_view().take(i as int));
        assert(t.last() == parts@[i as int]@);
        let tr = trim_exec(&parts[i]);
        let tt = trim_end_set_exec(&tr, CharSet::Comma);
        if tt.len() > 0 && is_name_like(&tt) {
            push_piece(out, tt);
        }
        assert(out.deep_view() =~= base + trailing_names(t));
        i += 1;
    }
    assert(parts.deep_view().take(parts.len() as int) =~= parts.deep_view());
}

pub fn extract_authors_from_and_pattern(line: &Vec<char>) -> (r: Option<Vec<Vec<char>>>)
    ensures
        r matches Some(v) ==> and_pattern_spec(line@) == Some(v.deep_view()),
        r is None ==> and_pattern_spec(line@) is None,
{
    let mut normalized: Vec<char> = Vec::new();
    let mut i: usize = 0;
    while i < line.len()
        invariant
            i <= line.len(),
            normalized@ == nbsp_to_space(line@).take(i as int),
        decreases line.len() - i,
    {
        if line[i] == '\u{a0}' {
            normalized.push(' ');
        } else {
            normalized.push(line[i]);
        }
        assert(normalized@ =~= nbsp_to_space(line@).take(i + 1));
        i += 1;
    }
    assert(normalized@ =~= nbsp_to_space(line@));
    let s1 = trim_start_set_exec(&normalized, CharSet::DigitCommaSpace);
    let stripped = trim_exec(&s1);
    if stripped.len() == 0 {
        return None;
    }
    let pos = match find_str(&stripped, " and ") {
        Some(p) => p,
        None => {
            return None;
        },
    };
    proof {
        lemma_find(stripped@, " and "@);
        reveal_strlit(" and ");
    }
    let b0 = slice_of(&stripped, 0, pos);
    let b1 = trim_exec(&b0);
    let before = cut_citations_exec(&b1);
    let a0 = slice_of(&stripped, pos + 5, stripped.len());
    let a1 = trim_exec(&a0);
    let after = cut_citations_exec(&a1);
    assert(b0@ =~= stripped@.take(pos as int));
    assert(a0@ =~= stripped@.skip(pos + 5));
    let bparts = split_char_exec(&before, ',');
    let mut authors = match leading_names_exec(&bparts) {
        Some(a) => a,
        None => {
            return None;
        },
    };
    let last = match extract_first_name(&after) {
        Some(l) => l,
        None => {
            return None;
        },
    };
    push_piece(&mut authors, last);
    if contains_char(&after, ',') {
        let aparts = split_char_exec(&after, ',');
        trailing_names_exec(&aparts, &mut authors);
    } else {
        assert(authors.deep_view() + Seq::<Seq<char>>::empty() =~= authors.deep_view());
    }
    if authors.len() >= 2 {
        Some(authors)
    } else {
        None
    }
}

// ---------------------------------------------------------------------------
// Affiliation markers
// ---------------------------------------------------------------------------

/// Removes every occurrence of `mk`, joining the text around it with ", "
/// (each step shortens the text, since every marker is longer than ", ").
pub open spec fn strip_one_marker(s: Seq<char>, mk: Seq<char>) -> Seq<char>
    decreases s.len(),
{
    match find(s, mk) {
        Some(pos) => if 0 <= pos && pos + mk.len() <= s.len() {
            let before = trim_end_set(s.take(pos), CharSet::SpaceComma);
            let after = trim_start_set(s.skip(pos + mk.len()), CharSet::SpaceComma);
            let n = trim(before + seq![',', ' '] + after);
            if n.len() < s.len() {
                strip_one_marker(n, mk)
            } else {
                n
            }
        } else {
            s
        },
        None => s,
    }
}

pub open spec fn strip_markers_from(s: Seq<char>, m: int) -> Seq<char>
    decreases 8 - m,
{
    if m < 0 || m >= 8 {
        s
    } else {
        strip_markers_from(strip_one_marker(s, author_markers()[m]), m + 1)
    }
}

pub open spec fn strip_member_markers_spec(line: Seq<char>) -> Seq<char> {
    trim(trim_end_set(strip_markers_from(line, 0), CharSet::Comma))
}

fn strip_one_marker_exec(s0: &Vec<char>, mk: &Vec<char>) -> (r: Vec<char>)
    ensures
        r@ == strip_one_marker(s0@, mk@),
{
    let mut s = s0.clone();
    loop
        invariant
            strip_one_marker(s0@, mk@) == strip_one_marker(s@, mk@),
        decreases s.len(),
    {
        match find_exec(&s, mk) {
            Some(pos) => {
                proof {
                    lemma_find(s@, mk@);
                }
                let p0 = slice_of(&s, 0, pos);
                let before = trim_end_set_exec(&p0, CharSet::SpaceComma);
                let q0 = slice_of(&s, pos + mk.len(), s.len());
                let after = trim_start_set_exec(&q0, CharSet::SpaceComma);
                assert(p0@ =~= s@.take(pos as int));
                assert(q0@ =~= s@.skip(pos + mk.len()));
                let mut joined = before;
                joined.push(',');
                joined.push(' ');
                append(&mut joined, &after);
                let n = trim_exec(&joined);
                assert(joined@ =~= before@ + seq![',', ' '] + after@);
                if n.len() < s.len() {
                    s = n;
                } else {
                    return n;
                }
            },
            None => {
                return s;
            },
        }
    }
}

pub fn strip_member_markers(line: &Vec<char>) -> (r: Vec<char>)
    ensures
        r@ == strip_member_markers_spec(line@),
{
    let mut cur = line.clone();
    let mut m: usize = 0;
    while m < 8
        invariant
            m <= 8,
            strip_markers_from(line@, 0) == strip_markers_from(cur@, m as int),
        decreases 8 - m,
    {
        let mk = chars_of(author_marker(m));
        cur = strip_one_marker_exec(&cur, &mk);
        m += 1;
    }
    let t = trim_end_set_exec(&cur, CharSet::Comma);
    trim_exec(&t)
}

// ---------------------------------------------------------------------------
// Trailing names in titles
// ---------------------------------------------------------------------------

/// A word that can be part of a person's name at the end of a title line.
pub open spec fn name_word(w: Seq<char>) -> bool {
    byte_len(w) <= 15 && starts_upper(w) && !is_preposition(unicode_lower(w))
}

fn name_word_exec(w: &Vec<char>) -> (b: bool)
    ensures
        b == name_word(w@),
{
    if byte_len_exec(w) > 15 || !starts_upper_exec(w) {
        return false;
    }
    let lw = lower(w);
    !is_preposition_exec(&lw)
}

/// The text without its last two words when they look like a name, if at
/// least five words are there and ten bytes remain.
pub open spec fn strip_trailing_name_spec(text: Seq<char>) -> Option<Seq<char>> {
    let ws = words(text);
    let n = ws.len();
    if n < 5 {
        None
    } else if !name_word(trim_end_set(ws[n - 1], CharSet::Comma)) || !name_word(ws[n - 2]) {
        None
    } else {
        let rem = join(ws.take(n - 2), " "@);
        if byte_len(rem) >= 10 {
            Some(rem)
        } else {
            None
        }
    }
}

fn strip_trailing_name_chars(text: &Vec<char>) -> (r: Option<Vec<char>>)
    ensures
        r matches Some(v) ==> strip_trailing_name_spec(text@) == Some(v@),
        r is None ==> strip_trailing_name_spec(text@) is None,
{
    broadcast use lemma_chars_deep_view;

    let ws = words_exec(text);
    let n = ws.len();
    if n < 5 {
        return None;
    }
    assert(ws.deep_view()[n - 1] == ws@[n - 1]@);
    assert(ws.deep_view()[n - 2] == ws@[n - 2]@);
    let last = trim_end_set_exec(&ws[n - 1], CharSet::Comma);
    if !name_word_exec(&last) || !name_word_exec(&ws[n - 2]) {
        return None;
    }
    let mut head: Vec<Vec<char>> = Vec::new();
    let mut i: usize = 0;
    assert(head.deep_view() =~= ws.deep_view().take(0));
    while i < n - 2
        invariant
            n == ws.len(),
            i <= n - 2,
            head.deep_view() == ws.deep_view().take(i as int),
        decreases n - 2 - i,
    {
        assert(ws.deep_view()[i as int] == ws@[i as int]@);
        push_piece(&mut head, ws[i].clone());
        assert(head.deep_view() =~= ws.deep_view().take(i + 1));
        i += 1;
    }
    let rem = join_str(&head, " ");
    if byte_len_exec(&rem) >= 10 {
        Some(rem)
    } else {
        None
    }
}

/// Strips a trailing author name (two capitalised words) from a text.
pub fn strip_trailing_name_from_text(text: &str) -> (r: Option<String>)
    ensures
        r matches Some(v) ==> strip_trailing_name_spec(text@) == Some(v@),
        r is None ==> strip_trailing_name_spec(text@) is None,
{
    let t = chars_of(text);
    match strip_trailing_name_chars(&t) {
        Some(v) => Some(string_from_chars(&v)),
        None => None,
    }
}

/// The title before the first affiliation marker (markers tried in order),
/// without a trailing author name, when at least ten bytes precede it.
pub open spec fn strip_author_from(title: Seq<char>, m: int) -> Seq<char>
    decreases 8 - m,
{
    if m < 0 || m >= 8 {
        title
    } else {
        match find(title, author_markers()[m]) {
            Some(idx) => {
                let before = trim(trim_end_set(title.take(idx), CharSet::SpaceComma));
                if byte_len(before) < 10 {
                    strip_author_from(title, m + 1)
                } else {
                    match strip_trailing_name_spec(before) {
                        Some(x) => x,
                        None => before,
                    }
                }
            },
            None => strip_author_from(title, m + 1),
        }
    }
}

/// Removes an author name and affiliation marker glued to the end of a title.
pub fn strip_author_from_title(title: &str) -> (r: String)
    ensures
        r@ == strip_author_from(title@, 0),
{
    let t = chars_of(title);
    let mut m: usize = 0;
    while m < 8
        invariant
            m <= 8,
            t@ == title@,
            strip_author_from(title@, 0) == strip_author_from(title@, m as int),
        decreases 8 - m,
    {
        match find_str(&t, author_marker(m)) {
            Some(idx) => {
                proof {
                    lemma_find(t@, author_markers()[m as int]);
                }
                let p0 = slice_of(&t, 0, idx);
                assert(p0@ =~= t@.take(idx as int));
                let p1 = trim_end_set_exec(&p0, CharSet::SpaceComma);
                let before = trim_exec(&p1);
                if byte_len_exec(&before) >= 10 {
                    return match strip_trailing_name_chars(&before) {
                        Some(x) => string_from_chars(&x),
                        None => string_from_chars(&before),
                    };
                }
            },
            None => {},
        }
        m += 1;
    }
    string_from_chars(&t)
}

// ---------------------------------------------------------------------------
// Line scans
// ---------------------------------------------------------------------------

/// Lines that are not blank.
pub open spec fn nonblank(ls: Seq<Seq<char>>) -> Seq<Seq<char>>
    decreases ls.len(),
{
    if ls.len() == 0 {
        seq![]
    } else {
        nonblank(ls.drop_last()) + if trim(ls.last()).len() > 0 {
            seq![ls.last()]
        } else {
            seq![]
        }
    }
}

/// The non-blank lines of a text.
pub fn nonblank_lines(text: &Vec<char>) -> (r: Vec<Vec<char>>)
    ensures
        r.deep_view() == nonblank(crate::text::lines(text@)),
{
    broadcast use lemma_chars_deep_view;

    let ls = crate::text::lines_exec(text);
    let mut out: Vec<Vec<char>> = Vec::new();
    let mut i: usize = 0;
    assert(out.deep_view() =~= nonblank(ls.deep_view().take(0)));
    while i < ls.len()
        invariant
            i <= ls.len(),
            out.deep_view() == nonblank(ls.deep_view().take(i as int)),
        decreases ls.len() - i,
    {
        let ghost t = ls.deep_view().take(i + 1);
        assert(t.drop_last() =~= ls.deep_view().take(i as int));
        assert(t.last() == ls@[i as int]@);
        let tr = trim_exec(&ls[i]);
        if tr.len() > 0 {
            push_piece(&mut out, ls[i].clone());
        }
        assert(out.deep_view() =~= nonblank(t));
        i += 1;
    }
    assert(ls.deep_view().take(ls.len() as int) =~= ls.deep_view());
    out
}

/// The line starts with "abstract" once trimmed and lowercased.
pub open spec fn is_abstract_line(l: Seq<char>) -> bool {
    crate::text::starts_with(unicode_lower(trim(l)), "abstract"@)
}

/// Index of the first abstract line at or after `i`.
pub open spec fn abstract_marker_from(ls: Seq<Seq<char>>, i: int) -> Option<int>
    decreases ls.len() - i,
{
    if i < 0 || i >= ls.len() {
        None
    } else if is_abstract_line(ls[i]) {
        Some(i)
    } else {
        abstract_marker_from(ls, i + 1)
    }
}

pub proof fn lemma_abstract_marker_from(ls: Seq<Seq<char>>, i: int)
    requires
        0 <= i,
    ensures
        abstract_marker_from(ls, i) matches Some(k) ==> i <= k < ls.len(),
    decreases ls.len() - i,
{
    if i < ls.len() && !is_abstract_line(ls[i]) {
        lemma_abstract_marker_from(ls, i + 1);
    }
}

/// Index of the first line that starts with "abstract" (case-insensitive).
pub fn find_abstract_marker(ls: &Vec<Vec<char>>) -> (r: Option<usize>)
    ensures
        r matches Some(k) ==> abstract_marker_from(ls.deep_view(), 0) == Some(k as int) && k
            < ls.len(),
        r is None ==> abstract_marker_from(ls.deep_view(), 0) is None,
{
    broadcast use lemma_chars_deep_view;

    let mut i: usize = 0;
    while i < ls.len()
        invariant
            i <= ls.len(),
            abstract_marker_from(ls.deep_view(), 0) == abstract_marker_from(
                ls.deep_view(),
                i as int,
            ),
        decreases ls.len() - i,
    {
        assert(ls.deep_view()[i as int] == ls@[i as int]@);
        let t = trim_exec(&ls[i]);
        let l = lower(&t);
        if crate::text::starts_with_str(&l, "abstract") {
            return Some(i);
        }
        i += 1;
    }
    None
}

/// The lowercased line names an affiliation or a section rather than authors.
pub open spec fn blocked_near_abstract(lw: Seq<char>) -> bool {
    contains(lw, "university"@) || contains(lw, "institute"@) || contains(lw, "department"@)
        || contains(lw, "abstract"@) || contains(lw, "keywords"@) || contains(lw, "www."@)
        || contains(lw, "e-mail"@) || contains(lw, "email"@)
}

fn blocked_near_abstract_exec(lw: &Vec<char>) -> (b: bool)
    ensures
        b == blocked_near_abstract(lw@),
{
    contains_str(lw, "university") || contains_str(lw, "institute") || contains_str(
        lw,
        "department",
    ) || contains_str(lw, "abstract") || contains_str(lw, "keywords") || contains_str(lw, "www.")
        || contains_str(lw, "e-mail") || contains_str(lw, "email")
}

/// The lowercased line is an affiliation, contact or history line.
pub open spec fn blocked_in_header(lw: Seq<char>) -> bool {
    contains(lw, "university"@) || contains(lw, "institute"@) || contains(lw, "department"@)
        || contains(lw, "abstract"@) || contains(lw, "www."@) || contains(lw, "e-mail"@)
        || contains(lw, "email"@) || contains(lw, "received"@)
}

fn blocked_in_header_exec(lw: &Vec<char>) -> (b: bool)
    ensures
        b == blocked_in_header(lw@),
{
    contains_str(lw, "university") || contains_str(lw, "institute") || contains_str(
        lw,
        "department",
    ) || contains_str(lw, "abstract") || contains_str(lw, "www.") || contains_str(lw, "e-mail")
        || contains_str(lw, "email") || contains_str(lw, "received")
}

/// The author-line extractor, then the "and"-pattern extractor.
pub open spec fn try_extract_spec(t: Seq<char>) -> Option<Seq<Seq<char>>> {
    match authors_from_line_spec(t) {
        Some(a) => Some(a),
        None => and_pattern_spec(t),
    }
}

pub fn try_extract_authors(t: &Vec<char>) -> (r: Option<Vec<Vec<char>>>)
    ensures
        r matches Some(v) ==> try_extract_spec(t@) == Some(v.deep_view()),
        r is None ==> try_extract_spec(t@) is None,
{
    match extract_authors_from_line(t) {
        Some(a) => Some(a),
        None => extract_authors_from_and_pattern(t),
    }
}

/// A line ending in "and" continued by the next line (before `boundary`),
/// when that line is 5 to 200 bytes long and not empty once cleaned.
pub open spec fn merge_trailing_and_spec(
    stripped: Seq<char>,
    ls: Seq<Seq<char>>,
    i: int,
    boundary: int,
) -> Seq<char> {
    let s = trim(stripped);
    if (ends_with(s, " and"@) || ends_with(s, ", and"@)) && i + 1 < boundary && i + 1
        < ls.len() {
        let nt = trim(ls[i + 1]);
        if 5 <= byte_len(nt) <= 200 {
            let ns = strip_member_markers_spec(working_line(nt));
            if ns.len() > 0 {
                s + " "@ + ns
            } else {
                stripped
            }
        } else {
            stripped
        }
    } else {
        stripped
    }
}

pub fn try_merge_trailing_and(
    stripped: &Vec<char>,
    ls: &Vec<Vec<char>>,
    i: usize,
    boundary: usize,
) -> (r: Vec<char>)
    ensures
        r@ == merge_trailing_and_spec(stripped@, ls.deep_view(), i as int, boundary as int),
{
    broadcast use lemma_chars_deep_view;

    let s = trim_exec(stripped);
    if (ends_with_str(&s, " and") || ends_with_str(&s, ", and")) && i < usize::MAX && i + 1
        < boundary && i + 1 < ls.len() {
        assert(ls.deep_view()[i + 1] == ls@[i + 1]@);
        let nt = trim_exec(&ls[i + 1]);
        let bl = byte_len_exec(&nt);
        if 5 <= bl && bl <= 200 {
            let w = working_line_exec(&nt);
            let ns = strip_member_markers(&w);
            if ns.len() > 0 {
                let mut out = s;
                append_str(&mut out, " ");
                append(&mut out, &ns);
                return out;
            }
        }
    }
    stripped.clone()
}

/// What the line `k` above the abstract line `idx` yields as authors.
pub open spec fn abstract_candidate(ls: Seq<Seq<char>>, idx: int, k: int) -> Option<
    Seq<Seq<char>>,
> {
    let trimmed = trim(ls[k]);
    let working = working_line(trimmed);
    if byte_len(working) < 5 || byte_len(working) > 200 {
        None
    } else if blocked_near_abstract(unicode_lower(working)) {
        None
    } else if has_author_marker(working) {
        let st = strip_member_markers_spec(working);
        try_extract_spec(merge_trailing_and_spec(st, ls, k, idx))
    } else {
        try_extract_spec(working)
    }
}

/// Scanning upwards from line `i - 1`: the first candidate with several authors.
pub open spec fn first_multi(ls: Seq<Seq<char>>, idx: int, i: int) -> Option<Seq<Seq<char>>>
    decreases i,
{
    if i <= 0 {
        None
    } else {
        match abstract_candidate(ls, idx, i - 1) {
            Some(a) => if a.len() > 1 {
                Some(a)
            } else {
                first_multi(ls, idx, i - 1)
            },
            None => first_multi(ls, idx, i - 1),
        }
    }
}

/// Scanning upwards from line `i - 1`: the first candidate at all.
pub open spec fn first_any(ls: Seq<Seq<char>>, idx: int, i: int) -> Option<Seq<Seq<char>>>
    decreases i,
{
    if i <= 0 {
        None
    } else {
        match abstract_candidate(ls, idx, i - 1) {
            Some(a) => Some(a),
            None => first_any(ls, idx, i - 1),
        }
    }
}

/// Authors above the abstract: the nearest line with several authors, else
/// the nearest line with one.
pub open spec fn above_abstract(ls: Seq<Seq<char>>, idx: int) -> Option<Seq<Seq<char>>> {
    match first_multi(ls, idx, idx) {
        Some(a) => Some(a),
        None => first_any(ls, idx, idx),
    }
}

fn abstract_candidate_exec(ls: &Vec<Vec<char>>, idx: usize, k: usize) -> (r: Option<
    Vec<Vec<char>>,
>)
    requires
        k < ls.len(),
    ensures
        r matches Some(v) ==> abstract_candidate(ls.deep_view(), idx as int, k as int) == Some(
            v.deep_view(),
        ),
        r is None ==> abstract_candidate(ls.deep_view(), idx as int, k as int) is None,
{
    broadcast use lemma_chars_deep_view;

    assert(ls.deep_view()[k as int] == ls@[k as int]@);
    let trimmed = trim_exec(&ls[k]);
    let working = working_line_exec(&trimmed);
    let bl = byte_len_exec(&working);
    if bl < 5 || bl > 200 {
        return None;
    }
    let lw = lower(&working);
    if blocked_near_abstract_exec(&lw) {
        return None;
    }
    if has_author_marker_exec(&working) {
        let st = strip_member_markers(&working);
        let ext = try_merge_trailing_and(&st, ls, k, idx);
        try_extract_authors(&ext)
    } else {
        try_extract_authors(&working)
    }
}

fn above_abstract_exec(ls: &Vec<Vec<char>>, idx: usize) -> (r: Option<Vec<Vec<char>>>)
    requires
        idx <= ls.len(),
    ensures
        r matches Some(v) ==> above_abstract(ls.deep_view(), idx as int) == Some(v.deep_view()),
        r is None ==> above_abstract(ls.deep_view(), idx as int) is None,
{
    let ghost lv = ls.deep_view();
    let mut fallback: Option<Vec<Vec<char>>> = None;
    let mut i: usize = idx;
    while i > 0
        invariant
            i <= idx <= ls.len(),
            lv == ls.deep_view(),
            first_multi(lv, idx as int, idx as int) == first_multi(lv, idx as int, i as int),
            fallback matches Some(f) ==> first_any(lv, idx as int, idx as int) == Some(
                f.deep_view(),
            ),
            fallback is None ==> first_any(lv, idx as int, idx as int) == first_any(
                lv,
                idx as int,
                i as int,
            ),
        decreases i,
    {
        let k = i - 1;
        match abstract_candidate_exec(ls, idx, k) {
            Some(a) => {
                if a.len() > 1 {
                    return Some(a);
                }
                if fallback.is_none() {
                    fallback = Some(a);
                }
            },
            None => {},
        }
        i = k;
    }
    fallback
}

/// The line starts a keywords or introduction section.
pub open spec fn is_section_start(l: Seq<char>) -> bool {
    let lw = unicode_lower(trim(l));
    crate::text::starts_with(lw, "keywords"@) || crate::text::starts_with(
        lw,
        "1. introduction"@,
    ) || crate::text::starts_with(lw, "1 introduction"@)
}

/// End of the header for the "and" scan: the first section start among the
/// first 30 lines, else 15 (or fewer lines).
pub open spec fn header_end_from(ls: Seq<Seq<char>>, i: int) -> int
    decreases ls.len() - i,
{
    if i < 0 || i >= ls.len() || i >= 30 {
        if ls.len() < 15 {
            ls.len() as int
        } else {
            15
        }
    } else if is_section_start(ls[i]) {
        i
    } else {
        header_end_from(ls, i + 1)
    }
}

/// What header line `k` yields through the "and" pattern.
pub open spec fn header_candidate(ls: Seq<Seq<char>>, k: int) -> Option<Seq<Seq<char>>> {
    let working = working_line(trim(ls[k]));
    if byte_len(working) < 5 || byte_len(working) > 200 {
        None
    } else if blocked_in_header(unicode_lower(working)) {
        None
    } else {
        and_pattern_spec(working)
    }
}

/// The first header line from `i` on (before `end`) with an "and" pattern.
pub open spec fn scan_and_from(ls: Seq<Seq<char>>, i: int, end: int) -> Option<Seq<Seq<char>>>
    decreases end - i,
{
    if i < 0 || i >= end || i >= ls.len() {
        None
    } else {
        match header_candidate(ls, i) {
            Some(a) => Some(a),
            None => scan_and_from(ls, i + 1, end),
        }
    }
}

fn header_end_exec(ls: &Vec<Vec<char>>) -> (end: usize)
    ensures
        end == header_end_from(ls.deep_view(), 0),
        end <= ls.len(),
{
    broadcast use lemma_chars_deep_view;

    let ghost lv = ls.deep_view();
    let mut b: usize = 0;
    while b < ls.len() && b < 30
        invariant
            b <= ls.len(),
            lv == ls.deep_view(),
            header_end_from(lv, 0) == header_end_from(lv, b as int),
        decreases ls.len() - b,
    {
        assert(lv[b as int] == ls@[b as int]@);
        let t = trim_exec(&ls[b]);
        let lw = lower(&t);
        if crate::text::starts_with_str(&lw, "keywords") || crate::text::starts_with_str(
            &lw,
            "1. introduction",
        ) || crate::text::starts_with_str(&lw, "1 introduction") {
            return b;
        }
        b += 1;
    }
    if ls.len() < 15 {
        ls.len()
    } else {
        15
    }
}

pub open spec fn scan_for_and_spec(ls: Seq<Seq<char>>) -> Option<Seq<Seq<char>>> {
    scan_and_from(ls, 0, header_end_from(ls, 0))
}

pub fn scan_for_and_pattern(ls: &Vec<Vec<char>>) -> (r: Option<Vec<Vec<char>>>)
    ensures
        r matches Some(v) ==> scan_for_and_spec(ls.deep_view()) == Some(v.deep_view()),
        r is None ==> scan_for_and_spec(ls.deep_view()) is None,
{
    broadcast use lemma_chars_deep_view;

    let ghost lv = ls.deep_view();
    let end = header_end_exec(ls);
    assert(end == header_end_from(lv, 0));
    let mut i: usize = 0;
    while i < end
        invariant
            i <= end <= ls.len(),
            lv == ls.deep_view(),
            end == header_end_from(lv, 0),
            scan_for_and_spec(lv) == scan_and_from(lv, i as int, end as int),
        decreases end - i,
    {
        assert(lv[i as int] == ls@[i as int]@);
        let working0 = trim_exec(&ls[i]);
        let working = working_line_exec(&working0);
        let bl = byte_len_exec(&working);
        if !(bl < 5 || bl > 200) {
            let lw = lower(&working);
            if !blocked_in_header_exec(&lw) {
                match extract_authors_from_and_pattern(&working) {
                    Some(a) => {
                        return Some(a);
                    },
                    None => {},
                }
            }
        }
        i += 1;
    }
    None
}

/// A word of a name at the end of a title line: capitalised, not a
/// particle, at most 15 bytes (trailing commas aside).
pub open spec fn tail_name_word(w: Seq<char>) -> bool {
    let clean = trim_end_set(w, CharSet::Comma);
    starts_upper(clean) && !is_preposition(unicode_lower(clean)) && byte_len(clean) <= 15
}

/// How many of the last (at most three) words are name words, counted from the end.
pub open spec fn tail_run(ws: Seq<Seq<char>>) -> int {
    let n = ws.len() as int;
    if n < 1 || !tail_name_word(ws[n - 1]) {
        0
    } else if n < 2 || !tail_name_word(ws[n - 2]) {
        1
    } else if n < 3 || !tail_name_word(ws[n - 3]) {
        2
    } else {
        3
    }
}

/// The last `k` words with their trailing commas removed.
pub open spec fn tail_words(ws: Seq<Seq<char>>, k: int) -> Seq<Seq<char>> {
    Seq::new(k as nat, |j: int| trim_end_set(ws[ws.len() - k + j], CharSet::Comma))
}

/// The author found on title line `k` (ending in a comma, followed by a
/// line with an affiliation marker), if any.
pub open spec fn title_line_at(ls: Seq<Seq<char>>, k: int) -> Option<Seq<char>> {
    let t = trim(ls[k]);
    let next: Seq<char> = if k + 1 < ls.len() {
        trim(ls[k + 1])
    } else {
        seq![]
    };
    if byte_len(t) < 20 || !ends_with(t, ","@) {
        None
    } else if !has_author_marker(next) {
        None
    } else {
        let via_strip = match strip_trailing_name_spec(t) {
            Some(st) => match crate::text::char_at_byte(t, byte_len(st) as int) {
                Some(q) => {
                    let ap = trim_end_set(trim(t.skip(q)), CharSet::Comma);
                    if ap.len() > 0 {
                        Some(ap)
                    } else {
                        None
                    }
                },
                None => None,
            },
            None => None,
        };
        if via_strip is Some {
            via_strip
        } else {
            let ws = words(t);
            if ws.len() < 5 {
                None
            } else if tail_run(ws) >= 2 {
                Some(join(tail_words(ws, tail_run(ws)), " "@))
            } else {
                None
            }
        }
    }
}

/// Scanning upwards from line `i - 1`: the first title line with an author.
pub open spec fn title_line_from(ls: Seq<Seq<char>>, i: int) -> Seq<Seq<char>>
    decreases i,
{
    if i <= 0 {
        seq![]
    } else {
        match title_line_at(ls, i - 1) {
            Some(n) => seq![n],
            None => title_line_from(ls, i - 1),
        }
    }
}

fn tail_name_word_exec(w: &Vec<char>) -> (b: bool)
    ensures
        b == tail_name_word(w@),
{
    let clean = trim_end_set_exec(w, CharSet::Comma);
    if !starts_upper_exec(&clean) {
        return false;
    }
    let lc = lower(&clean);
    !is_preposition_exec(&lc) && byte_len_exec(&clean) <= 15
}

fn title_line_at_exec(ls: &Vec<Vec<char>>, k: usize) -> (r: Option<Vec<char>>)
    requires
        k < ls.len(),
    ensures
        r matches Some(v) ==> title_line_at(ls.deep_view(), k as int) == Some(v@),
        r is None ==> title_line_at(ls.deep_view(), k as int) is None,
{
    broadcast use lemma_chars_deep_view;

    assert(ls.deep_view()[k as int] == ls@[k as int]@);
    let t = trim_exec(&ls[k]);
    if byte_len_exec(&t) < 20 || !ends_with_str(&t, ",") {
        return None;
    }
    let next: Vec<char> = if k + 1 < ls.len() {
        assert(ls.deep_view()[k + 1] == ls@[k + 1]@);
        trim_exec(&ls[k + 1])
    } else {
        Vec::new()
    };
    if !has_author_marker_exec(&next) {
        return None;
    }
    match strip_trailing_name_chars(&t) {
        Some(st) => {
            let bst = byte_len_exec(&st);
            match crate::text::char_at_byte_exec(&t, bst) {
                Some(q) => {
                    proof {
                        crate::text::lemma_char_at_byte_from(t@, bst as int, 0);
                    }
                    let s0 = slice_of(&t, q, t.len());
                    assert(s0@ =~= t@.skip(q as int));
                    let s1 = trim_exec(&s0);
                    let ap = trim_end_set_exec(&s1, CharSet::Comma);
                    if ap.len() > 0 {
                        return Some(ap);
                    }
                },
                None => {},
            }
        },
        None => {},
    }
    let ws = words_exec(&t);
    let n = ws.len();
    if n < 5 {
        return None;
    }
    let mut run: usize = 0;
    assert(ws.deep_view()[n - 1] == ws@[n - 1]@);
    assert(ws.deep_view()[n - 2] == ws@[n - 2]@);
    assert(ws.deep_view()[n - 3] == ws@[n - 3]@);
    if tail_name_word_exec(&ws[n - 1]) {
        run = 1;
        if tail_name_word_exec(&ws[n - 2]) {
            run = 2;
            if tail_name_word_exec(&ws[n - 3]) {
                run = 3;
            }
        }
    }
    assert(run == tail_run(ws.deep_view()));
    if run < 2 {
        return None;
    }
    let mut names: Vec<Vec<char>> = Vec::new();
    let mut j: usize = 0;
    assert(names.deep_view() =~= tail_words(ws.deep_view(), run as int).take(0));
    while j < run
        invariant
            j <= run <= 3,
            n == ws.len(),
            n >= 5,
            names.deep_view() == tail_words(ws.deep_view(), run as int).take(j as int),
        decreases run - j,
    {
        assert(ws.deep_view()[n - run + j] == ws@[n - run + j]@);
        let w = trim_end_set_exec(&ws[n - run + j], CharSet::Comma);
        push_piece(&mut names, w);
        assert(names.deep_view() =~= tail_words(ws.deep_view(), run as int).take(j + 1));
        j += 1;
    }
    assert(tail_words(ws.deep_view(), run as int).take(run as int) =~= tail_words(
        ws.deep_view(),
        run as int,
    ));
    Some(join_str(&names, " "))
}

fn title_line_from_exec(ls: &Vec<Vec<char>>, end: usize) -> (r: Vec<Vec<char>>)
    requires
        end <= ls.len(),
    ensures
        r.deep_view() == title_line_from(ls.deep_view(), end as int),
{
    let mut i: usize = end;
    while i > 0
        invariant
            i <= end <= ls.len(),
            title_line_from(ls.deep_view(), end as int) == title_line_from(
                ls.deep_view(),
                i as int,
            ),
        decreases i,
    {
        let k = i - 1;
        match title_line_at_exec(ls, k) {
            Some(n) => {
                let mut out: Vec<Vec<char>> = Vec::new();
                push_piece(&mut out, n);
                assert(out.deep_view() =~= seq![n@]);
                return out;
            },
            None => {},
        }
        i = k;
    }
    let out: Vec<Vec<char>> = Vec::new();
    assert(out.deep_view() =~= Seq::<Seq<char>>::empty());
    out
}

/// The authors guessed from the text of a paper's first page(s):
/// the lines above the abstract first; without an abstract line, an
/// "A, B and C" header line; else a name at the end of a title line.
pub open spec fn guess_authors_spec(text: Seq<char>) -> Seq<Seq<char>> {
    let ls = nonblank(crate::text::lines(text));
    match abstract_marker_from(ls, 0) {
        Some(idx) => match above_abstract(ls, idx) {
            Some(a) => a,
            None => title_line_from(ls, idx),
        },
        None => match scan_for_and_spec(ls) {
            Some(a) => a,
            None => title_line_from(
                ls,
                if ls.len() < 10 {
                    ls.len() as int
                } else {
                    10
                },
            ),
        },
    }
}

/// Guesses the author names from the text of a paper.
pub fn guess_authors(full_text: &str) -> (r: Vec<String>)
    ensures
        r.deep_view() == guess_authors_spec(full_text@),
{
    let text = chars_of(full_text);
    let ls = nonblank_lines(&text);
    let found: Vec<Vec<char>> = match find_abstract_marker(&ls) {
        Some(idx) => match above_abstract_exec(&ls, idx) {
            Some(a) => a,
            None => title_line_from_exec(&ls, idx),
        },
        None => match scan_for_and_pattern(&ls) {
            Some(a) => a,
            None => {
                let end = if ls.len() < 10 {
                    ls.len()
                } else {
                    10
                };
                title_line_from_exec(&ls, end)
            },
        },
    };
    strings_of(&found)
}

} // verus!
