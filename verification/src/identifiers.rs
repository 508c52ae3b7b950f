//! DOI and arXiv identifiers found in the first pages of a paper.
use vstd::prelude::*;
use crate::journal::{first_pages_chars, first_pages_spec};
use crate::matching::{
    caps_or_empty, captures_of, group, group_exec, lemma_spans_deep_view, regex_captures, span_in,
    span_in_exec,
};
use crate::text::{
    char_at_byte, char_at_byte_exec, char_is_alphabetic, char_is_alphanumeric, char_is_ws,
    chars_of, ends_with, ends_with_str, is_digit, is_ws, lower, slice_of, split_char,
    split_char_exec, string_from_chars, unicode_alphabetic, unicode_alphanumeric, unicode_lower,
};

verus! {

/// The identifiers of a paper, when found.
pub struct PaperIdentifiers {
    pub doi: Option<String>,
    pub arxiv_id: Option<String>,
}

/// A DOI standing as a word, any case.
pub open spec fn doi_pattern() -> Seq<char> {
    "(?i)\\b10\\.\\d{4,9}/[-._;()/:A-Z0-9]+[A-Z0-9]"@
}

pub fn doi_pattern_str() -> (r: &'static str)
    ensures
        r@ == doi_pattern(),
{
    "(?i)\\b10\\.\\d{4,9}/[-._;()/:A-Z0-9]+[A-Z0-9]"
}

/// An arXiv id: new scheme `YYMM.NNNN(N)` with a version (group 1), or old
/// scheme `archive/NNNNNNN` (group 2), either after an optional `arxiv:`.
pub open spec fn arxiv_pattern() -> Seq<char> {
    "(?i)\\b(?:arxiv:)?(\\d{4}\\.\\d{4,5}(?:v\\d+)?)\\b|\\b(?:arxiv:)?([a-z\\-]+(?:\\.[a-z]+)?/\\d{7}(?:v\\d+)?)\\b"@
}

pub fn arxiv_pattern_str() -> (r: &'static str)
    ensures
        r@ == arxiv_pattern(),
{
    "(?i)\\b(?:arxiv:)?(\\d{4}\\.\\d{4,5}(?:v\\d+)?)\\b|\\b(?:arxiv:)?([a-z\\-]+(?:\\.[a-z]+)?/\\d{7}(?:v\\d+)?)\\b"
}

/// The first `n` pages of a text, pages being separated by form feeds.
pub fn first_pages(text: &str, n: usize) -> (r: String)
    ensures
        r@ == first_pages_spec(text@, n as int),
{
    let t = chars_of(text);
    let f = first_pages_chars(&t, n);
    string_from_chars(&f)
}

// ---------------------------------------------------------------------------
// arXiv ids
// ---------------------------------------------------------------------------

pub open spec fn digit_at(s: Seq<char>, i: int) -> int {
    (s[i] as u32) - ('0' as u32)
}

/// A new-scheme id whose `YYMM` (before the first `v` and `.`) is four ASCII
/// digits with a year in 1991..=2030 (`91..=99` or `00..=30`) and a month in
/// `01..=12`.
pub open spec fn is_valid_arxiv_new_scheme_spec(id: Seq<char>) -> bool {
    let core = split_char(id, 'v')[0];
    let yymm = split_char(core, '.')[0];
    let yy = 10 * digit_at(yymm, 0) + digit_at(yymm, 1);
    let mm = 10 * digit_at(yymm, 2) + digit_at(yymm, 3);
    &&& yymm.len() == 4
    &&& forall|i: int| 0 <= i < 4 ==> is_digit(#[trigger] yymm[i])
    &&& ((91 <= yy <= 99) || yy <= 30)
    &&& 1 <= mm <= 12
}

fn valid_new_scheme_chars(id: &Vec<char>) -> (r: bool)
    ensures
        r == is_valid_arxiv_new_scheme_spec(id@),
{
    broadcast use crate::text::lemma_chars_deep_view;

    let vs = split_char_exec(id, 'v');
    proof {
        crate::text::lemma_split_char_nonempty(id@, 'v');
        assert(vs.deep_view()[0] == vs@[0]@);
    }
    let ds = split_char_exec(&vs[0], '.');
    proof {
        crate::text::lemma_split_char_nonempty(vs@[0]@, '.');
        assert(ds.deep_view()[0] == ds@[0]@);
    }
    let yymm = &ds[0];
    if yymm.len() != 4 {
        return false;
    }
    let mut i: usize = 0;
    while i < 4
        invariant
            i <= 4,
            yymm.len() == 4,
            yymm@ == split_char(split_char(id@, 'v')[0], '.')[0],
            forall|k: int| 0 <= k < i ==> is_digit(#[trigger] yymm@[k]),
        decreases 4 - i,
    {
        if !(yymm[i] >= '0' && yymm[i] <= '9') {
            return false;
        }
        i += 1;
    }
    let d0 = (yymm[0] as u32 - '0' as u32);
    let d1 = (yymm[1] as u32 - '0' as u32);
    let d2 = (yymm[2] as u32 - '0' as u32);
    let d3 = (yymm[3] as u32 - '0' as u32);
    let yy = 10 * d0 + d1;
    let mm = 10 * d2 + d3;
    ((91 <= yy && yy <= 99) || yy <= 30) && (1 <= mm && mm <= 12)
}

/// Checks a new-scheme arXiv id: year from 1991, month 01 to 12.
pub fn is_valid_arxiv_new_scheme(id: &str) -> (r: bool)
    ensures
        r == is_valid_arxiv_new_scheme_spec(id@),
{
    let v = chars_of(id);
    valid_new_scheme_chars(&v)
}

/// The match starting at character `q` stands on its own: at the start of
/// the text, after `arxiv:` (any case), after whitespace, after a dot that
/// does not follow a letter, or after any other non-alphanumeric character.
pub open spec fn standalone_at(text: Seq<char>, q: int) -> bool {
    let before = text.take(q);
    if q <= 0 {
        true
    } else if ends_with(unicode_lower(before), "arxiv:"@) {
        true
    } else if is_ws(before.last()) {
        true
    } else if before.last() == '.' {
        !(before.len() >= 2 && unicode_alphabetic(before[before.len() - 2]))
    } else {
        !unicode_alphanumeric(before.last())
    }
}

fn standalone_at_exec(text: &Vec<char>, q: usize) -> (r: bool)
    requires
        q <= text.len(),
    ensures
        r == standalone_at(text@, q as int),
{
    if q == 0 {
        return true;
    }
    let before = slice_of(text, 0, q);
    assert(before@ =~= text@.take(q as int));
    let l = lower(&before);
    if ends_with_str(&l, "arxiv:") {
        return true;
    }
    let prev = before[q - 1];
    if char_is_ws(prev) {
        return true;
    }
    if prev == '.' {
        if q >= 2 && char_is_alphabetic(before[q - 2]) {
            return false;
        }
        return true;
    }
    !char_is_alphanumeric(prev)
}

/// Whether the match at byte offset `match_start` of `text` stands on its
/// own, not glued to a word or a path such as `pa.2011.0680.DC1.html`.
pub fn is_standalone_arxiv_id(text: &str, match_start: usize) -> (r: bool)
    requires
        char_at_byte(text@, match_start as int) is Some,
    ensures
        r == standalone_at(text@, char_at_byte(text@, match_start as int)->0),
{
    let t = chars_of(text);
    match char_at_byte_exec(&t, match_start as u128) {
        Some(q) => {
            proof {
                crate::text::lemma_char_at_byte_from(t@, match_start as int, 0);
            }
            standalone_at_exec(&t, q)
        },
        None => false,
    }
}

// ---------------------------------------------------------------------------
// Search
// ---------------------------------------------------------------------------

/// The first DOI match, lowercased, without one trailing `.`, `;` or `,`.
pub open spec fn doi_from(scope: Seq<char>, dois: Seq<Seq<Option<(usize, usize)>>>) -> Option<
    Seq<char>,
> {
    if dois.len() == 0 {
        None
    } else {
        match span_in(scope, group(dois[0], 0)) {
            Some((a, c)) => {
                let d = unicode_lower(scope.subrange(a, c));
                Some(
                    if d.len() > 0 && (d.last() == '.' || d.last() == ';' || d.last() == ',') {
                        d.drop_last()
                    } else {
                        d
                    },
                )
            },
            None => None,
        }
    }
}

/// Some DOI match overlaps the byte range `[s, e)`.
pub open spec fn overlaps_doi(dois: Seq<Seq<Option<(usize, usize)>>>, s: int, e: int) -> bool {
    exists|k: int|
        0 <= k < dois.len() && (#[trigger] group(dois[k], 0) matches Some((ds, de)) && s < de && e
            > ds)
}

/// The first arXiv match, from the `i`-th on, that is accepted: an old
/// scheme id as found; a new scheme id only outside every DOI, valid and
/// standing on its own.
pub open spec fn arxiv_from(
    scope: Seq<char>,
    dois: Seq<Seq<Option<(usize, usize)>>>,
    ids: Seq<Seq<Option<(usize, usize)>>>,
    i: int,
) -> Option<Seq<char>>
    decreases ids.len() - i,
{
    if i < 0 || i >= ids.len() {
        None
    } else {
        match group(ids[i], 1) {
            Some((s, e)) => {
                if overlaps_doi(dois, s as int, e as int) {
                    arxiv_from(scope, dois, ids, i + 1)
                } else {
                    match span_in(scope, Some((s, e))) {
                        Some((a, c)) => if is_valid_arxiv_new_scheme_spec(scope.subrange(a, c))
                            && standalone_at(scope, a) {
                            Some(scope.subrange(a, c))
                        } else {
                            arxiv_from(scope, dois, ids, i + 1)
                        },
                        None => arxiv_from(scope, dois, ids, i + 1),
                    }
                }
            },
            None => match span_in(scope, group(ids[i], 2)) {
                Some((a, c)) => Some(scope.subrange(a, c)),
                None => arxiv_from(scope, dois, ids, i + 1),
            },
        }
    }
}

fn overlaps_doi_exec(dois: &Vec<Vec<Option<(usize, usize)>>>, s: usize, e: usize) -> (r: bool)
    ensures
        r == overlaps_doi(dois.deep_view(), s as int, e as int),
{
    broadcast use lemma_spans_deep_view;

    let ghost dv = dois.deep_view();
    let mut k: usize = 0;
    while k < dois.len()
        invariant
            k <= dois.len(),
            dv == dois.deep_view(),
            forall|j: int|
                0 <= j < k ==> !(#[trigger] group(dv[j], 0) matches Some((ds, de)) && s < de && e
                    > ds),
        decreases dois.len() - k,
    {
        assert(dv[k as int] == dois@[k as int]@);
        match group_exec(&dois[k], 0) {
            Some((ds, de)) => {
                if s < de && e > ds {
                    return true;
                }
            },
            None => {},
        }
        k += 1;
    }
    false
}

fn doi_from_exec(scope: &Vec<char>, dois: &Vec<Vec<Option<(usize, usize)>>>) -> (r: Option<
    Vec<char>,
>)
    ensures
        r matches Some(v) ==> doi_from(scope@, dois.deep_view()) == Some(v@),
        r is None ==> doi_from(scope@, dois.deep_view()) is None,
{
    broadcast use lemma_spans_deep_view;

    if dois.len() == 0 {
        return None;
    }
    assert(dois.deep_view()[0] == dois@[0]@);
    match span_in_exec(scope, group_exec(&dois[0], 0)) {
        Some((a, c)) => {
            let m = slice_of(scope, a, c);
            let mut d = lower(&m);
            let n = d.len();
            if n > 0 && (d[n - 1] == '.' || d[n - 1] == ';' || d[n - 1] == ',') {
                d.pop();
                assert(d@ =~= unicode_lower(scope@.subrange(a as int, c as int)).drop_last());
            }
            Some(d)
        },
        None => None,
    }
}

fn arxiv_from_exec(
    scope: &Vec<char>,
    dois: &Vec<Vec<Option<(usize, usize)>>>,
    ids: &Vec<Vec<Option<(usize, usize)>>>,
) -> (r: Option<Vec<char>>)
    ensures
        r matches Some(v) ==> arxiv_from(scope@, dois.deep_view(), ids.deep_view(), 0) == Some(v@),
        r is None ==> arxiv_from(scope@, dois.deep_view(), ids.deep_view(), 0) is None,
{
    broadcast use lemma_spans_deep_view;

    let ghost dv = dois.deep_view();
    let ghost iv = ids.deep_view();
    let mut i: usize = 0;
    while i < ids.len()
        invariant
            i <= ids.len(),
            dv == dois.deep_view(),
            iv == ids.deep_view(),
            arxiv_from(scope@, dv, iv, 0) == arxiv_from(scope@, dv, iv, i as int),
        decreases ids.len() - i,
    {
        assert(iv[i as int] == ids@[i as int]@);
        match group_exec(&ids[i], 1) {
            Some((s, e)) => {
                if !overlaps_doi_exec(dois, s, e) {
                    match span_in_exec(scope, Some((s, e))) {
                        Some((a, c)) => {
                            let id = slice_of(scope, a, c);
                            if valid_new_scheme_chars(&id) && standalone_at_exec(scope, a) {
                                return Some(id);
                            }
                        },
                        None => {},
                    }
                }
            },
            None => {
                match span_in_exec(scope, group_exec(&ids[i], 2)) {
                    Some((a, c)) => {
                        return Some(slice_of(scope, a, c));
                    },
                    None => {},
                }
            },
        }
        i += 1;
    }
    None
}

pub open spec fn doi_of_text(scope: Seq<char>) -> Option<Seq<char>> {
    doi_from(scope, caps_or_empty(regex_captures(doi_pattern(), scope)))
}

pub open spec fn arxiv_of_text(scope: Seq<char>) -> Option<Seq<char>> {
    arxiv_from(
        scope,
        caps_or_empty(regex_captures(doi_pattern(), scope)),
        caps_or_empty(regex_captures(arxiv_pattern(), scope)),
        0,
    )
}

fn string_of_opt(v: Option<Vec<char>>) -> (r: Option<String>)
    ensures
        r.deep_view() == (match v {
            Some(x) => Some(x@),
            None => None::<Seq<char>>,
        }),
{
    match v {
        Some(x) => Some(string_from_chars(&x)),
        None => None,
    }
}

/// Picks the identifiers of `scope` from the DOI and arXiv matches given.
pub fn identifiers_from_matches(
    scope: &str,
    dois: &Vec<Vec<Option<(usize, usize)>>>,
    ids: &Vec<Vec<Option<(usize, usize)>>>,
) -> (r: PaperIdentifiers)
    ensures
        r.doi.deep_view() == doi_from(scope@, dois.deep_view()),
        r.arxiv_id.deep_view() == arxiv_from(scope@, dois.deep_view(), ids.deep_view(), 0),
{
    let s = chars_of(scope);
    let doi = doi_from_exec(&s, dois);
    let arxiv = arxiv_from_exec(&s, dois, ids);
    PaperIdentifiers { doi: string_of_opt(doi), arxiv_id: string_of_opt(arxiv) }
}

/// Looks for a DOI and an arXiv id in the first two pages of a text.
pub fn search_academic_identifiers(page_text: &str) -> (r: PaperIdentifiers)
    ensures
        r.doi.deep_view() == doi_of_text(first_pages_spec(page_text@, 2)),
        r.arxiv_id.deep_view() == arxiv_of_text(first_pages_spec(page_text@, 2)),
{
    let t = chars_of(page_text);
    let scope = first_pages_chars(&t, 2);
    let dois = captures_of(doi_pattern_str(), &scope);
    let ids = captures_of(arxiv_pattern_str(), &scope);
    let doi = doi_from_exec(&scope, &dois);
    let arxiv = arxiv_from_exec(&scope, &dois, &ids);
    PaperIdentifiers { doi: string_of_opt(doi), arxiv_id: string_of_opt(arxiv) }
}

} // verus!
