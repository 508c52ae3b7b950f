//! Journal name and publication year from the first pages of a paper.
use vstd::prelude::*;
use crate::matching::{
    caps_or_empty, captures_of, first_group, first_group_exec, regex_captures, regex_replace_all,
    replace_all_matches, span_in_exec, span_text,
};
use crate::number::{parse_i64, parse_i64_spec};
use crate::text::{
    byte_len, byte_len_exec, chars_of, contains, contains_str, join, join_str, lemma_chars_deep_view,
    lines, lines_exec, lower, slice_of, split_char, split_char_exec, starts_with, starts_with_str,
    string_from_chars, trim, trim_end_set, trim_end_set_exec, trim_exec, unicode_lower,
    unicode_upper, upper, CharSet,
};

verus! {

/// Line openings that name a journal, tried in this order.
pub open spec fn journal_prefixes() -> Seq<Seq<char>> {
    seq![
        "IEEE TRANSACTIONS ON"@,
        "IEEE JOURNAL ON"@,
        "JOURNAL OF"@,
        "PROCEEDINGS OF"@,
        "LECTURE NOTES IN"@,
        "ACM TRANSACTIONS ON"@,
        "PHYSICAL REVIEW LETTERS"@,
        "PHYSICAL REVIEW"@,
        "PROC. R. SOC."@,
        "LINEAR ALGEBRA AND ITS APPLICATIONS"@,
        "NATURE"@,
        "SCIENCE"@,
        "SOCIAL NETWORKS"@,
        "J. MATH. PHYS."@,
        "PHASE TRANSITIONS"@,
        "DISCRETE MATHEMATICS"@,
        "DISCRETE MATH."@,
        "DISCRETE MATH"@,
    ]
}

pub fn journal_prefix(i: usize) -> (r: &'static str)
    requires
        i < 18,
    ensures
        r@ == journal_prefixes()[i as int],
{
    match i {
        0 => "IEEE TRANSACTIONS ON",
        1 => "IEEE JOURNAL ON",
        2 => "JOURNAL OF",
        3 => "PROCEEDINGS OF",
        4 => "LECTURE NOTES IN",
        5 => "ACM TRANSACTIONS ON",
        6 => "PHYSICAL REVIEW LETTERS",
        7 => "PHYSICAL REVIEW",
        8 => "PROC. R. SOC.",
        9 => "LINEAR ALGEBRA AND ITS APPLICATIONS",
        10 => "NATURE",
        11 => "SCIENCE",
        12 => "SOCIAL NETWORKS",
        13 => "J. MATH. PHYS.",
        14 => "PHASE TRANSITIONS",
        15 => "DISCRETE MATHEMATICS",
        16 => "DISCRETE MATH.",
        _ => "DISCRETE MATH",
    }
}

/// A four-digit year from 1950 to 2039 standing as a word (group 1).
pub open spec fn year_pattern() -> Seq<char> {
    "\\b(19[5-9]\\d|20[0-3]\\d)\\b"@
}

pub fn year_pattern_str() -> (r: &'static str)
    ensures
        r@ == year_pattern(),
{
    "\\b(19[5-9]\\d|20[0-3]\\d)\\b"
}

/// Trailing noise after a journal name: a volume or issue marker, a volume
/// with a parenthesised year, `2016.08:`, a DOI, or a final year.
pub open spec fn noise_pattern() -> Seq<char> {
    "(?i),?\\s+(?:vol\\.|no\\.)\\s*\\d|,?\\s+\\d{1,4}\\s*\\(|\\s+\\d{4}\\.\\d{2}\\s*:|\\s+10\\.\\d{4,}/|,?\\s+\\d{4}\\s*$"@
}

pub fn noise_pattern_str() -> (r: &'static str)
    ensures
        r@ == noise_pattern(),
{
    "(?i),?\\s+(?:vol\\.|no\\.)\\s*\\d|,?\\s+\\d{1,4}\\s*\\(|\\s+\\d{4}\\.\\d{2}\\s*:|\\s+10\\.\\d{4,}/|,?\\s+\\d{4}\\s*$"
}

/// The word "download" or "downloaded", any case.
pub open spec fn download_pattern() -> Seq<char> {
    "(?i)\\bdownload(?:ed)?\\b"@
}

pub fn download_pattern_str() -> (r: &'static str)
    ensures
        r@ == download_pattern(),
{
    "(?i)\\bdownload(?:ed)?\\b"
}

/// A DOI, any case, so that its digits are not read as a year.
pub open spec fn doi_in_line_pattern() -> Seq<char> {
    "(?i)10\\.\\d{4,9}/[-._;()/:A-Z0-9]+[A-Z0-9]"@
}

pub fn doi_in_line_pattern_str() -> (r: &'static str)
    ensures
        r@ == doi_in_line_pattern(),
{
    "(?i)10\\.\\d{4,9}/[-._;()/:A-Z0-9]+[A-Z0-9]"
}

// ---------------------------------------------------------------------------
// Journal name
// ---------------------------------------------------------------------------

/// A trimmed name cut before its first noise match, then stripped of
/// trailing commas and surrounding whitespace.
pub open spec fn cut_journal_name(name: Seq<char>, noise: Seq<Seq<Option<(usize, usize)>>>) -> Seq<
    char,
> {
    let cut = match crate::matching::span_in(name, first_group(noise, 0)) {
        Some((a, _)) => name.take(a),
        None => name,
    };
    trim(trim_end_set(cut, CharSet::Comma))
}

pub open spec fn clean_journal_name_spec(raw: Seq<char>) -> Seq<char> {
    let name = trim(raw);
    cut_journal_name(name, caps_or_empty(regex_captures(noise_pattern(), name)))
}

/// Cuts a trimmed journal line at the first noise match given.
pub fn journal_name_before_noise(name: &str, noise: &Vec<Vec<Option<(usize, usize)>>>) -> (r:
    String)
    ensures
        r@ == cut_journal_name(name@, noise.deep_view()),
{
    let n = chars_of(name);
    let c = cut_name_chars(&n, noise);
    string_from_chars(&c)
}

fn cut_name_chars(name: &Vec<char>, noise: &Vec<Vec<Option<(usize, usize)>>>) -> (r: Vec<char>)
    ensures
        r@ == cut_journal_name(name@, noise.deep_view()),
{
    let g = first_group_exec(noise, 0);
    let cut = match span_in_exec(name, g) {
        Some((a, _)) => {
            let c = slice_of(name, 0, a);
            assert(c@ =~= name@.take(a as int));
            c
        },
        None => slice_of(name, 0, name.len()),
    };
    assert(name@.subrange(0, name.len() as int) =~= name@);
    let t = trim_end_set_exec(&cut, CharSet::Comma);
    trim_exec(&t)
}

fn clean_name_chars(raw: &Vec<char>) -> (r: Vec<char>)
    ensures
        r@ == clean_journal_name_spec(raw@),
{
    let name = trim_exec(raw);
    let noise = captures_of(noise_pattern_str(), &name);
    cut_name_chars(&name, &noise)
}

/// Strips volume, page, DOI and year noise from a journal header line.
pub fn clean_journal_name(raw: &str) -> (r: String)
    ensures
        r@ == clean_journal_name_spec(raw@),
{
    let v = chars_of(raw);
    let c = clean_name_chars(&v);
    string_from_chars(&c)
}

/// Among the first ten lines, the first non-blank one whose uppercase form
/// opens with `prefix` and whose cleaned name is at least as long as the
/// prefix, in bytes of its uppercase form; that cleaned name.
pub open spec fn journal_in_lines(ls: Seq<Seq<char>>, prefix: Seq<char>, k: int) -> Option<
    Seq<char>,
>
    decreases ls.len() - k,
{
    if k < 0 || k >= ls.len() || k >= 10 {
        None
    } else {
        let t = trim(ls[k]);
        let name = clean_journal_name_spec(t);
        if t.len() > 0 && starts_with(unicode_upper(t), prefix) && byte_len(unicode_upper(name))
            >= byte_len(prefix) {
            Some(name)
        } else {
            journal_in_lines(ls, prefix, k + 1)
        }
    }
}

/// The journal of the first prefix, from `p` on, that some line opens with.
pub open spec fn journal_from(ls: Seq<Seq<char>>, p: int) -> Option<Seq<char>>
    decreases 18 - p,
{
    if p < 0 || p >= 18 {
        None
    } else {
        match journal_in_lines(ls, journal_prefixes()[p], 0) {
            Some(n) => Some(n),
            None => journal_from(ls, p + 1),
        }
    }
}

fn journal_in_lines_exec(ls: &Vec<Vec<char>>, p: usize) -> (r: Option<Vec<char>>)
    requires
        p < 18,
    ensures
        r matches Some(v) ==> journal_in_lines(ls.deep_view(), journal_prefixes()[p as int], 0)
            == Some(v@),
        r is None ==> journal_in_lines(ls.deep_view(), journal_prefixes()[p as int], 0) is None,
{
    broadcast use lemma_chars_deep_view;

    let prefix = journal_prefix(p);
    let pv = chars_of(prefix);
    let ghost lv = ls.deep_view();
    let ghost pre = journal_prefixes()[p as int];
    let mut k: usize = 0;
    while k < ls.len() && k < 10
        invariant
            k <= ls.len(),
            lv == ls.deep_view(),
            p < 18,
            pre == journal_prefixes()[p as int],
            pv@ == pre,
            prefix@ == pre,
            journal_in_lines(lv, pre, 0) == journal_in_lines(lv, pre, k as int),
        decreases ls.len() - k,
    {
        assert(lv[k as int] == ls@[k as int]@);
        let t = trim_exec(&ls[k]);
        if t.len() > 0 {
            let u = upper(&t);
            if starts_with_str(&u, prefix) {
                let name = clean_name_chars(&t);
                let nu = upper(&name);
                if byte_len_exec(&nu) >= byte_len_exec(&pv) {
                    assert(t@ == trim(lv[k as int]));
                    assert(journal_in_lines(lv, pre, k as int) == Some(name@));
                    return Some(name);
                }
            }
        }
        k += 1;
    }
    None
}

fn journal_from_exec(ls: &Vec<Vec<char>>) -> (r: Option<Vec<char>>)
    ensures
        r matches Some(v) ==> journal_from(ls.deep_view(), 0) == Some(v@),
        r is None ==> journal_from(ls.deep_view(), 0) is None,
{
    let mut p: usize = 0;
    while p < 18
        invariant
            p <= 18,
            journal_from(ls.deep_view(), 0) == journal_from(ls.deep_view(), p as int),
        decreases 18 - p,
    {
        match journal_in_lines_exec(ls, p) {
            Some(n) => {
                return Some(n);
            },
            None => {},
        }
        p += 1;
    }
    None
}

// ---------------------------------------------------------------------------
// Year
// ---------------------------------------------------------------------------

/// The year read from group 1 of the first year match in `cleaned`.
pub open spec fn year_in(cleaned: Seq<char>, years: Seq<Seq<Option<(usize, usize)>>>) -> Option<
    i64,
> {
    match span_text(cleaned, first_group(years, 1)) {
        Some(t) => parse_i64_spec(t),
        None => None,
    }
}

/// The line with every DOI removed, so that its digits are not read as a year.
pub open spec fn without_dois(line: Seq<char>) -> Seq<char> {
    match regex_replace_all(doi_in_line_pattern(), line, ""@) {
        Some(c) => c,
        None => line,
    }
}

pub open spec fn year_from_line_spec(line: Seq<char>) -> Option<i64> {
    let cleaned = without_dois(line);
    year_in(cleaned, caps_or_empty(regex_captures(year_pattern(), cleaned)))
}

/// Reads the year of the first year match given for `cleaned`.
pub fn year_from_matches(cleaned: &str, years: &Vec<Vec<Option<(usize, usize)>>>) -> (r: Option<
    i64,
>)
    ensures
        r == year_in(cleaned@, years.deep_view()),
{
    let c = chars_of(cleaned);
    year_from_matches_chars(&c, years)
}

fn year_from_matches_chars(cleaned: &Vec<char>, years: &Vec<Vec<Option<(usize, usize)>>>) -> (r:
    Option<i64>)
    ensures
        r == year_in(cleaned@, years.deep_view()),
{
    let g = first_group_exec(years, 1);
    match span_in_exec(cleaned, g) {
        Some((a, c)) => {
            let t = slice_of(cleaned, a, c);
            parse_i64(&t)
        },
        None => None,
    }
}

fn year_from_line_chars(line: &Vec<char>) -> (r: Option<i64>)
    ensures
        r == year_from_line_spec(line@),
{
    let s = string_from_chars(line);
    let cleaned = match replace_all_matches(doi_in_line_pattern_str(), s.as_str(), "") {
        Some(c) => chars_of(c.as_str()),
        None => {
            let c = slice_of(line, 0, line.len());
            assert(c@ =~= line@);
            c
        },
    };
    let years = captures_of(year_pattern_str(), &cleaned);
    year_from_matches_chars(&cleaned, &years)
}

/// The year of a line, DOIs aside.
pub fn year_from_line_excluding_doi(line: &str) -> (r: Option<i64>)
    ensures
        r == year_from_line_spec(line@),
{
    let v = chars_of(line);
    year_from_line_chars(&v)
}

/// A line holds a year outside any DOI.
pub fn has_year_pattern(line: &str) -> (r: bool)
    ensures
        r == (year_from_line_spec(line@) is Some),
{
    year_from_line_excluding_doi(line).is_some()
}

/// A line that mentions a DOI or a journal, where a year is most telling.
pub open spec fn year_hint(t: Seq<char>) -> bool {
    contains(unicode_lower(t), "doi"@) || contains(t, "10."@) || exists|p: int|
        0 <= p < 18 && contains(unicode_upper(t), #[trigger] journal_prefixes()[p])
}

/// The year of the first line, from `k` on, that holds one; with `hinted`
/// only lines with `year_hint`, else only lines without "download".
pub open spec fn year_pass(ls: Seq<Seq<char>>, k: int, hinted: bool) -> Option<i64>
    decreases ls.len() - k,
{
    if k < 0 || k >= ls.len() {
        None
    } else {
        let t = trim(ls[k]);
        let eligible = if hinted {
            year_hint(t)
        } else {
            caps_or_empty(regex_captures(download_pattern(), t)).len() == 0
        };
        if eligible && year_from_line_spec(t) is Some {
            year_from_line_spec(t)
        } else {
            year_pass(ls, k + 1, hinted)
        }
    }
}

pub open spec fn extract_year_spec(text: Seq<char>) -> Option<i64> {
    let ls = lines(text);
    match year_pass(ls, 0, true) {
        Some(y) => Some(y),
        None => year_pass(ls, 0, false),
    }
}

fn year_hint_exec(t: &Vec<char>) -> (r: bool)
    ensures
        r == year_hint(t@),
{
    let l = lower(t);
    if contains_str(&l, "doi") || contains_str(t, "10.") {
        return true;
    }
    let u = upper(t);
    let mut p: usize = 0;
    while p < 18
        invariant
            p <= 18,
            u@ == unicode_upper(t@),
            forall|q: int| 0 <= q < p ==> !contains(u@, #[trigger] journal_prefixes()[q]),
        decreases 18 - p,
    {
        if contains_str(&u, journal_prefix(p)) {
            return true;
        }
        p += 1;
    }
    false
}

fn year_pass_exec(ls: &Vec<Vec<char>>, hinted: bool) -> (r: Option<i64>)
    ensures
        r == year_pass(ls.deep_view(), 0, hinted),
{
    broadcast use lemma_chars_deep_view;

    let ghost lv = ls.deep_view();
    let mut k: usize = 0;
    while k < ls.len()
        invariant
            k <= ls.len(),
            lv == ls.deep_view(),
            year_pass(lv, 0, hinted) == year_pass(lv, k as int, hinted),
        decreases ls.len() - k,
    {
        assert(lv[k as int] == ls@[k as int]@);
        let t = trim_exec(&ls[k]);
        let eligible = if hinted {
            year_hint_exec(&t)
        } else {
            captures_of(download_pattern_str(), &t).len() == 0
        };
        if eligible {
            let y = year_from_line_chars(&t);
            if y.is_some() {
                return y;
            }
        }
        k += 1;
    }
    None
}

fn extract_year_chars(text: &Vec<char>) -> (r: Option<i64>)
    ensures
        r == extract_year_spec(text@),
{
    let ls = lines_exec(text);
    match year_pass_exec(&ls, true) {
        Some(y) => Some(y),
        None => year_pass_exec(&ls, false),
    }
}

/// The publication year of a text: first from lines that cite a DOI or a
/// journal, then from any line that is not a download stamp.
pub fn extract_year(first_page: &str) -> (r: Option<i64>)
    ensures
        r == extract_year_spec(first_page@),
{
    let v = chars_of(first_page);
    extract_year_chars(&v)
}

// ---------------------------------------------------------------------------
// Both
// ---------------------------------------------------------------------------

/// The first `n` form-feed separated pages, joined back.
pub open spec fn first_pages_spec(text: Seq<char>, n: int) -> Seq<char> {
    let pages = split_char(text, '\x0c');
    join(
        if n < pages.len() {
            pages.take(n)
        } else {
            pages
        },
        "\x0c"@,
    )
}

pub open spec fn extract_journal_and_year_spec(text: Seq<char>) -> (Option<Seq<char>>, Option<i64>) {
    let first_page = split_char(text, '\x0c')[0];
    (journal_from(lines(first_page), 0), extract_year_spec(first_pages_spec(text, 10)))
}

pub fn first_pages_chars(text: &Vec<char>, n: usize) -> (r: Vec<char>)
    ensures
        r@ == first_pages_spec(text@, n as int),
{
    let pages = split_char_exec(text, '\x0c');
    if n < pages.len() {
        let mut taken: Vec<Vec<char>> = Vec::new();
        let mut i: usize = 0;
        while i < n
            invariant
                i <= n < pages.len(),
                taken.deep_view() == pages.deep_view().take(i as int),
            decreases n - i,
        {
            broadcast use lemma_chars_deep_view;

            assert(pages.deep_view()[i as int] == pages@[i as int]@);
            let ghost before = taken.deep_view();
            crate::text::push_piece(&mut taken, slice_of(&pages[i], 0, pages[i].len()));
            assert(pages@[i as int]@.subrange(0, pages@[i as int]@.len() as int)
                =~= pages@[i as int]@);
            assert(taken.deep_view() =~= pages.deep_view().take(i + 1));
            i += 1;
        }
        join_str(&taken, "\x0c")
    } else {
        join_str(&pages, "\x0c")
    }
}

/// The journal named at the top of the first page, and the publication year
/// found in the first ten pages.
pub fn extract_journal_and_year(text: &str) -> (r: (Option<String>, Option<i64>))
    ensures
        r.0.deep_view() == extract_journal_and_year_spec(text@).0,
        r.1 == extract_journal_and_year_spec(text@).1,
{
    let t = chars_of(text);
    let pages = split_char_exec(&t, '\x0c');
    proof {
        broadcast use lemma_chars_deep_view;

        crate::text::lemma_split_char_nonempty(t@, '\x0c');
        assert(pages.deep_view()[0] == pages@[0]@);
    }
    let first_lines = lines_exec(&pages[0]);
    let journal = match journal_from_exec(&first_lines) {
        Some(v) => Some(string_from_chars(&v)),
        None => None,
    };
    let ten = first_pages_chars(&t, 10);
    let year = extract_year_chars(&ten);
    (journal, year)
}

} // verus!
