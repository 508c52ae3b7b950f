//! Regular-expression matching through the `regex` crate.
//!
//! The matcher itself is the outside crate's; the library sees its answers
//! as byte spans of capture groups and reads them back as character indices.
use vstd::prelude::*;
use crate::text::{char_at_byte, char_at_byte_exec, lemma_char_at_byte_from};

verus! {

/// What `Regex::new(pattern)` followed by `captures_iter(text)` yields: for
/// every successive match, the byte span of each capture group (group 0 is
/// the whole match), `None` for a group that did not take part. `None` as a
/// whole when `pattern` does not compile.
pub uninterp spec fn regex_captures(pattern: Seq<char>, text: Seq<char>) -> Option<
    Seq<Seq<Option<(usize, usize)>>>,
>;

/// What `Regex::new(pattern)` followed by `replace_all(text, rep)` yields;
/// `None` when `pattern` does not compile.
pub uninterp spec fn regex_replace_all(pattern: Seq<char>, text: Seq<char>, rep: Seq<char>) -> Option<
    Seq<char>,
>;

/// Compiles `pattern` with `regex::Regex::new` and collects, for each match
/// of `Regex::captures_iter` over `text`, the `(start, end)` byte offsets of
/// every group from `Captures::iter`. The contract only names the result.
#[verifier::external_body]
pub(crate) fn captures_all(pattern: &str, text: &str) -> (r: Option<
    Vec<Vec<Option<(usize, usize)>>>,
>)
    ensures
        r.deep_view() == regex_captures(pattern@, text@),
{
    let re = match regex::Regex::new(pattern) {
        Ok(re) => re,
        Err(_) => return None,
    };
    let mut all = Vec::new();
    for caps in re.captures_iter(text) {
        all.push(caps.iter().map(|g| g.map(|m| (m.start(), m.end()))).collect());
    }
    Some(all)
}

/// Compiles `pattern` with `regex::Regex::new` and returns
/// `Regex::replace_all(text, rep)` as an owned string. The contract only
/// names the result.
#[verifier::external_body]
pub(crate) fn replace_all_matches(pattern: &str, text: &str, rep: &str) -> (r: Option<String>)
    ensures
        r.deep_view() == regex_replace_all(pattern@, text@, rep@),
{
    match regex::Regex::new(pattern) {
        Ok(re) => Some(re.replace_all(text, rep).into_owned()),
        Err(_) => None,
    }
}

/// The matches found, or none when the pattern did not compile.
pub open spec fn caps_or_empty(c: Option<Seq<Seq<Option<(usize, usize)>>>>) -> Seq<
    Seq<Option<(usize, usize)>>,
> {
    match c {
        Some(s) => s,
        None => seq![],
    }
}

/// Group `g` of one match.
pub open spec fn group(cap: Seq<Option<(usize, usize)>>, g: int) -> Option<(usize, usize)> {
    if 0 <= g < cap.len() {
        cap[g]
    } else {
        None
    }
}

/// Group `g` of the first match.
pub open spec fn first_group(caps: Seq<Seq<Option<(usize, usize)>>>, g: int) -> Option<
    (usize, usize),
> {
    if caps.len() > 0 {
        group(caps[0], g)
    } else {
        None
    }
}

/// A byte span of `text` read as character indices `(a, c)`, `a <= c`;
/// `None` when the offsets are not character boundaries in that order.
pub open spec fn span_in(text: Seq<char>, span: Option<(usize, usize)>) -> Option<(int, int)> {
    match span {
        Some((b, e)) => match (char_at_byte(text, b as int), char_at_byte(text, e as int)) {
            (Some(a), Some(c)) => if a <= c {
                Some((a, c))
            } else {
                None
            },
            _ => None,
        },
        None => None,
    }
}

/// The text of a byte span.
pub open spec fn span_text(text: Seq<char>, span: Option<(usize, usize)>) -> Option<Seq<char>> {
    match span_in(text, span) {
        Some((a, c)) => Some(text.subrange(a, c)),
        None => None,
    }
}

/// The deep view of a list of group spans is its view.
pub broadcast proof fn lemma_spans_deep_view(v: Vec<Option<(usize, usize)>>)
    ensures
        #[trigger] v.deep_view() == v@,
{
    assert(v.deep_view() =~= v@);
}

/// The first match's group `g`, as `first_group` of the deep view.
pub fn first_group_exec(caps: &Vec<Vec<Option<(usize, usize)>>>, g: usize) -> (r: Option<
    (usize, usize),
>)
    ensures
        r == first_group(caps.deep_view(), g as int),
{
    broadcast use lemma_spans_deep_view;

    if caps.len() > 0 {
        assert(caps.deep_view()[0] == caps@[0].deep_view());
        group_exec(&caps[0], g)
    } else {
        None
    }
}

pub fn group_exec(cap: &Vec<Option<(usize, usize)>>, g: usize) -> (r: Option<(usize, usize)>)
    ensures
        r == group(cap@, g as int),
{
    if g < cap.len() {
        cap[g]
    } else {
        None
    }
}

pub fn span_in_exec(text: &Vec<char>, span: Option<(usize, usize)>) -> (r: Option<(usize, usize)>)
    ensures
        r matches Some((a, c)) ==> span_in(text@, span) == Some((a as int, c as int)) && a <= c
            <= text.len(),
        r is None ==> span_in(text@, span) is None,
{
    match span {
        Some((b, e)) => {
            let a = char_at_byte_exec(text, b as u128);
            let c = char_at_byte_exec(text, e as u128);
            match (a, c) {
                (Some(a), Some(c)) => {
                    proof {
                        lemma_char_at_byte_from(text@, b as int, 0);
                        lemma_char_at_byte_from(text@, e as int, 0);
                    }
                    if a <= c {
                        Some((a, c))
                    } else {
                        None
                    }
                },
                _ => None,
            }
        },
        None => None,
    }
}

/// Runs `pattern` over `text` and returns the capture spans of every match,
/// none when the pattern does not compile.
pub fn captures_of(pattern: &str, text: &Vec<char>) -> (r: Vec<Vec<Option<(usize, usize)>>>)
    ensures
        r.deep_view() == caps_or_empty(regex_captures(pattern@, text@)),
{
    let s = crate::text::string_from_chars(text);
    match captures_all(pattern, s.as_str()) {
        Some(v) => v,
        None => {
            let v: Vec<Vec<Option<(usize, usize)>>> = Vec::new();
            assert(v.deep_view() =~= Seq::<Seq<Option<(usize, usize)>>>::empty());
            v
        },
    }
}

} // verus!
