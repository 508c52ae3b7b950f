//! Title guessing from the first page of a paper.
use vstd::prelude::*;
use crate::authors::{nonblank, nonblank_lines};
use crate::text::{
    byte_len, byte_len_exec, chars_of, ends_with, ends_with_str, lemma_chars_deep_view, lines,
    string_from_chars, trim, trim_exec,
};

verus! {

/// The longest trimmed line among the first ten non-blank lines that is
/// under 300 bytes and does not end with a period; the first line wins ties
/// and stands when no later line is longer.
pub open spec fn best_title_line(ls: Seq<Seq<char>>, i: int, best: Seq<char>) -> Seq<char>
    decreases ls.len() - i,
{
    if i < 0 || i >= ls.len() || i >= 10 {
        best
    } else {
        let t = trim(ls[i]);
        if byte_len(t) > byte_len(best) && byte_len(t) < 300 && !ends_with(t, "."@) {
            best_title_line(ls, i + 1, t)
        } else {
            best_title_line(ls, i + 1, best)
        }
    }
}

pub open spec fn guess_title_spec(page_text: Seq<char>) -> Option<Seq<char>> {
    let ls = nonblank(lines(page_text));
    if ls.len() == 0 {
        None
    } else {
        let best = best_title_line(ls, 0, trim(ls[0]));
        if best.len() == 0 || byte_len(best) < 10 {
            None
        } else {
            Some(best)
        }
    }
}

/// Guesses the title of a paper: the longest of its first lines.
pub fn guess_title(page_text: &str) -> (r: Option<String>)
    ensures
        r matches Some(v) ==> guess_title_spec(page_text@) == Some(v@),
        r is None ==> guess_title_spec(page_text@) is None,
{
    broadcast use lemma_chars_deep_view;

    let text = chars_of(page_text);
    let ls = nonblank_lines(&text);
    if ls.len() == 0 {
        return None;
    }
    let ghost lv = ls.deep_view();
    assert(lv[0] == ls@[0]@);
    let mut best = trim_exec(&ls[0]);
    let mut best_len = byte_len_exec(&best);
    let mut i: usize = 0;
    while i < ls.len() && i < 10
        invariant
            i <= ls.len(),
            lv == ls.deep_view(),
            best_len == byte_len(best@),
            best_title_line(lv, 0, trim(lv[0])) == best_title_line(lv, i as int, best@),
        decreases ls.len() - i,
    {
        assert(lv[i as int] == ls@[i as int]@);
        let t = trim_exec(&ls[i]);
        let len = byte_len_exec(&t);
        if len > best_len && len < 300 && !ends_with_str(&t, ".") {
            best_len = len;
            best = t;
        }
        i += 1;
    }
    if best.len() == 0 || best_len < 10 {
        None
    } else {
        Some(string_from_chars(&best))
    }
}

} // verus!
