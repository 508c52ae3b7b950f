//! Reading positions kept by the Okular viewer.
use vstd::prelude::*;
use crate::number::{decimal_digits, digits_of_u64, parse_i64, parse_i64_spec};
use crate::text::{
    append_str, chars_of, find, find_char, find_char_exec, find_exec, lemma_find,
    lemma_find_char_from, slice_of, string_from_chars,
};

verus! {

/// What follows `key` in a docdata file.
pub enum ViewportRead {
    /// The page number before the first `;` after the opening quote.
    Page(i64),
    /// The key ends the text: nothing is read at all.
    Ended,
    /// The key is absent, or not followed by a quoted number.
    Missing,
}

/// The page after the first occurrence of `key`: a quote (`"` or `'`), then
/// an integer up to the next `;`.
pub open spec fn viewport_after(content: Seq<char>, key: Seq<char>) -> ViewportRead {
    match find(content, key) {
        Some(idx) => {
            let remain = content.skip(idx + key.len());
            if remain.len() == 0 {
                ViewportRead::Ended
            } else if remain[0] == '"' || remain[0] == '\'' {
                let rest = remain.skip(1);
                match find_char(rest, ';') {
                    Some(e) => match parse_i64_spec(rest.take(e)) {
                        Some(n) => ViewportRead::Page(n),
                        None => ViewportRead::Missing,
                    },
                    None => ViewportRead::Missing,
                }
            } else {
                ViewportRead::Missing
            }
        },
        None => ViewportRead::Missing,
    }
}

/// The 0-based page of a docdata file: from `current viewport=`, else from
/// `oldPage viewport=`; nothing when the first key ends the text.
pub open spec fn page_number_spec(content: Seq<char>) -> Option<i64> {
    match viewport_after(content, "current viewport="@) {
        ViewportRead::Page(n) => Some(n),
        ViewportRead::Ended => None,
        ViewportRead::Missing => match viewport_after(content, "oldPage viewport="@) {
            ViewportRead::Page(n) => Some(n),
            _ => None,
        },
    }
}

fn viewport_after_exec(content: &Vec<char>, key: &str) -> (r: ViewportRead)
    ensures
        r == viewport_after(content@, key@),
{
    let k = chars_of(key);
    match find_exec(content, &k) {
        Some(idx) => {
            proof {
                lemma_find(content@, k@);
                assert(crate::text::match_at(content@, k@, idx as int));
                assert(idx + k@.len() <= content@.len());
            }
            let kl = k.len();
            assert(idx + kl <= content.len());
            let start: usize = idx + kl;
            let remain = slice_of(content, start, content.len());
            assert(remain@ =~= content@.skip(idx + k@.len()));
            if remain.len() == 0 {
                ViewportRead::Ended
            } else if remain[0] == '"' || remain[0] == '\'' {
                let rest = slice_of(&remain, 1, remain.len());
                assert(rest@ =~= remain@.skip(1));
                match find_char_exec(&rest, ';') {
                    Some(e) => {
                        proof {
                            lemma_find_char_from(rest@, ';', 0);
                        }
                        let num = slice_of(&rest, 0, e);
                        assert(num@ =~= rest@.take(e as int));
                        match parse_i64(&num) {
                            Some(n) => ViewportRead::Page(n),
                            None => ViewportRead::Missing,
                        }
                    },
                    None => ViewportRead::Missing,
                }
            } else {
                ViewportRead::Missing
            }
        },
        None => ViewportRead::Missing,
    }
}

/// Reads the last viewed page (0-based) from an Okular docdata file.
pub fn parse_page_number_from_xml(content: &str) -> (r: Option<i64>)
    ensures
        r == page_number_spec(content@),
{
    let c = chars_of(content);
    match viewport_after_exec(&c, "current viewport=") {
        ViewportRead::Page(n) => Some(n),
        ViewportRead::Ended => None,
        ViewportRead::Missing => match viewport_after_exec(&c, "oldPage viewport=") {
            ViewportRead::Page(n) => Some(n),
            _ => None,
        },
    }
}

/// The docdata file name Okular uses for a document: its size in bytes, a
/// dot, its file name and `.xml`.
pub fn okular_xml_name(file_size: u64, file_name: &str) -> (r: String)
    ensures
        r@ == decimal_digits(file_size as nat) + "."@ + file_name@ + ".xml"@,
{
    let mut v = digits_of_u64(file_size);
    append_str(&mut v, ".");
    append_str(&mut v, file_name);
    append_str(&mut v, ".xml");
    string_from_chars(&v)
}

/// The reading status for a progress percentage: read from 100 on.
pub fn reading_status_for(progress_pct: i64) -> (r: &'static str)
    ensures
        progress_pct >= 100 ==> r@ == "read"@,
        progress_pct < 100 ==> r@ == "reading"@,
{
    if progress_pct >= 100 {
        "read"
    } else {
        "reading"
    }
}

} // verus!
