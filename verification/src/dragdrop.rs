//! Paths pasted or dropped onto the terminal: quoting, `file://` URLs,
//! escaped spaces, percent-encoding, `~/` and trailing lines.
use vstd::prelude::*;
use crate::text::{
    chars_of, lemma_utf8_of_concat, lemma_utf8_of_one, lines, lines_exec, lemma_chars_deep_view,
    lossy_string, push_utf8, replace_all_exec, replace_all_spec, slice_of, starts_with,
    starts_with_str, string_from_chars, trim, trim_exec, utf8_char, utf8_lossy, utf8_of,
};

verus! {

/// The value of a hexadecimal digit.
pub open spec fn hex_value(c: char) -> Option<u8> {
    if '0' <= c && c <= '9' {
        Some(((c as u32) - ('0' as u32)) as u8)
    } else if 'a' <= c && c <= 'f' {
        Some(((c as u32) - ('a' as u32) + 10) as u8)
    } else if 'A' <= c && c <= 'F' {
        Some(((c as u32) - ('A' as u32) + 10) as u8)
    } else {
        None
    }
}

/// `u8::from_str_radix` of the two characters in base 16: two hex digits,
/// or a `+` sign and one hex digit.
pub open spec fn hex_byte(a: char, b: char) -> Option<u8> {
    if a == '+' {
        hex_value(b)
    } else {
        match (hex_value(a), hex_value(b)) {
            (Some(x), Some(y)) => Some((16 * x + y) as u8),
            _ => None,
        }
    }
}

/// The bytes that percent-decoding gives from index `i`: `%` and two
/// characters that read as a byte in base 16 give that byte; `%` otherwise
/// stays, with the (up to two) characters after it kept as they are; every
/// other character gives its UTF-8 bytes.
pub open spec fn decode_bytes(s: Seq<char>, i: int) -> Seq<u8>
    decreases s.len() - i,
{
    if i < 0 || i >= s.len() {
        Seq::empty()
    } else if s[i] == '%' {
        if i + 2 < s.len() {
            match hex_byte(s[i + 1], s[i + 2]) {
                Some(v) => seq![v] + decode_bytes(s, i + 3),
                None => utf8_of(seq!['%', s[i + 1], s[i + 2]]) + decode_bytes(s, i + 3),
            }
        } else if i + 1 < s.len() {
            utf8_of(seq!['%', s[i + 1]])
        } else {
            utf8_of(seq!['%'])
        }
    } else {
        utf8_char(s[i]) + decode_bytes(s, i + 1)
    }
}

/// Percent-decoding of a text: its decoded bytes read as UTF-8, with
/// invalid sequences replaced (`String::from_utf8_lossy`).
pub open spec fn url_decoded(s: Seq<char>) -> Seq<char> {
    utf8_lossy(decode_bytes(s, 0))
}

fn hex_value_exec(c: char) -> (r: Option<u8>)
    ensures
        r == hex_value(c),
{
    if '0' <= c && c <= '9' {
        Some((c as u32 - '0' as u32) as u8)
    } else if 'a' <= c && c <= 'f' {
        Some((c as u32 - 'a' as u32 + 10) as u8)
    } else if 'A' <= c && c <= 'F' {
        Some((c as u32 - 'A' as u32 + 10) as u8)
    } else {
        None
    }
}

fn hex_byte_exec(a: char, b: char) -> (r: Option<u8>)
    ensures
        r == hex_byte(a, b),
{
    if a == '+' {
        hex_value_exec(b)
    } else {
        match (hex_value_exec(a), hex_value_exec(b)) {
            (Some(x), Some(y)) => Some(16 * x + y),
            _ => None,
        }
    }
}

fn push_chars_utf8(out: &mut Vec<u8>, cs: &Vec<char>)
    ensures
        final(out)@ == old(out)@ + utf8_of(cs@),
{
    let mut k: usize = 0;
    let ghost start = out@;
    assert(cs@.take(0) =~= Seq::<char>::empty());
    while k < cs.len()
        invariant
            k <= cs.len(),
            out@ == start + utf8_of(cs@.take(k as int)),
        decreases cs.len() - k,
    {
        assert(cs@.take(k + 1).drop_last() =~= cs@.take(k as int));
        assert(cs@.take(k + 1).last() == cs@[k as int]);
        push_utf8(out, cs[k]);
        assert(out@ =~= start + utf8_of(cs@.take(k + 1)));
        k += 1;
    }
    assert(cs@.take(cs.len() as int) =~= cs@);
}

fn url_decode_bytes(s: &Vec<char>) -> (r: Vec<u8>)
    ensures
        r@ == decode_bytes(s@, 0),
{
    let mut out: Vec<u8> = Vec::new();
    let mut i: usize = 0;
    while i < s.len()
        invariant
            i <= s.len(),
            decode_bytes(s@, 0) == out@ + decode_bytes(s@, i as int),
        decreases s.len() - i,
    {
        let ghost before = out@;
        if s[i] == '%' {
            if s.len() - i > 2 {
                match hex_byte_exec(s[i + 1], s[i + 2]) {
                    Some(v) => {
                        out.push(v);
                    },
                    None => {
                        let kept = vec!['%', s[i + 1], s[i + 2]];
                        assert(kept@ =~= seq!['%', s@[i + 1], s@[i + 2]]);
                        push_chars_utf8(&mut out, &kept);
                    },
                }
                assert(before + decode_bytes(s@, i as int) =~= out@ + decode_bytes(s@, i + 3));
                i = i + 3;
            } else {
                if s.len() - i > 1 {
                    let kept = vec!['%', s[i + 1]];
                    assert(kept@ =~= seq!['%', s@[i + 1]]);
                    push_chars_utf8(&mut out, &kept);
                } else {
                    let kept = vec!['%'];
                    assert(kept@ =~= seq!['%']);
                    push_chars_utf8(&mut out, &kept);
                }
                assert(decode_bytes(s@, s.len() as int) =~= Seq::<u8>::empty());
                assert(before + decode_bytes(s@, i as int) =~= out@ + decode_bytes(
                    s@,
                    s.len() as int,
                ));
                i = s.len();
            }
        } else {
            push_utf8(&mut out, s[i]);
            assert(before + decode_bytes(s@, i as int) =~= out@ + decode_bytes(s@, i + 1));
            i = i + 1;
        }
    }
    assert(decode_bytes(s@, i as int) =~= Seq::<u8>::empty());
    assert(out@ + Seq::<u8>::empty() =~= out@);
    out
}

fn url_decode_chars(s: &Vec<char>) -> (r: Vec<char>)
    ensures
        r@ == url_decoded(s@),
        forall|t: Seq<char>| #[trigger] utf8_of(t) == decode_bytes(s@, 0) ==> r@ == t,
        !s@.contains('%') ==> r@ == s@,
{
    let b = url_decode_bytes(s);
    proof {
        if !s@.contains('%') {
            lemma_decode_plain(s@, 0);
            assert(s@.skip(0) =~= s@);
        }
    }
    let t = lossy_string(&b);
    chars_of(t.as_str())
}

/// Decodes `%XX` escapes: the decoded bytes are read as UTF-8, so
/// `%EB%AF%B8` gives `미`; text without a `%` comes back unchanged.
pub fn url_decode(s: &str) -> (r: String)
    ensures
        r@ == url_decoded(s@),
        forall|t: Seq<char>| #[trigger] utf8_of(t) == decode_bytes(s@, 0) ==> r@ == t,
        !s@.contains('%') ==> r@ == s@,
{
    let v = chars_of(s);
    let d = url_decode_chars(&v);
    string_from_chars(&d)
}

/// `home` joined with a relative path as `Path::join` does on Unix: an
/// absolute `rest` replaces the home directory; otherwise one `/` separates
/// them.
pub open spec fn join_home(home: Seq<char>, rest: Seq<char>) -> Seq<char> {
    if rest.len() > 0 && rest[0] == '/' {
        rest
    } else if home.len() > 0 && home.last() != '/' {
        home + seq!['/'] + rest
    } else {
        home + rest
    }
}

/// Joins a directory and a relative path as `Path::join` does on Unix.
pub fn join_path(base: &Vec<char>, rest: &Vec<char>) -> (r: Vec<char>)
    ensures
        r@ == join_home(base@, rest@),
{
    if rest.len() > 0 && rest[0] == '/' {
        slice_of(rest, 0, rest.len())
    } else if base.len() > 0 && base[base.len() - 1] != '/' {
        let mut j = slice_of(base, 0, base.len());
        j.push('/');
        crate::text::append(&mut j, rest);
        j
    } else {
        let mut j = slice_of(base, 0, base.len());
        crate::text::append(&mut j, rest);
        j
    }
}

/// Strips one pair of matching quotes.
pub open spec fn unquote(t: Seq<char>) -> Seq<char> {
    if t.len() >= 2 && ((t[0] == '"' && t.last() == '"') || (t[0] == '\'' && t.last() == '\'')) {
        t.subrange(1, t.len() - 1)
    } else {
        t
    }
}

/// The path that dropped text names: trimmed, unquoted, without a
/// `file://` scheme, with `\ ` read as a space, percent-decoded, `~/`
/// expanded against `home` when one is known, and cut at its first line
/// break; `None` for blank text.
pub open spec fn dragged_path_spec(input: Seq<char>, home: Option<Seq<char>>) -> Option<Seq<char>> {
    let t = trim(input);
    if t.len() == 0 {
        None
    } else {
        let p1 = unquote(t);
        let p2 = if starts_with(p1, "file://"@) {
            p1.skip(7)
        } else {
            p1
        };
        let p3 = replace_all_spec(p2, "\\ "@, " "@);
        let p4 = url_decoded(p3);
        let p5 = match home {
            Some(h) => if starts_with(p4, "~/"@) {
                join_home(h, p4.skip(2))
            } else {
                p4
            },
            None => p4,
        };
        let p6 = if p5.contains('\n') {
            if lines(p5).len() > 0 {
                lines(p5)[0]
            } else {
                Seq::empty()
            }
        } else {
            p5
        };
        Some(p6)
    }
}

/// Reads the path that was dragged onto the terminal; whether it names an
/// existing file is for the caller to check.
pub fn normalize_dragged_path(input: &str, home: Option<&str>) -> (r: Option<String>)
    ensures
        r.deep_view() == dragged_path_spec(input@, home.deep_view()),
{
    broadcast use lemma_chars_deep_view;

    let raw = chars_of(input);
    let t = trim_exec(&raw);
    if t.len() == 0 {
        return None;
    }
    let n = t.len();
    let p1 = if n >= 2 && ((t[0] == '"' && t[n - 1] == '"') || (t[0] == '\'' && t[n - 1]
        == '\'')) {
        slice_of(&t, 1, n - 1)
    } else {
        slice_of(&t, 0, n)
    };
    assert(p1@ =~= unquote(t@));
    proof {
        reveal_strlit("file://");
        reveal_strlit("\\ ");
        reveal_strlit("~/");
    }
    let p2 = if starts_with_str(&p1, "file://") {
        let x = slice_of(&p1, 7, p1.len());
        assert(x@ =~= p1@.skip(7));
        x
    } else {
        let x = slice_of(&p1, 0, p1.len());
        assert(x@ =~= p1@);
        x
    };
    let ghost g2 = if starts_with(p1@, "file://"@) {
        p1@.skip(7)
    } else {
        p1@
    };
    assert(p2@ == g2);
    let p3 = replace_all_exec(&p2, &chars_of("\\ "), &chars_of(" "));
    assert(p3@ == replace_all_spec(g2, "\\ "@, " "@));
    let p4 = url_decode_chars(&p3);
    let ghost g4 = url_decoded(p3@);
    let p5 = match home {
        Some(h) => {
            if starts_with_str(&p4, "~/") {
                let rest = slice_of(&p4, 2, p4.len());
                assert(rest@ =~= p4@.skip(2));
                join_path(&chars_of(h), &rest)
            } else {
                p4
            }
        },
        None => p4,
    };
    let p6 = if crate::text::contains_char(&p5, '\n') {
        let ls = lines_exec(&p5);
        if ls.len() > 0 {
            assert(ls.deep_view()[0] == ls@[0]@);
            slice_of(&ls[0], 0, ls[0].len())
        } else {
            Vec::new()
        }
    } else {
        p5
    };
    let ghost g5 = match home.deep_view() {
        Some(h) => if starts_with(g4, "~/"@) {
            join_home(h, g4.skip(2))
        } else {
            g4
        },
        None => g4,
    };
    assert(p5@ =~= g5);
    proof {
        if p5@.contains('\n') && lines(p5@).len() > 0 {
            assert(lines(p5@)[0].subrange(0, lines(p5@)[0].len() as int) =~= lines(p5@)[0]);
        }
    }
    Some(string_from_chars(&p6))
}

proof fn lemma_decode_plain(s: Seq<char>, i: int)
    requires
        0 <= i <= s.len(),
        !s.contains('%'),
    ensures
        decode_bytes(s, i) == utf8_of(s.skip(i)),
    decreases s.len() - i,
{
    if i < s.len() {
        assert(s[i] != '%') by {
            if s[i] == '%' {
                assert(s.contains('%'));
            }
        }
        lemma_decode_plain(s, i + 1);
        assert(seq![s[i]] + s.skip(i + 1) =~= s.skip(i));
        lemma_utf8_of_concat(seq![s[i]], s.skip(i + 1));
        lemma_utf8_of_one(s[i]);
    } else {
        assert(s.skip(i) =~= Seq::<char>::empty());
    }
}

/// Text without a `%` decodes to its own UTF-8 bytes, which read back as the
/// text itself.
pub proof fn law_decode_without_escapes(s: Seq<char>)
    requires
        !s.contains('%'),
    ensures
        decode_bytes(s, 0) == utf8_of(s),
{
    lemma_decode_plain(s, 0);
    assert(s.skip(0) =~= s);
}

} // verus!
