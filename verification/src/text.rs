//! Character-level text model shared by the parsers of the library.
//!
//! Strings are reasoned about as `Seq<char>` (the view of `str` and `String`).
//! The spec functions here give the meaning of the std string operations the
//! library relies on (`trim`, `split`, `split_whitespace`, `lines`, `find`,
//! byte length), and the executable functions compute them on `Vec<char>`.
use vstd::prelude::*;

verus! {

// ---------------------------------------------------------------------------
// Character classes
// ---------------------------------------------------------------------------

/// Unicode `White_Space` property, the set that `char::is_whitespace` tests.
pub open spec fn is_ws(c: char) -> bool {
    let u = c as u32;
    (0x09 <= u && u <= 0x0D) || u == 0x20 || u == 0x85 || u == 0xA0 || u == 0x1680 || (0x2000
        <= u && u <= 0x200A) || u == 0x2028 || u == 0x2029 || u == 0x202F || u == 0x205F || u
        == 0x3000
}

/// `char::is_ascii_digit`.
pub open spec fn is_digit(c: char) -> bool {
    '0' <= c && c <= '9'
}

/// `char::is_ascii_uppercase`.
pub open spec fn is_ascii_upper(c: char) -> bool {
    'A' <= c && c <= 'Z'
}

/// `char::is_ascii_hexdigit`.
pub open spec fn is_hex_digit(c: char) -> bool {
    ('0' <= c && c <= '9') || ('a' <= c && c <= 'f') || ('A' <= c && c <= 'F')
}

/// `char::is_control`: general category Cc.
pub open spec fn is_control(c: char) -> bool {
    let u = c as u32;
    u <= 0x1F || (0x7F <= u && u <= 0x9F)
}

pub fn char_is_ws(c: char) -> (b: bool)
    ensures
        b == is_ws(c),
{
    let u = c as u32;
    (0x09 <= u && u <= 0x0D) || u == 0x20 || u == 0x85 || u == 0xA0 || u == 0x1680 || (0x2000
        <= u && u <= 0x200A) || u == 0x2028 || u == 0x2029 || u == 0x202F || u == 0x205F || u
        == 0x3000
}

pub fn char_is_digit(c: char) -> (b: bool)
    ensures
        b == is_digit(c),
{
    '0' <= c && c <= '9'
}

pub fn char_is_ascii_upper(c: char) -> (b: bool)
    ensures
        b == is_ascii_upper(c),
{
    'A' <= c && c <= 'Z'
}

pub fn char_is_hex_digit(c: char) -> (b: bool)
    ensures
        b == is_hex_digit(c),
{
    ('0' <= c && c <= '9') || ('a' <= c && c <= 'f') || ('A' <= c && c <= 'F')
}

pub fn char_is_control(c: char) -> (b: bool)
    ensures
        b == is_control(c),
{
    let u = c as u32;
    u <= 0x1F || (0x7F <= u && u <= 0x9F)
}

/// The Unicode `Uppercase` property (`char::is_uppercase`).
pub uninterp spec fn unicode_uppercase(c: char) -> bool;

/// The Unicode `Lowercase` property (`char::is_lowercase`).
pub uninterp spec fn unicode_lowercase(c: char) -> bool;

/// The Unicode `Alphabetic` property (`char::is_alphabetic`).
pub uninterp spec fn unicode_alphabetic(c: char) -> bool;

/// `char::is_alphanumeric`: `Alphabetic` or a numeric general category.
pub uninterp spec fn unicode_alphanumeric(c: char) -> bool;

/// The full Unicode lowercase mapping of a string (`str::to_lowercase`).
pub uninterp spec fn unicode_lower(s: Seq<char>) -> Seq<char>;

/// The full Unicode uppercase mapping of a string (`str::to_uppercase`).
pub uninterp spec fn unicode_upper(s: Seq<char>) -> Seq<char>;

/// Calls `char::is_uppercase`; the contract names its result
/// (the Unicode `Uppercase` property, a table lookup in std).
#[verifier::external_body]
pub(crate) fn char_is_uppercase(c: char) -> (b: bool)
    ensures
        b == unicode_uppercase(c),
{
    c.is_uppercase()
}

/// Calls `char::is_lowercase`; the contract names its result.
#[verifier::external_body]
pub(crate) fn char_is_lowercase(c: char) -> (b: bool)
    ensures
        b == unicode_lowercase(c),
{
    c.is_lowercase()
}

/// Calls `char::is_alphabetic`; the contract names its result.
#[verifier::external_body]
pub(crate) fn char_is_alphabetic(c: char) -> (b: bool)
    ensures
        b == unicode_alphabetic(c),
{
    c.is_alphabetic()
}

/// Calls `char::is_alphanumeric`; the contract names its result.
#[verifier::external_body]
pub(crate) fn char_is_alphanumeric(c: char) -> (b: bool)
    ensures
        b == unicode_alphanumeric(c),
{
    c.is_alphanumeric()
}

/// Calls `str::to_lowercase`; the contract names its result, which depends
/// on the string alone (the Unicode case tables of std).
#[verifier::external_body]
pub(crate) fn str_to_lowercase(s: &str) -> (r: String)
    ensures
        r@ == unicode_lower(s@),
{
    s.to_lowercase()
}

/// Calls `str::to_uppercase`; the contract names its result.
#[verifier::external_body]
pub(crate) fn str_to_uppercase(s: &str) -> (r: String)
    ensures
        r@ == unicode_upper(s@),
{
    s.to_uppercase()
}

/// Calls `String::push`: the character is appended.
#[verifier::external_body]
fn string_push(s: &mut String, c: char)
    ensures
        final(s)@ == old(s)@.push(c),
{
    s.push(c);
}

/// A `String` holding exactly the given characters.
pub(crate) fn string_from_chars(v: &Vec<char>) -> (r: String)
    ensures
        r@ == v@,
{
    let mut s = String::new();
    let mut i: usize = 0;
    while i < v.len()
        invariant
            i <= v.len(),
            s@ == v@.take(i as int),
        decreases v.len() - i,
    {
        string_push(&mut s, v[i]);
        assert(s@ =~= v@.take(i + 1));
        i += 1;
    }
    assert(v@.take(v.len() as int) =~= v@);
    s
}

/// The deep view of a vector of characters is its view.
pub broadcast proof fn lemma_chars_deep_view(v: Vec<char>)
    ensures
        #[trigger] v.deep_view() == v@,
{
    assert(v.deep_view() =~= v@);
}

/// Pushing onto a vector of character vectors extends its deep view.
pub proof fn lemma_push_deep_view(old_v: Seq<Vec<char>>, new_v: Seq<Vec<char>>, x: Vec<char>)
    requires
        new_v == old_v.push(x),
    ensures
        Seq::new(new_v.len(), |i: int| new_v[i].deep_view()) == Seq::new(
            old_v.len(),
            |i: int| old_v[i].deep_view(),
        ).push(x@),
{
    broadcast use lemma_chars_deep_view;

    assert(Seq::new(new_v.len(), |i: int| new_v[i].deep_view()) =~= Seq::new(
        old_v.len(),
        |i: int| old_v[i].deep_view(),
    ).push(x@));
}

/// Pushes a piece onto a vector of pieces.
pub fn push_piece(out: &mut Vec<Vec<char>>, piece: Vec<char>)
    ensures
        final(out).deep_view() == old(out).deep_view().push(piece@),
{
    let ghost old_v = out@;
    out.push(piece);
    proof {
        lemma_push_deep_view(old_v, out@, piece);
    }
}

/// Replaces a piece of a vector of pieces.
pub fn set_piece(out: &mut Vec<Vec<char>>, k: usize, piece: Vec<char>)
    requires
        k < old(out).len(),
    ensures
        final(out).deep_view() == old(out).deep_view().update(k as int, piece@),
{
    broadcast use lemma_chars_deep_view;

    let ghost old_v = out@;
    out.set(k, piece);
    proof {
        assert(out.deep_view() =~= Seq::new(old_v.len(), |i: int| old_v[i].deep_view()).update(
            k as int,
            piece@,
        ));
    }
}

/// Pushes a string onto a vector of strings.
pub fn push_string(out: &mut Vec<String>, piece: String)
    ensures
        final(out).deep_view() == old(out).deep_view().push(piece@),
{
    let ghost old_v = out@;
    out.push(piece);
    proof {
        assert(out.deep_view() =~= Seq::new(old_v.len(), |i: int| old_v[i].deep_view()).push(
            piece@,
        ));
    }
}

// ---------------------------------------------------------------------------
// Conversions
// ---------------------------------------------------------------------------

/// Copies the characters of a string slice into a vector.
pub fn chars_of(s: &str) -> (r: Vec<char>)
    ensures
        r@ == s@,
{
    let mut v: Vec<char> = Vec::new();
    for c in it: s.chars()
        invariant
            v@ == it.seq().take(it.index() as int),
    {
        v.push(c);
    }
    v
}

/// Lowercases a character sequence with `str::to_lowercase`.
pub fn lower(s: &Vec<char>) -> (r: Vec<char>)
    ensures
        r@ == unicode_lower(s@),
{
    let st = string_from_chars(s);
    let l = str_to_lowercase(st.as_str());
    chars_of(l.as_str())
}

/// Uppercases a character sequence with `str::to_uppercase`.
pub fn upper(s: &Vec<char>) -> (r: Vec<char>)
    ensures
        r@ == unicode_upper(s@),
{
    let st = string_from_chars(s);
    let l = str_to_uppercase(st.as_str());
    chars_of(l.as_str())
}

/// Copies `s[a..b]`.
pub fn slice_of(s: &Vec<char>, a: usize, b: usize) -> (r: Vec<char>)
    requires
        a <= b <= s.len(),
    ensures
        r@ == s@.subrange(a as int, b as int),
{
    let mut v: Vec<char> = Vec::new();
    let mut i = a;
    while i < b
        invariant
            a <= i <= b <= s.len(),
            v@ == s@.subrange(a as int, i as int),
        decreases b - i,
    {
        v.push(s[i]);
        i += 1;
    }
    v
}

/// Appends `t` to `s`.
pub fn append(s: &mut Vec<char>, t: &Vec<char>)
    ensures
        final(s)@ == old(s)@ + t@,
{
    let mut i: usize = 0;
    while i < t.len()
        invariant
            i <= t.len(),
            s@ == old(s)@ + t@.subrange(0, i as int),
        decreases t.len() - i,
    {
        s.push(t[i]);
        i += 1;
    }
    assert(t@.subrange(0, t.len() as int) =~= t@);
}

/// Appends the characters of a literal to `s`.
pub fn append_str(s: &mut Vec<char>, t: &str)
    ensures
        final(s)@ == old(s)@ + t@,
{
    let tv = chars_of(t);
    append(s, &tv);
}

/// Concatenation of two sequences as a new vector.
pub fn concat(a: &Vec<char>, b: &Vec<char>) -> (r: Vec<char>)
    ensures
        r@ == a@ + b@,
{
    let mut r = a.clone();
    append(&mut r, b);
    r
}

// ---------------------------------------------------------------------------
// Equality, prefixes, suffixes
// ---------------------------------------------------------------------------

pub fn eq_chars(a: &Vec<char>, b: &Vec<char>) -> (r: bool)
    ensures
        r == (a@ == b@),
{
    if a.len() != b.len() {
        return false;
    }
    let mut i: usize = 0;
    while i < a.len()
        invariant
            a.len() == b.len(),
            i <= a.len(),
            forall|k: int| 0 <= k < i ==> a@[k] == b@[k],
        decreases a.len() - i,
    {
        if a[i] != b[i] {
            return false;
        }
        i += 1;
    }
    assert(a@ =~= b@);
    true
}

/// `s == lit` for a string literal `lit`.
pub fn eq_str(a: &Vec<char>, lit: &str) -> (r: bool)
    ensures
        r == (a@ == lit@),
{
    let b = chars_of(lit);
    eq_chars(a, &b)
}

/// `pat` occurs in `s` at index `i`.
pub open spec fn match_at(s: Seq<char>, pat: Seq<char>, i: int) -> bool {
    0 <= i && i + pat.len() <= s.len() && s.subrange(i, i + pat.len()) == pat
}

pub open spec fn starts_with(s: Seq<char>, pat: Seq<char>) -> bool {
    match_at(s, pat, 0)
}

pub open spec fn ends_with(s: Seq<char>, pat: Seq<char>) -> bool {
    pat.len() <= s.len() && match_at(s, pat, s.len() - pat.len())
}

pub fn match_at_exec(s: &Vec<char>, pat: &Vec<char>, i: usize) -> (r: bool)
    ensures
        r == match_at(s@, pat@, i as int),
{
    if i > s.len() || pat.len() > s.len() - i {
        return false;
    }
    let mut k: usize = 0;
    while k < pat.len()
        invariant
            i + pat.len() <= s.len(),
            k <= pat.len(),
            forall|j: int| 0 <= j < k ==> s@[i + j] == pat@[j],
        decreases pat.len() - k,
    {
        if s[i + k] != pat[k] {
            assert(s@.subrange(i as int, i + pat.len())[k as int] != pat@[k as int]);
            return false;
        }
        k += 1;
    }
    assert(s@.subrange(i as int, i + pat.len()) =~= pat@);
    true
}

pub fn starts_with_exec(s: &Vec<char>, pat: &Vec<char>) -> (r: bool)
    ensures
        r == starts_with(s@, pat@),
{
    match_at_exec(s, pat, 0)
}

pub fn ends_with_exec(s: &Vec<char>, pat: &Vec<char>) -> (r: bool)
    ensures
        r == ends_with(s@, pat@),
{
    if pat.len() > s.len() {
        false
    } else {
        match_at_exec(s, pat, s.len() - pat.len())
    }
}

pub fn starts_with_str(s: &Vec<char>, lit: &str) -> (r: bool)
    ensures
        r == starts_with(s@, lit@),
{
    let p = chars_of(lit);
    starts_with_exec(s, &p)
}

pub fn ends_with_str(s: &Vec<char>, lit: &str) -> (r: bool)
    ensures
        r == ends_with(s@, lit@),
{
    let p = chars_of(lit);
    ends_with_exec(s, &p)
}

// ---------------------------------------------------------------------------
// Searching
// ---------------------------------------------------------------------------

/// First index `>= i` at which `pat` occurs in `s` (`str::find` from `i`).
pub open spec fn find_from(s: Seq<char>, pat: Seq<char>, i: int) -> Option<int>
    decreases s.len() + 1 - i,
{
    if i < 0 || i + pat.len() > s.len() {
        None
    } else if match_at(s, pat, i) {
        Some(i)
    } else {
        find_from(s, pat, i + 1)
    }
}

/// `str::find`: the first index at which `pat` occurs, counted in characters.
pub open spec fn find(s: Seq<char>, pat: Seq<char>) -> Option<int> {
    find_from(s, pat, 0)
}

/// `str::replace(from, to)` for a non-empty `from`: every match, left to
/// right and without overlap, replaced by `to`.
pub open spec fn replace_all_spec(s: Seq<char>, from: Seq<char>, to: Seq<char>) -> Seq<char>
    decreases s.len(),
{
    if from.len() == 0 {
        s
    } else {
        match find(s, from) {
            Some(i) => if 0 <= i && i + from.len() <= s.len() {
                s.take(i) + to + replace_all_spec(s.skip(i + from.len()), from, to)
            } else {
                s
            },
            None => s,
        }
    }
}

/// `str::contains`.
pub open spec fn contains(s: Seq<char>, pat: Seq<char>) -> bool {
    find(s, pat) is Some
}

pub proof fn lemma_find_from_props(s: Seq<char>, pat: Seq<char>, i: int)
    requires
        0 <= i,
    ensures
        find_from(s, pat, i) matches Some(k) ==> i <= k && match_at(s, pat, k) && (forall|j: int|
            i <= j < k ==> !match_at(s, pat, j)),
        find_from(s, pat, i) is None ==> forall|j: int| i <= j ==> !match_at(s, pat, j),
    decreases s.len() + 1 - i,
{
    if i + pat.len() > s.len() {
    } else if match_at(s, pat, i) {
    } else {
        lemma_find_from_props(s, pat, i + 1);
    }
}

/// Characterises `find`: the least index at which `pat` matches.
pub proof fn lemma_find(s: Seq<char>, pat: Seq<char>)
    ensures
        find(s, pat) matches Some(k) ==> 0 <= k && match_at(s, pat, k) && (forall|j: int|
            0 <= j < k ==> !match_at(s, pat, j)),
        find(s, pat) is None ==> forall|j: int| !match_at(s, pat, j),
{
    lemma_find_from_props(s, pat, 0);
}

pub fn find_exec(s: &Vec<char>, pat: &Vec<char>) -> (r: Option<usize>)
    ensures
        r matches Some(k) ==> find(s@, pat@) == Some(k as int),
        r is None ==> find(s@, pat@) is None,
{
    if pat.len() == 0 {
        assert(s@.subrange(0, 0) =~= pat@);
        return Some(0);
    }
    if pat.len() > s.len() {
        return None;
    }
    let mut i: usize = 0;
    while i <= s.len() - pat.len()
        invariant
            0 < pat.len() <= s.len(),
            find(s@, pat@) == find_from(s@, pat@, i as int),
        decreases s.len() - i,
    {
        if match_at_exec(s, pat, i) {
            return Some(i);
        }
        i += 1;
    }
    None
}

pub fn find_str(s: &Vec<char>, lit: &str) -> (r: Option<usize>)
    ensures
        r matches Some(k) ==> find(s@, lit@) == Some(k as int),
        r is None ==> find(s@, lit@) is None,
{
    let p = chars_of(lit);
    find_exec(s, &p)
}

pub fn contains_str(s: &Vec<char>, lit: &str) -> (r: bool)
    ensures
        r == contains(s@, lit@),
{
    find_str(s, lit).is_some()
}

/// First index `>= i` holding `c`.
pub open spec fn find_char_from(s: Seq<char>, c: char, i: int) -> Option<int>
    decreases s.len() - i,
{
    if i < 0 || i >= s.len() {
        None
    } else if s[i] == c {
        Some(i)
    } else {
        find_char_from(s, c, i + 1)
    }
}

pub open spec fn find_char(s: Seq<char>, c: char) -> Option<int> {
    find_char_from(s, c, 0)
}

pub proof fn lemma_find_char_from(s: Seq<char>, c: char, i: int)
    requires
        0 <= i,
    ensures
        find_char_from(s, c, i) matches Some(k) ==> i <= k < s.len() && s[k] == c && (forall|
            j: int,
        |
            i <= j < k ==> s[j] != c),
        find_char_from(s, c, i) is None ==> forall|j: int| i <= j < s.len() ==> s[j] != c,
    decreases s.len() - i,
{
    if i < s.len() && s[i] != c {
        lemma_find_char_from(s, c, i + 1);
    }
}

pub fn find_char_exec(s: &Vec<char>, c: char) -> (r: Option<usize>)
    ensures
        r matches Some(k) ==> find_char(s@, c) == Some(k as int),
        r is None ==> find_char(s@, c) is None,
{
    let mut i: usize = 0;
    while i < s.len()
        invariant
            i <= s.len(),
            find_char(s@, c) == find_char_from(s@, c, i as int),
        decreases s.len() - i,
    {
        if s[i] == c {
            return Some(i);
        }
        i += 1;
    }
    None
}

pub fn contains_char(s: &Vec<char>, c: char) -> (r: bool)
    ensures
        r == (find_char(s@, c) is Some),
        r == s@.contains(c),
{
    let r = find_char_exec(s, c);
    proof {
        lemma_find_char_from(s@, c, 0);
    }
    r.is_some()
}

// ---------------------------------------------------------------------------
// Trimming
// ---------------------------------------------------------------------------

/// Named character sets used with `trim_*_matches`.
#[derive(Clone, Copy, PartialEq, Eq, Debug)]
pub enum CharSet {
    /// `char::is_whitespace`
    Ws,
    /// `','`
    Comma,
    /// `'.'`
    Period,
    /// `[' ', ',']`
    SpaceComma,
    /// `[',', ':']`
    CommaColon,
    /// `[',', '.']`
    CommaPeriod,
    /// ASCII digits, `','` and `' '`
    DigitCommaSpace,
    /// The auxiliary signs of a UDC code: `-`, `/`, `(`, `)`, `=`, `+`
    UdcAuxiliary,
}

pub open spec fn in_set(cs: CharSet, c: char) -> bool {
    match cs {
        CharSet::Ws => is_ws(c),
        CharSet::Comma => c == ',',
        CharSet::Period => c == '.',
        CharSet::SpaceComma => c == ' ' || c == ',',
        CharSet::CommaColon => c == ',' || c == ':',
        CharSet::CommaPeriod => c == ',' || c == '.',
        CharSet::DigitCommaSpace => is_digit(c) || c == ',' || c == ' ',
        CharSet::UdcAuxiliary => c == '-' || c == '/' || c == '(' || c == ')' || c == '=' || c
            == '+',
    }
}

pub fn in_set_exec(cs: CharSet, c: char) -> (b: bool)
    ensures
        b == in_set(cs, c),
{
    match cs {
        CharSet::Ws => char_is_ws(c),
        CharSet::Comma => c == ',',
        CharSet::Period => c == '.',
        CharSet::SpaceComma => c == ' ' || c == ',',
        CharSet::CommaColon => c == ',' || c == ':',
        CharSet::CommaPeriod => c == ',' || c == '.',
        CharSet::DigitCommaSpace => char_is_digit(c) || c == ',' || c == ' ',
        CharSet::UdcAuxiliary => c == '-' || c == '/' || c == '(' || c == ')' || c == '=' || c
            == '+',
    }
}

/// `trim_start_matches` with a character set: drop leading characters of `cs`.
pub open spec fn trim_start_set(s: Seq<char>, cs: CharSet) -> Seq<char>
    decreases s.len(),
{
    if s.len() > 0 && in_set(cs, s[0]) {
        trim_start_set(s.drop_first(), cs)
    } else {
        s
    }
}

/// `trim_end_matches` with a character set: drop trailing characters of `cs`.
pub open spec fn trim_end_set(s: Seq<char>, cs: CharSet) -> Seq<char>
    decreases s.len(),
{
    if s.len() > 0 && in_set(cs, s.last()) {
        trim_end_set(s.drop_last(), cs)
    } else {
        s
    }
}

/// `str::trim_start`.
pub open spec fn trim_start(s: Seq<char>) -> Seq<char> {
    trim_start_set(s, CharSet::Ws)
}

/// `str::trim_end`.
pub open spec fn trim_end(s: Seq<char>) -> Seq<char> {
    trim_end_set(s, CharSet::Ws)
}

/// `str::trim`.
pub open spec fn trim(s: Seq<char>) -> Seq<char> {
    trim_end(trim_start(s))
}

pub fn trim_start_set_exec(s: &Vec<char>, cs: CharSet) -> (r: Vec<char>)
    ensures
        r@ == trim_start_set(s@, cs),
{
    let mut i: usize = 0;
    assert(s@.subrange(0, s.len() as int) =~= s@);
    while i < s.len() && in_set_exec(cs, s[i])
        invariant
            i <= s.len(),
            trim_start_set(s@, cs) == trim_start_set(s@.subrange(i as int, s.len() as int), cs),
        decreases s.len() - i,
    {
        assert(s@.subrange(i as int, s.len() as int).drop_first() =~= s@.subrange(
            i + 1,
            s.len() as int,
        ));
        i += 1;
    }
    slice_of(s, i, s.len())
}

pub fn trim_end_set_exec(s: &Vec<char>, cs: CharSet) -> (r: Vec<char>)
    ensures
        r@ == trim_end_set(s@, cs),
{
    let mut j: usize = s.len();
    assert(s@.subrange(0, s.len() as int) =~= s@);
    while j > 0 && in_set_exec(cs, s[j - 1])
        invariant
            j <= s.len(),
            trim_end_set(s@, cs) == trim_end_set(s@.subrange(0, j as int), cs),
        decreases j,
    {
        assert(s@.subrange(0, j as int).drop_last() =~= s@.subrange(0, j - 1));
        j -= 1;
    }
    slice_of(s, 0, j)
}

pub fn trim_exec(s: &Vec<char>) -> (r: Vec<char>)
    ensures
        r@ == trim(s@),
{
    let a = trim_start_set_exec(s, CharSet::Ws);
    trim_end_set_exec(&a, CharSet::Ws)
}

pub proof fn lemma_trim_start_set_len(s: Seq<char>, cs: CharSet)
    ensures
        trim_start_set(s, cs).len() <= s.len(),
        trim_start_set(s, cs).len() == 0 || !in_set(cs, trim_start_set(s, cs)[0]),
        exists|i: int|
            0 <= i <= s.len() && trim_start_set(s, cs) == s.subrange(i, s.len() as int) && (forall|
                j: int,
            |
                0 <= j < i ==> in_set(cs, #[trigger] s[j])),
    decreases s.len(),
{
    if s.len() > 0 && in_set(cs, s[0]) {
        lemma_trim_start_set_len(s.drop_first(), cs);
        let i = choose|i: int|
            0 <= i <= s.drop_first().len() && trim_start_set(s.drop_first(), cs)
                == s.drop_first().subrange(i, s.drop_first().len() as int) && (forall|j: int|
                0 <= j < i ==> in_set(cs, #[trigger] s.drop_first()[j]));
        assert(s.drop_first().subrange(i, s.drop_first().len() as int) =~= s.subrange(
            i + 1,
            s.len() as int,
        ));
        assert forall|j: int| 0 <= j < i + 1 implies in_set(cs, #[trigger] s[j]) by {
            if j > 0 {
                assert(s[j] == s.drop_first()[j - 1]);
            }
        }
    } else {
        assert(s.subrange(0, s.len() as int) =~= s);
    }
}

pub proof fn lemma_trim_end_set_len(s: Seq<char>, cs: CharSet)
    ensures
        trim_end_set(s, cs).len() <= s.len(),
        trim_end_set(s, cs).len() == 0 || !in_set(cs, trim_end_set(s, cs).last()),
        trim_end_set(s, cs) == s.subrange(0, trim_end_set(s, cs).len() as int),
        forall|j: int|
            trim_end_set(s, cs).len() <= j < s.len() ==> in_set(cs, #[trigger] s[j]),
    decreases s.len(),
{
    if s.len() > 0 && in_set(cs, s.last()) {
        lemma_trim_end_set_len(s.drop_last(), cs);
        let t = trim_end_set(s.drop_last(), cs);
        assert(s.drop_last().subrange(0, t.len() as int) =~= s.subrange(0, t.len() as int));
        assert forall|j: int| t.len() <= j < s.len() implies in_set(cs, #[trigger] s[j]) by {
            if j < s.len() - 1 {
                assert(s[j] == s.drop_last()[j]);
            }
        }
    } else {
        assert(s.subrange(0, s.len() as int) =~= s);
    }
}

/// No whitespace at either end.
pub open spec fn is_trimmed(s: Seq<char>) -> bool {
    s.len() == 0 || (!is_ws(s[0]) && !is_ws(s.last()))
}

/// Trimming a trimmed string changes nothing.
pub proof fn lemma_trim_of_trimmed(s: Seq<char>)
    requires
        is_trimmed(s),
    ensures
        trim(s) == s,
{
    assert(trim_start(s) == s);
}

/// A trimmed string is trimmed, and holds no character absent from the input.
pub proof fn lemma_trim_is_trimmed(s: Seq<char>, c: char)
    ensures
        is_trimmed(trim(s)),
        !s.contains(c) ==> !trim(s).contains(c),
{
    let t = trim_start(s);
    lemma_trim_start_set_len(s, CharSet::Ws);
    lemma_trim_end_set_len(t, CharSet::Ws);
    let r = trim(s);
    if r.len() > 0 {
        assert(r[0] == t[0]);
    }
    if !s.contains(c) && r.contains(c) {
        let k = choose|k: int| 0 <= k < r.len() && r[k] == c;
        assert(r[k] == t[k]);
        let i = choose|i: int|
            0 <= i <= s.len() && t == s.subrange(i, s.len() as int) && (forall|j: int|
                0 <= j < i ==> in_set(CharSet::Ws, #[trigger] s[j]));
        assert(t[k] == s[i + k]);
    }
}

/// Leading spaces do not survive a trim.
pub proof fn lemma_trim_space_prefix(n: Seq<char>)
    ensures
        trim(seq![' '] + n) == trim(n),
{
    let m = seq![' '] + n;
    assert(m.drop_first() =~= n);
    assert(is_ws(m[0]));
}

/// `split` at `c` of `a`, `c`, `b` is the split of `a` followed by that of `b`.
pub proof fn lemma_split_char_concat(a: Seq<char>, b: Seq<char>, c: char)
    ensures
        split_char(a + seq![c] + b, c) == split_char(a, c) + split_char(b, c),
    decreases a.len(),
{
    let s = a + seq![c] + b;
    lemma_find_char_from(s, c, 0);
    lemma_find_char_from(a, c, 0);
    match find_char(a, c) {
        Some(i) => {
            assert(s[i] == a[i]);
            assert(find_char(s, c) == Some(i)) by {
                assert forall|j: int| 0 <= j < i implies s[j] != c by {
                    assert(s[j] == a[j]);
                }
                lemma_find_char_unique(s, c, i);
            }
            let a2 = a.subrange(i + 1, a.len() as int);
            lemma_split_char_concat(a2, b, c);
            assert(s.subrange(0, i) =~= a.subrange(0, i));
            assert(s.subrange(i + 1, s.len() as int) =~= a2 + seq![c] + b);
        },
        None => {
            assert(s[a.len() as int] == c);
            assert(find_char(s, c) == Some(a.len() as int)) by {
                assert forall|j: int| 0 <= j < a.len() implies s[j] != c by {
                    assert(s[j] == a[j]);
                }
                lemma_find_char_unique(s, c, a.len() as int);
            }
            assert(s.subrange(0, a.len() as int) =~= a);
            assert(s.subrange(a.len() as int + 1, s.len() as int) =~= b);
        },
    }
}

/// The first occurrence is the one with none before it.
pub proof fn lemma_find_char_unique(s: Seq<char>, c: char, i: int)
    requires
        0 <= i < s.len(),
        s[i] == c,
        forall|j: int| 0 <= j < i ==> s[j] != c,
    ensures
        find_char(s, c) == Some(i),
{
    lemma_find_char_from(s, c, 0);
    match find_char(s, c) {
        Some(k) => {
            if k < i {
                assert(s[k] != c);
            }
        },
        None => {
            assert(s[i] != c);
        },
    }
}

/// A string without `c` splits into itself.
pub proof fn lemma_split_char_absent(s: Seq<char>, c: char)
    requires
        !s.contains(c),
    ensures
        split_char(s, c) == seq![s],
{
    lemma_find_char_from(s, c, 0);
    if find_char(s, c) is Some {
        let k = find_char(s, c)->0;
        assert(s[k] == c);
    }
}

/// No piece of a split at `c` holds `c`.
pub proof fn lemma_split_char_pieces(s: Seq<char>, c: char)
    ensures
        forall|i: int|
            0 <= i < split_char(s, c).len() ==> !(#[trigger] split_char(s, c)[i]).contains(c),
    decreases s.len(),
{
    lemma_find_char_from(s, c, 0);
    match find_char(s, c) {
        Some(i) => {
            let rest = s.subrange(i + 1, s.len() as int);
            lemma_split_char_pieces(rest, c);
            let head = s.subrange(0, i);
            assert(!head.contains(c)) by {
                if head.contains(c) {
                    let k = choose|k: int| 0 <= k < head.len() && head[k] == c;
                    assert(s[k] == c);
                }
            }
            assert forall|j: int| 0 <= j < split_char(s, c).len() implies !(
            #[trigger] split_char(s, c)[j]).contains(c) by {
                if j > 0 {
                    assert(split_char(s, c)[j] == split_char(rest, c)[j - 1]);
                }
            }
        },
        None => {
            assert(!s.contains(c)) by {
                if s.contains(c) {
                    let k = choose|k: int| 0 <= k < s.len() && s[k] == c;
                }
            }
        },
    }
}

// ---------------------------------------------------------------------------
// Byte length (UTF-8)
// ---------------------------------------------------------------------------

/// Number of bytes of the UTF-8 encoding of one character.
pub open spec fn utf8_width(c: char) -> nat {
    let u = c as u32;
    if u < 0x80 {
        1
    } else if u < 0x800 {
        2
    } else if u < 0x10000 {
        3
    } else {
        4
    }
}

/// The UTF-8 encoding of one character.
pub open spec fn utf8_char(c: char) -> Seq<u8> {
    let v = (c as u32) as int;
    if v < 0x80 {
        seq![v as u8]
    } else if v < 0x800 {
        seq![(0xC0 + v / 64) as u8, (0x80 + v % 64) as u8]
    } else if v < 0x10000 {
        seq![(0xE0 + v / 4096) as u8, (0x80 + (v / 64) % 64) as u8, (0x80 + v % 64) as u8]
    } else {
        seq![
            (0xF0 + v / 262144) as u8,
            (0x80 + (v / 4096) % 64) as u8,
            (0x80 + (v / 64) % 64) as u8,
            (0x80 + v % 64) as u8,
        ]
    }
}

/// The UTF-8 encoding of a character sequence.
pub open spec fn utf8_of(s: Seq<char>) -> Seq<u8>
    decreases s.len(),
{
    if s.len() == 0 {
        Seq::empty()
    } else {
        utf8_of(s.drop_last()) + utf8_char(s.last())
    }
}

pub proof fn lemma_utf8_of_concat(a: Seq<char>, b: Seq<char>)
    ensures
        utf8_of(a + b) == utf8_of(a) + utf8_of(b),
    decreases b.len(),
{
    if b.len() == 0 {
        assert(a + b =~= a);
        assert(utf8_of(a) + utf8_of(b) =~= utf8_of(a));
    } else {
        lemma_utf8_of_concat(a, b.drop_last());
        assert((a + b).drop_last() =~= a + b.drop_last());
        assert(utf8_of(a) + utf8_of(b.drop_last()) + utf8_char(b.last()) =~= utf8_of(a) + (utf8_of(
            b.drop_last(),
        ) + utf8_char(b.last())));
    }
}

pub proof fn lemma_utf8_of_one(c: char)
    ensures
        utf8_of(seq![c]) == utf8_char(c),
{
    assert(seq![c].drop_last() =~= Seq::<char>::empty());
    assert(seq![c].last() == c);
    assert(utf8_of(Seq::<char>::empty()) == Seq::<u8>::empty());
    assert(utf8_of(seq![c]) == utf8_of(seq![c].drop_last()) + utf8_char(seq![c].last()));
    assert(Seq::<u8>::empty() + utf8_char(c) =~= utf8_char(c));
}

/// Appends the UTF-8 encoding of `c`.
pub fn push_utf8(out: &mut Vec<u8>, c: char)
    ensures
        final(out)@ == old(out)@ + utf8_char(c),
{
    let v: u32 = c as u32;
    if v < 0x80 {
        out.push(v as u8);
    } else if v < 0x800 {
        out.push((0xC0 + v / 64) as u8);
        out.push((0x80 + v % 64) as u8);
    } else if v < 0x10000 {
        out.push((0xE0 + v / 4096) as u8);
        out.push((0x80 + (v / 64) % 64) as u8);
        out.push((0x80 + v % 64) as u8);
    } else {
        out.push((0xF0 + v / 262144) as u8);
        out.push((0x80 + (v / 4096) % 64) as u8);
        out.push((0x80 + (v / 64) % 64) as u8);
        out.push((0x80 + v % 64) as u8);
    }
    assert(out@ =~= old(out)@ + utf8_char(c));
}

/// What `String::from_utf8_lossy` makes of some bytes.
pub uninterp spec fn utf8_lossy(b: Seq<u8>) -> Seq<char>;

/// Calls `String::from_utf8_lossy` and takes the owned string. The contract
/// names the result, which depends on the bytes alone, and states what the
/// documentation gives: bytes that are the UTF-8 encoding of a text come back
/// as that text.
#[verifier::external_body]
pub(crate) fn lossy_string(b: &Vec<u8>) -> (r: String)
    ensures
        r@ == utf8_lossy(b@),
        forall|t: Seq<char>| #[trigger] utf8_of(t) == b@ ==> r@ == t,
{
    String::from_utf8_lossy(b.as_slice()).into_owned()
}

/// `str::len`: the length of the UTF-8 encoding, in bytes.
pub open spec fn byte_len(s: Seq<char>) -> nat
    decreases s.len(),
{
    if s.len() == 0 {
        0
    } else {
        byte_len(s.drop_last()) + utf8_width(s.last())
    }
}

pub proof fn lemma_byte_len_bounds(s: Seq<char>)
    ensures
        s.len() <= byte_len(s) <= 4 * s.len(),
    decreases s.len(),
{
    if s.len() > 0 {
        lemma_byte_len_bounds(s.drop_last());
    }
}

pub proof fn lemma_byte_len_concat(a: Seq<char>, b: Seq<char>)
    ensures
        byte_len(a + b) == byte_len(a) + byte_len(b),
    decreases b.len(),
{
    if b.len() == 0 {
        assert(a + b =~= a);
    } else {
        lemma_byte_len_concat(a, b.drop_last());
        assert((a + b).drop_last() =~= a + b.drop_last());
    }
}

pub fn char_utf8_width(c: char) -> (w: u8)
    ensures
        w == utf8_width(c),
{
    let u = c as u32;
    if u < 0x80 {
        1
    } else if u < 0x800 {
        2
    } else if u < 0x10000 {
        3
    } else {
        4
    }
}

/// Computes `byte_len`; the value is below `4 * s.len() + 1`, so it always fits.
pub fn byte_len_exec(s: &Vec<char>) -> (n: u128)
    ensures
        n == byte_len(s@),
        n <= 4 * s.len(),
{
    let mut n: u128 = 0;
    let mut i: usize = 0;
    while i < s.len()
        invariant
            i <= s.len(),
            n == byte_len(s@.subrange(0, i as int)),
            n <= 4 * i,
        decreases s.len() - i,
    {
        proof {
            assert(s@.subrange(0, i + 1).drop_last() =~= s@.subrange(0, i as int));
        }
        n = n + char_utf8_width(s[i]) as u128;
        i += 1;
    }
    assert(s@.subrange(0, s.len() as int) =~= s@);
    n
}

/// The character index `q >= from` whose prefix is exactly `b` bytes long.
pub open spec fn char_at_byte_from(s: Seq<char>, b: int, from: int) -> Option<int>
    decreases s.len() + 1 - from,
{
    if from < 0 || from > s.len() {
        None
    } else if byte_len(s.take(from)) == b {
        Some(from)
    } else {
        char_at_byte_from(s, b, from + 1)
    }
}

/// The character index at byte offset `b`, when `b` is a character boundary.
pub open spec fn char_at_byte(s: Seq<char>, b: int) -> Option<int> {
    char_at_byte_from(s, b, 0)
}

pub proof fn lemma_char_at_byte_from(s: Seq<char>, b: int, from: int)
    requires
        0 <= from,
    ensures
        char_at_byte_from(s, b, from) matches Some(q) ==> from <= q <= s.len() && byte_len(
            s.take(q),
        ) == b,
    decreases s.len() + 1 - from,
{
    if from <= s.len() && byte_len(s.take(from)) != b {
        lemma_char_at_byte_from(s, b, from + 1);
    }
}

pub fn char_at_byte_exec(s: &Vec<char>, b: u128) -> (r: Option<usize>)
    ensures
        r matches Some(q) ==> char_at_byte(s@, b as int) == Some(q as int),
        r is None ==> char_at_byte(s@, b as int) is None,
{
    let mut acc: u128 = 0;
    let mut q: usize = 0;
    assert(s@.take(0) =~= Seq::<char>::empty());
    while q < s.len()
        invariant
            q <= s.len(),
            acc == byte_len(s@.take(q as int)),
            acc <= 4 * q,
            char_at_byte(s@, b as int) == char_at_byte_from(s@, b as int, q as int),
        decreases s.len() - q,
    {
        if acc == b {
            return Some(q);
        }
        assert(s@.take(q + 1).drop_last() =~= s@.take(q as int));
        acc = acc + char_utf8_width(s[q]) as u128;
        q += 1;
    }
    if acc == b {
        Some(q)
    } else {
        assert(char_at_byte_from(s@, b as int, s.len() + 1) is None);
        None
    }
}

/// Case-insensitive search as `s.to_lowercase().find(pat)` used to slice `s`:
/// the byte offsets of the match in the lowercased text, read back in `s` as
/// character indices of the match start and end. `None` when there is no
/// match, or when those offsets are not character boundaries of `s` in the
/// right order (inputs on which slicing `s` at them would panic).
pub open spec fn find_ci(s: Seq<char>, pat: Seq<char>) -> Option<(int, int)> {
    let l = unicode_lower(s);
    match find(l, pat) {
        Some(p) => {
            let b = byte_len(l.take(p)) as int;
            match (char_at_byte(s, b), char_at_byte(s, b + byte_len(pat))) {
                (Some(a), Some(c)) => if a <= c {
                    Some((a, c))
                } else {
                    None
                },
                _ => None,
            }
        },
        None => None,
    }
}

/// A case-insensitive match lies within the text.
pub proof fn lemma_find_ci_bounds(s: Seq<char>, pat: Seq<char>)
    ensures
        find_ci(s, pat) matches Some((a, c)) ==> 0 <= a <= c <= s.len(),
{
    let l = unicode_lower(s);
    match find(l, pat) {
        Some(p) => {
            let b = byte_len(l.take(p)) as int;
            lemma_char_at_byte_from(s, b, 0);
            lemma_char_at_byte_from(s, b + byte_len(pat), 0);
        },
        None => {},
    }
}

pub fn find_ci_exec(s: &Vec<char>, pat: &str) -> (r: Option<(usize, usize)>)
    ensures
        r matches Some((a, c)) ==> find_ci(s@, pat@) == Some((a as int, c as int)) && a <= c
            <= s.len(),
        r is None ==> find_ci(s@, pat@) is None,
{
    let l = lower(s);
    let pv = chars_of(pat);
    match find_exec(&l, &pv) {
        Some(p) => {
            proof {
                lemma_find(l@, pv@);
            }
            let pre = slice_of(&l, 0, p);
            assert(pre@ =~= l@.take(p as int));
            let b = byte_len_exec(&pre);
            let pb = byte_len_exec(&pv);
            proof {
                lemma_byte_len_bounds(pre@);
                lemma_byte_len_bounds(pv@);
            }
            let a = char_at_byte_exec(s, b);
            let c = char_at_byte_exec(s, b + pb);
            match (a, c) {
                (Some(a), Some(c)) => {
                    proof {
                        lemma_char_at_byte_from(s@, b as int, 0);
                        lemma_char_at_byte_from(s@, (b + pb) as int, 0);
                    }
                    if a <= c {
                        Some((a, c))
                    } else {
                        None
                    }
                },
                _ => None,
            }
        },
        None => None,
    }
}

// ---------------------------------------------------------------------------
// Counting
// ---------------------------------------------------------------------------

/// Character classes that the heuristics count.
#[derive(Clone, Copy, PartialEq, Eq, Debug)]
pub enum CountClass {
    /// ASCII digits
    Digit,
    /// `char::is_alphabetic`
    Alpha,
    /// alphabetic, `' '`, `','` or `'.'`
    AlphaOrPunct,
    /// not `char::is_control`
    Printable,
}

pub open spec fn in_class(cc: CountClass, c: char) -> bool {
    match cc {
        CountClass::Digit => is_digit(c),
        CountClass::Alpha => unicode_alphabetic(c),
        CountClass::AlphaOrPunct => unicode_alphabetic(c) || c == ' ' || c == ',' || c == '.',
        CountClass::Printable => !is_control(c),
    }
}

/// Number of characters of `s` in the class.
pub open spec fn count_class(s: Seq<char>, cc: CountClass) -> nat
    decreases s.len(),
{
    if s.len() == 0 {
        0
    } else {
        count_class(s.drop_last(), cc) + if in_class(cc, s.last()) {
            1nat
        } else {
            0nat
        }
    }
}

pub proof fn lemma_count_class_le(s: Seq<char>, cc: CountClass)
    ensures
        count_class(s, cc) <= s.len(),
    decreases s.len(),
{
    if s.len() > 0 {
        lemma_count_class_le(s.drop_last(), cc);
    }
}

pub fn count_class_exec(s: &Vec<char>, cc: CountClass) -> (n: usize)
    ensures
        n == count_class(s@, cc),
{
    let mut n: usize = 0;
    let mut i: usize = 0;
    while i < s.len()
        invariant
            i <= s.len(),
            n == count_class(s@.take(i as int), cc),
            n <= i,
        decreases s.len() - i,
    {
        assert(s@.take(i + 1).drop_last() =~= s@.take(i as int));
        let c = s[i];
        let inc = match cc {
            CountClass::Digit => char_is_digit(c),
            CountClass::Alpha => char_is_alphabetic(c),
            CountClass::AlphaOrPunct => char_is_alphabetic(c) || c == ' ' || c == ',' || c
                == '.',
            CountClass::Printable => !char_is_control(c),
        };
        if inc {
            n += 1;
        }
        i += 1;
    }
    assert(s@.take(s.len() as int) =~= s@);
    n
}

/// The first character is uppercase (`false` for the empty string).
pub open spec fn starts_upper(s: Seq<char>) -> bool {
    s.len() > 0 && unicode_uppercase(s[0])
}

/// The first character is lowercase (`false` for the empty string).
pub open spec fn starts_lower(s: Seq<char>) -> bool {
    s.len() > 0 && unicode_lowercase(s[0])
}

pub fn starts_upper_exec(s: &Vec<char>) -> (b: bool)
    ensures
        b == starts_upper(s@),
{
    s.len() > 0 && char_is_uppercase(s[0])
}

pub fn starts_lower_exec(s: &Vec<char>) -> (b: bool)
    ensures
        b == starts_lower(s@),
{
    s.len() > 0 && char_is_lowercase(s[0])
}

/// `byte_len(s) < n` for a small bound.
pub fn byte_len_lt(s: &Vec<char>, n: u128) -> (b: bool)
    ensures
        b == (byte_len(s@) < n),
{
    byte_len_exec(s) < n
}

// ---------------------------------------------------------------------------
// Splitting
// ---------------------------------------------------------------------------

/// `str::split(c)`: the pieces between occurrences of `c` (at least one piece).
pub open spec fn split_char(s: Seq<char>, c: char) -> Seq<Seq<char>>
    decreases s.len(),
{
    match find_char(s, c) {
        Some(i) => if 0 <= i < s.len() {
            seq![s.subrange(0, i)] + split_char(s.subrange(i + 1, s.len() as int), c)
        } else {
            seq![s]
        },
        None => seq![s],
    }
}

/// `str::split` yields at least one piece.
pub proof fn lemma_split_char_nonempty(s: Seq<char>, c: char)
    ensures
        split_char(s, c).len() >= 1,
    decreases s.len(),
{
}

pub fn split_char_exec(s: &Vec<char>, c: char) -> (r: Vec<Vec<char>>)
    ensures
        r.deep_view() == split_char(s@, c),
{
    let mut out: Vec<Vec<char>> = Vec::new();
    let mut start: usize = 0;
    let mut i: usize = 0;
    assert(s@.subrange(0, s.len() as int) =~= s@);
    assert(out.deep_view() =~= Seq::<Seq<char>>::empty());
    while i < s.len()
        invariant
            start <= i <= s.len(),
            forall|j: int| start <= j < i ==> s@[j] != c,
            split_char(s@, c) == out.deep_view() + split_char(
                s@.subrange(start as int, s.len() as int),
                c,
            ),
        decreases s.len() - i,
    {
        if s[i] == c {
            let ghost rest = s@.subrange(start as int, s.len() as int);
            proof {
                lemma_find_char_from(rest, c, 0);
                assert(rest[i - start] == c);
                assert(find_char(rest, c) == Some((i - start) as int)) by {
                    lemma_find_char_from(rest, c, 0);
                    let k = find_char(rest, c);
                    if k is None {
                        assert(rest[i - start] != c);
                    } else {
                        let kk = k->0;
                        if kk < i - start {
                            assert(rest[kk] == s@[start + kk]);
                        }
                        if kk > i - start {
                            assert(rest[i - start] != c);
                        }
                    }
                }
                assert(rest.subrange(0, i - start) =~= s@.subrange(start as int, i as int));
                assert(rest.subrange(i - start + 1, rest.len() as int) =~= s@.subrange(
                    i + 1,
                    s.len() as int,
                ));
            }
            let piece = slice_of(s, start, i);
            let ghost old_out = out.deep_view();
            push_piece(&mut out, piece);
            proof {
                assert(out.deep_view() =~= old_out.push(s@.subrange(start as int, i as int)));
            }
            start = i + 1;
        }
        i += 1;
    }
    let ghost rest = s@.subrange(start as int, s.len() as int);
    proof {
        lemma_find_char_from(rest, c, 0);
        if find_char(rest, c) is Some {
            let kk = find_char(rest, c)->0;
            assert(rest[kk] == s@[start + kk]);
        }
    }
    let piece = slice_of(s, start, s.len());
    let ghost old_out = out.deep_view();
    push_piece(&mut out, piece);
    proof {
        assert(out.deep_view() =~= old_out.push(rest));
    }
    out
}

/// `str::split_whitespace`: the maximal runs of non-whitespace characters.
pub open spec fn words(s: Seq<char>) -> Seq<Seq<char>>
    decreases s.len(),
{
    if s.len() == 0 {
        seq![]
    } else if is_ws(s[0]) {
        words(s.drop_first())
    } else {
        let k = word_end(s, 0);
        if 0 < k <= s.len() {
            seq![s.subrange(0, k)] + words(s.subrange(k, s.len() as int))
        } else {
            seq![s]
        }
    }
}

/// Index of the first whitespace at or after `i` (or the length).
pub open spec fn word_end(s: Seq<char>, i: int) -> int
    decreases s.len() - i,
{
    if i < 0 || i >= s.len() {
        s.len() as int
    } else if is_ws(s[i]) {
        i
    } else {
        word_end(s, i + 1)
    }
}

pub proof fn lemma_word_end(s: Seq<char>, i: int)
    requires
        0 <= i <= s.len(),
    ensures
        i <= word_end(s, i) <= s.len(),
        forall|j: int| i <= j < word_end(s, i) ==> !is_ws(#[trigger] s[j]),
        word_end(s, i) < s.len() ==> is_ws(s[word_end(s, i)]),
    decreases s.len() - i,
{
    if i < s.len() && !is_ws(s[i]) {
        lemma_word_end(s, i + 1);
    }
}

pub proof fn lemma_word_end_shift(s: Seq<char>, i: int, k: int)
    requires
        0 <= k <= i <= s.len(),
        forall|j: int| k <= j < i ==> !is_ws(#[trigger] s[j]),
    ensures
        word_end(s, k) == word_end(s, i),
    decreases i - k,
{
    if k < i {
        lemma_word_end_shift(s, i, k + 1);
    }
}

pub proof fn lemma_word_end_sub(s: Seq<char>, a: int, i: int)
    requires
        0 <= a <= i <= s.len(),
    ensures
        word_end(s.subrange(a, s.len() as int), i - a) == word_end(s, i) - a,
    decreases s.len() - i,
{
    let t = s.subrange(a, s.len() as int);
    if i < s.len() {
        assert(t[i - a] == s[i]);
        if !is_ws(s[i]) {
            lemma_word_end_sub(s, a, i + 1);
        }
    }
}

pub fn words_exec(s: &Vec<char>) -> (r: Vec<Vec<char>>)
    ensures
        r.deep_view() == words(s@),
{
    let mut out: Vec<Vec<char>> = Vec::new();
    let mut i: usize = 0;
    assert(s@.subrange(0, s.len() as int) =~= s@);
    assert(out.deep_view() =~= Seq::<Seq<char>>::empty());
    while i < s.len()
        invariant
            i <= s.len(),
            words(s@) == out.deep_view() + words(s@.subrange(i as int, s.len() as int)),
        decreases s.len() - i,
    {
        let ghost rest = s@.subrange(i as int, s.len() as int);
        if char_is_ws(s[i]) {
            proof {
                assert(rest.drop_first() =~= s@.subrange(i + 1, s.len() as int));
            }
            i += 1;
        } else {
            let mut j = i;
            while j < s.len() && !char_is_ws(s[j])
                invariant
                    i <= j <= s.len(),
                    forall|k: int| i <= k < j ==> !is_ws(#[trigger] s@[k]),
                decreases s.len() - j,
            {
                j += 1;
            }
            proof {
                lemma_word_end_sub(s@, i as int, i as int);
                lemma_word_end_shift(s@, j as int, i as int);
                lemma_word_end(s@, j as int);
                assert(word_end(s@, j as int) == j);
                assert(rest.subrange(0, j - i) =~= s@.subrange(i as int, j as int));
                assert(rest.subrange(j - i, rest.len() as int) =~= s@.subrange(
                    j as int,
                    s.len() as int,
                ));
            }
            let w = slice_of(s, i, j);
            let ghost old_out = out.deep_view();
            push_piece(&mut out, w);
            proof {
                assert(out.deep_view() =~= old_out.push(s@.subrange(i as int, j as int)));
                assert(old_out.push(s@.subrange(i as int, j as int)) + words(
                    s@.subrange(j as int, s.len() as int),
                ) =~= old_out + (seq![s@.subrange(i as int, j as int)] + words(
                    s@.subrange(j as int, s.len() as int),
                )));
            }
            i = j;
        }
    }
    proof {
        assert(s@.subrange(i as int, s.len() as int).len() == 0);
        assert(out.deep_view() + seq![] =~= out.deep_view());
    }
    out
}

/// Every word is non-empty and holds no whitespace.
pub proof fn lemma_words_shape(s: Seq<char>)
    ensures
        forall|k: int|
            0 <= k < words(s).len() ==> (#[trigger] words(s)[k]).len() > 0 && forall|j: int|
                0 <= j < words(s)[k].len() ==> !is_ws(words(s)[k][j]),
    decreases s.len(),
{
    if s.len() == 0 {
    } else if is_ws(s[0]) {
        lemma_words_shape(s.drop_first());
        assert(words(s) == words(s.drop_first()));
    } else {
        let k = word_end(s, 0);
        lemma_word_end(s, 0);
        if 0 < k <= s.len() {
            lemma_words_shape(s.subrange(k, s.len() as int));
            let rest = words(s.subrange(k, s.len() as int));
            assert forall|m: int| 0 <= m < words(s).len() implies (#[trigger] words(s)[m]).len()
                > 0 && forall|j: int| 0 <= j < words(s)[m].len() ==> !is_ws(words(s)[m][j]) by {
                if m == 0 {
                    assert(words(s)[m] == s.subrange(0, k));
                } else {
                    assert(words(s)[m] == rest[m - 1]);
                }
            }
        }
    }
}

/// `str::lines`: split at `\n`, strip a `\r` before it, no final empty line.
pub open spec fn lines(s: Seq<char>) -> Seq<Seq<char>>
    decreases s.len(),
{
    if s.len() == 0 {
        seq![]
    } else {
        match find_char(s, '\n') {
            Some(i) => if 0 <= i < s.len() {
                seq![strip_cr(s.subrange(0, i))] + lines(s.subrange(i + 1, s.len() as int))
            } else {
                seq![s]
            },
            None => seq![s],
        }
    }
}

/// Drops one trailing `\r`.
pub open spec fn strip_cr(s: Seq<char>) -> Seq<char> {
    if s.len() > 0 && s.last() == '\r' {
        s.drop_last()
    } else {
        s
    }
}

pub fn lines_exec(s: &Vec<char>) -> (r: Vec<Vec<char>>)
    ensures
        r.deep_view() == lines(s@),
{
    let mut out: Vec<Vec<char>> = Vec::new();
    let mut start: usize = 0;
    let mut i: usize = 0;
    assert(s@.subrange(0, s.len() as int) =~= s@);
    assert(out.deep_view() =~= Seq::<Seq<char>>::empty());
    while i < s.len()
        invariant
            start <= i <= s.len(),
            forall|j: int| start <= j < i ==> s@[j] != '\n',
            lines(s@) == out.deep_view() + lines(s@.subrange(start as int, s.len() as int)),
        decreases s.len() - i,
    {
        if s[i] == '\n' {
            let ghost rest = s@.subrange(start as int, s.len() as int);
            proof {
                lemma_find_char_from(rest, '\n', 0);
                assert(rest[i - start] == '\n');
                let k = find_char(rest, '\n');
                if k is None {
                    assert(rest[i - start] != '\n');
                } else {
                    let kk = k->0;
                    if kk < i - start {
                        assert(rest[kk] == s@[start + kk]);
                    }
                    if kk > i - start {
                        assert(rest[i - start] != '\n');
                    }
                }
                assert(rest.subrange(0, i - start) =~= s@.subrange(start as int, i as int));
                assert(rest.subrange(i - start + 1, rest.len() as int) =~= s@.subrange(
                    i + 1,
                    s.len() as int,
                ));
            }
            let mut end = i;
            if end > start && s[end - 1] == '\r' {
                end = end - 1;
            }
            let piece = slice_of(s, start, end);
            proof {
                assert(piece@ =~= strip_cr(s@.subrange(start as int, i as int)));
            }
            let ghost old_out = out.deep_view();
            push_piece(&mut out, piece);
            proof {
                assert(out.deep_view() =~= old_out.push(
                    strip_cr(s@.subrange(start as int, i as int)),
                ));
            }
            start = i + 1;
        }
        i += 1;
    }
    if start < s.len() {
        let ghost rest = s@.subrange(start as int, s.len() as int);
        proof {
            lemma_find_char_from(rest, '\n', 0);
            if find_char(rest, '\n') is Some {
                let kk = find_char(rest, '\n')->0;
                assert(rest[kk] == s@[start + kk]);
            }
        }
        let piece = slice_of(s, start, s.len());
        let ghost old_out = out.deep_view();
        push_piece(&mut out, piece);
        proof {
            assert(out.deep_view() =~= old_out.push(rest));
        }
    } else {
        proof {
            assert(out.deep_view() + seq![] =~= out.deep_view());
        }
    }
    out
}

// ---------------------------------------------------------------------------
// Joining
// ---------------------------------------------------------------------------

/// `[T]::join(sep)`.
pub open spec fn join(parts: Seq<Seq<char>>, sep: Seq<char>) -> Seq<char>
    decreases parts.len(),
{
    if parts.len() == 0 {
        seq![]
    } else if parts.len() == 1 {
        parts[0]
    } else {
        join(parts.drop_last(), sep) + sep + parts.last()
    }
}

pub fn join_exec(parts: &Vec<Vec<char>>, sep: &Vec<char>) -> (r: Vec<char>)
    ensures
        r@ == join(parts.deep_view(), sep@),
{
    let mut out: Vec<char> = Vec::new();
    let mut i: usize = 0;
    while i < parts.len()
        invariant
            i <= parts.len(),
            out@ == join(parts.deep_view().take(i as int), sep@),
        decreases parts.len() - i,
    {
        proof {
            assert(parts.deep_view().take(i + 1).drop_last() =~= parts.deep_view().take(
                i as int,
            ));
        }
        if i > 0 {
            append(&mut out, sep);
        }
        append(&mut out, &parts[i]);
        proof {
            if i == 0 {
                assert(out@ =~= parts.deep_view().take(1)[0]);
            }
        }
        i += 1;
    }
    proof {
        assert(parts.deep_view().take(parts.len() as int) =~= parts.deep_view());
    }
    out
}

/// Computes `replace_all_spec`.
pub fn replace_all_exec(s: &Vec<char>, from: &Vec<char>, to: &Vec<char>) -> (r: Vec<char>)
    requires
        from.len() > 0,
    ensures
        r@ == replace_all_spec(s@, from@, to@),
{
    let mut out: Vec<char> = Vec::new();
    let mut rest = slice_of(s, 0, s.len());
    assert(rest@ =~= s@);
    while rest.len() > 0
        invariant
            from.len() > 0,
            replace_all_spec(s@, from@, to@) == out@ + replace_all_spec(rest@, from@, to@),
        decreases rest.len(),
    {
        match find_exec(&rest, from) {
            Some(i) => {
                proof {
                    lemma_find(rest@, from@);
                }
                let ghost before = out@;
                let head = slice_of(&rest, 0, i);
                append(&mut out, &head);
                append(&mut out, to);
                let next = slice_of(&rest, i + from.len(), rest.len());
                assert(head@ =~= rest@.take(i as int));
                assert(next@ =~= rest@.skip(i + from.len()));
                assert(out@ + replace_all_spec(next@, from@, to@) =~= before + replace_all_spec(
                    rest@,
                    from@,
                    to@,
                ));
                rest = next;
            },
            None => {
                append(&mut out, &rest);
                let empty: Vec<char> = Vec::new();
                assert(replace_all_spec(empty@, from@, to@) =~= Seq::<char>::empty());
                rest = empty;
            },
        }
    }
    assert(replace_all_spec(rest@, from@, to@) =~= Seq::<char>::empty());
    assert(out@ + Seq::<char>::empty() =~= out@);
    out
}

/// Joins with a literal separator.
pub fn join_str(parts: &Vec<Vec<char>>, sep: &str) -> (r: Vec<char>)
    ensures
        r@ == join(parts.deep_view(), sep@),
{
    let s = chars_of(sep);
    join_exec(parts, &s)
}

/// Converts a vector of character vectors into `Vec<String>`.
pub fn strings_of(v: &Vec<Vec<char>>) -> (r: Vec<String>)
    ensures
        r.deep_view() == v.deep_view(),
{
    broadcast use lemma_chars_deep_view;

    let mut out: Vec<String> = Vec::new();
    let mut i: usize = 0;
    while i < v.len()
        invariant
            i <= v.len(),
            out.deep_view() == v.deep_view().take(i as int),
        decreases v.len() - i,
    {
        let s = string_from_chars(&v[i]);
        let ghost old_out = out.deep_view();
        push_string(&mut out, s);
        proof {
            assert(out.deep_view() =~= old_out.push(v[i as int]@));
            assert(v.deep_view()[i as int] == v@[i as int].deep_view());
            assert(v@[i as int].deep_view() == v@[i as int]@);
            assert(v.deep_view().take(i + 1) =~= v.deep_view().take(i as int).push(v[i as int]@));
        }
        i += 1;
    }
    proof {
        assert(v.deep_view().take(v.len() as int) =~= v.deep_view());
    }
    out
}

} // verus!
