//! Search-term routing for the full-text indexes (trigram, CJK bigram,
//! Hangul initial-consonant index) and the escaping the queries need.
use unicode_normalization::UnicodeNormalization;
use vstd::prelude::*;
use crate::text::{
    append, chars_of, join, join_exec, join_str, lemma_chars_deep_view, push_piece, split_char,
    split_char_exec, string_from_chars, lemma_split_char_absent,
};

verus! {

/// Represents the search strategy to execute for a given query term.
#[derive(Debug, PartialEq, Eq)]
pub enum SearchPlan {
    /// FTS5 MATCH against the trigram index (3 or more chars, all scripts).
    FtsMatch(String),
    /// FTS5 MATCH against the bigram index (2-char CJK queries).
    BigramMatch(String),
    /// FTS5 MATCH against the initial-consonant index (queries like "ㅁㅂ").
    ChoseongMatch(String),
    /// SQL LIKE fallback for short queries (1-char, 2-char Latin).
    Like(String),
}

/// The Unicode canonical composition (NFC) of a string.
pub uninterp spec fn nfc(s: Seq<char>) -> Seq<char>;

/// Calls `UnicodeNormalization::nfc` of the unicode-normalization crate and
/// collects the characters; the contract names the result, a function of the
/// input alone (the composition tables of the crate).
#[verifier::external_body]
fn nfc_string(s: &str) -> (r: String)
    ensures
        r@ == nfc(s@),
{
    s.nfc().collect()
}

/// NFC-normalize a string for consistent Unicode comparison.
pub fn normalize_nfc(s: &str) -> (r: String)
    ensures
        r@ == nfc(s@),
{
    nfc_string(s)
}

// ---------------------------------------------------------------------------
// Character classes
// ---------------------------------------------------------------------------

/// Hangul syllables and jamo, CJK ideographs (and extension A), kana.
pub open spec fn is_cjk(c: char) -> bool {
    let u = c as u32;
    (0xAC00 <= u && u <= 0xD7AF) || (0x1100 <= u && u <= 0x11FF) || (0x3130 <= u && u <= 0x318F)
        || (0x3400 <= u && u <= 0x4DBF) || (0x4E00 <= u && u <= 0x9FFF) || (0x3040 <= u && u
        <= 0x309F) || (0x30A0 <= u && u <= 0x30FF)
}

pub fn is_cjk_char(c: char) -> (b: bool)
    ensures
        b == is_cjk(c),
{
    let u = c as u32;
    (0xAC00 <= u && u <= 0xD7AF) || (0x1100 <= u && u <= 0x11FF) || (0x3130 <= u && u <= 0x318F)
        || (0x3400 <= u && u <= 0x4DBF) || (0x4E00 <= u && u <= 0x9FFF) || (0x3040 <= u && u
        <= 0x309F) || (0x30A0 <= u && u <= 0x30FF)
}

/// Check if a string contains any CJK characters (Hangul, Han, Kana).
pub fn has_cjk(s: &str) -> (b: bool)
    ensures
        b == exists|i: int| 0 <= i < s@.len() && is_cjk(#[trigger] s@[i]),
{
    let v = chars_of(s);
    let mut i: usize = 0;
    while i < v.len()
        invariant
            i <= v.len(),
            v@ == s@,
            forall|j: int| 0 <= j < i ==> !is_cjk(#[trigger] v@[j]),
        decreases v.len() - i,
    {
        if is_cjk_char(v[i]) {
            return true;
        }
        i += 1;
    }
    false
}

/// The compatibility jamo of the 19 Hangul initial consonants, in syllable order.
pub open spec fn choseong_table() -> Seq<char> {
    seq![
        '\u{3131}',
        '\u{3132}',
        '\u{3134}',
        '\u{3137}',
        '\u{3138}',
        '\u{3139}',
        '\u{3141}',
        '\u{3142}',
        '\u{3143}',
        '\u{3145}',
        '\u{3146}',
        '\u{3147}',
        '\u{3148}',
        '\u{3149}',
        '\u{314A}',
        '\u{314B}',
        '\u{314C}',
        '\u{314D}',
        '\u{314E}',
    ]
}

fn choseong_at(i: u32) -> (c: char)
    requires
        i < 19,
    ensures
        c == choseong_table()[i as int],
{
    match i {
        0 => '\u{3131}',
        1 => '\u{3132}',
        2 => '\u{3134}',
        3 => '\u{3137}',
        4 => '\u{3138}',
        5 => '\u{3139}',
        6 => '\u{3141}',
        7 => '\u{3142}',
        8 => '\u{3143}',
        9 => '\u{3145}',
        10 => '\u{3146}',
        11 => '\u{3147}',
        12 => '\u{3148}',
        13 => '\u{3149}',
        14 => '\u{314A}',
        15 => '\u{314B}',
        16 => '\u{314C}',
        17 => '\u{314D}',
        _ => '\u{314E}',
    }
}

/// The initial consonant of a precomposed Hangul syllable.
pub open spec fn choseong_of(c: char) -> Option<char> {
    let u = c as u32;
    if 0xAC00 <= u && u <= 0xD7A3 {
        Some(choseong_table()[((u - 0xAC00) / 588) as int])
    } else {
        None
    }
}

/// The initial consonant of a precomposed Hangul syllable, as a compatibility jamo.
pub fn decompose_choseong(c: char) -> (r: Option<char>)
    ensures
        r == choseong_of(c),
{
    let u = c as u32;
    if !(0xAC00 <= u && u <= 0xD7A3) {
        return None;
    }
    let l = (u - 0xAC00) / 588;
    Some(choseong_at(l))
}

/// One of the 19 initial-consonant compatibility jamo.
pub open spec fn is_jamo(c: char) -> bool {
    choseong_table().contains(c)
}

pub fn is_choseong_jamo(c: char) -> (b: bool)
    ensures
        b == is_jamo(c),
{
    let mut i: u32 = 0;
    while i < 19
        invariant
            i <= 19,
            forall|j: int| 0 <= j < i ==> choseong_table()[j] != c,
        decreases 19 - i,
    {
        if choseong_at(i) == c {
            return true;
        }
        i += 1;
    }
    false
}

/// Non-empty and made of initial-consonant jamo only.
pub open spec fn choseong_query(s: Seq<char>) -> bool {
    s.len() > 0 && forall|i: int| 0 <= i < s.len() ==> is_jamo(#[trigger] s[i])
}

pub fn is_choseong_query(s: &str) -> (b: bool)
    ensures
        b == choseong_query(s@),
{
    let v = chars_of(s);
    if v.len() == 0 {
        return false;
    }
    let mut i: usize = 0;
    while i < v.len()
        invariant
            i <= v.len(),
            v@ == s@,
            forall|j: int| 0 <= j < i ==> is_jamo(#[trigger] v@[j]),
        decreases v.len() - i,
    {
        if !is_choseong_jamo(v[i]) {
            return false;
        }
        i += 1;
    }
    true
}

// ---------------------------------------------------------------------------
// Bigrams
// ---------------------------------------------------------------------------

/// The 2-character windows of `cs` whose characters are both CJK: exactly the
/// sliding bigrams of the maximal CJK runs, in order.
pub open spec fn cjk_pairs(cs: Seq<char>) -> Seq<Seq<char>>
    decreases cs.len(),
{
    if cs.len() < 2 {
        seq![]
    } else {
        let a = cs[cs.len() - 2];
        let b = cs[cs.len() - 1];
        cjk_pairs(cs.drop_last()) + if is_cjk(a) && is_cjk(b) {
            seq![seq![a, b]]
        } else {
            seq![]
        }
    }
}

/// The pairs of initial consonants of adjacent Hangul syllables.
pub open spec fn choseong_pairs(cs: Seq<char>) -> Seq<Seq<char>>
    decreases cs.len(),
{
    if cs.len() < 2 {
        seq![]
    } else {
        let a = cs[cs.len() - 2];
        let b = cs[cs.len() - 1];
        choseong_pairs(cs.drop_last()) + if choseong_of(a) is Some && choseong_of(b) is Some {
            seq![seq![choseong_of(a)->0, choseong_of(b)->0]]
        } else {
            seq![]
        }
    }
}

/// The space-joined CJK bigrams of the NFC form of `text`.
pub open spec fn bigrams_spec(text: Seq<char>) -> Seq<char> {
    join(cjk_pairs(nfc(text)), seq![' '])
}

/// The space-joined initial-consonant bigrams of the NFC form of `text`.
pub open spec fn choseong_bigrams_spec(text: Seq<char>) -> Seq<char> {
    join(choseong_pairs(nfc(text)), seq![' '])
}

fn cjk_pairs_exec(cs: &Vec<char>) -> (r: Vec<Vec<char>>)
    ensures
        r.deep_view() == cjk_pairs(cs@),
{
    let mut out: Vec<Vec<char>> = Vec::new();
    if cs.len() < 2 {
        assert(out.deep_view() =~= Seq::<Seq<char>>::empty());
        return out;
    }
    let mut j: usize = 1;
    assert(out.deep_view() =~= cjk_pairs(cs@.take(1)));
    while j < cs.len()
        invariant
            1 <= j <= cs.len(),
            out.deep_view() == cjk_pairs(cs@.take(j as int)),
        decreases cs.len() - j,
    {
        let ghost t = cs@.take(j + 1);
        assert(t.drop_last() =~= cs@.take(j as int));
        if is_cjk_char(cs[j - 1]) && is_cjk_char(cs[j]) {
            let mut p: Vec<char> = Vec::new();
            p.push(cs[j - 1]);
            p.push(cs[j]);
            assert(p@ =~= seq![t[t.len() - 2], t[t.len() - 1]]);
            push_piece(&mut out, p);
            assert(out.deep_view() =~= cjk_pairs(t));
        } else {
            assert(out.deep_view() =~= cjk_pairs(t));
        }
        j += 1;
    }
    assert(cs@.take(cs.len() as int) =~= cs@);
    out
}

fn choseong_pairs_exec(cs: &Vec<char>) -> (r: Vec<Vec<char>>)
    ensures
        r.deep_view() == choseong_pairs(cs@),
{
    let mut out: Vec<Vec<char>> = Vec::new();
    if cs.len() < 2 {
        assert(out.deep_view() =~= Seq::<Seq<char>>::empty());
        return out;
    }
    let mut j: usize = 1;
    assert(out.deep_view() =~= choseong_pairs(cs@.take(1)));
    while j < cs.len()
        invariant
            1 <= j <= cs.len(),
            out.deep_view() == choseong_pairs(cs@.take(j as int)),
        decreases cs.len() - j,
    {
        let ghost t = cs@.take(j + 1);
        assert(t.drop_last() =~= cs@.take(j as int));
        let a = decompose_choseong(cs[j - 1]);
        let b = decompose_choseong(cs[j]);
        match (a, b) {
            (Some(x), Some(y)) => {
                let mut p: Vec<char> = Vec::new();
                p.push(x);
                p.push(y);
                assert(t[t.len() - 2] == cs@[j - 1]);
                assert(p@ =~= seq![x, y]);
                push_piece(&mut out, p);
                assert(out.deep_view() =~= choseong_pairs(t));
            },
            _ => {
                assert(out.deep_view() =~= choseong_pairs(t));
            },
        }
        j += 1;
    }
    assert(cs@.take(cs.len() as int) =~= cs@);
    out
}

/// The space-joined CJK bigrams of text that is already in NFC: for each
/// maximal CJK run, its 2-codepoint sliding-window pairs; other text skipped.
pub fn bigrams_of_normalized(text: &str) -> (r: String)
    ensures
        r@ == join(cjk_pairs(text@), seq![' ']),
{
    let chars = chars_of(text);
    let pairs = cjk_pairs_exec(&chars);
    let joined = join_str(&pairs, " ");
    proof {
        reveal_strlit(" ");
        assert(" "@ =~= seq![' ']);
    }
    string_from_chars(&joined)
}

/// The space-joined initial-consonant bigrams of text already in NFC.
pub fn choseong_bigrams_of_normalized(text: &str) -> (r: String)
    ensures
        r@ == join(choseong_pairs(text@), seq![' ']),
{
    let chars = chars_of(text);
    let pairs = choseong_pairs_exec(&chars);
    let joined = join_str(&pairs, " ");
    proof {
        reveal_strlit(" ");
        assert(" "@ =~= seq![' ']);
    }
    string_from_chars(&joined)
}

/// Generate CJK bigrams from text, space-joined for FTS5 unicode61 tokenization.
///
/// NFC-normalizes input, then for each maximal CJK character run, emits
/// 2-codepoint sliding-window bigrams. Non-CJK text is skipped.
pub fn bigrams_cjk(text: &str) -> (r: String)
    ensures
        r@ == bigrams_spec(text@),
{
    let normalized = normalize_nfc(text);
    bigrams_of_normalized(normalized.as_str())
}

/// Initial-consonant bigrams of the Hangul runs of `text`, space-joined.
pub fn choseong_bigrams_cjk(text: &str) -> (r: String)
    ensures
        r@ == choseong_bigrams_spec(text@),
{
    let normalized = normalize_nfc(text);
    choseong_bigrams_of_normalized(normalized.as_str())
}

// ---------------------------------------------------------------------------
// Escaping
// ---------------------------------------------------------------------------

/// Every `"` doubled.
pub open spec fn double_quotes(s: Seq<char>) -> Seq<char>
    decreases s.len(),
{
    if s.len() == 0 {
        seq![]
    } else {
        double_quotes(s.drop_last()) + if s.last() == '"' {
            seq!['"', '"']
        } else {
            seq![s.last()]
        }
    }
}

/// `s` wrapped in double quotes.
pub open spec fn quoted(s: Seq<char>) -> Seq<char> {
    seq!['"'] + s + seq!['"']
}

/// The FTS5 phrase for a term: quoted, with inner quotes doubled.
pub open spec fn fts_phrase(s: Seq<char>) -> Seq<char> {
    quoted(double_quotes(s))
}

fn double_quotes_exec(s: &Vec<char>) -> (r: Vec<char>)
    ensures
        r@ == double_quotes(s@),
{
    let mut out: Vec<char> = Vec::new();
    let mut i: usize = 0;
    while i < s.len()
        invariant
            i <= s.len(),
            out@ == double_quotes(s@.take(i as int)),
        decreases s.len() - i,
    {
        assert(s@.take(i + 1).drop_last() =~= s@.take(i as int));
        if s[i] == '"' {
            out.push('"');
            out.push('"');
        } else {
            out.push(s[i]);
        }
        assert(out@ =~= double_quotes(s@.take(i + 1)));
        i += 1;
    }
    assert(s@.take(s.len() as int) =~= s@);
    out
}

fn quoted_exec(s: &Vec<char>) -> (r: Vec<char>)
    ensures
        r@ == quoted(s@),
{
    let mut out: Vec<char> = Vec::new();
    out.push('"');
    append(&mut out, s);
    out.push('"');
    assert(out@ =~= quoted(s@));
    out
}

fn escape_fts_phrase(term: &Vec<char>) -> (r: Vec<char>)
    ensures
        r@ == fts_phrase(term@),
{
    let d = double_quotes_exec(term);
    quoted_exec(&d)
}

/// The non-empty pieces, each quoted.
pub open spec fn quote_nonempty(ps: Seq<Seq<char>>) -> Seq<Seq<char>>
    decreases ps.len(),
{
    if ps.len() == 0 {
        seq![]
    } else {
        quote_nonempty(ps.drop_last()) + if ps.last().len() > 0 {
            seq![quoted(ps.last())]
        } else {
            seq![]
        }
    }
}

/// Space-separated bigrams turned into a disjunction-free FTS5 query of quoted tokens.
pub open spec fn bigram_query(bigrams: Seq<char>) -> Seq<char> {
    join(quote_nonempty(split_char(bigrams, ' ')), seq![' '])
}

fn escape_bigram_query(bigrams: &Vec<char>) -> (r: Vec<char>)
    ensures
        r@ == bigram_query(bigrams@),
{
    broadcast use lemma_chars_deep_view;

    let parts = split_char_exec(bigrams, ' ');
    let mut quotedv: Vec<Vec<char>> = Vec::new();
    let mut i: usize = 0;
    assert(quotedv.deep_view() =~= quote_nonempty(parts.deep_view().take(0)));
    while i < parts.len()
        invariant
            i <= parts.len(),
            quotedv.deep_view() == quote_nonempty(parts.deep_view().take(i as int)),
        decreases parts.len() - i,
    {
        let ghost t = parts.deep_view().take(i + 1);
        assert(t.drop_last() =~= parts.deep_view().take(i as int));
        assert(t.last() == parts@[i as int]@);
        if parts[i].len() > 0 {
            let q = quoted_exec(&parts[i]);
            push_piece(&mut quotedv, q);
        }
        assert(quotedv.deep_view() =~= quote_nonempty(t));
        i += 1;
    }
    assert(parts.deep_view().take(parts.len() as int) =~= parts.deep_view());
    let sep = chars_of(" ");
    proof {
        reveal_strlit(" ");
        assert(sep@ =~= seq![' ']);
    }
    join_exec(&quotedv, &sep)
}

/// `%`, `_` and `\` escaped with a backslash for a LIKE pattern.
pub open spec fn like_escaped(s: Seq<char>) -> Seq<char>
    decreases s.len(),
{
    if s.len() == 0 {
        seq![]
    } else {
        let c = s.last();
        like_escaped(s.drop_last()) + if c == '%' || c == '_' || c == '\\' {
            seq!['\\', c]
        } else {
            seq![c]
        }
    }
}

/// How many `%`, `_` and `\` a text holds.
pub open spec fn like_specials(s: Seq<char>) -> nat
    decreases s.len(),
{
    if s.len() == 0 {
        0
    } else {
        like_specials(s.drop_last()) + if s.last() == '%' || s.last() == '_' || s.last() == '\\' {
            1nat
        } else {
            0nat
        }
    }
}

/// An escaped LIKE term read back: a `%`, `_` or `\` after a backslash
/// loses the backslash.
pub open spec fn like_unescaped(e: Seq<char>) -> Seq<char>
    decreases e.len(),
{
    if e.len() == 0 {
        seq![]
    } else {
        let c = e.last();
        if (c == '%' || c == '_' || c == '\\') && e.len() >= 2 && e[e.len() - 2] == '\\' {
            like_unescaped(e.take(e.len() - 2)) + seq![c]
        } else {
            like_unescaped(e.drop_last()) + seq![c]
        }
    }
}

/// LIKE escaping works character by character: the escape of a
/// concatenation is the concatenation of the escapes, it adds one backslash
/// per `%`, `_` and `\`, and dropping the backslash that opens each escape
/// gives the text back.
pub proof fn law_escape_like(a: Seq<char>, b: Seq<char>)
    ensures
        like_escaped(a + b) == like_escaped(a) + like_escaped(b),
        like_escaped(a).len() == a.len() + like_specials(a),
        like_unescaped(like_escaped(a)) == a,
    decreases a.len() + b.len(),
{
    if b.len() > 0 {
        law_escape_like(a, b.drop_last());
        assert((a + b).drop_last() =~= a + b.drop_last());
        assert((a + b).last() == b.last());
        let c = b.last();
        let piece = if c == '%' || c == '_' || c == '\\' {
            seq!['\\', c]
        } else {
            seq![c]
        };
        assert(like_escaped(a) + like_escaped(b.drop_last()) + piece =~= like_escaped(a) + (
        like_escaped(b.drop_last()) + piece));
    } else {
        assert(a + b =~= a);
        assert(like_escaped(a) + like_escaped(b) =~= like_escaped(a));
        if a.len() > 0 {
            let init = a.drop_last();
            law_escape_like(init, b);
            let c = a.last();
            let e0 = like_escaped(init);
            let e = like_escaped(a);
            if c == '%' || c == '_' || c == '\\' {
                assert(e == e0 + seq!['\\', c]);
                assert(e.take(e.len() - 2) =~= e0);
                assert(e[e.len() - 2] == '\\');
                assert(e.last() == c);
            } else {
                assert(e == e0 + seq![c]);
                assert(e.drop_last() =~= e0);
                assert(e.last() == c);
            }
            assert(like_unescaped(e0) + seq![c] =~= a);
        } else {
            assert(like_escaped(a) =~= Seq::<char>::empty());
            assert(a =~= Seq::<char>::empty());
        }
    }
}

/// Escape special characters in a LIKE pattern term.
pub fn escape_like(term: &str) -> (r: String)
    ensures
        r@ == like_escaped(term@),
{
    let s = chars_of(term);
    let mut out: Vec<char> = Vec::new();
    let mut i: usize = 0;
    while i < s.len()
        invariant
            i <= s.len(),
            out@ == like_escaped(s@.take(i as int)),
        decreases s.len() - i,
    {
        assert(s@.take(i + 1).drop_last() =~= s@.take(i as int));
        let c = s[i];
        if c == '%' || c == '_' || c == '\\' {
            out.push('\\');
        }
        out.push(c);
        assert(out@ =~= like_escaped(s@.take(i + 1)));
        i += 1;
    }
    assert(s@.take(s.len() as int) =~= s@);
    string_from_chars(&out)
}

// ---------------------------------------------------------------------------
// Routing
// ---------------------------------------------------------------------------

/// Which index a term is routed to.
pub enum PlanKind {
    Fts,
    Bigram,
    Choseong,
    Like,
}

/// Routing: 2 or more initial consonants go to the initial-consonant index;
/// otherwise 3 or more characters to the trigram index, 2 characters with
/// some CJK to the bigram index, and everything else to LIKE.
pub open spec fn plan_kind(t: Seq<char>) -> PlanKind {
    if t.len() >= 2 && choseong_query(t) {
        PlanKind::Choseong
    } else if t.len() >= 3 {
        PlanKind::Fts
    } else if t.len() == 2 && (exists|i: int| 0 <= i < t.len() && is_cjk(#[trigger] t[i])) {
        PlanKind::Bigram
    } else {
        PlanKind::Like
    }
}

/// The query text the plan carries.
pub open spec fn plan_text(t: Seq<char>) -> Seq<char> {
    match plan_kind(t) {
        PlanKind::Choseong => bigram_query(bigrams_spec(t)),
        PlanKind::Fts => fts_phrase(t),
        PlanKind::Bigram => bigram_query(bigrams_spec(t)),
        PlanKind::Like => t,
    }
}

/// The query text the plan carries, given the NFC form `normalized` of the
/// term.
pub open spec fn plan_text_given(t: Seq<char>, normalized: Seq<char>) -> Seq<char> {
    match plan_kind(t) {
        PlanKind::Choseong => bigram_query(join(cjk_pairs(normalized), seq![' '])),
        PlanKind::Fts => fts_phrase(t),
        PlanKind::Bigram => bigram_query(join(cjk_pairs(normalized), seq![' '])),
        PlanKind::Like => t,
    }
}

/// The kind and text of a plan value.
pub open spec fn plan_matches(p: SearchPlan, k: PlanKind, text: Seq<char>) -> bool {
    match p {
        SearchPlan::FtsMatch(q) => k is Fts && q@ == text,
        SearchPlan::BigramMatch(q) => k is Bigram && q@ == text,
        SearchPlan::ChoseongMatch(q) => k is Choseong && q@ == text,
        SearchPlan::Like(q) => k is Like && q@ == text,
    }
}

/// Build a search plan from a raw search term.
///
/// Routing:
/// - 2 or more initial consonants only → `ChoseongMatch`
/// - 3 or more chars → `FtsMatch` (trigram FTS5)
/// - 2 chars + contains CJK → `BigramMatch` (bigram FTS5)
/// - otherwise → `Like`
pub fn build_search_plan(term: &str) -> (r: SearchPlan)
    ensures
        plan_matches(r, plan_kind(term@), plan_text(term@)),
{
    let normalized = normalize_nfc(term);
    search_plan_for_normalized(term, normalized.as_str())
}

/// The search plan of a term whose NFC form is `normalized`: the routing of
/// `build_search_plan`, with the bigram queries built from `normalized`.
pub fn search_plan_for_normalized(term: &str, normalized: &str) -> (r: SearchPlan)
    ensures
        plan_matches(r, plan_kind(term@), plan_text_given(term@, normalized@)),
{
    let v = chars_of(term);
    let n = v.len();
    if n >= 2 && is_choseong_query(term) {
        let b = bigrams_of_normalized(normalized);
        let bv = chars_of(b.as_str());
        let q = escape_bigram_query(&bv);
        return SearchPlan::ChoseongMatch(string_from_chars(&q));
    }
    if n >= 3 {
        let q = escape_fts_phrase(&v);
        SearchPlan::FtsMatch(string_from_chars(&q))
    } else if n == 2 && has_cjk(term) {
        let b = bigrams_of_normalized(normalized);
        let bv = chars_of(b.as_str());
        let q = escape_bigram_query(&bv);
        SearchPlan::BigramMatch(string_from_chars(&q))
    } else {
        SearchPlan::Like(string_from_chars(&v))
    }
}

// ---------------------------------------------------------------------------
// Laws of the bigram index
// ---------------------------------------------------------------------------

/// Hangul syllables, Han ideographs (the unified block and extension A),
/// hiragana and katakana are all CJK; ASCII is not.
pub proof fn law_cjk_scripts(c: char)
    ensures
        0xAC00 <= (c as u32) <= 0xD7A3 ==> is_cjk(c),
        0x4E00 <= (c as u32) <= 0x9FFF ==> is_cjk(c),
        0x3400 <= (c as u32) <= 0x4DBF ==> is_cjk(c),
        0x3040 <= (c as u32) <= 0x30FF ==> is_cjk(c),
        (c as u32) < 0x80 ==> !is_cjk(c),
{
}

/// In a text made only of CJK characters the bigrams are exactly its
/// adjacent pairs, in order: one fewer than its characters.
pub proof fn law_cjk_bigrams_of_cjk_text(cs: Seq<char>)
    requires
        forall|i: int| 0 <= i < cs.len() ==> is_cjk(#[trigger] cs[i]),
    ensures
        cs.len() >= 1 ==> cjk_pairs(cs).len() == cs.len() - 1,
        forall|i: int| 0 <= i < cs.len() - 1 ==> #[trigger] cjk_pairs(cs)[i] == seq![cs[i], cs[i + 1]],
    decreases cs.len(),
{
    if cs.len() >= 2 {
        let q = cs.drop_last();
        assert forall|i: int| 0 <= i < q.len() implies is_cjk(#[trigger] q[i]) by {
            assert(q[i] == cs[i]);
        }
        law_cjk_bigrams_of_cjk_text(q);
        assert(is_cjk(cs[cs.len() - 2]) && is_cjk(cs[cs.len() - 1]));
        let p = cjk_pairs(cs);
        assert(p == cjk_pairs(q) + seq![seq![cs[cs.len() - 2], cs[cs.len() - 1]]]);
        assert forall|i: int| 0 <= i < cs.len() - 1 implies #[trigger] p[i] == seq![cs[i], cs[i + 1]] by {
            if i < cs.len() - 2 {
                assert(p[i] == cjk_pairs(q)[i]);
                assert(q[i] == cs[i] && q[i + 1] == cs[i + 1]);
            }
        }
    } else if cs.len() == 1 {
        assert(cjk_pairs(cs).len() == 0);
    }
}

/// A two-character term written only in CJK (a Hangul word, two kanji or
/// hanzi, kana) goes to a bigram index, and its query is the one quoted
/// bigram of its NFC form, when that form is itself two CJK characters.
pub proof fn law_two_cjk_chars_query_their_bigram(t: Seq<char>, normalized: Seq<char>)
    requires
        t.len() == 2,
        forall|i: int| 0 <= i < t.len() ==> is_cjk(#[trigger] t[i]),
        normalized.len() == 2,
        forall|i: int| 0 <= i < normalized.len() ==> is_cjk(#[trigger] normalized[i]),
    ensures
        plan_kind(t) is Bigram || plan_kind(t) is Choseong,
        plan_text_given(t, normalized) == quoted(normalized),
        plan_text_given(t, normalized).len() == 4,
{
    assert(is_cjk(t[0]));
    law_cjk_bigrams_of_cjk_text(normalized);
    let ps = cjk_pairs(normalized);
    assert(ps.len() == 1);
    assert(ps[0] =~= normalized);
    assert(ps =~= seq![normalized]);
    let j = join(ps, seq![' ']);
    assert(j == normalized);
    if normalized.contains(' ') {
        let k = choose|k: int| 0 <= k < normalized.len() && normalized[k] == ' ';
        assert(is_cjk(normalized[k]));
    }
    lemma_split_char_absent(normalized, ' ');
    let e = Seq::<Seq<char>>::empty();
    assert(seq![normalized].drop_last() =~= e);
    assert(quote_nonempty(e) == e);
    assert(quote_nonempty(seq![normalized]) =~= seq![quoted(normalized)]);
    assert(join(seq![quoted(normalized)], seq![' ']) == quoted(normalized));
}

/// The same for `build_search_plan`, which takes the NFC form itself: a
/// two-character CJK term whose NFC form is two CJK characters is searched
/// for as that one quoted bigram.
pub proof fn law_build_plan_two_cjk_chars(t: Seq<char>)
    requires
        t.len() == 2,
        forall|i: int| 0 <= i < t.len() ==> is_cjk(#[trigger] t[i]),
        nfc(t).len() == 2,
        forall|i: int| 0 <= i < nfc(t).len() ==> is_cjk(#[trigger] nfc(t)[i]),
    ensures
        plan_kind(t) is Bigram || plan_kind(t) is Choseong,
        plan_text(t) == quoted(nfc(t)),
{
    law_two_cjk_chars_query_their_bigram(t, nfc(t));
}

} // verus!
