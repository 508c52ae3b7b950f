//! Structured creators (authors, editors, ...) and their conversion from and
//! to the plain author list of a document.
use vstd::prelude::*;
use crate::documents::{
    is_author_name, lemma_split_authors_names, lemma_split_authors_of_join, split_authors_chars,
    split_authors_spec,
};
use crate::text::{
    chars_of, find_ci, find_char, find_char_exec, join, join_str, lemma_chars_deep_view, slice_of,
    string_from_chars, trim, trim_exec, words, words_exec,
};

verus! {

/// One creator of a document.
#[derive(Clone, Debug, PartialEq, Eq)]
pub struct Creator {
    pub id: Option<i64>,
    pub document_id: i64,
    pub creator_type: String,
    pub family: Option<String>,
    pub given: Option<String>,
    pub suffix: Option<String>,
    pub particles: Option<String>,
    pub literal: Option<String>,
    pub locale: Option<String>,
    pub order_index: i64,
}

// ---------------------------------------------------------------------------
// Locale
// ---------------------------------------------------------------------------

pub open spec fn is_hangul(c: char) -> bool {
    0xAC00 <= (c as u32) <= 0xD7AF
}

pub open spec fn is_kana(c: char) -> bool {
    (0x3040 <= (c as u32) <= 0x309F) || (0x30A0 <= (c as u32) <= 0x30FF)
}

pub open spec fn is_han(c: char) -> bool {
    (0x4E00 <= (c as u32) <= 0x9FFF) || (0x3400 <= (c as u32) <= 0x4DBF)
}

pub open spec fn has_char(s: Seq<char>, p: spec_fn(char) -> bool) -> bool {
    exists|i: int| 0 <= i < s.len() && p(#[trigger] s[i])
}

/// `ko` when the name has a Hangul syllable, else `ja` when it has Kana,
/// else `zh` when it has a Han ideograph.
pub open spec fn detect_locale_spec(name: Seq<char>) -> Option<Seq<char>> {
    if has_char(name, |c: char| is_hangul(c)) {
        Some("ko"@)
    } else if has_char(name, |c: char| is_kana(c)) {
        Some("ja"@)
    } else if has_char(name, |c: char| is_han(c)) {
        Some("zh"@)
    } else {
        None
    }
}

/// The CJK locale of a name, from the scripts of its characters.
pub fn detect_locale(name: &str) -> (r: Option<&'static str>)
    ensures
        r.deep_view() == detect_locale_spec(name@),
{
    let s = chars_of(name);
    let mut has_hangul = false;
    let mut has_kana = false;
    let mut has_han = false;
    let mut i: usize = 0;
    while i < s.len()
        invariant
            i <= s.len(),
            s@ == name@,
            has_hangul == has_char(s@.take(i as int), |c: char| is_hangul(c)),
            has_kana == has_char(s@.take(i as int), |c: char| is_kana(c)),
            has_han == has_char(s@.take(i as int), |c: char| is_han(c)),
        decreases s.len() - i,
    {
        let c = s[i] as u32;
        let ghost t = s@.take(i + 1);
        assert(t[i as int] == s@[i as int]);
        assert forall|j: int| 0 <= j < i implies #[trigger] t[j] == s@.take(i as int)[j] by {}
        if 0xAC00 <= c && c <= 0xD7AF {
            has_hangul = true;
        } else if (0x3040 <= c && c <= 0x309F) || (0x30A0 <= c && c <= 0x30FF) {
            has_kana = true;
        } else if (0x4E00 <= c && c <= 0x9FFF) || (0x3400 <= c && c <= 0x4DBF) {
            has_han = true;
        }
        proof {
            let f1 = |c: char| is_hangul(c);
            let f2 = |c: char| is_kana(c);
            let f3 = |c: char| is_han(c);
            if has_char(t, f1) {
                let j = choose|j: int| 0 <= j < t.len() && f1(#[trigger] t[j]);
                if j < i {
                    assert(s@.take(i as int)[j] == t[j]);
                }
            }
            if has_char(t, f2) {
                let j = choose|j: int| 0 <= j < t.len() && f2(#[trigger] t[j]);
                if j < i {
                    assert(s@.take(i as int)[j] == t[j]);
                }
            }
            if has_char(t, f3) {
                let j = choose|j: int| 0 <= j < t.len() && f3(#[trigger] t[j]);
                if j < i {
                    assert(s@.take(i as int)[j] == t[j]);
                }
            }
        }
        i += 1;
    }
    assert(s@.take(s.len() as int) =~= s@);
    if has_hangul {
        Some("ko")
    } else if has_kana {
        Some("ja")
    } else if has_han {
        Some("zh")
    } else {
        None
    }
}

// ---------------------------------------------------------------------------
// Names
// ---------------------------------------------------------------------------

/// `(family, given, literal)` of a name. With a comma: family before it,
/// given after it, both trimmed. A CJK name without a comma is kept whole as
/// a literal; any other name's last word is the family name and the words
/// before it the given names.
pub open spec fn split_name_spec(name: Seq<char>, cjk: bool) -> (
    Option<Seq<char>>,
    Option<Seq<char>>,
    Option<Seq<char>>,
) {
    match find_char(name, ',') {
        Some(p) => (Some(trim(name.take(p))), Some(trim(name.skip(p + 1))), None),
        None => if cjk {
            (None, None, Some(name))
        } else {
            let ws = words(name);
            if ws.len() == 0 {
                (None, None, None)
            } else if ws.len() == 1 {
                (Some(ws[0]), None, None)
            } else {
                (Some(ws.last()), Some(join(ws.drop_last(), " "@)), None)
            }
        },
    }
}

fn split_name_chars(name: &Vec<char>, cjk: bool) -> (r: (
    Option<Vec<char>>,
    Option<Vec<char>>,
    Option<Vec<char>>,
))
    ensures
        (r.0.deep_view(), r.1.deep_view(), r.2.deep_view()) == split_name_spec(name@, cjk),
{
    broadcast use lemma_chars_deep_view;

    match find_char_exec(name, ',') {
        Some(p) => {
            proof { crate::text::lemma_find_char_from(name@, ',', 0int); }
            let f0 = slice_of(name, 0, p);
            assert(f0@ =~= name@.take(p as int));
            let g0 = slice_of(name, p + 1, name.len());
            assert(g0@ =~= name@.skip(p + 1));
            (Some(trim_exec(&f0)), Some(trim_exec(&g0)), None)
        },
        None => {
            if cjk {
                let all = slice_of(name, 0, name.len());
                assert(all@ =~= name@);
                (None, None, Some(all))
            } else {
                let ws = words_exec(name);
                if ws.len() == 0 {
                    (None, None, None)
                } else if ws.len() == 1 {
                    assert(ws.deep_view()[0] == ws@[0]@);
                    (Some(slice_of(&ws[0], 0, ws[0].len())), None, None)
                } else {
                    let n = ws.len();
                    let ghost wv = ws.deep_view();
                    assert(wv[n - 1] == ws@[n - 1]@);
                    let last = slice_of(&ws[n - 1], 0, ws[n - 1].len());
                    let mut init: Vec<Vec<char>> = Vec::new();
                    let mut k: usize = 0;
                    while k < n - 1
                        invariant
                            n == ws.len(),
                            n >= 2,
                            k <= n - 1,
                            wv == ws.deep_view(),
                            init.deep_view() == wv.take(k as int),
                        decreases n - 1 - k,
                    {
                        assert(wv[k as int] == ws@[k as int]@);
                        crate::text::push_piece(&mut init, slice_of(&ws[k], 0, ws[k].len()));
                        assert(ws@[k as int]@.subrange(0, ws@[k as int]@.len() as int)
                            =~= ws@[k as int]@);
                        assert(init.deep_view() =~= wv.take(k + 1));
                        k += 1;
                    }
                    assert(wv.take(n - 1) =~= wv.drop_last());
                    let given = join_str(&init, " ");
                    (Some(last), Some(given), None)
                }
            }
        },
    }
}

fn opt_string(v: Option<Vec<char>>) -> (r: Option<String>)
    ensures
        r.deep_view() == (match v {
            Some(x) => Some(x@),
            None => None::<Seq<char>>,
        }),
{
    match v {
        Some(x) => Some(string_from_chars(&x)),
        None => None,
    }
}

/// Splits one author name into `(family, given, literal)`; any locale marks
/// the name as CJK.
pub fn split_name(name: &str, locale: Option<&str>) -> (r: (
    Option<String>,
    Option<String>,
    Option<String>,
))
    ensures
        (r.0.deep_view(), r.1.deep_view(), r.2.deep_view()) == split_name_spec(
            name@,
            locale is Some,
        ),
{
    let n = chars_of(name);
    let (f, g, l) = split_name_chars(&n, locale.is_some());
    (opt_string(f), opt_string(g), opt_string(l))
}

// ---------------------------------------------------------------------------
// Creators from and to an author list
// ---------------------------------------------------------------------------

/// The creator made from the `idx`-th name of an author list.
pub open spec fn creator_of_name(c: Creator, doc_id: i64, name: Seq<char>, idx: int) -> bool {
    let locale = detect_locale_spec(name);
    let parts = split_name_spec(name, locale is Some);
    &&& c.id is None
    &&& c.document_id == doc_id
    &&& c.creator_type@ == "author"@
    &&& c.family.deep_view() == parts.0
    &&& c.given.deep_view() == parts.1
    &&& c.literal.deep_view() == parts.2
    &&& c.suffix is None
    &&& c.particles is None
    &&& c.locale.deep_view() == locale
    &&& c.order_index == idx as i64
}

/// The creators of a document's author list (none when it is absent or
/// blank), one per name of `split_authors`, in order.
pub fn creators_from_authors(doc_id: i64, authors: Option<&str>) -> (r: Vec<Creator>)
    ensures
        (match authors {
            Some(a) => trim(a@).len() > 0,
            None => false,
        }) ==> r@.len() == split_authors_spec(authors->0@).len() && forall|i: int|
            0 <= i < r@.len() ==> creator_of_name(
                #[trigger] r@[i],
                doc_id,
                split_authors_spec(authors->0@)[i],
                i,
            ),
        !(match authors {
            Some(a) => trim(a@).len() > 0,
            None => false,
        }) ==> r@.len() == 0,
{
    broadcast use lemma_chars_deep_view;

    let mut out: Vec<Creator> = Vec::new();
    let a = match authors {
        Some(a) => a,
        None => {
            return out;
        },
    };
    let av = chars_of(a);
    let t = trim_exec(&av);
    if t.len() == 0 {
        return out;
    }
    let names = split_authors_chars(&av);
    let ghost nv = names.deep_view();
    let mut i: usize = 0;
    while i < names.len()
        invariant
            i <= names.len(),
            nv == names.deep_view(),
            nv == split_authors_spec(a@),
            out@.len() == i,
            forall|j: int| 0 <= j < i ==> creator_of_name(#[trigger] out@[j], doc_id, nv[j], j),
        decreases names.len() - i,
    {
        assert(nv[i as int] == names@[i as int]@);
        let name = string_from_chars(&names[i]);
        let locale = detect_locale(name.as_str());
        let (family, given, literal) = split_name(name.as_str(), locale);
        let loc = match locale {
            Some(l) => Some(l.to_string()),
            None => None,
        };
        let c = Creator {
            id: None,
            document_id: doc_id,
            creator_type: "author".to_string(),
            family,
            given,
            suffix: None,
            particles: None,
            literal,
            locale: loc,
            order_index: i as i64,
        };
        out.push(c);
        i += 1;
    }
    out
}

/// How a creator reads in an author list: its literal form, else
/// "family, given", else whichever of the two is set.
pub open spec fn render_creator(c: Creator) -> Seq<char> {
    match c.literal {
        Some(l) => l@,
        None => match c.family {
            Some(f) => match c.given {
                Some(g) => if g@.len() > 0 {
                    f@ + ", "@ + g@
                } else {
                    f@
                },
                None => f@,
            },
            None => match c.given {
                Some(g) => g@,
                None => Seq::empty(),
            },
        },
    }
}

/// The non-empty renderings of the creators, in order.
pub open spec fn rendered_names(cs: Seq<Creator>) -> Seq<Seq<char>>
    decreases cs.len(),
{
    if cs.len() == 0 {
        seq![]
    } else {
        let r = render_creator(cs.last());
        rendered_names(cs.drop_last()) + if r.len() > 0 {
            seq![r]
        } else {
            seq![]
        }
    }
}

pub open spec fn creators_to_authors_string_spec(cs: Seq<Creator>) -> Seq<char> {
    join(rendered_names(cs), "; "@)
}

fn render_creator_exec(c: &Creator) -> (r: Vec<char>)
    ensures
        r@ == render_creator(*c),
{
    match &c.literal {
        Some(l) => chars_of(l.as_str()),
        None => match &c.family {
            Some(f) => match &c.given {
                Some(g) => {
                    if !g.as_str().is_empty() {
                        let mut out = chars_of(f.as_str());
                        crate::text::append_str(&mut out, ", ");
                        crate::text::append_str(&mut out, g.as_str());
                        out
                    } else {
                        chars_of(f.as_str())
                    }
                },
                None => chars_of(f.as_str()),
            },
            None => match &c.given {
                Some(g) => chars_of(g.as_str()),
                None => Vec::new(),
            },
        },
    }
}

/// The author list of the creators, `"; "`-separated.
pub fn creators_to_authors_string(creators: &[Creator]) -> (r: String)
    ensures
        r@ == creators_to_authors_string_spec(creators@),
{
    let mut parts: Vec<Vec<char>> = Vec::new();
    let mut i: usize = 0;
    assert(parts.deep_view() =~= Seq::<Seq<char>>::empty());
    while i < creators.len()
        invariant
            i <= creators.len(),
            parts.deep_view() == rendered_names(creators@.take(i as int)),
        decreases creators.len() - i,
    {
        let r = render_creator_exec(&creators[i]);
        assert(creators@.take(i + 1).drop_last() =~= creators@.take(i as int));
        if r.len() > 0 {
            crate::text::push_piece(&mut parts, r);
        } else {
            assert(parts.deep_view() =~= parts.deep_view() + Seq::<Seq<char>>::empty());
        }
        i += 1;
    }
    assert(creators@.take(creators.len() as int) =~= creators@);
    let joined = join_str(&parts, "; ");
    string_from_chars(&joined)
}

// ---------------------------------------------------------------------------
// Round trip
// ---------------------------------------------------------------------------

/// How the `(family, given, literal)` parts of a name read back.
pub open spec fn render_parts(p: (Option<Seq<char>>, Option<Seq<char>>, Option<Seq<char>>)) -> Seq<
    char,
> {
    match p.2 {
        Some(l) => l,
        None => match p.0 {
            Some(f) => match p.1 {
                Some(g) => if g.len() > 0 {
                    f + ", "@ + g
                } else {
                    f
                },
                None => f,
            },
            None => match p.1 {
                Some(g) => g,
                None => Seq::empty(),
            },
        },
    }
}

/// A name that reads back as itself once split into its parts, and that
/// holds no " and " (any case) to be split at.
pub open spec fn name_round_trips(n: Seq<char>) -> bool {
    &&& render_parts(split_name_spec(n, detect_locale_spec(n) is Some)) == n
    &&& find_ci(n, " and "@) is None
}

proof fn lemma_render_creator(c: Creator, doc_id: i64, n: Seq<char>, i: int)
    requires
        creator_of_name(c, doc_id, n, i),
    ensures
        render_creator(c) == render_parts(split_name_spec(n, detect_locale_spec(n) is Some)),
{
}

proof fn lemma_rendered_names(cs: Seq<Creator>, ns: Seq<Seq<char>>)
    requires
        cs.len() == ns.len(),
        forall|i: int| 0 <= i < cs.len() ==> render_creator(#[trigger] cs[i]) == ns[i],
        forall|i: int| 0 <= i < ns.len() ==> (#[trigger] ns[i]).len() > 0,
    ensures
        rendered_names(cs) == ns,
    decreases cs.len(),
{
    if cs.len() > 0 {
        lemma_rendered_names(cs.drop_last(), ns.drop_last());
        assert(render_creator(cs.last()) == ns.last());
        assert(ns.drop_last().push(ns.last()) =~= ns);
    } else {
        assert(ns =~= Seq::<Seq<char>>::empty());
    }
}

/// The author list rendered from the creators of an author list splits into
/// the same names as the list it came from, when every name reads back as itself
/// from its parts and holds no " and ".
pub proof fn law_authors_round_trip(doc_id: i64, authors: Seq<char>, cs: Seq<Creator>)
    requires
        cs.len() == split_authors_spec(authors).len(),
        forall|i: int|
            0 <= i < cs.len() ==> creator_of_name(
                #[trigger] cs[i],
                doc_id,
                split_authors_spec(authors)[i],
                i,
            ),
        forall|i: int|
            0 <= i < split_authors_spec(authors).len() ==> name_round_trips(
                #[trigger] split_authors_spec(authors)[i],
            ),
    ensures
        split_authors_spec(creators_to_authors_string_spec(cs)) == split_authors_spec(authors),
{
    let ns = split_authors_spec(authors);
    lemma_split_authors_names(authors);
    assert forall|i: int| 0 <= i < cs.len() implies render_creator(#[trigger] cs[i]) == ns[i] by {
        lemma_render_creator(cs[i], doc_id, ns[i], i);
        assert(name_round_trips(ns[i]));
    }
    assert forall|i: int| 0 <= i < ns.len() implies (#[trigger] ns[i]).len() > 0 by {
        assert(is_author_name(ns[i]));
    }
    lemma_rendered_names(cs, ns);
    assert forall|i: int| 0 <= i < ns.len() implies is_author_name(#[trigger] ns[i]) && find_ci(
        ns[i],
        " and "@,
    ) is None by {
        assert(name_round_trips(ns[i]));
    }
    lemma_split_authors_of_join(ns);
}

} // verus!
