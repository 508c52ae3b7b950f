//! Where the Sioyek viewer keeps its databases, and which of its
//! highlights become new notes of a document.
use vstd::prelude::*;
use crate::dragdrop::{join_home, join_path};
use crate::text::{chars_of, eq_chars, push_string, string_from_chars, trim, trim_exec};

verus! {

/// The paths of Sioyek's `local.db` and `shared.db` in its data directory,
/// when that directory was found.
pub fn get_sioyek_db_paths(dir: Option<&str>) -> (r: Option<(String, String)>)
    ensures
        dir is None ==> r is None,
        dir matches Some(d) ==> (r matches Some(p) && p.0@ == join_home(d@, "local.db"@) && p.1@
            == join_home(d@, "shared.db"@)),
{
    match dir {
        Some(d) => {
            let base = chars_of(d);
            let local = join_path(&base, &chars_of("local.db"));
            let shared = join_path(&base, &chars_of("shared.db"));
            Some((string_from_chars(&local), string_from_chars(&shared)))
        },
        None => None,
    }
}

/// The notes that the highlights `hs` add, in order, when the trimmed texts
/// in `seen` are already stored: a highlight is added trimmed, unless it is
/// empty or its text is already stored or added.
pub open spec fn new_notes_from(hs: Seq<Seq<char>>, seen: Seq<Seq<char>>) -> Seq<Seq<char>>
    decreases hs.len(),
{
    if hs.len() == 0 {
        Seq::empty()
    } else {
        let t = trim(hs[0]);
        if t.len() == 0 || seen.contains(t) {
            new_notes_from(hs.drop_first(), seen)
        } else {
            seq![t] + new_notes_from(hs.drop_first(), seen.push(t))
        }
    }
}

/// The trimmed texts of the stored notes.
pub open spec fn trimmed_all(notes: Seq<Seq<char>>) -> Seq<Seq<char>> {
    notes.map_values(|n: Seq<char>| trim(n))
}

fn contains_chars(v: &Vec<Vec<char>>, t: &Vec<char>) -> (r: bool)
    ensures
        r == v.deep_view().contains(t@),
{
    let mut i: usize = 0;
    while i < v.len()
        invariant
            i <= v.len(),
            forall|k: int| 0 <= k < i ==> v.deep_view()[k] != t@,
        decreases v.len() - i,
    {
        assert(v.deep_view()[i as int] == v@[i as int]@);
        if eq_chars(&v[i], t) {
            assert(v.deep_view()[i as int] == t@);
            return true;
        }
        i += 1;
    }
    false
}

/// The texts of the Sioyek highlights that become new notes of a document
/// whose stored highlight notes are `existing`: each highlight trimmed, in
/// order, leaving out empty ones and those whose text is already stored or
/// already added.
pub fn new_highlight_notes(highlights: &Vec<String>, existing: &Vec<String>) -> (r: Vec<String>)
    ensures
        r.deep_view() == new_notes_from(highlights.deep_view(), trimmed_all(existing.deep_view())),
{
    let mut seen: Vec<Vec<char>> = Vec::new();
    let mut j: usize = 0;
    while j < existing.len()
        invariant
            j <= existing.len(),
            seen.deep_view() == trimmed_all(existing.deep_view()).take(j as int),
        decreases existing.len() - j,
    {
        let t = trim_exec(&chars_of(existing[j].as_str()));
        crate::text::push_piece(&mut seen, t);
        assert(trimmed_all(existing.deep_view()).take(j as int + 1) =~= trimmed_all(
            existing.deep_view(),
        ).take(j as int).push(trim(existing@[j as int]@)));
        j += 1;
    }
    assert(trimmed_all(existing.deep_view()).take(existing.len() as int) =~= trimmed_all(
        existing.deep_view(),
    ));
    let ghost hs = highlights.deep_view();
    let ghost seen0 = seen.deep_view();
    let mut out: Vec<String> = Vec::new();
    let mut i: usize = 0;
    assert(hs.skip(0) =~= hs);
    assert(out.deep_view() + new_notes_from(hs.skip(0), seen.deep_view()) =~= new_notes_from(
        hs,
        seen0,
    ));
    while i < highlights.len()
        invariant
            i <= highlights.len(),
            hs == highlights.deep_view(),
            out.deep_view() + new_notes_from(hs.skip(i as int), seen.deep_view()) == new_notes_from(
                hs,
                seen0,
            ),
        decreases highlights.len() - i,
    {
        let t = trim_exec(&chars_of(highlights[i].as_str()));
        assert(hs.skip(i as int)[0] == highlights@[i as int]@);
        assert(hs.skip(i as int).drop_first() =~= hs.skip(i as int + 1));
        let ghost before = out.deep_view();
        let ghost seen_before = seen.deep_view();
        if t.len() > 0 && !contains_chars(&seen, &t) {
            let ghost tv = t@;
            push_string(&mut out, string_from_chars(&t));
            crate::text::push_piece(&mut seen, t);
            assert(new_notes_from(hs.skip(i as int), seen_before) == seq![tv] + new_notes_from(
                hs.skip(i as int + 1),
                seen_before.push(tv),
            ));
            assert(out.deep_view() + new_notes_from(hs.skip(i as int + 1), seen.deep_view())
                =~= before + new_notes_from(hs.skip(i as int), seen_before));
        } else {
            assert(new_notes_from(hs.skip(i as int), seen_before) == new_notes_from(
                hs.skip(i as int + 1),
                seen_before,
            ));
        }
        i += 1;
    }
    assert(new_notes_from(hs.skip(i as int), seen.deep_view()).len() == 0);
    assert(out.deep_view() =~= out.deep_view() + new_notes_from(hs.skip(i as int), seen.deep_view()));
    out
}

/// Each highlight text is stored once: the new notes repeat neither each
/// other nor a stored note, each is a non-empty trimmed highlight, and every
/// non-empty trimmed highlight ends up stored or among the new notes.
pub proof fn law_new_notes_stored_once(hs: Seq<Seq<char>>, seen: Seq<Seq<char>>)
    ensures
        ({
            let r = new_notes_from(hs, seen);
            &&& forall|i: int, j: int| 0 <= i < j < r.len() ==> r[i] != r[j]
            &&& forall|i: int| 0 <= i < r.len() ==> !seen.contains(#[trigger] r[i])
            &&& forall|i: int|
                0 <= i < r.len() ==> (#[trigger] r[i]).len() > 0 && exists|k: int|
                    0 <= k < hs.len() && r[i] == trim(#[trigger] hs[k])
            &&& forall|k: int|
                0 <= k < hs.len() && trim(#[trigger] hs[k]).len() > 0 ==> seen.contains(trim(hs[k]))
                    || r.contains(trim(hs[k]))
        }),
    decreases hs.len(),
{
    if hs.len() > 0 {
        let t = trim(hs[0]);
        let rest = hs.drop_first();
        let r = new_notes_from(hs, seen);
        if t.len() == 0 || seen.contains(t) {
            law_new_notes_stored_once(rest, seen);
            assert(r == new_notes_from(rest, seen));
            assert forall|i: int|
                0 <= i < r.len() implies (#[trigger] r[i]).len() > 0 && exists|k: int|
                    0 <= k < hs.len() && r[i] == trim(#[trigger] hs[k]) by {
                let k = choose|k: int| 0 <= k < rest.len() && r[i] == trim(#[trigger] rest[k]);
                assert(hs[k + 1] == rest[k]);
            }
            assert forall|k: int|
                0 <= k < hs.len() && trim(#[trigger] hs[k]).len() > 0 implies seen.contains(
                    trim(hs[k]),
                ) || r.contains(trim(hs[k])) by {
                if k > 0 {
                    assert(hs[k] == rest[k - 1]);
                }
            }
        } else {
            let seen2 = seen.push(t);
            let r2 = new_notes_from(rest, seen2);
            law_new_notes_stored_once(rest, seen2);
            assert(r == seq![t] + r2);
            assert(seen2.contains(t)) by {
                assert(seen2[seen.len() as int] == t);
            }
            assert forall|i: int| 0 <= i < r2.len() implies !seen.contains(#[trigger] r2[i])
                && r2[i] != t by {
                if seen.contains(r2[i]) {
                    let m = choose|m: int| 0 <= m < seen.len() && seen[m] == r2[i];
                    assert(seen2[m] == r2[i]);
                }
                if r2[i] == t {
                    assert(seen2.contains(r2[i]));
                }
            }
            assert forall|i: int, j: int| 0 <= i < j < r.len() implies r[i] != r[j] by {
                if i == 0 {
                    assert(r[j] == r2[j - 1]);
                } else {
                    assert(r[i] == r2[i - 1]);
                    assert(r[j] == r2[j - 1]);
                }
            }
            assert forall|i: int| 0 <= i < r.len() implies !seen.contains(#[trigger] r[i]) by {
                if i > 0 {
                    assert(r[i] == r2[i - 1]);
                }
            }
            assert forall|i: int|
                0 <= i < r.len() implies (#[trigger] r[i]).len() > 0 && exists|k: int|
                    0 <= k < hs.len() && r[i] == trim(#[trigger] hs[k]) by {
                if i == 0 {
                    assert(r[0] == trim(hs[0]));
                } else {
                    assert(r[i] == r2[i - 1]);
                    let k = choose|k: int| 0 <= k < rest.len() && r2[i - 1] == trim(#[trigger] rest[k]);
                    assert(hs[k + 1] == rest[k]);
                }
            }
            assert forall|k: int|
                0 <= k < hs.len() && trim(#[trigger] hs[k]).len() > 0 implies seen.contains(
                    trim(hs[k]),
                ) || r.contains(trim(hs[k])) by {
                if k == 0 {
                    assert(r[0] == t);
                } else {
                    assert(hs[k] == rest[k - 1]);
                    let x = trim(hs[k]);
                    if r2.contains(x) {
                        let m = choose|m: int| 0 <= m < r2.len() && r2[m] == x;
                        assert(r[m + 1] == x);
                    } else if x == t {
                        assert(r[0] == x);
                    } else {
                        assert(seen2.contains(x));
                        let m = choose|m: int| 0 <= m < seen2.len() && seen2[m] == x;
                        assert(m < seen.len());
                        assert(seen[m] == x);
                    }
                }
            }
        }
    }
}

/// The message a Sioyek sync ends with: the reading-progress line when a
/// last-read page was found, and the count of highlights added when there
/// were any, joined with `, ` inside `동기화 완료 (...)`; a note that there
/// was nothing new when neither applies.
pub open spec fn sync_message(progress: Option<Seq<char>>, added: nat) -> Seq<char> {
    let added_line = "새로운 하이라이트 "@ + crate::number::decimal_digits(added) + "개 추가"@;
    match progress {
        Some(p) => if added > 0 {
            "동기화 완료 ("@ + p + ", "@ + added_line + ")"@
        } else {
            "동기화 완료 ("@ + p + ")"@
        },
        None => if added > 0 {
            "동기화 완료 ("@ + added_line + ")"@
        } else {
            "가져올 새로운 Sioyek 데이터가 없습니다."@
        },
    }
}

/// Builds the message of a Sioyek sync from its reading-progress line and
/// the number of highlights it added.
pub fn sync_summary(progress: Option<String>, added: usize) -> (r: String)
    ensures
        r@ == sync_message(
            match progress {
                Some(p) => Some(p@),
                None => None,
            },
            added as nat,
        ),
{
    let mut added_line: Vec<char> = chars_of("새로운 하이라이트 ");
    let digits = crate::number::digits_of_u64(added as u64);
    crate::text::append(&mut added_line, &digits);
    crate::text::append_str(&mut added_line, "개 추가");
    let mut out: Vec<char>;
    match progress {
        Some(p) => {
            out = chars_of("동기화 완료 (");
            crate::text::append_str(&mut out, p.as_str());
            if added > 0 {
                crate::text::append_str(&mut out, ", ");
                crate::text::append(&mut out, &added_line);
            }
            crate::text::append_str(&mut out, ")");
        },
        None => {
            if added > 0 {
                out = chars_of("동기화 완료 (");
                crate::text::append(&mut out, &added_line);
                crate::text::append_str(&mut out, ")");
            } else {
                out = chars_of("가져올 새로운 Sioyek 데이터가 없습니다.");
            }
        },
    }
    string_from_chars(&out)
}

} // verus!
