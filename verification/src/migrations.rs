//! Schema migrations: which of them a database still needs, given the
//! version it records, and the data step that brings the stored text of
//! every document to Unicode NFC.
use vstd::prelude::*;
use crate::fts_query::{nfc, normalize_nfc};
use crate::number::{parse_i64_spec, parse_i64_str};
use crate::text::{chars_of, eq_chars};

verus! {

/// The free-text fields of one document that the migration normalizes.
#[derive(Clone, Debug, PartialEq, Eq)]
pub struct TextFields {
    pub title: String,
    pub authors: Option<String>,
    pub journal: Option<String>,
    pub abstract_text: Option<String>,
    pub keywords: Option<String>,
}

pub open spec fn nfc_opt(v: Option<String>) -> Option<Seq<char>> {
    match v {
        Some(s) => Some(nfc(s@)),
        None => None,
    }
}

pub open spec fn view_opt(v: Option<String>) -> Option<Seq<char>> {
    match v {
        Some(s) => Some(s@),
        None => None,
    }
}

/// Some field changes under NFC normalization.
pub open spec fn changes_under_nfc(f: TextFields) -> bool {
    ||| nfc(f.title@) != f.title@
    ||| nfc_opt(f.authors) != view_opt(f.authors)
    ||| nfc_opt(f.journal) != view_opt(f.journal)
    ||| nfc_opt(f.abstract_text) != view_opt(f.abstract_text)
    ||| nfc_opt(f.keywords) != view_opt(f.keywords)
}

fn normalize_opt(v: &Option<String>) -> (r: (Option<String>, bool))
    ensures
        view_opt(r.0) == nfc_opt(*v),
        r.1 == (nfc_opt(*v) != view_opt(*v)),
{
    match v {
        Some(s) => {
            let n = normalize_nfc(s.as_str());
            let same = eq_chars(&chars_of(n.as_str()), &chars_of(s.as_str()));
            (Some(n), !same)
        },
        None => (None, false),
    }
}

/// The normalized fields of a document, or `None` when NFC leaves every
/// field as it is (the row then needs no update).
pub fn nfc_normalized(f: &TextFields) -> (r: Option<TextFields>)
    ensures
        r is Some <==> changes_under_nfc(*f),
        r matches Some(g) ==> {
            &&& g.title@ == nfc(f.title@)
            &&& view_opt(g.authors) == nfc_opt(f.authors)
            &&& view_opt(g.journal) == nfc_opt(f.journal)
            &&& view_opt(g.abstract_text) == nfc_opt(f.abstract_text)
            &&& view_opt(g.keywords) == nfc_opt(f.keywords)
        },
{
    let title = normalize_nfc(f.title.as_str());
    let title_changed = !eq_chars(&chars_of(title.as_str()), &chars_of(f.title.as_str()));
    let (authors, a) = normalize_opt(&f.authors);
    let (journal, j) = normalize_opt(&f.journal);
    let (abstract_text, b) = normalize_opt(&f.abstract_text);
    let (keywords, k) = normalize_opt(&f.keywords);
    if title_changed || a || j || b || k {
        Some(TextFields { title, authors, journal, abstract_text, keywords })
    } else {
        None
    }
}

/// The number of the newest migration.
pub const LATEST_MIGRATION: i64 = 17;

/// The schema version a database records: the stored text read as an
/// integer, 0 when there is none or it is not one.
pub open spec fn recorded_version(stored: Option<Seq<char>>) -> i64 {
    match stored {
        Some(s) => match parse_i64_spec(s) {
            Some(v) => v,
            None => 0,
        },
        None => 0,
    }
}

/// Reads the recorded schema version from the stored text, if any.
pub fn stored_version(stored: Option<&str>) -> (r: i64)
    ensures
        r == recorded_version(
            match stored {
                Some(s) => Some(s@),
                None => None,
            },
        ),
{
    match stored {
        Some(s) => match parse_i64_str(s) {
            Some(v) => v,
            None => 0,
        },
        None => 0,
    }
}

/// The migrations a database at `version` still needs: those numbered above
/// it, up to the newest, in increasing order.
pub open spec fn pending_spec(version: i64) -> Seq<i64> {
    let first: int = if version < 0 {
        1
    } else {
        version + 1
    };
    if first > LATEST_MIGRATION {
        Seq::empty()
    } else {
        Seq::new((LATEST_MIGRATION - first + 1) as nat, |i: int| (first + i) as i64)
    }
}

/// The migrations to run, in order, on a database that records `version`.
pub fn pending_migrations(version: i64) -> (r: Vec<i64>)
    ensures
        r@ == pending_spec(version),
{
    let mut out: Vec<i64> = Vec::new();
    let first: i64 = if version < 0 {
        1
    } else if version < LATEST_MIGRATION {
        version + 1
    } else {
        LATEST_MIGRATION + 1
    };
    let mut k: i64 = first;
    while k <= LATEST_MIGRATION
        invariant
            first <= k <= LATEST_MIGRATION + 1,
            first == (if version < 0 {
                1
            } else if version < LATEST_MIGRATION {
                version + 1
            } else {
                LATEST_MIGRATION + 1
            }),
            out@ == Seq::new((k - first) as nat, |i: int| (first + i) as i64),
        decreases LATEST_MIGRATION + 1 - k,
    {
        out.push(k);
        assert(out@ =~= Seq::new((k + 1 - first) as nat, |i: int| (first + i) as i64));
        k += 1;
    }
    assert(out@ =~= pending_spec(version));
    out
}

/// The version a database records once its pending migrations have run:
/// the last of them, or the version it had when none was pending.
pub open spec fn version_after(version: i64) -> i64 {
    let p = pending_spec(version);
    if p.len() == 0 {
        version
    } else {
        p.last()
    }
}

/// Migrations run in increasing order, each exactly once: every migration
/// above the recorded version and up to the newest is pending, none other
/// is, and once they have run the database records a version at which
/// nothing is pending and which is never below the one it had.
pub proof fn law_migrations_run_once(version: i64)
    ensures
        forall|i: int, j: int|
            0 <= i < j < pending_spec(version).len() ==> pending_spec(version)[i]
                < pending_spec(version)[j],
        forall|k: i64|
            pending_spec(version).contains(k) <==> (version < k && 1 <= k <= LATEST_MIGRATION),
        version_after(version) >= version,
        version_after(version) >= LATEST_MIGRATION,
        pending_spec(version_after(version)).len() == 0,
{
    let p = pending_spec(version);
    let first: int = if version < 0 {
        1
    } else {
        version + 1
    };
    assert forall|k: i64|
        p.contains(k) <==> (version < k && 1 <= k <= LATEST_MIGRATION) by {
        if version < k && 1 <= k <= LATEST_MIGRATION {
            assert(p[k - first] == k);
        }
    }
}

} // verus!
