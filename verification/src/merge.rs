//! Duplicate detection when documents of another library are merged in:
//! a document is skipped when its file hash, DOI, arXiv id or citation key
//! is already known.
use vstd::prelude::*;
use crate::text::{chars_of, eq_chars};

verus! {

/// The identities of the documents already in the library.
pub struct KnownIdentities {
    file_hashes: Vec<String>,
    dois: Vec<String>,
    arxiv_ids: Vec<String>,
    citation_keys: Vec<String>,
}

/// The identities of one document, as optional values.
pub open spec fn opt_in(set: Seq<Seq<char>>, v: Option<String>) -> bool {
    match v {
        Some(s) => set.contains(s@),
        None => false,
    }
}

pub open spec fn with_opt(set: Seq<Seq<char>>, v: Option<String>) -> Seq<Seq<char>> {
    match v {
        Some(s) => set.push(s@),
        None => set,
    }
}

fn contains_string(v: &Vec<String>, s: &String) -> (r: bool)
    ensures
        r == v.deep_view().contains(s@),
{
    let t = chars_of(s.as_str());
    let mut i: usize = 0;
    while i < v.len()
        invariant
            i <= v.len(),
            t@ == s@,
            forall|k: int| 0 <= k < i ==> v.deep_view()[k] != s@,
        decreases v.len() - i,
    {
        assert(v.deep_view()[i as int] == v@[i as int]@);
        if eq_chars(&chars_of(v[i].as_str()), &t) {
            assert(v.deep_view()[i as int] == s@);
            return true;
        }
        i += 1;
    }
    false
}

fn opt_in_exec(v: &Vec<String>, s: &Option<String>) -> (r: bool)
    ensures
        r == opt_in(v.deep_view(), *s),
{
    match s {
        Some(x) => contains_string(v, x),
        None => false,
    }
}

fn add_opt(v: &mut Vec<String>, s: &Option<String>)
    ensures
        final(v).deep_view() == with_opt(old(v).deep_view(), *s),
{
    match s {
        Some(x) => {
            crate::text::push_string(v, x.clone());
        },
        None => {},
    }
}

impl KnownIdentities {
    /// The known file hashes, DOIs, arXiv ids and citation keys.
    pub closed spec fn view(&self) -> (Seq<Seq<char>>, Seq<Seq<char>>, Seq<Seq<char>>, Seq<Seq<char>>) {
        (
            self.file_hashes.deep_view(),
            self.dois.deep_view(),
            self.arxiv_ids.deep_view(),
            self.citation_keys.deep_view(),
        )
    }

    /// Nothing known yet.
    pub fn new() -> (r: Self)
        ensures
            r.view().0.len() == 0,
            r.view().1.len() == 0,
            r.view().2.len() == 0,
            r.view().3.len() == 0,
    {
        KnownIdentities {
            file_hashes: Vec::new(),
            dois: Vec::new(),
            arxiv_ids: Vec::new(),
            citation_keys: Vec::new(),
        }
    }

    /// Whether a document with these identities is already in the library.
    pub fn is_duplicate(
        &self,
        file_hash: &Option<String>,
        doi: &Option<String>,
        arxiv_id: &Option<String>,
        citation_key: &Option<String>,
    ) -> (r: bool)
        ensures
            r == (opt_in(self.view().0, *file_hash) || opt_in(self.view().1, *doi) || opt_in(
                self.view().2,
                *arxiv_id,
            ) || opt_in(self.view().3, *citation_key)),
    {
        opt_in_exec(&self.file_hashes, file_hash) || opt_in_exec(&self.dois, doi) || opt_in_exec(
            &self.arxiv_ids,
            arxiv_id,
        ) || opt_in_exec(&self.citation_keys, citation_key)
    }

    /// Records the identities of a document that was added.
    pub fn record(
        &mut self,
        file_hash: &Option<String>,
        doi: &Option<String>,
        arxiv_id: &Option<String>,
        citation_key: &Option<String>,
    )
        ensures
            final(self).view().0 == with_opt(old(self).view().0, *file_hash),
            final(self).view().1 == with_opt(old(self).view().1, *doi),
            final(self).view().2 == with_opt(old(self).view().2, *arxiv_id),
            final(self).view().3 == with_opt(old(self).view().3, *citation_key),
    {
        add_opt(&mut self.file_hashes, file_hash);
        add_opt(&mut self.dois, doi);
        add_opt(&mut self.arxiv_ids, arxiv_id);
        add_opt(&mut self.citation_keys, citation_key);
    }

    /// Accepts a document unless it is a duplicate, recording its identities;
    /// returns whether it was accepted.
    pub fn accept_if_new(
        &mut self,
        file_hash: &Option<String>,
        doi: &Option<String>,
        arxiv_id: &Option<String>,
        citation_key: &Option<String>,
    ) -> (r: bool)
        ensures
            r == !(opt_in(old(self).view().0, *file_hash) || opt_in(old(self).view().1, *doi)
                || opt_in(old(self).view().2, *arxiv_id) || opt_in(
                old(self).view().3,
                *citation_key,
            )),
            r ==> final(self).view() == (
                with_opt(old(self).view().0, *file_hash),
                with_opt(old(self).view().1, *doi),
                with_opt(old(self).view().2, *arxiv_id),
                with_opt(old(self).view().3, *citation_key),
            ),
            !r ==> final(self).view() == old(self).view(),
    {
        if self.is_duplicate(file_hash, doi, arxiv_id, citation_key) {
            false
        } else {
            self.record(file_hash, doi, arxiv_id, citation_key);
            true
        }
    }
}

/// Once a document with some identity is accepted, a document sharing any
/// of its identities is a duplicate; a document without identities never is.
pub proof fn law_accepted_identities_are_known(
    known: (Seq<Seq<char>>, Seq<Seq<char>>, Seq<Seq<char>>, Seq<Seq<char>>),
    file_hash: Option<String>,
    doi: Option<String>,
    arxiv_id: Option<String>,
    citation_key: Option<String>,
)
    ensures
        (file_hash is Some || doi is Some || arxiv_id is Some || citation_key is Some) ==> (
        opt_in(with_opt(known.0, file_hash), file_hash) || opt_in(with_opt(known.1, doi), doi)
            || opt_in(with_opt(known.2, arxiv_id), arxiv_id) || opt_in(
            with_opt(known.3, citation_key),
            citation_key,
        )),
        !(opt_in(known.0, None) || opt_in(known.1, None) || opt_in(known.2, None) || opt_in(
            known.3,
            None,
        )),
{
    match file_hash {
        Some(s) => {
            assert(known.0.push(s@)[known.0.len() as int] == s@);
        },
        None => {},
    }
    match doi {
        Some(s) => {
            assert(known.1.push(s@)[known.1.len() as int] == s@);
        },
        None => {},
    }
    match arxiv_id {
        Some(s) => {
            assert(known.2.push(s@)[known.2.len() as int] == s@);
        },
        None => {},
    }
    match citation_key {
        Some(s) => {
            assert(known.3.push(s@)[known.3.len() as int] == s@);
        },
        None => {},
    }
}

} // verus!
