//! Id remapping when another library is merged in: projects, series,
//! classification schemes and nodes of the imported library either match a
//! record of this one or are inserted, and the links of imported documents
//! follow the new ids.
use std::collections::HashMap;
use vstd::prelude::*;

verus! {

broadcast use vstd::std_specs::hash::group_hash_axioms;

/// What the ids of one kind of record of the imported library became here.
pub struct IdMap {
    map: HashMap<i64, i64>,
}

impl IdMap {
    /// Old id to new id.
    pub closed spec fn view(&self) -> Map<i64, i64> {
        self.map@
    }

    /// A map with no ids yet.
    pub fn new() -> (r: Self)
        ensures
            r@ == Map::<i64, i64>::empty(),
    {
        IdMap { map: HashMap::new() }
    }

    /// Records that `old_id` of the imported library is `new_id` here.
    pub fn record(&mut self, old_id: i64, new_id: i64)
        ensures
            final(self)@ == old(self)@.insert(old_id, new_id),
    {
        self.map.insert(old_id, new_id);
    }

    /// The id here of `old_id`, if it was recorded.
    pub fn lookup(&self, old_id: i64) -> (r: Option<i64>)
        ensures
            r == (if self@.contains_key(old_id) {
                Some(self@[old_id])
            } else {
                None
            }),
    {
        match self.map.get(&old_id) {
            Some(v) => Some(*v),
            None => None,
        }
    }
}

/// The id here of an imported parent node: `None` when the node had no
/// parent or its parent was not carried over.
pub fn remap_parent(map: &IdMap, old_parent: Option<i64>) -> (r: Option<i64>)
    ensures
        r == (match old_parent {
            Some(p) => if map@.contains_key(p) {
                Some(map@[p])
            } else {
                None
            },
            None => None,
        }),
{
    match old_parent {
        Some(p) => map.lookup(p),
        None => None,
    }
}

/// The ids here of the records that `old_ids` link to, in order, leaving
/// out the links whose record was not carried over.
pub open spec fn linked_spec(m: Map<i64, i64>, old_ids: Seq<i64>) -> Seq<i64>
    decreases old_ids.len(),
{
    if old_ids.len() == 0 {
        Seq::empty()
    } else {
        let rest = linked_spec(m, old_ids.drop_last());
        if m.contains_key(old_ids.last()) {
            rest.push(m[old_ids.last()])
        } else {
            rest
        }
    }
}

/// The links of an imported document to series or projects, moved to the
/// ids they have here; links to records that were not carried over are
/// dropped.
pub fn linked_ids(map: &IdMap, old_ids: &Vec<i64>) -> (r: Vec<i64>)
    ensures
        r@ == linked_spec(map@, old_ids@),
{
    let mut out: Vec<i64> = Vec::new();
    let mut i: usize = 0;
    while i < old_ids.len()
        invariant
            i <= old_ids.len(),
            out@ == linked_spec(map@, old_ids@.take(i as int)),
        decreases old_ids.len() - i,
    {
        assert(old_ids@.take(i as int + 1).drop_last() =~= old_ids@.take(i as int));
        assert(old_ids@.take(i as int + 1).last() == old_ids@[i as int]);
        match map.lookup(old_ids[i]) {
            Some(v) => out.push(v),
            None => {},
        }
        i += 1;
    }
    assert(old_ids@.take(old_ids.len() as int) =~= old_ids@);
    out
}

/// A recorded id is what a lookup of it gives back, and recording one id
/// leaves what the others give unchanged.
pub proof fn law_lookup_after_record(m: Map<i64, i64>, old_id: i64, new_id: i64, other: i64)
    requires
        other != old_id,
    ensures
        m.insert(old_id, new_id).contains_key(old_id),
        m.insert(old_id, new_id)[old_id] == new_id,
        m.insert(old_id, new_id).contains_key(other) == m.contains_key(other),
        m.contains_key(other) ==> m.insert(old_id, new_id)[other] == m[other],
{
}

/// Every moved link names a record that was carried over, and there are
/// never more links than before.
pub proof fn law_links_are_carried_over(m: Map<i64, i64>, old_ids: Seq<i64>)
    ensures
        linked_spec(m, old_ids).len() <= old_ids.len(),
        forall|k: int|
            0 <= k < linked_spec(m, old_ids).len() ==> exists|j: int|
                0 <= j < old_ids.len() && m.contains_key(old_ids[j]) && #[trigger] linked_spec(
                    m,
                    old_ids,
                )[k] == m[old_ids[j]],
    decreases old_ids.len(),
{
    if old_ids.len() > 0 {
        let init = old_ids.drop_last();
        law_links_are_carried_over(m, init);
        let rest = linked_spec(m, init);
        assert forall|k: int|
            0 <= k < linked_spec(m, old_ids).len() implies exists|j: int|
                0 <= j < old_ids.len() && m.contains_key(old_ids[j]) && #[trigger] linked_spec(
                    m,
                    old_ids,
                )[k] == m[old_ids[j]] by {
            if k < rest.len() {
                let j = choose|j: int|
                    0 <= j < init.len() && m.contains_key(init[j]) && #[trigger] rest[k]
                        == m[init[j]];
                assert(old_ids[j] == init[j]);
            } else {
                assert(old_ids[old_ids.len() - 1] == old_ids.last());
            }
        }
    }
}

} // verus!
