//! UDC classification trees and the integer side of similarity scoring:
//! ancestor paths, common-ancestor depth, match levels and the citation,
//! tag, year and venue relations that the weighted score is made of.
use vstd::prelude::*;
use crate::text::{
    chars_of, eq_chars, in_set, in_set_exec, is_digit, lemma_chars_deep_view, slice_of,
    split_char, split_char_exec, string_from_chars, trim, trim_exec, CharSet,
};

verus! {

/// All data about one document that similarity scoring reads.
#[derive(Clone, Debug)]
pub struct DocumentFeatures {
    pub id: i64,
    pub udc_notations: Vec<String>,
    pub tags: Vec<String>,
    pub cited_docs: Vec<i64>,
    pub cited_by_docs: Vec<i64>,
    pub pub_year: Option<i64>,
    pub conference: Option<String>,
}

// ---------------------------------------------------------------------------
// The tree
// ---------------------------------------------------------------------------

/// The parent of `x` among the `(notation, parent)` pairs from the `i`-th on.
pub open spec fn parent_from(ps: Seq<(Seq<char>, Seq<char>)>, x: Seq<char>, i: int) -> Option<
    Seq<char>,
>
    decreases ps.len() - i,
{
    if i < 0 || i >= ps.len() {
        None
    } else if ps[i].0 == x {
        Some(ps[i].1)
    } else {
        parent_from(ps, x, i + 1)
    }
}

pub open spec fn parent_of(ps: Seq<(Seq<char>, Seq<char>)>, x: Seq<char>) -> Option<Seq<char>> {
    parent_from(ps, x, 0)
}

/// The number of parent steps from `x` to a notation without a parent,
/// when there are at most `fuel`.
pub open spec fn depth_within(ps: Seq<(Seq<char>, Seq<char>)>, x: Seq<char>, fuel: nat) -> Option<
    nat,
>
    decreases fuel,
{
    match parent_of(ps, x) {
        None => Some(0),
        Some(p) => if fuel == 0 {
            None
        } else {
            match depth_within(ps, p, (fuel - 1) as nat) {
                Some(d) => Some(d + 1),
                None => None,
            }
        },
    }
}

/// `x` and its ancestors, the root first, following at most `fuel` steps.
pub open spec fn path_within(ps: Seq<(Seq<char>, Seq<char>)>, x: Seq<char>, fuel: nat) -> Seq<
    Seq<char>,
>
    decreases fuel,
{
    match parent_of(ps, x) {
        None => seq![x],
        Some(p) => if fuel == 0 {
            seq![x]
        } else {
            path_within(ps, p, (fuel - 1) as nat).push(x)
        },
    }
}

/// One entry per notation.
pub open spec fn keys_unique(ps: Seq<(Seq<char>, Seq<char>)>) -> bool {
    forall|i: int, j: int| 0 <= i < j < ps.len() ==> (#[trigger] ps[i]).0 != (#[trigger] ps[j]).0
}

/// Following parents from any notation reaches a root: no cycles.
pub open spec fn acyclic(ps: Seq<(Seq<char>, Seq<char>)>) -> bool {
    forall|i: int| 0 <= i < ps.len() ==> depth_within(ps, (#[trigger] ps[i]).0, ps.len()) is Some
}

/// The depth of a notation: 0 for a root (a notation without a parent).
pub open spec fn depth(ps: Seq<(Seq<char>, Seq<char>)>, x: Seq<char>) -> nat {
    match depth_within(ps, x, ps.len()) {
        Some(d) => d,
        None => 0,
    }
}

/// The ancestor path of a notation, the root first and the notation last.
pub open spec fn ancestor_path_spec(ps: Seq<(Seq<char>, Seq<char>)>, x: Seq<char>) -> Seq<
    Seq<char>,
> {
    path_within(ps, x, ps.len())
}

/// The length of the common prefix of two paths, from `i` on.
pub open spec fn common_prefix(a: Seq<Seq<char>>, b: Seq<Seq<char>>, i: int) -> int
    decreases a.len() - i,
{
    if 0 <= i < a.len() && i < b.len() && a[i] == b[i] {
        common_prefix(a, b, i + 1)
    } else {
        i
    }
}

/// The index of the last common entry of two root-first paths (0 when
/// even the roots differ).
pub open spec fn lca_of_paths(a: Seq<Seq<char>>, b: Seq<Seq<char>>) -> nat {
    let c = common_prefix(a, b, 0);
    if c > 0 {
        (c - 1) as nat
    } else {
        0
    }
}

pub open spec fn lca_spec(ps: Seq<(Seq<char>, Seq<char>)>, a: Seq<char>, b: Seq<char>) -> nat {
    lca_of_paths(ancestor_path_spec(ps, a), ancestor_path_spec(ps, b))
}

/// Two notations have a common ancestor: their root-first paths start alike.
pub open spec fn share_ancestor(ps: Seq<(Seq<char>, Seq<char>)>, a: Seq<char>, b: Seq<char>) -> bool {
    common_prefix(ancestor_path_spec(ps, a), ancestor_path_spec(ps, b), 0) > 0
}

/// A notation the tree knows: one with an entry, or the parent of one.
pub open spec fn known(ps: Seq<(Seq<char>, Seq<char>)>, x: Seq<char>) -> bool {
    exists|i: int| 0 <= i < ps.len() && ((#[trigger] ps[i]).0 == x || ps[i].1 == x)
}

/// The `(notation, parent)` pairs as character sequences.
pub open spec fn pairs_view(ps: Seq<(Vec<char>, Vec<char>)>) -> Seq<(Seq<char>, Seq<char>)> {
    Seq::new(ps.len(), |i: int| (ps[i].0@, ps[i].1@))
}

fn pairs_of(node_parents: &Vec<(String, String)>) -> (r: Vec<(Vec<char>, Vec<char>)>)
    ensures
        pairs_view(r@) == node_parents.deep_view(),
{
    let mut ps: Vec<(Vec<char>, Vec<char>)> = Vec::new();
    let mut i: usize = 0;
    while i < node_parents.len()
        invariant
            i <= node_parents.len(),
            ps@.len() == i,
            forall|k: int|
                0 <= k < i ==> (#[trigger] ps@[k]).0@ == node_parents@[k].0@ && ps@[k].1@
                    == node_parents@[k].1@,
        decreases node_parents.len() - i,
    {
        let a = chars_of(node_parents[i].0.as_str());
        let b = chars_of(node_parents[i].1.as_str());
        ps.push((a, b));
        i += 1;
    }
    assert(pairs_view(ps@) =~= node_parents.deep_view());
    ps
}

fn parent_in(ps: &Vec<(Vec<char>, Vec<char>)>, x: &Vec<char>) -> (r: Option<Vec<char>>)
    ensures
        r matches Some(p) ==> parent_of(pairs_view(ps@), x@) == Some(p@),
        r is None ==> parent_of(pairs_view(ps@), x@) is None,
{
    let ghost v = pairs_view(ps@);
    let mut i: usize = 0;
    while i < ps.len()
        invariant
            v == pairs_view(ps@),
            i <= ps.len(),
            parent_of(v, x@) == parent_from(v, x@, i as int),
        decreases ps.len() - i,
    {
        if eq_chars(&ps[i].0, x) {
            return Some(slice_of(&ps[i].1, 0, ps[i].1.len()));
        }
        i += 1;
    }
    None
}

fn depth_in(ps: &Vec<(Vec<char>, Vec<char>)>, x: &Vec<char>, fuel: usize) -> (r: Option<usize>)
    ensures
        r matches Some(d) ==> depth_within(pairs_view(ps@), x@, fuel as nat) == Some(d as nat),
        r is None ==> depth_within(pairs_view(ps@), x@, fuel as nat) is None,
        r matches Some(d) ==> d <= fuel,
    decreases fuel,
{
    match parent_in(ps, x) {
        None => Some(0),
        Some(p) => {
            if fuel == 0 {
                None
            } else {
                match depth_in(ps, &p, fuel - 1) {
                    Some(d) => Some(d + 1),
                    None => None,
                }
            }
        },
    }
}

/// A UDC tree given by the parent of each notation.
pub struct UdcTree {
    parents: Vec<(Vec<char>, Vec<char>)>,
}

impl UdcTree {
    /// The `(notation, parent)` pairs.
    pub closed spec fn view(&self) -> Seq<(Seq<char>, Seq<char>)> {
        pairs_view(self.parents@)
    }

    #[verifier::type_invariant]
    spec fn inv(&self) -> bool {
        &&& keys_unique(self.view())
        &&& acyclic(self.view())
    }

    /// A tree from `(notation, parent)` pairs, one per notation, without
    /// cycles; a notation that has no entry is a root.
    pub fn new(node_parents: Vec<(String, String)>) -> (r: Self)
        requires
            keys_unique(node_parents.deep_view()),
            acyclic(node_parents.deep_view()),
        ensures
            r.view() == node_parents.deep_view(),
    {
        let ps = pairs_of(&node_parents);
        UdcTree { parents: ps }
    }

    fn parent_exec(&self, x: &Vec<char>) -> (r: Option<Vec<char>>)
        ensures
            r matches Some(p) ==> parent_of(self.view(), x@) == Some(p@),
            r is None ==> parent_of(self.view(), x@) is None,
    {
        parent_in(&self.parents, x)
    }

    fn depth_rec(&self, x: &Vec<char>, fuel: usize) -> (r: Option<usize>)
        ensures
            r matches Some(d) ==> depth_within(self.view(), x@, fuel as nat) == Some(d as nat),
            r is None ==> depth_within(self.view(), x@, fuel as nat) is None,
            r matches Some(d) ==> d <= fuel,
    {
        depth_in(&self.parents, x, fuel)
    }

    /// A tree from `(notation, parent)` pairs, or `None` when a notation
    /// has two entries or following its parents never reaches a root.
    pub fn try_new(node_parents: Vec<(String, String)>) -> (r: Option<Self>)
        ensures
            r matches Some(t) ==> t.view() == node_parents.deep_view(),
            r is None <==> !(keys_unique(node_parents.deep_view()) && acyclic(
                node_parents.deep_view(),
            )),
    {
        let ps = pairs_of(&node_parents);
        let ghost v = node_parents.deep_view();
        let n = ps.len();
        let mut i: usize = 0;
        while i < n
            invariant
                n == ps.len(),
                pairs_view(ps@) == v,
                v == node_parents.deep_view(),
                i <= n,
                forall|a: int, b: int| 0 <= a < b < i ==> (#[trigger] v[a]).0 != (#[trigger] v[b]).0,
            decreases n - i,
        {
            let mut j: usize = 0;
            while j < i
                invariant
                    n == ps.len(),
                    pairs_view(ps@) == v,
                    v == node_parents.deep_view(),
                    j <= i < n,
                    forall|b: int| 0 <= b < j ==> (#[trigger] v[b]).0 != v[i as int].0,
                decreases i - j,
            {
                assert(v[j as int].0 == ps@[j as int].0@ && v[i as int].0 == ps@[i as int].0@);
                if eq_chars(&ps[j].0, &ps[i].0) {
                    assert(!keys_unique(v));
                    return None;
                }
                j += 1;
            }
            i += 1;
        }
        let mut k: usize = 0;
        while k < n
            invariant
                n == ps.len(),
                pairs_view(ps@) == v,
                v == node_parents.deep_view(),
                keys_unique(v),
                k <= n,
                forall|c: int| 0 <= c < k ==> depth_within(v, (#[trigger] v[c]).0, v.len()) is Some,
            decreases n - k,
        {
            assert(v[k as int].0 == ps@[k as int].0@);
            if depth_in(&ps, &ps[k].0, n).is_none() {
                assert(!acyclic(v));
                return None;
            }
            k += 1;
        }
        let r = UdcTree { parents: ps };
        assert(r.view() =~= v);
        Some(r)
    }

    /// The depth of a notation; 0 for a root.
    pub fn compute_depth(&self, notation: &str) -> (r: usize)
        ensures
            r == depth(self.view(), notation@),
    {
        proof {
            use_type_invariant(self);
        }
        let x = chars_of(notation);
        match self.depth_rec(&x, self.parents.len()) {
            Some(d) => d,
            None => 0,
        }
    }

    fn path_rec(&self, x: &Vec<char>, fuel: usize) -> (r: Vec<Vec<char>>)
        ensures
            r.deep_view() == path_within(self.view(), x@, fuel as nat),
        decreases fuel,
    {
        match self.parent_exec(x) {
            None => {
                let mut v: Vec<Vec<char>> = Vec::new();
                crate::text::push_piece(&mut v, slice_of(x, 0, x.len()));
                assert(x@.subrange(0, x@.len() as int) =~= x@);
                assert(v.deep_view() =~= seq![x@]);
                v
            },
            Some(p) => {
                if fuel == 0 {
                    let mut v: Vec<Vec<char>> = Vec::new();
                    crate::text::push_piece(&mut v, slice_of(x, 0, x.len()));
                    assert(x@.subrange(0, x@.len() as int) =~= x@);
                    assert(v.deep_view() =~= seq![x@]);
                    v
                } else {
                    let mut v = self.path_rec(&p, fuel - 1);
                    crate::text::push_piece(&mut v, slice_of(x, 0, x.len()));
                    assert(x@.subrange(0, x@.len() as int) =~= x@);
                    v
                }
            },
        }
    }

    /// The notation and its ancestors, the root first.
    pub fn ancestor_path(&self, notation: &str) -> (r: Vec<String>)
        ensures
            r.deep_view() == ancestor_path_spec(self.view(), notation@),
    {
        let x = chars_of(notation);
        let p = self.path_rec(&x, self.parents.len());
        crate::text::strings_of(&p)
    }

    /// The depth of the lowest common ancestor of two notations (0 = root);
    /// `None` when they have no common ancestor.
    pub fn lca_depth(&self, a: &str, b: &str) -> (r: Option<usize>)
        ensures
            share_ancestor(self.view(), a@, b@) ==> r == Some(lca_spec(self.view(), a@, b@) as usize),
            !share_ancestor(self.view(), a@, b@) ==> r is None,
            lca_spec(self.view(), a@, b@) < usize::MAX,
    {
        broadcast use lemma_chars_deep_view;

        let pa = self.path_rec(&chars_of(a), self.parents.len());
        let pb = self.path_rec(&chars_of(b), self.parents.len());
        let ghost va = pa.deep_view();
        let ghost vb = pb.deep_view();
        let mut i: usize = 0;
        while i < pa.len() && i < pb.len() && eq_chars(&pa[i], &pb[i])
            invariant
                i <= pa.len(),
                i <= pb.len(),
                va == pa.deep_view(),
                vb == pb.deep_view(),
                common_prefix(va, vb, 0) == common_prefix(va, vb, i as int),
            decreases pa.len() - i,
        {
            assert(va[i as int] == pa@[i as int]@ && vb[i as int] == pb@[i as int]@);
            i += 1;
        }
        proof {
            if i < pa.len() && i < pb.len() {
                assert(va[i as int] == pa@[i as int]@ && vb[i as int] == pb@[i as int]@);
            }
            lemma_common_prefix_bounds(va, vb, i as int);
        }
        if i > 0 {
            Some(i - 1)
        } else {
            None
        }
    }

    /// The depth of a notation the tree knows.
    pub fn depth_of(&self, notation: &str) -> (r: Option<usize>)
        ensures
            keys_unique(self.view()),
            acyclic(self.view()),
            known(self.view(), notation@) ==> r == Some(depth(self.view(), notation@) as usize),
            !known(self.view(), notation@) ==> r is None,
    {
        proof {
            use_type_invariant(self);
        }
        let x = chars_of(notation);
        let d = self.compute_depth(notation);
        let mut i: usize = 0;
        while i < self.parents.len()
            invariant
                i <= self.parents.len(),
                x@ == notation@,
                keys_unique(self.view()),
                acyclic(self.view()),
                d == depth(self.view(), notation@),
                forall|k: int|
                    0 <= k < i ==> (#[trigger] self.view()[k]).0 != x@ && self.view()[k].1 != x@,
            decreases self.parents.len() - i,
        {
            if eq_chars(&self.parents[i].0, &x) || eq_chars(&self.parents[i].1, &x) {
                assert(self.view()[i as int].0 == x@ || self.view()[i as int].1 == x@);
                return Some(d);
            }
            i += 1;
        }
        None
    }

    /// How closely two notations are related.
    pub fn match_level(&self, a: &str, b: &str) -> (r: UdcMatch)
        ensures
            r == match_level_spec(self.view(), a@, b@),
    {
        if eq_chars(&chars_of(a), &chars_of(b)) {
            return UdcMatch::Leaf;
        }
        let l = match self.lca_depth(a, b) {
            Some(l) => l,
            None => {
                return UdcMatch::NoMatch;
            },
        };
        let da = self.compute_depth(a);
        let db = self.compute_depth(b);
        let ua = if da > l {
            da - l
        } else {
            0
        };
        let ub = if db > l {
            db - l
        } else {
            0
        };
        let m = if ua > ub {
            ua
        } else {
            ub
        };
        if m == 0 {
            UdcMatch::Leaf
        } else if m == 1 {
            UdcMatch::Parent
        } else if l > 0 {
            UdcMatch::Grandparent
        } else {
            UdcMatch::NoMatch
        }
    }

    /// The match level of every pair, the first list's notation major.
    pub fn match_levels(&self, notations_a: &[String], notations_b: &[String]) -> (r: Vec<UdcMatch>)
        ensures
            r@.len() == notations_a@.len() * notations_b@.len(),
            forall|i: int, j: int|
                0 <= i < notations_a@.len() && 0 <= j < notations_b@.len() ==> r@[i
                    * notations_b@.len() + j] == match_level_spec(
                    self.view(),
                    notations_a@[i]@,
                    notations_b@[j]@,
                ),
    {
        let mut out: Vec<UdcMatch> = Vec::new();
        let nb = notations_b.len();
        let mut i: usize = 0;
        while i < notations_a.len()
            invariant
                i <= notations_a.len(),
                nb == notations_b@.len(),
                out@.len() == i * nb,
                forall|p: int, q: int|
                    0 <= p < i && 0 <= q < nb ==> out@[p * nb + q] == match_level_spec(
                        self.view(),
                        notations_a@[p]@,
                        notations_b@[q]@,
                    ),
            decreases notations_a.len() - i,
        {
            let mut j: usize = 0;
            while j < nb
                invariant
                    i < notations_a.len(),
                    j <= nb,
                    nb == notations_b@.len(),
                    out@.len() == i * nb + j,
                    forall|p: int, q: int|
                        0 <= p < i && 0 <= q < nb ==> out@[p * nb + q] == match_level_spec(
                            self.view(),
                            notations_a@[p]@,
                            notations_b@[q]@,
                        ),
                    forall|q: int|
                        0 <= q < j ==> out@[i * nb + q] == match_level_spec(
                            self.view(),
                            notations_a@[i as int]@,
                            notations_b@[q]@,
                        ),
                decreases nb - j,
            {
                let m = self.match_level(notations_a[i].as_str(), notations_b[j].as_str());
                let ghost before = out@;
                out.push(m);
                proof {
                    assert forall|p: int, q: int| 0 <= p < i && 0 <= q < nb implies out@[p * nb
                        + q] == match_level_spec(self.view(), notations_a@[p]@, notations_b@[q]@) by {
                        lemma_row_index(p, q, i as int, nb as int);
                        assert(out@[p * nb + q] == before[p * nb + q]);
                    }
                }
                j += 1;
            }
            proof {
                assert forall|p: int, q: int| 0 <= p < i + 1 && 0 <= q < nb implies out@[p * nb
                    + q] == match_level_spec(self.view(), notations_a@[p]@, notations_b@[q]@) by {
                    if p == i {
                        assert(p * nb + q == i * nb + q);
                    }
                }
                assert((i + 1) * nb == i * nb + nb) by (nonlinear_arith);
            }
            i += 1;
        }
        out
    }
}

proof fn lemma_row_index(p: int, q: int, i: int, nb: int)
    requires
        0 <= p < i,
        0 <= q < nb,
    ensures
        0 <= p * nb + q < i * nb,
{
    assert(p * nb + q < i * nb) by (nonlinear_arith)
        requires
            0 <= p < i,
            0 <= q < nb,
    ;
    assert(0 <= p * nb) by (nonlinear_arith)
        requires
            0 <= p,
            0 <= nb,
    ;
}

/// How two notations relate: the same leaf, siblings under one parent,
/// under a common subject further up, or only the root in common.
#[derive(Clone, Copy, Debug, PartialEq, Eq, Structural)]
pub enum UdcMatch {
    Leaf,
    Parent,
    Grandparent,
    NoMatch,
}

/// The match level of two notations: the same notation, or no step up from
/// either to their common ancestor, is a leaf match; at most one step a
/// parent match; more steps under a common subject (common ancestor below
/// the root) a grandparent match; otherwise, and always for two notations
/// without a common ancestor, none.
pub open spec fn match_level_spec(ps: Seq<(Seq<char>, Seq<char>)>, a: Seq<char>, b: Seq<char>) -> UdcMatch {
    if a == b {
        UdcMatch::Leaf
    } else if !share_ancestor(ps, a, b) {
        UdcMatch::NoMatch
    } else {
        let l = lca_spec(ps, a, b) as int;
        let ua = if depth(ps, a) > l {
            depth(ps, a) - l
        } else {
            0
        };
        let ub = if depth(ps, b) > l {
            depth(ps, b) - l
        } else {
            0
        };
        let m = if ua > ub {
            ua
        } else {
            ub
        };
        if m == 0 {
            UdcMatch::Leaf
        } else if m == 1 {
            UdcMatch::Parent
        } else if l > 0 {
            UdcMatch::Grandparent
        } else {
            UdcMatch::NoMatch
        }
    }
}

// ---------------------------------------------------------------------------
// Laws of the tree
// ---------------------------------------------------------------------------

proof fn lemma_common_prefix_bounds(a: Seq<Seq<char>>, b: Seq<Seq<char>>, i: int)
    requires
        0 <= i <= a.len(),
        i <= b.len(),
    ensures
        i <= common_prefix(a, b, i) <= a.len(),
        common_prefix(a, b, i) <= b.len(),
        common_prefix(a, b, i) == common_prefix(b, a, i),
    decreases a.len() - i,
{
    if i < a.len() && i < b.len() && a[i] == b[i] {
        lemma_common_prefix_bounds(a, b, i + 1);
    }
}

proof fn lemma_common_prefix_self(a: Seq<Seq<char>>, i: int)
    requires
        0 <= i <= a.len(),
    ensures
        common_prefix(a, a, i) == a.len(),
    decreases a.len() - i,
{
    if i < a.len() {
        lemma_common_prefix_self(a, i + 1);
    }
}

proof fn lemma_path_len(ps: Seq<(Seq<char>, Seq<char>)>, x: Seq<char>, fuel: nat)
    ensures
        depth_within(ps, x, fuel) matches Some(d) ==> path_within(ps, x, fuel).len() == d + 1,
        path_within(ps, x, fuel).len() >= 1,
    decreases fuel,
{
    match parent_of(ps, x) {
        None => {},
        Some(p) => {
            if fuel > 0 {
                lemma_path_len(ps, p, (fuel - 1) as nat);
            }
        },
    }
}

/// Whether two notations have a common ancestor, and its depth, do not
/// depend on the order of the notations.
pub proof fn law_lca_symmetric(ps: Seq<(Seq<char>, Seq<char>)>, a: Seq<char>, b: Seq<char>)
    ensures
        lca_spec(ps, a, b) == lca_spec(ps, b, a),
        share_ancestor(ps, a, b) == share_ancestor(ps, b, a),
{
    let pa = ancestor_path_spec(ps, a);
    let pb = ancestor_path_spec(ps, b);
    lemma_common_prefix_bounds(pa, pb, 0);
}

proof fn lemma_depth_fuel(ps: Seq<(Seq<char>, Seq<char>)>, x: Seq<char>, f: nat, g: nat)
    requires
        f <= g,
        depth_within(ps, x, f) is Some,
    ensures
        depth_within(ps, x, g) == depth_within(ps, x, f),
    decreases f,
{
    if let Some(p) = parent_of(ps, x) {
        lemma_depth_fuel(ps, p, (f - 1) as nat, (g - 1) as nat);
    }
}

proof fn lemma_parent_is_key(ps: Seq<(Seq<char>, Seq<char>)>, x: Seq<char>, i: int)
    requires
        parent_from(ps, x, i) is Some,
    ensures
        exists|j: int| 0 <= j < ps.len() && (#[trigger] ps[j]).0 == x,
    decreases ps.len() - i,
{
    if !(ps[i].0 == x) {
        lemma_parent_is_key(ps, x, i + 1);
    }
}

proof fn lemma_parent_value(ps: Seq<(Seq<char>, Seq<char>)>, x: Seq<char>, i: int)
    requires
        parent_from(ps, x, i) is Some,
    ensures
        exists|j: int| 0 <= j < ps.len() && (#[trigger] ps[j]).1 == parent_from(ps, x, i)->0,
    decreases ps.len() - i,
{
    if !(ps[i].0 == x) {
        lemma_parent_value(ps, x, i + 1);
    } else {
        assert(ps[i].1 == parent_from(ps, x, i)->0);
    }
}

/// In a tree without cycles a notation with an entry, and its parent, are
/// both known to the tree (so `depth_of` gives their depths), and the
/// notation lies one level below its parent; a notation without a parent is
/// at depth 0.
pub proof fn law_depth_below_parent(ps: Seq<(Seq<char>, Seq<char>)>, x: Seq<char>)
    requires
        acyclic(ps),
    ensures
        parent_of(ps, x) matches Some(p) ==> known(ps, x) && known(ps, p) && depth(ps, x) == depth(
            ps,
            p,
        ) + 1,
        parent_of(ps, x) is None ==> depth(ps, x) == 0,
{
    if let Some(p) = parent_of(ps, x) {
        lemma_parent_is_key(ps, x, 0);
        lemma_parent_value(ps, x, 0);
        let j = choose|j: int| 0 <= j < ps.len() && (#[trigger] ps[j]).0 == x;
        let n = ps.len();
        assert(depth_within(ps, ps[j].0, n) is Some);
        lemma_depth_fuel(ps, p, (n - 1) as nat, n);
    }
}

/// A notation without an entry of its own has no parent and is at depth 0;
/// `depth_of` gives `Some(0)` for such a notation that is some entry's parent.
pub proof fn law_unlisted_is_root(ps: Seq<(Seq<char>, Seq<char>)>, x: Seq<char>)
    requires
        forall|i: int| 0 <= i < ps.len() ==> (#[trigger] ps[i]).0 != x,
    ensures
        parent_of(ps, x) is None,
        depth(ps, x) == 0,
{
    if parent_of(ps, x) is Some {
        lemma_parent_is_key(ps, x, 0);
    }
}

/// A notation's common ancestor with itself is at its own depth.
pub proof fn law_lca_self_is_depth(ps: Seq<(Seq<char>, Seq<char>)>, a: Seq<char>)
    requires
        acyclic(ps),
    ensures
        lca_spec(ps, a, a) == depth(ps, a),
        share_ancestor(ps, a, a),
{
    let pa = ancestor_path_spec(ps, a);
    lemma_common_prefix_self(pa, 0);
    lemma_path_len(ps, a, ps.len());
    lemma_depth_defined(ps, a);
}

/// The common ancestor is no deeper than either notation.
pub proof fn law_lca_bounded(ps: Seq<(Seq<char>, Seq<char>)>, a: Seq<char>, b: Seq<char>)
    requires
        acyclic(ps),
    ensures
        lca_spec(ps, a, b) <= depth(ps, a),
        lca_spec(ps, a, b) <= depth(ps, b),
{
    let pa = ancestor_path_spec(ps, a);
    let pb = ancestor_path_spec(ps, b);
    lemma_common_prefix_bounds(pa, pb, 0);
    lemma_path_len(ps, a, ps.len());
    lemma_path_len(ps, b, ps.len());
    lemma_depth_defined(ps, a);
    lemma_depth_defined(ps, b);
}

proof fn lemma_depth_defined(ps: Seq<(Seq<char>, Seq<char>)>, x: Seq<char>)
    requires
        acyclic(ps),
    ensures
        depth_within(ps, x, ps.len()) is Some,
{
    if parent_of(ps, x) is Some {
        lemma_parent_from_key(ps, x, 0);
        let k = choose|k: int| 0 <= k < ps.len() && ps[k].0 == x;
        assert(depth_within(ps, ps[k].0, ps.len()) is Some);
    }
}

proof fn lemma_parent_from_key(ps: Seq<(Seq<char>, Seq<char>)>, x: Seq<char>, i: int)
    requires
        0 <= i,
        parent_from(ps, x, i) is Some,
    ensures
        exists|k: int| 0 <= k < ps.len() && ps[k].0 == x,
    decreases ps.len() - i,
{
    if ps[i].0 != x {
        lemma_parent_from_key(ps, x, i + 1);
    }
}

/// A notation always matches itself as a leaf, and the match level does not
/// depend on the order of the notations.
pub proof fn law_match_level_symmetric(ps: Seq<(Seq<char>, Seq<char>)>, a: Seq<char>, b: Seq<char>)
    ensures
        match_level_spec(ps, a, a) == UdcMatch::Leaf,
        match_level_spec(ps, a, b) == match_level_spec(ps, b, a),
{
    law_lca_symmetric(ps, a, b);
}

// ---------------------------------------------------------------------------
// Notations
// ---------------------------------------------------------------------------

/// The part of `s` before its first character of `cs`.
pub open spec fn before_set(s: Seq<char>, cs: CharSet) -> Seq<char>
    decreases s.len(),
{
    if s.len() == 0 {
        s
    } else if in_set(cs, s[0]) {
        Seq::empty()
    } else {
        seq![s[0]] + before_set(s.drop_first(), cs)
    }
}

/// The base notations of the `;`-free parts, from the `i`-th on.
pub open spec fn udc_bases(parts: Seq<Seq<char>>) -> Seq<Seq<char>>
    decreases parts.len(),
{
    if parts.len() == 0 {
        seq![]
    } else {
        let part = trim(parts.last());
        let base = trim(before_set(part, CharSet::UdcAuxiliary));
        udc_bases(parts.drop_last()) + if part.len() > 0 && base.len() > 0 && exists|k: int|
            0 <= k < base.len() && is_digit(#[trigger] base[k]) {
            seq![base]
        } else {
            seq![]
        }
    }
}

/// The base notations of a compound UDC code: its `:`-separated parts cut
/// before any auxiliary sign `-`, `/`, `(`, `)`, `=`, `+`, kept when they
/// hold a digit. `51-72:538.91` gives `51` and `538.91`.
pub open spec fn parse_udc_spec(raw: Seq<char>) -> Seq<Seq<char>> {
    udc_bases(split_char(raw, ':'))
}

fn before_set_exec(s: &Vec<char>, cs: CharSet) -> (r: Vec<char>)
    ensures
        r@ == before_set(s@, cs),
{
    let mut i: usize = 0;
    while i < s.len() && !in_set_exec(cs, s[i])
        invariant
            i <= s.len(),
            forall|k: int| 0 <= k < i ==> !in_set(cs, #[trigger] s@[k]),
        decreases s.len() - i,
    {
        i += 1;
    }
    proof {
        lemma_before_set(s@, cs, i as int);
    }
    slice_of(s, 0, i)
}

proof fn lemma_before_set(s: Seq<char>, cs: CharSet, i: int)
    requires
        0 <= i <= s.len(),
        forall|k: int| 0 <= k < i ==> !in_set(cs, #[trigger] s[k]),
        i == s.len() || in_set(cs, s[i]),
    ensures
        before_set(s, cs) == s.subrange(0, i),
    decreases s.len(),
{
    if s.len() > 0 && i > 0 {
        assert forall|k: int| 0 <= k < i - 1 implies !in_set(cs, #[trigger] s.drop_first()[k]) by {
            assert(s.drop_first()[k] == s[k + 1]);
        }
        lemma_before_set(s.drop_first(), cs, i - 1);
        assert(seq![s[0]] + s.drop_first().subrange(0, i - 1) =~= s.subrange(0, i));
    } else if s.len() > 0 {
        assert(s.subrange(0, 0) =~= Seq::<char>::empty());
    }
}

/// Splits a UDC code into the base notations it classifies under.
pub fn parse_udc_notation(raw: &str) -> (r: Vec<String>)
    ensures
        r.deep_view() == parse_udc_spec(raw@),
{
    broadcast use lemma_chars_deep_view;

    let rv = chars_of(raw);
    let parts = split_char_exec(&rv, ':');
    let ghost pv = parts.deep_view();
    let mut bases: Vec<Vec<char>> = Vec::new();
    let mut i: usize = 0;
    assert(pv.take(0) =~= Seq::<Seq<char>>::empty());
    while i < parts.len()
        invariant
            i <= parts.len(),
            pv == parts.deep_view(),
            bases.deep_view() == udc_bases(pv.take(i as int)),
        decreases parts.len() - i,
    {
        assert(pv[i as int] == parts@[i as int]@);
        assert(pv.take(i + 1).drop_last() =~= pv.take(i as int));
        let part = trim_exec(&parts[i]);
        if part.len() > 0 {
            let cut = before_set_exec(&part, CharSet::UdcAuxiliary);
            let base = trim_exec(&cut);
            let mut has_digit = false;
            let mut k: usize = 0;
            while k < base.len()
                invariant
                    k <= base.len(),
                    has_digit == exists|q: int| 0 <= q < k && is_digit(#[trigger] base@[q]),
                decreases base.len() - k,
            {
                if base[k] >= '0' && base[k] <= '9' {
                    has_digit = true;
                }
                k += 1;
            }
            if base.len() > 0 && has_digit {
                crate::text::push_piece(&mut bases, base);
            } else {
                assert(bases.deep_view() =~= bases.deep_view() + Seq::<Seq<char>>::empty());
            }
        } else {
            assert(bases.deep_view() =~= bases.deep_view() + Seq::<Seq<char>>::empty());
        }
        i += 1;
    }
    assert(pv.take(parts.len() as int) =~= pv);
    crate::text::strings_of(&bases)
}

// ---------------------------------------------------------------------------
// Relations between two documents
// ---------------------------------------------------------------------------

/// How a candidate document relates to the reference by citation.
#[derive(Clone, Copy, Debug, PartialEq, Eq, Structural)]
pub enum CitationRelation {
    /// Each cites the other.
    Mutual,
    /// The reference cites the candidate (and not the other way round).
    CitedByReference,
    /// Neither of those.
    Unrelated,
}

pub open spec fn citation_relation_spec(reference: DocumentFeatures, doc: DocumentFeatures) -> CitationRelation {
    let doc_cites_ref = doc.cited_docs@.contains(reference.id);
    let ref_cites_doc = reference.cited_docs@.contains(doc.id);
    if doc_cites_ref && ref_cites_doc {
        CitationRelation::Mutual
    } else if ref_cites_doc {
        CitationRelation::CitedByReference
    } else {
        CitationRelation::Unrelated
    }
}

fn contains_id(v: &Vec<i64>, x: i64) -> (r: bool)
    ensures
        r == v@.contains(x),
{
    let mut i: usize = 0;
    while i < v.len()
        invariant
            i <= v.len(),
            forall|k: int| 0 <= k < i ==> v@[k] != x,
        decreases v.len() - i,
    {
        if v[i] == x {
            return true;
        }
        i += 1;
    }
    false
}

/// The citation relation that the citation score is weighted by.
pub fn citation_relation(reference: &DocumentFeatures, doc: &DocumentFeatures) -> (r: CitationRelation)
    ensures
        r == citation_relation_spec(*reference, *doc),
{
    let doc_cites_ref = contains_id(&doc.cited_docs, reference.id);
    let ref_cites_doc = contains_id(&reference.cited_docs, doc.id);
    if doc_cites_ref && ref_cites_doc {
        CitationRelation::Mutual
    } else if ref_cites_doc {
        CitationRelation::CitedByReference
    } else {
        CitationRelation::Unrelated
    }
}

/// The number of the document's tags, counted with repetition, that the
/// reference also has.
pub open spec fn shared_tags_spec(ref_tags: Seq<Seq<char>>, tags: Seq<Seq<char>>) -> nat
    decreases tags.len(),
{
    if tags.len() == 0 {
        0
    } else {
        shared_tags_spec(ref_tags, tags.drop_last()) + if ref_tags.contains(tags.last()) {
            1nat
        } else {
            0nat
        }
    }
}

/// Counts the document's tags that the reference also has.
pub fn matching_tag_count(ref_tags: &Vec<String>, tags: &Vec<String>) -> (r: usize)
    ensures
        r == shared_tags_spec(ref_tags.deep_view(), tags.deep_view()),
{
    let ghost rv = ref_tags.deep_view();
    let ghost tv = tags.deep_view();
    let mut n: usize = 0;
    let mut i: usize = 0;
    assert(tv.take(0) =~= Seq::<Seq<char>>::empty());
    while i < tags.len()
        invariant
            i <= tags.len(),
            rv == ref_tags.deep_view(),
            tv == tags.deep_view(),
            n == shared_tags_spec(rv, tv.take(i as int)),
            n <= i,
        decreases tags.len() - i,
    {
        assert(tv.take(i + 1).drop_last() =~= tv.take(i as int));
        assert(tv[i as int] == tags@[i as int]@);
        let t = chars_of(tags[i].as_str());
        let mut found = false;
        let mut k: usize = 0;
        while k < ref_tags.len()
            invariant
                k <= ref_tags.len(),
                rv == ref_tags.deep_view(),
                t@ == tv[i as int],
                found == exists|q: int| 0 <= q < k && rv[q] == t@,
            decreases ref_tags.len() - k,
        {
            assert(rv[k as int] == ref_tags@[k as int]@);
            if eq_chars(&chars_of(ref_tags[k].as_str()), &t) {
                found = true;
            }
            k += 1;
        }
        if found {
            n = n + 1;
        }
        i += 1;
    }
    assert(tv.take(tags.len() as int) =~= tv);
    n
}

/// The two documents appeared at the same venue.
pub fn same_conference(a: &Option<String>, b: &Option<String>) -> (r: bool)
    ensures
        r == (a is Some && b is Some && a->0@ == b->0@),
{
    match (a, b) {
        (Some(x), Some(y)) => eq_chars(&chars_of(x.as_str()), &chars_of(y.as_str())),
        _ => false,
    }
}

/// The number of years between two publication years, when both are known.
pub fn year_distance(a: Option<i64>, b: Option<i64>) -> (r: Option<u64>)
    ensures
        (a is Some && b is Some) ==> r == Some(
            (if a->0 >= b->0 {
                a->0 - b->0
            } else {
                b->0 - a->0
            }) as u64,
        ),
        !(a is Some && b is Some) ==> r is None,
{
    match (a, b) {
        (Some(x), Some(y)) => {
            let d: i128 = x as i128 - y as i128;
            let m: i128 = if d >= 0 {
                d
            } else {
                -d
            };
            Some(m as u64)
        },
        _ => None,
    }
}

} // verus!
