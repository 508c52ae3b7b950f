//! The bookmarks of a PDF: its outline items in reading order, each with
//! the page it points to, indented by depth. The outline's objects are
//! handed over as plain values; a cyclic outline is walked once.
use vstd::prelude::*;
use crate::text::{append, chars_of, lossy_string, string_from_chars, utf8_lossy};

verus! {


/// An outline item: its object id, title bytes, the page objects its
/// destination and its action's destination designate (when they have the
/// shape of a page reference), and its first child and next sibling.
pub struct OutlineNode {
    pub id: (u32, u16),
    pub title: Vec<u8>,
    pub dest_target: Option<(u32, u16)>,
    pub action_target: Option<(u32, u16)>,
    pub first: Option<(u32, u16)>,
    pub next: Option<(u32, u16)>,
}

/// The page number of a page object.
pub open spec fn page_of(pages: Seq<((u32, u16), u32)>, id: (u32, u16)) -> Option<u32>
    decreases pages.len(),
{
    if pages.len() == 0 {
        None
    } else if pages[0].0 == id {
        Some(pages[0].1)
    } else {
        page_of(pages.drop_first(), id)
    }
}

/// The page an item points to: through its destination, else through its
/// action's destination, else 0.
pub open spec fn item_page(pages: Seq<((u32, u16), u32)>, n: OutlineNode) -> u32 {
    let by_dest = match n.dest_target {
        Some(t) => page_of(pages, t),
        None => None,
    };
    match by_dest {
        Some(p) => p,
        None => match n.action_target {
            Some(t) => match page_of(pages, t) {
                Some(p) => p,
                None => 0,
            },
            None => 0,
        },
    }
}

/// The index of the object with id `id`.
pub open spec fn find_node(nodes: Seq<OutlineNode>, id: (u32, u16)) -> Option<int>
    decreases nodes.len(),
{
    if nodes.len() == 0 {
        None
    } else if nodes[0].id == id {
        Some(0)
    } else {
        match find_node(nodes.drop_first(), id) {
            Some(k) => Some(k + 1),
            None => None,
        }
    }
}

/// Two spaces per level.
pub open spec fn indent(depth: nat) -> Seq<char>
    decreases depth,
{
    if depth == 0 {
        Seq::empty()
    } else {
        indent((depth - 1) as nat) + "  "@
    }
}

/// How a walk of the outline ends.
pub ghost enum Walk {
    /// The entries listed and the items visited.
    Done(Seq<(Seq<char>, i64)>, Set<(u32, u16)>),
    /// An item refers to an object that is not an outline item.
    Missing((u32, u16)),
    /// The step budget ran out.
    OutOfFuel,
}

/// The walk of the sibling chain that starts at `cur`, at `depth`: an item
/// already visited ends the chain; otherwise the item is listed (when its
/// title is not empty), then its children one level deeper, then the rest of
/// the chain.
pub open spec fn walk(
    nodes: Seq<OutlineNode>,
    pages: Seq<((u32, u16), u32)>,
    cur: (u32, u16),
    depth: nat,
    visited: Set<(u32, u16)>,
    fuel: nat,
) -> Walk
    decreases fuel,
{
    if fuel == 0 {
        Walk::OutOfFuel
    } else if visited.contains(cur) {
        Walk::Done(Seq::empty(), visited)
    } else {
        match find_node(nodes, cur) {
            None => Walk::Missing(cur),
            Some(k) => {
                let n = nodes[k];
                let v1 = visited.insert(cur);
                let title = utf8_lossy(n.title@);
                let own = if title.len() > 0 {
                    seq![(indent(depth) + title, item_page(pages, n) as i64)]
                } else {
                    Seq::empty()
                };
                let child = match n.first {
                    Some(f) => walk(nodes, pages, f, depth + 1, v1, (fuel - 1) as nat),
                    None => Walk::Done(Seq::empty(), v1),
                };
                match child {
                    Walk::Done(cs, v2) => match n.next {
                        Some(nx) => match walk(nodes, pages, nx, depth, v2, (fuel - 1) as nat) {
                            Walk::Done(rs, v3) => Walk::Done(own + cs + rs, v3),
                            other => other,
                        },
                        None => Walk::Done(own + cs, v2),
                    },
                    other => other,
                }
            },
        }
    }
}

pub open spec fn entries_view(es: Seq<(String, i64)>) -> Seq<(Seq<char>, i64)> {
    Seq::new(es.len(), |i: int| (es[i].0@, es[i].1))
}

// ---------------------------------------------------------------------------
// Lookups
// ---------------------------------------------------------------------------

fn same_id(a: (u32, u16), b: (u32, u16)) -> (r: bool)
    ensures
        r == (a == b),
{
    a.0 == b.0 && a.1 == b.1
}

fn page_of_exec(pages: &Vec<((u32, u16), u32)>, id: (u32, u16)) -> (r: Option<u32>)
    ensures
        r == page_of(pages@, id),
{
    let mut i: usize = 0;
    assert(pages@.skip(0) =~= pages@);
    while i < pages.len()
        invariant
            i <= pages.len(),
            page_of(pages@.skip(i as int), id) == page_of(pages@, id),
        decreases pages.len() - i,
    {
        assert(pages@.skip(i as int)[0] == pages@[i as int]);
        assert(pages@.skip(i as int).drop_first() =~= pages@.skip(i as int + 1));
        if same_id(pages[i].0, id) {
            return Some(pages[i].1);
        }
        i += 1;
    }
    assert(pages@.skip(i as int).len() == 0);
    None
}

fn item_page_exec(pages: &Vec<((u32, u16), u32)>, n: &OutlineNode) -> (r: u32)
    ensures
        r == item_page(pages@, *n),
{
    let by_dest = match n.dest_target {
        Some(t) => page_of_exec(pages, t),
        None => None,
    };
    match by_dest {
        Some(p) => p,
        None => match n.action_target {
            Some(t) => match page_of_exec(pages, t) {
                Some(p) => p,
                None => 0,
            },
            None => 0,
        },
    }
}

proof fn lemma_find_node(nodes: Seq<OutlineNode>, id: (u32, u16))
    ensures
        match find_node(nodes, id) {
            Some(k) => 0 <= k < nodes.len() && nodes[k].id == id,
            None => forall|j: int| 0 <= j < nodes.len() ==> (#[trigger] nodes[j]).id != id,
        },
    decreases nodes.len(),
{
    if nodes.len() > 0 && nodes[0].id != id {
        lemma_find_node(nodes.drop_first(), id);
        if find_node(nodes, id) is None {
            assert forall|j: int| 0 <= j < nodes.len() implies (#[trigger] nodes[j]).id != id by {
                if j > 0 {
                    assert(nodes[j] == nodes.drop_first()[j - 1]);
                }
            }
        }
    }
}

fn find_node_exec(nodes: &Vec<OutlineNode>, id: (u32, u16)) -> (r: Option<usize>)
    ensures
        match r {
            Some(k) => find_node(nodes@, id) == Some(k as int),
            None => find_node(nodes@, id) is None,
        },
{
    let mut i: usize = 0;
    assert(nodes@.skip(0) =~= nodes@);
    while i < nodes.len()
        invariant
            i <= nodes.len(),
            match find_node(nodes@, id) {
                Some(k) => match find_node(nodes@.skip(i as int), id) {
                    Some(kk) => k == kk + i,
                    None => false,
                },
                None => find_node(nodes@.skip(i as int), id) is None,
            },
        decreases nodes.len() - i,
    {
        assert(nodes@.skip(i as int)[0] == nodes@[i as int]);
        assert(nodes@.skip(i as int).drop_first() =~= nodes@.skip(i as int + 1));
        if same_id(nodes[i].id, id) {
            return Some(i);
        }
        i += 1;
    }
    assert(nodes@.skip(i as int).len() == 0);
    None
}

fn contains_id(v: &Vec<(u32, u16)>, x: (u32, u16)) -> (r: bool)
    ensures
        r == v@.to_set().contains(x),
{
    let mut i: usize = 0;
    while i < v.len()
        invariant
            i <= v.len(),
            forall|k: int| 0 <= k < i ==> v@[k] != x,
        decreases v.len() - i,
    {
        if same_id(v[i], x) {
            assert(v@.to_set().contains(x)) by {
                assert(v@.contains(x)) by {
                    assert(v@[i as int] == x);
                }
            }
            return true;
        }
        i += 1;
    }
    assert(!v@.to_set().contains(x)) by {
        if v@.contains(x) {
            let k = choose|k: int| 0 <= k < v@.len() && v@[k] == x;
        }
    }
    false
}

fn indent_exec(depth: usize) -> (r: Vec<char>)
    ensures
        r@ == indent(depth as nat),
{
    let mut v: Vec<char> = Vec::new();
    let mut i: usize = 0;
    while i < depth
        invariant
            i <= depth,
            v@ == indent(i as nat),
        decreases depth - i,
    {
        v.push(' ');
        v.push(' ');
        assert(v@ =~= indent(i as nat) + "  "@) by {
            reveal_strlit("  ");
        }
        i += 1;
    }
    v
}

// ---------------------------------------------------------------------------
// The walk
// ---------------------------------------------------------------------------

/// How many items are not visited yet.
pub open spec fn unvisited(nodes: Seq<OutlineNode>, v: Set<(u32, u16)>) -> nat
    decreases nodes.len(),
{
    if nodes.len() == 0 {
        0
    } else {
        unvisited(nodes.drop_last(), v) + if v.contains(nodes.last().id) {
            0nat
        } else {
            1nat
        }
    }
}

proof fn lemma_unvisited_le(nodes: Seq<OutlineNode>, v: Set<(u32, u16)>)
    ensures
        unvisited(nodes, v) <= nodes.len(),
    decreases nodes.len(),
{
    if nodes.len() > 0 {
        lemma_unvisited_le(nodes.drop_last(), v);
    }
}

proof fn lemma_unvisited_mono(nodes: Seq<OutlineNode>, v: Set<(u32, u16)>, w: Set<(u32, u16)>)
    requires
        v.subset_of(w),
    ensures
        unvisited(nodes, w) <= unvisited(nodes, v),
    decreases nodes.len(),
{
    if nodes.len() > 0 {
        lemma_unvisited_mono(nodes.drop_last(), v, w);
    }
}

proof fn lemma_unvisited_strict(nodes: Seq<OutlineNode>, v: Set<(u32, u16)>, w: Set<(u32, u16)>, k: int)
    requires
        v.subset_of(w),
        0 <= k < nodes.len(),
        !v.contains(nodes[k].id),
        w.contains(nodes[k].id),
    ensures
        unvisited(nodes, w) < unvisited(nodes, v),
    decreases nodes.len(),
{
    let init = nodes.drop_last();
    if k == nodes.len() - 1 {
        lemma_unvisited_mono(init, v, w);
    } else {
        assert(init[k] == nodes[k]);
        lemma_unvisited_strict(init, v, w, k);
    }
}

/// A walk with more steps than unvisited items ends without running out,
/// visits a superset of what was visited, and lists at most one entry per
/// item it visits.
proof fn lemma_walk(
    nodes: Seq<OutlineNode>,
    pages: Seq<((u32, u16), u32)>,
    cur: (u32, u16),
    depth: nat,
    visited: Set<(u32, u16)>,
    fuel: nat,
)
    requires
        fuel > unvisited(nodes, visited),
    ensures
        !(walk(nodes, pages, cur, depth, visited, fuel) is OutOfFuel),
        walk(nodes, pages, cur, depth, visited, fuel) matches Walk::Done(es, v) ==> visited.subset_of(v)
            && es.len() + unvisited(nodes, v) <= unvisited(nodes, visited),
    decreases fuel,
{
    if !visited.contains(cur) {
        lemma_find_node(nodes, cur);
        if let Some(k) = find_node(nodes, cur) {
            let n = nodes[k];
            let v1 = visited.insert(cur);
            lemma_unvisited_strict(nodes, visited, v1, k);
            let f1 = (fuel - 1) as nat;
            let child = match n.first {
                Some(f) => walk(nodes, pages, f, depth + 1, v1, f1),
                None => Walk::Done(Seq::empty(), v1),
            };
            if let Some(f) = n.first {
                lemma_walk(nodes, pages, f, depth + 1, v1, f1);
            }
            if let Walk::Done(cs, v2) = child {
                lemma_unvisited_mono(nodes, v1, v2);
                if let Some(nx) = n.next {
                    lemma_walk(nodes, pages, nx, depth, v2, f1);
                    if let Walk::Done(rs, v3) = walk(nodes, pages, nx, depth, v2, f1) {
                        lemma_unvisited_mono(nodes, v2, v3);
                    }
                }
            }
        }
    }
}

fn walk_exec(
    nodes: &Vec<OutlineNode>,
    pages: &Vec<((u32, u16), u32)>,
    cur: (u32, u16),
    depth: usize,
    visited: &mut Vec<(u32, u16)>,
    out: &mut Vec<(String, i64)>,
    fuel: usize,
) -> (r: Result<(), (u32, u16)>)
    requires
        depth + fuel <= nodes.len() + 1,
        nodes.len() < usize::MAX,
    ensures
        match walk(nodes@, pages@, cur, depth as nat, old(visited)@.to_set(), fuel as nat) {
            Walk::Done(es, v) => r is Ok && final(visited)@.to_set() == v && entries_view(
                final(out)@,
            ) == entries_view(old(out)@) + es,
            Walk::Missing(id) => r == Err::<(), (u32, u16)>(id),
            Walk::OutOfFuel => r is Err,
        },
    decreases fuel,
{
    if fuel == 0 {
        return Err(cur);
    }
    if contains_id(visited, cur) {
        assert(entries_view(out@) =~= entries_view(out@) + Seq::<(Seq<char>, i64)>::empty());
        return Ok(());
    }
    let k = match find_node_exec(nodes, cur) {
        Some(k) => k,
        None => {
            return Err(cur);
        },
    };
    proof {
        lemma_find_node(nodes@, cur);
    }
    let ghost vis0 = visited@.to_set();
    let ghost out0 = entries_view(out@);
    visited.push(cur);
    assert(visited@.to_set() =~= vis0.insert(cur)) by {
        assert forall|x: (u32, u16)| visited@.to_set().contains(x) <==> vis0.insert(cur).contains(x) by {
            if visited@.contains(x) {
                let j = choose|j: int| 0 <= j < visited@.len() && visited@[j] == x;
                if j < visited@.len() - 1 {
                    assert(old(visited)@[j] == x);
                }
            }
            if old(visited)@.contains(x) {
                let j = choose|j: int| 0 <= j < old(visited)@.len() && old(visited)@[j] == x;
                assert(visited@[j] == x);
            }
            if x == cur {
                assert(visited@[visited@.len() - 1] == cur);
            }
        }
    }
    let title = chars_of(lossy_string(&nodes[k].title).as_str());
    let ghost own: Seq<(Seq<char>, i64)> = if title@.len() > 0 {
        seq![(indent(depth as nat) + title@, item_page(pages@, nodes@[k as int]) as i64)]
    } else {
        Seq::empty()
    };
    if title.len() > 0 {
        let mut e = indent_exec(depth);
        append(&mut e, &title);
        let page = item_page_exec(pages, &nodes[k]);
        out.push((string_from_chars(&e), page as i64));
    }
    assert(entries_view(out@) =~= out0 + own);
    let ghost out1 = entries_view(out@);
    match nodes[k].first {
        Some(f) => {
            match walk_exec(nodes, pages, f, depth + 1, visited, out, fuel - 1) {
                Ok(()) => {},
                Err(e) => {
                    return Err(e);
                },
            }
        },
        None => {},
    }
    let ghost out2 = entries_view(out@);
    match nodes[k].next {
        Some(nx) => {
            match walk_exec(nodes, pages, nx, depth, visited, out, fuel - 1) {
                Ok(()) => {},
                Err(e) => {
                    return Err(e);
                },
            }
        },
        None => {},
    }
    proof {
        let n = nodes@[k as int];
        let v1 = vis0.insert(cur);
        let child = match n.first {
            Some(f) => walk(nodes@, pages@, f, (depth + 1) as nat, v1, (fuel - 1) as nat),
            None => Walk::Done(Seq::empty(), v1),
        };
        if let Walk::Done(cs, v2) = child {
            assert(out2 =~= out0 + own + cs);
            match n.next {
                Some(nx) => {
                    if let Walk::Done(rs, v3) = walk(nodes@, pages@, nx, depth as nat, v2, (fuel - 1) as nat) {
                        assert(entries_view(out@) =~= out0 + (own + cs + rs));
                    }
                },
                None => {
                    assert(entries_view(out@) =~= out0 + (own + cs));
                },
            }
        }
    }
    Ok(())
}

/// The bookmarks of an outline whose first item is `first`: each item's
/// title indented two spaces per level and the page it points to (0 when it
/// points to none), in reading order; items without a title are left out
/// but their children are listed. An item reached a second time ends its
/// chain, so a cyclic outline is listed once. `Err` names an item that is
/// not among the outline's objects.
pub fn outline_bookmarks(
    nodes: &Vec<OutlineNode>,
    pages: &Vec<((u32, u16), u32)>,
    first: (u32, u16),
) -> (r: Result<Vec<(String, i64)>, (u32, u16)>)
    requires
        nodes.len() < usize::MAX,
    ensures
        !(walk(nodes@, pages@, first, 0, Set::empty(), (nodes.len() + 1) as nat) is OutOfFuel),
        match walk(nodes@, pages@, first, 0, Set::empty(), (nodes.len() + 1) as nat) {
            Walk::Done(es, _) => r matches Ok(v) && entries_view(v@) == es,
            Walk::Missing(id) => r == Err::<Vec<(String, i64)>, (u32, u16)>(id),
            Walk::OutOfFuel => false,
        },
{
    proof {
        lemma_unvisited_le(nodes@, Set::empty());
        lemma_walk(nodes@, pages@, first, 0, Set::empty(), (nodes.len() + 1) as nat);
    }
    let mut visited: Vec<(u32, u16)> = Vec::new();
    let mut out: Vec<(String, i64)> = Vec::new();
    assert(visited@.to_set() =~= Set::<(u32, u16)>::empty());
    match walk_exec(nodes, pages, first, 0, &mut visited, &mut out, nodes.len() + 1) {
        Ok(()) => {
            assert(entries_view(out@) =~= Seq::<(Seq<char>, i64)>::empty() + entries_view(out@));
            Ok(out)
        },
        Err(e) => Err(e),
    }
}

/// Listing bookmarks ends on every outline, cyclic ones included, and gives
/// at most one bookmark per outline item.
pub proof fn law_outline_walk_ends(
    nodes: Seq<OutlineNode>,
    pages: Seq<((u32, u16), u32)>,
    first: (u32, u16),
)
    ensures
        !(walk(nodes, pages, first, 0, Set::empty(), (nodes.len() + 1) as nat) is OutOfFuel),
        walk(nodes, pages, first, 0, Set::empty(), (nodes.len() + 1) as nat) matches Walk::Done(es, _)
            ==> es.len() <= nodes.len(),
{
    lemma_unvisited_le(nodes, Set::empty());
    lemma_walk(nodes, pages, first, 0, Set::empty(), (nodes.len() + 1) as nat);
}

} // verus!
