//! The reading queue. Every document row carries an optional queue
//! position; the queued documents are read in increasing position. These
//! functions compute the positions that adding, removing and moving a
//! document give every row of the documents table.
use vstd::prelude::*;

verus! {

/// One row of the documents table as the queue sees it.
#[derive(Clone, Copy, Debug, PartialEq, Eq, Structural)]
pub struct QueueRow {
    pub id: i64,
    pub position: Option<i64>,
}

/// The greatest position in use, `None` when nothing is queued.
pub open spec fn max_queued(rows: Seq<QueueRow>) -> Option<int>
    decreases rows.len(),
{
    if rows.len() == 0 {
        None
    } else {
        let m = max_queued(rows.drop_last());
        match rows.last().position {
            None => m,
            Some(p) => match m {
                Some(q) => if q >= p { Some(q) } else { Some(p as int) },
                None => Some(p as int),
            },
        }
    }
}

/// The position a newly queued document takes: one past the greatest
/// position in use, or 1 on an empty queue.
pub open spec fn next_position(rows: Seq<QueueRow>) -> int {
    match max_queued(rows) {
        Some(m) => m + 1,
        None => 1,
    }
}

pub open spec fn added_row(r: QueueRow, doc_id: i64, next: int) -> QueueRow {
    if r.id == doc_id {
        QueueRow { id: r.id, position: Some(next as i64) }
    } else {
        r
    }
}

/// The rows after `doc_id` is put at the end of the queue.
pub open spec fn added_rows(rows: Seq<QueueRow>, doc_id: i64) -> Seq<QueueRow> {
    rows.map_values(|r: QueueRow| added_row(r, doc_id, next_position(rows)))
}

proof fn lemma_max_queued_bounds(rows: Seq<QueueRow>)
    ensures
        forall|i: int|
            0 <= i < rows.len() && (#[trigger] rows[i]).position is Some ==> max_queued(rows)
                is Some && rows[i].position->0 <= max_queued(rows)->0,
        max_queued(rows) is Some ==> exists|i: int|
            0 <= i < rows.len() && (#[trigger] rows[i]).position == Some(
                max_queued(rows)->0 as i64,
            ),
    decreases rows.len(),
{
    if rows.len() > 0 {
        let init = rows.drop_last();
        lemma_max_queued_bounds(init);
        assert forall|i: int|
            0 <= i < rows.len() && (#[trigger] rows[i]).position is Some implies max_queued(rows)
                is Some && rows[i].position->0 <= max_queued(rows)->0 by {
            if i < rows.len() - 1 {
                assert(rows[i] == init[i]);
            }
        }
        if max_queued(rows) is Some {
            match rows.last().position {
                Some(p) => {
                    if max_queued(init) is Some && max_queued(init)->0 >= p {
                        let k = choose|k: int|
                            0 <= k < init.len() && (#[trigger] init[k]).position == Some(
                                max_queued(init)->0 as i64,
                            );
                        assert(rows[k] == init[k]);
                    } else {
                        assert(rows[rows.len() - 1].position == Some(
                            max_queued(rows)->0 as i64,
                        ));
                    }
                },
                None => {
                    let k = choose|k: int|
                        0 <= k < init.len() && (#[trigger] init[k]).position == Some(
                            max_queued(init)->0 as i64,
                        );
                    assert(rows[k] == init[k]);
                },
            }
        }
    }
}

/// The greatest position in use among `rows`.
fn max_position(rows: &Vec<QueueRow>) -> (r: Option<i64>)
    ensures
        match r {
            Some(m) => max_queued(rows@) == Some(m as int),
            None => max_queued(rows@) is None,
        },
{
    let mut m: Option<i64> = None;
    let mut i: usize = 0;
    while i < rows.len()
        invariant
            i <= rows.len(),
            match m {
                Some(v) => max_queued(rows@.take(i as int)) == Some(v as int),
                None => max_queued(rows@.take(i as int)) is None,
            },
        decreases rows.len() - i,
    {
        assert(rows@.take(i as int + 1).drop_last() =~= rows@.take(i as int));
        assert(rows@.take(i as int + 1).last() == rows@[i as int]);
        match rows[i].position {
            Some(p) => {
                match m {
                    Some(q) => {
                        if q < p {
                            m = Some(p);
                        }
                    },
                    None => {
                        m = Some(p);
                    },
                }
            },
            None => {},
        }
        i += 1;
    }
    assert(rows@.take(rows@.len() as int) =~= rows@);
    m
}

/// Puts `doc_id` at the end of the queue: its row takes the position one
/// past the greatest in use (1 on an empty queue); every other row keeps
/// its position.
pub fn add_to_queue(rows: &mut Vec<QueueRow>, doc_id: i64)
    requires
        next_position(old(rows)@) <= i64::MAX,
    ensures
        final(rows)@ == added_rows(old(rows)@, doc_id),
{
    let next: i64 = match max_position(rows) {
        Some(m) => m + 1,
        None => 1,
    };
    let ghost orig = rows@;
    let mut i: usize = 0;
    while i < rows.len()
        invariant
            i <= rows.len(),
            rows@.len() == orig.len(),
            next == next_position(orig),
            forall|k: int| 0 <= k < i ==> rows@[k] == added_row(orig[k], doc_id, next as int),
            forall|k: int| i <= k < rows@.len() ==> rows@[k] == orig[k],
        decreases rows.len() - i,
    {
        if rows[i].id == doc_id {
            let id = rows[i].id;
            rows.set(i, QueueRow { id, position: Some(next) });
        }
        i += 1;
    }
    assert(rows@ =~= added_rows(orig, doc_id));
}

/// Adding a document puts it behind every other queued document.
pub proof fn law_add_goes_last(rows: Seq<QueueRow>, doc_id: i64)
    requires
        next_position(rows) <= i64::MAX,
    ensures
        forall|i: int|
            0 <= i < rows.len() && rows[i].id == doc_id ==> (#[trigger] added_rows(
                rows,
                doc_id,
            )[i]).position == Some(next_position(rows) as i64),
        forall|i: int, j: int|
            0 <= i < rows.len() && 0 <= j < rows.len() && rows[i].id == doc_id && rows[j].id
                != doc_id && rows[j].position is Some ==> (#[trigger] added_rows(rows, doc_id)[j]).position->0
                < (#[trigger] added_rows(rows, doc_id)[i]).position->0,
{
    lemma_max_queued_bounds(rows);
}

/// The position of the first row with id `doc_id`, `None` when there is no
/// such row or it is not queued.
pub open spec fn current_position(rows: Seq<QueueRow>, doc_id: i64) -> Option<i64>
    decreases rows.len(),
{
    if rows.len() == 0 {
        None
    } else if rows[0].id == doc_id {
        rows[0].position
    } else {
        current_position(rows.drop_first(), doc_id)
    }
}

/// The position of one row when the document at position `c` moves to
/// position `n`: the rows in between shift by one to close the gap.
pub open spec fn moved_row(r: QueueRow, doc_id: i64, c: int, n: int) -> QueueRow {
    if r.id == doc_id {
        QueueRow { id: r.id, position: Some(n as i64) }
    } else {
        match r.position {
            Some(p) => if n < c && n <= p < c {
                QueueRow { id: r.id, position: Some((p + 1) as i64) }
            } else if n > c && c < p <= n {
                QueueRow { id: r.id, position: Some((p - 1) as i64) }
            } else {
                r
            },
            None => r,
        }
    }
}

/// The rows after `doc_id` moves to the 0-based place `new_position`. A
/// document that is not queued, or already there, leaves every row as it is.
pub open spec fn reordered_rows(rows: Seq<QueueRow>, doc_id: i64, new_position: int) -> Seq<QueueRow> {
    match current_position(rows, doc_id) {
        None => rows,
        Some(c) => if new_position + 1 == c {
            rows
        } else {
            rows.map_values(|r: QueueRow| moved_row(r, doc_id, c as int, new_position + 1))
        },
    }
}

fn find_position(rows: &Vec<QueueRow>, doc_id: i64) -> (r: Option<i64>)
    ensures
        r == current_position(rows@, doc_id),
{
    let mut i: usize = 0;
    assert(rows@.skip(0) =~= rows@);
    while i < rows.len()
        invariant
            i <= rows.len(),
            current_position(rows@.skip(i as int), doc_id) == current_position(rows@, doc_id),
        decreases rows.len() - i,
    {
        assert(rows@.skip(i as int)[0] == rows@[i as int]);
        assert(rows@.skip(i as int).drop_first() =~= rows@.skip(i as int + 1));
        if rows[i].id == doc_id {
            return rows[i].position;
        }
        i += 1;
    }
    assert(rows@.skip(i as int).len() == 0);
    None
}

/// Moves `doc_id` to the 0-based place `new_position` of the queue. Moving
/// it forward shifts the documents from the new place up to its old one back
/// by one; moving it back shifts those after its old place up to the new
/// one forward by one. A document that is not queued stays out of it.
pub fn reorder_queue(rows: &mut Vec<QueueRow>, doc_id: i64, new_position: usize)
    requires
        new_position < i64::MAX,
    ensures
        final(rows)@ == reordered_rows(old(rows)@, doc_id, new_position as int),
{
    let current = match find_position(rows, doc_id) {
        Some(p) => p,
        None => {
            return ;
        },
    };
    let n: i64 = new_position as i64 + 1;
    if n == current {
        return ;
    }
    let ghost orig = rows@;
    let mut i: usize = 0;
    while i < rows.len()
        invariant
            i <= rows.len(),
            rows@.len() == orig.len(),
            n == new_position + 1,
            n != current,
            forall|k: int|
                0 <= k < i ==> rows@[k] == moved_row(orig[k], doc_id, current as int, n as int),
            forall|k: int| i <= k < rows@.len() ==> rows@[k] == orig[k],
        decreases rows.len() - i,
    {
        let r = rows[i];
        if r.id == doc_id {
            rows.set(i, QueueRow { id: r.id, position: Some(n) });
        } else {
            match r.position {
                Some(p) => {
                    if n < current && n <= p && p < current {
                        rows.set(i, QueueRow { id: r.id, position: Some(p + 1) });
                    } else if n > current && current < p && p <= n {
                        rows.set(i, QueueRow { id: r.id, position: Some(p - 1) });
                    }
                },
                None => {},
            }
        }
        i += 1;
    }
    assert(rows@ =~= reordered_rows(orig, doc_id, new_position as int));
}

/// No two rows share an id (the table's key).
pub open spec fn unique_ids(rows: Seq<QueueRow>) -> bool {
    forall|i: int, j: int|
        0 <= i < rows.len() && 0 <= j < rows.len() && i != j ==> (#[trigger] rows[i]).id
            != (#[trigger] rows[j]).id
}

/// No two queued rows share a position.
pub open spec fn positions_distinct(rows: Seq<QueueRow>) -> bool {
    forall|i: int, j: int|
        0 <= i < rows.len() && 0 <= j < rows.len() && i != j && (#[trigger] rows[i]).position
            is Some ==> rows[i].position != (#[trigger] rows[j]).position
}

proof fn lemma_current_position(rows: Seq<QueueRow>, doc_id: i64)
    ensures
        current_position(rows, doc_id) is Some ==> exists|k: int|
            0 <= k < rows.len() && (#[trigger] rows[k]).id == doc_id && rows[k].position
                == current_position(rows, doc_id),
    decreases rows.len(),
{
    if rows.len() > 0 && rows[0].id != doc_id {
        let rest = rows.drop_first();
        lemma_current_position(rest, doc_id);
        if current_position(rows, doc_id) is Some {
            let k = choose|k: int|
                0 <= k < rest.len() && (#[trigger] rest[k]).id == doc_id && rest[k].position
                    == current_position(rest, doc_id);
            assert(rows[k + 1] == rest[k]);
        }
    }
}

/// Moving a document keeps the queued positions distinct, and the moved
/// document lands on the place asked for.
pub proof fn law_reorder_keeps_positions_distinct(
    rows: Seq<QueueRow>,
    doc_id: i64,
    new_position: int,
)
    requires
        0 <= new_position < i64::MAX,
        unique_ids(rows),
        positions_distinct(rows),
    ensures
        positions_distinct(reordered_rows(rows, doc_id, new_position)),
        current_position(rows, doc_id) is Some ==> forall|i: int|
            0 <= i < rows.len() && rows[i].id == doc_id ==> (#[trigger] reordered_rows(
                rows,
                doc_id,
                new_position,
            )[i]).position == Some((new_position + 1) as i64),
{
    lemma_current_position(rows, doc_id);
    let out = reordered_rows(rows, doc_id, new_position);
    if let Some(c) = current_position(rows, doc_id) {
        let d = choose|k: int|
            0 <= k < rows.len() && (#[trigger] rows[k]).id == doc_id && rows[k].position
                == current_position(rows, doc_id);
        let n = new_position + 1;
        if n != c {
            assert forall|i: int, j: int|
                0 <= i < out.len() && 0 <= j < out.len() && i != j && (#[trigger] out[i]).position
                    is Some implies out[i].position != (#[trigger] out[j]).position by {
                assert(out[i] == moved_row(rows[i], doc_id, c as int, n));
                assert(out[j] == moved_row(rows[j], doc_id, c as int, n));
                if rows[i].id != doc_id {
                    assert(i != d);
                    assert(rows[i].position != rows[d].position);
                }
                if rows[j].id != doc_id {
                    assert(j != d);
                    if rows[j].position is Some {
                        assert(rows[j].position != rows[d].position);
                    }
                }
                if rows[i].id == doc_id {
                    assert(i == d);
                }
                if rows[j].id == doc_id {
                    assert(j == d);
                }
            }
        }
    }
}

pub open spec fn cleared_row(r: QueueRow, doc_id: i64) -> QueueRow {
    if r.id == doc_id {
        QueueRow { id: r.id, position: None }
    } else {
        r
    }
}

/// The rows once `doc_id` has left the queue, before renumbering.
pub open spec fn cleared_rows(rows: Seq<QueueRow>, doc_id: i64) -> Seq<QueueRow> {
    rows.map_values(|r: QueueRow| cleared_row(r, doc_id))
}

/// Row `j` comes before row `i` in the queue: a smaller position, or the
/// same position and an earlier row.
pub open spec fn earlier(s: Seq<QueueRow>, j: int, i: int) -> bool {
    &&& s[j].position is Some
    &&& s[i].position is Some
    &&& (s[j].position->0 < s[i].position->0 || (s[j].position->0 == s[i].position->0 && j < i))
}

/// How many of the first `k` rows come before row `i`.
pub open spec fn count_earlier(s: Seq<QueueRow>, i: int, k: int) -> nat
    decreases k,
{
    if k <= 0 {
        0
    } else {
        count_earlier(s, i, k - 1) + if earlier(s, k - 1, i) {
            1nat
        } else {
            0nat
        }
    }
}

/// How many of the first `k` rows are queued.
pub open spec fn queued_count(s: Seq<QueueRow>, k: int) -> nat
    decreases k,
{
    if k <= 0 {
        0
    } else {
        queued_count(s, k - 1) + if s[k - 1].position is Some {
            1nat
        } else {
            0nat
        }
    }
}

/// The 1-based place of row `i` in the queue.
pub open spec fn queue_rank(s: Seq<QueueRow>, i: int) -> int {
    1 + count_earlier(s, i, s.len() as int) as int
}

pub open spec fn renumbered_row(s: Seq<QueueRow>, i: int) -> QueueRow {
    QueueRow {
        id: s[i].id,
        position: if s[i].position is Some {
            Some(queue_rank(s, i) as i64)
        } else {
            None
        },
    }
}

/// The rows after `doc_id` leaves the queue: its row has no position, and
/// the queued rows are numbered 1, 2, ... in their order. Rows that share a
/// position keep the order of the table.
pub open spec fn removed_rows(rows: Seq<QueueRow>, doc_id: i64) -> Seq<QueueRow> {
    let s = cleared_rows(rows, doc_id);
    Seq::new(s.len(), |i: int| renumbered_row(s, i))
}

proof fn lemma_count_earlier_le(s: Seq<QueueRow>, i: int, k: int)
    requires
        0 <= k <= s.len(),
    ensures
        count_earlier(s, i, k) <= k,
    decreases k,
{
    if k > 0 {
        lemma_count_earlier_le(s, i, k - 1);
    }
}

/// Removes `doc_id` from the queue and numbers the queued documents 1, 2, ...
/// in their order, closing the gap it leaves.
pub fn remove_from_queue(rows: &mut Vec<QueueRow>, doc_id: i64)
    requires
        old(rows)@.len() < i64::MAX,
    ensures
        final(rows)@ == removed_rows(old(rows)@, doc_id),
{
    let ghost orig = rows@;
    let mut i: usize = 0;
    while i < rows.len()
        invariant
            i <= rows.len(),
            rows@.len() == orig.len(),
            forall|k: int| 0 <= k < i ==> rows@[k] == cleared_row(orig[k], doc_id),
            forall|k: int| i <= k < rows@.len() ==> rows@[k] == orig[k],
        decreases rows.len() - i,
    {
        if rows[i].id == doc_id {
            let id = rows[i].id;
            rows.set(i, QueueRow { id, position: None });
        }
        i += 1;
    }
    let ghost s = rows@;
    assert(s =~= cleared_rows(orig, doc_id));
    let n = rows.len();
    let mut out: Vec<QueueRow> = Vec::new();
    let mut i: usize = 0;
    while i < n
        invariant
            n == rows@.len(),
            rows@ == s,
            n < i64::MAX,
            i <= n,
            out@.len() == i,
            forall|k: int| 0 <= k < i ==> out@[k] == renumbered_row(s, k),
        decreases n - i,
    {
        match rows[i].position {
            Some(p) => {
                let mut cnt: usize = 0;
                let mut j: usize = 0;
                while j < n
                    invariant
                        n == rows@.len(),
                        rows@ == s,
                        n < i64::MAX,
                        i < n,
                        s[i as int].position == Some(p),
                        j <= n,
                        cnt == count_earlier(s, i as int, j as int),
                        cnt <= j,
                    decreases n - j,
                {
                    match rows[j].position {
                        Some(q) => {
                            if q < p || (q == p && j < i) {
                                cnt += 1;
                            }
                        },
                        None => {},
                    }
                    j += 1;
                }
                out.push(QueueRow { id: rows[i].id, position: Some(cnt as i64 + 1) });
            },
            None => {
                out.push(QueueRow { id: rows[i].id, position: None });
            },
        }
        i += 1;
    }
    assert(out@ =~= removed_rows(orig, doc_id));
    *rows = out;
}

proof fn lemma_count_earlier_mono(s: Seq<QueueRow>, i: int, j: int, k: int)
    requires
        0 <= i < s.len(),
        0 <= j < s.len(),
        0 <= k <= s.len(),
        earlier(s, i, j),
    ensures
        count_earlier(s, i, k) + (if i < k { 1nat } else { 0nat }) <= count_earlier(s, j, k),
    decreases k,
{
    if k > 0 {
        lemma_count_earlier_mono(s, i, j, k - 1);
    }
}

proof fn lemma_count_earlier_bound(s: Seq<QueueRow>, i: int, k: int)
    requires
        0 <= i < s.len(),
        0 <= k <= s.len(),
        s[i].position is Some,
    ensures
        count_earlier(s, i, k) + (if i < k { 1nat } else { 0nat }) <= queued_count(s, k),
    decreases k,
{
    if k > 0 {
        lemma_count_earlier_bound(s, i, k - 1);
    }
}

proof fn lemma_queued_count_same(a: Seq<QueueRow>, b: Seq<QueueRow>, k: int)
    requires
        0 <= k <= a.len(),
        a.len() == b.len(),
        forall|m: int| 0 <= m < a.len() ==> (#[trigger] a[m]).position is Some == b[m].position is Some,
    ensures
        queued_count(a, k) == queued_count(b, k),
    decreases k,
{
    if k > 0 {
        lemma_queued_count_same(a, b, k - 1);
    }
}

/// Removing a document numbers the rest of the queue 1, 2, ..., k without a
/// gap or a repeat, in their former order; the removed document is out of
/// the queue and every other row stays queued or unqueued as it was.
pub proof fn law_remove_renumbers(rows: Seq<QueueRow>, doc_id: i64)
    requires
        rows.len() < i64::MAX,
    ensures
        ({
            let out = removed_rows(rows, doc_id);
            let k = queued_count(out, out.len() as int);
            &&& out.len() == rows.len()
            &&& forall|i: int|
                0 <= i < rows.len() && rows[i].id == doc_id ==> (#[trigger] out[i]).position is None
            &&& forall|i: int|
                0 <= i < rows.len() && rows[i].id != doc_id ==> (#[trigger] out[i]).position is Some
                    == rows[i].position is Some
            &&& forall|i: int|
                0 <= i < out.len() && (#[trigger] out[i]).position is Some ==> 1 <= out[i].position->0
                    <= k
            &&& positions_distinct(out)
            &&& forall|i: int, j: int|
                0 <= i < rows.len() && 0 <= j < rows.len() && rows[i].id != doc_id && rows[j].id
                    != doc_id && rows[i].position is Some && rows[j].position is Some
                    && rows[i].position->0 < rows[j].position->0 ==> (#[trigger] out[i]).position->0
                    < (#[trigger] out[j]).position->0
        }),
{
    let s = cleared_rows(rows, doc_id);
    let out = removed_rows(rows, doc_id);
    let n = s.len() as int;
    assert forall|m: int| 0 <= m < s.len() implies (#[trigger] s[m]).position is Some
        == out[m].position is Some by {}
    lemma_queued_count_same(s, out, n);
    assert forall|i: int|
        0 <= i < out.len() && (#[trigger] out[i]).position is Some implies 1 <= out[i].position->0
            <= queued_count(out, out.len() as int) by {
        lemma_count_earlier_bound(s, i, n);
        lemma_count_earlier_le(s, i, n);
    }
    assert forall|i: int, j: int|
        0 <= i < out.len() && 0 <= j < out.len() && i != j && (#[trigger] out[i]).position
            is Some implies out[i].position != (#[trigger] out[j]).position by {
        lemma_count_earlier_le(s, i, n);
        lemma_count_earlier_le(s, j, n);
        assert(out[i] == renumbered_row(s, i));
        assert(out[j] == renumbered_row(s, j));
        if out[j].position is Some {
            if earlier(s, i, j) {
                lemma_count_earlier_mono(s, i, j, n);
            } else {
                assert(earlier(s, j, i));
                lemma_count_earlier_mono(s, j, i, n);
            }
        }
    }
    assert forall|i: int, j: int|
        0 <= i < rows.len() && 0 <= j < rows.len() && rows[i].id != doc_id && rows[j].id
            != doc_id && rows[i].position is Some && rows[j].position is Some
            && rows[i].position->0 < rows[j].position->0 implies (#[trigger] out[i]).position->0
            < (#[trigger] out[j]).position->0 by {
        assert(s[i] == rows[i]);
        assert(s[j] == rows[j]);
        lemma_count_earlier_le(s, i, n);
        lemma_count_earlier_le(s, j, n);
        lemma_count_earlier_mono(s, i, j, n);
    }
}

} // verus!
