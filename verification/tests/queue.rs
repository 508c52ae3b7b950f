use libran::queue::{add_to_queue, remove_from_queue, reorder_queue, QueueRow};

fn rows(v: &[(i64, Option<i64>)]) -> Vec<QueueRow> {
    v.iter().map(|&(id, position)| QueueRow { id, position }).collect()
}

fn positions(r: &[QueueRow]) -> Vec<Option<i64>> {
    r.iter().map(|x| x.position).collect()
}

#[test]
fn add_to_empty_queue_takes_first_place() {
    let mut r = rows(&[(1, None), (2, None)]);
    add_to_queue(&mut r, 1);
    assert_eq!(positions(&r), vec![Some(1), None]);
}

#[test]
fn add_goes_behind_the_greatest_position() {
    let mut r = rows(&[(1, Some(3)), (2, None), (3, Some(1))]);
    add_to_queue(&mut r, 2);
    assert_eq!(positions(&r), vec![Some(3), Some(4), Some(1)]);
}

#[test]
fn add_of_queued_document_moves_it_last() {
    let mut r = rows(&[(1, Some(1)), (2, Some(2))]);
    add_to_queue(&mut r, 1);
    assert_eq!(positions(&r), vec![Some(3), Some(2)]);
}

#[test]
fn add_after_negative_positions() {
    let mut r = rows(&[(1, Some(-5)), (2, None)]);
    add_to_queue(&mut r, 2);
    assert_eq!(positions(&r), vec![Some(-5), Some(-4)]);
}

#[test]
fn reorder_to_front_shifts_the_others_back() {
    let mut r = rows(&[(10, Some(1)), (20, Some(2)), (30, Some(3)), (40, Some(4))]);
    reorder_queue(&mut r, 40, 0);
    assert_eq!(positions(&r), vec![Some(2), Some(3), Some(4), Some(1)]);
}

#[test]
fn reorder_backwards_shifts_the_others_forward() {
    let mut r = rows(&[(10, Some(1)), (20, Some(2)), (30, Some(3)), (40, Some(4))]);
    reorder_queue(&mut r, 10, 2);
    assert_eq!(positions(&r), vec![Some(3), Some(1), Some(2), Some(4)]);
}

#[test]
fn reorder_of_unqueued_document_changes_nothing() {
    let original = rows(&[(10, Some(1)), (20, None), (30, Some(2))]);
    let mut r = original.clone();
    reorder_queue(&mut r, 20, 0);
    assert_eq!(r, original);
    reorder_queue(&mut r, 99, 0);
    assert_eq!(r, original);
}

#[test]
fn reorder_to_same_place_changes_nothing() {
    let original = rows(&[(10, Some(1)), (20, Some(2))]);
    let mut r = original.clone();
    reorder_queue(&mut r, 20, 1);
    assert_eq!(r, original);
}

#[test]
fn reorder_keeps_positions_distinct() {
    let mut r = rows(&[(1, Some(1)), (2, Some(2)), (3, None), (4, Some(3)), (5, Some(4)), (6, Some(5))]);
    reorder_queue(&mut r, 5, 1);
    assert_eq!(positions(&r), vec![Some(1), Some(3), None, Some(4), Some(2), Some(5)]);
    let mut seen: Vec<i64> = r.iter().filter_map(|x| x.position).collect();
    seen.sort();
    seen.dedup();
    assert_eq!(seen.len(), 5);
}

#[test]
fn remove_closes_the_gap() {
    let mut r = rows(&[(10, Some(1)), (20, Some(2)), (30, Some(3)), (40, Some(4))]);
    remove_from_queue(&mut r, 20);
    assert_eq!(positions(&r), vec![Some(1), None, Some(2), Some(3)]);
}

#[test]
fn remove_renumbers_a_queue_with_gaps() {
    let mut r = rows(&[(1, Some(5)), (2, None), (3, Some(2)), (4, Some(9))]);
    remove_from_queue(&mut r, 99);
    assert_eq!(positions(&r), vec![Some(2), None, Some(1), Some(3)]);
}

#[test]
fn remove_orders_shared_positions_by_row() {
    let mut r = rows(&[(1, Some(2)), (2, Some(2)), (3, Some(1))]);
    remove_from_queue(&mut r, 3);
    assert_eq!(positions(&r), vec![Some(1), Some(2), None]);
}
