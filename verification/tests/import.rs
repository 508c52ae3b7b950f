use libran::import::{linked_ids, remap_parent, IdMap};

#[test]
fn id_map_gives_back_recorded_ids() {
    let mut m = IdMap::new();
    assert_eq!(m.lookup(7), None);
    m.record(7, 70);
    m.record(8, 80);
    assert_eq!(m.lookup(7), Some(70));
    assert_eq!(m.lookup(8), Some(80));
    m.record(7, 71);
    assert_eq!(m.lookup(7), Some(71));
    assert_eq!(m.lookup(8), Some(80));
}

#[test]
fn parent_nodes_follow_the_map() {
    let mut m = IdMap::new();
    m.record(1, 100);
    assert_eq!(remap_parent(&m, Some(1)), Some(100));
    assert_eq!(remap_parent(&m, Some(2)), None);
    assert_eq!(remap_parent(&m, None), None);
}

#[test]
fn links_to_records_not_carried_over_are_dropped() {
    let mut m = IdMap::new();
    m.record(3, 30);
    m.record(5, 50);
    assert_eq!(linked_ids(&m, &vec![5, 4, 3, 5]), vec![50, 30, 50]);
    assert_eq!(linked_ids(&m, &vec![]), Vec::<i64>::new());
}
