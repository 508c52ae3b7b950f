use libran::outline::{outline_bookmarks, OutlineNode};

fn node(
    id: u32,
    title: &str,
    dest: Option<u32>,
    action: Option<u32>,
    first: Option<u32>,
    next: Option<u32>,
) -> OutlineNode {
    OutlineNode {
        id: (id, 0),
        title: title.as_bytes().to_vec(),
        dest_target: dest.map(|d| (d, 0)),
        action_target: action.map(|a| (a, 0)),
        first: first.map(|f| (f, 0)),
        next: next.map(|n| (n, 0)),
    }
}

fn pages() -> Vec<((u32, u16), u32)> {
    vec![((100, 0), 1), ((101, 0), 2), ((102, 0), 3)]
}

#[test]
fn outline_lists_items_in_reading_order_with_indentation() {
    let nodes = vec![
        node(1, "Intro", Some(100), None, Some(2), Some(3)),
        node(2, "Background", None, Some(101), None, None),
        node(3, "Results", Some(999), Some(102), None, None),
    ];
    let marks = outline_bookmarks(&nodes, &pages(), (1, 0)).unwrap();
    assert_eq!(
        marks,
        vec![
            ("Intro".to_string(), 1),
            ("  Background".to_string(), 2),
            ("Results".to_string(), 3),
        ]
    );
}

#[test]
fn outline_skips_untitled_items_but_keeps_their_children() {
    let nodes = vec![
        node(1, "", None, None, Some(2), None),
        node(2, "Child", None, None, None, None),
    ];
    let marks = outline_bookmarks(&nodes, &pages(), (1, 0)).unwrap();
    assert_eq!(marks, vec![("  Child".to_string(), 0)]);
}

#[test]
fn outline_cycle_is_listed_once() {
    let nodes = vec![
        node(1, "A", None, None, None, Some(2)),
        node(2, "B", None, None, Some(1), Some(1)),
    ];
    let marks = outline_bookmarks(&nodes, &pages(), (1, 0)).unwrap();
    assert_eq!(marks, vec![("A".to_string(), 0), ("B".to_string(), 0)]);
}

#[test]
fn outline_reference_to_missing_item_is_an_error() {
    let nodes = vec![node(1, "A", None, None, None, Some(7))];
    assert_eq!(outline_bookmarks(&nodes, &pages(), (1, 0)), Err((7, 0)));
}

#[test]
fn outline_invalid_utf8_title_is_replaced() {
    let mut n = node(1, "", Some(101), None, None, None);
    n.title = vec![b'X', 0xff];
    let marks = outline_bookmarks(&vec![n], &pages(), (1, 0)).unwrap();
    assert_eq!(marks, vec![("X\u{fffd}".to_string(), 2)]);
}
