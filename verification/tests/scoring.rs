use libran::scoring::{
    citation_relation, matching_tag_count, parse_udc_notation, same_conference, year_distance,
    CitationRelation, DocumentFeatures, UdcMatch, UdcTree,
};

fn make_tree() -> UdcTree {
    let pairs = [
        ("5", ""),
        ("51", "5"),
        ("512", "51"),
        ("514", "51"),
        ("517", "51"),
        ("517.9", "517"),
        ("53", "5"),
        ("531", "53"),
        ("6", ""),
        ("61", "6"),
    ];
    UdcTree::new(
        pairs
            .iter()
            .map(|(n, p)| (n.to_string(), p.to_string()))
            .collect(),
    )
}

#[test]
fn test_lca_same_notation() {
    let tree = make_tree();
    let d = tree.lca_depth("517.9", "517.9").unwrap();
    assert_eq!(d, 4);
}

#[test]
fn test_lca_siblings() {
    let tree = make_tree();
    let d = tree.lca_depth("512", "514").unwrap();
    assert_eq!(d, 2);
}

#[test]
fn test_lca_different_toplevel() {
    let tree = make_tree();
    let d = tree.lca_depth("512", "61").unwrap();
    assert_eq!(d, 0);
}

#[test]
fn test_parse_compound() {
    let notations = parse_udc_notation("51-72:517.9");
    assert!(notations.contains(&"51".to_string()));
    assert!(notations.contains(&"517.9".to_string()));
}

#[test]
fn test_parse_simple() {
    let notations = parse_udc_notation("517.9");
    assert_eq!(notations.len(), 1);
    assert_eq!(notations[0], "517.9");
}

#[test]
fn lca_of_unknown_notation_is_none() {
    let tree = make_tree();
    assert_eq!(tree.lca_depth("999", "512"), None);
    assert_eq!(UdcTree::new(vec![]).lca_depth("a", "b"), None);
}

#[test]
fn depths_follow_parent_chain() {
    let tree = make_tree();
    assert_eq!(tree.compute_depth("517.9"), 4);
    assert_eq!(tree.compute_depth("5"), 1);
    assert_eq!(tree.compute_depth("unknown"), 0);
    assert_eq!(tree.depth_of("unknown"), None);
    assert_eq!(tree.depth_of("512"), Some(3));
    assert_eq!(tree.depth_of("512"), Some(tree.depth_of("51").unwrap() + 1));
    assert_eq!(tree.depth_of(""), Some(0));
    assert_eq!(tree.lca_depth("512", "512"), tree.depth_of("512"));
    assert_eq!(
        tree.ancestor_path("517.9"),
        vec![String::new(), "5".to_string(), "51".to_string(), "517".to_string(), "517.9".to_string()]
    );
}

#[test]
fn lca_is_symmetric_on_samples() {
    let tree = make_tree();
    assert_eq!(tree.lca_depth("517.9", "512"), tree.lca_depth("512", "517.9"));
    assert_eq!(tree.lca_depth("531", "514"), Some(1));
}

#[test]
fn match_level_leaf() {
    let tree = make_tree();
    assert_eq!(tree.match_level("517.9", "517.9"), UdcMatch::Leaf);
}

#[test]
fn match_level_parent() {
    let tree = make_tree();
    assert_eq!(tree.match_level("512", "514"), UdcMatch::Parent);
}

#[test]
fn match_level_grandparent() {
    let tree = make_tree();
    assert_eq!(tree.match_level("517.9", "512"), UdcMatch::Grandparent);
    assert_eq!(tree.match_level("5", "517.9"), UdcMatch::Grandparent);
}

#[test]
fn match_level_none_across_toplevels() {
    let tree = make_tree();
    assert_eq!(tree.match_level("512", "61"), UdcMatch::NoMatch);
}

#[test]
fn match_level_none_without_common_ancestor() {
    let tree = UdcTree::new(vec![
        ("5".to_string(), String::new()),
        ("z".to_string(), "y".to_string()),
    ]);
    assert_eq!(tree.lca_depth("5", "z"), None);
    assert_eq!(tree.match_level("5", "z"), UdcMatch::NoMatch);
    assert_eq!(tree.match_level("a", "b"), UdcMatch::NoMatch);
    assert_eq!(tree.match_level("a", "a"), UdcMatch::Leaf);
    assert_eq!(tree.depth_of("y"), Some(0));
    assert_eq!(tree.depth_of("z"), Some(1));
    assert_eq!(tree.depth_of("x"), None);
}

#[test]
fn match_levels_is_row_major() {
    let tree = make_tree();
    let a = vec!["512".to_string(), "517.9".to_string()];
    let b = vec!["514".to_string(), "61".to_string(), "517.9".to_string()];
    let levels = tree.match_levels(&a, &b);
    assert_eq!(
        levels,
        vec![
            UdcMatch::Parent,
            UdcMatch::NoMatch,
            UdcMatch::Grandparent,
            UdcMatch::Grandparent,
            UdcMatch::NoMatch,
            UdcMatch::Leaf,
        ]
    );
}

#[test]
fn parse_udc_notation_empty_and_separators() {
    assert!(parse_udc_notation("").is_empty());
    let n = parse_udc_notation("512+514");
    assert_eq!(n, vec!["512".to_string()]);
    assert_eq!(parse_udc_notation("51-72:538.91"), vec!["51".to_string(), "538.91".to_string()]);
    assert_eq!(parse_udc_notation("517.9:538.91"), vec!["517.9".to_string(), "538.91".to_string()]);
    let m = parse_udc_notation(" 53 : 61(075) ");
    assert!(m.contains(&"53".to_string()));
    assert!(m.contains(&"61".to_string()));
}

fn features(id: i64, cited: Vec<i64>) -> DocumentFeatures {
    DocumentFeatures {
        id,
        udc_notations: vec![],
        tags: vec![],
        cited_docs: cited,
        cited_by_docs: vec![],
        pub_year: None,
        conference: None,
    }
}

#[test]
fn citation_relations() {
    let a = features(1, vec![2, 3]);
    let b = features(2, vec![1]);
    let c = features(3, vec![]);
    let d = features(4, vec![1]);
    assert_eq!(citation_relation(&a, &b), CitationRelation::Mutual);
    assert_eq!(citation_relation(&a, &c), CitationRelation::CitedByReference);
    assert_eq!(citation_relation(&a, &d), CitationRelation::Unrelated);
}

#[test]
fn tag_overlap_counts_reference_tags_found() {
    let r = vec!["physics".to_string(), "math".to_string(), "bio".to_string()];
    let t = vec!["math".to_string(), "physics".to_string()];
    assert_eq!(matching_tag_count(&r, &t), 2);
    assert_eq!(matching_tag_count(&r, &vec![]), 0);
}

#[test]
fn conference_and_year() {
    assert!(same_conference(&Some("ICML".to_string()), &Some("ICML".to_string())));
    assert!(!same_conference(&Some("ICML".to_string()), &None));
    assert!(!same_conference(&None, &None));
    assert_eq!(year_distance(Some(2020), Some(2017)), Some(3));
    assert_eq!(year_distance(Some(2017), Some(2020)), Some(3));
    assert_eq!(year_distance(None, Some(2020)), None);
}

#[test]
fn checked_tree_construction() {
    let ok = UdcTree::try_new(vec![("5".into(), "".into()), ("51".into(), "5".into())]);
    assert_eq!(ok.map(|t| t.compute_depth("51")), Some(2));
    let dup = UdcTree::try_new(vec![("5".into(), "".into()), ("5".into(), "6".into())]);
    assert!(dup.is_none());
    let cycle = UdcTree::try_new(vec![("a".into(), "b".into()), ("b".into(), "a".into())]);
    assert!(cycle.is_none());
    let self_loop = UdcTree::try_new(vec![("a".into(), "a".into())]);
    assert!(self_loop.is_none());
}
