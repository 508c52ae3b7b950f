use libran::records::SeriesProposal;
use libran::series_grouping::{apply_proposals, auto_group_by_journal, SeriesEntry, SeriesLibrary};

fn library(docs: &[(i64, &str)], series: Vec<SeriesEntry>, next_id: i64) -> SeriesLibrary {
    SeriesLibrary {
        docs: docs.iter().map(|&(id, j)| (id, j.to_string())).collect(),
        series,
        next_id,
    }
}

fn entry(id: i64, name: &str, members: Vec<i64>) -> SeriesEntry {
    SeriesEntry { id, name: name.to_string(), members }
}

fn members_of(lib: &SeriesLibrary, name: &str) -> Vec<i64> {
    let mut m = lib.series.iter().find(|s| s.name == name).map(|s| s.members.clone()).unwrap_or_default();
    m.sort();
    m
}

#[test]
fn auto_group_creates_series_for_journals_with_two_documents() {
    let mut lib = library(
        &[(1, "Alpha"), (2, "Alpha"), (3, "Beta"), (4, "Gamma"), (5, "Gamma"), (6, "Gamma")],
        vec![],
        100,
    );
    let ids = auto_group_by_journal(&mut lib);
    // Gamma has three documents and comes first, then Alpha.
    assert_eq!(ids, vec![100, 101]);
    assert_eq!(lib.series.len(), 2);
    assert_eq!(lib.series[0].name, "Gamma");
    assert_eq!(members_of(&lib, "Gamma"), vec![4, 5, 6]);
    assert_eq!(members_of(&lib, "Alpha"), vec![1, 2]);
    assert_eq!(lib.next_id, 102);
}

#[test]
fn auto_group_backfills_existing_series() {
    let mut lib = library(
        &[(1, "Alpha"), (2, "Alpha"), (3, "Beta")],
        vec![entry(7, "Alpha", vec![1]), entry(8, "Beta", vec![])],
        20,
    );
    let ids = auto_group_by_journal(&mut lib);
    assert_eq!(ids.len(), 2);
    assert!(ids.contains(&7) && ids.contains(&8));
    assert_eq!(members_of(&lib, "Alpha"), vec![1, 2]);
    assert_eq!(members_of(&lib, "Beta"), vec![3]);
    assert_eq!(lib.series.len(), 2);
}

#[test]
fn auto_group_twice_returns_nothing_the_second_time() {
    let mut lib = library(
        &[(1, "Alpha"), (2, "Alpha"), (3, "Beta"), (4, "Beta"), (5, "Delta")],
        vec![entry(9, "Delta", vec![])],
        50,
    );
    let first = auto_group_by_journal(&mut lib);
    assert!(!first.is_empty());
    let series_after_first: Vec<(i64, String, Vec<i64>)> =
        lib.series.iter().map(|s| (s.id, s.name.clone(), s.members.clone())).collect();
    let second = auto_group_by_journal(&mut lib);
    assert!(second.is_empty());
    let series_after_second: Vec<(i64, String, Vec<i64>)> =
        lib.series.iter().map(|s| (s.id, s.name.clone(), s.members.clone())).collect();
    assert_eq!(series_after_first, series_after_second);
}

#[test]
fn apply_proposals_joins_an_existing_series_of_the_same_name() {
    let mut lib = library(&[], vec![entry(3, "Alpha", vec![1])], 10);
    let proposals = vec![
        SeriesProposal { name: "Alpha".to_string(), publisher: None, document_ids: vec![1, 2] },
        SeriesProposal { name: "Beta".to_string(), publisher: None, document_ids: vec![4] },
    ];
    let ids = apply_proposals(&mut lib, &proposals);
    assert_eq!(ids, vec![3, 10]);
    assert_eq!(lib.series[0].members, vec![1, 2]);
    assert_eq!(lib.series[1].members, vec![4]);
    assert_eq!(lib.next_id, 11);
}
