use libran::migrations::{nfc_normalized, pending_migrations, stored_version, TextFields, LATEST_MIGRATION};

#[test]
fn nfc_normalized_leaves_composed_text_alone() {
    let f = TextFields {
        title: "Café society".to_string(),
        authors: Some("Kim, Minsu".to_string()),
        journal: None,
        abstract_text: None,
        keywords: Some("한국어".to_string()),
    };
    assert_eq!(nfc_normalized(&f), None);
}

#[test]
fn nfc_normalized_composes_decomposed_fields() {
    let f = TextFields {
        title: "Cafe\u{301}".to_string(),
        authors: None,
        journal: Some("Revue".to_string()),
        abstract_text: Some("\u{1100}\u{1161}".to_string()),
        keywords: None,
    };
    let g = nfc_normalized(&f).expect("fields change");
    assert_eq!(g.title, "Café");
    assert_eq!(g.authors, None);
    assert_eq!(g.journal, Some("Revue".to_string()));
    assert_eq!(g.abstract_text, Some("가".to_string()));
    assert_eq!(g.keywords, None);
}

#[test]
fn stored_version_reads_the_recorded_number() {
    assert_eq!(stored_version(Some("12")), 12);
    assert_eq!(stored_version(Some("+3")), 3);
    assert_eq!(stored_version(Some("twelve")), 0);
    assert_eq!(stored_version(Some("")), 0);
    assert_eq!(stored_version(None), 0);
}

#[test]
fn pending_migrations_are_those_above_the_version() {
    assert_eq!(pending_migrations(0), (1..=17).collect::<Vec<i64>>());
    assert_eq!(pending_migrations(15), vec![16, 17]);
    assert_eq!(pending_migrations(LATEST_MIGRATION), Vec::<i64>::new());
    assert_eq!(pending_migrations(40), Vec::<i64>::new());
    assert_eq!(pending_migrations(-5), (1..=17).collect::<Vec<i64>>());
    let after = *pending_migrations(9).last().unwrap();
    assert!(pending_migrations(after).is_empty());
}
