use libran::document_list::{document_list_header, document_list_lines, ListDoc, ListLine};

fn doc(id: i64) -> ListDoc {
    ListDoc {
        id: Some(id),
        title: format!("Title {id}"),
        authors: None,
        pub_year: None,
        doi: None,
        citation_key: None,
        reading_status: None,
        rating: None,
        progress: None,
    }
}

#[test]
fn empty_list_notes() {
    let none: Vec<ListDoc> = Vec::new();
    assert_eq!(
        document_list_lines(&none, false, "circles", &vec![], &vec![], None),
        vec![ListLine::Empty("문헌이 없습니다. PDF 파일을 드래그하여 추가하세요.".to_string())]
    );
    assert_eq!(
        document_list_lines(&none, true, "circles", &vec![], &vec![], None),
        vec![ListLine::Empty("읽기 큐가 비어 있습니다. Q 키로 문헌을 추가하세요.".to_string())]
    );
    assert_eq!(document_list_header(false), "");
    assert!(document_list_header(true).starts_with(" 읽기 큐"));
}

#[test]
fn list_lines_with_defaults() {
    let lines = document_list_lines(&vec![doc(1)], false, "circles", &vec![], &vec![], None);
    assert_eq!(
        lines,
        vec![
            ListLine::Title("○".to_string(), "Title 1".to_string(), String::new(), String::new()),
            ListLine::Meta("저자 불명".to_string(), "n.d.".to_string(), None, None, 0, String::new()),
            ListLine::Rule,
        ]
    );
}

#[test]
fn list_lines_with_fields_and_scores() {
    let mut a = doc(1);
    a.authors = Some("Kim, M.".to_string());
    a.pub_year = Some(2024);
    a.doi = Some("10.1/x".to_string());
    a.citation_key = Some("Kim2024".to_string());
    a.reading_status = Some("read".to_string());
    a.rating = Some(4);
    a.progress = Some(42);
    let mut b = doc(2);
    b.doi = Some(String::new());
    b.reading_status = Some("reading".to_string());
    let labels = vec![(1, " [0.8]".to_string()), (2, " [0.3]".to_string())];
    let lines = document_list_lines(&vec![a, b], false, "ballot", &vec![2], &labels, Some(2));
    assert_eq!(lines.len(), 6);
    assert_eq!(
        lines[0],
        ListLine::Title("☒".to_string(), "Title 1".to_string(), " ★★★★☆".to_string(), " [0.8]".to_string())
    );
    assert_eq!(
        lines[1],
        ListLine::Meta(
            "Kim, M.".to_string(),
            "2024".to_string(),
            Some("10.1/x".to_string()),
            Some("[Kim2024]".to_string()),
            42,
            " 42%".to_string()
        )
    );
    assert_eq!(
        lines[3],
        ListLine::Title("⊡".to_string(), "Title 2".to_string(), String::new(), " [기준]".to_string())
    );
    assert_eq!(lines[4], ListLine::Meta("저자 불명".to_string(), "n.d.".to_string(), None, None, 0, String::new()));
    assert_eq!(lines[5], ListLine::Rule);
}
