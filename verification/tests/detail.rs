use libran::detail::{detail_lines, DetailLine, DetailState};
use libran::documents::Document;
use libran::records::Attachment;

fn state(doc: Option<Document>) -> DetailState {
    DetailState {
        doc,
        glyph_set: "circles".to_string(),
        attachments: vec![],
        tags: vec![],
        custom_fields: vec![],
        bookmarks: vec![],
    }
}

fn field(label: &str, value: &str) -> DetailLine {
    DetailLine::Field(label.to_string(), value.to_string())
}

#[test]
fn no_document_selected() {
    assert_eq!(detail_lines(&state(None)), vec![DetailLine::NoDocument]);
}

#[test]
fn fields_with_dashes_and_values() {
    let mut d = Document::default();
    d.title = "On Spectra".to_string();
    d.authors = Some("Kim, A".to_string());
    d.pub_year = Some(2021);
    d.reading_status = Some("read".to_string());
    d.rating = Some(4);
    d.reading_progress = Some(55);
    let lines = detail_lines(&state(Some(d)));
    assert_eq!(lines[0], DetailLine::Blank);
    assert_eq!(lines[1], DetailLine::Title("✓".into(), "On Spectra".into()));
    assert_eq!(lines[3], field("저자", "Kim, A"));
    assert_eq!(lines[5], field("저널", "—"));
    assert_eq!(lines[9], field("연도", "2021"));
    assert_eq!(lines[19], field("읽음 상태 (u)", "읽음"));
    assert_eq!(lines[21], field("진행률 (>/<)", "55%"));
    assert_eq!(lines[23], field("출처", "—"));
    assert_eq!(lines[25], field("별점", "★★★★☆ (4점)"));
    assert_eq!(lines[27], DetailLine::Tags(vec![]));
    assert_eq!(lines[29], DetailLine::NoAbstract);
    assert_eq!(lines.len(), 30);
}

#[test]
fn ballot_glyphs_and_bad_rating() {
    let mut d = Document::default();
    d.reading_status = Some("reading".to_string());
    d.rating = Some(9);
    let mut s = state(Some(d));
    s.glyph_set = "ballot".to_string();
    let lines = detail_lines(&s);
    assert_eq!(lines[1], DetailLine::Title("⊡".into(), String::new()));
    assert_eq!(lines[19], field("읽음 상태 (u)", "읽는 중"));
    assert_eq!(lines[21], field("진행률 (>/<)", "0%"));
    assert_eq!(lines[25], field("별점", "—"));
}

#[test]
fn attachments_abstract_custom_and_bookmarks() {
    let mut d = Document::default();
    d.abstract_text = Some((1..=12).map(|i| format!("line {i}")).collect::<Vec<_>>().join("\n"));
    let mut s = state(Some(d));
    s.attachments = vec![Attachment {
        id: None,
        document_id: 1,
        file_path: "/lib/data.csv".to_string(),
        file_hash: None,
        attachment_type: "dataset".to_string(),
        label: Some("Raw".to_string()),
        mime_type: None,
        created_at: None,
    }];
    s.tags = vec!["physics".to_string()];
    s.custom_fields = vec![(1, "grant".to_string(), "X-1".to_string())];
    s.bookmarks = (0..25).map(|i| (format!("B{i}"), i)).collect();
    let lines = detail_lines(&s);
    assert_eq!(lines[19], DetailLine::AttachmentCount(1));
    assert_eq!(lines[20], DetailLine::Text("[데이터] /lib/data.csv — Raw".into()));
    assert_eq!(lines[21], DetailLine::Blank);
    assert_eq!(lines[30], DetailLine::Tags(vec!["physics".to_string()]));
    assert_eq!(lines[32], DetailLine::Section("─ ─ 초록 ─ ─".into()));
    assert_eq!(lines[34], DetailLine::Text("line 1".into()));
    assert_eq!(lines[43], DetailLine::Text("line 10".into()));
    assert_eq!(lines[45], DetailLine::Section("─ ─ 추가 필드 ─ ─".into()));
    assert_eq!(lines[47], DetailLine::Custom("grant".into(), "X-1".into()));
    assert_eq!(lines[48], DetailLine::Blank);
    assert_eq!(lines[50], DetailLine::Section("─ ─ 북마크 (b로 추출) ─ ─".into()));
    assert_eq!(lines[52], DetailLine::Text("B0".into()));
    assert_eq!(lines[53], DetailLine::Text("B1 (p.1)".into()));
    assert_eq!(lines.len(), 52 + 20);
}
