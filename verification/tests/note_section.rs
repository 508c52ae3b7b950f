use libran::note_section::{note_section, NoteLine};

fn strings(v: &[&str]) -> Vec<String> {
    v.iter().map(|s| s.to_string()).collect()
}

#[test]
fn note_section_shows_newest_note_and_count() {
    let notes = strings(&["one\ntwo\r\nthree\nfour\nfive", "older"]);
    let (title, lines) = note_section(false, "", &notes, true);
    assert_eq!(title, " 📝 노트 (2개) ");
    assert_eq!(
        lines,
        vec![
            NoteLine::Text("one".to_string()),
            NoteLine::Text("two".to_string()),
            NoteLine::Text("three".to_string()),
            NoteLine::Text("four".to_string()),
            NoteLine::MoreNotes(1),
            NoteLine::Blank,
            NoteLine::Hint("  [n] 노트 작성  [:note] $EDITOR로 작성".to_string()),
        ]
    );
}

#[test]
fn note_section_single_note_and_no_focus() {
    let notes = strings(&["just this"]);
    let (title, lines) = note_section(false, "", &notes, false);
    assert_eq!(title, " 📝 노트 ");
    assert_eq!(
        lines,
        vec![
            NoteLine::Text("just this".to_string()),
            NoteLine::Blank,
            NoteLine::Hint(String::new()),
        ]
    );
}

#[test]
fn note_section_without_notes() {
    let (title, lines) = note_section(false, "", &Vec::new(), true);
    assert_eq!(title, " 📝 노트 (없음) ");
    assert_eq!(lines[0], NoteLine::NoNotes);
    assert_eq!(lines.len(), 3);
}

#[test]
fn note_section_while_editing() {
    let (title, lines) = note_section(true, "first\nsecond", &strings(&["ignored"]), true);
    assert_eq!(title, "✎ 노트 (편집 중)");
    assert_eq!(
        lines,
        vec![
            NoteLine::Text("first".to_string()),
            NoteLine::Text("second".to_string()),
            NoteLine::Blank,
            NoteLine::Hint(" [Enter] 줄바꿈  [Esc] 저장  [Ctrl+D] 삭제".to_string()),
        ]
    );
    let (_, empty) = note_section(true, "", &Vec::new(), false);
    assert_eq!(empty[0], NoteLine::Text(" ".to_string()));
    assert_eq!(empty.len(), 3);
}
