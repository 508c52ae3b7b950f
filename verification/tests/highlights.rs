use libran::sioyek::{new_highlight_notes, sync_summary};

fn strings(v: &[&str]) -> Vec<String> {
    v.iter().map(|s| s.to_string()).collect()
}

#[test]
fn highlights_are_trimmed_and_new_ones_kept_in_order() {
    let hs = strings(&["  first idea ", "second", "", "   "]);
    let existing = strings(&[]);
    assert_eq!(new_highlight_notes(&hs, &existing), strings(&["first idea", "second"]));
}

#[test]
fn highlights_already_stored_are_skipped() {
    let hs = strings(&["alpha", " beta", "gamma"]);
    let existing = strings(&[" beta  ", "delta"]);
    assert_eq!(new_highlight_notes(&hs, &existing), strings(&["alpha", "gamma"]));
}

#[test]
fn repeated_highlights_are_added_once() {
    let hs = strings(&["same", " same ", "other", "same"]);
    let existing = strings(&["unrelated"]);
    assert_eq!(new_highlight_notes(&hs, &existing), strings(&["same", "other"]));
}

#[test]
fn nothing_new_when_every_highlight_is_stored() {
    let hs = strings(&["a", "b"]);
    let existing = strings(&["b", "a"]);
    assert!(new_highlight_notes(&hs, &existing).is_empty());
}

#[test]
fn sync_summary_joins_the_updates() {
    assert_eq!(
        sync_summary(Some("읽기 진척도 동기화: 12 페이지".to_string()), 3),
        "동기화 완료 (읽기 진척도 동기화: 12 페이지, 새로운 하이라이트 3개 추가)"
    );
    assert_eq!(
        sync_summary(Some("읽기 진척도 동기화: 12 페이지".to_string()), 0),
        "동기화 완료 (읽기 진척도 동기화: 12 페이지)"
    );
    assert_eq!(sync_summary(None, 10), "동기화 완료 (새로운 하이라이트 10개 추가)");
    assert_eq!(sync_summary(None, 0), "가져올 새로운 Sioyek 데이터가 없습니다.");
}
