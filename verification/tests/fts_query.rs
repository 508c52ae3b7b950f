use libran::fts_query::{
    bigrams_of_normalized, choseong_bigrams_of_normalized, search_plan_for_normalized,
    bigrams_cjk, build_search_plan, choseong_bigrams_cjk, decompose_choseong, escape_like,
    has_cjk, is_choseong_query, normalize_nfc, SearchPlan,
};
use unicode_normalization::UnicodeNormalization;

#[test]
fn test_2char_cjk_routed_to_bigram() {
    let q = build_search_plan("미분");
    assert_eq!(q, SearchPlan::BigramMatch("\"미분\"".to_string()));
}

#[test]
fn test_1char_cjk_routed_to_like() {
    let q = build_search_plan("미");
    assert_eq!(q, SearchPlan::Like("미".to_string()));
}

#[test]
fn test_3char_cjk_uses_fts_match() {
    let q = build_search_plan("미분방");
    assert_eq!(q, SearchPlan::FtsMatch("\"미분방\"".to_string()));
}

#[test]
fn test_2char_latin_routed_to_like() {
    assert_eq!(build_search_plan("ab"), SearchPlan::Like("ab".to_string()));
}

#[test]
fn test_1char_latin_routed_to_like() {
    assert_eq!(build_search_plan("a"), SearchPlan::Like("a".to_string()));
}

#[test]
fn test_3char_latin_uses_fts_match() {
    assert_eq!(
        build_search_plan("abc"),
        SearchPlan::FtsMatch("\"abc\"".to_string())
    );
}

#[test]
fn test_embedded_double_quote_escaped() {
    let q = build_search_plan("ab\"cd");
    assert_eq!(q, SearchPlan::FtsMatch("\"ab\"\"cd\"".to_string()));
}

#[test]
fn test_empty_string_routed_to_like() {
    assert_eq!(build_search_plan(""), SearchPlan::Like(String::new()));
}

#[test]
fn test_mixed_cjk_latin_2char_routed_to_bigram() {
    let q = build_search_plan("a미");
    assert!(matches!(q, SearchPlan::BigramMatch(_)));
}

#[test]
fn test_choseong_2char_routed_to_choseong_match() {
    let q = build_search_plan("ㅁㅂ");
    assert!(matches!(q, SearchPlan::ChoseongMatch(_)));
}

#[test]
fn test_choseong_3char_routed_to_choseong_match() {
    let q = build_search_plan("ㅁㅂㅈ");
    assert!(matches!(q, SearchPlan::ChoseongMatch(_)));
}

#[test]
fn test_choseong_1char_routed_to_like() {
    let q = build_search_plan("ㅁ");
    assert_eq!(q, SearchPlan::Like("ㅁ".to_string()));
}

#[test]
fn test_non_choseong_not_routed_to_choseong_match() {
    let q = build_search_plan("미분");
    assert!(!matches!(q, SearchPlan::ChoseongMatch(_)));
}

#[test]
fn test_choseong_mixed_with_vowel_not_choseong_query() {
    assert!(!is_choseong_query("ㅁㅏ"));
    assert!(is_choseong_query("ㅁㅂ"));
}

#[test]
fn test_decompose_choseong_basic() {
    assert_eq!(decompose_choseong('미'), Some('ㅁ'));
    assert_eq!(decompose_choseong('분'), Some('ㅂ'));
    assert_eq!(decompose_choseong('방'), Some('ㅂ'));
    assert_eq!(decompose_choseong('정'), Some('ㅈ'));
    assert_eq!(decompose_choseong('식'), Some('ㅅ'));
}

#[test]
fn test_decompose_choseong_non_hangul() {
    assert_eq!(decompose_choseong('A'), None);
    assert_eq!(decompose_choseong('中'), None);
    assert_eq!(decompose_choseong('あ'), None);
}

#[test]
fn test_choseong_bigrams_korean_5chars() {
    assert_eq!(choseong_bigrams_cjk("미분방정식"), "ㅁㅂ ㅂㅂ ㅂㅈ ㅈㅅ");
}

#[test]
fn test_choseong_bigrams_korean_2chars() {
    assert_eq!(choseong_bigrams_cjk("미분"), "ㅁㅂ");
}

#[test]
fn test_choseong_bigrams_korean_1char_empty() {
    assert_eq!(choseong_bigrams_cjk("미"), "");
}

#[test]
fn test_choseong_bigrams_empty_string() {
    assert_eq!(choseong_bigrams_cjk(""), "");
}

#[test]
fn test_choseong_bigrams_mixed_with_latin() {
    assert_eq!(choseong_bigrams_cjk("미분 AB 방정"), "ㅁㅂ ㅂㅈ");
}

#[test]
fn test_choseong_bigrams_non_hangul_cjk_skipped() {
    assert_eq!(choseong_bigrams_cjk("微分方程式"), "");
    assert_eq!(choseong_bigrams_cjk("ひらがな"), "");
}

#[test]
fn test_has_cjk_korean() {
    assert!(has_cjk("미분방정식"));
    assert!(has_cjk("hello 미분"));
}

#[test]
fn test_has_cjk_japanese() {
    assert!(has_cjk("微分方程式"));
    assert!(has_cjk("ひらがな"));
    assert!(has_cjk("カタカナ"));
}

#[test]
fn test_has_cjk_latin_only() {
    assert!(!has_cjk("differential equations"));
    assert!(!has_cjk(""));
}

#[test]
fn test_bigrams_korean_5chars() {
    assert_eq!(bigrams_cjk("미분방정식"), "미분 분방 방정 정식");
}

#[test]
fn test_bigrams_korean_3chars() {
    assert_eq!(bigrams_cjk("편미분"), "편미 미분");
}

#[test]
fn test_bigrams_korean_2chars() {
    assert_eq!(bigrams_cjk("미분"), "미분");
}

#[test]
fn test_bigrams_korean_1char_empty() {
    assert_eq!(bigrams_cjk("미"), "");
}

#[test]
fn test_bigrams_empty_string() {
    assert_eq!(bigrams_cjk(""), "");
}

#[test]
fn test_bigrams_mixed_cjk_latin() {
    assert_eq!(bigrams_cjk("AB 미분"), "미분");
}

#[test]
fn test_bigrams_multiple_cjk_runs() {
    assert_eq!(bigrams_cjk("미분 AB 방정"), "미분 방정");
}

#[test]
fn test_bigrams_nfd_normalized() {
    let nfd: String = "미분".nfd().collect();
    let result = bigrams_cjk(&nfd);
    assert_eq!(result, "미분");
}

#[test]
fn test_nfd_normalized_to_nfc() {
    let nfd: String = "미".nfd().collect();
    let nfc = normalize_nfc(&nfd);
    assert_eq!(nfc, "미");
}

#[test]
fn test_nfc_idempotent() {
    let nfc = "미분방정식";
    assert_eq!(normalize_nfc(nfc), nfc);
}

#[test]
fn test_ascii_unchanged() {
    let s = "hello world";
    assert_eq!(normalize_nfc(s), s);
}

#[test]
fn test_escape_like_percent() {
    assert_eq!(escape_like("50%"), "50\\%");
}

#[test]
fn test_escape_like_underscore() {
    assert_eq!(escape_like("a_b"), "a\\_b");
}

#[test]
fn test_escape_like_backslash() {
    assert_eq!(escape_like("a\\b"), "a\\\\b");
}

#[test]
fn test_escape_like_no_special() {
    assert_eq!(escape_like("미분"), "미분");
}

#[test]
fn choseong_query_plan_is_choseong_bigrams() {
    let q = build_search_plan("ㄱㄴㄷ");
    assert!(matches!(q, SearchPlan::ChoseongMatch(_)));
    assert!(is_choseong_query("ㄱㄴㄷ"));
}

#[test]
fn escape_like_escapes_every_special_character() {
    assert_eq!(escape_like("%_\\x"), "\\%\\_\\\\x");
}

#[test]
fn bigrams_of_normalized_text() {
    assert_eq!(bigrams_of_normalized("한국어 abc 중국"), "한국 국어 중국");
    assert_eq!(bigrams_of_normalized("a"), "");
    assert_eq!(choseong_bigrams_of_normalized("한국"), "ㅎㄱ");
}

#[test]
fn search_plan_for_normalized_matches_build_search_plan() {
    for t in ["한국", "ㅎㄱ", "abc", "ab", "딥러닝"] {
        assert_eq!(
            format!("{:?}", search_plan_for_normalized(t, t)),
            format!("{:?}", build_search_plan(t))
        );
    }
}
