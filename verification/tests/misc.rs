use libran::creators::{creators_from_authors, creators_to_authors_string, detect_locale, split_name};
use libran::criteria::{
    build_condition, build_where, has_criteria, parse_year_range, JoinMode, SavedSearch,
    SearchCondition, SearchCriteria, SqlValue,
};
use libran::documents::split_authors;
use libran::dragdrop::{normalize_dragged_path, url_decode};
use libran::merge::KnownIdentities;
use libran::number::{format_i64, parse_i64_str};
use libran::search::{build_facet_query, escape_fts_query, get_facet_count, FacetCount};
use libran::sidebar::{
    build_tree_items, count_visible_nodes, SidebarAuthor, SidebarEntry, SidebarSection,
    SidebarState, TreeRow,
};
use libran::storage::{build_library_filename, compute_hash, to_hex, FileStoragePolicy};

// ---------------------------------------------------------------------------
// Creators
// ---------------------------------------------------------------------------

#[test]
fn test_creators_to_authors_string() {
    let authors = "Smith, John; 김철수; Brown, Bob";
    let creators = creators_from_authors(1, Some(authors));
    let round_tripped = creators_to_authors_string(&creators);
    assert_eq!(split_authors(&round_tripped), split_authors(authors));
}

#[test]
fn test_creator_cjk_locale() {
    let creators = creators_from_authors(7, Some("김철수"));
    assert_eq!(creators.len(), 1);
    assert_eq!(creators[0].locale.as_deref(), Some("ko"));
    assert_eq!(creators[0].literal.as_deref(), Some("김철수"));
    assert!(creators[0].family.is_none());
    assert!(creators[0].given.is_none());
}

#[test]
fn test_dual_write() {
    let creators = creators_from_authors(3, Some("Smith, John; Lee, Jane"));
    assert_eq!(creators.len(), 2);
    assert_eq!(creators[0].family.as_deref(), Some("Smith"));
    assert_eq!(creators[0].given.as_deref(), Some("John"));
    assert_eq!(creators[1].family.as_deref(), Some("Lee"));
    assert_eq!(creators[1].given.as_deref(), Some("Jane"));
}

#[test]
fn test_backfill() {
    let creators = creators_from_authors(9, Some("Smith, John; 김철수; Brown, Bob"));
    let split = split_authors("Smith, John; 김철수; Brown, Bob");
    assert_eq!(creators.len(), split.len());
    assert_eq!(creators[0].family.as_deref(), Some("Smith"));
    assert_eq!(creators[0].given.as_deref(), Some("John"));
    assert!(creators[0].locale.is_none());
    assert_eq!(creators[1].locale.as_deref(), Some("ko"));
    assert_eq!(creators[1].literal.as_deref(), Some("김철수"));
    assert_eq!(creators[2].family.as_deref(), Some("Brown"));
    assert_eq!(creators[2].given.as_deref(), Some("Bob"));
}

#[test]
fn creators_carry_document_role_and_order() {
    let creators = creators_from_authors(42, Some("Ada Lovelace; Alan Turing"));
    assert_eq!(creators.len(), 2);
    for (i, c) in creators.iter().enumerate() {
        assert_eq!(c.document_id, 42);
        assert_eq!(c.creator_type, "author");
        assert_eq!(c.order_index, i as i64);
        assert!(c.id.is_none());
    }
    assert_eq!(creators[0].family.as_deref(), Some("Lovelace"));
    assert_eq!(creators[0].given.as_deref(), Some("Ada"));
    assert!(creators_from_authors(1, Some("   ")).is_empty());
    assert!(creators_from_authors(1, None).is_empty());
}

#[test]
fn locale_detection() {
    assert_eq!(detect_locale("김철수"), Some("ko"));
    assert_eq!(detect_locale("やまだ"), Some("ja"));
    assert_eq!(detect_locale("王小明"), Some("zh"));
    assert_eq!(detect_locale("John Smith"), None);
}

#[test]
fn name_splitting() {
    assert_eq!(
        split_name("Smith, John", None),
        (Some("Smith".to_string()), Some("John".to_string()), None)
    );
    assert_eq!(
        split_name("Mary Ann Evans", None),
        (Some("Evans".to_string()), Some("Mary Ann".to_string()), None)
    );
    assert_eq!(split_name("Plato", None), (Some("Plato".to_string()), None, None));
    assert_eq!(split_name("   ", None), (None, None, None));
    assert_eq!(split_name("김철수", Some("ko")), (None, None, Some("김철수".to_string())));
    assert_eq!(
        split_name("김, 철수", Some("ko")),
        (Some("김".to_string()), Some("철수".to_string()), None)
    );
}

// ---------------------------------------------------------------------------
// Saved-search criteria
// ---------------------------------------------------------------------------

fn cond(field: &str, op: &str, value: &str) -> SearchCondition {
    SearchCondition { field: field.to_string(), operator: op.to_string(), value: value.to_string() }
}

#[test]
fn year_ranges() {
    assert_eq!(parse_year_range("2020-2024"), (2020, 2024));
    assert_eq!(parse_year_range(" 2020 - 2024 "), (2020, 2024));
    assert_eq!(parse_year_range("2020"), (2020, 9999));
    assert_eq!(parse_year_range("-2024"), (0, 2024));
    assert_eq!(parse_year_range("abc-xyz"), (0, 9999));
}

#[test]
fn conditions_bind_values() {
    let (sql, p) = build_condition(&cond("tag", "eq", "physics"));
    assert_eq!(sql, "id IN (SELECT document_id FROM tags WHERE tag = ?)");
    assert_eq!(p, vec![SqlValue::Text("physics".to_string())]);

    let (sql, p) = build_condition(&cond("year", "eq", "2023"));
    assert_eq!(sql, "pub_year = ?");
    assert_eq!(p, vec![SqlValue::Integer(2023)]);

    let (sql, p) = build_condition(&cond("year", "eq", "soon"));
    assert_eq!(sql, "pub_year = ?");
    assert_eq!(p, vec![SqlValue::Integer(0)]);

    let (sql, p) = build_condition(&cond("year_range", "between", "2020-2024"));
    assert_eq!(sql, "pub_year BETWEEN ? AND ?");
    assert_eq!(p, vec![SqlValue::Integer(2020), SqlValue::Integer(2024)]);

    let (sql, p) = build_condition(&cond("rating", "gte", "4"));
    assert_eq!(sql, "rating >= ?");
    assert_eq!(p, vec![SqlValue::Integer(4)]);

    let (sql, p) = build_condition(&cond("author", "contains", "Kim"));
    assert_eq!(sql, "authors LIKE ?");
    assert_eq!(p, vec![SqlValue::Text("%Kim%".to_string())]);

    let (sql, _) = build_condition(&cond("journal", "eq", "Nature"));
    assert_eq!(sql, "journal = ?");
}

#[test]
fn where_clause_joins_conditions() {
    let all = SearchCriteria {
        conditions: vec![cond("tag", "eq", "physics"), cond("year", "eq", "2023")],
        join_mode: JoinMode::All,
    };
    let (sql, p) = build_where(&all);
    assert_eq!(sql, "id IN (SELECT document_id FROM tags WHERE tag = ?) AND pub_year = ?");
    assert_eq!(p, vec![SqlValue::Text("physics".to_string()), SqlValue::Integer(2023)]);

    let any = SearchCriteria { join_mode: JoinMode::Any, ..all.clone() };
    let (sql, _) = build_where(&any);
    assert_eq!(sql, "id IN (SELECT document_id FROM tags WHERE tag = ?) OR pub_year = ?");

    let (sql, p) = build_where(&SearchCriteria::default());
    assert_eq!(sql, "");
    assert!(p.is_empty());
}

#[test]
fn saved_search_criteria_presence() {
    let mut s = SavedSearch {
        id: 1,
        name: "n".to_string(),
        fts_query: None,
        filters_json: None,
        created_at: String::new(),
    };
    assert!(!has_criteria(&s));
    s.filters_json = Some("{}".to_string());
    assert!(!has_criteria(&s));
    s.filters_json = Some(String::new());
    assert!(!has_criteria(&s));
    s.filters_json = Some("{\"conditions\":[]}".to_string());
    assert!(has_criteria(&s));
}

// ---------------------------------------------------------------------------
// Search
// ---------------------------------------------------------------------------

#[test]
fn fts_escaping() {
    assert_eq!(escape_fts_query("abc"), "\"abc\"");
    assert_eq!(escape_fts_query("ab\"cd"), "\"ab\"\"cd\"");
    assert_eq!(escape_fts_query("a\""), "\"a\"\"");
    assert_eq!(escape_fts_query(""), "\"\"");
}

#[test]
fn facet_query_shapes() {
    let plain = build_facet_query(false, None);
    assert!(plain.starts_with("SELECT cs.code, cn.notation, cn.pref_label, COUNT(dc.document_id) as cnt"));
    assert!(plain.ends_with(" GROUP BY cs.code, cn.notation, cn.pref_label ORDER BY cnt DESC, cn.notation ASC"));
    assert!(!plain.contains("project_id"));
    let with_project = build_facet_query(true, None);
    assert!(with_project.contains("project_id = ?1"));
}

#[test]
fn facet_count_lookup() {
    let facets = vec![
        FacetCount { scheme_code: "udc".into(), notation: "5".into(), pref_label: "x".into(), count: 3 },
        FacetCount { scheme_code: "udc".into(), notation: "51".into(), pref_label: "y".into(), count: 2 },
        FacetCount { scheme_code: "physh".into(), notation: "5".into(), pref_label: "z".into(), count: 9 },
    ];
    assert_eq!(get_facet_count(&facets, "5"), Some(3));
    assert_eq!(get_facet_count(&facets, "51"), Some(2));
    assert_eq!(get_facet_count(&facets, "6"), None);
}

// ---------------------------------------------------------------------------
// Sidebar
// ---------------------------------------------------------------------------

fn sidebar() -> SidebarState {
    SidebarState {
        projects: vec![],
        active_project_id: None,
        series_grouping_enabled: false,
        series: vec![],
        active_series_id: None,
        authors: vec![],
        active_author: None,
        authors_expanded: false,
        author_search_mode: false,
        author_search_input: String::new(),
        expanded_nodes: vec![],
        facets: vec![],
    }
}

fn entry(id: i64, name: &str, count: i64) -> SidebarEntry {
    SidebarEntry { id: Some(id), name: name.to_string(), count }
}

fn author(name: &str, count: i64) -> SidebarAuthor {
    SidebarAuthor { name: name.to_string(), count, h_index: None }
}

#[test]
fn visible_nodes_minimal() {
    // projects header + placeholder + spacer, UDC header + 10 classes
    assert_eq!(count_visible_nodes(&sidebar()), 14);
    assert_eq!(build_tree_items(&sidebar()).len(), 14);
}

#[test]
fn visible_nodes_with_series_authors_and_expansion() {
    let mut s = sidebar();
    s.projects = vec![entry(1, "A", 3), entry(2, "B", 0)];
    s.series_grouping_enabled = true;
    s.authors = vec![author("Kim", 2), author("Lee", 1), author("Park", 1)];
    s.authors_expanded = true;
    s.expanded_nodes = vec!["5".to_string()];
    // 1+2+1, 1+1+1, 1+3+1, 1+10+6
    assert_eq!(count_visible_nodes(&s), 4 + 3 + 5 + 17);
    assert_eq!(build_tree_items(&s).len(), 4 + 3 + 5 + 17);
}

#[test]
fn visible_nodes_author_search_without_hits() {
    let mut s = sidebar();
    s.authors = vec![author("Kim", 1), author("Lee", 1)];
    s.authors_expanded = true;
    s.author_search_mode = true;
    s.author_search_input = "zz".to_string();
    // header, input line, "no match" line, spacer
    assert_eq!(count_visible_nodes(&s), 3 + 4 + 11);
    assert_eq!(build_tree_items(&s).len(), 3 + 4 + 11);
    s.author_search_input = "LE".to_string();
    // header, input line, one hit, spacer
    assert_eq!(count_visible_nodes(&s), 3 + 4 + 11);
}

#[test]
fn tree_rows_in_order() {
    let mut s = sidebar();
    s.projects = vec![entry(1, "Thesis", 4), entry(2, "Reading", 9)];
    s.active_project_id = Some(2);
    s.authors = vec![author("Kim", 2), author("Lee", 1)];
    s.authors_expanded = true;
    s.active_author = Some("Lee".to_string());
    s.expanded_nodes = vec!["6".to_string()];
    s.facets = vec![FacetCount { scheme_code: "physh".into(), notation: "Quantum".into(), pref_label: "q".into(), count: 5 }];
    let rows = build_tree_items(&s);
    assert_eq!(rows.len(), count_visible_nodes(&s));
    assert_eq!(rows[0], TreeRow::Header(SidebarSection::Projects, false));
    assert_eq!(rows[1], TreeRow::Entry("Thesis".into(), 4, false));
    assert_eq!(rows[2], TreeRow::Entry("Reading".into(), 9, true));
    assert_eq!(rows[3], TreeRow::Blank);
    assert_eq!(rows[4], TreeRow::Header(SidebarSection::Authors, true));
    assert_eq!(rows[5], TreeRow::Author("Kim".into(), 2, false, None));
    assert_eq!(rows[6], TreeRow::Author("Lee".into(), 1, true, None));
    assert_eq!(rows[7], TreeRow::Blank);
    assert_eq!(rows[8], TreeRow::Header(SidebarSection::Udc, false));
    assert_eq!(rows[9], TreeRow::Udc("0".into(), "총류·정보학".into(), false, false, None));
    assert_eq!(rows[15], TreeRow::Udc("6".into(), "응용과학".into(), false, true, None));
    assert_eq!(rows[16], TreeRow::Udc("61".into(), "의학·보건".into(), true, false, None));
    let n = rows.len();
    assert_eq!(rows[n - 6], TreeRow::Blank);
    assert_eq!(rows[n - 5], TreeRow::Header(SidebarSection::Physh, false));
    assert_eq!(rows[n - 1], TreeRow::Physh("Quantum".into(), "양자정보".into(), Some(5)));
    assert_eq!(rows[n - 4], TreeRow::Physh("Condensed".into(), "응축물질".into(), None));
}

#[test]
fn empty_sections_show_hints() {
    let mut s = sidebar();
    s.series_grouping_enabled = true;
    let rows = build_tree_items(&s);
    assert_eq!(rows[1], TreeRow::Hint(SidebarSection::Projects));
    assert_eq!(rows[4], TreeRow::Hint(SidebarSection::Series));
}

// ---------------------------------------------------------------------------
// Storage
// ---------------------------------------------------------------------------

#[test]
fn sha256_of_abc() {
    assert_eq!(
        compute_hash(b"abc"),
        "ba7816bf8f01cfea414140de5dae2223b00361a396177a9cb410ff61f20015ad"
    );
    assert_eq!(
        compute_hash(b""),
        "e3b0c44298fc1c149afbf4c8996fb92427ae41e4649b934ca495991b7852b855"
    );
}

#[test]
fn test_attachment_hash() {
    let h = compute_hash(b"hello world");
    assert_eq!(h.len(), 64);
    assert_eq!(h, "b94d27b9934d3e08a52e52d7da7dabfac484efe37a5380ee9088f7ace2efcde9");
}

#[test]
fn hex_and_names() {
    assert_eq!(to_hex(&[0x00, 0x0f, 0xab, 0xff]), "000fabff");
    assert_eq!(build_library_filename("smith2020", "pdf"), "smith2020.pdf");
    assert_eq!(FileStoragePolicy::CopyToLibrary.as_str(), "복사");
    assert_eq!(FileStoragePolicy::ReferenceOnly.as_str(), "참조");
    assert_eq!(FileStoragePolicy::CopyAndTrash.as_str(), "복사+휴지통");
    assert_eq!(FileStoragePolicy::default(), FileStoragePolicy::CopyToLibrary);
}

// ---------------------------------------------------------------------------
// Drag and drop
// ---------------------------------------------------------------------------

#[test]
fn test_empty_input() {
    assert!(normalize_dragged_path("", None).is_none());
    assert!(normalize_dragged_path("   ", None).is_none());
}

#[test]
fn test_simple_path() {
    assert_eq!(normalize_dragged_path("/tmp/test.pdf", None).as_deref(), Some("/tmp/test.pdf"));
}

#[test]
fn test_quoted_path() {
    assert_eq!(
        normalize_dragged_path("\"/tmp/my file.pdf\"", None).as_deref(),
        Some("/tmp/my file.pdf")
    );
}

#[test]
fn test_escape_space() {
    assert_eq!(
        normalize_dragged_path("/tmp/My\\ Document.pdf", None).as_deref(),
        Some("/tmp/My Document.pdf")
    );
}

#[test]
fn test_single_quotes() {
    assert_eq!(normalize_dragged_path("'/tmp/test.txt'", None).as_deref(), Some("/tmp/test.txt"));
}

#[test]
fn test_file_url() {
    assert_eq!(normalize_dragged_path("file:///tmp/test.pdf", None).as_deref(), Some("/tmp/test.pdf"));
}

#[test]
fn test_url_encoded() {
    assert_eq!(
        normalize_dragged_path("/tmp/My%20Document.pdf", None).as_deref(),
        Some("/tmp/My Document.pdf")
    );
}

#[test]
fn test_newline_stripped() {
    assert_eq!(normalize_dragged_path("/tmp/test.pdf\n", None).as_deref(), Some("/tmp/test.pdf"));
}

#[test]
fn home_is_expanded() {
    assert_eq!(
        normalize_dragged_path("~/papers/a.pdf", Some("/home/kim")).as_deref(),
        Some("/home/kim/papers/a.pdf")
    );
    assert_eq!(
        normalize_dragged_path("~/papers/a.pdf", Some("/home/kim/")).as_deref(),
        Some("/home/kim/papers/a.pdf")
    );
    assert_eq!(normalize_dragged_path("~/a.pdf", None).as_deref(), Some("~/a.pdf"));
}

#[test]
fn percent_decoding() {
    assert_eq!(url_decode("a%20b"), "a b");
    assert_eq!(url_decode("100%"), "100%");
    assert_eq!(url_decode("%zz"), "%zz");
    assert_eq!(url_decode("%4"), "%4");
    assert_eq!(url_decode("%41%42"), "AB");
    assert_eq!(url_decode("%EB%AF%B8.pdf"), "미.pdf");
    assert_eq!(url_decode("/tmp/My%20Document.pdf"), "/tmp/My Document.pdf");
    assert_eq!(url_decode("%FF"), "\u{fffd}");
    assert_eq!(url_decode("한%20글"), "한 글");
}

// ---------------------------------------------------------------------------
// Merging libraries
// ---------------------------------------------------------------------------

fn some(s: &str) -> Option<String> {
    Some(s.to_string())
}

#[test]
fn duplicates_are_skipped() {
    let mut known = KnownIdentities::new();
    assert!(known.accept_if_new(&some("h1"), &some("10.1/x"), &None, &some("smith2020")));
    // same DOI
    assert!(!known.accept_if_new(&some("h2"), &some("10.1/x"), &None, &None));
    // same file hash
    assert!(!known.accept_if_new(&some("h1"), &None, &None, &None));
    // nothing known
    assert!(known.accept_if_new(&None, &None, &None, &None));
    assert!(known.accept_if_new(&some("h3"), &None, &some("2301.00123"), &None));
    assert!(known.is_duplicate(&None, &None, &some("2301.00123"), &None));
    assert!(known.is_duplicate(&None, &None, &None, &some("smith2020")));
    assert!(!known.is_duplicate(&some("h2"), &None, &None, &None));
}

// ---------------------------------------------------------------------------
// Numbers
// ---------------------------------------------------------------------------

#[test]
fn integer_parsing_and_formatting() {
    assert_eq!(parse_i64_str("2023"), Some(2023));
    assert_eq!(parse_i64_str("-17"), Some(-17));
    assert_eq!(parse_i64_str("+5"), Some(5));
    assert_eq!(parse_i64_str(""), None);
    assert_eq!(parse_i64_str("12a"), None);
    assert_eq!(parse_i64_str("-"), None);
    assert_eq!(parse_i64_str("9223372036854775807"), Some(i64::MAX));
    assert_eq!(parse_i64_str("-9223372036854775808"), Some(i64::MIN));
    assert_eq!(parse_i64_str("9223372036854775808"), None);
    assert_eq!(format_i64(-120).iter().collect::<String>(), "-120");
    assert_eq!(format_i64(0).iter().collect::<String>(), "0");
}

// ---------------------------------------------------------------------------
// Rankings
// ---------------------------------------------------------------------------

use libran::documents::merge_author_names;
use libran::dragdrop::join_path;
use libran::ranking::{lex_less, list_authors, propose_series_by_journal};
use libran::sioyek::get_sioyek_db_paths;

fn strings(v: &[&str]) -> Vec<String> {
    v.iter().map(|s| s.to_string()).collect()
}

#[test]
fn authors_ranked_by_count_then_name() {
    let lists = strings(&["Kim, A; Lee, B", "Lee, B; Park, C", "Lee, B and Kim, A", "Choi, D"]);
    let r = list_authors(&lists, 1);
    assert_eq!(
        r,
        vec![
            ("Lee, B".to_string(), 3),
            ("Kim, A".to_string(), 2),
            ("Choi, D".to_string(), 1),
            ("Park, C".to_string(), 1),
        ]
    );
    let r2 = list_authors(&lists, 2);
    assert_eq!(r2, vec![("Lee, B".to_string(), 3), ("Kim, A".to_string(), 2)]);
    assert!(list_authors(&vec![], 0).is_empty());
}

#[test]
fn authors_are_counted_in_nfc() {
    // "é" precomposed and decomposed count as one name
    let lists = vec!["Zoé".to_string(), "Zoe\u{301}".to_string()];
    assert_eq!(list_authors(&lists, 1), vec![("Zoé".to_string(), 2)]);
}

#[test]
fn series_proposals_group_journals() {
    let rows = vec![
        (1, "Nature".to_string()),
        (2, "Science".to_string()),
        (3, "Nature".to_string()),
        (4, "Cell".to_string()),
        (5, "Science".to_string()),
        (6, "Nature".to_string()),
        (7, "Annals".to_string()),
        (8, "Annals".to_string()),
    ];
    let p = propose_series_by_journal(&rows, &strings(&["Science"]));
    let names: Vec<&str> = p.iter().map(|s| s.name.as_str()).collect();
    assert_eq!(names, vec!["Nature", "Annals"]);
    assert_eq!(p[0].document_ids, vec![1, 3, 6]);
    assert_eq!(p[1].document_ids, vec![7, 8]);
    assert!(p.iter().all(|s| s.publisher.is_none()));
    assert!(propose_series_by_journal(&vec![(1, "Solo".to_string())], &vec![]).is_empty());
}

#[test]
fn code_point_order() {
    let c = |s: &str| s.chars().collect::<Vec<char>>();
    assert!(lex_less(&c("Annals"), &c("Nature")));
    assert!(lex_less(&c("Nat"), &c("Nature")));
    assert!(!lex_less(&c("Nature"), &c("Nature")));
    assert!(lex_less(&c("Zeta"), &c("alpha")));
}

#[test]
fn merging_author_names() {
    assert_eq!(
        merge_author_names("Smith, J; Lee, B", "  smith, j ", "Smith, John").as_deref(),
        Some("Smith, John; Lee, B")
    );
    assert_eq!(merge_author_names("Lee, B; Kim, A", "Smith, J", "Smith, John"), None);
    // rewritten with "; " even when no name changes
    assert_eq!(merge_author_names("Lee, B;Kim, A", "x", "y").as_deref(), Some("Lee, B; Kim, A"));
}

#[test]
fn sioyek_paths_and_joins() {
    assert_eq!(
        get_sioyek_db_paths(Some("/home/kim/.local/share/sioyek")),
        Some((
            "/home/kim/.local/share/sioyek/local.db".to_string(),
            "/home/kim/.local/share/sioyek/shared.db".to_string()
        ))
    );
    assert_eq!(get_sioyek_db_paths(None), None);
    let c = |s: &str| s.chars().collect::<Vec<char>>();
    assert_eq!(join_path(&c("/a/"), &c("b")), c("/a/b"));
    assert_eq!(join_path(&c("/a"), &c("/b")), c("/b"));
    assert_eq!(join_path(&c(""), &c("b")), c("b"));
}

