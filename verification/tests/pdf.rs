use libran::authors::{
    guess_authors, split_and_in_segment, strip_author_from_title, strip_trailing_name_from_text,
};
use libran::heuristic::guess_title;
use libran::identifiers::{
    first_pages, identifiers_from_matches, is_standalone_arxiv_id, is_valid_arxiv_new_scheme,
    search_academic_identifiers,
};
use libran::journal::{
    clean_journal_name, extract_journal_and_year, extract_year, has_year_pattern,
    journal_name_before_noise, year_from_line_excluding_doi, year_from_matches,
};
use libran::metadata::{is_plausible_metadata, is_plausible_title, parse_metadata_authors};
use libran::okular::{okular_xml_name, parse_page_number_from_xml, reading_status_for};
use libran::pipeline::{
    extract_arxiv_from_filename, extract_title_from_filename, metadata_from_info, process_file,
    MetadataSource, RawMetadata,
};

// ── authors ──

fn pieces(s: &str) -> Vec<String> {
    split_and_in_segment(&s.chars().collect())
        .into_iter()
        .map(|p| p.into_iter().collect())
        .collect()
}

#[test]
fn and_split_takes_offsets_from_the_lowercased_text() {
    assert_eq!(pieces(" Alice Smith AND Bob Jones "), vec!["Alice Smith", "Bob Jones"]);
    assert_eq!(pieces("Alice Smith"), vec!["Alice Smith"]);
    assert_eq!(pieces("  "), Vec::<String>::new());
    // Lowercasing 'İ' adds a byte, so the offsets found in the lowercased
    // text fall one byte further into the original.
    assert_eq!(pieces("İvan and Bob"), vec!["İvan", "ob"]);
}

#[test]
fn test_strip_author_from_title_senior_member() {
    let title = "Some Paper Title John Smith, Senior Member , IEEE";
    let result = strip_author_from_title(title);
    assert_eq!(result, "Some Paper Title");
}

#[test]
fn test_strip_author_no_author() {
    let title = "A Tutorial on Spectral Clustering";
    let result = strip_author_from_title(title);
    assert_eq!(result, "A Tutorial on Spectral Clustering");
}

#[test]
fn test_guess_authors_jumbled_text() {
    let text = "A Tutorial on Spectral Clustering\n\nMax Planck Institute for Biological Cybernetics\n\nUlrike von Luxburg\n\nAbstract\n\nIn recent years...\n";
    let authors = guess_authors(text);
    assert!(!authors.is_empty());
    assert!(authors[0].contains("Ulrike") || authors[0].contains("Luxburg"));
}

#[test]
fn test_guess_authors_with_em_dash_abstract() {
    let text = "IEEE TRANSACTIONS ON PATTERN ANALYSIS AND MACHINE INTELLIGENCE, VOL. 26, NO. 9, SEPTEMBER 2004 1243\n\nDistance-Preserving Projection of High-Dimensional Data for Nonlinear Dimensionality Reduction Li Yang,\n\nSenior Member , IEEE\n\nAbstract —A distance-preserving method is presented to map high-dimensional data.\n";
    let authors = guess_authors(text);
    assert!(!authors.is_empty());
    assert!(authors.iter().any(|a| a.contains("Li Yang") || a.contains("Yang")));
}

#[test]
fn test_guess_authors_iop_with_nbsp_and_noise() {
    let text = "Home Search Collections\nA short guide to pure point diffraction in cut-and-project sets\n\n16, 2345,,, Christoph\u{a0}Richard and Nicolae\u{a0}Strungaru\n\n1 Department für Mathematik, Friedrich-Alexander-Universität Erlangen-Nürnberg\n\nAbstract\nWe briefly review the diffraction of quasicrystals.\n";
    let authors = guess_authors(text);
    assert!(
        authors.iter().any(|a| a.contains("Christoph Richard") || a.contains("Richard")),
        "should find Christoph Richard: {authors:?}"
    );
    assert!(
        authors.iter().any(|a| a.contains("Nicolae Strungaru") || a.contains("Strungaru")),
        "should find Nicolae Strungaru: {authors:?}"
    );
}

#[test]
fn test_guess_authors_no_abstract_marker_with_and_pattern() {
    let text = "Some Journal Title\nA Great Paper Title Here\nChristoph Richard and Nicolae Strungaru\n1 Department of Math, Some University\nE-mail: foo@bar.edu\nReceived 27 June 2016\n1. Introduction\nLorem ipsum dolor sit amet.\n";
    let authors = guess_authors(text);
    assert!(
        !authors.is_empty(),
        "should find authors without abstract marker: {authors:?}"
    );
    assert!(authors.iter().any(|a| a.contains("Richard") || a.contains("Strungaru")));
}

#[test]
fn test_guess_authors_comma_separated_with_and_and_citation() {
    let text = "Lattice Green's Function. Introduction\nShigetoshi Katsura, Tohru Morita, Sakari Inawashiro, Tsuyoshi Horiguchi, and Yoshihiko Abe Citation: J. Math. Phys. 12, \nAdditional information on J. Math. Phys.\n1 INTRODUCTION  This year crystallographers\n";
    let authors = guess_authors(text);
    assert!(
        !authors.is_empty(),
        "should find authors from comma-separated list with 'and': {authors:?}"
    );
    assert!(authors.iter().any(|a| a.contains("Katsura") || a.contains("Morita")));
}

#[test]
fn strip_trailing_name_keeps_plain_text() {
    assert_eq!(strip_trailing_name_from_text(""), None);
}

// ── title ──

#[test]
fn test_guess_title_longest_line() {
    let text = "Short\nThis is a much longer title that should be selected as the paper title\nNext line\n";
    let result = guess_title(text);
    assert!(result.is_some());
    assert!(result.unwrap().contains("much longer title"));
}

#[test]
fn test_guess_title_empty() {
    let result = guess_title("");
    assert!(result.is_none());
}

#[test]
fn guess_title_skips_lines_ending_with_period() {
    let text = "Short title here\nThis is a very long sentence that ends with a period.\n";
    assert_eq!(guess_title(text), Some("Short title here".to_string()));
}

// ── journal ──

#[test]
fn test_extract_journal_from_ieee_header() {
    let text = "IEEE TRANSACTIONS ON PATTERN ANALYSIS AND MACHINE INTELLIGENCE, VOL. 26, NO. 9, SEPTEMBER 2004 1243\n\nDistance-Preserving Projection...\n";
    let (journal, year) = extract_journal_and_year(text);
    assert_eq!(
        journal.as_deref(),
        Some("IEEE TRANSACTIONS ON PATTERN ANALYSIS AND MACHINE INTELLIGENCE")
    );
    assert_eq!(year, Some(2004));
}

#[test]
fn test_extract_journal_from_lecture_notes() {
    let text = "Lecture Notes in Computer Science, vol. 1234, 2007\nSome Title\n";
    let (journal, year) = extract_journal_and_year(text);
    assert!(journal.is_some());
    assert_eq!(year, Some(2007));
}

#[test]
fn test_extract_year_from_text() {
    let text = "Some conference proceedings, 2015\nPaper title here\n";
    let (_journal, year) = extract_journal_and_year(text);
    assert_eq!(year, Some(2015));
}

#[test]
fn test_clean_journal_name_strips_volume_null() {
    let cleaned = clean_journal_name("Discrete Math. Algorithm. Appl. 2016.08:null-null");
    assert_eq!(cleaned, "Discrete Math. Algorithm. Appl.");
}

#[test]
fn test_clean_journal_name_strips_volume_pages_doi() {
    let cleaned = clean_journal_name(
        "Linear Algebra and its Applications, 439 (2013) 3038–3043. 10.1016/j.laa.2013.08.039",
    );
    assert_eq!(cleaned, "Linear Algebra and its Applications");
}

#[test]
fn test_extract_year_skips_download_header() {
    let text = "Downloaded 16 June 2016\nSome Title\nPublished in Journal, 1993\n";
    let (_journal, year) = extract_journal_and_year(text);
    assert_eq!(year, Some(1993));
}

#[test]
fn test_extract_journal_discrete_math() {
    let text = "Discrete Math. Algorithm. Appl. 2016.08:null-null\nSome title\n";
    let (journal, _year) = extract_journal_and_year(text);
    assert_eq!(journal.as_deref(), Some("Discrete Math. Algorithm. Appl."));
}

#[test]
fn test_extract_journal_linear_algebra() {
    let text = "Linear Algebra and its Applications, 439 (2013) 3038–3043. 10.1016/j.laa.2013.08.039\nSome title\n";
    let (journal, year) = extract_journal_and_year(text);
    assert_eq!(journal.as_deref(), Some("Linear Algebra and its Applications"));
    assert_eq!(year, Some(2013));
}

#[test]
fn year_ignores_digits_inside_a_doi() {
    assert_eq!(year_from_line_excluding_doi("doi:10.1016/j.laa.2013.08.039"), None);
    assert!(has_year_pattern("Received 1999"));
    assert!(!has_year_pattern("no year here"));
}

#[test]
fn year_from_given_matches() {
    // One match whose group 1 covers bytes 4..8 of the line.
    let caps = vec![vec![Some((4, 8)), Some((4, 8))]];
    assert_eq!(year_from_matches("in (19x7)", &caps), None);
    assert_eq!(year_from_matches("see 1987 ok", &caps), Some(1987));
    assert_eq!(year_from_matches("see 1987 ok", &Vec::new()), None);
}

#[test]
fn journal_name_cut_at_given_match() {
    let caps = vec![vec![Some((7, 12))]];
    assert_eq!(journal_name_before_noise("Nature, 2001", &caps), "Nature");
    assert_eq!(journal_name_before_noise("Nature,,", &Vec::new()), "Nature");
}

#[test]
fn extract_year_prefers_lines_with_a_doi() {
    let text = "Printed 1999\nJournal of Things doi 2004\n";
    assert_eq!(extract_year(text), Some(2004));
}

// ── metadata ──

#[test]
fn test_is_plausible_title_rejects_untitled() {
    assert!(!is_plausible_title("untitled"));
    assert!(!is_plausible_title("Untitled"));
    assert!(!is_plausible_title(""));
    assert!(!is_plausible_title("   "));
}

#[test]
fn test_is_plausible_title_rejects_doi() {
    assert!(!is_plausible_title("doi:10.1016/j.socnet.2004.11.009"));
    assert!(!is_plausible_title("DOI:10.1016/j.socnet.2004.11.009"));
}

#[test]
fn test_is_plausible_title_accepts_real() {
    assert!(is_plausible_title("A Real Paper Title"));
}

#[test]
fn test_is_plausible_metadata_rejects_null_bytes() {
    assert!(!is_plausible_metadata("\0D\0e\0s\0c\0o\0n\0o\0c\0i\0d\0o"));
}

#[test]
fn test_is_plausible_metadata_rejects_tabs() {
    assert!(!is_plausible_metadata(
        "Subject collections\tArticles on similar topics"
    ));
}

#[test]
fn test_is_plausible_metadata_rejects_null_pattern() {
    assert!(!is_plausible_metadata(
        "Discrete Math. Algorithm. Appl. 2016.08:null-null"
    ));
}

#[test]
fn test_is_plausible_metadata_rejects_doi_in_journal() {
    assert!(!is_plausible_metadata(
        "Linear Algebra and its Applications, 439 (2013) 3038–3043. 10.1016/j.laa.2013.08.039"
    ));
}

#[test]
fn test_is_plausible_metadata_accepts_normal() {
    assert!(is_plausible_metadata("Discrete Mathematics"));
}

#[test]
fn metadata_authors_split_on_semicolons_and_and() {
    assert_eq!(parse_metadata_authors("A. Smith; B. Jones"), vec!["A. Smith", "B. Jones"]);
    assert_eq!(parse_metadata_authors("Alice Smith and Bob Jones"), vec!["Alice Smith", "Bob Jones"]);
    assert_eq!(parse_metadata_authors("  "), Vec::<String>::new());
    assert_eq!(parse_metadata_authors("Smith, J."), vec!["Smith, J."]);
}

// ── identifiers ──

#[test]
fn test_doi_extraction() {
    let text = "This work is published at doi:10.1000/xyz123 and referenced elsewhere.";
    let ids = search_academic_identifiers(text);
    assert!(ids.doi.is_some());
    assert!(ids.doi.as_ref().unwrap().contains("10.1000/xyz123"));
}

#[test]
fn test_doi_with_punctuation_stripped() {
    let text = "See 10.1038/nature12373. for details.";
    let ids = search_academic_identifiers(text);
    assert!(ids.doi.is_some());
    let doi = ids.doi.unwrap();
    assert!(!doi.ends_with('.'));
}

#[test]
fn test_arxiv_new_scheme() {
    let text = "arXiv:2301.00123v2 was submitted last week.";
    let ids = search_academic_identifiers(text);
    assert!(ids.arxiv_id.is_some());
    assert_eq!(ids.arxiv_id.as_ref().unwrap(), "2301.00123v2");
}

#[test]
fn test_arxiv_old_scheme() {
    let text = "Preprint hep-th/9901001 is available.";
    let ids = search_academic_identifiers(text);
    assert!(ids.arxiv_id.is_some());
    assert_eq!(ids.arxiv_id.as_ref().unwrap(), "hep-th/9901001");
}

#[test]
fn test_no_identifiers() {
    let text = "This is a plain text without any identifiers.";
    let ids = search_academic_identifiers(text);
    assert!(ids.doi.is_none());
    assert!(ids.arxiv_id.is_none());
}

#[test]
fn test_arxiv_not_matched_inside_doi_suffix() {
    let text = "See doi:10.1098/rspa.2011.0680 for details.";
    let ids = search_academic_identifiers(text);
    assert!(
        ids.arxiv_id.is_none(),
        "should not extract arXiv from DOI suffix: {:?}",
        ids.arxiv_id
    );
    assert!(ids.doi.is_some());
}

#[test]
fn test_arxiv_not_matched_inside_doi_suffix_invalid_month() {
    let text = "doi:10.1006/jcta.2000.3094 is the reference.";
    let ids = search_academic_identifiers(text);
    assert!(
        ids.arxiv_id.is_none(),
        "should not extract arXiv from DOI suffix: {:?}",
        ids.arxiv_id
    );
}

#[test]
fn test_arxiv_new_scheme_valid_month() {
    let text = "arXiv:0711.0189v1 [cs.DS] 1 Nov 2007";
    let ids = search_academic_identifiers(text);
    assert!(ids.arxiv_id.is_some());
    assert_eq!(ids.arxiv_id.as_ref().unwrap(), "0711.0189v1");
}

#[test]
fn test_arxiv_new_scheme_invalid_month_rejected() {
    let text = "Reference 2099.0099 here.";
    let ids = search_academic_identifiers(text);
    assert!(
        ids.arxiv_id.is_none(),
        "month 00 should be rejected: {:?}",
        ids.arxiv_id
    );
}

#[test]
fn test_identifier_search_limited_to_first_pages() {
    let text = "page one text\n\x0cpage two text\n\x0cdoi:10.1234/only.on.page.three";
    let ids = search_academic_identifiers(text);
    assert!(
        ids.doi.is_none(),
        "should not search past first 2 pages: {:?}",
        ids.doi
    );
}

#[test]
fn arxiv_new_scheme_validation() {
    assert!(is_valid_arxiv_new_scheme("0711.0189v1"));
    assert!(is_valid_arxiv_new_scheme("9112.0001"));
    assert!(!is_valid_arxiv_new_scheme("2099.0099"));
    assert!(!is_valid_arxiv_new_scheme("4501.0001"));
    assert!(!is_valid_arxiv_new_scheme("ab01.0001"));
}

#[test]
fn standalone_arxiv_positions() {
    assert!(is_standalone_arxiv_id("2301.00123", 0));
    assert!(is_standalone_arxiv_id("arXiv:2301.00123", 6));
    assert!(!is_standalone_arxiv_id("pa.2011.0680", 3));
    assert!(!is_standalone_arxiv_id("x2011.0680", 1));
    assert!(is_standalone_arxiv_id("(2011.0680", 1));
}

#[test]
fn first_pages_keeps_form_feeds_between_pages() {
    assert_eq!(first_pages("a\x0cb\x0cc", 2), "a\x0cb");
    assert_eq!(first_pages("a", 2), "a");
}

#[test]
fn identifiers_from_given_matches() {
    let scope = "doi 10.1/ABC. x";
    let dois = vec![vec![Some((4, 13))]];
    let ids = identifiers_from_matches(scope, &dois, &Vec::new());
    assert_eq!(ids.doi.as_deref(), Some("10.1/abc"));
    assert_eq!(ids.arxiv_id, None);
}

// ── okular ──

#[test]
fn test_parse_page_number_from_xml() {
    let xml1 = r#"<?xml version="1.0" encoding="utf-8"?>
<!DOCTYPE documentInfo>
<documentInfo url="/path/to/doc.pdf">
 <generalInfo>
  <history>
   <current viewport="13;C2:0.5:0.353297:1"/>
  </history>
 </generalInfo>
</documentInfo>"#;
    assert_eq!(parse_page_number_from_xml(xml1), Some(13));

    let xml2 = r#" <oldPage viewport='45;C2:0.5:1'/> "#;
    assert_eq!(parse_page_number_from_xml(xml2), Some(45));

    let xml3 = r#" <current viewport="invalid;"/> "#;
    assert_eq!(parse_page_number_from_xml(xml3), None);
}

#[test]
fn okular_key_at_end_reads_nothing() {
    assert_eq!(parse_page_number_from_xml("oldPage viewport='3;' current viewport="), None);
}

#[test]
fn okular_names_and_status() {
    assert_eq!(okular_xml_name(1048576, "my_doc.pdf"), "1048576.my_doc.pdf.xml");
    assert_eq!(reading_status_for(100), "read");
    assert_eq!(reading_status_for(99), "reading");
}

// ── one file ──

#[test]
fn title_from_file_stem() {
    assert_eq!(
        extract_title_from_filename("deep_learning-review  2020"),
        Some("deep learning review 2020".to_string())
    );
    assert_eq!(extract_title_from_filename("__-"), None);
}

#[test]
fn arxiv_from_file_name() {
    assert_eq!(extract_arxiv_from_filename("2301.00123v2.pdf"), Some("2301.00123v2".to_string()));
    assert_eq!(extract_arxiv_from_filename("paper.pdf"), None);
}

#[test]
fn info_dictionary_filters() {
    let m = metadata_from_info(
        Some("untitled".to_string()),
        Some("Discrete Mathematics".to_string()),
        Some("A. Smith; B. Jones".to_string()),
    );
    assert_eq!(m.title, None);
    assert_eq!(m.journal.as_deref(), Some("Discrete Mathematics"));
    assert_eq!(m.authors, vec!["A. Smith", "B. Jones"]);
    assert_eq!(m.source, MetadataSource::PdfExtract);
}

#[test]
fn process_file_uses_identifiers_and_file_name() {
    let text = "A Long Enough Paper Title For Testing\nAlice Smith and Bob Jones\ndoi:10.1000/xyz123\n";
    let m = process_file(None, Some(text.to_string()), Some("paper.pdf".to_string()), Some("paper".to_string()));
    assert_eq!(m.doi.as_deref(), Some("10.1000/xyz123"));
    // A paper with an identifier keeps no guessed title: the file stem is used.
    assert_eq!(m.title.as_deref(), Some("paper"));
    assert!(m.authors.is_empty());
    assert_eq!(m.body_text.as_deref(), Some(text));

    let m2 = process_file(None, None, Some("2301.00123.pdf".to_string()), Some("my_paper".to_string()));
    assert_eq!(m2.arxiv_id, None);
    assert_eq!(m2.title.as_deref(), Some("my paper"));
}

#[test]
fn process_file_guesses_without_identifiers() {
    let text = "Short\nThis is a much longer title that should be selected as the paper title\nNext line\n";
    let meta = RawMetadata {
        title: None,
        authors: vec!["Given Author".to_string()],
        journal: None,
        pub_year: Some(1999),
        doi: None,
        arxiv_id: None,
        abstract_text: None,
        keywords: Vec::new(),
        source: MetadataSource::Manual,
        body_text: None,
    };
    let m = process_file(Some(meta), Some(text.to_string()), None, None);
    assert!(m.title.unwrap().contains("much longer title"));
    assert_eq!(m.authors, vec!["Given Author"]);
    assert_eq!(m.pub_year, Some(1999));
    assert_eq!(m.source, MetadataSource::PdfExtract);
}
