//! Verified core of a bibliography manager: PDF metadata heuristics,
//! search-query planning, export formats and classification scoring.
pub mod text;
pub mod fts_query;
pub mod lexicon;
pub mod authors;
pub mod heuristic;
pub mod metadata;
pub mod number;
pub mod matching;
pub mod journal;
pub mod identifiers;
pub mod pipeline;
pub mod documents;
pub mod creators;
pub mod export;
pub mod dialog;
pub mod scoring;
pub mod criteria;
pub mod search;
pub mod sidebar;
pub mod detail;
pub mod storage;
pub mod okular;
pub mod dragdrop;
pub mod merge;
pub mod theme;
pub mod settings;
pub mod settings_keys;
pub mod records;
pub mod ranking;
pub mod sioyek;
pub mod queue;
pub mod migrations;
pub mod import;
pub mod note_section;
pub mod settings_lines;
pub mod series_grouping;
pub mod outline;
pub mod document_list;
