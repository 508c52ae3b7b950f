//! The records of the library database: attachments, notes, projects,
//! series, custom fields, author aliases, and highlights read from a
//! viewer. Storage is the caller's; these are the values it stores.
use vstd::prelude::*;

verus! {

/// A file attached to a document.
#[derive(Clone, Debug)]
pub struct Attachment {
    pub id: Option<i64>,
    pub document_id: i64,
    pub file_path: String,
    pub file_hash: Option<String>,
    pub attachment_type: String,
    pub label: Option<String>,
    pub mime_type: Option<String>,
    pub created_at: Option<String>,
}

/// Another spelling of an author's name.
#[derive(Clone, Debug)]
pub struct AuthorAlias {
    pub id: i64,
    pub alias_name: String,
    pub canonical_author_name: Option<String>,
    pub openalex_id: Option<String>,
    pub created_at: String,
}

/// A user-defined field of a document.
#[derive(Clone, Debug)]
pub struct CustomField {
    pub id: i64,
    pub key: String,
    pub value: String,
}

/// A note on a document.
#[derive(Clone, Debug)]
pub struct Note {
    pub id: Option<i64>,
    pub document_id: i64,
    pub content: String,
    pub note_type: String,
    pub created_at: Option<String>,
    pub updated_at: Option<String>,
}

/// A project that groups documents.
#[derive(Clone, Debug)]
pub struct Project {
    pub id: Option<i64>,
    pub name: String,
    pub description: Option<String>,
}

/// A series of publications, such as the volumes of a book series.
#[derive(Clone, Debug)]
pub struct Series {
    pub id: Option<i64>,
    pub name: String,
    pub publisher: Option<String>,
    pub issn: Option<String>,
}

/// A document's place in a series.
#[derive(Clone, Debug)]
pub struct DocumentSeriesEntry {
    pub document_id: i64,
    pub series_id: i64,
    pub volume: Option<String>,
    pub issue: Option<String>,
    pub sort_order: i64,
}

/// A series proposed by grouping documents, such as by journal.
#[derive(Clone, Debug)]
pub struct SeriesProposal {
    pub name: String,
    pub publisher: Option<String>,
    pub document_ids: Vec<i64>,
}

/// A highlight made in the Sioyek viewer.
#[derive(Clone, Debug)]
pub struct SioyekHighlight {
    pub page: i64,
    pub text: String,
    pub color_type: String,
}

} // verus!
