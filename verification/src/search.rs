//! Full-text query escaping and the classification facet query.
use vstd::prelude::*;
use crate::fts_query::SearchPlan;
use crate::text::{
    append_str, byte_len, byte_len_exec, chars_of, eq_chars, replace_all_exec, replace_all_spec,
    string_from_chars,
};

verus! {

/// A term as an FTS5 phrase: quoted, with its own double quotes doubled
/// unless it is shorter than three bytes.
pub open spec fn escape_fts_query_spec(term: Seq<char>) -> Seq<char> {
    if byte_len(term) < 3 {
        "\""@ + term + "\""@
    } else {
        "\""@ + replace_all_spec(term, "\""@, "\"\""@) + "\""@
    }
}

/// Quotes a search term for an FTS5 MATCH.
pub fn escape_fts_query(term: &str) -> (r: String)
    ensures
        r@ == escape_fts_query_spec(term@),
{
    let t = chars_of(term);
    let mut out = chars_of("\"");
    if byte_len_exec(&t) < 3 {
        append_str(&mut out, term);
    } else {
        proof {
            reveal_strlit("\"");
        }
        let q = chars_of("\"");
        let qq = chars_of("\"\"");
        let e = replace_all_exec(&t, &q, &qq);
        crate::text::append(&mut out, &e);
    }
    append_str(&mut out, "\"");
    string_from_chars(&out)
}

/// The number of documents under one classification node.
#[derive(Clone, Debug)]
pub struct FacetCount {
    pub scheme_code: String,
    pub notation: String,
    pub pref_label: String,
    pub count: i64,
}

pub open spec fn facet_base() -> Seq<char> {
    "SELECT cs.code, cn.notation, cn.pref_label, COUNT(dc.document_id) as cnt\n         FROM document_classifications dc\n         INNER JOIN classification_nodes cn ON dc.node_id = cn.id\n         INNER JOIN classification_schemes cs ON cn.scheme_id = cs.id\n         INNER JOIN documents d ON dc.document_id = d.id\n         WHERE cs.enabled = 1"@
}

pub open spec fn facet_project_filter() -> Seq<char> {
    " AND d.id IN (SELECT document_id FROM project_documents WHERE project_id = ?1)"@
}

pub open spec fn facet_tail() -> Seq<char> {
    " GROUP BY cs.code, cn.notation, cn.pref_label ORDER BY cnt DESC, cn.notation ASC"@
}

/// The search filter of a plan, its value bound as `param`.
pub open spec fn facet_search_filter(plan: SearchPlan, param: Seq<char>) -> Seq<char> {
    match plan {
        SearchPlan::FtsMatch(_) => " AND d.id IN (SELECT rowid FROM documents_fts WHERE documents_fts MATCH "@
            + param + ")"@,
        SearchPlan::BigramMatch(_) => " AND d.id IN (SELECT rowid FROM documents_bigram_fts WHERE documents_bigram_fts MATCH "@
            + param + ")"@,
        SearchPlan::ChoseongMatch(_) => " AND d.id IN (SELECT rowid FROM documents_choseong_fts WHERE documents_choseong_fts MATCH "@
            + param + ")"@,
        SearchPlan::Like(_) => " AND (d.title LIKE "@ + param
            + " ESCAPE '\\'\n                       OR d.authors LIKE "@ + param
            + " ESCAPE '\\'\n                       OR d.journal LIKE "@ + param
            + " ESCAPE '\\'\n                       OR d.abstract LIKE "@ + param
            + " ESCAPE '\\'\n                       OR d.keywords LIKE "@ + param + " ESCAPE '\\')"@,
    }
}

/// The facet query: the project filter binds `?1`, the search filter the
/// next parameter.
pub open spec fn facet_query_spec(has_project: bool, plan: Option<SearchPlan>) -> Seq<char> {
    let param = if has_project {
        "?2"@
    } else {
        "?1"@
    };
    facet_base() + (if has_project {
        facet_project_filter()
    } else {
        Seq::empty()
    }) + (match plan {
        Some(p) => facet_search_filter(p, param),
        None => Seq::empty(),
    }) + facet_tail()
}

fn search_filter(out: &mut Vec<char>, plan: &SearchPlan, param: &str)
    ensures
        final(out)@ == old(out)@ + facet_search_filter(*plan, param@),
{
    match plan {
        SearchPlan::FtsMatch(_) => {
            append_str(
                out,
                " AND d.id IN (SELECT rowid FROM documents_fts WHERE documents_fts MATCH ",
            );
            append_str(out, param);
            append_str(out, ")");
        },
        SearchPlan::BigramMatch(_) => {
            append_str(
                out,
                " AND d.id IN (SELECT rowid FROM documents_bigram_fts WHERE documents_bigram_fts MATCH ",
            );
            append_str(out, param);
            append_str(out, ")");
        },
        SearchPlan::ChoseongMatch(_) => {
            append_str(
                out,
                " AND d.id IN (SELECT rowid FROM documents_choseong_fts WHERE documents_choseong_fts MATCH ",
            );
            append_str(out, param);
            append_str(out, ")");
        },
        SearchPlan::Like(_) => {
            append_str(out, " AND (d.title LIKE ");
            append_str(out, param);
            append_str(out, " ESCAPE '\\'\n                       OR d.authors LIKE ");
            append_str(out, param);
            append_str(out, " ESCAPE '\\'\n                       OR d.journal LIKE ");
            append_str(out, param);
            append_str(out, " ESCAPE '\\'\n                       OR d.abstract LIKE ");
            append_str(out, param);
            append_str(out, " ESCAPE '\\'\n                       OR d.keywords LIKE ");
            append_str(out, param);
            append_str(out, " ESCAPE '\\')");
        },
    }
    assert(out@ =~= old(out)@ + facet_search_filter(*plan, param@));
}

/// The SQL counting documents per classification node, optionally within a
/// project and matching a search plan.
pub fn build_facet_query(has_project: bool, search_plan: Option<&SearchPlan>) -> (r: String)
    ensures
        r@ == facet_query_spec(
            has_project,
            match search_plan {
                Some(p) => Some(*p),
                None => None,
            },
        ),
{
    let mut sql = chars_of(
        "SELECT cs.code, cn.notation, cn.pref_label, COUNT(dc.document_id) as cnt\n         FROM document_classifications dc\n         INNER JOIN classification_nodes cn ON dc.node_id = cn.id\n         INNER JOIN classification_schemes cs ON cn.scheme_id = cs.id\n         INNER JOIN documents d ON dc.document_id = d.id\n         WHERE cs.enabled = 1",
    );
    let ghost base = sql@;
    if has_project {
        append_str(
            &mut sql,
            " AND d.id IN (SELECT document_id FROM project_documents WHERE project_id = ?1)",
        );
    }
    let ghost with_project = sql@;
    assert(with_project =~= base + (if has_project {
        facet_project_filter()
    } else {
        Seq::empty()
    }));
    match search_plan {
        Some(plan) => {
            let param = if has_project {
                "?2"
            } else {
                "?1"
            };
            search_filter(&mut sql, plan, param);
        },
        None => {},
    }
    let ghost with_search = sql@;
    append_str(
        &mut sql,
        " GROUP BY cs.code, cn.notation, cn.pref_label ORDER BY cnt DESC, cn.notation ASC",
    );
    assert(sql@ =~= facet_query_spec(
        has_project,
        match search_plan {
            Some(p) => Some(*p),
            None => None,
        },
    ));
    string_from_chars(&sql)
}

/// The count of the first facet with that notation.
pub open spec fn facet_count_from(fs: Seq<FacetCount>, notation: Seq<char>, i: int) -> Option<i64>
    decreases fs.len() - i,
{
    if i < 0 || i >= fs.len() {
        None
    } else if fs[i].notation@ == notation {
        Some(fs[i].count)
    } else {
        facet_count_from(fs, notation, i + 1)
    }
}

/// The document count shown next to a classification node.
pub fn get_facet_count(facets: &[FacetCount], notation: &str) -> (r: Option<i64>)
    ensures
        r == facet_count_from(facets@, notation@, 0),
{
    let n = chars_of(notation);
    let mut i: usize = 0;
    while i < facets.len()
        invariant
            i <= facets.len(),
            n@ == notation@,
            facet_count_from(facets@, notation@, 0) == facet_count_from(facets@, notation@, i as int),
        decreases facets.len() - i,
    {
        if eq_chars(&chars_of(facets[i].notation.as_str()), &n) {
            return Some(facets[i].count);
        }
        i += 1;
    }
    None
}

} // verus!
