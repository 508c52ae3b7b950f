//! Saved searches and the SQL filter that structured search criteria make.
use vstd::prelude::*;
use crate::number::{parse_i64, parse_i64_spec};
use crate::text::{
    append_str, chars_of, eq_str, join, lemma_chars_deep_view, split_char, split_char_exec,
    string_from_chars, trim, trim_exec,
};

verus! {

/// A saved search: a full-text query and/or structured filters.
#[derive(Clone, Debug)]
pub struct SavedSearch {
    pub id: i64,
    pub name: String,
    pub fts_query: Option<String>,
    pub filters_json: Option<String>,
    pub created_at: String,
}

/// How conditions combine: `All` with AND, `Any` with OR.
#[derive(Clone, Copy, Debug, PartialEq, Eq, Structural)]
pub enum JoinMode {
    All,
    Any,
}

impl Default for JoinMode {
    fn default() -> (r: Self)
        ensures
            r == JoinMode::All,
    {
        JoinMode::All
    }
}

/// One filter: a field, an operator and a value.
#[derive(Clone, Debug)]
pub struct SearchCondition {
    pub field: String,
    pub operator: String,
    pub value: String,
}

/// Structured search criteria.
#[derive(Clone, Debug)]
pub struct SearchCriteria {
    pub conditions: Vec<SearchCondition>,
    pub join_mode: JoinMode,
}

impl Default for SearchCriteria {
    fn default() -> (r: Self)
        ensures
            r.conditions@.len() == 0,
            r.join_mode == JoinMode::All,
    {
        SearchCriteria { conditions: Vec::new(), join_mode: JoinMode::All }
    }
}

/// A value bound to a `?` of a filter.
#[derive(Clone, Debug, PartialEq, Eq)]
pub enum SqlValue {
    Integer(i64),
    Text(String),
}

/// The spec form of a bound value.
pub ghost enum SqlValueView {
    Integer(i64),
    Text(Seq<char>),
}

pub open spec fn value_view(v: SqlValue) -> SqlValueView {
    match v {
        SqlValue::Integer(i) => SqlValueView::Integer(i),
        SqlValue::Text(s) => SqlValueView::Text(s@),
    }
}

pub open spec fn values_view(vs: Seq<SqlValue>) -> Seq<SqlValueView> {
    Seq::new(vs.len(), |i: int| value_view(vs[i]))
}

/// The years of `"start-end"`: each side trimmed and read as an integer,
/// 0 and 9999 where a side is missing or not a number.
pub open spec fn year_range_spec(v: Seq<char>) -> (i64, i64) {
    let parts = split_char(v, '-');
    let start = match parse_i64_spec(trim(parts[0])) {
        Some(y) => y,
        None => 0,
    };
    let end = if parts.len() > 1 {
        match parse_i64_spec(trim(parts[1])) {
            Some(y) => y,
            None => 9999,
        }
    } else {
        9999
    };
    (start, end)
}

/// Splits a `"start-end"` year range.
pub fn parse_year_range(v: &str) -> (r: (i64, i64))
    ensures
        r == year_range_spec(v@),
{
    broadcast use lemma_chars_deep_view;

    let s = chars_of(v);
    let parts = split_char_exec(&s, '-');
    proof {
        crate::text::lemma_split_char_nonempty(s@, '-');
        assert(parts.deep_view()[0] == parts@[0]@);
    }
    let start = match parse_i64(&trim_exec(&parts[0])) {
        Some(y) => y,
        None => 0,
    };
    let end = if parts.len() > 1 {
        assert(parts.deep_view()[1] == parts@[1]@);
        match parse_i64(&trim_exec(&parts[1])) {
            Some(y) => y,
            None => 9999,
        }
    } else {
        9999
    };
    (start, end)
}

pub open spec fn int_or_zero(v: Seq<char>) -> i64 {
    match parse_i64_spec(v) {
        Some(y) => y,
        None => 0,
    }
}

/// The SQL of one condition and the values it binds, by field: tag, year,
/// year range, reading status, rating (`gte`, `lte` or equal), author and
/// journal (`contains` as a LIKE pattern, else equal), classification;
/// any other field matches everything.
pub open spec fn condition_spec(field: Seq<char>, op: Seq<char>, v: Seq<char>) -> (
    Seq<char>,
    Seq<SqlValueView>,
) {
    if field == "tag"@ {
        (
            "id IN (SELECT document_id FROM tags WHERE tag = ?)"@,
            seq![SqlValueView::Text(v)],
        )
    } else if field == "year"@ {
        ("pub_year = ?"@, seq![SqlValueView::Integer(int_or_zero(v))])
    } else if field == "year_range"@ {
        let (a, b) = year_range_spec(v);
        ("pub_year BETWEEN ? AND ?"@, seq![SqlValueView::Integer(a), SqlValueView::Integer(b)])
    } else if field == "reading_status"@ {
        ("reading_status = ?"@, seq![SqlValueView::Text(v)])
    } else if field == "rating"@ {
        let r = int_or_zero(v);
        if op == "gte"@ {
            ("rating >= ?"@, seq![SqlValueView::Integer(r)])
        } else if op == "lte"@ {
            ("rating <= ?"@, seq![SqlValueView::Integer(r)])
        } else {
            ("rating = ?"@, seq![SqlValueView::Integer(r)])
        }
    } else if field == "author"@ {
        if op == "contains"@ {
            ("authors LIKE ?"@, seq![SqlValueView::Text("%"@ + v + "%"@)])
        } else {
            ("authors = ?"@, seq![SqlValueView::Text(v)])
        }
    } else if field == "journal"@ {
        if op == "contains"@ {
            ("journal LIKE ?"@, seq![SqlValueView::Text("%"@ + v + "%"@)])
        } else {
            ("journal = ?"@, seq![SqlValueView::Text(v)])
        }
    } else if field == "classification"@ {
        (
            "id IN (SELECT dc.document_id FROM document_classifications dc INNER JOIN classification_nodes cn ON dc.node_id = cn.id WHERE cn.notation = ?)"@,
            seq![SqlValueView::Text(v)],
        )
    } else {
        ("1=1"@, seq![])
    }
}

fn like_pattern(v: &str) -> (r: String)
    ensures
        r@ == "%"@ + v@ + "%"@,
{
    let mut c = chars_of("%");
    append_str(&mut c, v);
    append_str(&mut c, "%");
    string_from_chars(&c)
}

/// The SQL fragment and bound values of one condition.
pub fn build_condition(condition: &SearchCondition) -> (r: (String, Vec<SqlValue>))
    ensures
        (r.0@, values_view(r.1@)) == condition_spec(
            condition.field@,
            condition.operator@,
            condition.value@,
        ),
{
    let f = chars_of(condition.field.as_str());
    let op = chars_of(condition.operator.as_str());
    let v = condition.value.as_str();
    let r: (String, Vec<SqlValue>) = if eq_str(&f, "tag") {
        (
            "id IN (SELECT document_id FROM tags WHERE tag = ?)".to_string(),
            vec![SqlValue::Text(v.to_string())],
        )
    } else if eq_str(&f, "year") {
        let y = match parse_i64(&chars_of(v)) {
            Some(y) => y,
            None => 0,
        };
        ("pub_year = ?".to_string(), vec![SqlValue::Integer(y)])
    } else if eq_str(&f, "year_range") {
        let (a, b) = parse_year_range(v);
        ("pub_year BETWEEN ? AND ?".to_string(), vec![SqlValue::Integer(a), SqlValue::Integer(b)])
    } else if eq_str(&f, "reading_status") {
        ("reading_status = ?".to_string(), vec![SqlValue::Text(v.to_string())])
    } else if eq_str(&f, "rating") {
        let r = match parse_i64(&chars_of(v)) {
            Some(y) => y,
            None => 0,
        };
        if eq_str(&op, "gte") {
            ("rating >= ?".to_string(), vec![SqlValue::Integer(r)])
        } else if eq_str(&op, "lte") {
            ("rating <= ?".to_string(), vec![SqlValue::Integer(r)])
        } else {
            ("rating = ?".to_string(), vec![SqlValue::Integer(r)])
        }
    } else if eq_str(&f, "author") {
        if eq_str(&op, "contains") {
            ("authors LIKE ?".to_string(), vec![SqlValue::Text(like_pattern(v))])
        } else {
            ("authors = ?".to_string(), vec![SqlValue::Text(v.to_string())])
        }
    } else if eq_str(&f, "journal") {
        if eq_str(&op, "contains") {
            ("journal LIKE ?".to_string(), vec![SqlValue::Text(like_pattern(v))])
        } else {
            ("journal = ?".to_string(), vec![SqlValue::Text(v.to_string())])
        }
    } else if eq_str(&f, "classification") {
        (
            "id IN (SELECT dc.document_id FROM document_classifications dc INNER JOIN classification_nodes cn ON dc.node_id = cn.id WHERE cn.notation = ?)".to_string(),
            vec![SqlValue::Text(v.to_string())],
        )
    } else {
        ("1=1".to_string(), Vec::new())
    };
    assert(values_view(r.1@) =~= condition_spec(
        condition.field@,
        condition.operator@,
        condition.value@,
    ).1);
    r
}

/// The conditions' fragments, and all their values in order.
pub open spec fn conditions_spec(cs: Seq<SearchCondition>) -> (Seq<Seq<char>>, Seq<SqlValueView>)
    decreases cs.len(),
{
    if cs.len() == 0 {
        (seq![], seq![])
    } else {
        let (sqls, vals) = conditions_spec(cs.drop_last());
        let c = cs.last();
        let (sql, v) = condition_spec(c.field@, c.operator@, c.value@);
        (sqls.push(sql), vals + v)
    }
}

pub open spec fn joiner(mode: JoinMode) -> Seq<char> {
    match mode {
        JoinMode::All => " AND "@,
        JoinMode::Any => " OR "@,
    }
}

/// The WHERE clause of the criteria, with its bound values.
pub fn build_where(criteria: &SearchCriteria) -> (r: (String, Vec<SqlValue>))
    ensures
        r.0@ == join(conditions_spec(criteria.conditions@).0, joiner(criteria.join_mode)),
        values_view(r.1@) == conditions_spec(criteria.conditions@).1,
{
    let mut clauses: Vec<Vec<char>> = Vec::new();
    let mut params: Vec<SqlValue> = Vec::new();
    let mut i: usize = 0;
    let ghost cs = criteria.conditions@;
    assert(cs.take(0) =~= Seq::<SearchCondition>::empty());
    assert(clauses.deep_view() =~= Seq::<Seq<char>>::empty());
    assert(values_view(params@) =~= Seq::<SqlValueView>::empty());
    while i < criteria.conditions.len()
        invariant
            i <= criteria.conditions.len(),
            cs == criteria.conditions@,
            clauses.deep_view() == conditions_spec(cs.take(i as int)).0,
            values_view(params@) == conditions_spec(cs.take(i as int)).1,
        decreases criteria.conditions.len() - i,
    {
        assert(cs.take(i + 1).drop_last() =~= cs.take(i as int));
        let (sql, mut p) = build_condition(&criteria.conditions[i]);
        crate::text::push_piece(&mut clauses, chars_of(sql.as_str()));
        let ghost before = params@;
        let ghost added = p@;
        params.append(&mut p);
        assert(values_view(params@) =~= values_view(before) + values_view(added));
        i += 1;
    }
    assert(cs.take(cs.len() as int) =~= cs);
    let j = match criteria.join_mode {
        JoinMode::All => " AND ",
        JoinMode::Any => " OR ",
    };
    let w = crate::text::join_str(&clauses, j);
    (string_from_chars(&w), params)
}

/// Whether a saved search has structured criteria to run: filters that are
/// neither empty nor `{}`.
pub fn has_criteria(search: &SavedSearch) -> (r: bool)
    ensures
        r == (match search.filters_json {
            Some(j) => j@.len() > 0 && j@ != "{}"@,
            None => false,
        }),
{
    match &search.filters_json {
        Some(j) => {
            let c = chars_of(j.as_str());
            c.len() > 0 && !eq_str(&c, "{}")
        },
        None => false,
    }
}

// ---------------------------------------------------------------------------
// Laws
// ---------------------------------------------------------------------------

/// Whether the SQL comparison operator `op`, written between a column value
/// `x` and a bound, holds.
pub open spec fn sql_comparison_holds(op: Seq<char>, x: int, bound: int) -> bool {
    if op == "<="@ {
        x <= bound
    } else if op == ">="@ {
        x >= bound
    } else if op == "="@ {
        x == bound
    } else if op == "<"@ {
        x < bound
    } else if op == ">"@ {
        x > bound
    } else {
        false
    }
}

/// Whether the fragment `sql`, of the form `rating <op> ?` with `bound` bound
/// to its placeholder, selects a document whose rating is `x`.
pub open spec fn rating_fragment_selects(sql: Seq<char>, x: int, bound: int) -> bool {
    &&& sql.len() >= 9
    &&& sql.take(7) == "rating "@
    &&& sql.skip(sql.len() - 2) == " ?"@
    &&& sql_comparison_holds(sql.subrange(7, sql.len() - 2), x, bound)
}

/// A rating condition binds the value as an integer (0 when it is not one)
/// and selects exactly the documents rated at least it (`gte`), at most it
/// (`lte`), or equal to it (any other operator).
pub proof fn law_rating_condition_selects(op: Seq<char>, v: Seq<char>, x: int)
    ensures
        condition_spec("rating"@, op, v).1 == seq![SqlValueView::Integer(int_or_zero(v))],
        rating_fragment_selects(condition_spec("rating"@, op, v).0, x, int_or_zero(v) as int)
            <==> (if op == "gte"@ {
            x >= int_or_zero(v)
        } else if op == "lte"@ {
            x <= int_or_zero(v)
        } else {
            x == int_or_zero(v)
        }),
{
    reveal_strlit("rating");
    reveal_strlit("tag");
    reveal_strlit("year");
    reveal_strlit("year_range");
    reveal_strlit("reading_status");
    reveal_strlit("rating >= ?");
    reveal_strlit("rating <= ?");
    reveal_strlit("rating = ?");
    reveal_strlit("rating ");
    reveal_strlit(" ?");
    reveal_strlit("<=");
    reveal_strlit(">=");
    reveal_strlit("=");
    assert("rating"@ != "tag"@ && "rating"@ != "year"@ && "rating"@ != "year_range"@) by {
        assert("rating"@[0] != "tag"@[0] && "rating"@[0] != "year"@[0]);
    }
    assert("rating"@ != "reading_status"@) by {
        assert("rating"@[1] != "reading_status"@[1]);
    }
    let sql = condition_spec("rating"@, op, v).0;
    assert(sql.len() >= 9);
    assert(sql.take(7) =~= "rating "@);
    assert(sql.skip(sql.len() - 2) =~= " ?"@);
    if op == "gte"@ {
        assert(sql.subrange(7, sql.len() - 2) =~= ">="@);
        assert(">="@ != "<="@) by {
            assert(">="@[0] != "<="@[0]);
        }
    } else if op == "lte"@ {
        assert(sql.subrange(7, sql.len() - 2) =~= "<="@);
    } else {
        assert(sql.subrange(7, sql.len() - 2) =~= "="@);
        assert("="@ != "<="@ && "="@ != ">="@);
    }
}

/// The `lte` and `gte` rating conditions select different documents: with
/// the same value, a rating one below it is selected by `lte` only.
pub proof fn law_rating_lte_differs_from_gte(v: Seq<char>)
    ensures
        condition_spec("rating"@, "lte"@, v) != condition_spec("rating"@, "gte"@, v),
        rating_fragment_selects(
            condition_spec("rating"@, "lte"@, v).0,
            int_or_zero(v) - 1,
            int_or_zero(v) as int,
        ),
        !rating_fragment_selects(
            condition_spec("rating"@, "gte"@, v).0,
            int_or_zero(v) - 1,
            int_or_zero(v) as int,
        ),
{
    reveal_strlit("lte");
    reveal_strlit("gte");
    assert("lte"@ != "gte"@) by {
        assert("lte"@[0] != "gte"@[0]);
    }
    law_rating_condition_selects("lte"@, v, int_or_zero(v) - 1);
    law_rating_condition_selects("gte"@, v, int_or_zero(v) - 1);
}

} // verus!
