use crate::schema::{field_names, names_field, schema_field_id, schema_fields, FieldKind};
use crate::search::{plan_view, search_plan, search_plan_spec, QueryParam, SEARCH_RESULT_LIMIT};
use tantivy::query::{BooleanQuery, Query, QueryParser};
use tantivy::schema::{Field, Schema};
use tantivy::{Index, Searcher};
use crate::hits::top_docs;
pub use crate::hits::SearchHits;
use vstd::prelude::*;

verus! {

#[verifier::external_type_specification]
#[verifier::external_body]
pub struct ExIndex(Index);

#[verifier::external_type_specification]
#[verifier::external_body]
pub struct ExBooleanQuery(BooleanQuery);

#[verifier::external_type_specification]
#[verifier::external_body]
pub struct ExSearcher(Searcher);

/// A query that tantivy's query parser made, held as the `Box<dyn Query>`
/// that the parser hands back. Nothing in it is read here: it is only passed
/// on to `BooleanQuery::intersection`.
#[verifier::external_body]
pub struct QueryObject {
    inner: Box<dyn Query>,
}

/// How a clause of a boolean query takes part in a match.
#[derive(PartialEq, Eq, Structural, Clone, Copy, Debug)]
pub enum Occurrence {
    /// Every match must match the clause.
    Must,
    /// A match may match the clause.
    Should,
    /// No match may match the clause.
    MustNot,
}

/// A query parsed from a text on one field, labelled with that field and
/// text. Only `parse_on_field` makes one, and it labels the query with the
/// field and text it hands to the parser.
pub struct ParsedQuery {
    query: QueryObject,
    field: Ghost<u32>,
    text: Ghost<Seq<char>>,
}

impl ParsedQuery {
    /// The id of the field the query was parsed on.
    pub closed spec fn field(self) -> u32 {
        self.field@
    }

    /// The text the query was parsed from.
    pub closed spec fn text(self) -> Seq<char> {
        self.text@
    }
}

/// The fields, in order, of the schema that a tantivy `Index` was made with.
pub uninterp spec fn index_fields(index: Index) -> Seq<(Seq<char>, FieldKind)>;

/// Calls `Index::schema`, which hands back a copy of the schema the index
/// was made with.
#[verifier::external_body]
fn index_schema(index: &Index) -> (schema: Schema)
    ensures
        schema_fields(schema) == index_fields(*index),
{
    index.schema()
}

/// The clauses, in order, of a tantivy `BooleanQuery`: how each takes part
/// in a match, and the field and text its query was parsed from.
pub uninterp spec fn boolean_clauses(query: BooleanQuery) -> Seq<(Occurrence, u32, Seq<char>)>;

/// Calls `QueryParser::for_index` with the field of id `field` as the only
/// default field, then `QueryParser::parse_query` on `text`. Whether the
/// parser accepts the text is left open: it depends on the query grammar, the
/// field's type and the index's tokenizers. The parser reads the entry of the
/// default field in the index's schema, and panics where there is none, which
/// `requires` leaves out. A parsed query is labelled with `field` and `text`.
#[verifier::external_body]
fn parse_on_field(index: &Index, field: u32, text: &str) -> (parsed: Option<ParsedQuery>)
    requires
        field < index_fields(*index).len(),
    ensures
        parsed matches Some(q) ==> q.field() == field && q.text() == text@,
{
    let parser = QueryParser::for_index(index, vec![Field::from_field_id(field)]);
    match parser.parse_query(text) {
        Ok(inner) => Some(ParsedQuery { query: QueryObject { inner }, field: Ghost(field), text: Ghost(text@) }),
        Err(_) => None,
    }
}

/// Calls `BooleanQuery::intersection`, which makes every query given a
/// `Must` clause, in the order given.
#[verifier::external_body]
fn all_of(queries: Vec<ParsedQuery>) -> (query: BooleanQuery)
    ensures
        boolean_clauses(query) == queries@.map_values(
            |p: ParsedQuery| (Occurrence::Must, p.field(), p.text()),
        ),
{
    BooleanQuery::intersection(queries.into_iter().map(|p| p.query.inner).collect())
}

/// Parses `text` as a query on the field of id `field` of the index; `None`
/// where the parser rejects the text.
pub fn parse_field_query(index: &Index, field: u32, text: &str) -> (parsed: Option<ParsedQuery>)
    requires
        field < index_fields(*index).len(),
    ensures
        parsed matches Some(q) ==> q.field() == field && q.text() == text@,
{
    parse_on_field(index, field, text)
}

/// Every field that `plan` queries is a field of `fields`.
pub open spec fn plan_fields_present(plan: Seq<(Seq<char>, Seq<char>)>, fields: Seq<(Seq<char>, FieldKind)>) -> bool {
    forall|i: int| 0 <= i < plan.len() ==> field_names(fields).contains(#[trigger] plan[i].0)
}

/// `clauses` are, in order, one `Must` clause for each field query of
/// `plan`: the query text parsed on the field of that name in `fields`.
pub open spec fn clauses_of_plan(
    clauses: Seq<(Occurrence, u32, Seq<char>)>,
    plan: Seq<(Seq<char>, Seq<char>)>,
    fields: Seq<(Seq<char>, FieldKind)>,
) -> bool {
    &&& clauses.len() == plan.len()
    &&& forall|i: int| 0 <= i < plan.len() ==> {
        let clause = #[trigger] clauses[i];
        &&& clause.0 == Occurrence::Must
        &&& names_field(fields, clause.1, plan[i].0)
        &&& clause.2 == plan[i].1
    }
}

/// Builds the query of a search request: the conjunction of the field
/// queries of `search_plan`, each parsed on its field of the index. `None`
/// where a queried field is missing from the index's schema or the parser
/// rejects a query text; a request without field queries gives the query with
/// no clause.
pub fn search_query(index: &Index, params: &Vec<QueryParam>) -> (query: Option<BooleanQuery>)
    ensures
        search_plan_spec(params@).len() == 0 ==> (query matches Some(q) && boolean_clauses(q).len() == 0),
        !plan_fields_present(search_plan_spec(params@), index_fields(*index)) ==> query is None,
        query matches Some(q) ==> plan_fields_present(search_plan_spec(params@), index_fields(*index))
            && clauses_of_plan(boolean_clauses(q), search_plan_spec(params@), index_fields(*index)),
{
    let plan = search_plan(params);
    let ghost planned = plan_view(plan@);
    let schema = index_schema(index);
    let ghost fields = schema_fields(schema);
    let mut parsed: Vec<ParsedQuery> = Vec::new();
    let mut i: usize = 0;
    while i < plan.len()
        invariant
            i <= plan.len(),
            planned == plan_view(plan@),
            planned == search_plan_spec(params@),
            fields == schema_fields(schema),
            fields == index_fields(*index),
            parsed.len() == i,
            forall|j: int| 0 <= j < i ==> field_names(fields).contains(#[trigger] planned[j].0),
            forall|j: int| 0 <= j < i ==> {
                let p = #[trigger] parsed@[j];
                &&& names_field(fields, p.field(), planned[j].0)
                &&& p.text() == planned[j].1
            },
        decreases plan.len() - i,
    {
        assert(planned[i as int] == (plan@[i as int].field@, plan@[i as int].query@));
        let id = match schema_field_id(&schema, plan[i].field.as_str()) {
            Some(id) => id,
            None => {
                return None;
            },
        };
        let p = match parse_field_query(index, id, plan[i].query.as_str()) {
            Some(p) => p,
            None => {
                proof {
                    assert(field_names(fields)[id as int] == fields[id as int].0);
                }
                return None;
            },
        };
        proof {
            assert(field_names(fields)[id as int] == fields[id as int].0);
        }
        parsed.push(p);
        i = i + 1;
    }
    let ghost parsed_view = parsed@;
    let query = all_of(parsed);
    assert(plan_fields_present(planned, fields));
    assert(boolean_clauses(query).len() == parsed_view.len());
    assert forall|i: int| 0 <= i < planned.len() implies {
        let clause = #[trigger] boolean_clauses(query)[i];
        &&& clause.0 == Occurrence::Must
        &&& names_field(fields, clause.1, planned[i].0)
        &&& clause.2 == planned[i].1
    } by {
        assert(boolean_clauses(query)[i] == (Occurrence::Must, parsed_view[i].field(), parsed_view[i].text()));
    }
    Some(query)
}

/// A search to run: the query, and the most hits to hand back.
pub struct SearchRequest {
    pub query: BooleanQuery,
    pub limit: usize,
}

/// Builds the search of a request: its query (see `search_query`) and the
/// limit of `SEARCH_RESULT_LIMIT` hits.
pub fn search_request(index: &Index, params: &Vec<QueryParam>) -> (request: Option<SearchRequest>)
    ensures
        search_plan_spec(params@).len() == 0 ==> (request matches Some(r) && r.limit == SEARCH_RESULT_LIMIT
            && boolean_clauses(r.query).len() == 0),
        !plan_fields_present(search_plan_spec(params@), index_fields(*index)) ==> request is None,
        request matches Some(r) ==> r.limit == SEARCH_RESULT_LIMIT
            && plan_fields_present(search_plan_spec(params@), index_fields(*index))
            && clauses_of_plan(boolean_clauses(r.query), search_plan_spec(params@), index_fields(*index)),
{
    match search_query(index, params) {
        Some(query) => Some(SearchRequest { query, limit: SEARCH_RESULT_LIMIT }),
        None => None,
    }
}

/// Runs a search: the request's query with the request's limit. The hits are
/// the addresses of at most `request.limit` distinct matching documents, best
/// score first; `None` where the index cannot be read.
pub fn find_hits(searcher: &Searcher, request: &SearchRequest) -> (hits: Option<SearchHits>)
    requires
        request.limit >= 1,
    ensures
        hits matches Some(h) ==> h.searched_clauses() == boolean_clauses(request.query)
            && h.searched_limit() == request.limit
            && h.found().len() <= request.limit && h.found().no_duplicates(),
{
    top_docs(searcher, &request.query, request.limit)
}

} // verus!
