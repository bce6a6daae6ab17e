use crate::ingest::{log_document_texts, LogEntry};
use crate::schema::{
    field_names, lemma_log_field_names_distinct, log_schema_fields, resolves_log_fields, FieldKind,
    LogFieldIds,
};
use vstd::prelude::*;

verus! {

/// The most hits a search hands back.
pub const SEARCH_RESULT_LIMIT: usize = 10;

/// One `key=value` parameter of a search request.
#[derive(Clone, Debug, PartialEq, Eq)]
pub struct QueryParam {
    pub key: String,
    pub value: String,
}

/// The query text to run against one field of the index.
#[derive(Clone, Debug, PartialEq, Eq)]
pub struct FieldQuery {
    pub field: String,
    pub query: String,
}

/// The value of the parameter `key`: where the key occurs more than once,
/// the last occurrence wins, as it does when parameters are collected into a
/// map.
pub open spec fn param_lookup(params: Seq<QueryParam>, key: Seq<char>) -> Option<Seq<char>>
    decreases params.len(),
{
    if params.len() == 0 {
        None
    } else if params.last().key@ == key {
        Some(params.last().value@)
    } else {
        param_lookup(params.drop_last(), key)
    }
}

/// The value of a key is that of its last occurrence; a key that does not
/// occur has none.
pub proof fn lemma_param_lookup_last(params: Seq<QueryParam>, key: Seq<char>)
    ensures
        param_lookup(params, key) is None <==> forall|i: int| 0 <= i < params.len() ==> (#[trigger] params[i]).key@ != key,
        param_lookup(params, key) matches Some(v) ==> exists|i: int| 0 <= i < params.len() && (#[trigger] params[i]).key@ == key
            && params[i].value@ == v
            && forall|j: int| i < j < params.len() ==> (#[trigger] params[j]).key@ != key,
    decreases params.len(),
{
    if params.len() > 0 {
        let init = params.drop_last();
        lemma_param_lookup_last(init, key);
        let last = params.len() - 1;
        assert(params[last] == params.last());
        assert forall|i: int| 0 <= i < init.len() implies init[i] == #[trigger] params[i] by {}
        if params.last().key@ == key {
            assert(params[last].key@ == key);
        } else if param_lookup(init, key) is Some {
            let i = choose|i: int| 0 <= i < init.len() && (#[trigger] init[i]).key@ == key
                && init[i].value@ == param_lookup(init, key)->0
                && forall|j: int| i < j < init.len() ==> (#[trigger] init[j]).key@ != key;
            assert(params[i] == init[i]);
            assert forall|j: int| i < j < params.len() implies (#[trigger] params[j]).key@ != key by {
                if j < init.len() {
                    assert(params[j] == init[j]);
                }
            }
        } else {
            assert forall|i: int| 0 <= i < params.len() implies (#[trigger] params[i]).key@ != key by {
                if i < init.len() {
                    assert(params[i] == init[i]);
                }
            }
        }
    }
}

/// Looks up the value of the parameter `key`.
pub fn param_value(params: &Vec<QueryParam>, key: &String) -> (value: Option<String>)
    ensures
        value is Some <==> param_lookup(params@, key@) is Some,
        value matches Some(v) ==> param_lookup(params@, key@) == Some(v@),
        value is None <==> forall|i: int| 0 <= i < params@.len() ==> (#[trigger] params@[i]).key@ != key@,
        value matches Some(v) ==> exists|i: int| 0 <= i < params@.len() && (#[trigger] params@[i]).key@ == key@
            && params@[i].value@ == v@
            && forall|j: int| i < j < params@.len() ==> (#[trigger] params@[j]).key@ != key@,
{
    proof {
        lemma_param_lookup_last(params@, key@);
    }
    let mut found: Option<usize> = None;
    let mut i: usize = 0;
    while i < params.len()
        invariant
            i <= params.len(),
            match found {
                None => param_lookup(params@.take(i as int), key@) is None,
                Some(j) => j < i && param_lookup(params@.take(i as int), key@) == Some(params@[j as int].value@),
            },
        decreases params.len() - i,
    {
        assert(params@.take(i + 1).drop_last() =~= params@.take(i as int));
        if params[i].key == *key {
            found = Some(i);
        }
        i = i + 1;
    }
    assert(params@.take(params.len() as int) =~= params@);
    match found {
        None => None,
        Some(j) => Some(params[j].value.clone()),
    }
}

/// The fields that a search request may filter on, in the order in which
/// their queries are combined.
pub open spec fn search_field_names() -> Seq<Seq<char>> {
    seq![
        "timestamp"@, "message"@, "level"@, "resourceId"@, "traceId"@,
        "spanId"@, "commit"@, "parentResourceId"@,
    ]
}

/// The query text for `value` on `field`: the timestamp filter is a range,
/// written `timestamp:[<value>]`; other fields take the value as it is.
pub open spec fn query_text(field: Seq<char>, value: Seq<char>) -> Seq<char> {
    if field == "timestamp"@ {
        "timestamp:["@ + value + "]"@
    } else {
        value
    }
}

/// The field queries for `names`, in their order, of those names that have
/// a parameter.
pub open spec fn plan_over(params: Seq<QueryParam>, names: Seq<Seq<char>>) -> Seq<(Seq<char>, Seq<char>)>
    decreases names.len(),
{
    if names.len() == 0 {
        Seq::empty()
    } else {
        let rest = plan_over(params, names.drop_last());
        match param_lookup(params, names.last()) {
            Some(v) => rest.push((names.last(), query_text(names.last(), v))),
            None => rest,
        }
    }
}

/// The field queries of a search request.
pub open spec fn search_plan_spec(params: Seq<QueryParam>) -> Seq<(Seq<char>, Seq<char>)> {
    plan_over(params, search_field_names())
}

/// A list of field queries as pairs of field name and query text.
pub open spec fn plan_view(plan: Seq<FieldQuery>) -> Seq<(Seq<char>, Seq<char>)> {
    plan.map_values(|q: FieldQuery| (q.field@, q.query@))
}

/// Appends the query for `field` when the request has a parameter for it.
fn push_field_query(plan: &mut Vec<FieldQuery>, params: &Vec<QueryParam>, field: &str)
    requires
        field@ != "timestamp"@,
    ensures
        plan_view(final(plan)@) == match param_lookup(params@, field@) {
            Some(v) => plan_view(old(plan)@).push((field@, v)),
            None => plan_view(old(plan)@),
        },
{
    let name = String::from_str(field);
    match param_value(params, &name) {
        Some(value) => {
            plan.push(FieldQuery { field: name, query: value });
            assert(plan_view(plan@) =~= plan_view(old(plan)@).push((field@, param_lookup(params@, field@)->0)));
        },
        None => {},
    }
}

/// Turns the parameters of a search request into the queries to combine:
/// one for each searchable field that has a parameter, in the order of
/// `search_field_names`, the timestamp one as a range.
pub fn search_plan(params: &Vec<QueryParam>) -> (plan: Vec<FieldQuery>)
    ensures
        plan_view(plan@) == search_plan_spec(params@),
        plan@.len() <= 8,
        forall|i: int| 0 <= i < plan@.len() ==> {
            let q = #[trigger] plan@[i];
            &&& search_field_names().contains(q.field@)
            &&& param_lookup(params@, q.field@) is Some
            &&& q.field@ == "timestamp"@ ==> q.query@ == "timestamp:["@ + param_lookup(params@, q.field@)->0 + "]"@
            &&& q.field@ != "timestamp"@ ==> q.query@ == param_lookup(params@, q.field@)->0
        },
        forall|n: Seq<char>| #[trigger] search_field_names().contains(n) ==> (
            param_lookup(params@, n) is Some <==> exists|i: int| 0 <= i < plan@.len() && (#[trigger] plan@[i]).field@ == n),
        forall|i: int, j: int| 0 <= i < j < plan@.len() ==> (#[trigger] plan@[i]).field@ != (#[trigger] plan@[j]).field@,
{
    proof {
        lemma_log_field_names_distinct();
        reveal_strlit("timestamp");
    }
    let mut plan: Vec<FieldQuery> = Vec::new();
    let ghost names = search_field_names();
    let timestamp = String::from_str("timestamp");
    match param_value(params, &timestamp) {
        Some(value) => {
            let mut query = String::from_str("timestamp:[");
            query.append(value.as_str());
            query.append("]");
            plan.push(FieldQuery { field: timestamp, query });
            assert(plan_view(plan@) =~= seq![("timestamp"@, query_text("timestamp"@, value@))]);
        },
        None => {
            assert(plan_view(plan@) =~= Seq::<(Seq<char>, Seq<char>)>::empty());
        },
    }
    assert(names.take(1).drop_last() =~= Seq::<Seq<char>>::empty());
    assert(names.take(1).last() == "timestamp"@);
    assert(plan_over(params@, names.take(1).drop_last()) =~= Seq::<(Seq<char>, Seq<char>)>::empty());
    assert(plan_view(plan@) =~= plan_over(params@, names.take(1)));
    push_field_query(&mut plan, params, "message");
    assert(names.take(2).drop_last() =~= names.take(1));
    assert(plan_view(plan@) =~= plan_over(params@, names.take(2)));
    push_field_query(&mut plan, params, "level");
    assert(names.take(3).drop_last() =~= names.take(2));
    assert(plan_view(plan@) =~= plan_over(params@, names.take(3)));
    push_field_query(&mut plan, params, "resourceId");
    assert(names.take(4).drop_last() =~= names.take(3));
    assert(plan_view(plan@) =~= plan_over(params@, names.take(4)));
    push_field_query(&mut plan, params, "traceId");
    assert(names.take(5).drop_last() =~= names.take(4));
    assert(plan_view(plan@) =~= plan_over(params@, names.take(5)));
    push_field_query(&mut plan, params, "spanId");
    assert(names.take(6).drop_last() =~= names.take(5));
    assert(plan_view(plan@) =~= plan_over(params@, names.take(6)));
    push_field_query(&mut plan, params, "commit");
    assert(names.take(7).drop_last() =~= names.take(6));
    assert(plan_view(plan@) =~= plan_over(params@, names.take(7)));
    push_field_query(&mut plan, params, "parentResourceId");
    assert(names.take(8).drop_last() =~= names.take(7));
    assert(names.take(8) =~= names);
    proof {
        lemma_plan_view_entries(plan@, params@);
    }
    plan
}

/// The field queries of a request, read entry by entry: each is on a
/// searchable field that has a parameter, its text is that parameter's value
/// (written `timestamp:[<value>]` for the timestamp), a searchable field has
/// one exactly when it has a parameter, and no field has two.
proof fn lemma_plan_view_entries(plan: Seq<FieldQuery>, params: Seq<QueryParam>)
    requires
        plan_view(plan) == search_plan_spec(params),
    ensures
        plan.len() <= 8,
        forall|i: int| 0 <= i < plan.len() ==> {
            let q = #[trigger] plan[i];
            &&& search_field_names().contains(q.field@)
            &&& param_lookup(params, q.field@) is Some
            &&& q.field@ == "timestamp"@ ==> q.query@ == "timestamp:["@ + param_lookup(params, q.field@)->0 + "]"@
            &&& q.field@ != "timestamp"@ ==> q.query@ == param_lookup(params, q.field@)->0
        },
        forall|n: Seq<char>| #[trigger] search_field_names().contains(n) ==> (
            param_lookup(params, n) is Some <==> exists|i: int| 0 <= i < plan.len() && (#[trigger] plan[i]).field@ == n),
        forall|i: int, j: int| 0 <= i < j < plan.len() ==> (#[trigger] plan[i]).field@ != (#[trigger] plan[j]).field@,
{
    lemma_search_plan_fields(params);
    let view = plan_view(plan);
    assert forall|i: int| 0 <= i < plan.len() implies #[trigger] view[i] == (plan[i].field@, plan[i].query@) by {}
    assert forall|i: int| 0 <= i < plan.len() implies {
        let q = #[trigger] plan[i];
        &&& search_field_names().contains(q.field@)
        &&& param_lookup(params, q.field@) is Some
        &&& q.field@ == "timestamp"@ ==> q.query@ == "timestamp:["@ + param_lookup(params, q.field@)->0 + "]"@
        &&& q.field@ != "timestamp"@ ==> q.query@ == param_lookup(params, q.field@)->0
    } by {
        assert(view[i] == (plan[i].field@, plan[i].query@));
        lemma_query_text(plan[i].field@, param_lookup(params, plan[i].field@)->0);
    }
    assert forall|n: Seq<char>| #[trigger] search_field_names().contains(n) implies (
        param_lookup(params, n) is Some <==> exists|i: int| 0 <= i < plan.len() && (#[trigger] plan[i]).field@ == n) by {
        if param_lookup(params, n) is Some {
            let i = choose|i: int| 0 <= i < view.len() && (#[trigger] view[i]).0 == n;
            assert(view[i] == (plan[i].field@, plan[i].query@));
        }
        if exists|i: int| 0 <= i < plan.len() && (#[trigger] plan[i]).field@ == n {
            let i = choose|i: int| 0 <= i < plan.len() && (#[trigger] plan[i]).field@ == n;
            assert(view[i] == (plan[i].field@, plan[i].query@));
        }
    }
    assert forall|i: int, j: int| 0 <= i < j < plan.len() implies (#[trigger] plan[i]).field@ != (#[trigger] plan[j]).field@ by {
        assert(view[i] == (plan[i].field@, plan[i].query@));
        assert(view[j] == (plan[j].field@, plan[j].query@));
    }
}

/// The query text of a field query: the value itself on every field but the
/// timestamp, whose value is written as the range `timestamp:[<value>]`.
pub proof fn lemma_query_text(field: Seq<char>, value: Seq<char>)
    ensures
        field != "timestamp"@ ==> query_text(field, value) == value,
        field == "timestamp"@ ==> query_text(field, value) == "timestamp:["@ + value + "]"@,
        query_text("message"@, value) == value,
        query_text("level"@, value) == value,
        query_text("resourceId"@, value) == value,
        query_text("traceId"@, value) == value,
        query_text("spanId"@, value) == value,
        query_text("commit"@, value) == value,
        query_text("parentResourceId"@, value) == value,
{
    lemma_log_field_names_distinct();
}

proof fn lemma_plan_over(params: Seq<QueryParam>, names: Seq<Seq<char>>)
    requires
        names.no_duplicates(),
    ensures
        plan_over(params, names).len() <= names.len(),
        forall|j: int| 0 <= j < plan_over(params, names).len() ==> {
            let entry = #[trigger] plan_over(params, names)[j];
            &&& names.contains(entry.0)
            &&& param_lookup(params, entry.0) is Some
            &&& entry.1 == query_text(entry.0, param_lookup(params, entry.0)->0)
        },
        forall|n: Seq<char>| #[trigger] names.contains(n) && param_lookup(params, n) is Some ==>
            exists|j: int| 0 <= j < plan_over(params, names).len() && (#[trigger] plan_over(params, names)[j]).0 == n,
        forall|j: int, k: int| 0 <= j < k < plan_over(params, names).len() ==>
            (#[trigger] plan_over(params, names)[j]).0 != (#[trigger] plan_over(params, names)[k]).0,
    decreases names.len(),
{
    if names.len() > 0 {
        let init = names.drop_last();
        assert(init.no_duplicates());
        lemma_plan_over(params, init);
        let rest = plan_over(params, init);
        let plan = plan_over(params, names);
        assert forall|n: Seq<char>| #[trigger] names.contains(n) && param_lookup(params, n) is Some implies
            exists|j: int| 0 <= j < plan.len() && (#[trigger] plan[j]).0 == n by {
            let i = choose|i: int| 0 <= i < names.len() && names[i] == n;
            if i < names.len() - 1 {
                assert(init[i] == n);
                assert(init.contains(n));
                let j = choose|j: int| 0 <= j < rest.len() && (#[trigger] rest[j]).0 == n;
                assert(plan[j] == rest[j]);
            } else {
                assert(plan[plan.len() - 1].0 == n);
            }
        }
        assert forall|j: int| 0 <= j < plan.len() implies names.contains((#[trigger] plan[j]).0) by {
            if j < rest.len() {
                assert(plan[j] == rest[j]);
                let i = choose|i: int| 0 <= i < init.len() && init[i] == rest[j].0;
                assert(names[i] == init[i]);
            } else {
                assert(names[names.len() - 1] == names.last());
            }
        }
        assert forall|j: int, k: int| 0 <= j < k < plan.len() implies
            (#[trigger] plan[j]).0 != (#[trigger] plan[k]).0 by {
            if k < rest.len() {
                assert(plan[j] == rest[j] && plan[k] == rest[k]);
            } else {
                assert(plan[j] == rest[j]);
                assert(plan[k].0 == names.last());
                if rest[j].0 == names.last() {
                    let i = choose|i: int| 0 <= i < init.len() && init[i] == rest[j].0;
                    assert(names[i] == names[names.len() - 1]);
                }
            }
        }
    }
}

/// What a search request's field queries are: a searchable field has a
/// query exactly when the request has a parameter for it; each query is the
/// parameter's value (the timestamp one written as a range); no field has
/// two queries; and every queried field is a field of the log index.
pub proof fn lemma_search_plan_fields(params: Seq<QueryParam>)
    ensures
        search_plan_spec(params).len() <= search_field_names().len(),
        forall|n: Seq<char>| #[trigger] search_field_names().contains(n) ==> (
            param_lookup(params, n) is Some <==>
            exists|j: int| 0 <= j < search_plan_spec(params).len() && (#[trigger] search_plan_spec(params)[j]).0 == n),
        forall|j: int| 0 <= j < search_plan_spec(params).len() ==> {
            let entry = #[trigger] search_plan_spec(params)[j];
            &&& search_field_names().contains(entry.0)
            &&& field_names(log_schema_fields()).contains(entry.0)
            &&& param_lookup(params, entry.0) is Some
            &&& entry.1 == query_text(entry.0, param_lookup(params, entry.0)->0)
        },
        forall|j: int, k: int| 0 <= j < k < search_plan_spec(params).len() ==>
            (#[trigger] search_plan_spec(params)[j]).0 != (#[trigger] search_plan_spec(params)[k]).0,
{
    lemma_log_field_names_distinct();
    let names = search_field_names();
    assert(names.no_duplicates());
    lemma_plan_over(params, names);
    let schema_names = field_names(log_schema_fields());
    assert forall|n: Seq<char>| #[trigger] names.contains(n) implies schema_names.contains(n) by {
        let i = choose|i: int| 0 <= i < names.len() && names[i] == n;
        let k = if i == 0 { 3 } else if i == 1 { 1 } else if i == 2 { 0 } else if i == 3 { 2 } else { i };
        assert(schema_names[k] == n);
    }
}

/// A hit as the index hands it back: every stored value of each field.
#[derive(Clone, Debug, PartialEq, Eq)]
pub struct StoredHit {
    pub level: Vec<String>,
    pub message: Vec<String>,
    pub resource_id: Vec<String>,
    pub timestamp: Vec<String>,
    pub trace_id: Vec<String>,
    pub span_id: Vec<String>,
    pub commit: Vec<String>,
    pub parent_resource_id: Vec<String>,
}

/// A hit as a search answers it: one text for each field.
#[derive(Clone, Debug, PartialEq, Eq)]
pub struct SearchHit {
    pub level: String,
    pub message: String,
    pub resource_id: String,
    pub timestamp: String,
    pub trace_id: String,
    pub span_id: String,
    pub commit: String,
    pub parent_resource_id: String,
}

/// The texts of a list of strings.
pub open spec fn texts(values: Seq<String>) -> Seq<Seq<char>> {
    values.map_values(|v: String| v@)
}

/// The texts of `values` written one after the other.
pub open spec fn concat_all(values: Seq<Seq<char>>) -> Seq<char>
    decreases values.len(),
{
    if values.len() == 0 {
        Seq::empty()
    } else {
        concat_all(values.drop_last()) + values.last()
    }
}

/// Joining writes the texts one after the other with nothing in between:
/// nothing for no text, a single text as it is, two texts as their
/// concatenation, and a split list as the concatenation of its parts.
pub proof fn lemma_concat_all_laws(first: Seq<Seq<char>>, second: Seq<Seq<char>>, a: Seq<char>, b: Seq<char>)
    ensures
        concat_all(Seq::<Seq<char>>::empty()) == Seq::<char>::empty(),
        concat_all(seq![a]) == a,
        concat_all(seq![a, b]) == a + b,
        concat_all(first + second) == concat_all(first) + concat_all(second),
    decreases second.len(),
{
    let one = seq![a];
    let two = seq![a, b];
    assert(one.drop_last() =~= Seq::<Seq<char>>::empty());
    assert(one.last() == a);
    assert(concat_all(one.drop_last()) == Seq::<char>::empty());
    assert(Seq::<char>::empty() + a =~= a);
    assert(concat_all(one) == a);
    assert(two.drop_last() =~= one);
    assert(two.last() == b);
    assert(concat_all(two) == concat_all(one) + b);
    if second.len() == 0 {
        assert(first + second =~= first);
        assert(concat_all(first) + Seq::<char>::empty() =~= concat_all(first));
    } else {
        lemma_concat_all_laws(first, second.drop_last(), a, b);
        assert((first + second).drop_last() =~= first + second.drop_last());
        assert((first + second).last() == second.last());
        assert(concat_all(first) + concat_all(second.drop_last()) + second.last()
            =~= concat_all(first) + (concat_all(second.drop_last()) + second.last()));
    }
}

/// Joins the values of one field with nothing in between.
pub fn join_values(values: &Vec<String>) -> (joined: String)
    ensures
        joined@ == concat_all(texts(values@)),
        values@.len() == 0 ==> joined@ == Seq::<char>::empty(),
        values@.len() == 1 ==> joined@ == values@[0]@,
        values@.len() == 2 ==> joined@ == values@[0]@ + values@[1]@,
{
    proof {
        if values@.len() == 1 {
            lemma_concat_all_laws(texts(values@), Seq::empty(), values@[0]@, values@[0]@);
            assert(texts(values@) =~= seq![values@[0]@]);
        } else if values@.len() == 2 {
            lemma_concat_all_laws(texts(values@), Seq::empty(), values@[0]@, values@[1]@);
            assert(texts(values@) =~= seq![values@[0]@, values@[1]@]);
        }
    }
    let mut joined = String::new();
    let mut i: usize = 0;
    while i < values.len()
        invariant
            i <= values.len(),
            joined@ == concat_all(texts(values@).take(i as int)),
        decreases values.len() - i,
    {
        assert(texts(values@).take(i + 1).drop_last() =~= texts(values@).take(i as int));
        joined.append(values[i].as_str());
        i = i + 1;
    }
    assert(texts(values@).take(values.len() as int) =~= texts(values@));
    joined
}

/// `hit` holds, for each field, the values of `stored` joined.
pub open spec fn flattens_to(stored: StoredHit, hit: SearchHit) -> bool {
    &&& hit.level@ == concat_all(texts(stored.level@))
    &&& hit.message@ == concat_all(texts(stored.message@))
    &&& hit.resource_id@ == concat_all(texts(stored.resource_id@))
    &&& hit.timestamp@ == concat_all(texts(stored.timestamp@))
    &&& hit.trace_id@ == concat_all(texts(stored.trace_id@))
    &&& hit.span_id@ == concat_all(texts(stored.span_id@))
    &&& hit.commit@ == concat_all(texts(stored.commit@))
    &&& hit.parent_resource_id@ == concat_all(texts(stored.parent_resource_id@))
}

/// Turns a stored hit into the hit a search answers: the values of each
/// field joined into one text.
pub fn flatten_hit(stored: &StoredHit) -> (hit: SearchHit)
    ensures
        flattens_to(*stored, hit),
        hit.level@ == concat_all(texts(stored.level@)),
        hit.message@ == concat_all(texts(stored.message@)),
        hit.resource_id@ == concat_all(texts(stored.resource_id@)),
        hit.timestamp@ == concat_all(texts(stored.timestamp@)),
        hit.trace_id@ == concat_all(texts(stored.trace_id@)),
        hit.span_id@ == concat_all(texts(stored.span_id@)),
        hit.commit@ == concat_all(texts(stored.commit@)),
        hit.parent_resource_id@ == concat_all(texts(stored.parent_resource_id@)),
{
    SearchHit {
        level: join_values(&stored.level),
        message: join_values(&stored.message),
        resource_id: join_values(&stored.resource_id),
        timestamp: join_values(&stored.timestamp),
        trace_id: join_values(&stored.trace_id),
        span_id: join_values(&stored.span_id),
        commit: join_values(&stored.commit),
        parent_resource_id: join_values(&stored.parent_resource_id),
    }
}

/// The texts, in order, that `values` holds for the field of id `field`.
pub open spec fn field_texts(values: Seq<(u32, Seq<char>)>, field: u32) -> Seq<Seq<char>>
    decreases values.len(),
{
    if values.len() == 0 {
        Seq::empty()
    } else {
        let rest = field_texts(values.drop_last(), field);
        if values.last().0 == field {
            rest.push(values.last().1)
        } else {
            rest
        }
    }
}

/// Flattening gives back the texts of an ingested entry: when each text field
/// of a stored hit holds exactly the values that the document built for
/// `entry` holds for that field, the flattened hit carries the entry's own
/// texts. (That the index stores and returns those values is tantivy's part.)
pub proof fn lemma_hit_of_ingested_entry(
    fields: Seq<(Seq<char>, FieldKind)>,
    ids: LogFieldIds,
    entry: LogEntry,
    stored: StoredHit,
    hit: SearchHit,
)
    requires
        resolves_log_fields(fields, ids),
        texts(stored.level@) == field_texts(log_document_texts(ids, entry), ids.level),
        texts(stored.message@) == field_texts(log_document_texts(ids, entry), ids.message),
        texts(stored.resource_id@) == field_texts(log_document_texts(ids, entry), ids.resource_id),
        texts(stored.trace_id@) == field_texts(log_document_texts(ids, entry), ids.trace_id),
        texts(stored.span_id@) == field_texts(log_document_texts(ids, entry), ids.span_id),
        texts(stored.commit@) == field_texts(log_document_texts(ids, entry), ids.commit),
        texts(stored.parent_resource_id@) == field_texts(log_document_texts(ids, entry), ids.parent_resource_id),
        flattens_to(stored, hit),
    ensures
        hit.level@ == entry.level@,
        hit.message@ == entry.message@,
        hit.resource_id@ == entry.resource_id@,
        hit.trace_id@ == entry.trace_id@,
        hit.span_id@ == entry.span_id@,
        hit.commit@ == entry.commit@,
        hit.parent_resource_id@ == entry.parent_resource_id@,
{
    lemma_log_field_names_distinct();
    let values = log_document_texts(ids, entry);
    assert(values[0].0 == ids.level && values[1].0 == ids.message && values[2].0 == ids.resource_id);
    assert(values[3].0 == ids.trace_id && values[4].0 == ids.span_id && values[5].0 == ids.commit);
    assert(values[6].0 == ids.parent_resource_id && values[7].0 == ids.unique_id);
    lemma_field_texts_single(values, ids.level, 0);
    lemma_field_texts_single(values, ids.message, 1);
    lemma_field_texts_single(values, ids.resource_id, 2);
    lemma_field_texts_single(values, ids.trace_id, 3);
    lemma_field_texts_single(values, ids.span_id, 4);
    lemma_field_texts_single(values, ids.commit, 5);
    lemma_field_texts_single(values, ids.parent_resource_id, 6);
    lemma_concat_single(entry.level@);
    lemma_concat_single(entry.message@);
    lemma_concat_single(entry.resource_id@);
    lemma_concat_single(entry.trace_id@);
    lemma_concat_single(entry.span_id@);
    lemma_concat_single(entry.commit@);
    lemma_concat_single(entry.parent_resource_id@);
}

proof fn lemma_concat_single(text: Seq<char>)
    ensures
        concat_all(seq![text]) == text,
{
    assert(seq![text].drop_last() =~= Seq::<Seq<char>>::empty());
    assert(concat_all(Seq::<Seq<char>>::empty()) + text =~= text);
}

/// Where exactly one entry of `values` carries `field`, the field's texts
/// are that entry's text alone.
proof fn lemma_field_texts_single(values: Seq<(u32, Seq<char>)>, field: u32, k: int)
    requires
        0 <= k < values.len(),
        values[k].0 == field,
        forall|m: int| 0 <= m < values.len() && m != k ==> values[m].0 != field,
    ensures
        field_texts(values, field) == seq![values[k].1],
    decreases values.len(),
{
    let init = values.drop_last();
    if k == values.len() - 1 {
        lemma_field_texts_none(init, field);
        assert(field_texts(values, field) =~= seq![values[k].1]);
    } else {
        assert forall|m: int| 0 <= m < init.len() && m != k implies init[m].0 != field by {
            assert(init[m] == values[m]);
        }
        lemma_field_texts_single(init, field, k);
    }
}

/// Where no entry of `values` carries `field`, the field has no texts.
proof fn lemma_field_texts_none(values: Seq<(u32, Seq<char>)>, field: u32)
    requires
        forall|m: int| 0 <= m < values.len() ==> values[m].0 != field,
    ensures
        field_texts(values, field) == Seq::<Seq<char>>::empty(),
    decreases values.len(),
{
    if values.len() > 0 {
        let init = values.drop_last();
        assert forall|m: int| 0 <= m < init.len() implies init[m].0 != field by {
            assert(init[m] == values[m]);
        }
        lemma_field_texts_none(init, field);
    }
}

/// Appending a parameter changes the value of its key only.
proof fn lemma_lookup_push(params: Seq<QueryParam>, extra: QueryParam, key: Seq<char>)
    ensures
        param_lookup(params.push(extra), key) == if extra.key@ == key {
            Some(extra.value@)
        } else {
            param_lookup(params, key)
        },
{
    assert(params.push(extra).drop_last() =~= params);
}

proof fn lemma_plan_over_extra(params: Seq<QueryParam>, names: Seq<Seq<char>>, extra: QueryParam)
    requires
        names.no_duplicates(),
    ensures
        !names.contains(extra.key@) ==> plan_over(params.push(extra), names) == plan_over(params, names),
        names.contains(extra.key@) && param_lookup(params, extra.key@) is None ==> {
            let before = plan_over(params, names);
            let after = plan_over(params.push(extra), names);
            &&& after.len() == before.len() + 1
            &&& forall|e: (Seq<char>, Seq<char>)| before.contains(e) ==> after.contains(e)
            &&& after.contains((extra.key@, query_text(extra.key@, extra.value@)))
        },
    decreases names.len(),
{
    if names.len() > 0 {
        let init = names.drop_last();
        let last = names.last();
        let longer = params.push(extra);
        assert(init.no_duplicates());
        lemma_plan_over_extra(params, init, extra);
        lemma_lookup_push(params, extra, last);
        let before = plan_over(params, names);
        let after = plan_over(longer, names);
        let before_init = plan_over(params, init);
        let after_init = plan_over(longer, init);
        assert(names =~= init.push(last));
        if !names.contains(extra.key@) {
            assert(!init.contains(extra.key@)) by {
                if init.contains(extra.key@) {
                    let i = choose|i: int| 0 <= i < init.len() && init[i] == extra.key@;
                    assert(names[i] == extra.key@);
                }
            }
            assert(last != extra.key@) by {
                assert(names[names.len() - 1] == last);
            }
        } else if param_lookup(params, extra.key@) is None {
            if last == extra.key@ {
                assert(!init.contains(extra.key@)) by {
                    if init.contains(extra.key@) {
                        let i = choose|i: int| 0 <= i < init.len() && init[i] == extra.key@;
                        assert(names[i] == names[names.len() - 1]);
                    }
                }
                assert(before == before_init);
                assert(after == after_init.push((last, query_text(last, extra.value@))));
                assert(after.contains((extra.key@, query_text(extra.key@, extra.value@)))) by {
                    assert(after[after.len() - 1] == (extra.key@, query_text(extra.key@, extra.value@)));
                }
                assert forall|e: (Seq<char>, Seq<char>)| before.contains(e) implies after.contains(e) by {
                    let j = choose|j: int| 0 <= j < before.len() && before[j] == e;
                    assert(after[j] == e);
                }
            } else {
                assert(init.contains(extra.key@)) by {
                    let i = choose|i: int| 0 <= i < names.len() && names[i] == extra.key@;
                    assert(i != names.len() - 1);
                    assert(init[i] == extra.key@);
                }
                match param_lookup(params, last) {
                    Some(v) => {
                        assert(before == before_init.push((last, query_text(last, v))));
                        assert(after == after_init.push((last, query_text(last, v))));
                        assert forall|e: (Seq<char>, Seq<char>)| before.contains(e) implies after.contains(e) by {
                            let j = choose|j: int| 0 <= j < before.len() && before[j] == e;
                            if j < before_init.len() {
                                assert(before_init[j] == e);
                                assert(before_init.contains(e));
                                let k = choose|k: int| 0 <= k < after_init.len() && after_init[k] == e;
                                assert(after[k] == e);
                            } else {
                                assert(after[after.len() - 1] == e);
                            }
                        }
                        assert(after.contains((extra.key@, query_text(extra.key@, extra.value@)))) by {
                            let k = choose|k: int| 0 <= k < after_init.len()
                                && after_init[k] == (extra.key@, query_text(extra.key@, extra.value@));
                            assert(after[k] == after_init[k]);
                        }
                    },
                    None => {
                        assert(before == before_init);
                        assert(after == after_init);
                    },
                }
            }
        }
    }
}

/// Adding a parameter for a searchable field that the request does not have
/// yet adds exactly one field query, that field's, and keeps every other
/// query; a parameter for any other key changes nothing. With the clauses
/// that `search_query` builds, the request's query gains one `Must` clause.
pub proof fn lemma_added_parameter_adds_query(params: Seq<QueryParam>, extra: QueryParam)
    ensures
        !search_field_names().contains(extra.key@) ==>
            search_plan_spec(params.push(extra)) == search_plan_spec(params),
        search_field_names().contains(extra.key@) && param_lookup(params, extra.key@) is None ==> {
            let before = search_plan_spec(params);
            let after = search_plan_spec(params.push(extra));
            &&& after.len() == before.len() + 1
            &&& forall|e: (Seq<char>, Seq<char>)| before.contains(e) ==> after.contains(e)
            &&& after.contains((extra.key@, query_text(extra.key@, extra.value@)))
        },
{
    lemma_log_field_names_distinct();
    assert(search_field_names().no_duplicates());
    lemma_plan_over_extra(params, search_field_names(), extra);
}

} // verus!
