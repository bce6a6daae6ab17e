use laukey::ingest::{log_document, LogsTypes, MetaData};
use laukey::schema::engine_schema;
use laukey::search::{
    flatten_hit, join_values, param_value, search_plan, FieldQuery, QueryParam, SearchHit,
    StoredHit, SEARCH_RESULT_LIMIT,
};
use tantivy::collector::TopDocs;
use tantivy::query::{BooleanQuery, Occur, QueryParser};
use tantivy::Index;

fn param(key: &str, value: &str) -> QueryParam {
    QueryParam { key: key.to_string(), value: value.to_string() }
}

fn query(field: &str, query: &str) -> FieldQuery {
    FieldQuery { field: field.to_string(), query: query.to_string() }
}

fn strings(values: &[&str]) -> Vec<String> {
    values.iter().map(|v| v.to_string()).collect()
}

#[test]
fn no_parameters_no_queries() {
    assert_eq!(search_plan(&vec![]), vec![]);
}

#[test]
fn unknown_parameters_are_ignored() {
    assert_eq!(search_plan(&vec![param("uniqueID", "X"), param("page", "2")]), vec![]);
}

#[test]
fn message_only() {
    assert_eq!(search_plan(&vec![param("message", "connect")]), vec![query("message", "connect")]);
}

#[test]
fn timestamp_becomes_a_range() {
    assert_eq!(
        search_plan(&vec![param("timestamp", "2024-01-01T00:00:00Z TO 2024-01-03T00:00:00Z")]),
        vec![query("timestamp", "timestamp:[2024-01-01T00:00:00Z TO 2024-01-03T00:00:00Z]")]
    );
}

#[test]
fn queries_follow_the_field_order() {
    let params = vec![
        param("parentResourceId", "server-0987"),
        param("commit", "5e5342f"),
        param("spanId", "span-456"),
        param("traceId", "abc-xyz-123"),
        param("resourceId", "server-1234"),
        param("level", "error"),
        param("message", "DB"),
        param("timestamp", "A TO B"),
    ];
    assert_eq!(
        search_plan(&params),
        vec![
            query("timestamp", "timestamp:[A TO B]"),
            query("message", "DB"),
            query("level", "error"),
            query("resourceId", "server-1234"),
            query("traceId", "abc-xyz-123"),
            query("spanId", "span-456"),
            query("commit", "5e5342f"),
            query("parentResourceId", "server-0987"),
        ]
    );
}

#[test]
fn last_parameter_wins() {
    let params = vec![param("level", "info"), param("level", "error")];
    assert_eq!(param_value(&params, &"level".to_string()), Some("error".to_string()));
    assert_eq!(param_value(&params, &"message".to_string()), None);
    assert_eq!(search_plan(&params), vec![query("level", "error")]);
}

#[test]
fn empty_value_still_queries() {
    assert_eq!(search_plan(&vec![param("commit", "")]), vec![query("commit", "")]);
}

#[test]
fn join_values_concatenates() {
    assert_eq!(join_values(&vec![]), "");
    assert_eq!(join_values(&strings(&["error"])), "error");
    assert_eq!(join_values(&strings(&["a", "bc", "", "d"])), "abcd");
}

#[test]
fn flatten_joins_each_field() {
    let stored = StoredHit {
        level: strings(&["error"]),
        message: strings(&["two", " parts"]),
        resource_id: strings(&[]),
        timestamp: strings(&["2024-01-02T03:04:05Z"]),
        trace_id: strings(&["t"]),
        span_id: strings(&["s"]),
        commit: strings(&["c"]),
        parent_resource_id: strings(&["p"]),
    };
    assert_eq!(
        flatten_hit(&stored),
        SearchHit {
            level: "error".to_string(),
            message: "two parts".to_string(),
            resource_id: "".to_string(),
            timestamp: "2024-01-02T03:04:05Z".to_string(),
            trace_id: "t".to_string(),
            span_id: "s".to_string(),
            commit: "c".to_string(),
            parent_resource_id: "p".to_string(),
        }
    );
}

fn strings_of(json: &serde_json::Value, key: &str) -> Vec<String> {
    json[key].as_array().unwrap().iter().map(|v| v.as_str().unwrap().to_string()).collect()
}

#[test]
fn search_gives_back_an_ingested_log() {
    let schema = engine_schema();
    let index = Index::create_in_ram(schema.clone());
    let mut writer = index.writer(laukey::INDEX_HEAP_SIZE).unwrap();
    let payload = LogsTypes {
        level: "error".to_string(),
        message: "Failed to connect to DB".to_string(),
        resource_id: "server-1234".to_string(),
        timestamp: "2024-01-02T03:04:05Z".to_string(),
        trace_id: "abc-xyz-123".to_string(),
        span_id: "span-456".to_string(),
        commit: "5e5342f".to_string(),
        metadata: MetaData { parent_resource_id: "server-0987".to_string() },
    };
    writer.add_document(log_document(&schema, payload).unwrap()).unwrap();
    writer.commit().unwrap();
    let searcher = index.reader().unwrap().searcher();

    let plan = search_plan(&vec![
        param("level", "error"),
        param("message", "connect"),
        param("timestamp", "2024-01-01T00:00:00Z TO 2024-01-03T00:00:00Z"),
    ]);
    let mut queries: Vec<(Occur, Box<dyn tantivy::query::Query>)> = Vec::new();
    for field_query in &plan {
        let field = schema.get_field(&field_query.field).unwrap();
        let parser = QueryParser::for_index(&index, vec![field]);
        queries.push((Occur::Must, parser.parse_query(&field_query.query).unwrap()));
    }
    let top = searcher.search(&BooleanQuery::new(queries), &TopDocs::with_limit(SEARCH_RESULT_LIMIT)).unwrap();
    assert_eq!(top.len(), 1);
    let doc = searcher.doc(top[0].1).unwrap();
    let json: serde_json::Value = serde_json::from_str(&schema.to_json(&doc)).unwrap();
    let stored = StoredHit {
        level: strings_of(&json, "level"),
        message: strings_of(&json, "message"),
        resource_id: strings_of(&json, "resourceId"),
        timestamp: strings_of(&json, "timestamp"),
        trace_id: strings_of(&json, "traceId"),
        span_id: strings_of(&json, "spanId"),
        commit: strings_of(&json, "commit"),
        parent_resource_id: strings_of(&json, "parentResourceId"),
    };
    let hit = flatten_hit(&stored);
    assert_eq!(hit.level, "error");
    assert_eq!(hit.message, "Failed to connect to DB");
    assert_eq!(hit.resource_id, "server-1234");
    assert_eq!(hit.timestamp, "2024-01-02T03:04:05Z");
    assert_eq!(hit.trace_id, "abc-xyz-123");
    assert_eq!(hit.span_id, "span-456");
    assert_eq!(hit.commit, "5e5342f");
    assert_eq!(hit.parent_resource_id, "server-0987");
}

#[test]
fn search_outside_the_time_range_finds_nothing() {
    let schema = engine_schema();
    let index = Index::create_in_ram(schema.clone());
    let mut writer = index.writer(laukey::INDEX_HEAP_SIZE).unwrap();
    let payload = LogsTypes {
        level: "info".to_string(),
        message: "started".to_string(),
        resource_id: "r".to_string(),
        timestamp: "2024-01-02T03:04:05Z".to_string(),
        trace_id: "t".to_string(),
        span_id: "s".to_string(),
        commit: "c".to_string(),
        metadata: MetaData { parent_resource_id: "p".to_string() },
    };
    writer.add_document(log_document(&schema, payload).unwrap()).unwrap();
    writer.commit().unwrap();
    let searcher = index.reader().unwrap().searcher();
    let plan = search_plan(&vec![param("timestamp", "2023-01-01T00:00:00Z TO 2023-12-31T00:00:00Z")]);
    assert_eq!(plan.len(), 1);
    let field = schema.get_field(&plan[0].field).unwrap();
    let parsed = QueryParser::for_index(&index, vec![field]).parse_query(&plan[0].query).unwrap();
    let top = searcher.search(&parsed, &TopDocs::with_limit(SEARCH_RESULT_LIMIT)).unwrap();
    assert!(top.is_empty());
}
