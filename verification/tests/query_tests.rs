use laukey::ingest::{log_document, LogsTypes, MetaData};
use laukey::query::{find_hits, parse_field_query, search_query, search_request};
use laukey::schema::engine_schema;
use laukey::search::{QueryParam, SEARCH_RESULT_LIMIT};
use tantivy::query::Occur;
use tantivy::schema::{Schema, STORED, STRING};
use tantivy::Index;

fn param(key: &str, value: &str) -> QueryParam {
    QueryParam { key: key.to_string(), value: value.to_string() }
}

fn record(level: &str, trace_id: &str, timestamp: &str) -> LogsTypes {
    LogsTypes {
        level: level.to_string(),
        message: "request served".to_string(),
        resource_id: "server-1".to_string(),
        timestamp: timestamp.to_string(),
        trace_id: trace_id.to_string(),
        span_id: "span".to_string(),
        commit: "abc123".to_string(),
        metadata: MetaData { parent_resource_id: "parent".to_string() },
    }
}

fn index_with(records: Vec<LogsTypes>) -> (Index, Schema) {
    let schema = engine_schema();
    let index = Index::create_in_ram(schema.clone());
    let mut writer = index.writer(laukey::INDEX_HEAP_SIZE).unwrap();
    for r in records {
        writer.add_document(log_document(&schema, r).unwrap()).unwrap();
    }
    writer.commit().unwrap();
    (index, schema)
}

#[test]
fn query_has_one_must_clause_per_parameter() {
    let (index, _schema) = index_with(vec![]);
    let params = vec![param("level", "error"), param("message", "db"), param("timestamp", "2024-01-01T00:00:00Z TO 2024-01-02T00:00:00Z")];
    let query = search_query(&index, &params).unwrap();
    assert_eq!(query.clauses().len(), 3);
    assert!(query.clauses().iter().all(|(occur, _)| *occur == Occur::Must));
}

#[test]
fn query_without_parameters_has_no_clause() {
    let (index, _schema) = index_with(vec![]);
    let query = search_query(&index, &vec![]).unwrap();
    assert!(query.clauses().is_empty());
}

#[test]
fn query_fails_on_a_field_the_schema_lacks() {
    let mut builder = Schema::builder();
    builder.add_text_field("level", STRING | STORED);
    let schema = builder.build();
    let index = Index::create_in_ram(schema.clone());
    assert!(search_query(&index, &vec![param("level", "error")]).is_some());
    assert!(search_query(&index, &vec![param("level", "error"), param("commit", "abc")]).is_none());
}

#[test]
fn query_fails_on_a_malformed_range() {
    let (index, _schema) = index_with(vec![]);
    assert!(search_query(&index, &vec![param("timestamp", "not a date TO later")]).is_none());
}

#[test]
fn parse_keeps_the_field() {
    let (index, _schema) = index_with(vec![]);
    assert!(parse_field_query(&index, 0, "error").is_some());
}

#[test]
fn request_carries_the_limit() {
    let (index, _schema) = index_with(vec![]);
    let request = search_request(&index, &vec![param("level", "error")]).unwrap();
    assert_eq!(request.limit, SEARCH_RESULT_LIMIT);
}

#[test]
fn search_is_a_conjunction() {
    let (index, _schema) = index_with(vec![
        record("error", "t1", "2024-01-02T03:04:05Z"),
        record("error", "t2", "2024-01-02T03:04:05Z"),
        record("info", "t1", "2024-01-02T03:04:05Z"),
    ]);
    let searcher = index.reader().unwrap().searcher();
    let both = search_request(&index, &vec![param("level", "error"), param("traceId", "t1")]).unwrap();
    assert_eq!(find_hits(&searcher, &both).unwrap().into_addresses().len(), 1);
    let level_only = search_request(&index, &vec![param("level", "error")]).unwrap();
    assert_eq!(find_hits(&searcher, &level_only).unwrap().into_addresses().len(), 2);
}

#[test]
fn search_hands_back_at_most_the_limit() {
    let records = (0..12).map(|i| record("warn", &format!("trace{}", i), "2024-01-02T03:04:05Z")).collect();
    let (index, _schema) = index_with(records);
    let searcher = index.reader().unwrap().searcher();
    let request = search_request(&index, &vec![param("level", "warn")]).unwrap();
    assert_eq!(find_hits(&searcher, &request).unwrap().into_addresses().len(), SEARCH_RESULT_LIMIT);
}

#[test]
fn search_by_time_range() {
    let (index, _schema) = index_with(vec![
        record("info", "a", "2024-01-02T03:04:05Z"),
        record("info", "b", "2024-03-02T03:04:05Z"),
    ]);
    let searcher = index.reader().unwrap().searcher();
    let request = search_request(
        &index,
        &vec![param("timestamp", "2024-01-01T00:00:00Z TO 2024-02-01T00:00:00Z")],
    )
    .unwrap();
    assert_eq!(find_hits(&searcher, &request).unwrap().into_addresses().len(), 1);
}

#[test]
fn unknown_parameters_find_nothing() {
    let (index, _schema) = index_with(vec![record("info", "t", "2024-01-02T03:04:05Z")]);
    let searcher = index.reader().unwrap().searcher();
    let request = search_request(&index, &vec![param("foo", "bar")]).unwrap();
    assert!(request.query.clauses().is_empty());
    assert_eq!(request.limit, SEARCH_RESULT_LIMIT);
    assert!(find_hits(&searcher, &request).unwrap().into_addresses().is_empty());
}

#[test]
fn an_added_parameter_narrows_the_hits() {
    let (index, _schema) = index_with(vec![
        record("error", "t1", "2024-01-02T03:04:05Z"),
        record("error", "t2", "2024-01-02T03:04:05Z"),
    ]);
    let searcher = index.reader().unwrap().searcher();
    let narrow = vec![param("level", "error")];
    let narrower = vec![param("level", "error"), param("traceId", "t2")];
    let q1 = search_request(&index, &narrow).unwrap();
    let q2 = search_request(&index, &narrower).unwrap();
    assert_eq!(q2.query.clauses().len(), q1.query.clauses().len() + 1);
    assert_eq!(find_hits(&searcher, &q1).unwrap().into_addresses().len(), 2);
    assert_eq!(find_hits(&searcher, &q2).unwrap().into_addresses().len(), 1);
}
