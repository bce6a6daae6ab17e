use laukey::ingest::{
    build_log_document, entry_from_parts, log_document, prepare_log_entry, IngestError, LogEntry,
    LogsTypes, MetaData,
};
use laukey::schema::{engine_schema, log_fields, LogFieldIds};
use tantivy::schema::{Schema, Value, STORED, STRING};
use tantivy::Document;

fn payload(timestamp: &str) -> LogsTypes {
    LogsTypes {
        level: "error".to_string(),
        message: "Failed to connect to DB".to_string(),
        resource_id: "server-1234".to_string(),
        timestamp: timestamp.to_string(),
        trace_id: "abc-xyz-123".to_string(),
        span_id: "span-456".to_string(),
        commit: "5e5342f".to_string(),
        metadata: MetaData { parent_resource_id: "server-0987".to_string() },
    }
}

fn is_ulid(id: &str) -> bool {
    id.len() == 26 && id.chars().all(|c| "0123456789ABCDEFGHJKMNPQRSTVWXYZ".contains(c))
}

fn texts_of(doc: &Document) -> Vec<(u32, String)> {
    doc.field_values()
        .iter()
        .filter_map(|fv| fv.value().as_text().map(|t| (fv.field().field_id(), t.to_string())))
        .collect()
}

fn dates_of(doc: &Document) -> Vec<(u32, i64)> {
    doc.field_values()
        .iter()
        .filter_map(|fv| match fv.value() {
            Value::Date(d) => Some((fv.field().field_id(), d.into_timestamp_nanos())),
            _ => None,
        })
        .collect()
}

#[test]
fn entry_from_parts_copies_the_record() {
    let entry = entry_from_parts(payload("ignored"), Some(1_704_164_645), "01ARZ3NDEKTSV4RRFFQ69G5FAV".to_string());
    assert_eq!(
        entry,
        Ok(LogEntry {
            level: "error".to_string(),
            message: "Failed to connect to DB".to_string(),
            resource_id: "server-1234".to_string(),
            timestamp_secs: 1_704_164_645,
            trace_id: "abc-xyz-123".to_string(),
            span_id: "span-456".to_string(),
            commit: "5e5342f".to_string(),
            parent_resource_id: "server-0987".to_string(),
            unique_id: "01ARZ3NDEKTSV4RRFFQ69G5FAV".to_string(),
        })
    );
}

#[test]
fn entry_from_parts_without_timestamp() {
    assert_eq!(entry_from_parts(payload("x"), None, "ID".to_string()), Err(IngestError::InvalidTimestamp));
}

#[test]
fn entry_from_parts_range_edges() {
    assert!(entry_from_parts(payload("x"), Some(9_223_372_036), "ID".to_string()).is_ok());
    assert!(entry_from_parts(payload("x"), Some(-9_223_372_036), "ID".to_string()).is_ok());
    assert_eq!(
        entry_from_parts(payload("x"), Some(9_223_372_037), "ID".to_string()),
        Err(IngestError::TimestampOutOfRange)
    );
    assert_eq!(
        entry_from_parts(payload("x"), Some(-9_223_372_037), "ID".to_string()),
        Err(IngestError::TimestampOutOfRange)
    );
}

#[test]
fn prepare_zulu_timestamp() {
    let entry = prepare_log_entry(payload("2024-01-02T03:04:05Z")).unwrap();
    assert_eq!(entry.timestamp_secs, 1_704_164_645);
    assert_eq!(entry.level, "error");
    assert_eq!(entry.parent_resource_id, "server-0987");
    assert!(is_ulid(&entry.unique_id), "{}", entry.unique_id);
}

#[test]
fn prepare_offset_timestamp() {
    let entry = prepare_log_entry(payload("2024-01-02T03:04:05+05:30")).unwrap();
    assert_eq!(entry.timestamp_secs, 1_704_144_845);
}

#[test]
fn prepare_epoch_and_fraction() {
    assert_eq!(prepare_log_entry(payload("1970-01-01T00:00:00Z")).unwrap().timestamp_secs, 0);
    assert_eq!(prepare_log_entry(payload("1970-01-01T00:00:01.999Z")).unwrap().timestamp_secs, 1);
}

#[test]
fn prepare_rejects_malformed_timestamps() {
    for bad in ["", "yesterday", "2024-01-02", "2024-01-02T03:04:05", "2024-13-02T03:04:05Z"] {
        assert_eq!(prepare_log_entry(payload(bad)), Err(IngestError::InvalidTimestamp), "{}", bad);
    }
}

#[test]
fn prepare_rejects_far_dates() {
    assert_eq!(
        prepare_log_entry(payload("2300-01-01T00:00:00Z")),
        Err(IngestError::TimestampOutOfRange)
    );
    assert_eq!(
        prepare_log_entry(payload("1600-01-01T00:00:00Z")),
        Err(IngestError::TimestampOutOfRange)
    );
    assert!(prepare_log_entry(payload("2262-04-11T23:47:16Z")).is_ok());
}

#[test]
fn document_holds_one_value_per_field() {
    let ids = LogFieldIds {
        level: 0,
        message: 1,
        resource_id: 2,
        timestamp: 3,
        trace_id: 4,
        span_id: 5,
        commit: 6,
        parent_resource_id: 7,
        unique_id: 8,
    };
    let entry = entry_from_parts(payload("x"), Some(1_704_164_645), "01ARZ3NDEKTSV4RRFFQ69G5FAV".to_string()).unwrap();
    let doc = build_log_document(&ids, &entry);
    assert_eq!(
        texts_of(&doc),
        vec![
            (0, "error".to_string()),
            (1, "Failed to connect to DB".to_string()),
            (2, "server-1234".to_string()),
            (4, "abc-xyz-123".to_string()),
            (5, "span-456".to_string()),
            (6, "5e5342f".to_string()),
            (7, "server-0987".to_string()),
            (8, "01ARZ3NDEKTSV4RRFFQ69G5FAV".to_string()),
        ]
    );
    assert_eq!(dates_of(&doc), vec![(3, 1_704_164_645_000_000_000)]);
    assert_eq!(doc.len(), 9);
}

#[test]
fn log_document_through_engine_schema() {
    let schema = engine_schema();
    let doc = log_document(&schema, payload("2024-01-02T03:04:05Z")).unwrap();
    let texts = texts_of(&doc);
    assert_eq!(texts[0], (0, "error".to_string()));
    assert_eq!(texts[6], (7, "server-0987".to_string()));
    assert_eq!(texts[7].0, 8);
    assert!(is_ulid(&texts[7].1));
    assert_eq!(dates_of(&doc), vec![(3, 1_704_164_645_000_000_000)]);
    assert!(log_fields(&schema).is_some());
}

#[test]
fn log_document_missing_field() {
    let mut builder = Schema::builder();
    builder.add_text_field("level", STRING | STORED);
    assert_eq!(log_document(&builder.build(), payload("2024-01-02T03:04:05Z")).err(), Some(IngestError::MissingField));
}

#[test]
fn log_document_bad_timestamp() {
    assert_eq!(log_document(&engine_schema(), payload("not a date")).err(), Some(IngestError::InvalidTimestamp));
    assert_eq!(
        log_document(&engine_schema(), payload("2300-01-01T00:00:00Z")).err(),
        Some(IngestError::TimestampOutOfRange)
    );
}
