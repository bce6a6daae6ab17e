use crate::schema::{
    holds_log_fields, log_fields, resolves_log_fields, schema_fields, LogFieldIds,
};
use tantivy::schema::{Field, Schema};
use tantivy::Document;
use vstd::prelude::*;

verus! {

#[verifier::external_type_specification]
#[verifier::external_body]
pub struct ExDocument(Document);

/// Metadata attached to an incoming log record.
#[derive(Clone, Debug, PartialEq, Eq)]
pub struct MetaData {
    pub parent_resource_id: String,
}

/// A log record as a client sends it: every field is text, the timestamp an
/// RFC 3339 date and time.
#[derive(Clone, Debug, PartialEq, Eq)]
pub struct LogsTypes {
    pub level: String,
    pub message: String,
    pub resource_id: String,
    pub timestamp: String,
    pub trace_id: String,
    pub span_id: String,
    pub commit: String,
    pub metadata: MetaData,
}

/// A log record ready for the index: its timestamp as seconds since the
/// Unix epoch, and a fresh unique id.
#[derive(Clone, Debug, PartialEq, Eq)]
pub struct LogEntry {
    pub level: String,
    pub message: String,
    pub resource_id: String,
    pub timestamp_secs: i64,
    pub trace_id: String,
    pub span_id: String,
    pub commit: String,
    pub parent_resource_id: String,
    pub unique_id: String,
}

/// Why a log record cannot become an index document.
#[derive(PartialEq, Eq, Structural, Clone, Copy, Debug)]
pub enum IngestError {
    /// The schema lacks one of the log fields.
    MissingField,
    /// The timestamp is not an RFC 3339 date and time.
    InvalidTimestamp,
    /// The timestamp lies so far from the epoch that its nanoseconds do not fit in an `i64`.
    TimestampOutOfRange,
}

/// Seconds since the Unix epoch of an RFC 3339 date and time, as chrono's
/// `DateTime::parse_from_rfc3339` followed by `DateTime::timestamp` computes
/// them; `None` where chrono rejects the text.
pub uninterp spec fn rfc3339_seconds(text: Seq<char>) -> Option<i64>;

/// Calls `chrono::DateTime::parse_from_rfc3339` and, on success,
/// `DateTime::timestamp` of the result, which counts the seconds from the
/// Unix epoch to the parsed instant (its offset taken into account).
#[verifier::external_body]
fn rfc3339_unix_seconds(text: &str) -> (secs: Option<i64>)
    ensures
        secs == rfc3339_seconds(text@),
{
    match chrono::DateTime::parse_from_rfc3339(text) {
        Ok(instant) => Some(instant.timestamp()),
        Err(_) => None,
    }
}

/// A digit of the Crockford base 32 alphabet in which ULIDs are written.
pub open spec fn is_crockford_digit(c: char) -> bool {
    ||| ('0' <= c <= '9')
    ||| ('A' <= c <= 'Z' && c != 'I' && c != 'L' && c != 'O' && c != 'U')
}

/// The text form of a ULID: 26 Crockford base 32 digits.
pub open spec fn is_ulid_text(s: Seq<char>) -> bool {
    s.len() == 26 && forall|i: int| 0 <= i < s.len() ==> is_crockford_digit(#[trigger] s[i])
}

/// Calls `ulid::Ulid::new`, which draws a ULID from the clock and a random
/// source, and `Ulid::to_string`, which writes its 128 bits as 26 digits of
/// the alphabet `0123456789ABCDEFGHJKMNPQRSTVWXYZ`. Which ULID comes out is
/// left open: it depends on the time and on chance.
#[verifier::external_body]
fn fresh_unique_id() -> (id: String)
    ensures
        is_ulid_text(id@),
{
    ulid::Ulid::new().to_string()
}

/// Seconds whose count of nanoseconds fits in an `i64`, as the index stores dates.
pub open spec fn storable_seconds(secs: int) -> bool {
    i64::MIN <= secs * 1_000_000_000 <= i64::MAX
}

/// The seconds that the index can store as a date are those of the dates
/// from 1677-09-21 to 2262-04-11: between -9223372036 and 9223372036.
pub proof fn lemma_storable_seconds_range(secs: int)
    ensures
        storable_seconds(secs) <==> -9_223_372_036 <= secs <= 9_223_372_036,
{
}

/// `entry` carries the fields of `payload`, the timestamp `secs` and the id `id`.
pub open spec fn entry_of(payload: LogsTypes, secs: i64, id: Seq<char>, entry: LogEntry) -> bool {
    &&& entry.level@ == payload.level@
    &&& entry.message@ == payload.message@
    &&& entry.resource_id@ == payload.resource_id@
    &&& entry.timestamp_secs == secs
    &&& entry.trace_id@ == payload.trace_id@
    &&& entry.span_id@ == payload.span_id@
    &&& entry.commit@ == payload.commit@
    &&& entry.parent_resource_id@ == payload.metadata.parent_resource_id@
    &&& entry.unique_id@ == id
}

/// Turns a record whose timestamp parsed to `parsed` into an entry with the
/// id `unique_id`: an error where the timestamp did not parse or cannot be
/// stored, the entry otherwise.
pub fn entry_from_parts(payload: LogsTypes, parsed: Option<i64>, unique_id: String) -> (res: Result<LogEntry, IngestError>)
    ensures
        res == Err::<LogEntry, IngestError>(IngestError::InvalidTimestamp) <==> parsed is None,
        res == Err::<LogEntry, IngestError>(IngestError::TimestampOutOfRange) <==>
            (parsed matches Some(secs) && !storable_seconds(secs as int)),
        res matches Ok(entry) ==> parsed matches Some(secs) && storable_seconds(secs as int)
            && entry_of(payload, secs, unique_id@, entry),
        res is Err ==> res == Err::<LogEntry, IngestError>(IngestError::InvalidTimestamp)
            || res == Err::<LogEntry, IngestError>(IngestError::TimestampOutOfRange),
        res is Ok <==> (parsed matches Some(secs)
            && i64::MIN <= secs * 1_000_000_000 <= i64::MAX),
        res matches Ok(entry) ==> {
            &&& Some(entry.timestamp_secs) == parsed
            &&& entry.level@ == payload.level@
            &&& entry.message@ == payload.message@
            &&& entry.resource_id@ == payload.resource_id@
            &&& entry.trace_id@ == payload.trace_id@
            &&& entry.span_id@ == payload.span_id@
            &&& entry.commit@ == payload.commit@
            &&& entry.parent_resource_id@ == payload.metadata.parent_resource_id@
            &&& entry.unique_id@ == unique_id@
        },
{
    match parsed {
        None => Err(IngestError::InvalidTimestamp),
        Some(secs) => {
            if secs < -9_223_372_036 || secs > 9_223_372_036 {
                Err(IngestError::TimestampOutOfRange)
            } else {
                Ok(LogEntry {
                    level: payload.level,
                    message: payload.message,
                    resource_id: payload.resource_id,
                    timestamp_secs: secs,
                    trace_id: payload.trace_id,
                    span_id: payload.span_id,
                    commit: payload.commit,
                    parent_resource_id: payload.metadata.parent_resource_id,
                    unique_id,
                })
            }
        },
    }
}

/// Parses the record's timestamp and gives the record a fresh unique id.
pub fn prepare_log_entry(payload: LogsTypes) -> (res: Result<LogEntry, IngestError>)
    ensures
        res == Err::<LogEntry, IngestError>(IngestError::InvalidTimestamp) <==> rfc3339_seconds(payload.timestamp@) is None,
        res == Err::<LogEntry, IngestError>(IngestError::TimestampOutOfRange) <==>
            (rfc3339_seconds(payload.timestamp@) matches Some(secs) && !storable_seconds(secs as int)),
        res matches Ok(entry) ==> rfc3339_seconds(payload.timestamp@) matches Some(secs)
            && storable_seconds(secs as int)
            && entry_of(payload, secs, entry.unique_id@, entry)
            && is_ulid_text(entry.unique_id@),
        res is Err ==> res == Err::<LogEntry, IngestError>(IngestError::InvalidTimestamp)
            || res == Err::<LogEntry, IngestError>(IngestError::TimestampOutOfRange),
        res matches Ok(entry) ==> {
            &&& rfc3339_seconds(payload.timestamp@) == Some(entry.timestamp_secs)
            &&& entry.level@ == payload.level@
            &&& entry.message@ == payload.message@
            &&& entry.resource_id@ == payload.resource_id@
            &&& entry.trace_id@ == payload.trace_id@
            &&& entry.span_id@ == payload.span_id@
            &&& entry.commit@ == payload.commit@
            &&& entry.parent_resource_id@ == payload.metadata.parent_resource_id@
            &&& entry.unique_id@.len() == 26
        },
{
    let parsed = rfc3339_unix_seconds(payload.timestamp.as_str());
    let unique_id = fresh_unique_id();
    entry_from_parts(payload, parsed, unique_id)
}

/// The text values, in the order they were added, that a tantivy
/// `Document` holds: each with the id of its field.
pub uninterp spec fn document_texts(doc: Document) -> Seq<(u32, Seq<char>)>;

/// The date values, in the order they were added, that a tantivy
/// `Document` holds: each with the id of its field, in nanoseconds since the
/// Unix epoch.
pub uninterp spec fn document_dates(doc: Document) -> Seq<(u32, i64)>;

/// Calls `Document::default`, a document without values.
#[verifier::external_body]
fn new_document() -> (doc: Document)
    ensures
        document_texts(doc) == Seq::<(u32, Seq<char>)>::empty(),
        document_dates(doc) == Seq::<(u32, i64)>::empty(),
{
    Document::default()
}

/// Calls `Document::add_text` for the field of id `field`: the document
/// appends a text value and its other values stay.
#[verifier::external_body]
fn document_add_text(doc: &mut Document, field: u32, text: &str)
    ensures
        document_texts(*final(doc)) == document_texts(*old(doc)).push((field, text@)),
        document_dates(*final(doc)) == document_dates(*old(doc)),
{
    doc.add_text(Field::from_field_id(field), text)
}

/// Calls `Document::add_date` for the field of id `field` with the date
/// that `tantivy::DateTime::from_timestamp_secs` makes of `secs`, which holds
/// `secs` times 10^9 nanoseconds: the document appends a date value and its
/// other values stay. `from_timestamp_secs` overflows where the nanoseconds
/// do not fit in an `i64`, which `requires` leaves out.
#[verifier::external_body]
fn document_add_date_secs(doc: &mut Document, field: u32, secs: i64)
    requires
        storable_seconds(secs as int),
    ensures
        document_texts(*final(doc)) == document_texts(*old(doc)),
        document_dates(*final(doc)) == document_dates(*old(doc)).push((field, (secs * 1_000_000_000) as i64)),
{
    doc.add_date(Field::from_field_id(field), tantivy::DateTime::from_timestamp_secs(secs))
}

/// The text values of the index document of `entry`, in the order in which
/// they are added.
pub open spec fn log_document_texts(ids: LogFieldIds, entry: LogEntry) -> Seq<(u32, Seq<char>)> {
    seq![
        (ids.level, entry.level@),
        (ids.message, entry.message@),
        (ids.resource_id, entry.resource_id@),
        (ids.trace_id, entry.trace_id@),
        (ids.span_id, entry.span_id@),
        (ids.commit, entry.commit@),
        (ids.parent_resource_id, entry.parent_resource_id@),
        (ids.unique_id, entry.unique_id@),
    ]
}

/// The date values of the index document of `entry`: its timestamp in nanoseconds.
pub open spec fn log_document_dates(ids: LogFieldIds, entry: LogEntry) -> Seq<(u32, i64)> {
    seq![(ids.timestamp, (entry.timestamp_secs * 1_000_000_000) as i64)]
}

/// Builds the index document of `entry`: one value for each log field.
pub fn build_log_document(ids: &LogFieldIds, entry: &LogEntry) -> (doc: Document)
    requires
        storable_seconds(entry.timestamp_secs as int),
    ensures
        document_texts(doc) == log_document_texts(*ids, *entry),
        document_dates(doc) == log_document_dates(*ids, *entry),
        document_dates(doc) == seq![(ids.timestamp, (entry.timestamp_secs * 1_000_000_000) as i64)],
        document_dates(doc).len() == 1 && document_dates(doc)[0].1 == entry.timestamp_secs * 1_000_000_000,
        document_texts(doc) == seq![
            (ids.level, entry.level@),
            (ids.message, entry.message@),
            (ids.resource_id, entry.resource_id@),
            (ids.trace_id, entry.trace_id@),
            (ids.span_id, entry.span_id@),
            (ids.commit, entry.commit@),
            (ids.parent_resource_id, entry.parent_resource_id@),
            (ids.unique_id, entry.unique_id@),
        ],
{
    let mut doc = new_document();
    document_add_text(&mut doc, ids.level, entry.level.as_str());
    document_add_text(&mut doc, ids.message, entry.message.as_str());
    document_add_text(&mut doc, ids.resource_id, entry.resource_id.as_str());
    document_add_date_secs(&mut doc, ids.timestamp, entry.timestamp_secs);
    document_add_text(&mut doc, ids.trace_id, entry.trace_id.as_str());
    document_add_text(&mut doc, ids.span_id, entry.span_id.as_str());
    document_add_text(&mut doc, ids.commit, entry.commit.as_str());
    document_add_text(&mut doc, ids.parent_resource_id, entry.parent_resource_id.as_str());
    document_add_text(&mut doc, ids.unique_id, entry.unique_id.as_str());
    assert(document_texts(doc) =~= log_document_texts(*ids, *entry));
    assert(document_dates(doc) =~= log_document_dates(*ids, *entry));
    doc
}

/// Turns an incoming record into the document that the index stores for it:
/// the fields are looked up in `schema`, the timestamp is parsed and the
/// record gets a fresh unique id.
pub fn log_document(schema: &Schema, payload: LogsTypes) -> (res: Result<Document, IngestError>)
    ensures
        res == Err::<Document, IngestError>(IngestError::MissingField) <==> !holds_log_fields(schema_fields(*schema)),
        res == Err::<Document, IngestError>(IngestError::InvalidTimestamp) <==>
            holds_log_fields(schema_fields(*schema)) && rfc3339_seconds(payload.timestamp@) is None,
        res == Err::<Document, IngestError>(IngestError::TimestampOutOfRange) <==>
            holds_log_fields(schema_fields(*schema))
            && (rfc3339_seconds(payload.timestamp@) matches Some(secs) && !storable_seconds(secs as int)),
        res matches Ok(doc) ==> exists|ids: LogFieldIds, entry: LogEntry| {
            &&& resolves_log_fields(schema_fields(*schema), ids)
            &&& rfc3339_seconds(payload.timestamp@) == Some(entry.timestamp_secs)
            &&& entry_of(payload, entry.timestamp_secs, entry.unique_id@, entry)
            &&& is_ulid_text(entry.unique_id@)
            &&& document_texts(doc) == log_document_texts(ids, entry)
            &&& document_dates(doc) == log_document_dates(ids, entry)
            &&& document_dates(doc).len() == 1
            &&& document_dates(doc)[0] == (ids.timestamp, (entry.timestamp_secs * 1_000_000_000) as i64)
            &&& document_dates(doc)[0].1 == entry.timestamp_secs * 1_000_000_000
            &&& document_texts(doc).len() == 8
            &&& document_texts(doc)[0] == (ids.level, payload.level@)
            &&& document_texts(doc)[1] == (ids.message, payload.message@)
            &&& document_texts(doc)[2] == (ids.resource_id, payload.resource_id@)
            &&& document_texts(doc)[3] == (ids.trace_id, payload.trace_id@)
            &&& document_texts(doc)[4] == (ids.span_id, payload.span_id@)
            &&& document_texts(doc)[5] == (ids.commit, payload.commit@)
            &&& document_texts(doc)[6] == (ids.parent_resource_id, payload.metadata.parent_resource_id@)
            &&& document_texts(doc)[7] == (ids.unique_id, entry.unique_id@)
        },
{
    let ids = match log_fields(schema) {
        Some(ids) => ids,
        None => return Err(IngestError::MissingField),
    };
    match prepare_log_entry(payload) {
        Ok(entry) => {
            let doc = build_log_document(&ids, &entry);
            assert(resolves_log_fields(schema_fields(*schema), ids));
            Ok(doc)
        },
        Err(e) => Err(e),
    }
}

} // verus!
