use tantivy::schema::{DateOptions, Schema, SchemaBuilder, INDEXED, STORED, STRING, TEXT};
use tantivy::DateTimePrecision;
use vstd::prelude::*;

verus! {

#[verifier::external_type_specification]
#[verifier::external_body]
pub struct ExSchemaBuilder(SchemaBuilder);

#[verifier::external_type_specification]
#[verifier::external_body]
pub struct ExSchema(Schema);

/// How the words of a text field are indexed.
#[derive(PartialEq, Eq, Structural, Clone, Copy, Debug)]
pub enum TextIndexing {
    /// Split into tokens, so that a query matches single words (tantivy's `TEXT`).
    Tokenized,
    /// Indexed as one raw term, so that a query matches the whole value (tantivy's `STRING`).
    Raw,
}

/// The kind of a field of the log index. Every field is stored, so that a
/// search hit can give its values back.
#[derive(PartialEq, Eq, Structural, Clone, Copy, Debug)]
pub enum FieldKind {
    /// A stored text field, indexed as given.
    Text(TextIndexing),
    /// A stored, indexed date field with a fast column kept at second precision.
    Date,
}

/// The fields, in order, that a tantivy `SchemaBuilder` has been given: the
/// position of an entry is the id of its field. For a field of a type outside
/// `FieldKind`, only the name and position of its entry carry meaning.
pub uninterp spec fn builder_fields(builder: SchemaBuilder) -> Seq<(Seq<char>, FieldKind)>;

/// The fields, in order, of a tantivy `Schema`: the position of an entry is
/// the id of its field. The library makes only the kinds of `FieldKind`; for a
/// field of another type (a number, bytes, JSON, ...) in a schema made
/// elsewhere, only the name and position of its entry carry meaning.
pub uninterp spec fn schema_fields(schema: Schema) -> Seq<(Seq<char>, FieldKind)>;

/// The names of a sequence of field entries.
pub open spec fn field_names(fields: Seq<(Seq<char>, FieldKind)>) -> Seq<Seq<char>> {
    fields.map_values(|entry: (Seq<char>, FieldKind)| entry.0)
}

/// A name that tantivy accepts for a field: not empty, and not starting with '-'.
pub open spec fn valid_field_name(name: Seq<char>) -> bool {
    name.len() > 0 && name[0] != '-'
}

/// Calls `tantivy::schema::Schema::builder`, which starts a builder that
/// holds no field yet.
#[verifier::external_body]
fn new_schema_builder() -> (builder: SchemaBuilder)
    ensures
        builder_fields(builder) == Seq::<(Seq<char>, FieldKind)>::empty(),
{
    Schema::builder()
}

/// Calls `SchemaBuilder::add_text_field` with the options that `indexing`
/// stands for (`TEXT | STORED` or `STRING | STORED`) and returns the new
/// field's id. The builder appends the entry, so its id is the number of
/// fields it held before. Tantivy panics on a name that is already taken,
/// empty, or starts with '-', which `requires` leaves out.
#[verifier::external_body]
fn builder_add_text_field(builder: &mut SchemaBuilder, name: &str, indexing: TextIndexing) -> (id: u32)
    requires
        valid_field_name(name@),
        !field_names(builder_fields(*old(builder))).contains(name@),
        builder_fields(*old(builder)).len() < u32::MAX,
    ensures
        builder_fields(*final(builder)) == builder_fields(*old(builder)).push((name@, FieldKind::Text(indexing))),
        id == builder_fields(*old(builder)).len(),
{
    let options = match indexing {
        TextIndexing::Tokenized => TEXT | STORED,
        TextIndexing::Raw => STRING | STORED,
    };
    builder.add_text_field(name, options).field_id()
}

/// Calls `SchemaBuilder::add_date_field` with the options of `FieldKind::Date`
/// (indexed, stored, fast, second precision) and returns the new field's id,
/// which is the number of fields the builder held before. Tantivy panics on a
/// name that is already taken, empty, or starts with '-', which `requires`
/// leaves out.
#[verifier::external_body]
fn builder_add_date_field(builder: &mut SchemaBuilder, name: &str) -> (id: u32)
    requires
        valid_field_name(name@),
        !field_names(builder_fields(*old(builder))).contains(name@),
        builder_fields(*old(builder)).len() < u32::MAX,
    ensures
        builder_fields(*final(builder)) == builder_fields(*old(builder)).push((name@, FieldKind::Date)),
        id == builder_fields(*old(builder)).len(),
{
    let options = DateOptions::from(INDEXED).set_stored().set_fast().set_precision(DateTimePrecision::Seconds);
    builder.add_date_field(name, options).field_id()
}

/// Calls `SchemaBuilder::build`, which moves the builder's fields, in order,
/// into the schema.
#[verifier::external_body]
fn build_schema(builder: SchemaBuilder) -> (schema: Schema)
    ensures
        schema_fields(schema) == builder_fields(builder),
{
    builder.build()
}

/// Calls `Schema::get_field`, which looks a name up in the schema's map from
/// names to fields. The map sends each name to the position where it was
/// added, so the call finds a field exactly when some entry carries the name,
/// and the id it gives is the position of such an entry, the only one: a schema
/// never holds two fields of one name, since adding a taken name panics, also
/// when a schema is read back.
#[verifier::external_body]
pub(crate) fn schema_field_id(schema: &Schema, name: &str) -> (id: Option<u32>)
    ensures
        id is Some <==> field_names(schema_fields(*schema)).contains(name@),
        id matches Some(i) ==> i < schema_fields(*schema).len() && schema_fields(*schema)[i as int].0 == name@
            && forall|j: int| 0 <= j < schema_fields(*schema).len() && #[trigger] schema_fields(*schema)[j].0 == name@ ==> j == i,
{
    match schema.get_field(name) {
        Ok(field) => Some(field.field_id()),
        Err(_) => None,
    }
}

/// The fields of the log index, in the order in which they are created.
pub open spec fn log_schema_fields() -> Seq<(Seq<char>, FieldKind)> {
    seq![
        ("level"@, FieldKind::Text(TextIndexing::Raw)),
        ("message"@, FieldKind::Text(TextIndexing::Tokenized)),
        ("resourceId"@, FieldKind::Text(TextIndexing::Tokenized)),
        ("timestamp"@, FieldKind::Date),
        ("traceId"@, FieldKind::Text(TextIndexing::Raw)),
        ("spanId"@, FieldKind::Text(TextIndexing::Raw)),
        ("commit"@, FieldKind::Text(TextIndexing::Raw)),
        ("parentResourceId"@, FieldKind::Text(TextIndexing::Raw)),
        ("uniqueID"@, FieldKind::Text(TextIndexing::Raw)),
    ]
}

/// The names of the log fields told apart by length, and where two have the
/// same length, by their first character; none starts with '-'.
pub(crate) proof fn lemma_log_field_names_distinct()
    ensures
        "level"@.len() == 5 && "level"@[0] == 'l',
        "message"@.len() == 7 && "message"@[0] == 'm',
        "resourceId"@.len() == 10 && "resourceId"@[0] == 'r',
        "timestamp"@.len() == 9 && "timestamp"@[0] == 't',
        "traceId"@.len() == 7 && "traceId"@[0] == 't',
        "spanId"@.len() == 6 && "spanId"@[0] == 's',
        "commit"@.len() == 6 && "commit"@[0] == 'c',
        "parentResourceId"@.len() == 16 && "parentResourceId"@[0] == 'p',
        "uniqueID"@.len() == 8 && "uniqueID"@[0] == 'u',
{
    reveal_strlit("level");
    reveal_strlit("message");
    reveal_strlit("resourceId");
    reveal_strlit("timestamp");
    reveal_strlit("traceId");
    reveal_strlit("spanId");
    reveal_strlit("commit");
    reveal_strlit("parentResourceId");
    reveal_strlit("uniqueID");
}

/// Builds the schema of the log index: level, message, resource id,
/// timestamp, trace id, span id, commit, parent resource id and a unique id.
pub fn engine_schema() -> (schema: Schema)
    ensures
        schema_fields(schema) == log_schema_fields(),
{
    proof {
        lemma_log_field_names_distinct();
    }
    let mut builder = new_schema_builder();
    let ghost fields0 = builder_fields(builder);
    assert(field_names(fields0) =~= seq![]);
    builder_add_text_field(&mut builder, "level", TextIndexing::Raw);
    let ghost fields1 = builder_fields(builder);
    assert(field_names(fields1) =~= seq!["level"@]);
    builder_add_text_field(&mut builder, "message", TextIndexing::Tokenized);
    let ghost fields2 = builder_fields(builder);
    assert(field_names(fields2) =~= seq!["level"@, "message"@]);
    builder_add_text_field(&mut builder, "resourceId", TextIndexing::Tokenized);
    let ghost fields3 = builder_fields(builder);
    assert(field_names(fields3) =~= seq!["level"@, "message"@, "resourceId"@]);
    builder_add_date_field(&mut builder, "timestamp");
    let ghost fields4 = builder_fields(builder);
    assert(field_names(fields4) =~= seq!["level"@, "message"@, "resourceId"@, "timestamp"@]);
    builder_add_text_field(&mut builder, "traceId", TextIndexing::Raw);
    let ghost fields5 = builder_fields(builder);
    assert(field_names(fields5) =~= seq!["level"@, "message"@, "resourceId"@, "timestamp"@, "traceId"@]);
    builder_add_text_field(&mut builder, "spanId", TextIndexing::Raw);
    let ghost fields6 = builder_fields(builder);
    assert(field_names(fields6) =~= seq!["level"@, "message"@, "resourceId"@, "timestamp"@, "traceId"@, "spanId"@]);
    builder_add_text_field(&mut builder, "commit", TextIndexing::Raw);
    let ghost fields7 = builder_fields(builder);
    assert(field_names(fields7) =~= seq!["level"@, "message"@, "resourceId"@, "timestamp"@, "traceId"@, "spanId"@, "commit"@]);
    builder_add_text_field(&mut builder, "parentResourceId", TextIndexing::Raw);
    let ghost fields8 = builder_fields(builder);
    assert(field_names(fields8) =~= seq!["level"@, "message"@, "resourceId"@, "timestamp"@, "traceId"@, "spanId"@, "commit"@, "parentResourceId"@]);
    builder_add_text_field(&mut builder, "uniqueID", TextIndexing::Raw);
    let schema = build_schema(builder);
    assert(schema_fields(schema) =~= log_schema_fields());
    schema
}

/// The ids of the log fields in a schema.
#[derive(PartialEq, Eq, Structural, Clone, Copy, Debug)]
pub struct LogFieldIds {
    pub level: u32,
    pub message: u32,
    pub resource_id: u32,
    pub timestamp: u32,
    pub trace_id: u32,
    pub span_id: u32,
    pub commit: u32,
    pub parent_resource_id: u32,
    pub unique_id: u32,
}

/// `id` is the id of a field named `name` among `fields`.
pub open spec fn names_field(fields: Seq<(Seq<char>, FieldKind)>, id: u32, name: Seq<char>) -> bool {
    id < fields.len() && fields[id as int].0 == name
}

/// Every log field has a field of its name among `fields`.
pub open spec fn holds_log_fields(fields: Seq<(Seq<char>, FieldKind)>) -> bool {
    let names = field_names(fields);
    &&& names.contains("level"@)
    &&& names.contains("message"@)
    &&& names.contains("resourceId"@)
    &&& names.contains("timestamp"@)
    &&& names.contains("traceId"@)
    &&& names.contains("spanId"@)
    &&& names.contains("commit"@)
    &&& names.contains("parentResourceId"@)
    &&& names.contains("uniqueID"@)
}

/// Each id of `ids` is the id of the field of the matching name among `fields`.
pub open spec fn resolves_log_fields(fields: Seq<(Seq<char>, FieldKind)>, ids: LogFieldIds) -> bool {
    &&& names_field(fields, ids.level, "level"@)
    &&& names_field(fields, ids.message, "message"@)
    &&& names_field(fields, ids.resource_id, "resourceId"@)
    &&& names_field(fields, ids.timestamp, "timestamp"@)
    &&& names_field(fields, ids.trace_id, "traceId"@)
    &&& names_field(fields, ids.span_id, "spanId"@)
    &&& names_field(fields, ids.commit, "commit"@)
    &&& names_field(fields, ids.parent_resource_id, "parentResourceId"@)
    &&& names_field(fields, ids.unique_id, "uniqueID"@)
}

/// No two log fields share an id.
pub open spec fn distinct_ids(ids: LogFieldIds) -> bool {
    let all = seq![
        ids.level, ids.message, ids.resource_id, ids.timestamp, ids.trace_id,
        ids.span_id, ids.commit, ids.parent_resource_id, ids.unique_id,
    ];
    forall|i: int, j: int| 0 <= i < j < 9 ==> all[i] != all[j]
}

/// Looks up, by name, the field of every log field in `schema`; gives
/// `None` when one of them is missing.
pub fn log_fields(schema: &Schema) -> (ids: Option<LogFieldIds>)
    ensures
        ids is Some <==> holds_log_fields(schema_fields(*schema)),
        ids matches Some(ids) ==> resolves_log_fields(schema_fields(*schema), ids),
        ids matches Some(ids) ==> forall|other: LogFieldIds|
            #[trigger] resolves_log_fields(schema_fields(*schema), other) ==> other == ids,
{
    let level = schema_field_id(schema, "level");
    let message = schema_field_id(schema, "message");
    let resource_id = schema_field_id(schema, "resourceId");
    let timestamp = schema_field_id(schema, "timestamp");
    let trace_id = schema_field_id(schema, "traceId");
    let span_id = schema_field_id(schema, "spanId");
    let commit = schema_field_id(schema, "commit");
    let parent_resource_id = schema_field_id(schema, "parentResourceId");
    let unique_id = schema_field_id(schema, "uniqueID");
    match (level, message, resource_id, timestamp, trace_id, span_id, commit, parent_resource_id, unique_id) {
        (Some(level), Some(message), Some(resource_id), Some(timestamp), Some(trace_id),
         Some(span_id), Some(commit), Some(parent_resource_id), Some(unique_id)) => {
            let ids = LogFieldIds {
                level,
                message,
                resource_id,
                timestamp,
                trace_id,
                span_id,
                commit,
                parent_resource_id,
                unique_id,
            };
            proof {
                let fields = schema_fields(*schema);
                assert forall|other: LogFieldIds| #[trigger] resolves_log_fields(fields, other) implies other == ids by {
                    assert(fields[other.level as int].0 == "level"@);
                    assert(fields[other.message as int].0 == "message"@);
                    assert(fields[other.resource_id as int].0 == "resourceId"@);
                    assert(fields[other.timestamp as int].0 == "timestamp"@);
                    assert(fields[other.trace_id as int].0 == "traceId"@);
                    assert(fields[other.span_id as int].0 == "spanId"@);
                    assert(fields[other.commit as int].0 == "commit"@);
                    assert(fields[other.parent_resource_id as int].0 == "parentResourceId"@);
                    assert(fields[other.unique_id as int].0 == "uniqueID"@);
                }
            }
            Some(ids)
        },
        _ => None,
    }
}

/// Ids that resolve the log fields among any fields are pairwise distinct,
/// since the log fields carry pairwise distinct names.
pub proof fn lemma_resolved_ids_distinct(fields: Seq<(Seq<char>, FieldKind)>, ids: LogFieldIds)
    requires
        resolves_log_fields(fields, ids),
    ensures
        distinct_ids(ids),
{
    lemma_log_field_names_distinct();
}

/// The schema that `engine_schema` builds holds every log field, and the
/// only ids that resolve them are the positions in creation order.
pub proof fn lemma_engine_schema_holds_log_fields()
    ensures
        holds_log_fields(log_schema_fields()),
        resolves_log_fields(log_schema_fields(), engine_field_ids()),
        forall|ids: LogFieldIds| resolves_log_fields(log_schema_fields(), ids) ==> ids == engine_field_ids(),
{
    lemma_log_field_names_distinct();
    let fields = log_schema_fields();
    let names = field_names(fields);
    assert(names[0] == "level"@);
    assert(names[1] == "message"@);
    assert(names[2] == "resourceId"@);
    assert(names[3] == "timestamp"@);
    assert(names[4] == "traceId"@);
    assert(names[5] == "spanId"@);
    assert(names[6] == "commit"@);
    assert(names[7] == "parentResourceId"@);
    assert(names[8] == "uniqueID"@);
}

/// The ids of the log fields in the schema of `engine_schema`.
pub open spec fn engine_field_ids() -> LogFieldIds {
    LogFieldIds {
        level: 0,
        message: 1,
        resource_id: 2,
        timestamp: 3,
        trace_id: 4,
        span_id: 5,
        commit: 6,
        parent_resource_id: 7,
        unique_id: 8,
    }
}

} // verus!
