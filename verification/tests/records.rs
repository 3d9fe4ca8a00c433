use schema_migrations::ident::{DocumentId, TableName};
use schema_migrations::progress::{
    SchemaMigrationProgressMetadata, SchemaMigrationProgressModel,
    SerializedSchemaMigrationProgressMetadata,
};
use schema_migrations::records::{
    SchemaMigrationRecordMetadata, SchemaMigrationState, SerializedSchemaMigrationRecordMetadata,
};
use schema_migrations::error::MigrationError;

const SCHEMA_ID: &str = "k57ff8zv3jq2tvd6cdg8w4mc5n7k1z4jn";

fn record(state: SchemaMigrationState, docs: u64) -> SchemaMigrationRecordMetadata {
    SchemaMigrationRecordMetadata {
        migration_id: "addDefault".to_string(),
        component_path: "".to_string(),
        table_name: TableName::parse("messages").unwrap(),
        field_path: Some("author".to_string()),
        handler_hash: "abc".to_string(),
        state,
        completed_at: 1_700_000_000,
        docs_processed: docs,
    }
}

#[test]
fn record_serializes_state_as_text() {
    let s = SerializedSchemaMigrationRecordMetadata::from_metadata(record(SchemaMigrationState::Completed, 5));
    assert_eq!(s.state, "completed");
    assert_eq!(s.table_name, "messages");
    assert_eq!(s.docs_processed, 5);
    assert_eq!(s.completed_at, 1_700_000_000);
    assert_eq!(s.field_path.as_deref(), Some("author"));
    let s = SerializedSchemaMigrationRecordMetadata::from_metadata(record(SchemaMigrationState::Failed, 0));
    assert_eq!(s.state, "failed");
}

#[test]
fn record_round_trips() {
    for state in [SchemaMigrationState::Completed, SchemaMigrationState::Failed] {
        for docs in [0u64, 1, u64::MAX, 1 << 63] {
            let r = record(state, docs);
            let back = SchemaMigrationRecordMetadata::try_from_serialized(
                SerializedSchemaMigrationRecordMetadata::from_metadata(r.duplicate()),
            )
            .unwrap();
            assert_eq!(back, r);
        }
    }
    let s = SerializedSchemaMigrationRecordMetadata::from_metadata(record(SchemaMigrationState::Completed, u64::MAX));
    assert_eq!(s.docs_processed, -1);
}

#[test]
fn record_with_unknown_state_is_refused() {
    let mut s = SerializedSchemaMigrationRecordMetadata::from_metadata(record(SchemaMigrationState::Completed, 1));
    s.state = "running".to_string();
    let err = SchemaMigrationRecordMetadata::try_from_serialized(s).unwrap_err();
    assert_eq!(err, MigrationError::InvalidMigrationState { state: "running".to_string() });
    assert_eq!(err.message(), "Invalid schema migration state \"running\"");
    assert_eq!(err.short_msg(), None);
}

#[test]
fn record_with_bad_table_name_is_refused() {
    let mut s = SerializedSchemaMigrationRecordMetadata::from_metadata(record(SchemaMigrationState::Completed, 1));
    s.table_name = "9lives".to_string();
    let err = SchemaMigrationRecordMetadata::try_from_serialized(s.clone()).unwrap_err();
    assert_eq!(err, MigrationError::InvalidIdentifier { text: "9lives".to_string() });
    // The state is checked before the table name.
    s.state = "nope".to_string();
    let err = SchemaMigrationRecordMetadata::try_from_serialized(s).unwrap_err();
    assert_eq!(err, MigrationError::InvalidMigrationState { state: "nope".to_string() });
}

#[test]
fn progress_round_trips() {
    let p = SchemaMigrationProgressMetadata {
        schema_id: DocumentId::parse(SCHEMA_ID).unwrap(),
        migration_id: "m1".to_string(),
        num_docs_processed: u64::MAX,
        total_docs: Some(1 << 63),
        complete: true,
    };
    let again = SchemaMigrationProgressMetadata {
        schema_id: p.schema_id.duplicate(),
        migration_id: p.migration_id.clone(),
        num_docs_processed: p.num_docs_processed,
        total_docs: p.total_docs,
        complete: p.complete,
    };
    let s = SerializedSchemaMigrationProgressMetadata::from_metadata(again);
    assert_eq!(s.schema_id, SCHEMA_ID);
    assert_eq!(s.num_docs_processed, -1);
    assert_eq!(s.total_docs, Some(i64::MIN));
    assert_eq!(SchemaMigrationProgressMetadata::try_from_serialized(s).unwrap(), p);
}

#[test]
fn progress_with_bad_schema_id_is_refused() {
    for bad in ["", "k57abc", "K57ff8zv3jq2tvd6cdg8w4mc5n7k1z4jn", "k57ff8zv3jq2tvd6cdg8w4mc5n7k1z4ji"] {
        let s = SerializedSchemaMigrationProgressMetadata {
            schema_id: bad.to_string(),
            migration_id: "m".to_string(),
            num_docs_processed: 0,
            total_docs: None,
            complete: false,
        };
        let err = SchemaMigrationProgressMetadata::try_from_serialized(s).unwrap_err();
        assert_eq!(err, MigrationError::InvalidDocumentId { text: bad.to_string() });
        assert_eq!(err.message(), format!("Invalid document id \"{bad}\""));
    }
}

#[test]
fn progress_starts_empty_and_updates_counts_only() {
    let p = SchemaMigrationProgressModel::initialize_progress(
        DocumentId::parse(SCHEMA_ID).unwrap(),
        "m1".to_string(),
        Some(10),
    );
    assert_eq!(p.num_docs_processed, 0);
    assert!(!p.complete);
    assert_eq!(p.total_docs, Some(10));
    let q = SchemaMigrationProgressModel::update_progress(Some(p), 10, true).unwrap();
    assert_eq!(q.schema_id.as_str(), SCHEMA_ID);
    assert_eq!(q.migration_id, "m1");
    assert_eq!(q.total_docs, Some(10));
    assert_eq!(q.num_docs_processed, 10);
    assert!(q.complete);
    let err = SchemaMigrationProgressModel::update_progress(None, 1, false).unwrap_err();
    assert_eq!(err, MigrationError::MissingProgress);
    assert_eq!(err.message(), "Missing schema migration progress");
}
