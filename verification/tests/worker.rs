use schema_migrations::document::DocumentValue;
use schema_migrations::error::MigrationError;
use schema_migrations::ident::TableName;
use schema_migrations::json::Json;
use schema_migrations::migration::{SchemaMigration, SchemaMigrationScope};
use schema_migrations::records::{SchemaMigrationRecordMetadata, SchemaMigrationState};
use schema_migrations::handler::{
    decode_handler_result, handler_output_text, HandlerOutput, HandlerResult,
};
use schema_migrations::run::{migration_context, migration_patch, DocumentPatch, MigrationRun, RunPhase};
use schema_migrations::worker::{
    MigrationLookup, SchemaMigrationPass, SchemaMigrationWorker, WorkerAction,
};

fn render(j: &Json) -> String {
    match j {
        Json::Null => "null".to_string(),
        Json::Bool(b) => b.to_string(),
        Json::Number(n) => n.clone(),
        Json::Str(s) => format!("{:?}", s),
        Json::Array(items) => format!("[{}]", items.iter().map(render).collect::<Vec<_>>().join(",")),
        Json::Object(members) => format!(
            "{{{}}}",
            members
                .iter()
                .map(|(k, v)| format!("{:?}:{}", k, render(v)))
                .collect::<Vec<_>>()
                .join(",")
        ),
    }
}

fn render_patch(p: &DocumentPatch) -> String {
    format!(
        "{{{}}}",
        p.fields
            .iter()
            .map(|(k, v)| match v {
                Some(v) => format!("{:?}:{}", k, render(v)),
                None => format!("{:?}:<removed>", k),
            })
            .collect::<Vec<_>>()
            .join(",")
    )
}

fn res(value: Json) -> HandlerResult {
    HandlerResult { value, undefined_fields: vec![] }
}

fn field_migration(id: &str, source: &str) -> SchemaMigration {
    SchemaMigration::new(
        id.to_string(),
        TableName::parse("messages").unwrap(),
        SchemaMigrationScope::Field,
        Some("author.name".to_string()),
        None,
        0,
        source.to_string(),
    )
}

fn table_migration(id: &str, source: &str) -> SchemaMigration {
    SchemaMigration::new(
        id.to_string(),
        TableName::parse("messages").unwrap(),
        SchemaMigrationScope::Table,
        None,
        None,
        0,
        source.to_string(),
    )
}

fn record_for(m: &SchemaMigration, hash: &str, state: SchemaMigrationState) -> SchemaMigrationRecordMetadata {
    SchemaMigrationRecordMetadata {
        migration_id: m.id.clone(),
        component_path: "".to_string(),
        table_name: m.table_name.duplicate(),
        field_path: m.field_path.clone(),
        handler_hash: hash.to_string(),
        state,
        completed_at: 0,
        docs_processed: 0,
    }
}

fn lookup(m: SchemaMigration, existing: Option<SchemaMigrationRecordMetadata>) -> MigrationLookup {
    MigrationLookup { migration: m, existing }
}

fn doc() -> Vec<(String, DocumentValue)> {
    vec![
        ("body".to_string(), DocumentValue::Other(Json::Str("hi".to_string()))),
        (
            "author".to_string(),
            DocumentValue::Object(vec![(
                "name".to_string(),
                DocumentValue::Other(Json::Str("ada".to_string())),
            )]),
        ),
    ]
}

#[test]
fn pending_skips_completed_and_keeps_order() {
    let a = field_migration("a", "(ctx) => 1");
    let b = table_migration("b", "(ctx) => 2");
    let c = table_migration("c", "(ctx) => 3");
    let done_a = record_for(&a, &a.handler_hash.clone(), SchemaMigrationState::Completed);
    let failed_b = record_for(&b, &b.handler_hash.clone(), SchemaMigrationState::Failed);
    let lookups = vec![lookup(a, Some(done_a)), lookup(b, Some(failed_b)), lookup(c, None)];
    let pending = SchemaMigrationWorker::pending_migrations_for_schema(&lookups).unwrap();
    let ids: Vec<_> = pending.iter().map(|m| m.id.clone()).collect();
    assert_eq!(ids, vec!["b", "c"]);
    assert!(!SchemaMigrationWorker::migrations_complete_for_schema(&lookups));
}

#[test]
fn changed_handler_is_refused() {
    let a = table_migration("a", "(ctx) => 1");
    let b = table_migration("renameField", "(ctx) => 2");
    let old_b = record_for(&b, "0000", SchemaMigrationState::Completed);
    let lookups = vec![lookup(a, None), lookup(b, Some(old_b))];
    let err = SchemaMigrationWorker::pending_migrations_for_schema(&lookups).unwrap_err();
    assert_eq!(
        err,
        MigrationError::BadRequest {
            short_msg: "MigrationHandlerChanged".to_string(),
            msg: "Migration \"renameField\" has already run with different code. Use a new migration id."
                .to_string(),
        }
    );
    assert_eq!(err.short_msg(), Some("MigrationHandlerChanged".to_string()));
    // Completeness looks at states only.
    assert!(!SchemaMigrationWorker::migrations_complete_for_schema(&lookups));
}

#[test]
fn complete_when_every_migration_completed() {
    assert!(SchemaMigrationWorker::migrations_complete_for_schema(&vec![]));
    let a = table_migration("a", "(ctx) => 1");
    let rec = record_for(&a, &a.handler_hash.clone(), SchemaMigrationState::Completed);
    let lookups = vec![lookup(a, Some(rec))];
    assert!(SchemaMigrationWorker::migrations_complete_for_schema(&lookups));
    assert!(SchemaMigrationWorker::pending_migrations_for_schema(&lookups).unwrap().is_empty());
}

#[test]
fn field_context_holds_old_value_and_document() {
    let m = field_migration("a", "(ctx) => ctx.oldValue");
    let ctx = migration_context(&m, &doc()).unwrap();
    assert_eq!(
        render(&ctx),
        r#"{"oldValue":"ada","doc":{"body":"hi","author":{"name":"ada"}},"fieldPath":"author.name","tableName":"messages","isMissing":false}"#
    );
}

#[test]
fn field_context_for_missing_value() {
    let m = SchemaMigration::new(
        "a".to_string(),
        TableName::parse("messages").unwrap(),
        SchemaMigrationScope::Field,
        Some("title".to_string()),
        None,
        0,
        "(ctx) => 1".to_string(),
    );
    let ctx = migration_context(&m, &doc()).unwrap();
    assert_eq!(
        render(&ctx),
        r#"{"oldValue":null,"doc":{"body":"hi","author":{"name":"ada"}},"fieldPath":"title","tableName":"messages","isMissing":true}"#
    );
}

#[test]
fn table_context_holds_document() {
    let m = table_migration("t", "(ctx) => ctx.doc");
    let ctx = migration_context(&m, &doc()).unwrap();
    assert_eq!(
        render(&ctx),
        r#"{"doc":{"body":"hi","author":{"name":"ada"}},"tableName":"messages"}"#
    );
}

#[test]
fn field_migration_without_path_is_refused() {
    let m = SchemaMigration::new(
        "a".to_string(),
        TableName::parse("messages").unwrap(),
        SchemaMigrationScope::Field,
        None,
        None,
        0,
        "(ctx) => 1".to_string(),
    );
    let err = migration_context(&m, &doc()).unwrap_err();
    assert_eq!(err, MigrationError::MissingFieldPath);
    assert_eq!(err.message(), "Field migration missing field path");
}

#[test]
fn patches() {
    let m = field_migration("a", "(ctx) => 1");
    let p = migration_patch(&m, res(Json::Str("grace".to_string()))).unwrap();
    assert_eq!(render_patch(&p), r#"{"author":{"name":"grace"}}"#);
    let t = table_migration("t", "(ctx) => 1");
    let p = migration_patch(&t, res(Json::Object(vec![("x".to_string(), Json::Null)]))).unwrap();
    assert_eq!(render_patch(&p), r#"{"x":null}"#);
    let p = migration_patch(
        &t,
        HandlerResult {
            value: Json::Object(vec![("name".to_string(), Json::Str("n".to_string()))]),
            undefined_fields: vec!["first".to_string(), "last".to_string()],
        },
    )
    .unwrap();
    assert_eq!(render_patch(&p), r#"{"name":"n","first":<removed>,"last":<removed>}"#);
    // A table migration's result must be a patch object.
    let err = migration_patch(&t, res(Json::Number("3".to_string()))).unwrap_err();
    assert_eq!(err, MigrationError::PatchNotAnObject);
    assert_eq!(err.message(), "Table migration handler must return an object");
}

#[test]
fn run_counts_documents_and_records_completion() {
    let m = field_migration("a", "(ctx) => ctx.oldValue");
    let hash = m.handler_hash.clone();
    let mut run = MigrationRun::new(m, "app/sub".to_string());
    assert_eq!(run.phase(), RunPhase::AwaitingDocument);

    // A document whose handler returns a value gets a patch.
    let call = run.next_document(&doc()).unwrap();
    assert_eq!(call.handlers, vec!["(ctx) => ctx.oldValue".to_string()]);
    assert_eq!(call.handler_index, 0);
    assert!(render(&call.context).starts_with(r#"{"oldValue":"ada""#));
    assert_eq!(run.phase(), RunPhase::AwaitingHandler);
    let patch = run.handler_result(Some(res(Json::Str("x".to_string())))).unwrap().unwrap();
    assert_eq!(render_patch(&patch), r#"{"author":{"name":"x"}}"#);
    assert_eq!(run.phase(), RunPhase::AwaitingPatchWrite);
    assert_eq!(run.docs_processed(), 0);
    run.patch_written();
    assert_eq!(run.docs_processed(), 1);

    // A document whose handler returns nothing is left alone.
    run.next_document(&doc()).unwrap();
    assert!(run.handler_result(None).unwrap().is_none());
    assert_eq!(run.docs_processed(), 2);
    assert_eq!(run.phase(), RunPhase::AwaitingDocument);

    let record = run.finish(1_700_000_123);
    assert_eq!(run.phase(), RunPhase::Finished);
    assert_eq!(record.migration_id, "a");
    assert_eq!(record.component_path, "app/sub");
    assert_eq!(record.table_name.as_str(), "messages");
    assert_eq!(record.field_path.as_deref(), Some("author.name"));
    assert_eq!(record.handler_hash, hash);
    assert_eq!(record.state, SchemaMigrationState::Completed);
    assert_eq!(record.completed_at, 1_700_000_123);
    assert_eq!(record.docs_processed, 2);

    // With its completion recorded, the migration is not pending any more.
    let again = field_migration("a", "(ctx) => ctx.oldValue");
    let lookups = vec![lookup(again, Some(record))];
    assert!(SchemaMigrationWorker::pending_migrations_for_schema(&lookups).unwrap().is_empty());
    assert!(SchemaMigrationWorker::migrations_complete_for_schema(&lookups));
}

#[test]
fn run_fails_on_bad_field_path() {
    let m = SchemaMigration::new(
        "a".to_string(),
        TableName::parse("messages").unwrap(),
        SchemaMigrationScope::Field,
        Some("author..name".to_string()),
        None,
        0,
        "(ctx) => 1".to_string(),
    );
    let mut run = MigrationRun::new(m, "".to_string());
    let err = run.next_document(&doc()).unwrap_err();
    assert_eq!(err, MigrationError::InvalidIdentifier { text: "author..name".to_string() });
    assert_eq!(err.message(), "Invalid identifier \"author..name\"");
    assert_eq!(run.phase(), RunPhase::Finished);
}

#[test]
fn backoff_doubles_and_caps() {
    assert_eq!(SchemaMigrationWorker::backoff_ceiling_ms(0), 10);
    assert_eq!(SchemaMigrationWorker::backoff_ceiling_ms(1), 20);
    assert_eq!(SchemaMigrationWorker::backoff_ceiling_ms(8), 2560);
    assert_eq!(SchemaMigrationWorker::backoff_ceiling_ms(9), 5000);
    assert_eq!(SchemaMigrationWorker::backoff_ceiling_ms(u32::MAX), 5000);
}

#[test]
fn worker_loop_resets_after_success() {
    let mut w = SchemaMigrationWorker::new();
    assert_eq!(w.record_pass(false), WorkerAction::Retry { ceiling_ms: 10 });
    assert_eq!(w.record_pass(false), WorkerAction::Retry { ceiling_ms: 20 });
    assert_eq!(w.record_pass(false), WorkerAction::Retry { ceiling_ms: 40 });
    assert_eq!(w.record_pass(true), WorkerAction::Continue);
    assert_eq!(w.record_pass(false), WorkerAction::Retry { ceiling_ms: 10 });
}

fn number_doc(value: &str) -> Vec<(String, DocumentValue)> {
    vec![("value".to_string(), DocumentValue::Other(Json::Number(value.to_string())))]
}

fn member<'a>(j: &'a Json, key: &str) -> Option<&'a Json> {
    match j {
        Json::Object(members) => members.iter().find(|(k, _)| k == key).map(|(_, v)| v),
        _ => None,
    }
}

#[test]
fn readme_field_migrations_on_numbers() {
    // `key`: "add key field" returns the old value, or "item" when missing.
    let key_migration = SchemaMigration::new(
        "add key field".to_string(),
        TableName::parse("numbers").unwrap(),
        SchemaMigrationScope::Field,
        Some("key".to_string()),
        None,
        0,
        "(ctx) => { if (!ctx.isMissing) return ctx.oldValue; return \"item\"; }".to_string(),
    );
    let mut run = MigrationRun::new(key_migration, "".to_string());
    let mut patches = Vec::new();
    for value in ["10", "42"] {
        let ctx = run.next_document(&number_doc(value)).unwrap().context;
        assert_eq!(render(member(&ctx, "isMissing").unwrap()), "true");
        assert_eq!(render(member(&ctx, "oldValue").unwrap()), "null");
        assert_eq!(render(member(&ctx, "fieldPath").unwrap()), "\"key\"");
        assert_eq!(render(member(&ctx, "tableName").unwrap()), "\"numbers\"");
        let result = Some(res(Json::Str("item".to_string())));
        let patch = run.handler_result(result).unwrap().unwrap();
        patches.push(render_patch(&patch));
        run.patch_written();
    }
    assert_eq!(patches, vec![r#"{"key":"item"}"#, r#"{"key":"item"}"#]);
    assert_eq!(run.finish(0).docs_processed, 2);

    // `value`: "number to string and add key" sees the old number.
    let value_migration = SchemaMigration::new(
        "number to string and add key".to_string(),
        TableName::parse("numbers").unwrap(),
        SchemaMigrationScope::Field,
        Some("value".to_string()),
        None,
        0,
        "(ctx) => `${ctx.doc.key ?? \"item\"}: ${ctx.oldValue}`".to_string(),
    );
    let mut run = MigrationRun::new(value_migration, "".to_string());
    let ctx = run.next_document(&number_doc("10")).unwrap().context;
    assert_eq!(render(member(&ctx, "oldValue").unwrap()), "10");
    assert_eq!(render(member(&ctx, "isMissing").unwrap()), "false");
    let patch = run.handler_result(Some(res(Json::Str("item: 10".to_string())))).unwrap().unwrap();
    assert_eq!(render_patch(&patch), r#"{"value":"item: 10"}"#);
}

#[test]
fn readme_table_migration_on_users() {
    let m = SchemaMigration::new(
        "combine name fields".to_string(),
        TableName::parse("users").unwrap(),
        SchemaMigrationScope::Table,
        None,
        None,
        0,
        "(ctx) => ({ name: `${ctx.doc.first} ${ctx.doc.last}` })".to_string(),
    );
    let mut run = MigrationRun::new(m, "".to_string());
    let user = vec![
        ("first".to_string(), DocumentValue::Other(Json::Str("Ada".to_string()))),
        ("last".to_string(), DocumentValue::Other(Json::Str("Lovelace".to_string()))),
    ];
    let ctx = run.next_document(&user).unwrap().context;
    assert_eq!(render(&ctx), r#"{"doc":{"first":"Ada","last":"Lovelace"},"tableName":"users"}"#);
    // The module reports { name: "Ada Lovelace", first: undefined, last: undefined } as
    // this JSON text: the members set to undefined are listed apart.
    let output = Json::Object(vec![
        (
            "value".to_string(),
            Json::Object(vec![("name".to_string(), Json::Str("Ada Lovelace".to_string()))]),
        ),
        (
            "undefinedFields".to_string(),
            Json::Array(vec![Json::Str("first".to_string()), Json::Str("last".to_string())]),
        ),
    ]);
    let result = decode_handler_result(output).unwrap();
    let patch = run.handler_result(Some(result)).unwrap().unwrap();
    // name is set; first and last are removed.
    assert_eq!(render_patch(&patch), r#"{"name":"Ada Lovelace","first":<removed>,"last":<removed>}"#);
    run.patch_written();
    // A handler that returns nothing skips the document.
    run.next_document(&vec![]).unwrap();
    assert!(run.handler_result(None).unwrap().is_none());
    assert_eq!(run.finish(5).docs_processed, 2);
}

#[test]
fn migration_on_empty_table_completes_at_once() {
    let m = table_migration("t", "(ctx) => ctx.doc");
    let mut run = MigrationRun::new(m, "".to_string());
    let record = run.finish(42);
    assert_eq!(record.docs_processed, 0);
    assert_eq!(record.state, SchemaMigrationState::Completed);
    let lookups = vec![lookup(table_migration("t", "(ctx) => ctx.doc"), Some(record))];
    assert!(SchemaMigrationWorker::pending_migrations_for_schema(&lookups).unwrap().is_empty());
}

#[test]
fn table_result_that_is_not_an_object_ends_the_run() {
    let mut run = MigrationRun::new(table_migration("t", "(ctx) => 3"), "".to_string());
    run.next_document(&doc()).unwrap();
    let err = run.handler_result(Some(res(Json::Number("3".to_string())))).unwrap_err();
    assert_eq!(err, MigrationError::PatchNotAnObject);
    assert_eq!(run.phase(), RunPhase::Finished);
}

#[test]
fn handler_outputs() {
    assert_eq!(handler_output_text(HandlerOutput::Undefined).unwrap(), None);
    assert_eq!(handler_output_text(HandlerOutput::Null).unwrap(), None);
    assert_eq!(
        handler_output_text(HandlerOutput::Text("{}".to_string())).unwrap(),
        Some("{}".to_string())
    );
    assert_eq!(
        handler_output_text(HandlerOutput::Other).unwrap_err(),
        MigrationError::InvalidHandlerOutput
    );
}

#[test]
fn decoding_module_output() {
    let ok = decode_handler_result(Json::Object(vec![
        ("undefinedFields".to_string(), Json::Array(vec![Json::Str("a".to_string())])),
        ("value".to_string(), Json::Number("7".to_string())),
    ]))
    .unwrap();
    assert_eq!(render(&ok.value), "7");
    assert_eq!(ok.undefined_fields, vec!["a".to_string()]);
    for bad in [
        Json::Null,
        Json::Object(vec![("value".to_string(), Json::Null)]),
        Json::Object(vec![
            ("value".to_string(), Json::Null),
            ("undefinedFields".to_string(), Json::Str("a".to_string())),
        ]),
        Json::Object(vec![
            ("value".to_string(), Json::Null),
            ("undefinedFields".to_string(), Json::Array(vec![Json::Null])),
        ]),
    ] {
        assert_eq!(decode_handler_result(bad).unwrap_err(), MigrationError::InvalidHandlerOutput);
    }
}

#[test]
fn pass_hands_out_pending_migrations_in_order_despite_failures() {
    let a = table_migration("a", "(ctx) => 1");
    let b = table_migration("b", "(ctx) => 2");
    let c = table_migration("c", "(ctx) => 3");
    let done_b = record_for(&b, &b.handler_hash.clone(), SchemaMigrationState::Completed);
    let lookups = vec![lookup(a, None), lookup(b, Some(done_b)), lookup(c, None)];
    let mut pass = SchemaMigrationPass::new(&lookups).unwrap();
    assert_eq!(pass.len(), 2);
    assert_eq!(pass.next_migration().unwrap().id, "a");
    pass.migration_failed();
    assert_eq!(pass.next_migration().unwrap().id, "c");
    assert!(pass.next_migration().is_none());
    assert_eq!(pass.failed(), &vec!["a".to_string()]);

    let changed = table_migration("a", "(ctx) => 9");
    let old = record_for(&changed, "ffff", SchemaMigrationState::Completed);
    assert!(SchemaMigrationPass::new(&vec![lookup(changed, Some(old))]).is_err());
}

#[test]
fn handler_hash_has_sixty_four_hex_digits() {
    let m = table_migration("a", "(ctx) => 1");
    assert_eq!(m.handler_hash.len(), 64);
    assert!(m.handler_hash.chars().all(|c| c.is_ascii_hexdigit() && !c.is_ascii_uppercase()));
}
