use vstd::prelude::*;
use crate::document::{
    DocumentModel, document_json, DocumentValue, field_patch_json, field_value, fields_json, fields_model, fields_wf,
    get_field_value, json_at_path, lemma_field_value_is_value_at_path, lemma_nest_at_path,
    member_lookup, nest_at, object_to_json, value_at_path,
};
use crate::handler::{HandlerCall, HandlerResult, HandlerResultModel};
use crate::error::{MigrationError, MigrationErrorModel};
use crate::ident::{lemma_split_dots_nonempty, split_dots, strings_model, valid_field_path};
use crate::json::{Json, JsonModel, lemma_members_model, members_model};
use crate::migration::{
    SchemaMigration, SchemaMigrationModel, SchemaMigrationScope, clone_opt_string, opt_json_model,
};
use crate::records::{RecordModel, SchemaMigrationRecordMetadata, SchemaMigrationState, serialize_record};
use crate::worker::{
    LookupModel, all_completed, already_completed, handler_changed,
    lemma_complete_and_unchanged_means_nothing_pending, select_pending,
};

verus! {

/// The context handed to a migration handler for one document: for a field
/// migration the old value at the field path, the document, the field path,
/// the table name and whether the value is missing; for a table migration the
/// document and the table name. Refused when a field migration has no field
/// path, or one that is not made of identifiers.
pub open spec fn context_model(m: SchemaMigrationModel, doc: Seq<(Seq<char>, DocumentModel)>) -> Result<
    JsonModel,
    MigrationErrorModel,
> {
    let doc_json = JsonModel::Object(fields_json(doc));
    match m.scope {
        SchemaMigrationScope::Field => match m.field_path {
            None => Err(MigrationErrorModel::MissingFieldPath),
            Some(path) => if !valid_field_path(path) {
                Err(MigrationErrorModel::InvalidIdentifier { text: path })
            } else {
                let (old_value, missing) = field_value(doc, split_dots(path));
                Ok(
                    JsonModel::Object(
                        seq![
                            ("oldValue"@, old_value),
                            ("doc"@, doc_json),
                            ("fieldPath"@, JsonModel::Str(path)),
                            ("tableName"@, JsonModel::Str(m.table_name)),
                            ("isMissing"@, JsonModel::Bool(missing)),
                        ],
                    ),
                )
            },
        },
        SchemaMigrationScope::Table => Ok(
            JsonModel::Object(
                seq![("doc"@, doc_json), ("tableName"@, JsonModel::Str(m.table_name))],
            ),
        ),
    }
}

/// A change to the top-level fields of a document: each named field is set
/// to a value, or removed where the value is `None`.
#[derive(Debug)]
pub struct DocumentPatch {
    pub fields: Vec<(String, Option<Json>)>,
}

/// The model of the fields of a patch.
pub open spec fn patch_fields_model(fields: Seq<(String, Option<Json>)>) -> Seq<
    (Seq<char>, Option<JsonModel>),
> {
    fields.map_values(|f: (String, Option<Json>)| (f.0@, opt_json_model(f.1)))
}

impl View for DocumentPatch {
    type V = Seq<(Seq<char>, Option<JsonModel>)>;

    open spec fn view(&self) -> Seq<(Seq<char>, Option<JsonModel>)> {
        patch_fields_model(self.fields@)
    }
}

/// The patch for a handler's result. For a field migration: the outermost
/// piece of the field path set to the result placed under the rest of the
/// path. For a table migration: every member of the result set to its
/// value, then every member that the handler set to `undefined` removed;
/// refused when the result is not an object.
pub open spec fn patch_model(m: SchemaMigrationModel, result: HandlerResultModel) -> Result<
    Seq<(Seq<char>, Option<JsonModel>)>,
    MigrationErrorModel,
> {
    match m.scope {
        SchemaMigrationScope::Field => {
            let parts = split_dots(m.field_path->0);
            Ok(seq![(parts[0], Some(nest_at(parts.drop_first(), result.value)))])
        },
        SchemaMigrationScope::Table => match result.value {
            JsonModel::Object(members) => Ok(
                members.map_values(|m: (Seq<char>, JsonModel)| (m.0, Some(m.1)))
                    + result.undefined_fields.map_values(|k: Seq<char>| (k, None::<JsonModel>)),
            ),
            _ => Err(MigrationErrorModel::PatchNotAnObject),
        },
    }
}

/// The context handed to the migration's handler for the document `doc`.
pub fn migration_context(migration: &SchemaMigration, doc: &Vec<(String, DocumentValue)>) -> (context:
    Result<Json, MigrationError>)
    requires
        fields_wf(fields_model(doc@)),
    ensures
        match context {
            Ok(c) => context_model(migration@, fields_model(doc@)) == Ok::<
                JsonModel,
                MigrationErrorModel,
            >(c@),
            Err(e) => context_model(migration@, fields_model(doc@)) == Err::<
                JsonModel,
                MigrationErrorModel,
            >(e@),
        },
{
    let doc_json = object_to_json(doc);
    let ghost doc_model = doc_json@;
    match migration.scope {
        SchemaMigrationScope::Field => {
            let field_path = match &migration.field_path {
                Some(p) => p,
                None => return Err(MigrationError::MissingFieldPath),
            };
            let (old_value, missing) = match get_field_value(doc, field_path.as_str()) {
                Ok(found) => found,
                Err(e) => return Err(e),
            };
            let ghost old_model = old_value@;
            let members = vec![
                (String::from_str("oldValue"), old_value),
                (String::from_str("doc"), doc_json),
                (String::from_str("fieldPath"), Json::Str(field_path.clone())),
                (String::from_str("tableName"), Json::Str(migration.table_name.to_string())),
                (String::from_str("isMissing"), Json::Bool(missing)),
            ];
            proof {
                lemma_members_model(members@);
                assert(members_model(members@) =~= seq![
                    ("oldValue"@, old_model),
                    ("doc"@, doc_model),
                    ("fieldPath"@, JsonModel::Str(field_path@)),
                    ("tableName"@, JsonModel::Str(migration@.table_name)),
                    ("isMissing"@, JsonModel::Bool(missing)),
                ]);
            }
            Ok(Json::Object(members))
        },
        SchemaMigrationScope::Table => {
            let members = vec![
                (String::from_str("doc"), doc_json),
                (String::from_str("tableName"), Json::Str(migration.table_name.to_string())),
            ];
            proof {
                lemma_members_model(members@);
                assert(members_model(members@) =~= seq![
                    ("doc"@, doc_model),
                    ("tableName"@, JsonModel::Str(migration@.table_name)),
                ]);
            }
            Ok(Json::Object(members))
        },
    }
}

/// The patch to write for the handler's result on one document, or the
/// error that refuses the result.
pub fn migration_patch(migration: &SchemaMigration, result: HandlerResult) -> (patch: Result<
    DocumentPatch,
    MigrationError,
>)
    requires
        migration.scope == SchemaMigrationScope::Field ==> migration.field_path is Some,
    ensures
        match patch {
            Ok(p) => patch_model(migration@, result@) == Ok::<
                Seq<(Seq<char>, Option<JsonModel>)>,
                MigrationErrorModel,
            >(p@),
            Err(e) => patch_model(migration@, result@) == Err::<
                Seq<(Seq<char>, Option<JsonModel>)>,
                MigrationErrorModel,
            >(e@),
        },
{
    let ghost result_model = result@;
    match migration.scope {
        SchemaMigrationScope::Field => {
            let field_path = migration.field_path.as_ref().unwrap();
            let ghost parts = split_dots(field_path@);
            proof {
                lemma_split_dots_nonempty(field_path@);
            }
            let nested = field_patch_json(field_path.as_str(), result.value);
            match nested {
                Json::Object(mut members) => {
                    proof {
                        lemma_members_model(members@);
                        assert(members_model(members@) == seq![
                            (parts[0], nest_at(parts.drop_first(), result_model.value)),
                        ]);
                    }
                    let ghost before = members@;
                    let (name, value) = members.pop().unwrap();
                    proof {
                        assert(before.len() == 1);
                        assert(members_model(before)[0] == (name@, value@));
                    }
                    let fields = vec![(name, Some(value))];
                    proof {
                        assert(patch_fields_model(fields@) =~= seq![
                            (parts[0], Some(nest_at(parts.drop_first(), result_model.value))),
                        ]);
                    }
                    Ok(DocumentPatch { fields })
                },
                _ => {
                    assert(false);
                    Err(MigrationError::PatchNotAnObject)
                },
            }
        },
        SchemaMigrationScope::Table => {
            let members = match result.value {
                Json::Object(members) => members,
                _ => return Err(MigrationError::PatchNotAnObject),
            };
            let ghost mm = members_model(members@);
            proof {
                lemma_members_model(members@);
            }
            let mut fields: Vec<(String, Option<Json>)> = Vec::new();
            let n = members.len();
            for i in 0..n
                invariant
                    n == members@.len(),
                    mm == members_model(members@),
                    mm.len() == n,
                    forall|k: int|
                        0 <= k < n ==> #[trigger] mm[k] == (
                            members@[k].0@,
                            members@[k].1@,
                        ),
                    patch_fields_model(fields@) == mm.subrange(0, i as int).map_values(
                        |m: (Seq<char>, JsonModel)| (m.0, Some(m.1)),
                    ),
            {
                let ghost before = fields@;
                let name = members[i].0.clone();
                let value = members[i].1.duplicate();
                fields.push((name, Some(value)));
                proof {
                    assert(fields@ =~= before.push((name, Some(value))));
                    assert(patch_fields_model(fields@) =~= patch_fields_model(before).push(
                        (name@, Some(value@)),
                    ));
                    assert(mm[i as int] == (name@, value@));
                    assert(mm.subrange(0, i + 1) =~= mm.subrange(0, i as int).push(mm[i as int]));
                    assert(patch_fields_model(fields@) =~= mm.subrange(0, i + 1).map_values(
                        |m: (Seq<char>, JsonModel)| (m.0, Some(m.1)),
                    ));
                }
            }
            let ghost set_part = patch_fields_model(fields@);
            assert(mm.subrange(0, n as int) =~= mm);
            let ghost removed = strings_model(result.undefined_fields@);
            let m = result.undefined_fields.len();
            for j in 0..m
                invariant
                    m == result.undefined_fields@.len(),
                    removed == strings_model(result.undefined_fields@),
                    patch_fields_model(fields@) == set_part + removed.subrange(
                        0,
                        j as int,
                    ).map_values(|k: Seq<char>| (k, None::<JsonModel>)),
            {
                let ghost before = fields@;
                let name = result.undefined_fields[j].clone();
                fields.push((name, None));
                proof {
                    assert(fields@ =~= before.push((name, None)));
                    assert(patch_fields_model(fields@) =~= patch_fields_model(before).push(
                        (name@, None::<JsonModel>),
                    ));
                    assert(removed[j as int] == name@);
                    assert(removed.subrange(0, j + 1) =~= removed.subrange(0, j as int).push(
                        removed[j as int],
                    ));
                    assert(patch_fields_model(fields@) =~= set_part + removed.subrange(
                        0,
                        j + 1,
                    ).map_values(|k: Seq<char>| (k, None::<JsonModel>)));
                }
            }
            assert(removed.subrange(0, m as int) =~= removed);
            Ok(DocumentPatch { fields })
        },
    }
}

/// The record written when a migration has gone through every document of
/// its table: the migration's id, table, field path and handler hash, the
/// component, the time, the number of documents, and the state `Completed`.
pub open spec fn completion_record_model(
    m: SchemaMigrationModel,
    component_path: Seq<char>,
    completed_at: i64,
    docs_processed: u64,
) -> RecordModel {
    RecordModel {
        migration_id: m.id,
        component_path,
        table_name: m.table_name,
        field_path: m.field_path,
        handler_hash: m.handler_hash,
        state: SchemaMigrationState::Completed,
        completed_at,
        docs_processed,
    }
}

/// Where a run of one migration stands.
#[derive(Clone, Copy, Debug, PartialEq, Eq, Structural)]
pub enum RunPhase {
    /// Ready for the next document of the table, or for its end.
    AwaitingDocument,
    /// The handler is running on a document's context.
    AwaitingHandler,
    /// A patch for the current document is being written.
    AwaitingPatchWrite,
    /// The run has recorded its completion, or has failed.
    Finished,
}

/// One run of a migration over the documents of its table.
pub struct MigrationRun {
    migration: SchemaMigration,
    component_path: String,
    docs_processed: u64,
    phase: RunPhase,
}

/// The model of a [`MigrationRun`].
pub ghost struct RunModel {
    pub migration: SchemaMigrationModel,
    pub component_path: Seq<char>,
    pub docs_processed: u64,
    pub phase: RunPhase,
}

impl RunModel {
    /// While a document is with the handler or its patch is being written,
    /// a field migration has its field path.
    pub open spec fn wf(self) -> bool {
        (self.phase == RunPhase::AwaitingHandler || self.phase == RunPhase::AwaitingPatchWrite) ==> (
        self.migration.scope == SchemaMigrationScope::Field ==> self.migration.field_path is Some)
    }
}

impl View for MigrationRun {
    type V = RunModel;

    closed spec fn view(&self) -> RunModel {
        RunModel {
            migration: self.migration@,
            component_path: self.component_path@,
            docs_processed: self.docs_processed,
            phase: self.phase,
        }
    }
}

impl MigrationRun {
    /// A run of `migration` for the component at `component_path`, before its
    /// first document.
    pub fn new(migration: SchemaMigration, component_path: String) -> (run: Self)
        ensures
            run@ == (RunModel {
                migration: migration@,
                component_path: component_path@,
                docs_processed: 0,
                phase: RunPhase::AwaitingDocument,
            }),
            run@.wf(),
    {
        MigrationRun { migration, component_path, docs_processed: 0, phase: RunPhase::AwaitingDocument }
    }

    /// Where the run stands.
    pub fn phase(&self) -> (phase: RunPhase)
        ensures
            phase == self@.phase,
    {
        self.phase
    }

    /// How many documents the run has gone through.
    pub fn docs_processed(&self) -> (n: u64)
        ensures
            n == self@.docs_processed,
    {
        self.docs_processed
    }

    /// The migration being run.
    pub fn migration(&self) -> (m: &SchemaMigration)
        ensures
            m@ == self@.migration,
    {
        &self.migration
    }

    /// The next document of the table: the handler call to make for it (the
    /// migration's handler alone, at index 0, with the document's context),
    /// or the error that ends the run.
    pub fn next_document(&mut self, doc: &Vec<(String, DocumentValue)>) -> (call: Result<
        HandlerCall,
        MigrationError,
    >)
        requires
            old(self)@.phase == RunPhase::AwaitingDocument,
            fields_wf(fields_model(doc@)),
        ensures
            match call {
                Ok(c) => context_model(old(self)@.migration, fields_model(doc@)) == Ok::<
                    JsonModel,
                    MigrationErrorModel,
                >(c.context@) && strings_model(c.handlers@) == seq![
                    old(self)@.migration.handler_source,
                ] && c.handler_index == 0 && final(self)@ == (RunModel {
                    phase: RunPhase::AwaitingHandler,
                    ..old(self)@
                }),
                Err(e) => context_model(old(self)@.migration, fields_model(doc@)) == Err::<
                    JsonModel,
                    MigrationErrorModel,
                >(e@) && final(self)@ == (RunModel { phase: RunPhase::Finished, ..old(self)@ }),
            },
            final(self)@.wf(),
    {
        match migration_context(&self.migration, doc) {
            Ok(context) => {
                self.phase = RunPhase::AwaitingHandler;
                let handlers = vec![self.migration.handler_source.clone()];
                assert(strings_model(handlers@) =~= seq![self.migration.handler_source@]);
                Ok(HandlerCall { handlers, handler_index: 0, context })
            },
            Err(e) => {
                self.phase = RunPhase::Finished;
                Err(e)
            },
        }
    }

    /// What the handler returned for the current document (`None` when it
    /// returned nothing): the patch to write, if any, or the error that ends
    /// the run. A document without a patch is done.
    pub fn handler_result(&mut self, result: Option<HandlerResult>) -> (patch: Result<
        Option<DocumentPatch>,
        MigrationError,
    >)
        requires
            old(self)@.phase == RunPhase::AwaitingHandler,
            old(self)@.wf(),
            result is None ==> old(self)@.docs_processed < u64::MAX,
        ensures
            match result {
                None => patch matches Ok(None) && final(self)@ == (RunModel {
                    docs_processed: (old(self)@.docs_processed + 1) as u64,
                    phase: RunPhase::AwaitingDocument,
                    ..old(self)@
                }),
                Some(r) => match patch {
                    Ok(Some(p)) => patch_model(old(self)@.migration, r@) == Ok::<
                        Seq<(Seq<char>, Option<JsonModel>)>,
                        MigrationErrorModel,
                    >(p@) && final(self)@ == (RunModel {
                        phase: RunPhase::AwaitingPatchWrite,
                        ..old(self)@
                    }),
                    Ok(None) => false,
                    Err(e) => patch_model(old(self)@.migration, r@) == Err::<
                        Seq<(Seq<char>, Option<JsonModel>)>,
                        MigrationErrorModel,
                    >(e@) && final(self)@ == (RunModel {
                        phase: RunPhase::Finished,
                        ..old(self)@
                    }),
                },
            },
            final(self)@.wf(),
    {
        match result {
            None => {
                self.docs_processed = self.docs_processed + 1;
                self.phase = RunPhase::AwaitingDocument;
                Ok(None)
            },
            Some(r) => match migration_patch(&self.migration, r) {
                Ok(p) => {
                    self.phase = RunPhase::AwaitingPatchWrite;
                    Ok(Some(p))
                },
                Err(e) => {
                    self.phase = RunPhase::Finished;
                    Err(e)
                },
            },
        }
    }

    /// The patch of the current document is written: the document is done.
    pub fn patch_written(&mut self)
        requires
            old(self)@.phase == RunPhase::AwaitingPatchWrite,
            old(self)@.docs_processed < u64::MAX,
        ensures
            final(self)@ == (RunModel {
                docs_processed: (old(self)@.docs_processed + 1) as u64,
                phase: RunPhase::AwaitingDocument,
                ..old(self)@
            }),
            final(self)@.wf(),
    {
        self.docs_processed = self.docs_processed + 1;
        self.phase = RunPhase::AwaitingDocument;
    }

    /// The table has no more documents: the record of the completed run.
    pub fn finish(&mut self, completed_at: i64) -> (record: SchemaMigrationRecordMetadata)
        requires
            old(self)@.phase == RunPhase::AwaitingDocument,
        ensures
            record@ == completion_record_model(
                old(self)@.migration,
                old(self)@.component_path,
                completed_at,
                old(self)@.docs_processed,
            ),
            final(self)@ == (RunModel { phase: RunPhase::Finished, ..old(self)@ }),
            final(self)@.wf(),
    {
        self.phase = RunPhase::Finished;
        SchemaMigrationRecordMetadata {
            migration_id: self.migration.id.clone(),
            component_path: self.component_path.clone(),
            table_name: self.migration.table_name.duplicate(),
            field_path: clone_opt_string(&self.migration.field_path),
            handler_hash: self.migration.handler_hash.clone(),
            state: SchemaMigrationState::Completed,
            completed_at,
            docs_processed: self.docs_processed,
        }
    }
}

/// Law: once a run has recorded its completion, the migration is neither run
/// again nor refused as changed while its handler stays the same.
pub proof fn lemma_completed_run_is_not_rerun(
    m: SchemaMigrationModel,
    component_path: Seq<char>,
    completed_at: i64,
    docs_processed: u64,
)
    ensures
        ({
            let l = LookupModel {
                migration: m,
                existing: Some(
                    completion_record_model(m, component_path, completed_at, docs_processed),
                ),
            };
            &&& already_completed(l)
            &&& !handler_changed(l)
            &&& select_pending(seq![l]) == Ok::<Seq<SchemaMigrationModel>, MigrationErrorModel>(
                Seq::empty(),
            )
        }),
{
    let l = LookupModel {
        migration: m,
        existing: Some(completion_record_model(m, component_path, completed_at, docs_processed)),
    };
    assert(seq![l].drop_last() =~= Seq::<LookupModel>::empty());
    assert(select_pending(Seq::<LookupModel>::empty()) == Ok::<
        Seq<SchemaMigrationModel>,
        MigrationErrorModel,
    >(Seq::empty()));
    assert(seq![l].last() == l);
}

/// The lookups after a pass: every migration that had no completed run now
/// has the record that its run wrote (`records[i]` for the i-th migration).
pub open spec fn after_pass(lookups: Seq<LookupModel>, records: Seq<RecordModel>) -> Seq<LookupModel> {
    Seq::new(
        lookups.len(),
        |i: int|
            if already_completed(lookups[i]) {
                lookups[i]
            } else {
                LookupModel { migration: lookups[i].migration, existing: Some(records[i]) }
            },
    )
}

/// Law: when every migration that was pending runs to completion for a
/// component, the schema's migrations are complete and none is left to run.
pub proof fn lemma_pass_completes_schema(
    lookups: Seq<LookupModel>,
    records: Seq<RecordModel>,
    component_path: Seq<char>,
)
    requires
        select_pending(lookups) is Ok,
        records.len() == lookups.len(),
        forall|i: int|
            0 <= i < lookups.len() && !already_completed(#[trigger] lookups[i]) ==> records[i]
                == completion_record_model(
                lookups[i].migration,
                component_path,
                records[i].completed_at,
                records[i].docs_processed,
            ),
    ensures
        all_completed(after_pass(lookups, records)),
        select_pending(after_pass(lookups, records)) == Ok::<
            Seq<SchemaMigrationModel>,
            MigrationErrorModel,
        >(Seq::empty()),
{
    crate::worker::lemma_refused_iff_handler_changed(lookups);
    let after = after_pass(lookups, records);
    assert forall|i: int| 0 <= i < after.len() implies already_completed(#[trigger] after[i])
        && !handler_changed(after[i]) by {
        if already_completed(lookups[i]) {
            assert(!handler_changed(lookups[i]));
        }
    }
    lemma_complete_and_unchanged_means_nothing_pending(after);
}

/// Law: a field migration's patch sets the outermost piece of the field
/// path, and under it the handler's value sits at the rest of the path.
pub proof fn lemma_field_patch_sets_field(m: SchemaMigrationModel, result: HandlerResultModel)
    requires
        m.scope == SchemaMigrationScope::Field,
        m.field_path is Some,
    ensures
        ({
            let parts = split_dots(m.field_path->0);
            &&& patch_model(m, result) is Ok
            &&& patch_model(m, result)->Ok_0.len() == 1
            &&& patch_model(m, result)->Ok_0[0].0 == parts[0]
            &&& patch_model(m, result)->Ok_0[0].1 is Some
            &&& json_at_path(patch_model(m, result)->Ok_0[0].1->0, parts.drop_first()) == Some(
                result.value,
            )
        }),
{
    lemma_nest_at_path(split_dots(m.field_path->0).drop_first(), result.value);
}

/// Law: a table migration's patch sets every member of the handler's result
/// to its value and removes every member that the handler set to
/// `undefined`; a result that is not an object is refused.
pub proof fn lemma_table_patch_sets_and_removes(m: SchemaMigrationModel, result: HandlerResultModel)
    requires
        m.scope == SchemaMigrationScope::Table,
    ensures
        match result.value {
            JsonModel::Object(members) => {
                &&& patch_model(m, result) is Ok
                &&& forall|i: int|
                    0 <= i < members.len() ==> #[trigger] patch_model(m, result)->Ok_0.contains(
                        (members[i].0, Some(members[i].1)),
                    )
                &&& forall|i: int|
                    0 <= i < result.undefined_fields.len() ==> #[trigger] patch_model(
                        m,
                        result,
                    )->Ok_0.contains((result.undefined_fields[i], None::<JsonModel>))
            },
            _ => patch_model(m, result) == Err::<
                Seq<(Seq<char>, Option<JsonModel>)>,
                MigrationErrorModel,
            >(MigrationErrorModel::PatchNotAnObject),
        },
{
    if let JsonModel::Object(members) = result.value {
        let set = members.map_values(|mm: (Seq<char>, JsonModel)| (mm.0, Some(mm.1)));
        let removed = result.undefined_fields.map_values(|k: Seq<char>| (k, None::<JsonModel>));
        let p = patch_model(m, result)->Ok_0;
        assert(p == set + removed);
        assert forall|i: int| 0 <= i < members.len() implies #[trigger] p.contains(
            (members[i].0, Some(members[i].1)),
        ) by {
            assert(p[i] == (members[i].0, Some(members[i].1)));
        }
        assert forall|i: int| 0 <= i < result.undefined_fields.len() implies #[trigger] p.contains(
            (result.undefined_fields[i], None::<JsonModel>),
        ) by {
            assert(p[set.len() + i] == (result.undefined_fields[i], None::<JsonModel>));
        }
    }
}

/// Law: the context of a field migration holds, by name, the JSON of the
/// value that the field path reaches (`null` where it reaches nothing),
/// whether it reaches nothing, the document's JSON, the field path and the
/// table name; it has these five members and no other.
pub proof fn lemma_field_context_members(m: SchemaMigrationModel, doc: Seq<(Seq<char>, DocumentModel)>)
    requires
        m.scope == SchemaMigrationScope::Field,
        m.field_path is Some,
        valid_field_path(m.field_path->0),
    ensures
        ({
            let path = m.field_path->0;
            let found = value_at_path(doc, split_dots(path));
            let ctx = context_model(m, doc)->Ok_0;
            &&& context_model(m, doc) is Ok
            &&& ctx is Object
            &&& ctx->Object_0.len() == 5
            &&& member_lookup(ctx->Object_0, "oldValue"@) == Some(
                match found {
                    Some(v) => document_json(v),
                    None => JsonModel::Null,
                },
            )
            &&& member_lookup(ctx->Object_0, "isMissing"@) == Some(JsonModel::Bool(found is None))
            &&& member_lookup(ctx->Object_0, "doc"@) == Some(JsonModel::Object(fields_json(doc)))
            &&& member_lookup(ctx->Object_0, "fieldPath"@) == Some(JsonModel::Str(path))
            &&& member_lookup(ctx->Object_0, "tableName"@) == Some(JsonModel::Str(m.table_name))
        }),
{
    reveal_strlit("oldValue");
    reveal_strlit("doc");
    reveal_strlit("fieldPath");
    reveal_strlit("tableName");
    reveal_strlit("isMissing");
    reveal_with_fuel(member_lookup, 6);
    let path = m.field_path->0;
    lemma_field_value_is_value_at_path(doc, split_dots(path));
    let (old_value, missing) = field_value(doc, split_dots(path));
    let ms = seq![
        ("oldValue"@, old_value),
        ("doc"@, JsonModel::Object(fields_json(doc))),
        ("fieldPath"@, JsonModel::Str(path)),
        ("tableName"@, JsonModel::Str(m.table_name)),
        ("isMissing"@, JsonModel::Bool(missing)),
    ];
    assert(context_model(m, doc) == Ok::<JsonModel, MigrationErrorModel>(JsonModel::Object(ms)));
    assert("oldValue"@.len() == 8);
    assert("doc"@.len() == 3);
    assert("fieldPath"@.len() == 9);
    assert("tableName"@.len() == 9);
    assert("isMissing"@.len() == 9);
    assert("oldValue"@ != "doc"@);
    assert("oldValue"@ != "fieldPath"@);
    assert("oldValue"@ != "tableName"@);
    assert("oldValue"@ != "isMissing"@);
    assert("doc"@ != "fieldPath"@);
    assert("doc"@ != "tableName"@);
    assert("doc"@ != "isMissing"@);
    assert("fieldPath"@ != "tableName"@) by {
        assert("fieldPath"@[0] != "tableName"@[0]);
    }
    assert("fieldPath"@ != "isMissing"@) by {
        assert("fieldPath"@[0] != "isMissing"@[0]);
    }
    assert("tableName"@ != "isMissing"@) by {
        assert("tableName"@[0] != "isMissing"@[0]);
    }
    assert(ms.drop_first() =~= ms.subrange(1, 5));
    assert(ms.drop_first().drop_first() =~= ms.subrange(2, 5));
    assert(ms.drop_first().drop_first().drop_first() =~= ms.subrange(3, 5));
    assert(ms.drop_first().drop_first().drop_first().drop_first() =~= ms.subrange(4, 5));
}

/// Law: the context of a table migration holds, by name, the document's JSON
/// and the table name, and no other member.
pub proof fn lemma_table_context_members(m: SchemaMigrationModel, doc: Seq<(Seq<char>, DocumentModel)>)
    requires
        m.scope == SchemaMigrationScope::Table,
    ensures
        ({
            let ctx = context_model(m, doc)->Ok_0;
            &&& context_model(m, doc) is Ok
            &&& ctx is Object
            &&& ctx->Object_0.len() == 2
            &&& member_lookup(ctx->Object_0, "doc"@) == Some(JsonModel::Object(fields_json(doc)))
            &&& member_lookup(ctx->Object_0, "tableName"@) == Some(JsonModel::Str(m.table_name))
        }),
{
    reveal_strlit("doc");
    reveal_strlit("tableName");
    reveal_with_fuel(member_lookup, 3);
    let ms = seq![("doc"@, JsonModel::Object(fields_json(doc))), ("tableName"@, JsonModel::Str(m.table_name))];
    assert(context_model(m, doc) == Ok::<JsonModel, MigrationErrorModel>(JsonModel::Object(ms)));
    assert("doc"@.len() == 3);
    assert("tableName"@.len() == 9);
    assert("doc"@ != "tableName"@);
    assert(ms.drop_first() =~= seq![("tableName"@, JsonModel::Str(m.table_name))]);
}

/// Law: the record that a finished run writes is stored under the run's
/// migration id and component path, with the migration's table, field path
/// and handler hash, the state text `completed`, the time and the count.
pub proof fn lemma_completion_record_stored_under_run(
    m: SchemaMigrationModel,
    component_path: Seq<char>,
    completed_at: i64,
    docs_processed: u64,
)
    ensures
        ({
            let s = serialize_record(
                completion_record_model(m, component_path, completed_at, docs_processed),
            );
            &&& s.migration_id == m.id
            &&& s.component_path == component_path
            &&& s.table_name == m.table_name
            &&& s.field_path == m.field_path
            &&& s.handler_hash == m.handler_hash
            &&& s.state == "completed"@
            &&& s.completed_at == completed_at
            &&& s.docs_processed as u64 == docs_processed
        }),
{
    let n = docs_processed;
    assert(((n as i64) as u64) == n) by (bit_vector);
}

} // verus!
