use vstd::prelude::*;
use crate::error::{MigrationError, MigrationErrorModel};
use crate::ident::{DocumentId, valid_document_id};

verus! {

/// How far a migration of a pending schema has got.
#[derive(Debug, PartialEq, Eq)]
pub struct SchemaMigrationProgressMetadata {
    /// The id of the schema document.
    pub schema_id: DocumentId,
    pub migration_id: String,
    pub num_docs_processed: u64,
    pub total_docs: Option<u64>,
    pub complete: bool,
}

/// The model of a [`SchemaMigrationProgressMetadata`].
pub ghost struct ProgressModel {
    pub schema_id: Seq<char>,
    pub migration_id: Seq<char>,
    pub num_docs_processed: u64,
    pub total_docs: Option<u64>,
    pub complete: bool,
}

impl View for SchemaMigrationProgressMetadata {
    type V = ProgressModel;

    open spec fn view(&self) -> ProgressModel {
        ProgressModel {
            schema_id: self.schema_id@,
            migration_id: self.migration_id@,
            num_docs_processed: self.num_docs_processed,
            total_docs: self.total_docs,
            complete: self.complete,
        }
    }
}

/// The stored form of a progress document.
#[derive(Clone, Debug, PartialEq, Eq)]
pub struct SerializedSchemaMigrationProgressMetadata {
    pub schema_id: String,
    pub migration_id: String,
    pub num_docs_processed: i64,
    pub total_docs: Option<i64>,
    pub complete: bool,
}

/// The model of a [`SerializedSchemaMigrationProgressMetadata`].
pub ghost struct SerializedProgressModel {
    pub schema_id: Seq<char>,
    pub migration_id: Seq<char>,
    pub num_docs_processed: i64,
    pub total_docs: Option<i64>,
    pub complete: bool,
}

impl View for SerializedSchemaMigrationProgressMetadata {
    type V = SerializedProgressModel;

    open spec fn view(&self) -> SerializedProgressModel {
        SerializedProgressModel {
            schema_id: self.schema_id@,
            migration_id: self.migration_id@,
            num_docs_processed: self.num_docs_processed,
            total_docs: self.total_docs,
            complete: self.complete,
        }
    }
}

/// The stored form of progress: counts as the same 64 bits read as signed.
pub open spec fn serialize_progress(m: ProgressModel) -> SerializedProgressModel {
    SerializedProgressModel {
        schema_id: m.schema_id,
        migration_id: m.migration_id,
        num_docs_processed: m.num_docs_processed as i64,
        total_docs: match m.total_docs {
            Some(t) => Some(t as i64),
            None => None,
        },
        complete: m.complete,
    }
}

/// The progress that a stored form holds: refused when its schema id is not
/// a document id; counts as the same 64 bits read as unsigned.
pub open spec fn deserialize_progress(s: SerializedProgressModel) -> Result<ProgressModel, MigrationErrorModel> {
    if !valid_document_id(s.schema_id) {
        Err(MigrationErrorModel::InvalidDocumentId { text: s.schema_id })
    } else {
        Ok(
            ProgressModel {
                schema_id: s.schema_id,
                migration_id: s.migration_id,
                num_docs_processed: s.num_docs_processed as u64,
                total_docs: match s.total_docs {
                    Some(t) => Some(t as u64),
                    None => None,
                },
                complete: s.complete,
            },
        )
    }
}

impl SerializedSchemaMigrationProgressMetadata {
    /// The stored form of progress.
    pub fn from_metadata(metadata: SchemaMigrationProgressMetadata) -> (serialized: Self)
        ensures
            serialized@ == serialize_progress(metadata@),
            deserialize_progress(serialized@) == Ok::<ProgressModel, MigrationErrorModel>(metadata@),
    {
        proof {
            use_type_invariant(&metadata.schema_id);
            lemma_progress_round_trip(metadata@);
        }
        let total_docs = match metadata.total_docs {
            Some(t) => Some(t as i64),
            None => None,
        };
        SerializedSchemaMigrationProgressMetadata {
            schema_id: metadata.schema_id.to_string(),
            migration_id: metadata.migration_id,
            num_docs_processed: metadata.num_docs_processed as i64,
            total_docs,
            complete: metadata.complete,
        }
    }
}

impl SchemaMigrationProgressMetadata {
    /// The progress that a stored form holds, or the error that refuses it.
    pub fn try_from_serialized(serialized: SerializedSchemaMigrationProgressMetadata) -> (metadata:
        Result<Self, MigrationError>)
        ensures
            match metadata {
                Ok(m) => deserialize_progress(serialized@) == Ok::<ProgressModel, MigrationErrorModel>(
                    m@,
                ),
                Err(e) => deserialize_progress(serialized@) == Err::<
                    ProgressModel,
                    MigrationErrorModel,
                >(e@),
            },
    {
        let schema_id = match DocumentId::parse(serialized.schema_id.as_str()) {
            Ok(id) => id,
            Err(e) => return Err(e),
        };
        let total_docs = match serialized.total_docs {
            Some(t) => Some(t as u64),
            None => None,
        };
        Ok(
            SchemaMigrationProgressMetadata {
                schema_id,
                migration_id: serialized.migration_id,
                num_docs_processed: serialized.num_docs_processed as u64,
                total_docs,
                complete: serialized.complete,
            },
        )
    }
}

/// The progress documents of the migrations of a pending schema.
pub struct SchemaMigrationProgressModel;

impl SchemaMigrationProgressModel {
    /// The progress of a migration that has not started: nothing processed,
    /// not complete.
    pub fn initialize_progress(schema_id: DocumentId, migration_id: String, total_docs: Option<u64>) -> (progress:
        SchemaMigrationProgressMetadata)
        ensures
            progress@ == (ProgressModel {
                schema_id: schema_id@,
                migration_id: migration_id@,
                num_docs_processed: 0,
                total_docs,
                complete: false,
            }),
    {
        SchemaMigrationProgressMetadata {
            schema_id,
            migration_id,
            num_docs_processed: 0,
            total_docs,
            complete: false,
        }
    }

    /// The progress document after an update: the count and completeness
    /// replaced, the rest kept; refused when there is no document to update.
    pub fn update_progress(
        existing: Option<SchemaMigrationProgressMetadata>,
        num_docs_processed: u64,
        complete: bool,
    ) -> (updated: Result<SchemaMigrationProgressMetadata, MigrationError>)
        ensures
            match existing {
                None => updated matches Err(e) && e@ == MigrationErrorModel::MissingProgress,
                Some(old) => updated matches Ok(new) && new@ == (ProgressModel {
                    num_docs_processed,
                    complete,
                    ..old@
                }),
            },
    {
        match existing {
            None => Err(MigrationError::MissingProgress),
            Some(metadata) => Ok(
                SchemaMigrationProgressMetadata { num_docs_processed, complete, ..metadata },
            ),
        }
    }
}

/// Law: progress comes back unchanged from its stored form (its schema id,
/// like every document id, being in the id format).
pub proof fn lemma_progress_round_trip(m: ProgressModel)
    requires
        valid_document_id(m.schema_id),
    ensures
        deserialize_progress(serialize_progress(m)) == Ok::<ProgressModel, MigrationErrorModel>(m),
{
    let n = m.num_docs_processed;
    assert(((n as i64) as u64) == n) by (bit_vector);
    if let Some(t) = m.total_docs {
        assert(((t as i64) as u64) == t) by (bit_vector);
    }
}

/// Law: a stored form of progress that is accepted is stored again exactly as
/// it was.
pub proof fn lemma_serialized_progress_round_trip(s: SerializedProgressModel)
    requires
        deserialize_progress(s) is Ok,
    ensures
        serialize_progress(deserialize_progress(s)->Ok_0) == s,
{
    let n = s.num_docs_processed;
    assert(((n as u64) as i64) == n) by (bit_vector);
    if let Some(t) = s.total_docs {
        assert(((t as u64) as i64) == t) by (bit_vector);
    }
}

/// Law: the stored form of progress keeps every part under its own name:
/// the schema id, the migration id and whether it is complete as they are,
/// the counts as the same 64 bits.
pub proof fn lemma_stored_progress_keeps_fields(m: ProgressModel)
    ensures
        serialize_progress(m).schema_id == m.schema_id,
        serialize_progress(m).migration_id == m.migration_id,
        serialize_progress(m).complete == m.complete,
        serialize_progress(m).num_docs_processed as u64 == m.num_docs_processed,
        serialize_progress(m).total_docs is Some <==> m.total_docs is Some,
        m.total_docs is Some ==> serialize_progress(m).total_docs->0 as u64 == m.total_docs->0,
{
    let n = m.num_docs_processed;
    assert(((n as i64) as u64) == n) by (bit_vector);
    if let Some(t) = m.total_docs {
        assert(((t as i64) as u64) == t) by (bit_vector);
    }
}

/// Law: progress read from its stored form has every part from the stored
/// part of the same name: the schema id, the migration id and whether it is
/// complete as stored, the counts as the same 64 bits.
pub proof fn lemma_read_progress_keeps_fields(s: SerializedProgressModel)
    requires
        deserialize_progress(s) is Ok,
    ensures
        ({
            let m = deserialize_progress(s)->Ok_0;
            &&& m.schema_id == s.schema_id
            &&& m.migration_id == s.migration_id
            &&& m.complete == s.complete
            &&& m.num_docs_processed as i64 == s.num_docs_processed
            &&& (m.total_docs is Some <==> s.total_docs is Some)
            &&& (s.total_docs is Some ==> m.total_docs->0 as i64 == s.total_docs->0)
        }),
{
    let n = s.num_docs_processed;
    assert(((n as u64) as i64) == n) by (bit_vector);
    if let Some(t) = s.total_docs {
        assert(((t as u64) as i64) == t) by (bit_vector);
    }
}

} // verus!
