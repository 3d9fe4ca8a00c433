use vstd::prelude::*;
use crate::error::{MigrationError, MigrationErrorModel};
use crate::ident::{TableName, text_equals, valid_identifier};
use crate::migration::{clone_opt_string, opt_string_model};

verus! {

/// How a recorded migration ended.
#[derive(Clone, Copy, Debug, PartialEq, Eq, Structural)]
pub enum SchemaMigrationState {
    Completed,
    Failed,
}

/// The record that a migration has run for a component.
#[derive(Debug, PartialEq, Eq)]
pub struct SchemaMigrationRecordMetadata {
    pub migration_id: String,
    pub component_path: String,
    pub table_name: TableName,
    pub field_path: Option<String>,
    pub handler_hash: String,
    pub state: SchemaMigrationState,
    pub completed_at: i64,
    pub docs_processed: u64,
}

/// The model of a [`SchemaMigrationRecordMetadata`].
pub ghost struct RecordModel {
    pub migration_id: Seq<char>,
    pub component_path: Seq<char>,
    pub table_name: Seq<char>,
    pub field_path: Option<Seq<char>>,
    pub handler_hash: Seq<char>,
    pub state: SchemaMigrationState,
    pub completed_at: i64,
    pub docs_processed: u64,
}

impl View for SchemaMigrationRecordMetadata {
    type V = RecordModel;

    open spec fn view(&self) -> RecordModel {
        RecordModel {
            migration_id: self.migration_id@,
            component_path: self.component_path@,
            table_name: self.table_name@,
            field_path: opt_string_model(self.field_path),
            handler_hash: self.handler_hash@,
            state: self.state,
            completed_at: self.completed_at,
            docs_processed: self.docs_processed,
        }
    }
}

/// The stored form of a migration record.
#[derive(Clone, Debug, PartialEq, Eq)]
pub struct SerializedSchemaMigrationRecordMetadata {
    pub migration_id: String,
    pub component_path: String,
    pub table_name: String,
    pub field_path: Option<String>,
    pub handler_hash: String,
    pub state: String,
    pub completed_at: i64,
    pub docs_processed: i64,
}

/// The model of a [`SerializedSchemaMigrationRecordMetadata`].
pub ghost struct SerializedRecordModel {
    pub migration_id: Seq<char>,
    pub component_path: Seq<char>,
    pub table_name: Seq<char>,
    pub field_path: Option<Seq<char>>,
    pub handler_hash: Seq<char>,
    pub state: Seq<char>,
    pub completed_at: i64,
    pub docs_processed: i64,
}

impl View for SerializedSchemaMigrationRecordMetadata {
    type V = SerializedRecordModel;

    open spec fn view(&self) -> SerializedRecordModel {
        SerializedRecordModel {
            migration_id: self.migration_id@,
            component_path: self.component_path@,
            table_name: self.table_name@,
            field_path: opt_string_model(self.field_path),
            handler_hash: self.handler_hash@,
            state: self.state@,
            completed_at: self.completed_at,
            docs_processed: self.docs_processed,
        }
    }
}

/// The stored text of a state.
pub open spec fn state_text(state: SchemaMigrationState) -> Seq<char> {
    match state {
        SchemaMigrationState::Completed => "completed"@,
        SchemaMigrationState::Failed => "failed"@,
    }
}

/// The state that a stored text names, if it names one.
pub open spec fn parse_state(text: Seq<char>) -> Option<SchemaMigrationState> {
    if text == "completed"@ {
        Some(SchemaMigrationState::Completed)
    } else if text == "failed"@ {
        Some(SchemaMigrationState::Failed)
    } else {
        None
    }
}

/// The stored form of a record: the table name as text, the state as its
/// text, the document count as the same 64 bits read as signed.
pub open spec fn serialize_record(m: RecordModel) -> SerializedRecordModel {
    SerializedRecordModel {
        migration_id: m.migration_id,
        component_path: m.component_path,
        table_name: m.table_name,
        field_path: m.field_path,
        handler_hash: m.handler_hash,
        state: state_text(m.state),
        completed_at: m.completed_at,
        docs_processed: m.docs_processed as i64,
    }
}

/// The record that a stored form holds: refused when its state text names no
/// state, then when its table name is not an identifier.
pub open spec fn deserialize_record(s: SerializedRecordModel) -> Result<RecordModel, MigrationErrorModel> {
    match parse_state(s.state) {
        None => Err(MigrationErrorModel::InvalidMigrationState { state: s.state }),
        Some(state) => if !valid_identifier(s.table_name) {
            Err(MigrationErrorModel::InvalidIdentifier { text: s.table_name })
        } else {
            Ok(
                RecordModel {
                    migration_id: s.migration_id,
                    component_path: s.component_path,
                    table_name: s.table_name,
                    field_path: s.field_path,
                    handler_hash: s.handler_hash,
                    state,
                    completed_at: s.completed_at,
                    docs_processed: s.docs_processed as u64,
                },
            )
        },
    }
}

impl SerializedSchemaMigrationRecordMetadata {
    /// The stored form of a record.
    pub fn from_metadata(metadata: SchemaMigrationRecordMetadata) -> (serialized: Self)
        ensures
            serialized@ == serialize_record(metadata@),
            deserialize_record(serialized@) == Ok::<RecordModel, MigrationErrorModel>(metadata@),
    {
        proof {
            use_type_invariant(&metadata.table_name);
            lemma_record_round_trip(metadata@);
        }
        let state = match metadata.state {
            SchemaMigrationState::Completed => String::from_str("completed"),
            SchemaMigrationState::Failed => String::from_str("failed"),
        };
        SerializedSchemaMigrationRecordMetadata {
            migration_id: metadata.migration_id,
            component_path: metadata.component_path,
            table_name: metadata.table_name.to_string(),
            field_path: metadata.field_path,
            handler_hash: metadata.handler_hash,
            state,
            completed_at: metadata.completed_at,
            docs_processed: metadata.docs_processed as i64,
        }
    }
}

impl SchemaMigrationRecordMetadata {
    /// The record that a stored form holds, or the error that refuses it.
    pub fn try_from_serialized(serialized: SerializedSchemaMigrationRecordMetadata) -> (metadata:
        Result<Self, MigrationError>)
        ensures
            match metadata {
                Ok(m) => deserialize_record(serialized@) == Ok::<RecordModel, MigrationErrorModel>(m@),
                Err(e) => deserialize_record(serialized@) == Err::<RecordModel, MigrationErrorModel>(e@),
            },
    {
        let state = if text_equals(serialized.state.as_str(), "completed") {
            SchemaMigrationState::Completed
        } else if text_equals(serialized.state.as_str(), "failed") {
            SchemaMigrationState::Failed
        } else {
            return Err(MigrationError::InvalidMigrationState { state: serialized.state });
        };
        let table_name = match TableName::parse(serialized.table_name.as_str()) {
            Ok(t) => t,
            Err(e) => return Err(e),
        };
        Ok(
            SchemaMigrationRecordMetadata {
                migration_id: serialized.migration_id,
                component_path: serialized.component_path,
                table_name,
                field_path: serialized.field_path,
                handler_hash: serialized.handler_hash,
                state,
                completed_at: serialized.completed_at,
                docs_processed: serialized.docs_processed as u64,
            },
        )
    }

    /// Another record equal to this one.
    pub fn duplicate(&self) -> (copy: Self)
        ensures
            copy@ == self@,
    {
        SchemaMigrationRecordMetadata {
            migration_id: self.migration_id.clone(),
            component_path: self.component_path.clone(),
            table_name: self.table_name.duplicate(),
            field_path: clone_opt_string(&self.field_path),
            handler_hash: self.handler_hash.clone(),
            state: self.state,
            completed_at: self.completed_at,
            docs_processed: self.docs_processed,
        }
    }
}

/// Law: a record comes back unchanged from its stored form (its table name,
/// like every table name, being an identifier).
pub proof fn lemma_record_round_trip(m: RecordModel)
    requires
        valid_identifier(m.table_name),
    ensures
        deserialize_record(serialize_record(m)) == Ok::<RecordModel, MigrationErrorModel>(m),
{
    reveal_strlit("completed");
    reveal_strlit("failed");
    let n = m.docs_processed;
    assert(((n as i64) as u64) == n) by (bit_vector);
    assert("completed"@ != "failed"@) by {
        assert("completed"@.len() != "failed"@.len());
    }
    assert(parse_state(state_text(m.state)) == Some(m.state));
}

/// Law: a stored form that is accepted is stored again exactly as it was.
pub proof fn lemma_serialized_record_round_trip(s: SerializedRecordModel)
    requires
        deserialize_record(s) is Ok,
    ensures
        serialize_record(deserialize_record(s)->Ok_0) == s,
{
    reveal_strlit("completed");
    reveal_strlit("failed");
    let n = s.docs_processed;
    assert(((n as u64) as i64) == n) by (bit_vector);
}

/// Law: the stored form keeps every part of a record under its own name: the
/// migration id as the migration id, the component path as the component
/// path, and so on; the state is stored as its text and the count as the same
/// 64 bits.
pub proof fn lemma_stored_record_keeps_fields(m: RecordModel)
    ensures
        serialize_record(m).migration_id == m.migration_id,
        serialize_record(m).component_path == m.component_path,
        serialize_record(m).table_name == m.table_name,
        serialize_record(m).field_path == m.field_path,
        serialize_record(m).handler_hash == m.handler_hash,
        parse_state(serialize_record(m).state) == Some(m.state),
        serialize_record(m).completed_at == m.completed_at,
        serialize_record(m).docs_processed as u64 == m.docs_processed,
{
    reveal_strlit("completed");
    reveal_strlit("failed");
    assert("completed"@ != "failed"@) by {
        assert("completed"@.len() != "failed"@.len());
    }
    let n = m.docs_processed;
    assert(((n as i64) as u64) == n) by (bit_vector);
}

/// Law: a record read from its stored form has every part from the stored
/// part of the same name; its state is the one the stored text names.
pub proof fn lemma_read_record_keeps_fields(s: SerializedRecordModel)
    requires
        deserialize_record(s) is Ok,
    ensures
        ({
            let r = deserialize_record(s)->Ok_0;
            &&& r.migration_id == s.migration_id
            &&& r.component_path == s.component_path
            &&& r.table_name == s.table_name
            &&& r.field_path == s.field_path
            &&& r.handler_hash == s.handler_hash
            &&& state_text(r.state) == s.state
            &&& r.completed_at == s.completed_at
            &&& r.docs_processed as i64 == s.docs_processed
        }),
{
    reveal_strlit("completed");
    reveal_strlit("failed");
    let n = s.docs_processed;
    assert(((n as u64) as i64) == n) by (bit_vector);
}

/// Law: a completed run is stored with the state text `completed`, a failed
/// one with `failed`; reading gives back the state that the text names, and
/// any other text is refused with that text.
pub proof fn lemma_state_stored_by_name(m: RecordModel, s: SerializedRecordModel)
    ensures
        m.state == SchemaMigrationState::Completed ==> serialize_record(m).state == "completed"@,
        m.state == SchemaMigrationState::Failed ==> serialize_record(m).state == "failed"@,
        s.state == "completed"@ && valid_identifier(s.table_name) ==> (deserialize_record(s) is Ok
            && deserialize_record(s)->Ok_0.state == SchemaMigrationState::Completed),
        s.state == "failed"@ && valid_identifier(s.table_name) ==> (deserialize_record(s) is Ok
            && deserialize_record(s)->Ok_0.state == SchemaMigrationState::Failed),
        s.state != "completed"@ && s.state != "failed"@ ==> deserialize_record(s) == Err::<
            RecordModel,
            MigrationErrorModel,
        >(MigrationErrorModel::InvalidMigrationState { state: s.state }),
{
    reveal_strlit("completed");
    reveal_strlit("failed");
    assert("completed"@ != "failed"@) by {
        assert("completed"@.len() != "failed"@.len());
    }
}

} // verus!
