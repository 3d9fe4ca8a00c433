use vstd::prelude::*;
use crate::ident::{TableName, strings_model, valid_identifier};

verus! {

/// An index of a system table: its name and the field paths it orders by.
#[derive(Clone, Debug, PartialEq, Eq)]
pub struct SystemIndex {
    pub name: String,
    pub fields: Vec<String>,
}

/// The name of the table of migration records.
pub const SCHEMA_MIGRATIONS_TABLE: &'static str = "_schema_migrations";

/// The name of the table of migration progress.
pub const SCHEMA_MIGRATION_PROGRESS_TABLE: &'static str = "_schema_migration_progress";

/// The field that holds a document's creation time.
pub const CREATION_TIME_FIELD: &'static str = "_creationTime";

fn index(name: &str, first: &str, second: &str) -> (ix: SystemIndex)
    ensures
        ix.name@ == name@,
        strings_model(ix.fields@) == seq![first@, second@, CREATION_TIME_FIELD@],
{
    let fields = vec![first.to_string(), second.to_string(), CREATION_TIME_FIELD.to_string()];
    assert(strings_model(fields@) =~= seq![first@, second@, CREATION_TIME_FIELD@]);
    SystemIndex { name: name.to_string(), fields }
}

/// The system table that records which migrations have run.
pub struct SchemaMigrationsTable;

impl SchemaMigrationsTable {
    /// `_schema_migrations`.
    pub fn table_name() -> (name: TableName)
        ensures
            name@ == SCHEMA_MIGRATIONS_TABLE@,
    {
        proof {
            reveal_strlit("_schema_migrations");
            assert(valid_identifier(SCHEMA_MIGRATIONS_TABLE@));
        }
        TableName::from_identifier(SCHEMA_MIGRATIONS_TABLE)
    }

    /// One index, `by_migration_id`, on the migration id, the component path
    /// and the creation time.
    pub fn indexes() -> (indexes: Vec<SystemIndex>)
        ensures
            indexes@.len() == 1,
            indexes@[0].name@ == "by_migration_id"@,
            strings_model(indexes@[0].fields@) == seq![
                "migrationId"@,
                "componentPath"@,
                CREATION_TIME_FIELD@,
            ],
    {
        vec![index("by_migration_id", "migrationId", "componentPath")]
    }
}

/// The system table that records how far each migration of a pending schema
/// has got.
pub struct SchemaMigrationProgressTable;

impl SchemaMigrationProgressTable {
    /// `_schema_migration_progress`.
    pub fn table_name() -> (name: TableName)
        ensures
            name@ == SCHEMA_MIGRATION_PROGRESS_TABLE@,
    {
        proof {
            reveal_strlit("_schema_migration_progress");
            assert(valid_identifier(SCHEMA_MIGRATION_PROGRESS_TABLE@));
        }
        TableName::from_identifier(SCHEMA_MIGRATION_PROGRESS_TABLE)
    }

    /// One index, `by_schema_id`, on the schema id, the migration id and the
    /// creation time.
    pub fn indexes() -> (indexes: Vec<SystemIndex>)
        ensures
            indexes@.len() == 1,
            indexes@[0].name@ == "by_schema_id"@,
            strings_model(indexes@[0].fields@) == seq![
                "schemaId"@,
                "migrationId"@,
                CREATION_TIME_FIELD@,
            ],
    {
        vec![index("by_schema_id", "schemaId", "migrationId")]
    }
}

} // verus!
