use rand::RngCore;
use schema_migrations::environment::MigrationEnvironment;
use schema_migrations::error::MigrationError;
use schema_migrations::tables::{SchemaMigrationProgressTable, SchemaMigrationsTable};

fn expected_module(handlers: &[String]) -> String {
    let handler_entries = handlers
        .iter()
        .map(|handler| format!("({handler})"))
        .collect::<Vec<_>>()
        .join(",\n");
    format!(
        r#"const handlers = [
{handler_entries}
];
export function runMigration(handlerIndex, ctxJson) {{
  const ctx = JSON.parse(ctxJson);
  const handler = handlers[handlerIndex];
  if (handler === undefined) {{
    throw new Error("Missing migration handler at index " + handlerIndex);
  }}
  const result = handler(ctx);
  if (result === undefined) {{
    return null;
  }}
  const value = JSON.stringify(result);
  if (value === undefined) {{
    return null;
  }}
  const undefinedFields =
    result !== null && typeof result === "object" && !Array.isArray(result)
      ? Object.keys(result).filter((key) => result[key] === undefined)
      : [];
  return "{{\"value\":" + value + ",\"undefinedFields\":" + JSON.stringify(undefinedFields) + "}}";
}}
"#
    )
}

fn bad(short: &str, msg: &str) -> MigrationError {
    MigrationError::BadRequest { short_msg: short.to_string(), msg: msg.to_string() }
}

#[test]
fn module_lists_handlers_in_parentheses() {
    for handlers in [
        vec![],
        vec!["(ctx) => ctx.oldValue".to_string()],
        vec!["(ctx) => 1".to_string(), "function (ctx) { return ctx.doc; }".to_string()],
    ] {
        assert_eq!(MigrationEnvironment::build_migration_module(&handlers), expected_module(&handlers));
    }
}

#[test]
fn only_the_migration_module_can_be_loaded() {
    let handlers = vec!["(ctx) => 1".to_string()];
    let env = MigrationEnvironment::new(&handlers, [7u8; 32], 1234);
    let (code, map) = env.lookup_source("migration.js").unwrap();
    assert_eq!(code, expected_module(&handlers));
    assert_eq!(map, None);
    assert_eq!(
        env.lookup_source("other.js").unwrap_err(),
        bad("NoImportModuleInMigration", "Can't import other.js while running migrations")
    );
    assert_eq!(env.unix_timestamp(), 1234);
}

#[test]
fn denied_requests() {
    let mut env = MigrationEnvironment::new(&vec![], [0u8; 32], 0);
    let _ = env.rng();
    assert_eq!(
        env.crypto_rng().unwrap_err(),
        bad("NoCryptoRngInMigration", "Cannot use cryptographic randomness when running migrations")
    );
    let perf = bad("NoPerformanceInMigration", "The Performance API is not supported when running migrations");
    assert_eq!(env.performance_now().unwrap_err(), perf);
    assert_eq!(env.performance_time_origin().unwrap_err(), perf);
    assert_eq!(
        env.get_environment_variable("SECRET").unwrap_err(),
        bad("NoEnvironmentVariablesInMigration", "Environment variables unsupported when running migrations")
    );
    assert_eq!(
        env.get_all_table_mappings().unwrap_err(),
        bad("NoTableMappingFetchInMigration", "Getting the table mapping unsupported when running migrations")
    );
    assert_eq!(
        env.syscall("1.0/get").unwrap_err(),
        bad("NoSyscallInMigration", "Syscall 1.0/get unsupported when running migrations")
    );
    assert_eq!(
        env.start_async_syscall("Fetch", "fetch()").unwrap_err(),
        bad("NoFetchInMigration", "fetch() unsupported while running migrations")
    );
    assert_eq!(
        env.start_async_op("Sleep", "setTimeout").unwrap_err(),
        bad("NoSleepInMigration", "setTimeout unsupported while running migrations")
    );
}

#[test]
fn system_tables() {
    assert_eq!(SchemaMigrationsTable::table_name().as_str(), "_schema_migrations");
    let ix = SchemaMigrationsTable::indexes();
    assert_eq!(ix.len(), 1);
    assert_eq!(ix[0].name, "by_migration_id");
    assert_eq!(ix[0].fields, vec!["migrationId", "componentPath", "_creationTime"]);
    assert_eq!(SchemaMigrationProgressTable::table_name().as_str(), "_schema_migration_progress");
    let ix = SchemaMigrationProgressTable::indexes();
    assert_eq!(ix.len(), 1);
    assert_eq!(ix[0].name, "by_schema_id");
    assert_eq!(ix[0].fields, vec!["schemaId", "migrationId", "_creationTime"]);
}

#[test]
fn handler_randomness_depends_on_the_seed() {
    let mut a = MigrationEnvironment::new(&vec![], [1u8; 32], 0);
    let mut b = MigrationEnvironment::new(&vec![], [1u8; 32], 0);
    let mut c = MigrationEnvironment::new(&vec![], [2u8; 32], 0);
    let x = a.rng().next_u64();
    assert_eq!(x, b.rng().next_u64());
    assert_ne!(x, c.rng().next_u64());
    assert_ne!(x, a.rng().next_u64());
}
