use vstd::prelude::*;
use rand::SeedableRng;
use crate::error::{MigrationError, MigrationErrorModel, concat3};
use crate::ident::text_equals;
use crate::migration::opt_string_model;

verus! {

/// The text of the module before the handlers.
pub const MODULE_PREFIX: &'static str = "const handlers = [\n";

/// The text of the module after the handlers: `runMigration` parses the
/// context and calls the handler at the given index (throwing when there is
/// none). It returns `null` when the handler returned nothing, or a value
/// that has no JSON text (such as a function); otherwise the JSON text of an
/// object with the handler's result as `value` and, as `undefinedFields`, the
/// names of the result's own members that are `undefined` (which JSON text
/// cannot hold), so that they can be removed.
pub const MODULE_SUFFIX: &'static str = "\n];\nexport function runMigration(handlerIndex, ctxJson) {\n  const ctx = JSON.parse(ctxJson);\n  const handler = handlers[handlerIndex];\n  if (handler === undefined) {\n    throw new Error(\"Missing migration handler at index \" + handlerIndex);\n  }\n  const result = handler(ctx);\n  if (result === undefined) {\n    return null;\n  }\n  const value = JSON.stringify(result);\n  if (value === undefined) {\n    return null;\n  }\n  const undefinedFields =\n    result !== null && typeof result === \"object\" && !Array.isArray(result)\n      ? Object.keys(result).filter((key) => result[key] === undefined)\n      : [];\n  return \"{\\\"value\\\":\" + value + \",\\\"undefinedFields\\\":\" + JSON.stringify(undefinedFields) + \"}\";\n}\n";

/// The handlers as array entries: each in parentheses, separated by a comma
/// and a line break.
pub open spec fn handler_entries(handlers: Seq<Seq<char>>) -> Seq<char>
    decreases handlers.len(),
{
    if handlers.len() == 0 {
        Seq::empty()
    } else if handlers.len() == 1 {
        "("@ + handlers[0] + ")"@
    } else {
        handler_entries(handlers.drop_last()) + ",\n"@ + "("@ + handlers.last() + ")"@
    }
}

/// The source of the module that runs migration handlers.
pub open spec fn migration_module(handlers: Seq<Seq<char>>) -> Seq<char> {
    MODULE_PREFIX@ + handler_entries(handlers) + MODULE_SUFFIX@
}

/// The name of the only module that a migration may load.
pub const MIGRATION_MODULE_PATH: &'static str = "migration.js";

/// The error of an environment request that migrations may not make.
pub open spec fn denied(short_msg: Seq<char>, msg: Seq<char>) -> MigrationErrorModel {
    MigrationErrorModel::BadRequest { short_msg, msg }
}

fn bad_request(short_msg: String, msg: String) -> (e: MigrationError)
    ensures
        e@ == denied(short_msg@, msg@),
{
    MigrationError::BadRequest { short_msg, msg }
}

/// The generator that ChaCha12 starts from with the given seed.
pub uninterp spec fn chacha12_from_seed(seed: Seq<u8>) -> rand_chacha::ChaCha12Rng;

/// Calls `rand_chacha::ChaCha12Rng::from_seed`; the contract claims only
/// that the generator depends on the seed alone, as the name
/// `chacha12_from_seed` of the seed's bytes.
#[verifier::external_body]
fn seeded_rng(seed: [u8; 32]) -> (rng: rand_chacha::ChaCha12Rng)
    ensures
        rng == chacha12_from_seed(seed@),
{
    rand_chacha::ChaCha12Rng::from_seed(seed)
}

#[verifier::external_type_specification]
#[verifier::external_body]
pub struct ExChaCha12Rng(rand_chacha::ChaCha12Rng);

/// What a migration handler may use while it runs: its own module, a seeded
/// random number generator and a fixed clock.
pub struct MigrationEnvironment {
    migration_bundle: String,
    source_map: Option<String>,
    rng: rand_chacha::ChaCha12Rng,
    unix_timestamp: u64,
}

/// The model of a [`MigrationEnvironment`]: its module source, its source map
/// and its clock.
pub ghost struct EnvironmentModel {
    pub migration_bundle: Seq<char>,
    pub source_map: Option<Seq<char>>,
    pub unix_timestamp: u64,
}

impl View for MigrationEnvironment {
    type V = EnvironmentModel;

    closed spec fn view(&self) -> EnvironmentModel {
        EnvironmentModel {
            migration_bundle: self.migration_bundle@,
            source_map: opt_string_model(self.source_map),
            unix_timestamp: self.unix_timestamp,
        }
    }
}

impl MigrationEnvironment {
    /// The generator that the handlers' randomness comes from.
    pub closed spec fn rng_state(&self) -> rand_chacha::ChaCha12Rng {
        self.rng
    }

    /// The source of the module that holds `handlers` and exports
    /// `runMigration`.
    pub fn build_migration_module(handlers: &Vec<String>) -> (source: String)
        ensures
            source@ == migration_module(handlers@.map_values(|h: String| h@)),
    {
        let ghost hs = handlers@.map_values(|h: String| h@);
        let mut source = String::from_str(MODULE_PREFIX);
        let n = handlers.len();
        assert(hs.subrange(0, 0) =~= Seq::<Seq<char>>::empty());
        assert(source@ =~= MODULE_PREFIX@ + handler_entries(hs.subrange(0, 0)));
        for i in 0..n
            invariant
                n == handlers@.len(),
                hs == handlers@.map_values(|h: String| h@),
                source@ == MODULE_PREFIX@ + handler_entries(hs.subrange(0, i as int)),
        {
            let ghost prefix = hs.subrange(0, i + 1);
            proof {
                assert(prefix.drop_last() =~= hs.subrange(0, i as int));
                assert(prefix.last() == handlers@[i as int]@);
            }
            if i > 0 {
                source.append(",\n");
            }
            source.append("(");
            source.append(handlers[i].as_str());
            source.append(")");
            proof {
                if i == 0 {
                    assert(prefix.len() == 1);
                    assert(prefix[0] == handlers@[0]@);
                }
                assert(source@ =~= MODULE_PREFIX@ + handler_entries(prefix));
            }
        }
        assert(hs.subrange(0, n as int) =~= hs);
        source.append(MODULE_SUFFIX);
        source
    }

    /// The environment for running `handlers` with a generator seeded by
    /// `rng_seed` and the clock fixed at `unix_timestamp` (nanoseconds since
    /// the Unix epoch).
    pub fn new(handlers: &Vec<String>, rng_seed: [u8; 32], unix_timestamp: u64) -> (env: Self)
        ensures
            env@ == (EnvironmentModel {
                migration_bundle: migration_module(handlers@.map_values(|h: String| h@)),
                source_map: None,
                unix_timestamp,
            }),
            env.rng_state() == chacha12_from_seed(rng_seed@),
    {
        MigrationEnvironment {
            migration_bundle: Self::build_migration_module(handlers),
            source_map: None,
            rng: seeded_rng(rng_seed),
            unix_timestamp,
        }
    }

    /// The generator that the handlers' randomness comes from.
    pub fn rng(&mut self) -> (rng: &mut rand_chacha::ChaCha12Rng)
        ensures
            *rng == old(self).rng_state(),
            final(self)@ == old(self)@,
            final(self).rng_state() == *final(rng),
    {
        &mut self.rng
    }

    /// The fixed time that the handlers see.
    pub fn unix_timestamp(&self) -> (t: u64)
        ensures
            t == self@.unix_timestamp,
    {
        self.unix_timestamp
    }

    /// The source of the module at `path`: only the migration module can be
    /// loaded.
    pub fn lookup_source(&self, path: &str) -> (source: Result<(String, Option<String>), MigrationError>)
        ensures
            match source {
                Ok((code, map)) => path@ == MIGRATION_MODULE_PATH@ && code@
                    == self@.migration_bundle && opt_string_model(map) == self@.source_map,
                Err(e) => path@ != MIGRATION_MODULE_PATH@ && e@ == denied(
                    "NoImportModuleInMigration"@,
                    "Can't import "@ + path@ + " while running migrations"@,
                ),
            },
    {
        if !text_equals(path, MIGRATION_MODULE_PATH) {
            return Err(
                bad_request(
                    String::from_str("NoImportModuleInMigration"),
                    concat3("Can't import ", path, " while running migrations"),
                ),
            );
        }
        let map = match &self.source_map {
            Some(m) => Some(m.clone()),
            None => None,
        };
        Ok((self.migration_bundle.clone(), map))
    }

    /// Migrations may not use cryptographic randomness.
    pub fn crypto_rng(&self) -> (refused: Result<(), MigrationError>)
        ensures
            refused matches Err(e) && e@ == denied(
                "NoCryptoRngInMigration"@,
                "Cannot use cryptographic randomness when running migrations"@,
            ),
    {
        Err(
            bad_request(
                String::from_str("NoCryptoRngInMigration"),
                String::from_str("Cannot use cryptographic randomness when running migrations"),
            ),
        )
    }

    /// Migrations may not read the performance clock.
    pub fn performance_now(&self) -> (refused: Result<(), MigrationError>)
        ensures
            refused matches Err(e) && e@ == denied(
                "NoPerformanceInMigration"@,
                "The Performance API is not supported when running migrations"@,
            ),
    {
        Err(
            bad_request(
                String::from_str("NoPerformanceInMigration"),
                String::from_str("The Performance API is not supported when running migrations"),
            ),
        )
    }

    /// Migrations may not read the performance clock's origin.
    pub fn performance_time_origin(&self) -> (refused: Result<(), MigrationError>)
        ensures
            refused matches Err(e) && e@ == denied(
                "NoPerformanceInMigration"@,
                "The Performance API is not supported when running migrations"@,
            ),
    {
        self.performance_now()
    }

    /// Migrations may not read environment variables.
    pub fn get_environment_variable(&self, name: &str) -> (refused: Result<(), MigrationError>)
        ensures
            refused matches Err(e) && e@ == denied(
                "NoEnvironmentVariablesInMigration"@,
                "Environment variables unsupported when running migrations"@,
            ),
    {
        Err(
            bad_request(
                String::from_str("NoEnvironmentVariablesInMigration"),
                String::from_str("Environment variables unsupported when running migrations"),
            ),
        )
    }

    /// Migrations may not fetch the table mapping.
    pub fn get_all_table_mappings(&self) -> (refused: Result<(), MigrationError>)
        ensures
            refused matches Err(e) && e@ == denied(
                "NoTableMappingFetchInMigration"@,
                "Getting the table mapping unsupported when running migrations"@,
            ),
    {
        Err(
            bad_request(
                String::from_str("NoTableMappingFetchInMigration"),
                String::from_str("Getting the table mapping unsupported when running migrations"),
            ),
        )
    }

    /// Migrations may not make syscalls.
    pub fn syscall(&self, name: &str) -> (refused: Result<(), MigrationError>)
        ensures
            refused matches Err(e) && e@ == denied(
                "NoSyscallInMigration"@,
                "Syscall "@ + name@ + " unsupported when running migrations"@,
            ),
    {
        Err(
            bad_request(
                String::from_str("NoSyscallInMigration"),
                concat3("Syscall ", name, " unsupported when running migrations"),
            ),
        )
    }

    /// Migrations may not start asynchronous syscalls; `name_for_error` and
    /// `description` name the syscall in the error.
    pub fn start_async_syscall(&self, name_for_error: &str, description: &str) -> (refused: Result<
        (),
        MigrationError,
    >)
        ensures
            refused matches Err(e) && e@ == denied(
                "No"@ + name_for_error@ + "InMigration"@,
                description@ + " unsupported while running migrations"@,
            ),
    {
        let mut msg = String::from_str(description);
        msg.append(" unsupported while running migrations");
        Err(bad_request(concat3("No", name_for_error, "InMigration"), msg))
    }

    /// Migrations may not start asynchronous operations; `name_for_error` and
    /// `description` name the operation in the error.
    pub fn start_async_op(&self, name_for_error: &str, description: &str) -> (refused: Result<
        (),
        MigrationError,
    >)
        ensures
            refused matches Err(e) && e@ == denied(
                "No"@ + name_for_error@ + "InMigration"@,
                description@ + " unsupported while running migrations"@,
            ),
    {
        self.start_async_syscall(name_for_error, description)
    }
}

} // verus!
