# schema_migrations

Verified core of the schema migration worker: it decides which migrations of
a pending schema still have to run, builds the context each handler receives
for a document, turns a handler's result into a patch, counts the documents of
a run and writes the record of its completion, stores and reads migration and
progress records, builds the JavaScript module that runs handlers, and says
which requests a running handler may make.

- `src/` is the library, verified with Verus:
  - `json`, `document`: JSON values and stored documents, field lookup and
    field patches;
  - `ident`: identifiers, table names, field paths;
  - `migration`: migrations and their handler hashes (SHA-256 from `sha2`);
  - `records`, `progress`: migration and progress records and their stored forms;
  - `worker`: pending selection, completeness, and the retry policy of the
    worker loop;
  - `handler`: what a handler hands back, and the call made for each document;
  - `run`: one run of a migration over the documents of its table, the patch
    for each document, and the pass over a schema's pending migrations (in
    `worker`);
  - `environment`: the handlers' module and environment;
  - `tables`: the system tables and their indexes.
- `app/` drives the library against a database, a handler runner and a clock,
  and holds the serde forms of the stored records.
- `tests/` runs the library on concrete values.
