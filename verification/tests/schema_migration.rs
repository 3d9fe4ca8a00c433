use schema_migrations::ident::{is_valid_identifier, parse_field_path, split_dots_exec, TableName};
use schema_migrations::migration::{encode_hex_lower, SchemaMigration, SchemaMigrationScope};

#[test]
fn handler_hash_is_stable() {
    let migration = SchemaMigration::new(
        "test".to_string(),
        "numbers".parse().unwrap(),
        SchemaMigrationScope::Field,
        Some("value".to_string()),
        None,
        0,
        "(ctx) => ctx.oldValue".to_string(),
    );
    let migration2 = SchemaMigration::new(
        "test".to_string(),
        "numbers".parse().unwrap(),
        SchemaMigrationScope::Field,
        Some("value".to_string()),
        None,
        0,
        "(ctx) => ctx.oldValue".to_string(),
    );
    assert_eq!(migration.handler_hash, migration2.handler_hash);
    assert_ne!(
        migration.handler_hash,
        SchemaMigration::new(
            "test".to_string(),
            "numbers".parse().unwrap(),
            SchemaMigrationScope::Field,
            Some("value".to_string()),
            None,
            0,
            "(ctx) => ctx.newValue".to_string(),
        )
        .handler_hash
    );
}

#[test]
fn handler_hash_is_lowercase_hex_sha256_of_source() {
    let migration = SchemaMigration::new(
        "test".to_string(),
        TableName::parse("numbers").unwrap(),
        SchemaMigrationScope::Table,
        None,
        None,
        3,
        "(ctx) => ctx.oldValue".to_string(),
    );
    assert_eq!(
        migration.handler_hash,
        "d6690b705ea5ba2a20be968789bad06644a1dc7a24806e508a23dbfde1a045f0"
    );
    assert_eq!(migration.id, "test");
    assert_eq!(migration.table_name.as_str(), "numbers");
    assert_eq!(migration.scope, SchemaMigrationScope::Table);
    assert_eq!(migration.field_path, None);
    assert_eq!(migration.handler_index, 3);
    assert_eq!(migration.handler_source, "(ctx) => ctx.oldValue");
}

#[test]
fn handler_hash_of_empty_source() {
    let migration = SchemaMigration::new(
        "m".to_string(),
        TableName::parse("t").unwrap(),
        SchemaMigrationScope::Table,
        None,
        None,
        0,
        String::new(),
    );
    assert_eq!(
        migration.handler_hash,
        "e3b0c44298fc1c149afbf4c8996fb92427ae41e4649b934ca495991b7852b855"
    );
}

#[test]
fn hex_is_two_lowercase_digits_per_byte() {
    assert_eq!(encode_hex_lower(&[0x00, 0x0f, 0xab, 0xff, 0x10]), "000fabff10");
    assert_eq!(encode_hex_lower(&[]), "");
}

#[test]
fn identifiers() {
    assert!(is_valid_identifier("numbers"));
    assert!(is_valid_identifier("_schema_migrations"));
    assert!(is_valid_identifier("a1_B2"));
    assert!(is_valid_identifier(&"a".repeat(64)));
    assert!(!is_valid_identifier(&"a".repeat(65)));
    assert!(!is_valid_identifier(""));
    assert!(!is_valid_identifier("1abc"));
    assert!(!is_valid_identifier("a-b"));
    assert!(!is_valid_identifier("a.b"));
    assert!(!is_valid_identifier("é"));
}

#[test]
fn table_name_parse() {
    let t: TableName = "messages".parse().unwrap();
    assert_eq!(t.as_str(), "messages");
    assert_eq!(t.to_string(), "messages");
    let err = TableName::parse("bad name").unwrap_err();
    assert_eq!(err.message(), "Invalid identifier \"bad name\"");
}

#[test]
fn split_on_dots_keeps_empty_pieces() {
    assert_eq!(split_dots_exec("a.b.c"), vec!["a", "b", "c"]);
    assert_eq!(split_dots_exec("a..b"), vec!["a", "", "b"]);
    assert_eq!(split_dots_exec(""), vec![""]);
    assert_eq!(split_dots_exec("."), vec!["", ""]);
    assert_eq!(split_dots_exec("value"), vec!["value"]);
}

#[test]
fn field_paths() {
    assert_eq!(parse_field_path("profile.name").unwrap(), vec!["profile", "name"]);
    assert!(parse_field_path("profile..name").is_err());
    assert!(parse_field_path("").is_err());
    assert!(parse_field_path("a.1b").is_err());
}
