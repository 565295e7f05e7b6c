use deriddl_rs::model::{Migration, MigrationType};
use deriddl_rs::orchestrator::{HealthStatus, Validator};

fn make_migration(version: u32, name: &str) -> Migration {
    let filename = format!("{:04}_{}.sql", version, name);
    Migration::new(
        version,
        name.to_string(),
        filename,
        format!("-- migration {}", version),
    )
}

fn make_versioned_migration(version: u32, name: &str) -> Migration {
    Migration::new(
        version,
        name.to_string(),
        format!("{:04}_{}.sql", version, name),
        format!("-- versioned migration {}", version),
    )
}

fn make_repeatable_migration(name: &str) -> Migration {
    Migration::new_repeatable(
        name.to_string(),
        format!("R__{}.sql", name),
        format!("-- repeatable migration {}", name),
    )
}

#[test]
fn detects_version_gap() {
    let migrations = vec![make_migration(1, "first"), make_migration(3, "third")];

    let issues = Validator::validate_migration_sequence(&migrations);
    assert!(issues
        .iter()
        .any(|msg| msg.contains("Version gap detected")));
}

#[test]
fn detects_duplicate_versions() {
    let migrations = vec![make_migration(2, "second"), make_migration(2, "second_dup")];

    let issues = Validator::validate_migration_sequence(&migrations);
    assert!(issues.iter().any(|msg| msg.contains("Duplicate version")));
}

#[test]
fn passes_valid_sequence() {
    let migrations = vec![
        make_migration(1, "first"),
        make_migration(2, "second"),
        make_migration(3, "third"),
    ];

    let issues = Validator::validate_migration_sequence(&migrations);
    for issue in &issues {
        println!("Issue: {}", issue);
    }
    assert!(issues.is_empty());
}

#[test]
fn test_gap_message_names_versions() {
    let migrations = vec![make_migration(1, "first"), make_migration(3, "third")];
    let issues = Validator::validate_migration_sequence(&migrations);
    assert_eq!(issues.len(), 1);
    assert_eq!(
        issues[0],
        "Version gap detected: expected 2, found 3 in 0003_third.sql"
    );
}

#[test]
fn test_repeatable_migration_creation() {
    let migration = make_repeatable_migration("create_views");

    assert_eq!(migration.migration_type, MigrationType::Repeatable);
    assert_eq!(migration.version, None);
    assert_eq!(migration.name, "create_views");
    assert_eq!(migration.filename(), "R__create_views.sql");
    assert_eq!(migration.identifier(), "R__create_views");
    assert!(migration.is_repeatable());
}

#[test]
fn test_versioned_migration_creation() {
    let migration = make_versioned_migration(1, "init_schema");

    assert_eq!(migration.migration_type, MigrationType::Versioned);
    assert_eq!(migration.version, Some(1));
    assert_eq!(migration.name, "init_schema");
    assert_eq!(migration.filename(), "0001_init_schema.sql");
    assert_eq!(migration.identifier(), "1");
    assert!(!migration.is_repeatable());
}

#[test]
fn test_validator_handles_mixed_migration_types() {
    let migrations = vec![
        make_versioned_migration(1, "init"),
        make_versioned_migration(2, "add_table"),
        make_repeatable_migration("create_views"),
        make_repeatable_migration("update_functions"),
    ];

    let issues = Validator::validate_migration_sequence(&migrations);
    assert!(issues.is_empty(), "Should not have validation issues for mixed types");
}

#[test]
fn test_validator_detects_duplicate_repeatable_names() {
    let migrations = vec![
        make_repeatable_migration("create_views"),
        make_repeatable_migration("create_views"), // duplicate name
    ];

    let issues = Validator::validate_migration_sequence(&migrations);
    assert!(issues
        .iter()
        .any(|msg| msg.contains("Duplicate repeatable migration name")));
}

#[test]
fn test_validator_allows_version_gaps_with_repeatables() {
    let migrations = vec![
        make_versioned_migration(1, "init"),
        make_versioned_migration(3, "skip_two"), // gap in versioned
        make_repeatable_migration("views"),
        make_repeatable_migration("functions"),
    ];

    let issues = Validator::validate_migration_sequence(&migrations);
    // Should detect version gap but allow repeatables
    assert!(issues.iter().any(|msg| msg.contains("Version gap detected")));
    assert!(!issues.iter().any(|msg| msg.contains("repeatable")));
}

#[test]
fn test_repeatable_migration_checksum_changes() {
    let migration1 = make_repeatable_migration("test");
    let migration2 = Migration::new_repeatable(
        "test".to_string(),
        "R__test.sql".to_string(),
        "-- different content".to_string(),
    );

    // Same name but different content should have different checksums
    assert_eq!(migration1.name, migration2.name);
    assert_ne!(migration1.checksum, migration2.checksum);
}

#[test]
fn test_repeatable_migration_identifiers() {
    let migrations = vec![
        make_versioned_migration(1, "init"),
        make_versioned_migration(42, "answer"),
        make_repeatable_migration("create_views"),
        make_repeatable_migration("update_functions_v2"),
    ];

    assert_eq!(migrations[0].identifier(), "1");
    assert_eq!(migrations[1].identifier(), "42");
    assert_eq!(migrations[2].identifier(), "R__create_views");
    assert_eq!(migrations[3].identifier(), "R__update_functions_v2");
}

#[test]
fn test_check_migration_sequence_health() {
    let clean = vec![make_migration(1, "a"), make_migration(2, "b")];
    let result = deriddl_rs::orchestrator::health::check_migration_sequence(&clean);
    assert_eq!(result.name, "Migration Sequence");
    assert_eq!(result.status, HealthStatus::Pass);
    assert_eq!(result.message, "2 migrations in correct sequence");

    let gapped = vec![make_migration(1, "a"), make_migration(3, "c")];
    let result = deriddl_rs::orchestrator::health::check_migration_sequence(&gapped);
    assert_eq!(result.status, HealthStatus::Warn);
    assert!(result.message.starts_with("1 sequence issues found: "));
}
