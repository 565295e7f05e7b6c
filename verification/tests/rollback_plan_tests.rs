use deriddl_rs::model::migration::{Migration, MigrationType};
use deriddl_rs::orchestrator::rollback::{
    create_rollback_plan, validate_rollback_plan, RollbackError, RollbackStrategy,
};
use deriddl_rs::tracker::version_store::AppliedMigration;

fn create_test_applied_migration(version: u32, filename: &str) -> AppliedMigration {
    AppliedMigration {
        migration_id: version.to_string(),
        migration_type: MigrationType::Versioned,
        version: Some(version),
        filename: filename.to_string(),
        checksum: "test_checksum".to_string(),
        applied_at: "2024-01-01 00:00:00".to_string(),
        execution_time_ms: 100,
        success: true,
    }
}

#[test]
fn test_rollback_strategy_steps() {
    let applied_migrations = vec![
        create_test_applied_migration(3, "0003_migration.sql"),
        create_test_applied_migration(2, "0002_migration.sql"),
        create_test_applied_migration(1, "0001_migration.sql"),
    ];

    let strategy = RollbackStrategy::Steps(2);
    let plan = create_rollback_plan(&applied_migrations, &strategy).unwrap();

    assert_eq!(plan.migrations_to_rollback.len(), 2);
    assert_eq!(plan.total_migrations, 2);
    // Migrations should be in descending order (newest first)
    assert_eq!(plan.migrations_to_rollback[0].version, Some(3));
    assert_eq!(plan.migrations_to_rollback[1].version, Some(2));
}

#[test]
fn test_rollback_strategy_steps_exceeds_available() {
    let applied_migrations = vec![
        create_test_applied_migration(2, "0002_migration.sql"),
        create_test_applied_migration(1, "0001_migration.sql"),
    ];

    let strategy = RollbackStrategy::Steps(5); // More than available
    let plan = create_rollback_plan(&applied_migrations, &strategy).unwrap();

    // Should only rollback available migrations
    assert_eq!(plan.migrations_to_rollback.len(), 2);
    assert_eq!(plan.migrations_to_rollback[0].version, Some(2));
    assert_eq!(plan.migrations_to_rollback[1].version, Some(1));
}

#[test]
fn test_rollback_strategy_to_version() {
    let applied_migrations = vec![
        create_test_applied_migration(5, "0005_migration.sql"),
        create_test_applied_migration(4, "0004_migration.sql"),
        create_test_applied_migration(3, "0003_migration.sql"),
        create_test_applied_migration(2, "0002_migration.sql"),
        create_test_applied_migration(1, "0001_migration.sql"),
    ];

    let strategy = RollbackStrategy::ToVersion(2);
    let plan = create_rollback_plan(&applied_migrations, &strategy).unwrap();

    // Should rollback versions 5, 4, and 3 (everything > 2)
    assert_eq!(plan.migrations_to_rollback.len(), 3);
    assert_eq!(plan.migrations_to_rollback[0].version, Some(5));
    assert_eq!(plan.migrations_to_rollback[1].version, Some(4));
    assert_eq!(plan.migrations_to_rollback[2].version, Some(3));
}

#[test]
fn test_rollback_strategy_to_version_invalid() {
    let applied_migrations = vec![
        create_test_applied_migration(3, "0003_migration.sql"),
        create_test_applied_migration(2, "0002_migration.sql"),
        create_test_applied_migration(1, "0001_migration.sql"),
    ];

    // Try to rollback to version 5 (higher than any applied)
    let strategy = RollbackStrategy::ToVersion(5);
    let result = create_rollback_plan(&applied_migrations, &strategy);

    assert!(result.is_err());
    match result.unwrap_err() {
        RollbackError::InvalidTargetVersion(version) => assert_eq!(version, 5),
        _ => panic!("Expected InvalidTargetVersion error"),
    }
}

#[test]
fn test_rollback_strategy_filters_repeatable_migrations() {
    let mut applied_migrations = vec![
        create_test_applied_migration(3, "0003_migration.sql"),
        create_test_applied_migration(2, "0002_migration.sql"),
        create_test_applied_migration(1, "0001_migration.sql"),
    ];

    // Add a repeatable migration (should be filtered out)
    let mut repeatable = create_test_applied_migration(0, "R__view.sql");
    repeatable.migration_type = MigrationType::Repeatable;
    repeatable.version = None;
    repeatable.migration_id = "R__view".to_string();
    applied_migrations.push(repeatable);

    let strategy = RollbackStrategy::Steps(10);
    let plan = create_rollback_plan(&applied_migrations, &strategy).unwrap();

    // Should only include versioned migrations
    assert_eq!(plan.migrations_to_rollback.len(), 3);
    for migration in &plan.migrations_to_rollback {
        assert_eq!(migration.migration_type, MigrationType::Versioned);
        assert!(migration.version.is_some());
    }
}

#[test]
fn test_rollback_strategy_filters_failed_migrations() {
    let mut applied_migrations = vec![
        create_test_applied_migration(3, "0003_migration.sql"),
        create_test_applied_migration(2, "0002_migration.sql"),
        create_test_applied_migration(1, "0001_migration.sql"),
    ];

    // Mark one migration as failed
    applied_migrations[1].success = false;

    let strategy = RollbackStrategy::Steps(10);
    let plan = create_rollback_plan(&applied_migrations, &strategy).unwrap();

    // Should only include successful migrations
    assert_eq!(plan.migrations_to_rollback.len(), 2);
    assert_eq!(plan.migrations_to_rollback[0].version, Some(3));
    assert_eq!(plan.migrations_to_rollback[1].version, Some(1)); // Skips failed version 2
}

#[test]
fn test_validate_rollback_plan_success() {
    let migration_with_rollback = Migration::new(
        1,
        "test".to_string(),
        "test.sql".to_string(),
        r#"-- +migrate Up
CREATE TABLE test (id INTEGER);
-- +migrate Down
DROP TABLE test;"#
            .to_string(),
    );

    let applied_migrations = vec![create_test_applied_migration(1, "0001_test.sql")];
    let strategy = RollbackStrategy::Steps(1);
    let plan = create_rollback_plan(&applied_migrations, &strategy).unwrap();

    let migrations = vec![migration_with_rollback];

    let result = validate_rollback_plan(&plan, &migrations);
    assert!(result.is_ok());
}

#[test]
fn test_validate_rollback_plan_missing_rollback_sql() {
    let migration_without_rollback = Migration::new(
        1,
        "test".to_string(),
        "test.sql".to_string(),
        "CREATE TABLE test (id INTEGER);".to_string(),
    );

    let applied_migrations = vec![create_test_applied_migration(1, "0001_test.sql")];
    let strategy = RollbackStrategy::Steps(1);
    let plan = create_rollback_plan(&applied_migrations, &strategy).unwrap();

    let migrations = vec![migration_without_rollback];

    let result = validate_rollback_plan(&plan, &migrations);
    assert!(result.is_err());
    match result.unwrap_err() {
        RollbackError::NoRollbackSql(filename) => assert_eq!(filename, "0001_test.sql"),
        _ => panic!("Expected NoRollbackSql error"),
    }
}

#[test]
fn test_validate_rollback_plan_missing_migration_file() {
    let applied_migrations = vec![create_test_applied_migration(1, "0001_test.sql")];
    let strategy = RollbackStrategy::Steps(1);
    let plan = create_rollback_plan(&applied_migrations, &strategy).unwrap();

    let migrations: Vec<Migration> = Vec::new(); // no migration files found

    let result = validate_rollback_plan(&plan, &migrations);
    assert!(result.is_err());
    match result.unwrap_err() {
        RollbackError::Migration(msg) => {
            assert!(msg.contains("Migration file not found for version 1"))
        }
        _ => panic!("Expected Migration error"),
    }
}

#[test]
fn test_empty_rollback_plan() {
    let applied_migrations = vec![];
    let strategy = RollbackStrategy::Steps(1);
    let plan = create_rollback_plan(&applied_migrations, &strategy).unwrap();

    assert_eq!(plan.migrations_to_rollback.len(), 0);
    assert_eq!(plan.total_migrations, 0);
}

#[test]
fn test_rollback_error_messages() {
    assert_eq!(
        RollbackError::NoMigrationsToRollback.message(),
        "No migrations to roll back"
    );
    assert_eq!(
        RollbackError::NoRollbackSql("0002_x.sql".to_string()).message(),
        "Migration 0002_x.sql cannot be rolled back: no rollback SQL found"
    );
    assert_eq!(
        RollbackError::InvalidTargetVersion(1).message(),
        "Cannot rollback to version 1: migration not found or not applied"
    );
    assert_eq!(RollbackError::Cancelled.message(), "Rollback cancelled by user");
    assert_eq!(
        RollbackError::Connection("timeout".to_string()).message(),
        "Connection error: timeout"
    );
}
