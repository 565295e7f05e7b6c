use deriddl_rs::model::migration::Migration;
use deriddl_rs::orchestrator::validate::collect_validation_errors;
use deriddl_rs::tracker::version_store::baseline_conflicts;
use deriddl_rs::tracker::VersionStore;

fn versioned(version: u32, name: &str) -> Migration {
    Migration::new(
        version,
        name.to_string(),
        format!("{:04}_{}.sql", version, name),
        format!("CREATE TABLE t{} (id INTEGER);", version),
    )
}

fn repeatable(name: &str, content: &str) -> Migration {
    Migration::new_repeatable(name.to_string(), format!("R__{}.sql", name), content.to_string())
}

#[test]
fn test_record_start_then_success_is_applied() {
    let mut store = VersionStore::new();
    let m = versioned(1, "init");
    assert!(!store.is_migration_applied(1));

    let stmts = store.record_migration_start(&m);
    assert_eq!(stmts.len(), 1);
    assert!(!store.is_migration_applied(1)); // provisional row is not success

    let (sql, params) = store.record_migration_success(&m, 42);
    assert!(store.is_migration_applied(1));
    assert!(sql.contains("success = 1"));
    assert_eq!(params, vec!["1".to_string()]);
}

#[test]
fn test_record_start_then_failure_not_applied() {
    let mut store = VersionStore::new();
    let m = versioned(2, "add_col");
    store.record_migration_start(&m);
    store.record_migration_failure(&m, 7);
    assert!(!store.is_migration_applied(2));
    assert!(store.get_applied_versions().is_empty());
    // the failed attempt stays as an audit trail
    assert_eq!(store.get_applied_migrations().len(), 1);
    assert!(!store.get_applied_migrations()[0].success);
}

#[test]
fn test_pending_computation_and_read_idempotence() {
    let mut store = VersionStore::new();
    let m1 = versioned(1, "a");
    let m2 = versioned(2, "b");
    let r = repeatable("view", "CREATE VIEW v AS SELECT 1;");
    let all = vec![m1.clone(), m2.clone(), r.clone()];

    let first = store.get_pending_migrations(&all);
    let second = store.get_pending_migrations(&all);
    assert_eq!(first.len(), 3);
    assert_eq!(second.len(), 3);
    for (a, b) in first.iter().zip(second.iter()) {
        assert_eq!(a.identifier(), b.identifier());
    }

    store.record_migration_start(&m1);
    store.record_migration_success(&m1, 5);
    let pending = store.get_pending_migrations(&all);
    assert_eq!(pending.len(), 2);
    assert_eq!(pending[0].identifier(), "2");
    assert_eq!(pending[1].identifier(), "R__view");
}

#[test]
fn test_repeatable_reruns_on_checksum_change() {
    let mut store = VersionStore::new();
    let original = repeatable("view", "CREATE VIEW v AS SELECT 1;");
    store.record_migration_start(&original);
    store.record_migration_success(&original, 3);
    assert!(!store.should_run_repeatable(&original));

    let edited = repeatable("view", "CREATE VIEW v AS SELECT 2;");
    assert!(store.should_run_repeatable(&edited));

    // a repeatable keeps at most one current row: the re-run replaces it
    let stmts = store.record_migration_start(&edited);
    assert_eq!(stmts.len(), 2);
    assert!(stmts[0].0.contains("DELETE"));
    store.record_migration_success(&edited, 4);
    assert_eq!(store.get_applied_migrations().len(), 1);
    assert_eq!(store.get_applied_migrations()[0].checksum, edited.checksum);
}

#[test]
fn test_remove_migration_makes_version_pending_again() {
    let mut store = VersionStore::new();
    let m = versioned(3, "c");
    store.record_migration_start(&m);
    store.record_migration_success(&m, 9);
    assert!(store.is_migration_applied(3));

    let (sql, params) = store.remove_migration(3);
    assert!(!store.is_migration_applied(3));
    assert!(store.get_applied_migrations().is_empty());
    assert_eq!(
        sql,
        "DELETE FROM schema_migrations WHERE migration_type = 'versioned' AND version = 3"
    );
    assert!(params.is_empty());
}

#[test]
fn test_applied_rows_come_back_ordered() {
    let mut store = VersionStore::new();
    let m2 = versioned(2, "b");
    let m1 = versioned(1, "a");
    let r = repeatable("view", "CREATE VIEW v AS SELECT 1;");
    // recorded out of order
    store.record_migration_start(&m2);
    store.record_migration_success(&m2, 1);
    store.record_migration_start(&r);
    store.record_migration_success(&r, 1);
    store.record_migration_start(&m1);
    store.record_migration_success(&m1, 1);

    let rows = store.get_applied_migrations();
    assert_eq!(rows.len(), 3);
    assert_eq!(rows[0].migration_id, "1");
    assert_eq!(rows[1].migration_id, "2");
    assert_eq!(rows[2].migration_id, "R__view");

    assert_eq!(store.get_applied_versions(), vec![1, 2]);
}

#[test]
fn test_from_rows_decodes_and_skips() {
    let row = |cols: &[&str]| cols.iter().map(|c| c.to_string()).collect::<Vec<String>>();
    let raw = vec![
        row(&["1", "versioned", "1", "0001_a.sql", "abc", "2024-01-01 10:00:00", "12", "1"]),
        row(&["R__v", "repeatable", "", "R__v.sql", "def", "2024-01-01 10:00:01", "3", "true"]),
        row(&["2", "versioned", "2", "0002_b.sql", "ghi", "2024-01-01 10:00:02", "5", "0"]),
        row(&["short", "row"]),
        row(&["baseline_4", "versioned", "4", "pre-existing", "baseline", "2024-01-01", "0", "1"]),
    ];
    let store = VersionStore::from_rows(raw);
    let rows = store.get_applied_migrations();
    assert_eq!(rows.len(), 3);
    assert!(store.is_migration_applied(1));
    assert!(!store.is_migration_applied(2)); // success column read as false
    assert_eq!(store.get_baseline_version(), Some(4));
    assert_eq!(
        store.get_migration_checksum("R__v"),
        Some("def".to_string())
    );
    assert_eq!(store.get_migration_checksum("nope"), None);
}

#[test]
fn test_baseline_hides_old_versions_from_pending() {
    let mut store = VersionStore::new();
    let (sql, params) = store.create_baseline(2, "pre-existing schema");
    assert_eq!(store.get_baseline_version(), Some(2));
    assert!(sql.contains("VALUES (?, 'versioned', 2"));
    assert_eq!(
        params,
        vec!["baseline_2".to_string(), "pre-existing schema".to_string()]
    );

    let all = vec![versioned(1, "a"), versioned(2, "b"), versioned(3, "c")];
    let pending = store.get_pending_migrations(&all);
    assert_eq!(pending.len(), 1);
    assert_eq!(pending[0].identifier(), "3");
}

#[test]
fn test_insert_statement_is_parameterized() {
    let mut store = VersionStore::new();
    let m = versioned(1, "users'; DROP TABLE schema_migrations; --");
    let stmts = store.record_migration_start(&m);
    let (sql, params) = &stmts[0];
    // hostile text travels as a bound parameter, never inside the statement
    assert!(!sql.contains("DROP TABLE"));
    assert_eq!(params.len(), 4);
    assert!(params[2].contains("DROP TABLE"));
    assert_eq!(
        sql,
        "INSERT INTO schema_migrations (migration_id, migration_type, version, filename, \
         checksum, applied_at, execution_time_ms, success) VALUES (?, ?, 1, ?, ?, \
         CURRENT_TIMESTAMP, 0, 0)"
    );
}

#[test]
fn test_collect_validation_errors() {
    let mut store = VersionStore::new();
    let original = versioned(1, "init");
    store.record_migration_start(&original);
    store.record_migration_success(&original, 2);
    let failed = versioned(2, "broken");
    store.record_migration_start(&failed);
    store.record_migration_failure(&failed, 2);
    let orphan = versioned(3, "gone");
    store.record_migration_start(&orphan);
    store.record_migration_success(&orphan, 2);

    // the file for version 1 was edited after application
    let edited = Migration::new(
        1,
        "init".to_string(),
        "0001_init.sql".to_string(),
        "CREATE TABLE t1 (id INTEGER, extra TEXT);".to_string(),
    );
    let migrations = vec![edited, failed.clone()];
    let errors = collect_validation_errors(&migrations, &store);
    assert_eq!(errors.len(), 3);
    assert!(errors[0].starts_with("Checksum mismatch for 0001_init.sql: stored="));
    assert_eq!(errors[1], "Migration 0002_broken.sql failed during application");
    assert_eq!(
        errors[2],
        "Migration 0003_gone.sql exists in database but corresponding file not found"
    );

    // a clean store against its own files reports nothing
    let clean = collect_validation_errors(&vec![original.clone()], &VersionStore::new());
    assert!(clean.is_empty());
}

#[test]
fn test_baseline_conflicts() {
    let mut store = VersionStore::new();
    for m in [versioned(1, "a"), versioned(3, "c")] {
        store.record_migration_start(&m);
        store.record_migration_success(&m, 1);
    }
    let applied = store.get_applied_migrations();
    let conflicting = baseline_conflicts(&applied, 2);
    assert_eq!(conflicting.len(), 1);
    assert_eq!(conflicting[0].version, Some(3));
    assert!(baseline_conflicts(&applied, 4).is_empty());
}

#[test]
fn test_from_rows_reads_negative_and_odd_values() {
    let row = |cols: &[&str]| cols.iter().map(|c| c.to_string()).collect::<Vec<String>>();
    let raw = vec![
        row(&["1", "versioned", "1", "0001_a.sql", "abc", "bad timestamp", "-5", "YES"]),
        row(&["2", "versioned", "not a number", "0002_b.sql", "def", "", "oops", "t"]),
    ];
    let store = VersionStore::from_rows(raw);
    let rows = store.get_applied_migrations();
    assert_eq!(rows.len(), 2);
    // the unreadable version folds to zero, so that record sorts first
    assert_eq!(rows[0].version, Some(0));
    assert_eq!(rows[0].execution_time_ms, 0); // unreadable number folds to zero
    assert!(rows[0].success);
    assert_eq!(rows[1].version, Some(1));
    assert_eq!(rows[1].execution_time_ms, -5);
    assert!(rows[1].success); // boolean spellings are read without regard to case
}
