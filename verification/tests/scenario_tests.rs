//! End-to-end scenarios over the model: a directory of three files is
//! loaded, applied, edited and rolled back, with the bookkeeping mirror
//! standing in for the real table.
use deriddl_rs::model::migration::Migration;
use deriddl_rs::orchestrator::rollback::{
    create_rollback_plan, validate_rollback_plan, RollbackError, RollbackStrategy,
};
use deriddl_rs::orchestrator::MigrationLoader;
use deriddl_rs::tracker::VersionStore;

fn entries(list: &[(&str, &str)]) -> Vec<(String, String)> {
    list.iter().map(|(f, c)| (f.to_string(), c.to_string())).collect()
}

fn apply_all(store: &mut VersionStore, pending: &[Migration]) {
    for m in pending {
        store.record_migration_start(m);
        // forward SQL would run here, against the real database
        store.record_migration_success(m, 1);
    }
}

#[test]
fn test_apply_status_and_repeatable_rerun() {
    let dir = [
        ("0001_init.sql", "CREATE TABLE users (id INTEGER);"),
        (
            "0002_add_col.sql",
            "-- +migrate Up\nALTER TABLE users ADD name TEXT;\n-- +migrate Down\nALTER TABLE users DROP COLUMN name;",
        ),
        ("R__view.sql", "CREATE VIEW v AS SELECT id FROM users;"),
    ];
    let migrations = MigrationLoader::load_from_entries(entries(&dir));
    assert_eq!(migrations.len(), 3);
    assert_eq!(migrations[0].filename(), "0001_init.sql");
    assert_eq!(migrations[1].filename(), "0002_add_col.sql");
    assert_eq!(migrations[2].filename(), "R__view.sql");

    // applying against a fresh target succeeds for all three
    let mut store = VersionStore::new();
    let pending = store.get_pending_migrations(&migrations);
    assert_eq!(pending.len(), 3);
    apply_all(&mut store, &pending);

    // status now shows all three applied
    assert!(store.is_migration_applied(1));
    assert!(store.is_migration_applied(2));
    assert_eq!(store.get_applied_migrations().len(), 3);
    assert!(store.get_pending_migrations(&migrations).is_empty());

    // editing the repeatable file re-runs only the repeatable migration
    let edited = [
        dir[0],
        dir[1],
        ("R__view.sql", "CREATE VIEW v AS SELECT id, 1 FROM users;"),
    ];
    let reloaded = MigrationLoader::load_from_entries(entries(&edited));
    let pending = store.get_pending_migrations(&reloaded);
    assert_eq!(pending.len(), 1);
    assert_eq!(pending[0].identifier(), "R__view");
    apply_all(&mut store, &pending);
    assert!(store.get_pending_migrations(&reloaded).is_empty());
}

#[test]
fn test_rollback_one_step_needs_reverse_sql() {
    let dir = [
        ("0001_init.sql", "CREATE TABLE users (id INTEGER);"),
        (
            "0002_add_col.sql",
            "-- +migrate Up\nALTER TABLE users ADD name TEXT;\n-- +migrate Down\nALTER TABLE users DROP COLUMN name;",
        ),
        ("R__view.sql", "CREATE VIEW v AS SELECT id FROM users;"),
    ];
    let migrations = MigrationLoader::load_from_entries(entries(&dir));
    let mut store = VersionStore::new();
    let pending = store.get_pending_migrations(&migrations);
    apply_all(&mut store, &pending);

    // one step back selects the newest versioned migration only
    let history = store.get_applied_migrations();
    let plan = create_rollback_plan(&history, &RollbackStrategy::Steps(1)).unwrap();
    assert_eq!(plan.total_migrations, 1);
    assert_eq!(plan.migrations_to_rollback[0].version, Some(2));

    // its file carries reverse SQL, so the plan validates and executes
    assert!(validate_rollback_plan(&plan, &migrations).is_ok());
    store.remove_migration(2);
    assert!(!store.is_migration_applied(2));
    assert!(store.is_migration_applied(1));
    let pending = store.get_pending_migrations(&migrations);
    assert_eq!(pending.len(), 1);
    assert_eq!(pending[0].identifier(), "2");
}

#[test]
fn test_rollback_without_reverse_sql_fails_and_changes_nothing() {
    let dir = [("0001_init.sql", "CREATE TABLE users (id INTEGER);")];
    let migrations = MigrationLoader::load_from_entries(entries(&dir));
    let mut store = VersionStore::new();
    let pending = store.get_pending_migrations(&migrations);
    apply_all(&mut store, &pending);

    let history = store.get_applied_migrations();
    let plan = create_rollback_plan(&history, &RollbackStrategy::Steps(1)).unwrap();
    let result = validate_rollback_plan(&plan, &migrations);
    match result.unwrap_err() {
        RollbackError::NoRollbackSql(filename) => assert_eq!(filename, "0001_init.sql"),
        other => panic!("expected NoRollbackSql, got {:?}", other),
    }
    // nothing was removed: the bookkeeping row is untouched
    assert!(store.is_migration_applied(1));
    assert_eq!(store.get_applied_migrations().len(), 1);
}

#[test]
fn test_to_version_rollback_scenario() {
    let mut dir: Vec<(String, String)> = Vec::new();
    for v in 1..=5u32 {
        dir.push((
            format!("{:04}_step.sql", v),
            format!(
                "-- +migrate Up\nCREATE TABLE t{} (id INTEGER);\n-- +migrate Down\nDROP TABLE t{};",
                v, v
            ),
        ));
    }
    let migrations = MigrationLoader::load_from_entries(dir);
    let mut store = VersionStore::new();
    let pending = store.get_pending_migrations(&migrations);
    apply_all(&mut store, &pending);

    let history = store.get_applied_migrations();
    let plan = create_rollback_plan(&history, &RollbackStrategy::ToVersion(2)).unwrap();
    assert_eq!(plan.total_migrations, 3);
    assert!(validate_rollback_plan(&plan, &migrations).is_ok());
    for row in &plan.migrations_to_rollback {
        store.remove_migration(row.version.unwrap());
    }
    assert_eq!(store.get_applied_versions(), vec![1, 2]);
}
