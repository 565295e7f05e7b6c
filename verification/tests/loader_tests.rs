use deriddl_rs::model::MigrationType;
use deriddl_rs::orchestrator::MigrationLoader;

fn entries(list: &[(&str, &str)]) -> Vec<(String, String)> {
    list.iter().map(|(f, c)| (f.to_string(), c.to_string())).collect()
}

#[test]
fn test_migration_loader_parses_r_prefix_files() {
    let migrations = MigrationLoader::load_from_entries(entries(&[
        ("0001_init.sql", "CREATE TABLE test (id INT);"),
        ("R__create_views.sql", "CREATE VIEW test_view AS SELECT * FROM test;"),
        (
            "R__update_functions.sql",
            "CREATE FUNCTION test_func() RETURNS INT AS $$ BEGIN RETURN 1; END; $$;",
        ),
        ("0002_add_data.sql", "INSERT INTO test VALUES (1);"),
    ]));

    assert_eq!(migrations.len(), 4);

    // Check sorting: versioned first, then repeatable
    assert_eq!(migrations[0].filename(), "0001_init.sql");
    assert_eq!(migrations[0].migration_type, MigrationType::Versioned);

    assert_eq!(migrations[1].filename(), "0002_add_data.sql");
    assert_eq!(migrations[1].migration_type, MigrationType::Versioned);

    assert_eq!(migrations[2].filename(), "R__create_views.sql");
    assert_eq!(migrations[2].migration_type, MigrationType::Repeatable);

    assert_eq!(migrations[3].filename(), "R__update_functions.sql");
    assert_eq!(migrations[3].migration_type, MigrationType::Repeatable);
}

#[test]
fn test_migration_loader_ignores_invalid_r_files() {
    let migrations = MigrationLoader::load_from_entries(entries(&[
        ("R_.sql", "-- missing name"),
        ("R__", "-- missing .sql extension"),
        ("R_test.sql", "-- single underscore"),
        ("R__valid_file.sql", "-- valid repeatable"),
    ]));

    // Only the valid file should be loaded
    assert_eq!(migrations.len(), 1);
    assert_eq!(migrations[0].filename(), "R__valid_file.sql");
    assert_eq!(migrations[0].name, "valid_file");
}

#[test]
fn test_migration_sorting_with_mixed_types() {
    // entries arrive in non-sorted order
    let migrations = MigrationLoader::load_from_entries(entries(&[
        ("R__zebra.sql", "-- zebra"),
        ("0003_third.sql", "-- third"),
        ("R__alpha.sql", "-- alpha"),
        ("0001_first.sql", "-- first"),
        ("0002_second.sql", "-- second"),
        ("R__beta.sql", "-- beta"),
    ]));

    // Should be sorted: versioned by version, then repeatable by name
    let expected_order = vec![
        "0001_first.sql",
        "0002_second.sql",
        "0003_third.sql",
        "R__alpha.sql",
        "R__beta.sql",
        "R__zebra.sql",
    ];

    for (i, expected) in expected_order.iter().enumerate() {
        assert_eq!(migrations[i].filename(), *expected);
    }
}

#[test]
fn test_empty_migration_directory() {
    let migrations = MigrationLoader::load_from_entries(Vec::new());
    assert!(migrations.is_empty());
}

#[test]
fn test_only_repeatable_migrations() {
    let migrations = MigrationLoader::load_from_entries(entries(&[
        ("R__views.sql", "-- views"),
        ("R__functions.sql", "-- functions"),
        ("R__procedures.sql", "-- procedures"),
    ]));

    assert_eq!(migrations.len(), 3);
    assert!(migrations.iter().all(|m| m.is_repeatable()));

    // Should be sorted alphabetically by name
    assert_eq!(migrations[0].name, "functions");
    assert_eq!(migrations[1].name, "procedures");
    assert_eq!(migrations[2].name, "views");
}

#[test]
fn test_loader_is_deterministic() {
    let list = [
        ("0002_b.sql", "-- b"),
        ("0001_a.sql", "-- a"),
        ("R__v.sql", "-- v"),
        ("notes.txt", "ignored"),
    ];
    let first = MigrationLoader::load_from_entries(entries(&list));
    let second = MigrationLoader::load_from_entries(entries(&list));
    assert_eq!(first.len(), second.len());
    for (a, b) in first.iter().zip(second.iter()) {
        assert_eq!(a.filename(), b.filename());
        assert_eq!(a.sql_content, b.sql_content);
        assert_eq!(a.checksum, b.checksum);
    }
    // the stray non-conforming file was skipped, never fatal
    assert_eq!(first.len(), 3);
}

#[test]
fn test_loader_skips_non_sql_and_bad_names() {
    let migrations = MigrationLoader::load_from_entries(entries(&[
        ("0001_init.sql", "CREATE TABLE a (x INT);"),
        ("0001_init.sql.bak", "not a migration"),
        ("abc_def.sql", "leading token is not a number"),
        ("0002_.sql", "empty name"),
        ("99999999999999999999_big.sql", "version out of range"),
    ]));
    assert_eq!(migrations.len(), 1);
    assert_eq!(migrations[0].filename(), "0001_init.sql");
}
