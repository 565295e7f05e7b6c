use deriddl_rs::model::migration::{Migration, MigrationType};

#[test]
fn test_migration_parsing_with_rollback_sql() {
    // Test +migrate format
    let content = r#"-- +migrate Up
CREATE TABLE users (id INTEGER PRIMARY KEY);

-- +migrate Down
DROP TABLE users;
"#;
    let migration = Migration::new(1, "test".to_string(), "test.sql".to_string(), content.to_string());
    assert!(migration.has_rollback());
    assert_eq!(migration.get_rollback_sql().unwrap().trim(), "DROP TABLE users;");

    // Test UP/DOWN format
    let content = r#"-- UP
CREATE TABLE posts (id INTEGER PRIMARY KEY);

-- DOWN
DROP TABLE posts;
"#;
    let migration = Migration::new(2, "test2".to_string(), "test2.sql".to_string(), content.to_string());
    assert!(migration.has_rollback());
    assert_eq!(migration.get_rollback_sql().unwrap().trim(), "DROP TABLE posts;");

    // Test goose format
    let content = r#"-- +goose Up
CREATE TABLE comments (id INTEGER PRIMARY KEY);

-- +goose Down
DROP TABLE comments;
"#;
    let migration = Migration::new(3, "test3".to_string(), "test3.sql".to_string(), content.to_string());
    assert!(migration.has_rollback());
    assert_eq!(migration.get_rollback_sql().unwrap().trim(), "DROP TABLE comments;");

    // Test @@UP@@/@@DOWN@@ format
    let content = r#"-- @@UP@@
CREATE TABLE orders (id INTEGER PRIMARY KEY);

-- @@DOWN@@
DROP TABLE orders;
"#;
    let migration = Migration::new(4, "test4".to_string(), "test4.sql".to_string(), content.to_string());
    assert!(migration.has_rollback());
    assert_eq!(migration.get_rollback_sql().unwrap().trim(), "DROP TABLE orders;");
}

#[test]
fn test_migration_parsing_without_rollback_sql() {
    let content = "CREATE TABLE users (id INTEGER PRIMARY KEY);";
    let migration = Migration::new(1, "test".to_string(), "test.sql".to_string(), content.to_string());
    assert!(!migration.has_rollback());
    assert!(migration.get_rollback_sql().is_none());
}

#[test]
fn test_migration_parsing_case_insensitive() {
    let content = r#"-- +MIGRATE UP
CREATE TABLE users (id INTEGER PRIMARY KEY);

-- +migrate down
DROP TABLE users;
"#;
    let migration = Migration::new(1, "test".to_string(), "test.sql".to_string(), content.to_string());
    assert!(migration.has_rollback());
    assert_eq!(migration.get_rollback_sql().unwrap().trim(), "DROP TABLE users;");
}

#[test]
fn test_migration_parsing_whitespace_handling() {
    // Test with extra whitespace and newlines
    let content = r#"

-- +migrate Up

CREATE TABLE users (
    id INTEGER PRIMARY KEY
);


-- +migrate Down

DROP TABLE users;

        "#;
    let migration = Migration::new(1, "test".to_string(), "test.sql".to_string(), content.to_string());
    assert!(migration.has_rollback());
    let rollback_sql = migration.get_rollback_sql().unwrap().trim();
    assert!(rollback_sql.contains("DROP TABLE users;"));
}

#[test]
fn test_migration_parsing_complex_sql() {
    let content = r#"-- +migrate Up
CREATE TABLE users (
    id INTEGER PRIMARY KEY,
    username VARCHAR(50) UNIQUE NOT NULL,
    email VARCHAR(100) UNIQUE NOT NULL
);

CREATE INDEX idx_username ON users(username);
CREATE INDEX idx_email ON users(email);

INSERT INTO users (username, email) VALUES ('admin', 'admin@example.com');

-- +migrate Down
DELETE FROM users WHERE username = 'admin';
DROP INDEX IF EXISTS idx_email;
DROP INDEX IF EXISTS idx_username;
DROP TABLE IF EXISTS users;
"#;
    let migration = Migration::new(1, "complex".to_string(), "complex.sql".to_string(), content.to_string());
    assert!(migration.has_rollback());

    let rollback_sql = migration.get_rollback_sql().unwrap();
    assert!(rollback_sql.contains("DELETE FROM users"));
    assert!(rollback_sql.contains("DROP INDEX"));
    assert!(rollback_sql.contains("DROP TABLE"));
}

#[test]
fn test_migration_identifier() {
    let versioned = Migration::new(42, "test".to_string(), "test.sql".to_string(), "".to_string());
    assert_eq!(versioned.identifier(), "42");

    let repeatable =
        Migration::new_repeatable("test_view".to_string(), "test.sql".to_string(), "".to_string());
    assert_eq!(repeatable.identifier(), "R__test_view");
}

#[test]
fn test_migration_filename() {
    let versioned =
        Migration::new(42, "create_users".to_string(), "test.sql".to_string(), "".to_string());
    assert_eq!(versioned.filename(), "0042_create_users.sql");

    let repeatable = Migration::new_repeatable(
        "create_view".to_string(),
        "test.sql".to_string(),
        "".to_string(),
    );
    assert_eq!(repeatable.filename(), "R__create_view.sql");
}

#[test]
fn test_repeatable_migration_rollback() {
    let migration = Migration::new_repeatable(
        "test_view".to_string(),
        "R__test_view.sql".to_string(),
        "CREATE VIEW test AS SELECT 1;".to_string(),
    );

    // Repeatable migrations should not be included in rollback plans
    assert_eq!(migration.migration_type, MigrationType::Repeatable);
    assert!(migration.is_repeatable());
}

#[test]
fn test_checksum_ignores_reverse_section() {
    let forward_only = Migration::new(
        1,
        "a".to_string(),
        "0001_a.sql".to_string(),
        "-- +migrate Up\nCREATE TABLE t (id INTEGER);\n-- +migrate Down\nDROP TABLE t;".to_string(),
    );
    let other_reverse = Migration::new(
        2,
        "b".to_string(),
        "0002_b.sql".to_string(),
        "-- +migrate Up\nCREATE TABLE t (id INTEGER);\n-- +migrate Down\nDROP TABLE t CASCADE;"
            .to_string(),
    );
    // identical forward SQL, different names and reverse sections
    assert_eq!(forward_only.sql_content, other_reverse.sql_content);
    assert_eq!(forward_only.checksum, other_reverse.checksum);

    let different_forward = Migration::new(
        3,
        "c".to_string(),
        "0003_c.sql".to_string(),
        "-- +migrate Up\nCREATE TABLE u (id INTEGER);\n-- +migrate Down\nDROP TABLE u;".to_string(),
    );
    assert_ne!(forward_only.checksum, different_forward.checksum);
}

#[test]
fn test_has_rollback_blank_reverse() {
    let blank = Migration::new(
        1,
        "a".to_string(),
        "0001_a.sql".to_string(),
        "-- +migrate Up\nCREATE TABLE t (id INTEGER);\n-- +migrate Down\n   \n".to_string(),
    );
    assert!(!blank.has_rollback());
}

#[test]
fn test_from_applied_attaches_record() {
    let applied = deriddl_rs::tracker::AppliedMigration {
        migration_id: "7".to_string(),
        migration_type: MigrationType::Versioned,
        version: Some(7),
        filename: "0007_add_index.sql".to_string(),
        checksum: "feedface".to_string(),
        applied_at: "2024-01-02 03:04:05".to_string(),
        execution_time_ms: 240,
        success: true,
    };
    let m = Migration::from_applied(
        &applied,
        "migrations/0007_add_index.sql".to_string(),
        "CREATE INDEX i ON t(c);".to_string(),
    );
    assert_eq!(m.name, "add_index");
    assert_eq!(m.version, Some(7));
    assert_eq!(m.checksum, "feedface");
    assert_eq!(m.applied_timestamp(), Some("2024-01-02 03:04:05".to_string()));
    assert_eq!(m.execution_time(), Some(240));
    assert!(m.is_applied());
}
