use deriddl_rs::dialects::generic::GenericDialect;
use deriddl_rs::dialects::mysql::MysqlDialect;
use deriddl_rs::dialects::postgres::PostgresDialect;
use deriddl_rs::dialects::sqlite::SqliteDialect;
use deriddl_rs::executor::split_sql_statements;
use deriddl_rs::text::{parse_u32, trim_string, u32_to_string, u32_to_string_pad4};
use deriddl_rs::tracker::schema_init::detect_database_type_and_get_sql;

#[test]
fn test_split_sql_statements_strips_comments() {
    let sql = "-- create the table\nCREATE TABLE t (\n  id INTEGER\n);\n\n-- and fill it\nINSERT INTO t VALUES (1);\n";
    let stmts = split_sql_statements(sql);
    assert_eq!(
        stmts,
        vec![
            "CREATE TABLE t ( id INTEGER )".to_string(),
            "INSERT INTO t VALUES (1)".to_string(),
        ]
    );
}

#[test]
fn test_split_sql_statements_empty_and_blank() {
    assert!(split_sql_statements("").is_empty());
    assert!(split_sql_statements("-- only a comment\n\n  \n").is_empty());
    assert_eq!(split_sql_statements("SELECT 1"), vec!["SELECT 1".to_string()]);
}

#[test]
fn test_number_rendering() {
    assert_eq!(u32_to_string(0), "0");
    assert_eq!(u32_to_string(42), "42");
    assert_eq!(u32_to_string(4294967295), "4294967295");
    assert_eq!(u32_to_string_pad4(7), "0007");
    assert_eq!(u32_to_string_pad4(42), "0042");
    assert_eq!(u32_to_string_pad4(12345), "12345");
}

#[test]
fn test_parse_u32_bounds() {
    assert_eq!(parse_u32("0"), Some(0));
    assert_eq!(parse_u32("0042"), Some(42));
    assert_eq!(parse_u32("4294967295"), Some(4294967295));
    assert_eq!(parse_u32("4294967296"), None);
    assert_eq!(parse_u32(""), None);
    assert_eq!(parse_u32("12a"), None);
    assert_eq!(parse_u32("-3"), None);
}

#[test]
fn test_trim_string() {
    assert_eq!(trim_string("  a b \t\n"), "a b");
    assert_eq!(trim_string(""), "");
    assert_eq!(trim_string(" \r\n "), "");
}

#[test]
fn test_postgres_detection_confidences() {
    let pg = PostgresDialect::new();
    // the connection pattern matches the lower-cased string
    let by_pattern = pg.detect("POSTGRES://db.example.com/app").unwrap();
    assert_eq!(by_pattern.confidence, 90);
    assert_eq!(by_pattern.dialect_name, "postgres");
    // no pattern, but the engine name occurs somewhere
    let by_fallback = pg.detect("DSN=mydb;Vendor=postgres-compatible").unwrap();
    assert_eq!(by_fallback.confidence, 70);
    assert_eq!(by_fallback.matched_pattern, "postgresql|postgres");
    // nothing matches
    assert!(pg.detect("Driver={SQLite3};Database=test.db;").is_none());
}

#[test]
fn test_mysql_and_sqlite_detection() {
    let my = MysqlDialect::new();
    assert_eq!(my.detect("mysql://db/app").unwrap().confidence, 90);
    assert!(my.detect("postgres://db/app").is_none());

    let lite = SqliteDialect::new();
    let hit = lite.detect("Driver={SQLite3};Database=test.db;").unwrap();
    assert!(hit.confidence >= 70);
    assert_eq!(hit.dialect_name, "sqlite");
}

#[test]
fn test_generic_dialect_is_fallback() {
    let g = GenericDialect::new();
    let d = g.detect("anything at all").unwrap();
    assert_eq!(d.confidence, 10);
    assert_eq!(d.matched_pattern, "fallback");
}

#[test]
fn test_create_table_sql_per_engine() {
    let pg = PostgresDialect::new().create_migrations_table_sql();
    assert!(pg.contains("CREATE TABLE IF NOT EXISTS schema_migrations"));
    assert!(pg.contains("migration_id VARCHAR(255) PRIMARY KEY NOT NULL"));
    assert!(pg.contains("success BOOLEAN NOT NULL DEFAULT TRUE"));

    let lite = SqliteDialect::new().create_migrations_table_sql();
    assert!(lite.contains("migration_id TEXT PRIMARY KEY NOT NULL"));
    assert!(lite.contains("success BOOLEAN NOT NULL DEFAULT 1"));
}

#[test]
fn test_detect_database_type_and_get_sql() {
    let pg = detect_database_type_and_get_sql("Driver={PostgreSQL};Server=x");
    assert!(pg.contains("TIMESTAMP"));
    let lite = detect_database_type_and_get_sql("Driver={SQLite3};Database=test.db");
    assert!(lite.contains("DATETIME"));
    let generic = detect_database_type_and_get_sql("Driver={Weird};Server=y");
    assert!(generic.contains("VARCHAR(255)"));
}

#[test]
fn test_list_dialects_names() {
    let names = deriddl_rs::dialects::list_dialects();
    assert_eq!(
        names,
        vec![
            "postgres".to_string(),
            "mysql".to_string(),
            "sqlite".to_string(),
            "databricks".to_string(),
            "generic".to_string(),
        ]
    );
}

#[test]
fn test_databricks_table_uses_delta() {
    let d = deriddl_rs::dialects::databricks::DatabricksDialect::new();
    assert!(d.create_migrations_table_sql().ends_with("USING DELTA"));
    assert!(d.detect("anything").is_none());
}
