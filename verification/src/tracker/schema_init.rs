//! Choosing the bookkeeping table's creation statement by engine. The
//! statement execution itself is connection work and lives outside the
//! library; picking the text is pure.
use crate::text::{contains_ci, spec_find_ci};
use vstd::prelude::*;

verus! {

/// Whether `needle` occurs in `conn`, ignoring ASCII case (the probe
/// works on the lower-cased connection string).
pub open spec fn spec_conn_has(conn: Seq<char>, needle: Seq<char>) -> bool {
    spec_find_ci(conn, needle, 0) is Some
}

/// The creation statement chosen for a connection string: PostgreSQL,
/// MySQL/MariaDB and SQLite get their own column types, anything else the
/// generic text.
pub open spec fn spec_create_table_sql(conn: Seq<char>) -> Seq<char> {
    if spec_conn_has(conn, "postgresql"@) || spec_conn_has(conn, "postgres"@) {
        spec_postgres_table_sql()
    } else if spec_conn_has(conn, "mysql"@) || spec_conn_has(conn, "mariadb"@) {
        spec_mysql_table_sql()
    } else if spec_conn_has(conn, "sqlite"@) {
        spec_sqlite_table_sql()
    } else {
        spec_generic_table_sql()
    }
}

pub open spec fn spec_postgres_table_sql() -> Seq<char> {
    "CREATE TABLE IF NOT EXISTS schema_migrations (migration_id VARCHAR(255) PRIMARY KEY NOT NULL, migration_type VARCHAR(32) NOT NULL DEFAULT 'versioned', version INTEGER, filename VARCHAR(255) NOT NULL, checksum VARCHAR(64) NOT NULL, applied_at TIMESTAMP NOT NULL DEFAULT CURRENT_TIMESTAMP, execution_time_ms INTEGER NOT NULL, success BOOLEAN NOT NULL DEFAULT TRUE)"@
}

pub open spec fn spec_mysql_table_sql() -> Seq<char> {
    "CREATE TABLE IF NOT EXISTS schema_migrations (migration_id VARCHAR(255) PRIMARY KEY NOT NULL, migration_type VARCHAR(32) NOT NULL DEFAULT 'versioned', version INTEGER, filename VARCHAR(255) NOT NULL, checksum VARCHAR(64) NOT NULL, applied_at TIMESTAMP NOT NULL DEFAULT CURRENT_TIMESTAMP, execution_time_ms INTEGER NOT NULL, success BOOLEAN NOT NULL DEFAULT TRUE)"@
}

pub open spec fn spec_sqlite_table_sql() -> Seq<char> {
    "CREATE TABLE IF NOT EXISTS schema_migrations (migration_id TEXT PRIMARY KEY NOT NULL, migration_type TEXT NOT NULL DEFAULT 'versioned', version INTEGER, filename TEXT NOT NULL, checksum TEXT NOT NULL, applied_at DATETIME NOT NULL DEFAULT CURRENT_TIMESTAMP, execution_time_ms INTEGER NOT NULL, success BOOLEAN NOT NULL DEFAULT 1)"@
}

pub open spec fn spec_generic_table_sql() -> Seq<char> {
    "CREATE TABLE IF NOT EXISTS schema_migrations (migration_id VARCHAR(255) PRIMARY KEY NOT NULL, migration_type VARCHAR(32) NOT NULL DEFAULT 'versioned', version INTEGER, filename VARCHAR(255) NOT NULL, checksum VARCHAR(64) NOT NULL, applied_at TIMESTAMP NOT NULL DEFAULT CURRENT_TIMESTAMP, execution_time_ms INTEGER NOT NULL, success BOOLEAN NOT NULL DEFAULT TRUE)"@
}

/// Picks the bookkeeping table's creation statement from the connection
/// string, case-insensitively.
pub fn detect_database_type_and_get_sql(conn_string: &str) -> (r: &'static str)
    ensures
        r@ == spec_create_table_sql(conn_string@),
{
    if contains_ci(conn_string, "postgresql") || contains_ci(conn_string, "postgres") {
        "CREATE TABLE IF NOT EXISTS schema_migrations (migration_id VARCHAR(255) PRIMARY KEY NOT NULL, migration_type VARCHAR(32) NOT NULL DEFAULT 'versioned', version INTEGER, filename VARCHAR(255) NOT NULL, checksum VARCHAR(64) NOT NULL, applied_at TIMESTAMP NOT NULL DEFAULT CURRENT_TIMESTAMP, execution_time_ms INTEGER NOT NULL, success BOOLEAN NOT NULL DEFAULT TRUE)"
    } else if contains_ci(conn_string, "mysql") || contains_ci(conn_string, "mariadb") {
        "CREATE TABLE IF NOT EXISTS schema_migrations (migration_id VARCHAR(255) PRIMARY KEY NOT NULL, migration_type VARCHAR(32) NOT NULL DEFAULT 'versioned', version INTEGER, filename VARCHAR(255) NOT NULL, checksum VARCHAR(64) NOT NULL, applied_at TIMESTAMP NOT NULL DEFAULT CURRENT_TIMESTAMP, execution_time_ms INTEGER NOT NULL, success BOOLEAN NOT NULL DEFAULT TRUE)"
    } else if contains_ci(conn_string, "sqlite") {
        "CREATE TABLE IF NOT EXISTS schema_migrations (migration_id TEXT PRIMARY KEY NOT NULL, migration_type TEXT NOT NULL DEFAULT 'versioned', version INTEGER, filename TEXT NOT NULL, checksum TEXT NOT NULL, applied_at DATETIME NOT NULL DEFAULT CURRENT_TIMESTAMP, execution_time_ms INTEGER NOT NULL, success BOOLEAN NOT NULL DEFAULT 1)"
    } else {
        "CREATE TABLE IF NOT EXISTS schema_migrations (migration_id VARCHAR(255) PRIMARY KEY NOT NULL, migration_type VARCHAR(32) NOT NULL DEFAULT 'versioned', version INTEGER, filename VARCHAR(255) NOT NULL, checksum VARCHAR(64) NOT NULL, applied_at TIMESTAMP NOT NULL DEFAULT CURRENT_TIMESTAMP, execution_time_ms INTEGER NOT NULL, success BOOLEAN NOT NULL DEFAULT TRUE)"
    }
}

} // verus!
