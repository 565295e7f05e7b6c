//! The MySQL/MariaDB dialect.
use crate::dialects::base::{
    build_create_table_sql, spec_create_table_text, spec_standard_detection, standard_detection,
    DetectionConfig, DetectionResult, DialectConfig, DialectMetadata, FeatureConfig, SqlConfig,
    TypeMappings,
};
use crate::text::spec_views;
use vstd::prelude::*;
use vstd::string::*;

verus! {

pub struct MysqlDialect {
    pub config: DialectConfig,
}

impl MysqlDialect {
    /// Builds the dialect with its built-in configuration.
    pub fn new() -> (r: Self)
        ensures
            r.config.metadata.name@ == "mysql"@,
    {
        MysqlDialect {
            config: DialectConfig {
                metadata: DialectMetadata {
                    name: String::from_str("mysql"),
                    version: String::from_str("1.0"),
                    aliases: {
                        let mut a: Vec<String> = Vec::new();
                        a.push(String::from_str("mariadb"));
                        a
                    },
                    description: String::from_str("MySQL/MariaDB"),
                    min_version: None,
                    max_version: None,
                },
                detection: DetectionConfig {
                    connection_patterns: {
                        let mut p: Vec<String> = Vec::new();
                        p.push(String::from_str("mysql://"));
                        p.push(String::from_str("driver=\\{?mysql"));
                        p
                    },
                    driver_patterns: {
                        let mut p: Vec<String> = Vec::new();
                        p.push(String::from_str("MySQL ODBC"));
                        p.push(String::from_str("MariaDB"));
                        p
                    },
                },
                features: FeatureConfig {
                    supports_transactions: true,
                    supports_savepoints: true,
                    supports_schemas: true,
                    supports_sequences: true,
                    supports_arrays: true,
                    case_sensitive: false,
                },
                sql: SqlConfig {
                    quote_identifier: String::from_str("\""),
                    escape_identifier: String::from_str("\"\""),
                    current_timestamp: String::from_str("CURRENT_TIMESTAMP"),
                    boolean_true: String::from_str("TRUE"),
                    boolean_false: String::from_str("FALSE"),
                },
                types: TypeMappings {
                    migration_id: String::from_str("VARCHAR(255)"),
                    migration_type: String::from_str("VARCHAR(32)"),
                    version: String::from_str("INTEGER"),
                    filename: String::from_str("VARCHAR(255)"),
                    checksum: String::from_str("VARCHAR(64)"),
                    applied_at: String::from_str("TIMESTAMP"),
                    execution_time_ms: String::from_str("INTEGER"),
                    success: String::from_str("BOOLEAN"),
                },
            },
        }
    }

    /// The dialect configuration.
    pub fn config(&self) -> (r: &DialectConfig)
        ensures
            r == &self.config,
    {
        &self.config
    }

    /// Probes a connection string: connection patterns against the
    /// lower-cased string first, then driver patterns against the raw
    /// string, then plain containment of the engine names.
    pub fn detect(&self, connection_string: &str) -> (r: Option<DetectionResult>)
        ensures
            match r {
                Some(d) => spec_standard_detection(
                    self.config,
                    connection_string@,
                    "mysql"@,
                    "mariadb"@,
                ) == Some((d.confidence, d.matched_pattern@)) && d.dialect_name@
                    == self.config.metadata.name@,
                None => spec_standard_detection(
                    self.config,
                    connection_string@,
                    "mysql"@,
                    "mariadb"@,
                ) is None,
            },
    {
        match standard_detection(&self.config, connection_string, "mysql", "mariadb") {
            Some((confidence, matched_pattern)) => Some(
                DetectionResult {
                    dialect_name: self.config.metadata.name.clone(),
                    confidence,
                    matched_pattern,
                },
            ),
            None => None,
        }
    }

    /// The bookkeeping table's creation statement for this engine.
    pub fn create_migrations_table_sql(&self) -> (r: String)
        ensures
            r@ == spec_create_table_text(self.config),
    {
        build_create_table_sql(&self.config)
    }

    /// Introspection query templates.
    pub fn schema_introspection_queries(&self) -> (r: Vec<String>)
        ensures
            spec_views(r@) == seq![
                "SHOW TABLES"@,
                "SHOW FULL TABLES WHERE Table_type = 'VIEW'"@,
            ],
    {
        let mut v: Vec<String> = Vec::new();
        v.push(String::from_str("SHOW TABLES"));
        v.push(String::from_str("SHOW FULL TABLES WHERE Table_type = 'VIEW'"));
        proof {
            assert(spec_views(v@) =~= seq![
                "SHOW TABLES"@,
                "SHOW FULL TABLES WHERE Table_type = 'VIEW'"@,
            ]);
        }
        v
    }

    /// Lists user tables, the bookkeeping table excluded.
    pub fn list_tables_sql(&self) -> (r: String)
        ensures
            r@ == "SELECT table_name FROM information_schema.tables WHERE table_schema = DATABASE() AND table_name != 'schema_migrations'"@,
    {
        String::from_str(
            "SELECT table_name FROM information_schema.tables WHERE table_schema = DATABASE() AND table_name != 'schema_migrations'",
        )
    }
}

} // verus!
