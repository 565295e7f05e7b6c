//! The generic fallback dialect: standard SQL types, and a detection that
//! always matches with the lowest confidence.
use crate::dialects::base::{
    build_create_table_sql, spec_create_table_text, DetectionConfig, DetectionResult,
    DialectConfig, DialectMetadata, FeatureConfig, SqlConfig, TypeMappings,
};
use crate::text::spec_views;
use vstd::prelude::*;
use vstd::string::*;

verus! {

pub struct GenericDialect {
    pub config: DialectConfig,
}

impl GenericDialect {
    /// Builds the dialect with its built-in configuration.
    pub fn new() -> (r: Self)
        ensures
            r.config.metadata.name@ == "generic"@,
    {
        GenericDialect {
            config: DialectConfig {
                metadata: DialectMetadata {
                    name: String::from_str("generic"),
                    version: String::from_str("1.0"),
                    aliases: Vec::new(),
                    description: String::from_str("Generic SQL"),
                    min_version: None,
                    max_version: None,
                },
                detection: DetectionConfig {
                    connection_patterns: Vec::new(),
                    driver_patterns: Vec::new(),
                },
                features: FeatureConfig {
                    supports_transactions: true,
                    supports_savepoints: false,
                    supports_schemas: false,
                    supports_sequences: false,
                    supports_arrays: false,
                    case_sensitive: false,
                },
                sql: SqlConfig {
                    quote_identifier: String::from_str("\""),
                    escape_identifier: String::from_str("\"\""),
                    current_timestamp: String::from_str("CURRENT_TIMESTAMP"),
                    boolean_true: String::from_str("TRUE"),
                    boolean_false: String::from_str("FALSE"),
                },
                types: TypeMappings {
                    migration_id: String::from_str("VARCHAR(255)"),
                    migration_type: String::from_str("VARCHAR(32)"),
                    version: String::from_str("INTEGER"),
                    filename: String::from_str("VARCHAR(255)"),
                    checksum: String::from_str("VARCHAR(64)"),
                    applied_at: String::from_str("TIMESTAMP"),
                    execution_time_ms: String::from_str("INTEGER"),
                    success: String::from_str("BOOLEAN"),
                },
            },
        }
    }

    /// The dialect configuration.
    pub fn config(&self) -> (r: &DialectConfig)
        ensures
            r == &self.config,
    {
        &self.config
    }

    /// The fallback always matches, with the lowest confidence, so that a
    /// best-confidence selection picks anything more specific first.
    pub fn detect(&self, connection_string: &str) -> (r: Option<DetectionResult>)
        ensures
            r matches Some(d) && d.confidence == 10 && d.matched_pattern@ == "fallback"@
                && d.dialect_name@ == self.config.metadata.name@,
    {
        Some(
            DetectionResult {
                dialect_name: self.config.metadata.name.clone(),
                confidence: 10,
                matched_pattern: String::from_str("fallback"),
            },
        )
    }

    /// The bookkeeping table's creation statement for this engine.
    pub fn create_migrations_table_sql(&self) -> (r: String)
        ensures
            r@ == spec_create_table_text(self.config),
    {
        build_create_table_sql(&self.config)
    }

    /// Introspection query templates.
    pub fn schema_introspection_queries(&self) -> (r: Vec<String>)
        ensures
            spec_views(r@) == seq![
                "SELECT table_name FROM information_schema.tables WHERE table_schema = 'public'"@,
            ],
    {
        let mut v: Vec<String> = Vec::new();
        v.push(
            String::from_str(
                "SELECT table_name FROM information_schema.tables WHERE table_schema = 'public'",
            ),
        );
        proof {
            assert(spec_views(v@) =~= seq![
                "SELECT table_name FROM information_schema.tables WHERE table_schema = 'public'"@,
            ]);
        }
        v
    }

    /// Lists user tables, the bookkeeping table excluded.
    pub fn list_tables_sql(&self) -> (r: String)
        ensures
            r@ == "SELECT table_name FROM information_schema.tables WHERE table_schema = 'public' AND table_name != 'schema_migrations'"@,
    {
        String::from_str(
            "SELECT table_name FROM information_schema.tables WHERE table_schema = 'public' AND table_name != 'schema_migrations'",
        )
    }
}

} // verus!
