use deriddl_rs::model::config::{Config, ConfigError, DatabaseConfig, MigrationsConfig};

#[test]
fn test_config_default_values() {
    let config = Config::default();

    // Test database defaults
    assert_eq!(config.database.connection_string, None);
    assert_eq!(config.database.timeout, 30);
    assert_eq!(config.database.max_retries, 3);

    // Test migrations defaults
    assert_eq!(config.migrations.path, "./migrations");
    assert_eq!(config.migrations.dialect, "postgres");
    assert!(config.migrations.validate_sql);
    assert_eq!(config.migrations.file_pattern, r"^\d{4}_.*\.sql$");

    // Test logging defaults
    assert_eq!(config.logging.level, "info");
    assert!(config.logging.colored);
    assert_eq!(config.logging.format, "pretty");

    // Test behavior defaults
    assert!(!config.behavior.auto_create_migrations_dir);
    assert!(config.behavior.require_confirmation);
    assert!(!config.behavior.default_dry_run);

    // Test validation defaults
    assert!(config.validation.enable_sqlglot);
    assert!(!config.validation.strict_validation);
    assert_eq!(config.validation.max_file_size_mb, 10);
}

#[test]
fn test_config_merge() {
    let base_config = Config {
        database: DatabaseConfig {
            connection_string: Some("base-connection".to_string()),
            timeout: 30,
            max_retries: 3,
        },
        migrations: MigrationsConfig {
            path: "./base-migrations".to_string(),
            dialect: "postgres".to_string(),
            validate_sql: true,
            file_pattern: "base-pattern".to_string(),
        },
        ..Config::default()
    };

    let override_config = Config {
        database: DatabaseConfig {
            connection_string: Some("override-connection".to_string()),
            timeout: 60,
            max_retries: 5,
        },
        migrations: MigrationsConfig {
            path: "./override-migrations".to_string(),
            dialect: "mysql".to_string(),
            validate_sql: false,
            file_pattern: "override-pattern".to_string(),
        },
        ..Config::default()
    };

    let merged = base_config.merge(override_config);

    // Verify override values took precedence
    assert_eq!(
        merged.database.connection_string,
        Some("override-connection".to_string())
    );
    assert_eq!(merged.database.timeout, 60);
    assert_eq!(merged.database.max_retries, 5);
    assert_eq!(merged.migrations.path, "./override-migrations");
    assert_eq!(merged.migrations.dialect, "mysql");
    assert!(!merged.migrations.validate_sql);
    assert_eq!(merged.migrations.file_pattern, "override-pattern");
}

#[test]
fn test_config_merge_none_connection_string() {
    let base_config = Config {
        database: DatabaseConfig {
            connection_string: Some("base-connection".to_string()),
            timeout: 30,
            max_retries: 3,
        },
        ..Config::default()
    };

    let override_config = Config {
        database: DatabaseConfig {
            connection_string: None,
            timeout: 60,
            max_retries: 5,
        },
        ..Config::default()
    };

    let merged = base_config.merge(override_config);

    // None connection string should not override existing one
    assert_eq!(
        merged.database.connection_string,
        Some("base-connection".to_string())
    );
    assert_eq!(merged.database.timeout, 60);
    assert_eq!(merged.database.max_retries, 5);
}

#[test]
fn test_config_error_messages() {
    let read = ConfigError::FileRead("test.toml".to_string(), "Not found".to_string());
    assert_eq!(
        read.message(),
        "Failed to read config file 'test.toml': Not found"
    );
    let parse = ConfigError::Parse("test.toml".to_string(), "Invalid syntax".to_string());
    assert_eq!(
        parse.message(),
        "Failed to parse config file 'test.toml': Invalid syntax"
    );
    let write = ConfigError::FileWrite("test.toml".to_string(), "Permission denied".to_string());
    assert_eq!(
        write.message(),
        "Failed to write config file 'test.toml': Permission denied"
    );
    let ser = ConfigError::Serialize("Invalid value".to_string());
    assert_eq!(ser.message(), "Failed to serialize config: Invalid value");
}

#[test]
fn test_standard_config_paths() {
    let paths = Config::standard_config_paths();
    assert_eq!(paths, vec!["config.toml".to_string(), "config/default.toml".to_string()]);
}
