//! The runner's configuration: defaults, and the merge that lets an
//! environment file override a base file. Reading and writing the files
//! themselves is filesystem work and stays outside the library.
use crate::text::spec_views;
use vstd::prelude::*;
use vstd::string::*;

verus! {

/// Connection settings.
#[derive(Debug)]
pub struct DatabaseConfig {
    pub connection_string: Option<String>,
    pub timeout: u32,
    pub max_retries: u32,
}

/// Where migrations live and how they are read.
#[derive(Debug)]
pub struct MigrationsConfig {
    pub path: String,
    pub dialect: String,
    pub validate_sql: bool,
    pub file_pattern: String,
}

/// Log output settings.
#[derive(Debug)]
pub struct LoggingConfig {
    pub level: String,
    pub colored: bool,
    pub format: String,
}

/// Safety and convenience switches.
#[derive(Debug)]
pub struct BehaviorConfig {
    pub auto_create_migrations_dir: bool,
    pub require_confirmation: bool,
    pub default_dry_run: bool,
}

/// Optional SQL-validation settings.
#[derive(Debug)]
pub struct ValidationConfig {
    pub enable_sqlglot: bool,
    pub strict_validation: bool,
    pub max_file_size_mb: u32,
}

/// The whole configuration.
#[derive(Debug)]
pub struct Config {
    pub database: DatabaseConfig,
    pub migrations: MigrationsConfig,
    pub logging: LoggingConfig,
    pub behavior: BehaviorConfig,
    pub validation: ValidationConfig,
}

/// What configuration handling can report.
#[derive(Debug)]
pub enum ConfigError {
    /// Reading the named file failed; the cause in words.
    FileRead(String, String),
    /// Parsing the named file failed; the cause in words.
    Parse(String, String),
    /// Writing the named file failed; the cause in words.
    FileWrite(String, String),
    /// Turning the configuration into text failed.
    Serialize(String),
}

impl ConfigError {
    /// The human-readable text of this error.
    pub fn message(&self) -> (r: String)
        ensures
            (self matches ConfigError::FileRead(p, c) ==> r@ == "Failed to read config file '"@
                + p@ + "': "@ + c@),
            (self matches ConfigError::Parse(p, c) ==> r@ == "Failed to parse config file '"@ + p@
                + "': "@ + c@),
            (self matches ConfigError::FileWrite(p, c) ==> r@ == "Failed to write config file '"@
                + p@ + "': "@ + c@),
            (self matches ConfigError::Serialize(c) ==> r@ == "Failed to serialize config: "@
                + c@),
    {
        match self {
            ConfigError::FileRead(p, c) => {
                let mut t = String::from_str("Failed to read config file '");
                t.append(p.as_str());
                t.append("': ");
                t.append(c.as_str());
                proof {
                    assert(t@ =~= "Failed to read config file '"@ + p@ + "': "@ + c@);
                }
                t
            },
            ConfigError::Parse(p, c) => {
                let mut t = String::from_str("Failed to parse config file '");
                t.append(p.as_str());
                t.append("': ");
                t.append(c.as_str());
                proof {
                    assert(t@ =~= "Failed to parse config file '"@ + p@ + "': "@ + c@);
                }
                t
            },
            ConfigError::FileWrite(p, c) => {
                let mut t = String::from_str("Failed to write config file '");
                t.append(p.as_str());
                t.append("': ");
                t.append(c.as_str());
                proof {
                    assert(t@ =~= "Failed to write config file '"@ + p@ + "': "@ + c@);
                }
                t
            },
            ConfigError::Serialize(c) => {
                let mut t = String::from_str("Failed to serialize config: ");
                t.append(c.as_str());
                proof {
                    assert(t@ =~= "Failed to serialize config: "@ + c@);
                }
                t
            },
        }
    }
}

impl Default for DatabaseConfig {
    /// No connection string, a thirty-second timeout, three retries.
    fn default() -> (r: Self)
        ensures
            r.connection_string is None,
            r.timeout == 30,
            r.max_retries == 3,
    {
        DatabaseConfig { connection_string: None, timeout: 30, max_retries: 3 }
    }
}

impl Default for MigrationsConfig {
    /// `./migrations`, the postgres dialect, SQL validation on, and the
    /// versioned file pattern.
    fn default() -> (r: Self)
        ensures
            r.path@ == "./migrations"@,
            r.dialect@ == "postgres"@,
            r.validate_sql == true,
            r.file_pattern@ == "^\\d{4}_.*\\.sql$"@,
    {
        MigrationsConfig {
            path: String::from_str("./migrations"),
            dialect: String::from_str("postgres"),
            validate_sql: true,
            file_pattern: String::from_str("^\\d{4}_.*\\.sql$"),
        }
    }
}

impl Default for LoggingConfig {
    /// Info-level, colored, pretty output.
    fn default() -> (r: Self)
        ensures
            r.level@ == "info"@,
            r.colored == true,
            r.format@ == "pretty"@,
    {
        LoggingConfig {
            level: String::from_str("info"),
            colored: true,
            format: String::from_str("pretty"),
        }
    }
}

impl Default for BehaviorConfig {
    /// Confirmation required; nothing created or dry-run by default.
    fn default() -> (r: Self)
        ensures
            r.auto_create_migrations_dir == false,
            r.require_confirmation == true,
            r.default_dry_run == false,
    {
        BehaviorConfig {
            auto_create_migrations_dir: false,
            require_confirmation: true,
            default_dry_run: false,
        }
    }
}

impl Default for ValidationConfig {
    /// Linting on, strictness off, a ten-megabyte file cap.
    fn default() -> (r: Self)
        ensures
            r.enable_sqlglot == true,
            r.strict_validation == false,
            r.max_file_size_mb == 10,
    {
        ValidationConfig { enable_sqlglot: true, strict_validation: false, max_file_size_mb: 10 }
    }
}

impl Default for Config {
    /// Every section at its defaults.
    fn default() -> (r: Self)
        ensures
            r.database.connection_string is None,
            r.database.timeout == 30,
            r.database.max_retries == 3,
            r.migrations.path@ == "./migrations"@,
            r.migrations.dialect@ == "postgres"@,
            r.migrations.validate_sql == true,
            r.migrations.file_pattern@ == "^\\d{4}_.*\\.sql$"@,
            r.logging.level@ == "info"@,
            r.logging.colored == true,
            r.logging.format@ == "pretty"@,
            r.behavior.auto_create_migrations_dir == false,
            r.behavior.require_confirmation == true,
            r.behavior.default_dry_run == false,
            r.validation.enable_sqlglot == true,
            r.validation.strict_validation == false,
            r.validation.max_file_size_mb == 10,
    {
        Config {
            database: DatabaseConfig::default(),
            migrations: MigrationsConfig::default(),
            logging: LoggingConfig::default(),
            behavior: BehaviorConfig::default(),
            validation: ValidationConfig::default(),
        }
    }
}

impl Config {
    /// Merges another configuration over this one: every field of the
    /// other wins, but a missing connection string never erases a present
    /// one.
    pub fn merge(self, other: Self) -> (r: Self)
        ensures
            r.database.connection_string == if other.database.connection_string is Some {
                other.database.connection_string
            } else {
                self.database.connection_string
            },
            r.database.timeout == other.database.timeout,
            r.database.max_retries == other.database.max_retries,
            r.migrations == other.migrations,
            r.logging == other.logging,
            r.behavior == other.behavior,
            r.validation == other.validation,
    {
        let connection_string = match other.database.connection_string {
            Some(s) => Some(s),
            None => self.database.connection_string,
        };
        Config {
            database: DatabaseConfig {
                connection_string,
                timeout: other.database.timeout,
                max_retries: other.database.max_retries,
            },
            migrations: other.migrations,
            logging: other.logging,
            behavior: other.behavior,
            validation: other.validation,
        }
    }

    /// The standard configuration file locations, in precedence order.
    pub fn standard_config_paths() -> (r: Vec<String>)
        ensures
            spec_views(r@) == seq!["config.toml"@, "config/default.toml"@],
    {
        let mut v: Vec<String> = Vec::new();
        v.push(String::from_str("config.toml"));
        v.push(String::from_str("config/default.toml"));
        proof {
            assert(spec_views(v@) =~= seq!["config.toml"@, "config/default.toml"@]);
        }
        v
    }
}

} // verus!
