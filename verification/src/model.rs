//! The migration data model: the typed record for one migration file and
//! the runner's configuration.
pub mod config;
pub mod migration;

pub use config::{Config, ConfigError};
pub use migration::{Migration, MigrationType};
