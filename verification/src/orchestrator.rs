//! The operations over loaded migrations: parsing directory entries into
//! an ordered migration set, checking the set's structure, and planning
//! rollbacks.
pub mod health;
pub mod migration_loader;
pub mod rollback;
pub mod validate;
pub mod validator;

pub use health::{HealthCheckResult, HealthStatus};
pub use migration_loader::MigrationLoader;
pub use validator::Validator;
