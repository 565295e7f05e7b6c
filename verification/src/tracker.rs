//! State tracking: the bookkeeping-table model and the SQL that keeps the
//! real table in step with it.
pub mod schema_init;
pub mod version_store;

pub use version_store::{AppliedMigration, VersionStore};
