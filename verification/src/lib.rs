//! A schema-migration runner core: migration files are parsed into typed
//! records, validated, ordered deterministically, tracked in a bookkeeping
//! table model, and reversed through explicit rollback plans.
pub mod cli;
pub mod dialects;
pub mod executor;
pub mod model;
pub mod orchestrator;
pub mod sorting;
pub mod text;
pub mod tracker;
