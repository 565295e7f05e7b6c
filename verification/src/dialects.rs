//! The dialect table: per supported database engine, the bookkeeping
//! table's creation statement, introspection query templates, and a
//! confidence-scored detection routine over the connection string.
pub mod base;
pub mod databricks;
pub mod generic;
pub mod mysql;
pub mod postgres;
pub mod sqlite;

pub use base::{DialectConfig, DialectError};
pub use databricks::{
    DatabricksAuthConfig, DatabricksConfig, DatabricksDriverConfig, DatabricksLoggingConfig,
    DatabricksOdbcConfig, DriverCapabilities, DriverInfo, DriverVendor,
};

use vstd::prelude::*;
use vstd::string::*;
use crate::text::spec_views;

verus! {

/// The names of the built-in dialects.
pub fn list_dialects() -> (r: Vec<String>)
    ensures
        spec_views(r@) == seq!["postgres"@, "mysql"@, "sqlite"@, "databricks"@, "generic"@],
{
    let mut v: Vec<String> = Vec::new();
    v.push(String::from_str("postgres"));
    v.push(String::from_str("mysql"));
    v.push(String::from_str("sqlite"));
    v.push(String::from_str("databricks"));
    v.push(String::from_str("generic"));
    proof {
        assert(spec_views(v@) =~= seq![
            "postgres"@,
            "mysql"@,
            "sqlite"@,
            "databricks"@,
            "generic"@,
        ]);
    }
    v
}

} // verus!
