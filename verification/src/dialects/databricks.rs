//! The Databricks dialect: connection-string building and validation,
//! ODBC driver bookkeeping, and the Delta-table flavor of the bookkeeping
//! table.
pub mod config;
pub mod dialect;
pub mod drivers;

pub use config::{
    DatabricksAuthConfig, DatabricksConfig, DatabricksLoggingConfig, DatabricksOdbcConfig,
};
pub use dialect::DatabricksDialect;
pub use drivers::{DatabricksDriverConfig, DriverCapabilities, DriverInfo, DriverVendor};
