//! Databricks connection configuration: plain records with defaults.
use super::drivers::DatabricksDriverConfig;
use vstd::prelude::*;
use vstd::string::*;

verus! {

/// Authentication settings: mechanism 3 is a personal access token,
/// mechanism 11 is OAuth with a flow selector.
#[derive(Debug)]
pub struct DatabricksAuthConfig {
    pub auth_mech: u8,
    pub auth_flow: Option<u8>,
    pub uid: Option<String>,
    pub pwd: Option<String>,
    pub auth_access_token: Option<String>,
    pub auth_client_id: Option<String>,
    pub auth_client_secret: Option<String>,
    pub auth_scope: Option<String>,
}

/// ODBC driver logging settings.
#[derive(Debug)]
pub struct DatabricksLoggingConfig {
    pub log_level: Option<u8>,
    pub log_path: Option<String>,
    pub log_file_count: Option<u32>,
    pub log_file_size: Option<u64>,
}

/// ODBC connection parameters for a Databricks warehouse or cluster.
#[derive(Debug)]
pub struct DatabricksOdbcConfig {
    pub driver_path: Option<String>,
    pub host: Option<String>,
    pub port: u16,
    pub http_path: Option<String>,
    pub auth: DatabricksAuthConfig,
    pub ssl: bool,
    pub thrift_transport: u8,
    pub schema: Option<String>,
    pub use_native_query: bool,
    pub logging: DatabricksLoggingConfig,
}

/// The whole Databricks configuration: connection parameters and driver
/// bookkeeping.
#[derive(Debug)]
pub struct DatabricksConfig {
    pub odbc: DatabricksOdbcConfig,
    pub drivers: DatabricksDriverConfig,
}

impl Default for DatabricksAuthConfig {
    /// Personal access token by default, nothing filled in.
    fn default() -> (r: Self)
        ensures
            r.auth_mech == 3,
            r.auth_flow is None,
            r.uid is None,
            r.pwd is None,
            r.auth_access_token is None,
            r.auth_client_id is None,
            r.auth_client_secret is None,
            r.auth_scope is None,
    {
        DatabricksAuthConfig {
            auth_mech: 3,
            auth_flow: None,
            uid: None,
            pwd: None,
            auth_access_token: None,
            auth_client_id: None,
            auth_client_secret: None,
            auth_scope: None,
        }
    }
}

impl Default for DatabricksLoggingConfig {
    /// No driver logging.
    fn default() -> (r: Self)
        ensures
            r.log_level is None,
            r.log_path is None,
            r.log_file_count is None,
            r.log_file_size is None,
    {
        DatabricksLoggingConfig {
            log_level: None,
            log_path: None,
            log_file_count: None,
            log_file_size: None,
        }
    }
}

impl Default for DatabricksOdbcConfig {
    /// HTTPS port, SSL on, HTTP Thrift transport, native queries on.
    fn default() -> (r: Self)
        ensures
            r.driver_path is None,
            r.host is None,
            r.port == 443,
            r.http_path is None,
            r.auth.auth_mech == 3,
            r.ssl == true,
            r.thrift_transport == 2,
            r.schema is None,
            r.use_native_query == true,
            r.logging.log_level is None,
    {
        DatabricksOdbcConfig {
            driver_path: None,
            host: None,
            port: 443,
            http_path: None,
            auth: DatabricksAuthConfig::default(),
            ssl: true,
            thrift_transport: 2,
            schema: None,
            use_native_query: true,
            logging: DatabricksLoggingConfig::default(),
        }
    }
}

impl Default for DatabricksConfig {
    /// Default connection parameters and the built-in driver table.
    fn default() -> (r: Self)
        ensures
            r.odbc.port == 443,
            r.drivers.auto_detect == true,
    {
        DatabricksConfig {
            odbc: DatabricksOdbcConfig::default(),
            drivers: DatabricksDriverConfig::default(),
        }
    }
}

} // verus!
