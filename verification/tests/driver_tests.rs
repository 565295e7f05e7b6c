use deriddl_rs::dialects::databricks::dialect::DatabricksDialect;
use deriddl_rs::dialects::{DatabricksDriverConfig, DriverVendor};

#[test]
fn test_default_driver_config() {
    let config = DatabricksDriverConfig::default();

    assert!(config.auto_detect);
    assert!(config.has_driver("databricks"));
    assert!(config.has_driver("simba"));
    assert!(!config.search_paths.is_empty());
}

#[test]
fn test_driver_capabilities() {
    let config = DatabricksDriverConfig::default();
    let databricks_driver = config.get_driver_by_name("databricks").unwrap();

    assert!(databricks_driver.supports_feature("arrow"));
    assert!(databricks_driver.supports_feature("oauth"));
    assert!(!databricks_driver.supports_feature("unknown_feature"));
}

#[test]
fn test_vendor_names() {
    assert_eq!(DriverVendor::Databricks.display_name(), "Databricks");
    assert_eq!(DriverVendor::Simba.display_name(), "Simba Technologies");
    assert_eq!(
        DriverVendor::Custom("Test".to_string()).display_name(),
        "Test"
    );
}

#[test]
fn test_detect_available_drivers_by_path() {
    let mut config = DatabricksDriverConfig::default();
    let existing = vec!["/usr/lib/databricks/odbc/lib/libdatabricksodbcw.so".to_string()];
    let found = config.detect_available_drivers(&existing);
    assert_eq!(found, vec!["databricks".to_string()]);
    assert!(config.get_driver_by_name("databricks").unwrap().available);
    assert!(!config.get_driver_by_name("simba").unwrap().available);
}

#[test]
fn test_detect_available_drivers_by_search_path() {
    let mut config = DatabricksDriverConfig::default();
    // the simba library found under a search path, not at its configured home
    let existing = vec!["/usr/local/lib/lib/libsparkodbc64.so".to_string()];
    let found = config.detect_available_drivers(&existing);
    assert_eq!(found, vec!["simba".to_string()]);
    let simba = config.get_driver_by_name("simba").unwrap();
    assert!(simba.available);
    assert_eq!(simba.path, "/usr/local/lib/lib/libsparkodbc64.so");
}

#[test]
fn test_validate_and_guide_no_drivers() {
    let config = DatabricksDriverConfig::default();
    let guidance = config.validate_and_guide().unwrap_err();
    assert!(guidance.contains("No ODBC drivers found for Databricks"));
    assert!(guidance.contains("Databricks ODBC Driver"));
}

#[test]
fn test_validate_driver_classification() {
    let missing = DatabricksDialect::validate_driver("/tmp/libfoo.so", false);
    assert!(missing.unwrap_err().contains("Driver file not found"));

    let databricks =
        DatabricksDialect::validate_driver("/x/libdatabricksodbcw.so", true).unwrap();
    assert_eq!(databricks.vendor, DriverVendor::Databricks);
    assert!(databricks.available);
    assert_eq!(databricks.name, "Custom Driver (libdatabricksodbcw.so)");

    let simba = DatabricksDialect::validate_driver("/x/libsparkodbc64.so", true).unwrap();
    assert_eq!(simba.vendor, DriverVendor::Simba);

    let custom = DatabricksDialect::validate_driver("/x/libother.so", true).unwrap();
    assert_eq!(custom.vendor, DriverVendor::Custom("Unknown".to_string()));
}

#[test]
fn test_build_connection_string_pat() {
    let mut odbc = deriddl_rs::dialects::DatabricksOdbcConfig::default();
    odbc.driver_path = Some("/opt/driver.so".to_string());
    odbc.host = Some("dbc-1234.cloud.example.com".to_string());
    odbc.http_path = Some("/sql/1.0/warehouses/abcd".to_string());
    odbc.auth.pwd = Some("SECRET-REDACTED".to_string());
    let s = DatabricksDialect::build_connection_string(&odbc).unwrap();
    assert_eq!(
        s,
        "Driver=/opt/driver.so; Host=dbc-1234.cloud.example.com; Port=443; \
         HTTPPath=/sql/1.0/warehouses/abcd; SSL=1; ThriftTransport=2; AuthMech=3; \
         UID=token; PWD=SECRET-REDACTED; UseNativeQuery=1"
    );
}

#[test]
fn test_build_connection_string_missing_parts() {
    let odbc = deriddl_rs::dialects::DatabricksOdbcConfig::default();
    let e = DatabricksDialect::build_connection_string(&odbc).unwrap_err();
    assert_eq!(e, "driver_path is required for Databricks ODBC connection");

    let mut with_driver = deriddl_rs::dialects::DatabricksOdbcConfig::default();
    with_driver.driver_path = Some("/opt/driver.so".to_string());
    let e = DatabricksDialect::build_connection_string(&with_driver).unwrap_err();
    assert_eq!(e, "host is required for Databricks ODBC connection");
}

#[test]
fn test_validate_connection_string_cases() {
    let ok = DatabricksDialect::validate_connection_string(
        "Driver=/opt/d.so; Host=h; HTTPPath=/p; AuthMech=3; PWD=SECRET-REDACTED",
    );
    assert!(ok.is_ok());

    let missing = DatabricksDialect::validate_connection_string("Host=h; HTTPPath=/p");
    assert_eq!(missing.unwrap_err(), "Missing required parameter: driver");

    let no_mech =
        DatabricksDialect::validate_connection_string("Driver=/d; Host=h; HTTPPath=/p");
    assert_eq!(no_mech.unwrap_err(), "AuthMech parameter is required");

    let oauth_no_flow = DatabricksDialect::validate_connection_string(
        "Driver=/d; Host=h; HTTPPath=/p; AuthMech=11",
    );
    assert_eq!(
        oauth_no_flow.unwrap_err(),
        "Auth_Flow is required for OAuth authentication"
    );

    let m2m = DatabricksDialect::validate_connection_string(
        "Driver=/d; Host=h; HTTPPath=/p; AuthMech=11; Auth_Flow=1; \
         Auth_Client_ID=me; Auth_Client_Secret=SECRET-REDACTED",
    );
    assert!(m2m.is_ok());
}
