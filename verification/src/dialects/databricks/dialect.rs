//! The Databricks dialect: the Delta-table flavor of the bookkeeping table,
//! ODBC connection-string building from configuration, and validation of a
//! given connection string.
use super::config::{DatabricksAuthConfig, DatabricksConfig, DatabricksOdbcConfig};
use super::drivers::{
    spec_found_keys, DatabricksDriverConfig, DriverCapabilities, DriverInfo, DriverVendor,
};
use crate::text::{
    contains_sub, find_char, lemma_find_char_bounds, spec_dec, spec_find_char, spec_find_sub,
    spec_lower, spec_split, spec_trim, spec_views, split_char, str_eq_ci, trim_string,
    u32_to_string, u64_to_string,
};
use vstd::prelude::*;
use vstd::string::*;

verus! {

/// The Databricks dialect. Detection is configuration-based, never
/// pattern-based, so its probe yields nothing.
pub struct DatabricksDialect {
}

// ---- connection-string building ----
/// The fixed head of every Databricks connection string.
pub open spec fn spec_conn_base(c: DatabricksOdbcConfig, driver_path: Seq<char>) -> Seq<char> {
    "Driver="@ + driver_path + "; Host="@ + (match c.host {
        Some(h) => h@,
        None => Seq::empty(),
    }) + "; Port="@ + spec_dec(c.port as nat) + "; HTTPPath="@ + (match c.http_path {
        Some(h) => h@,
        None => Seq::empty(),
    }) + "; SSL="@ + (if c.ssl {
        "1"@
    } else {
        "0"@
    }) + "; ThriftTransport="@ + spec_dec(c.thrift_transport as nat) + "; AuthMech="@ + spec_dec(
        c.auth.auth_mech as nat,
    )
}

/// The authentication segment, or the error that the settings are
/// incomplete: mechanism 3 needs a token, mechanism 11 a flow with its
/// flow-specific credentials.
pub open spec fn spec_auth_segment(a: DatabricksAuthConfig) -> Result<Seq<char>, Seq<char>> {
    if a.auth_mech == 3 {
        let uid_part = "; UID="@ + (match a.uid {
            Some(u) => u@,
            None => "token"@,
        });
        match a.pwd {
            Some(p) => Ok(uid_part + "; PWD="@ + p@),
            None => Err("pwd (Personal Access Token) is required for AuthMech=3"@),
        }
    } else if a.auth_mech == 11 {
        match a.auth_flow {
            None => Err("auth_flow is required for OAuth authentication (AuthMech=11)"@),
            Some(flow) => {
                let flow_part = "; Auth_Flow="@ + spec_dec(flow as nat);
                if flow == 0 {
                    match a.auth_access_token {
                        Some(t) => Ok(flow_part + "; Auth_AccessToken="@ + t@),
                        None => Err(
                            "auth_access_token is required for OAuth token pass-through (Auth_Flow=0)"@,
                        ),
                    }
                } else if flow == 1 {
                    match a.auth_client_id {
                        None => Err("auth_client_id is required for OAuth M2M (Auth_Flow=1)"@),
                        Some(id) => match a.auth_client_secret {
                            None => Err(
                                "auth_client_secret is required for OAuth M2M (Auth_Flow=1)"@,
                            ),
                            Some(sec) => Ok(
                                flow_part + "; Auth_Client_ID="@ + id@ + "; Auth_Client_Secret="@
                                    + sec@ + "; Auth_Scope="@ + (match a.auth_scope {
                                    Some(s) => s@,
                                    None => "all-apis"@,
                                }),
                            ),
                        },
                    }
                } else if flow == 2 {
                    match a.pwd {
                        Some(p) => Ok(flow_part + "; PWD="@ + p@),
                        None => Err(
                            "pwd (password for refresh token encryption) is required for OAuth U2M (Auth_Flow=2)"@,
                        ),
                    }
                } else {
                    Err(
                        "Unsupported OAuth flow: "@ + spec_dec(flow as nat)
                            + ". Supported flows: 0 (token pass-through), 1 (M2M), 2 (U2M)"@,
                    )
                }
            },
        }
    } else {
        Err(
            "Unsupported authentication mechanism: "@ + spec_dec(a.auth_mech as nat)
                + ". Supported: 3 (PAT), 11 (OAuth)"@,
        )
    }
}

/// The optional trailing parameters, in their fixed order.
pub open spec fn spec_conn_tail(c: DatabricksOdbcConfig) -> Seq<char> {
    (match c.schema {
        Some(s) => "; Schema="@ + s@,
        None => Seq::empty(),
    }) + (if c.use_native_query {
        "; UseNativeQuery=1"@
    } else {
        Seq::empty()
    }) + (match c.logging.log_level {
        Some(l) => "; LogLevel="@ + spec_dec(l as nat),
        None => Seq::empty(),
    }) + (match c.logging.log_path {
        Some(p) => "; LogPath="@ + p@,
        None => Seq::empty(),
    }) + (match c.logging.log_file_count {
        Some(n) => "; LogFileCount="@ + spec_dec(n as nat),
        None => Seq::empty(),
    }) + (match c.logging.log_file_size {
        Some(n) => "; LogFileSize="@ + spec_dec(n as nat),
        None => Seq::empty(),
    })
}

/// The whole connection string for a given driver path, or the first
/// missing-parameter error.
pub open spec fn spec_build_conn_with(c: DatabricksOdbcConfig, driver_path: Seq<char>) -> Result<
    Seq<char>,
    Seq<char>,
> {
    if c.host is None {
        Err("host is required for Databricks ODBC connection"@)
    } else if c.http_path is None {
        Err("http_path is required for Databricks ODBC connection"@)
    } else {
        match spec_auth_segment(c.auth) {
            Err(e) => Err(e),
            Ok(auth) => Ok(spec_conn_base(c, driver_path) + auth + spec_conn_tail(c)),
        }
    }
}

/// The whole connection string from the configuration alone.
pub open spec fn spec_build_conn(c: DatabricksOdbcConfig) -> Result<Seq<char>, Seq<char>> {
    match c.driver_path {
        None => Err("driver_path is required for Databricks ODBC connection"@),
        Some(p) => spec_build_conn_with(c, p@),
    }
}

// ---- connection-string validation ----
/// The key/value pairs of a connection string: segments between
/// semicolons, split at their first equals sign, the key and the value
/// trimmed; the value ends at the next equals sign if one follows.
/// Segments without an equals sign carry no pair.
pub open spec fn spec_params_of(segs: Seq<Seq<char>>) -> Seq<(Seq<char>, Seq<char>)>
    decreases segs.len(),
{
    if segs.len() == 0 {
        Seq::empty()
    } else {
        let seg = segs.first();
        (match spec_find_char(seg, '=', 0) {
            None => Seq::<(Seq<char>, Seq<char>)>::empty(),
            Some(i) => {
                let value_end = match spec_find_char(seg, '=', i + 1) {
                    Some(j) => j,
                    None => seg.len() as int,
                };
                seq![
                    (spec_trim(seg.subrange(0, i)), spec_trim(seg.subrange(i + 1, value_end))),
                ]
            },
        }) + spec_params_of(segs.drop_first())
    }
}

/// Whether some pair's key reads as `key`, ignoring ASCII case.
pub open spec fn spec_has_param(params: Seq<(Seq<char>, Seq<char>)>, key: Seq<char>) -> bool {
    exists|i: int|
        0 <= i < params.len() && spec_lower((#[trigger] params[i]).0) == spec_lower(key)
}

/// The value of the last pair whose key reads as `key`, if any (a later
/// occurrence overrides an earlier one).
pub open spec fn spec_last_param(params: Seq<(Seq<char>, Seq<char>)>, key: Seq<char>) -> Option<
    Seq<char>,
>
    decreases params.len(),
{
    if params.len() == 0 {
        None
    } else if spec_lower(params.last().0) == spec_lower(key) {
        Some(params.last().1)
    } else {
        spec_last_param(params.drop_last(), key)
    }
}

/// What validation answers for a connection string: the required
/// parameters must be present, and the authentication parameters complete
/// for the chosen mechanism.
pub open spec fn spec_validate_conn(conn: Seq<char>) -> Result<(), Seq<char>> {
    let ps = spec_params_of(spec_split(conn, ';'));
    if !spec_has_param(ps, "driver"@) {
        Err("Missing required parameter: driver"@)
    } else if !spec_has_param(ps, "host"@) {
        Err("Missing required parameter: host"@)
    } else if !spec_has_param(ps, "httppath"@) {
        Err("Missing required parameter: httppath"@)
    } else {
        match spec_last_param(ps, "authmech"@) {
            None => Err("AuthMech parameter is required"@),
            Some(mech) => if mech == "3"@ {
                if spec_has_param(ps, "pwd"@) {
                    Ok(())
                } else {
                    Err("PWD (Personal Access Token) is required for AuthMech=3"@)
                }
            } else if mech == "11"@ {
                match spec_last_param(ps, "auth_flow"@) {
                    None => Err("Auth_Flow is required for OAuth authentication"@),
                    Some(flow) => if flow == "0"@ {
                        if spec_has_param(ps, "auth_accesstoken"@) {
                            Ok(())
                        } else {
                            Err("Auth_AccessToken is required for OAuth token pass-through"@)
                        }
                    } else if flow == "1"@ {
                        if spec_has_param(ps, "auth_client_id"@) && spec_has_param(
                            ps,
                            "auth_client_secret"@,
                        ) {
                            Ok(())
                        } else {
                            Err("Auth_Client_ID and Auth_Client_Secret are required for OAuth M2M"@)
                        }
                    } else if flow == "2"@ {
                        if spec_has_param(ps, "pwd"@) {
                            Ok(())
                        } else {
                            Err("PWD is required for OAuth U2M"@)
                        }
                    } else {
                        Err("Invalid Auth_Flow: "@ + flow)
                    },
                }
            } else {
                Err("Unsupported AuthMech: "@ + mech)
            },
        }
    }
}

/// Splits one `key=value` segment as the parameter grammar reads it.
fn segment_pair(seg: &str) -> (r: Option<(String, String)>)
    ensures
        match r {
            Some(p) => spec_find_char(seg@, '=', 0) matches Some(i) && p.0@ == spec_trim(
                seg@.subrange(0, i),
            ) && p.1@ == spec_trim(
                seg@.subrange(
                    i + 1,
                    match spec_find_char(seg@, '=', i + 1) {
                        Some(j) => j,
                        None => seg@.len() as int,
                    },
                ),
            ),
            None => spec_find_char(seg@, '=', 0) is None,
        },
{
    let n = seg.unicode_len();
    match find_char(seg, '=', 0) {
        None => None,
        Some(i) => {
            proof {
                lemma_find_char_bounds(seg@, '=', 0);
            }
            let key = trim_string(seg.substring_char(0, i));
            let value_end = match find_char(seg, '=', i + 1) {
                Some(j) => {
                    proof {
                        lemma_find_char_bounds(seg@, '=', i + 1);
                    }
                    j
                },
                None => n,
            };
            let value = trim_string(seg.substring_char(i + 1, value_end));
            Some((key, value))
        },
    }
}

#[verifier::loop_isolation(false)]
fn has_param(params: &Vec<(String, String)>, key: &str) -> (r: bool)
    ensures
        r == spec_has_param(spec_pair_views(params@), key@),
{
    let mut i: usize = 0;
    while i < params.len()
        invariant
            0 <= i <= params.len(),
            forall|k: int|
                0 <= k < i ==> spec_lower((#[trigger] spec_pair_views(params@)[k]).0)
                    != spec_lower(key@),
        decreases params.len() - i,
    {
        if str_eq_ci(params[i].0.as_str(), key) {
            assert(spec_lower(spec_pair_views(params@)[i as int].0) == spec_lower(key@));
            return true;
        }
        i = i + 1;
    }
    false
}

/// The views of key/value pairs.
pub open spec fn spec_pair_views(v: Seq<(String, String)>) -> Seq<(Seq<char>, Seq<char>)> {
    v.map_values(|p: (String, String)| (p.0@, p.1@))
}

#[verifier::loop_isolation(false)]
fn last_param<'a>(params: &'a Vec<(String, String)>, key: &str) -> (r: Option<&'a String>)
    ensures
        match r {
            Some(v) => spec_last_param(spec_pair_views(params@), key@) == Some(v@),
            None => spec_last_param(spec_pair_views(params@), key@) is None,
        },
{
    let mut found: Option<&'a String> = None;
    let mut i: usize = 0;
    proof {
        assert(spec_pair_views(params@).take(0) =~= Seq::<(Seq<char>, Seq<char>)>::empty());
    }
    while i < params.len()
        invariant
            0 <= i <= params.len(),
            match found {
                Some(v) => spec_last_param(spec_pair_views(params@).take(i as int), key@) == Some(
                    v@,
                ),
                None => spec_last_param(spec_pair_views(params@).take(i as int), key@) is None,
            },
        decreases params.len() - i,
    {
        proof {
            let ps = spec_pair_views(params@);
            assert(ps.take(i + 1).drop_last() =~= ps.take(i as int));
            assert(ps.take(i + 1).last() == ps[i as int]);
        }
        if str_eq_ci(params[i].0.as_str(), key) {
            found = Some(&params[i].1);
        }
        i = i + 1;
    }
    proof {
        assert(spec_pair_views(params@).take(params@.len() as int) =~= spec_pair_views(params@));
    }
    found
}

fn conn_base(config: &DatabricksOdbcConfig, driver_path: &str, host: &str, http_path: &str) -> (r:
    String)
    requires
        crate::text::opt_str_view(config.host) == Some(host@),
        crate::text::opt_str_view(config.http_path) == Some(http_path@),
    ensures
        r@ == spec_conn_base(*config, driver_path@),
{
    let mut s = String::from_str("Driver=");
    s.append(driver_path);
    s.append("; Host=");
    s.append(host);
    s.append("; Port=");
    s.append(u32_to_string(config.port as u32).as_str());
    s.append("; HTTPPath=");
    s.append(http_path);
    s.append("; SSL=");
    s.append(if config.ssl {
        "1"
    } else {
        "0"
    });
    s.append("; ThriftTransport=");
    s.append(u32_to_string(config.thrift_transport as u32).as_str());
    s.append("; AuthMech=");
    s.append(u32_to_string(config.auth.auth_mech as u32).as_str());
    proof {
        assert(s@ =~= spec_conn_base(*config, driver_path@));
    }
    s
}

#[verifier::rlimit(30)]
fn auth_segment(auth: &DatabricksAuthConfig) -> (r: Result<String, String>)
    ensures
        match r {
            Ok(s) => spec_auth_segment(*auth) == Ok::<Seq<char>, Seq<char>>(s@),
            Err(e) => spec_auth_segment(*auth) == Err::<Seq<char>, Seq<char>>(e@),
        },
{
    let mut s = String::new();
    if auth.auth_mech == 3 {
        s.append("; UID=");
        match &auth.uid {
            Some(uid) => s.append(uid.as_str()),
            None => s.append("token"),
        }
        match &auth.pwd {
            Some(pwd) => {
                s.append("; PWD=");
                s.append(pwd.as_str());
            },
            None => {
                return Err(
                    String::from_str("pwd (Personal Access Token) is required for AuthMech=3"),
                );
            },
        }
        proof {
            assert(s@ =~= spec_auth_segment(*auth)->Ok_0);
        }
        Ok(s)
    } else if auth.auth_mech == 11 {
        let flow = match auth.auth_flow {
            Some(flow) => flow,
            None => {
                return Err(
                    String::from_str("auth_flow is required for OAuth authentication (AuthMech=11)"),
                );
            },
        };
        s.append("; Auth_Flow=");
        s.append(u32_to_string(flow as u32).as_str());
        if flow == 0 {
            match &auth.auth_access_token {
                Some(token) => {
                    s.append("; Auth_AccessToken=");
                    s.append(token.as_str());
                },
                None => {
                    return Err(
                        String::from_str(
                            "auth_access_token is required for OAuth token pass-through (Auth_Flow=0)",
                        ),
                    );
                },
            }
        } else if flow == 1 {
            let client_id = match &auth.auth_client_id {
                Some(id) => id,
                None => {
                    return Err(
                        String::from_str("auth_client_id is required for OAuth M2M (Auth_Flow=1)"),
                    );
                },
            };
            let client_secret = match &auth.auth_client_secret {
                Some(sec) => sec,
                None => {
                    return Err(
                        String::from_str(
                            "auth_client_secret is required for OAuth M2M (Auth_Flow=1)",
                        ),
                    );
                },
            };
            s.append("; Auth_Client_ID=");
            s.append(client_id.as_str());
            s.append("; Auth_Client_Secret=");
            s.append(client_secret.as_str());
            s.append("; Auth_Scope=");
            match &auth.auth_scope {
                Some(scope) => s.append(scope.as_str()),
                None => s.append("all-apis"),
            }
        } else if flow == 2 {
            match &auth.pwd {
                Some(pwd) => {
                    s.append("; PWD=");
                    s.append(pwd.as_str());
                },
                None => {
                    return Err(
                        String::from_str(
                            "pwd (password for refresh token encryption) is required for OAuth U2M (Auth_Flow=2)",
                        ),
                    );
                },
            }
        } else {
            let mut e = String::from_str("Unsupported OAuth flow: ");
            e.append(u32_to_string(flow as u32).as_str());
            e.append(". Supported flows: 0 (token pass-through), 1 (M2M), 2 (U2M)");
            proof {
                assert(e@ =~= spec_auth_segment(*auth)->Err_0);
            }
            return Err(e);
        }
        proof {
            assert(s@ =~= spec_auth_segment(*auth)->Ok_0);
        }
        Ok(s)
    } else {
        let mut e = String::from_str("Unsupported authentication mechanism: ");
        e.append(u32_to_string(auth.auth_mech as u32).as_str());
        e.append(". Supported: 3 (PAT), 11 (OAuth)");
        proof {
            assert(e@ =~= spec_auth_segment(*auth)->Err_0);
        }
        Err(e)
    }
}

#[verifier::rlimit(100)]
fn conn_tail(config: &DatabricksOdbcConfig) -> (r: String)
    ensures
        r@ == spec_conn_tail(*config),
{
    let mut s = String::new();
    match &config.schema {
        Some(schema) => {
            s.append("; Schema=");
            s.append(schema.as_str());
        },
        None => {},
    }
    if config.use_native_query {
        s.append("; UseNativeQuery=1");
    }
    match config.logging.log_level {
        Some(level) => {
            s.append("; LogLevel=");
            s.append(u32_to_string(level as u32).as_str());
        },
        None => {},
    }
    match &config.logging.log_path {
        Some(path) => {
            s.append("; LogPath=");
            s.append(path.as_str());
        },
        None => {},
    }
    match config.logging.log_file_count {
        Some(count) => {
            s.append("; LogFileCount=");
            s.append(u32_to_string(count).as_str());
        },
        None => {},
    }
    match config.logging.log_file_size {
        Some(size) => {
            s.append("; LogFileSize=");
            s.append(u64_to_string(size).as_str());
        },
        None => {},
    }
    proof {
        assert(s@ =~= spec_conn_tail(*config));
    }
    s
}

impl DatabricksDialect {
    /// Builds the dialect.
    pub fn new() -> (r: Self) {
        DatabricksDialect {  }
    }

    /// Detection is configuration-based for this engine; the probe never
    /// matches.
    pub fn detect(&self, connection_string: &str) -> (r: Option<
        crate::dialects::base::DetectionResult,
    >)
        ensures
            r is None,
    {
        None
    }

    /// The bookkeeping table as a Delta table.
    pub fn create_migrations_table_sql(&self) -> (r: String)
        ensures
            r@ == "CREATE TABLE IF NOT EXISTS schema_migrations (migration_id STRING NOT NULL, migration_type STRING NOT NULL, version INT, filename STRING NOT NULL, checksum STRING NOT NULL, applied_at TIMESTAMP NOT NULL, execution_time_ms INT NOT NULL, success BOOLEAN NOT NULL) USING DELTA"@,
    {
        String::from_str(
            "CREATE TABLE IF NOT EXISTS schema_migrations (migration_id STRING NOT NULL, migration_type STRING NOT NULL, version INT, filename STRING NOT NULL, checksum STRING NOT NULL, applied_at TIMESTAMP NOT NULL, execution_time_ms INT NOT NULL, success BOOLEAN NOT NULL) USING DELTA",
        )
    }

    /// Introspection query templates.
    pub fn schema_introspection_queries(&self) -> (r: Vec<String>)
        ensures
            spec_views(r@) == seq![
                "SHOW TABLES"@,
                "SHOW DATABASES"@,
                "SHOW TABLE EXTENDED LIKE '*'"@,
            ],
    {
        let mut v: Vec<String> = Vec::new();
        v.push(String::from_str("SHOW TABLES"));
        v.push(String::from_str("SHOW DATABASES"));
        v.push(String::from_str("SHOW TABLE EXTENDED LIKE '*'"));
        proof {
            assert(spec_views(v@) =~= seq![
                "SHOW TABLES"@,
                "SHOW DATABASES"@,
                "SHOW TABLE EXTENDED LIKE '*'"@,
            ]);
        }
        v
    }

    /// Lists user tables, the bookkeeping table excluded.
    pub fn list_tables_sql(&self) -> (r: String)
        ensures
            r@ == "SHOW TABLES LIKE '*' WHERE NOT isTemporary AND tableName != 'schema_migrations'"@,
    {
        String::from_str(
            "SHOW TABLES LIKE '*' WHERE NOT isTemporary AND tableName != 'schema_migrations'",
        )
    }

    /// Builds the ODBC connection string from configuration parameters, or
    /// names the first missing or unsupported parameter.
    pub fn build_connection_string(config: &DatabricksOdbcConfig) -> (r: Result<String, String>)
        ensures
            match r {
                Ok(s) => spec_build_conn(*config) == Ok::<Seq<char>, Seq<char>>(s@),
                Err(e) => spec_build_conn(*config) == Err::<Seq<char>, Seq<char>>(e@),
            },
    {
        let driver_path = match &config.driver_path {
            Some(p) => p,
            None => {
                return Err(
                    String::from_str("driver_path is required for Databricks ODBC connection"),
                );
            },
        };
        let host = match &config.host {
            Some(h) => h,
            None => {
                return Err(String::from_str("host is required for Databricks ODBC connection"));
            },
        };
        let http_path = match &config.http_path {
            Some(h) => h,
            None => {
                return Err(
                    String::from_str("http_path is required for Databricks ODBC connection"),
                );
            },
        };
        let mut s = conn_base(config, driver_path.as_str(), host.as_str(), http_path.as_str());
        match auth_segment(&config.auth) {
            Ok(auth) => s.append(auth.as_str()),
            Err(e) => {
                return Err(e);
            },
        }
        let tail = conn_tail(config);
        s.append(tail.as_str());
        Ok(s)
    }

    /// Parses a connection string into its parameters and checks that the
    /// required ones and a complete authentication set are present.
    #[verifier::loop_isolation(false)]
    pub fn validate_connection_string(connection_string: &str) -> (r: Result<(), String>)
        ensures
            match r {
                Ok(_) => spec_validate_conn(connection_string@) is Ok,
                Err(e) => spec_validate_conn(connection_string@) == Err::<(), Seq<char>>(e@),
            },
    {
        let segments = split_char(connection_string, ';');
        let ghost segs = spec_views(segments@);
        let mut params: Vec<(String, String)> = Vec::new();
        let mut i: usize = 0;
        proof {
            assert(segs.skip(0) =~= segs);
            assert(spec_pair_views(params@) + spec_params_of(segs) =~= spec_params_of(segs));
        }
        while i < segments.len()
            invariant
                0 <= i <= segments.len(),
                segs == spec_views(segments@),
                spec_pair_views(params@) + spec_params_of(segs.skip(i as int)) == spec_params_of(
                    segs,
                ),
            decreases segments.len() - i,
        {
            proof {
                assert(segs.skip(i as int).first() == segs[i as int]);
                assert(segs.skip(i as int).drop_first() =~= segs.skip(i + 1));
            }
            match segment_pair(segments[i].as_str()) {
                Some(pair) => {
                    params.push(pair);
                    proof {
                        assert(spec_pair_views(params@) =~= spec_pair_views(params@.drop_last())
                            + spec_params_of(segs.skip(i as int)).take(1));
                        assert(spec_pair_views(params@) + spec_params_of(segs.skip(i + 1))
                            =~= spec_pair_views(params@.drop_last()) + spec_params_of(
                            segs.skip(i as int),
                        ));
                    }
                },
                None => {
                    proof {
                        assert(spec_params_of(segs.skip(i as int)) =~= spec_params_of(
                            segs.skip(i + 1),
                        ));
                    }
                },
            }
            i = i + 1;
        }
        proof {
            assert(segs.skip(segs.len() as int) =~= Seq::<Seq<char>>::empty());
            assert(spec_pair_views(params@) + spec_params_of(segs.skip(segs.len() as int))
                =~= spec_pair_views(params@));
            assert(spec_pair_views(params@) == spec_params_of(spec_split(connection_string@, ';')));
        }
        if !has_param(&params, "driver") {
            return Err(String::from_str("Missing required parameter: driver"));
        }
        if !has_param(&params, "host") {
            return Err(String::from_str("Missing required parameter: host"));
        }
        if !has_param(&params, "httppath") {
            return Err(String::from_str("Missing required parameter: httppath"));
        }
        let mech = match last_param(&params, "authmech") {
            Some(mech) => mech,
            None => {
                return Err(String::from_str("AuthMech parameter is required"));
            },
        };
        if crate::text::str_eq(mech.as_str(), "3") {
            proof {
                reveal_strlit("3");
            }
            if has_param(&params, "pwd") {
                Ok(())
            } else {
                Err(String::from_str("PWD (Personal Access Token) is required for AuthMech=3"))
            }
        } else if crate::text::str_eq(mech.as_str(), "11") {
            proof {
                reveal_strlit("3");
                reveal_strlit("11");
            }
            let flow = match last_param(&params, "auth_flow") {
                Some(flow) => flow,
                None => {
                    return Err(String::from_str("Auth_Flow is required for OAuth authentication"));
                },
            };
            if crate::text::str_eq(flow.as_str(), "0") {
                proof {
                    reveal_strlit("0");
                }
                if has_param(&params, "auth_accesstoken") {
                    Ok(())
                } else {
                    Err(
                        String::from_str(
                            "Auth_AccessToken is required for OAuth token pass-through",
                        ),
                    )
                }
            } else if crate::text::str_eq(flow.as_str(), "1") {
                proof {
                    reveal_strlit("0");
                    reveal_strlit("1");
                }
                if has_param(&params, "auth_client_id") && has_param(
                    &params,
                    "auth_client_secret",
                ) {
                    Ok(())
                } else {
                    Err(
                        String::from_str(
                            "Auth_Client_ID and Auth_Client_Secret are required for OAuth M2M",
                        ),
                    )
                }
            } else if crate::text::str_eq(flow.as_str(), "2") {
                proof {
                    reveal_strlit("0");
                    reveal_strlit("1");
                    reveal_strlit("2");
                }
                if has_param(&params, "pwd") {
                    Ok(())
                } else {
                    Err(String::from_str("PWD is required for OAuth U2M"))
                }
            } else {
                proof {
                    reveal_strlit("0");
                    reveal_strlit("1");
                    reveal_strlit("2");
                }
                let mut e = String::from_str("Invalid Auth_Flow: ");
                e.append(flow.as_str());
                proof {
                    assert(e@ =~= "Invalid Auth_Flow: "@ + flow@);
                }
                Err(e)
            }
        } else {
            proof {
                reveal_strlit("3");
                reveal_strlit("11");
            }
            let mut e = String::from_str("Unsupported AuthMech: ");
            e.append(mech.as_str());
            proof {
                assert(e@ =~= "Unsupported AuthMech: "@ + mech@);
            }
            Err(e)
        }
    }

    /// Detects the available drivers, given the candidate paths that exist
    /// on this machine, and hands back the resulting driver table.
    pub fn detect_drivers(existing_files: &Vec<String>) -> (r: DatabricksDriverConfig)
        ensures
            r.drivers@.len() == 4,
            r.auto_detect == true,
    {
        let mut config = DatabricksDriverConfig::default();
        let _found = config.detect_available_drivers(existing_files);
        config
    }

    /// The keys of the available drivers, or installation guidance where
    /// none of the known drivers was found.
    pub fn check_driver_availability(existing_files: &Vec<String>) -> (r: Result<
        Vec<String>,
        String,
    >)
        ensures
            r matches Ok(keys) ==> keys@.len() > 0,
    {
        let mut config = DatabricksDriverConfig::default();
        let available = config.detect_available_drivers(existing_files);
        if available.len() == 0 {
            match config.validate_and_guide() {
                Err(guidance) => Err(guidance),
                Ok(_) => Err(String::from_str("No suitable driver found")),
            }
        } else {
            Ok(available)
        }
    }

    /// The available drivers with their keys, given the candidate paths
    /// that exist on this machine.
    pub fn get_driver_info(existing_files: &Vec<String>) -> (r: Vec<(String, DriverInfo)>)
        ensures
            forall|k: int| 0 <= k < r@.len() ==> (#[trigger] r@[k]).1.available,
    {
        let mut config = DatabricksDriverConfig::default();
        let _found = config.detect_available_drivers(existing_files);
        let listed = config.list_available_drivers();
        proof {
            crate::sorting::lemma_filter_properties(
                config.drivers@,
                super::drivers::available_fn(),
            );
        }
        listed
    }

    /// Classifies a driver library by its path: the vendor is read from the
    /// file name, and conservative capabilities are assumed. The caller
    /// says whether the file exists; a missing file is an error naming the
    /// path.
    pub fn validate_driver(driver_path: &str, file_exists: bool) -> (r: Result<DriverInfo, String>)
        ensures
            !file_exists ==> (r matches Err(e) && e@ == "Driver file not found: "@
                + driver_path@),
            file_exists ==> (r matches Ok(info) && {
                let filename = super::drivers::spec_basename(driver_path@);
                &&& info.path@ == driver_path@
                &&& info.available == true
                &&& info.name@ == "Custom Driver ("@ + filename + ")"@
                &&& (spec_find_sub(filename, "databricks"@, 0) is Some ==> info.vendor
                    is Databricks)
                &&& (spec_find_sub(filename, "databricks"@, 0) is None && (spec_find_sub(
                    filename,
                    "simba"@,
                    0,
                ) is Some || spec_find_sub(filename, "spark"@, 0) is Some) ==> info.vendor
                    is Simba)
                &&& (spec_find_sub(filename, "databricks"@, 0) is None && spec_find_sub(
                    filename,
                    "simba"@,
                    0,
                ) is None && spec_find_sub(filename, "spark"@, 0) is None ==> (info.vendor
                    matches DriverVendor::Custom(name) && name@ == "Unknown"@))
                &&& info.capabilities.supports_arrow == false
                &&& info.capabilities.supports_cloud_fetch == false
                &&& info.capabilities.supports_oauth == true
                &&& info.capabilities.supports_pat == true
            }),
    {
        if !file_exists {
            let mut e = String::from_str("Driver file not found: ");
            e.append(driver_path);
            proof {
                assert(e@ =~= "Driver file not found: "@ + driver_path@);
            }
            return Err(e);
        }
        let filename = super::drivers::basename(driver_path);
        let vendor = if contains_sub(filename.as_str(), "databricks") {
            DriverVendor::Databricks
        } else if contains_sub(filename.as_str(), "simba") || contains_sub(
            filename.as_str(),
            "spark",
        ) {
            DriverVendor::Simba
        } else {
            DriverVendor::Custom(String::from_str("Unknown"))
        };
        let mut name = String::from_str("Custom Driver (");
        name.append(filename.as_str());
        name.append(")");
        proof {
            assert(name@ =~= "Custom Driver ("@ + super::drivers::spec_basename(driver_path@)
                + ")"@);
        }
        Ok(
            DriverInfo {
                name,
                path: driver_path.to_owned(),
                version: None,
                vendor,
                capabilities: DriverCapabilities {
                    supports_arrow: false,
                    supports_cloud_fetch: false,
                    supports_oauth: true,
                    supports_pat: true,
                    min_version: None,
                    max_version: None,
                },
                installation_info: None,
                available: true,
            },
        )
    }

    /// Builds the connection string after detecting a driver: the best
    /// available driver's path takes the place of the configured one. An
    /// error carries installation guidance or names the missing parameter.
    pub fn build_connection_string_with_drivers(
        config: &DatabricksConfig,
        existing_files: &Vec<String>,
    ) -> (r: Result<String, String>)
        ensures
            spec_found_keys(
                config.drivers.drivers@,
                config.drivers.search_paths@,
                existing_files@,
                config.drivers.auto_detect,
            ).len() == 0 ==> r is Err,
            r matches Ok(s) ==> exists|p: Seq<char>|
                #[trigger] spec_build_conn_with(config.odbc, p) == Ok::<Seq<char>, Seq<char>>(s@),
    {
        let mut driver_config = clone_driver_config(&config.drivers);
        let available = driver_config.detect_available_drivers(existing_files);
        if available.len() == 0 {
            match driver_config.validate_and_guide() {
                Err(guidance) => {
                    return Err(guidance);
                },
                Ok(_) => {
                    return Err(String::from_str("No suitable driver found"));
                },
            }
        }
        let driver_path: String = match driver_config.get_driver() {
            Some(driver) => driver.path.clone(),
            None => {
                return Err(String::from_str("No suitable driver found"));
            },
        };
        let odbc = clone_odbc_with_driver(&config.odbc, driver_path);
        let result = Self::build_connection_string(&odbc);
        match result {
            Ok(s) => {
                proof {
                    assert(spec_build_conn_with(config.odbc, odbc.driver_path->Some_0@)
                        == Ok::<Seq<char>, Seq<char>>(s@)) by {
                        lemma_build_conn_same_fields(odbc, config.odbc);
                    }
                }
                Ok(s)
            },
            Err(e) => Err(e),
        }
    }
}

/// Building depends only on the fields beside the driver path, which is
/// passed separately.
proof fn lemma_build_conn_same_fields(a: DatabricksOdbcConfig, b: DatabricksOdbcConfig)
    requires
        a.host == b.host,
        a.port == b.port,
        a.http_path == b.http_path,
        a.auth == b.auth,
        a.ssl == b.ssl,
        a.thrift_transport == b.thrift_transport,
        a.schema == b.schema,
        a.use_native_query == b.use_native_query,
        a.logging == b.logging,
    ensures
        forall|p: Seq<char>| #[trigger] spec_build_conn_with(a, p) == spec_build_conn_with(b, p),
{
    assert forall|p: Seq<char>| #[trigger] spec_build_conn_with(a, p) == spec_build_conn_with(
        b,
        p,
    ) by {
        assert(spec_conn_base(a, p) == spec_conn_base(b, p));
        assert(spec_conn_tail(a) == spec_conn_tail(b));
    }
}

fn clone_driver_config(c: &DatabricksDriverConfig) -> (r: DatabricksDriverConfig)
    ensures
        r.drivers@ == c.drivers@,
        r.preferred_driver == c.preferred_driver,
        r.auto_detect == c.auto_detect,
        r.search_paths@ == c.search_paths@,
{
    let mut drivers: Vec<(String, DriverInfo)> = Vec::new();
    let mut i: usize = 0;
    while i < c.drivers.len()
        invariant
            0 <= i <= c.drivers@.len(),
            drivers@ == c.drivers@.take(i as int),
        decreases c.drivers@.len() - i,
    {
        let key = c.drivers[i].0.clone();
        let info = c.drivers[i].1.clone();
        drivers.push((key, info));
        proof {
            assert(drivers@ =~= c.drivers@.take(i + 1));
        }
        i = i + 1;
    }
    proof {
        assert(c.drivers@.take(c.drivers@.len() as int) =~= c.drivers@);
    }
    let mut search_paths: Vec<String> = Vec::new();
    let mut i: usize = 0;
    while i < c.search_paths.len()
        invariant
            0 <= i <= c.search_paths@.len(),
            search_paths@ == c.search_paths@.take(i as int),
        decreases c.search_paths@.len() - i,
    {
        search_paths.push(c.search_paths[i].clone());
        proof {
            assert(search_paths@ =~= c.search_paths@.take(i + 1));
        }
        i = i + 1;
    }
    proof {
        assert(c.search_paths@.take(c.search_paths@.len() as int) =~= c.search_paths@);
    }
    DatabricksDriverConfig {
        drivers,
        preferred_driver: match &c.preferred_driver {
            Some(s) => Some(s.clone()),
            None => None,
        },
        auto_detect: c.auto_detect,
        search_paths,
    }
}

fn clone_odbc_with_driver(c: &DatabricksOdbcConfig, driver_path: String) -> (r: DatabricksOdbcConfig)
    ensures
        r.driver_path == Some(driver_path),
        r.host == c.host,
        r.port == c.port,
        r.http_path == c.http_path,
        r.auth == c.auth,
        r.ssl == c.ssl,
        r.thrift_transport == c.thrift_transport,
        r.schema == c.schema,
        r.use_native_query == c.use_native_query,
        r.logging == c.logging,
{
    DatabricksOdbcConfig {
        driver_path: Some(driver_path),
        host: clone_opt_string(&c.host),
        port: c.port,
        http_path: clone_opt_string(&c.http_path),
        auth: DatabricksAuthConfig {
            auth_mech: c.auth.auth_mech,
            auth_flow: c.auth.auth_flow,
            uid: clone_opt_string(&c.auth.uid),
            pwd: clone_opt_string(&c.auth.pwd),
            auth_access_token: clone_opt_string(&c.auth.auth_access_token),
            auth_client_id: clone_opt_string(&c.auth.auth_client_id),
            auth_client_secret: clone_opt_string(&c.auth.auth_client_secret),
            auth_scope: clone_opt_string(&c.auth.auth_scope),
        },
        ssl: c.ssl,
        thrift_transport: c.thrift_transport,
        schema: clone_opt_string(&c.schema),
        use_native_query: c.use_native_query,
        logging: super::config::DatabricksLoggingConfig {
            log_level: c.logging.log_level,
            log_path: clone_opt_string(&c.logging.log_path),
            log_file_count: c.logging.log_file_count,
            log_file_size: c.logging.log_file_size,
        },
    }
}

fn clone_opt_string(o: &Option<String>) -> (r: Option<String>)
    ensures
        r == *o,
{
    match o {
        Some(s) => Some(s.clone()),
        None => None,
    }
}

} // verus!
