//! Databricks ODBC driver bookkeeping: the known drivers, where their
//! shared libraries usually live, and which of them are present. Testing
//! whether a file exists is filesystem work: the caller hands in the
//! candidate paths that exist, and everything else is pure and verified.
use crate::sorting::spec_filter;
use crate::text::{spec_lower, str_eq, str_eq_ci};
use vstd::prelude::*;
use vstd::string::*;

verus! {

/// Who ships a driver.
#[derive(Debug, PartialEq)]
pub enum DriverVendor {
    Databricks,
    Simba,
    Custom(String),
}

impl Clone for DriverVendor {
    fn clone(&self) -> (res: Self)
        ensures
            res == *self,
    {
        match self {
            DriverVendor::Databricks => DriverVendor::Databricks,
            DriverVendor::Simba => DriverVendor::Simba,
            DriverVendor::Custom(name) => DriverVendor::Custom(name.clone()),
        }
    }
}

impl DriverVendor {
    /// The human-readable vendor name.
    pub fn display_name(&self) -> (r: String)
        ensures
            (self is Databricks ==> r@ == "Databricks"@),
            (self is Simba ==> r@ == "Simba Technologies"@),
            (self matches DriverVendor::Custom(name) ==> r@ == name@),
    {
        match self {
            DriverVendor::Databricks => String::from_str("Databricks"),
            DriverVendor::Simba => String::from_str("Simba Technologies"),
            DriverVendor::Custom(name) => name.clone(),
        }
    }
}

/// What a driver supports.
#[derive(Debug)]
pub struct DriverCapabilities {
    pub supports_arrow: bool,
    pub supports_cloud_fetch: bool,
    pub supports_oauth: bool,
    pub supports_pat: bool,
    pub min_version: Option<String>,
    pub max_version: Option<String>,
}

/// One known driver: display name, library path, vendor, capabilities,
/// and whether the library was found on this machine.
#[derive(Debug)]
pub struct DriverInfo {
    pub name: String,
    pub path: String,
    pub version: Option<String>,
    pub vendor: DriverVendor,
    pub capabilities: DriverCapabilities,
    pub installation_info: Option<String>,
    pub available: bool,
}

/// The feature a query names, matched without regard to ASCII case.
pub open spec fn spec_supports_feature(info: DriverInfo, feature: Seq<char>) -> bool {
    if spec_lower(feature) == spec_lower("arrow"@) {
        info.capabilities.supports_arrow
    } else if spec_lower(feature) == spec_lower("cloud_fetch"@) {
        info.capabilities.supports_cloud_fetch
    } else if spec_lower(feature) == spec_lower("oauth"@) {
        info.capabilities.supports_oauth
    } else if spec_lower(feature) == spec_lower("pat"@) {
        info.capabilities.supports_pat
    } else {
        false
    }
}

impl DriverInfo {
    /// The human-readable vendor name.
    pub fn vendor_name(&self) -> (r: String)
        ensures
            (self.vendor is Databricks ==> r@ == "Databricks"@),
            (self.vendor is Simba ==> r@ == "Simba Technologies"@),
            (self.vendor matches DriverVendor::Custom(name) ==> r@ == name@),
    {
        self.vendor.display_name()
    }

    /// Whether this driver supports a named feature.
    pub fn supports_feature(&self, feature: &str) -> (r: bool)
        ensures
            r == spec_supports_feature(*self, feature@),
    {
        if str_eq_ci(feature, "arrow") {
            self.capabilities.supports_arrow
        } else if str_eq_ci(feature, "cloud_fetch") {
            self.capabilities.supports_cloud_fetch
        } else if str_eq_ci(feature, "oauth") {
            self.capabilities.supports_oauth
        } else if str_eq_ci(feature, "pat") {
            self.capabilities.supports_pat
        } else {
            false
        }
    }
}

/// The driver table: known drivers under their keys, in a fixed order, the
/// preferred key, and where to search for libraries.
#[derive(Debug)]
pub struct DatabricksDriverConfig {
    pub drivers: Vec<(String, DriverInfo)>,
    pub preferred_driver: Option<String>,
    pub auto_detect: bool,
    pub search_paths: Vec<String>,
}

/// The first driver stored under `key`, if any.
pub open spec fn spec_lookup(drivers: Seq<(String, DriverInfo)>, key: Seq<char>) -> Option<
    DriverInfo,
>
    decreases drivers.len(),
{
    if drivers.len() == 0 {
        None
    } else if drivers.first().0@ == key {
        Some(drivers.first().1)
    } else {
        spec_lookup(drivers.drop_first(), key)
    }
}

/// The first available driver, if any.
pub open spec fn spec_first_available(drivers: Seq<(String, DriverInfo)>) -> Option<DriverInfo>
    decreases drivers.len(),
{
    if drivers.len() == 0 {
        None
    } else if drivers.first().1.available {
        Some(drivers.first().1)
    } else {
        spec_first_available(drivers.drop_first())
    }
}

/// The available-entry test as a function value.
pub open spec fn available_fn() -> spec_fn((String, DriverInfo)) -> bool {
    |e: (String, DriverInfo)| e.1.available
}

/// Whether the list holds exactly this text.
pub open spec fn spec_contains_str(v: Seq<String>, s: Seq<char>) -> bool {
    exists|i: int| 0 <= i < v.len() && (#[trigger] v[i])@ == s
}

/// Whether the list holds exactly this text.
#[verifier::loop_isolation(false)]
pub fn contains_str(v: &Vec<String>, s: &str) -> (r: bool)
    ensures
        r == spec_contains_str(v@, s@),
{
    let mut i: usize = 0;
    while i < v.len()
        invariant
            0 <= i <= v.len(),
            forall|k: int| 0 <= k < i ==> (#[trigger] v@[k])@ != s@,
        decreases v.len() - i,
    {
        if str_eq(v[i].as_str(), s) {
            return true;
        }
        i = i + 1;
    }
    false
}

/// The file-name component of a path: everything after the last slash.
pub open spec fn spec_basename(p: Seq<char>) -> Seq<char>
    decreases p.len(),
{
    if p.len() == 0 {
        p
    } else if p.last() == '/' {
        Seq::empty()
    } else {
        spec_basename(p.drop_last()).push(p.last())
    }
}

proof fn lemma_basename_after_slash(p: Seq<char>, j: int)
    requires
        0 <= j < p.len(),
        p[j] == '/',
        forall|k: int| j < k < p.len() ==> p[k] != '/',
    ensures
        spec_basename(p) == p.skip(j + 1),
    decreases p.len(),
{
    if j == p.len() - 1 {
        assert(p.last() == '/');
        assert(spec_basename(p) =~= p.skip(j + 1));
    } else {
        lemma_basename_after_slash(p.drop_last(), j);
        assert(p.drop_last().skip(j + 1) =~= p.skip(j + 1).drop_last());
        assert(spec_basename(p) =~= p.skip(j + 1));
    }
}

proof fn lemma_basename_no_slash(p: Seq<char>)
    requires
        forall|k: int| 0 <= k < p.len() ==> p[k] != '/',
    ensures
        spec_basename(p) == p,
    decreases p.len(),
{
    if p.len() > 0 {
        lemma_basename_no_slash(p.drop_last());
        assert(spec_basename(p) =~= p);
    }
}

/// The file-name component of a path.
#[verifier::loop_isolation(false)]
pub fn basename(p: &str) -> (r: String)
    ensures
        r@ == spec_basename(p@),
{
    let n = p.unicode_len();
    let mut j: usize = n;
    while j > 0
        invariant
            0 <= j <= n,
            n == p@.len(),
            forall|k: int| j <= k < n ==> p@[k] != '/',
        decreases j,
    {
        if p.get_char(j - 1) == '/' {
            proof {
                lemma_basename_after_slash(p@, j - 1);
            }
            return p.substring_char(j, n).to_owned();
        }
        j = j - 1;
    }
    proof {
        lemma_basename_no_slash(p@);
    }
    p.to_owned()
}

/// The places a driver library may live, per search path: the path itself
/// and its usual library subdirectories, each joined with the file name.
pub open spec fn spec_candidates(filename: Seq<char>, sps: Seq<String>) -> Seq<Seq<char>>
    decreases sps.len(),
{
    if sps.len() == 0 {
        Seq::empty()
    } else {
        let sp = sps.first()@;
        seq![
            sp + "/"@ + filename,
            sp + "/odbc/"@ + filename,
            sp + "/lib/"@ + filename,
            sp + "/lib64/"@ + filename,
            sp + "/drivers/"@ + filename,
        ] + spec_candidates(filename, sps.drop_first())
    }
}

/// The first candidate that exists, if any.
pub open spec fn spec_first_existing(cands: Seq<Seq<char>>, existing: Seq<String>) -> Option<
    Seq<char>,
>
    decreases cands.len(),
{
    if cands.len() == 0 {
        None
    } else if spec_contains_str(existing, cands.first()) {
        Some(cands.first())
    } else {
        spec_first_existing(cands.drop_first(), existing)
    }
}

/// Where detection lands for one driver: its configured path where that
/// exists, else (with auto-detection) the first existing candidate under
/// the search paths.
pub open spec fn spec_detect_path(
    path: Seq<char>,
    sps: Seq<String>,
    existing: Seq<String>,
    auto: bool,
) -> Option<Seq<char>> {
    if spec_contains_str(existing, path) {
        Some(path)
    } else if auto {
        spec_first_existing(spec_candidates(spec_basename(path), sps), existing)
    } else {
        None
    }
}

/// The keys of the drivers detection finds, in table order.
pub open spec fn spec_found_keys(
    drivers: Seq<(String, DriverInfo)>,
    sps: Seq<String>,
    existing: Seq<String>,
    auto: bool,
) -> Seq<Seq<char>>
    decreases drivers.len(),
{
    if drivers.len() == 0 {
        Seq::empty()
    } else {
        (if spec_detect_path(drivers.first().1.path@, sps, existing, auto) is Some {
            seq![drivers.first().0@]
        } else {
            Seq::<Seq<char>>::empty()
        }) + spec_found_keys(drivers.drop_first(), sps, existing, auto)
    }
}

fn push_joined(out: &mut Vec<String>, sp: &str, mid: &str, filename: &str)
    ensures
        final(out)@.len() == old(out)@.len() + 1,
        final(out)@.drop_last() == old(out)@,
        final(out)@.last()@ == sp@ + mid@ + filename@,
{
    let mut s = sp.to_owned();
    s.append(mid);
    s.append(filename);
    proof {
        assert(s@ =~= sp@ + mid@ + filename@);
    }
    out.push(s);
    proof {
        assert(out@.drop_last() =~= old(out)@);
    }
}

/// Builds every candidate path for a driver file name, in search order.
#[verifier::loop_isolation(false)]
pub fn build_candidate_paths(filename: &str, search_paths: &Vec<String>) -> (r: Vec<String>)
    ensures
        crate::text::spec_views(r@) == spec_candidates(filename@, search_paths@),
{
    let mut out: Vec<String> = Vec::new();
    let mut i: usize = 0;
    proof {
        assert(search_paths@.skip(0) =~= search_paths@);
    }
    while i < search_paths.len()
        invariant
            0 <= i <= search_paths.len(),
            crate::text::spec_views(out@) + spec_candidates(
                filename@,
                search_paths@.skip(i as int),
            ) == spec_candidates(filename@, search_paths@),
        decreases search_paths.len() - i,
    {
        proof {
            assert(search_paths@.skip(i as int).first() == search_paths@[i as int]);
            assert(search_paths@.skip(i as int).drop_first() =~= search_paths@.skip(i + 1));
        }
        let ghost before = crate::text::spec_views(out@);
        let sp = &search_paths[i];
        push_joined(&mut out, sp.as_str(), "/", filename);
        push_joined(&mut out, sp.as_str(), "/odbc/", filename);
        push_joined(&mut out, sp.as_str(), "/lib/", filename);
        push_joined(&mut out, sp.as_str(), "/lib64/", filename);
        push_joined(&mut out, sp.as_str(), "/drivers/", filename);
        proof {
            let sp_view = search_paths@[i as int]@;
            assert(crate::text::spec_views(out@) =~= before + seq![
                sp_view + "/"@ + filename@,
                sp_view + "/odbc/"@ + filename@,
                sp_view + "/lib/"@ + filename@,
                sp_view + "/lib64/"@ + filename@,
                sp_view + "/drivers/"@ + filename@,
            ]);
            assert(crate::text::spec_views(out@) + spec_candidates(
                filename@,
                search_paths@.skip(i + 1),
            ) =~= before + spec_candidates(filename@, search_paths@.skip(i as int)));
        }
        i = i + 1;
    }
    proof {
        assert(spec_candidates(filename@, search_paths@.skip(search_paths@.len() as int))
            =~= Seq::<Seq<char>>::empty());
        assert(crate::text::spec_views(out@) =~= spec_candidates(filename@, search_paths@));
    }
    out
}

/// Searches the candidate locations for a driver file, given which paths
/// exist; the first hit wins.
#[verifier::loop_isolation(false)]
pub fn search_for_driver_in_paths(
    driver_filename: &str,
    search_paths: &Vec<String>,
    existing_files: &Vec<String>,
) -> (r: Option<String>)
    ensures
        crate::text::opt_str_view(r) == spec_first_existing(
            spec_candidates(driver_filename@, search_paths@),
            existing_files@,
        ),
{
    let candidates = build_candidate_paths(driver_filename, search_paths);
    let ghost cands = crate::text::spec_views(candidates@);
    let mut i: usize = 0;
    proof {
        assert(cands.skip(0) =~= cands);
    }
    while i < candidates.len()
        invariant
            0 <= i <= candidates.len(),
            cands == crate::text::spec_views(candidates@),
            spec_first_existing(cands, existing_files@) == spec_first_existing(
                cands.skip(i as int),
                existing_files@,
            ),
        decreases candidates.len() - i,
    {
        proof {
            assert(cands.skip(i as int).first() == cands[i as int]);
            assert(cands.skip(i as int).drop_first() =~= cands.skip(i + 1));
        }
        if contains_str(existing_files, candidates[i].as_str()) {
            return Some(candidates[i].clone());
        }
        i = i + 1;
    }
    proof {
        assert(cands.skip(cands.len() as int) =~= Seq::<Seq<char>>::empty());
    }
    None
}

fn clone_capabilities(c: &DriverCapabilities) -> (r: DriverCapabilities)
    ensures
        r == *c,
{
    DriverCapabilities {
        supports_arrow: c.supports_arrow,
        supports_cloud_fetch: c.supports_cloud_fetch,
        supports_oauth: c.supports_oauth,
        supports_pat: c.supports_pat,
        min_version: match &c.min_version {
            Some(s) => Some(s.clone()),
            None => None,
        },
        max_version: match &c.max_version {
            Some(s) => Some(s.clone()),
            None => None,
        },
    }
}

impl Clone for DriverInfo {
    fn clone(&self) -> (r: Self)
        ensures
            r == *self,
    {
        DriverInfo {
            name: self.name.clone(),
            path: self.path.clone(),
            version: match &self.version {
                Some(s) => Some(s.clone()),
                None => None,
            },
            vendor: match &self.vendor {
                DriverVendor::Databricks => DriverVendor::Databricks,
                DriverVendor::Simba => DriverVendor::Simba,
                DriverVendor::Custom(name) => DriverVendor::Custom(name.clone()),
            },
            capabilities: clone_capabilities(&self.capabilities),
            installation_info: match &self.installation_info {
                Some(s) => Some(s.clone()),
                None => None,
            },
            available: self.available,
        }
    }
}

impl Default for DatabricksDriverConfig {
    /// The built-in driver table: the official Databricks driver and the
    /// Simba driver under its common Linux, macOS and Windows paths, none
    /// yet marked available, with auto-detection on and the usual library
    /// directories as search paths.
    fn default() -> (r: Self)
        ensures
            r.auto_detect == true,
            r.preferred_driver is None,
            r.drivers@.len() == 4,
            r.drivers@[0].0@ == "databricks"@,
            r.drivers@[0].1.vendor is Databricks,
            r.drivers@[0].1.capabilities.supports_arrow == true,
            r.drivers@[0].1.capabilities.supports_cloud_fetch == true,
            r.drivers@[0].1.capabilities.supports_oauth == true,
            r.drivers@[0].1.capabilities.supports_pat == true,
            r.drivers@[0].1.available == false,
            r.drivers@[0].1.path@ == "/usr/lib/databricks/odbc/lib/libdatabricksodbcw.so"@,
            r.drivers@[1].0@ == "simba"@,
            r.drivers@[1].1.vendor is Simba,
            r.drivers@[1].1.available == false,
            r.drivers@[1].1.path@ == "/opt/simba/spark/lib/64/libsparkodbc64.so"@,
            r.drivers@[2].0@ == "simba-macos"@,
            r.drivers@[2].1.available == false,
            r.drivers@[2].1.path@ == "/opt/simba/spark/lib/libsparkodbc.dylib"@,
            r.drivers@[3].0@ == "simba-windows"@,
            r.drivers@[3].1.available == false,
            crate::text::spec_views(r.search_paths@) == seq![
                "/usr/lib"@,
                "/usr/local/lib"@,
                "/opt"@,
                "/Library/ODBC"@,
            ],
    {
        let mut drivers: Vec<(String, DriverInfo)> = Vec::new();
        drivers.push(
            (
                String::from_str("databricks"),
                DriverInfo {
                    name: String::from_str("Databricks ODBC Driver"),
                    path: String::from_str("/usr/lib/databricks/odbc/lib/libdatabricksodbcw.so"),
                    version: None,
                    vendor: DriverVendor::Databricks,
                    capabilities: DriverCapabilities {
                        supports_arrow: true,
                        supports_cloud_fetch: true,
                        supports_oauth: true,
                        supports_pat: true,
                        min_version: Some(String::from_str("2.6.15")),
                        max_version: None,
                    },
                    installation_info: Some(
                        String::from_str(
                            "Download from: https://docs.databricks.com/integrations/odbc-jdbc.html",
                        ),
                    ),
                    available: false,
                },
            ),
        );
        drivers.push(
            (
                String::from_str("simba"),
                DriverInfo {
                    name: String::from_str("Simba Spark ODBC Driver"),
                    path: String::from_str("/opt/simba/spark/lib/64/libsparkodbc64.so"),
                    version: None,
                    vendor: DriverVendor::Simba,
                    capabilities: DriverCapabilities {
                        supports_arrow: true,
                        supports_cloud_fetch: false,
                        supports_oauth: true,
                        supports_pat: true,
                        min_version: Some(String::from_str("1.6.0")),
                        max_version: None,
                    },
                    installation_info: Some(
                        String::from_str("Download from Simba or Databricks documentation"),
                    ),
                    available: false,
                },
            ),
        );
        drivers.push(
            (
                String::from_str("simba-macos"),
                DriverInfo {
                    name: String::from_str("Simba Spark ODBC Driver (macOS)"),
                    path: String::from_str("/opt/simba/spark/lib/libsparkodbc.dylib"),
                    version: None,
                    vendor: DriverVendor::Simba,
                    capabilities: DriverCapabilities {
                        supports_arrow: true,
                        supports_cloud_fetch: false,
                        supports_oauth: true,
                        supports_pat: true,
                        min_version: Some(String::from_str("1.6.0")),
                        max_version: None,
                    },
                    installation_info: Some(
                        String::from_str("Download from Simba or Databricks documentation"),
                    ),
                    available: false,
                },
            ),
        );
        drivers.push(
            (
                String::from_str("simba-windows"),
                DriverInfo {
                    name: String::from_str("Simba Spark ODBC Driver (Windows)"),
                    path: String::from_str(
                        "C:\\Program Files\\Simba Spark ODBC Driver\\lib\\simba.sparkodbc.dll",
                    ),
                    version: None,
                    vendor: DriverVendor::Simba,
                    capabilities: DriverCapabilities {
                        supports_arrow: true,
                        supports_cloud_fetch: false,
                        supports_oauth: true,
                        supports_pat: true,
                        min_version: Some(String::from_str("1.6.0")),
                        max_version: None,
                    },
                    installation_info: Some(
                        String::from_str("Download from Simba or Databricks documentation"),
                    ),
                    available: false,
                },
            ),
        );
        let mut search_paths: Vec<String> = Vec::new();
        search_paths.push(String::from_str("/usr/lib"));
        search_paths.push(String::from_str("/usr/local/lib"));
        search_paths.push(String::from_str("/opt"));
        search_paths.push(String::from_str("/Library/ODBC"));
        proof {
            assert(crate::text::spec_views(search_paths@) =~= seq![
                "/usr/lib"@,
                "/usr/local/lib"@,
                "/opt"@,
                "/Library/ODBC"@,
            ]);
        }
        DatabricksDriverConfig { drivers, preferred_driver: None, auto_detect: true, search_paths }
    }
}

impl DatabricksDriverConfig {
    /// Whether a driver is stored under `key`.
    pub fn has_driver(&self, key: &str) -> (r: bool)
        ensures
            r == (spec_lookup(self.drivers@, key@) is Some),
    {
        match self.get_driver_by_name(key) {
            Some(_) => true,
            None => false,
        }
    }

    /// The driver stored under `key`, if any.
    #[verifier::loop_isolation(false)]
    pub fn get_driver_by_name<'a>(&'a self, name: &str) -> (r: Option<&'a DriverInfo>)
        ensures
            match r {
                Some(info) => spec_lookup(self.drivers@, name@) == Some(*info),
                None => spec_lookup(self.drivers@, name@) is None,
            },
    {
        let mut i: usize = 0;
        proof {
            assert(self.drivers@.skip(0) =~= self.drivers@);
        }
        while i < self.drivers.len()
            invariant
                0 <= i <= self.drivers.len(),
                spec_lookup(self.drivers@, name@) == spec_lookup(
                    self.drivers@.skip(i as int),
                    name@,
                ),
            decreases self.drivers.len() - i,
        {
            proof {
                assert(self.drivers@.skip(i as int).first() == self.drivers@[i as int]);
                assert(self.drivers@.skip(i as int).drop_first() =~= self.drivers@.skip(i + 1));
            }
            if str_eq(self.drivers[i].0.as_str(), name) {
                return Some(&self.drivers[i].1);
            }
            i = i + 1;
        }
        None
    }

    /// The preferred driver where it is set and available, else the first
    /// available driver.
    #[verifier::loop_isolation(false)]
    pub fn get_driver<'a>(&'a self) -> (r: Option<&'a DriverInfo>)
        ensures
            match r {
                Some(info) => (match self.preferred_driver {
                    Some(p) => (spec_lookup(self.drivers@, p@) matches Some(d) && d.available
                        && *info == d) || (!(spec_lookup(self.drivers@, p@) matches Some(d)
                        && d.available) && spec_first_available(self.drivers@) == Some(*info)),
                    None => spec_first_available(self.drivers@) == Some(*info),
                }),
                None => spec_first_available(self.drivers@) is None && (match self
                    .preferred_driver {
                    Some(p) => !(spec_lookup(self.drivers@, p@) matches Some(d) && d.available),
                    None => true,
                }),
            },
    {
        match &self.preferred_driver {
            Some(preferred) => {
                match self.get_driver_by_name(preferred.as_str()) {
                    Some(info) => {
                        if info.available {
                            return Some(info);
                        }
                    },
                    None => {},
                }
            },
            None => {},
        }
        let mut i: usize = 0;
        proof {
            assert(self.drivers@.skip(0) =~= self.drivers@);
        }
        while i < self.drivers.len()
            invariant
                0 <= i <= self.drivers.len(),
                spec_first_available(self.drivers@) == spec_first_available(
                    self.drivers@.skip(i as int),
                ),
            decreases self.drivers.len() - i,
        {
            proof {
                assert(self.drivers@.skip(i as int).first() == self.drivers@[i as int]);
                assert(self.drivers@.skip(i as int).drop_first() =~= self.drivers@.skip(i + 1));
            }
            if self.drivers[i].1.available {
                return Some(&self.drivers[i].1);
            }
            i = i + 1;
        }
        None
    }

    /// Adds a custom driver at the end of the table.
    pub fn add_custom_driver(&mut self, key: String, driver: DriverInfo)
        ensures
            final(self).drivers@ == old(self).drivers@.push((key, driver)),
            final(self).preferred_driver == old(self).preferred_driver,
            final(self).auto_detect == old(self).auto_detect,
            final(self).search_paths == old(self).search_paths,
    {
        self.drivers.push((key, driver));
    }

    /// The entries currently marked available, in table order.
    #[verifier::loop_isolation(false)]
    pub fn list_available_drivers(&self) -> (r: Vec<(String, DriverInfo)>)
        ensures
            r@ == spec_filter(self.drivers@, available_fn()),
    {
        let ghost keep = available_fn();
        let mut out: Vec<(String, DriverInfo)> = Vec::new();
        let mut i: usize = 0;
        while i < self.drivers.len()
            invariant
                0 <= i <= self.drivers.len(),
                out@ == spec_filter(self.drivers@.take(i as int), keep),
            decreases self.drivers.len() - i,
        {
            proof {
                assert(self.drivers@.take(i + 1).drop_last() =~= self.drivers@.take(i as int));
                assert(self.drivers@.take(i + 1).last() == self.drivers@[i as int]);
            }
            if self.drivers[i].1.available {
                let key = self.drivers[i].0.clone();
                let info = self.drivers[i].1.clone();
                out.push((key, info));
            }
            i = i + 1;
        }
        proof {
            assert(self.drivers@.take(self.drivers@.len() as int) =~= self.drivers@);
        }
        out
    }

    /// Marks the driver under `key` available at `found_path` — the caller
    /// found its library there.
    #[verifier::loop_isolation(false)]
    pub fn mark_driver_available(&mut self, key: &str, found_path: &str)
        ensures
            final(self).drivers@.len() == old(self).drivers@.len(),
            forall|k: int|
                0 <= k < old(self).drivers@.len() ==> {
                    let old_entry = old(self).drivers@[k];
                    let new_entry = #[trigger] final(self).drivers@[k];
                    if old_entry.0@ == key@ {
                        new_entry.0 == old_entry.0 && new_entry.1.available
                            && new_entry.1.path@ == found_path@ && new_entry.1.name
                            == old_entry.1.name && new_entry.1.vendor == old_entry.1.vendor
                            && new_entry.1.capabilities == old_entry.1.capabilities
                    } else {
                        new_entry == old_entry
                    }
                },
            final(self).preferred_driver == old(self).preferred_driver,
            final(self).auto_detect == old(self).auto_detect,
            final(self).search_paths == old(self).search_paths,
    {
        let mut out: Vec<(String, DriverInfo)> = Vec::new();
        let mut i: usize = 0;
        while i < self.drivers.len()
            invariant
                0 <= i <= self.drivers.len(),
                out@.len() == i,
                forall|k: int|
                    0 <= k < i ==> {
                        let old_entry = self.drivers@[k];
                        let new_entry = #[trigger] out@[k];
                        if old_entry.0@ == key@ {
                            new_entry.0 == old_entry.0 && new_entry.1.available
                                && new_entry.1.path@ == found_path@ && new_entry.1.name
                                == old_entry.1.name && new_entry.1.vendor == old_entry.1.vendor
                                && new_entry.1.capabilities == old_entry.1.capabilities
                        } else {
                            new_entry == old_entry
                        }
                    },
            decreases self.drivers.len() - i,
        {
            let entry = &self.drivers[i];
            if str_eq(entry.0.as_str(), key) {
                let info = DriverInfo {
                    name: entry.1.name.clone(),
                    path: found_path.to_owned(),
                    version: match &entry.1.version {
                        Some(s) => Some(s.clone()),
                        None => None,
                    },
                    vendor: match &entry.1.vendor {
                        DriverVendor::Databricks => DriverVendor::Databricks,
                        DriverVendor::Simba => DriverVendor::Simba,
                        DriverVendor::Custom(name) => DriverVendor::Custom(name.clone()),
                    },
                    capabilities: clone_capabilities(&entry.1.capabilities),
                    installation_info: match &entry.1.installation_info {
                        Some(s) => Some(s.clone()),
                        None => None,
                    },
                    available: true,
                };
                out.push((entry.0.clone(), info));
            } else {
                let key_clone = entry.0.clone();
                let info = entry.1.clone();
                out.push((key_clone, info));
            }
            i = i + 1;
        }
        self.drivers = out;
    }

    /// Detects which known drivers are present, given the candidate paths
    /// that exist on this machine (the caller probes the filesystem): a
    /// driver whose configured path exists is marked available; otherwise,
    /// with auto-detection on, the first existing candidate under the
    /// search paths becomes its path. Returns the keys of the drivers
    /// found, in table order.
    #[verifier::loop_isolation(false)]
    pub fn detect_available_drivers(&mut self, existing_files: &Vec<String>) -> (found: Vec<
        String,
    >)
        ensures
            final(self).drivers@.len() == old(self).drivers@.len(),
            forall|k: int|
                0 <= k < old(self).drivers@.len() ==> {
                    let oe = old(self).drivers@[k];
                    let ne = #[trigger] final(self).drivers@[k];
                    ne.0 == oe.0 && match spec_detect_path(
                        oe.1.path@,
                        old(self).search_paths@,
                        existing_files@,
                        old(self).auto_detect,
                    ) {
                        Some(p) => ne.1.available && ne.1.path@ == p && ne.1.name == oe.1.name
                            && ne.1.vendor == oe.1.vendor && ne.1.capabilities
                            == oe.1.capabilities && ne.1.version == oe.1.version
                            && ne.1.installation_info == oe.1.installation_info,
                        None => ne == oe,
                    }
                },
            crate::text::spec_views(found@) == spec_found_keys(
                old(self).drivers@,
                old(self).search_paths@,
                existing_files@,
                old(self).auto_detect,
            ),
            final(self).preferred_driver == old(self).preferred_driver,
            final(self).auto_detect == old(self).auto_detect,
            final(self).search_paths == old(self).search_paths,
    {
        let mut out: Vec<(String, DriverInfo)> = Vec::new();
        let mut found: Vec<String> = Vec::new();
        let mut i: usize = 0;
        proof {
            assert(self.drivers@.skip(0) =~= self.drivers@);
        }
        while i < self.drivers.len()
            invariant
                0 <= i <= self.drivers.len(),
                out@.len() == i,
                forall|k: int|
                    0 <= k < i ==> {
                        let oe = self.drivers@[k];
                        let ne = #[trigger] out@[k];
                        ne.0 == oe.0 && match spec_detect_path(
                            oe.1.path@,
                            self.search_paths@,
                            existing_files@,
                            self.auto_detect,
                        ) {
                            Some(p) => ne.1.available && ne.1.path@ == p && ne.1.name == oe.1.name
                                && ne.1.vendor == oe.1.vendor && ne.1.capabilities
                                == oe.1.capabilities && ne.1.version == oe.1.version
                                && ne.1.installation_info == oe.1.installation_info,
                            None => ne == oe,
                        }
                    },
                crate::text::spec_views(found@) + spec_found_keys(
                    self.drivers@.skip(i as int),
                    self.search_paths@,
                    existing_files@,
                    self.auto_detect,
                ) == spec_found_keys(
                    self.drivers@,
                    self.search_paths@,
                    existing_files@,
                    self.auto_detect,
                ),
            decreases self.drivers.len() - i,
        {
            proof {
                assert(self.drivers@.skip(i as int).first() == self.drivers@[i as int]);
                assert(self.drivers@.skip(i as int).drop_first() =~= self.drivers@.skip(i + 1));
            }
            let entry = &self.drivers[i];
            let mut resolved: Option<String> = None;
            if contains_str(existing_files, entry.1.path.as_str()) {
                resolved = Some(entry.1.path.clone());
            } else if self.auto_detect {
                let filename = basename(entry.1.path.as_str());
                resolved = search_for_driver_in_paths(
                    filename.as_str(),
                    &self.search_paths,
                    existing_files,
                );
            }
            match resolved {
                Some(found_path) => {
                    let info = DriverInfo {
                        name: entry.1.name.clone(),
                        path: found_path,
                        version: match &entry.1.version {
                            Some(s) => Some(s.clone()),
                            None => None,
                        },
                        vendor: match &entry.1.vendor {
                            DriverVendor::Databricks => DriverVendor::Databricks,
                            DriverVendor::Simba => DriverVendor::Simba,
                            DriverVendor::Custom(name) => DriverVendor::Custom(name.clone()),
                        },
                        capabilities: clone_capabilities(&entry.1.capabilities),
                        installation_info: match &entry.1.installation_info {
                            Some(s) => Some(s.clone()),
                            None => None,
                        },
                        available: true,
                    };
                    let key = entry.0.clone();
                    out.push((key.clone(), info));
                    found.push(key);
                    proof {
                        assert(crate::text::spec_views(found@) =~= crate::text::spec_views(
                            found@.drop_last(),
                        ) + seq![self.drivers@[i as int].0@]);
                    }
                },
                None => {
                    let key = entry.0.clone();
                    let info = entry.1.clone();
                    out.push((key, info));
                },
            }
            i = i + 1;
        }
        proof {
            assert(self.drivers@.skip(self.drivers@.len() as int)
                =~= Seq::<(String, DriverInfo)>::empty());
        }
        self.drivers = out;
        found
    }

    /// Guidance where no driver is available: names every known driver,
    /// its expected path, and where to get it. `Ok` as soon as any driver
    /// is available.
    pub fn validate_and_guide(&self) -> (r: Result<(), String>)
        ensures
            r is Ok <==> spec_filter(self.drivers@, available_fn()).len() > 0,
    {
        let available = self.list_available_drivers();
        if available.len() > 0 {
            return Ok(());
        }
        let mut guidance = String::from_str(
            "No ODBC drivers found for Databricks. Install one of:\n\n",
        );
        let mut i: usize = 0;
        while i < self.drivers.len()
            invariant
                0 <= i <= self.drivers.len(),
            decreases self.drivers.len() - i,
        {
            let entry = &self.drivers[i];
            guidance.append(entry.0.as_str());
            guidance.append(". ");
            guidance.append(entry.1.name.as_str());
            guidance.append(" (");
            let vendor = entry.1.vendor_name();
            guidance.append(vendor.as_str());
            guidance.append(")\n   Path: ");
            guidance.append(entry.1.path.as_str());
            guidance.append("\n");
            match &entry.1.installation_info {
                Some(info) => {
                    guidance.append("   ");
                    guidance.append(info.as_str());
                    guidance.append("\n");
                },
                None => {},
            }
            guidance.append("\n");
            i = i + 1;
        }
        Err(guidance)
    }
}

} // verus!
