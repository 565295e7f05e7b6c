//! What every dialect carries: its configuration record, the shape of a
//! detection result, and the pattern matching that detection rests on.
use crate::text::spec_find_ci;
use vstd::prelude::*;
use vstd::string::*;

verus! {

/// Identity of a dialect.
#[derive(Debug)]
pub struct DialectMetadata {
    pub name: String,
    pub version: String,
    pub aliases: Vec<String>,
    pub description: String,
    pub min_version: Option<String>,
    pub max_version: Option<String>,
}

/// The patterns detection probes the connection string with.
#[derive(Debug)]
pub struct DetectionConfig {
    pub connection_patterns: Vec<String>,
    pub driver_patterns: Vec<String>,
}

/// What the engine supports.
#[derive(Debug)]
pub struct FeatureConfig {
    pub supports_transactions: bool,
    pub supports_savepoints: bool,
    pub supports_schemas: bool,
    pub supports_sequences: bool,
    pub supports_arrays: bool,
    pub case_sensitive: bool,
}

/// Engine-specific SQL fragments.
#[derive(Debug)]
pub struct SqlConfig {
    pub quote_identifier: String,
    pub escape_identifier: String,
    pub current_timestamp: String,
    pub boolean_true: String,
    pub boolean_false: String,
}

/// The column types of the bookkeeping table on this engine.
#[derive(Debug)]
pub struct TypeMappings {
    pub migration_id: String,
    pub migration_type: String,
    pub version: String,
    pub filename: String,
    pub checksum: String,
    pub applied_at: String,
    pub execution_time_ms: String,
    pub success: String,
}

/// One dialect's whole configuration.
#[derive(Debug)]
pub struct DialectConfig {
    pub metadata: DialectMetadata,
    pub detection: DetectionConfig,
    pub features: FeatureConfig,
    pub sql: SqlConfig,
    pub types: TypeMappings,
}

/// The outcome of probing a connection string: which dialect matched, with
/// what confidence (percent), on which pattern.
#[derive(Debug)]
pub struct DetectionResult {
    pub dialect_name: String,
    pub confidence: u32,
    pub matched_pattern: String,
}

/// What dialect handling can report.
#[derive(Debug)]
pub enum DialectError {
    NotFound(String),
    Ambiguous(Vec<String>),
    ConfigError(String),
    UnsupportedFeature(String),
}

impl DialectConfig {
    /// The dialect's name.
    pub fn name(&self) -> (r: &String)
        ensures
            r == &self.metadata.name,
    {
        &self.metadata.name
    }

    /// The dialect's aliases.
    pub fn aliases(&self) -> (r: &Vec<String>)
        ensures
            r == &self.metadata.aliases,
    {
        &self.metadata.aliases
    }

    /// The engine's current-timestamp expression.
    pub fn current_timestamp(&self) -> (r: &String)
        ensures
            r == &self.sql.current_timestamp,
    {
        &self.sql.current_timestamp
    }

    /// The engine's literal for true.
    pub fn boolean_true(&self) -> (r: &String)
        ensures
            r == &self.sql.boolean_true,
    {
        &self.sql.boolean_true
    }

    /// The engine's literal for false.
    pub fn boolean_false(&self) -> (r: &String)
        ensures
            r == &self.sql.boolean_false,
    {
        &self.sql.boolean_false
    }
}

/// The bookkeeping table's creation statement assembled from a dialect's
/// column types and SQL fragments.
pub open spec fn spec_create_table_text(c: DialectConfig) -> Seq<char> {
    "CREATE TABLE IF NOT EXISTS schema_migrations (migration_id "@ + c.types.migration_id@
        + " PRIMARY KEY NOT NULL, migration_type "@ + c.types.migration_type@
        + " NOT NULL DEFAULT 'versioned', version INTEGER, filename "@ + c.types.filename@
        + " NOT NULL, checksum "@ + c.types.checksum@ + " NOT NULL, applied_at "@
        + c.types.applied_at@ + " NOT NULL DEFAULT "@ + c.sql.current_timestamp@
        + ", execution_time_ms "@ + c.types.execution_time_ms@ + " NOT NULL, success "@
        + c.types.success@ + " NOT NULL DEFAULT "@ + c.sql.boolean_true@ + ")"@
}

/// Assembles the bookkeeping table's creation statement for a dialect.
pub fn build_create_table_sql(config: &DialectConfig) -> (r: String)
    ensures
        r@ == spec_create_table_text(*config),
{
    let mut s = String::from_str("CREATE TABLE IF NOT EXISTS schema_migrations (migration_id ");
    s.append(config.types.migration_id.as_str());
    s.append(" PRIMARY KEY NOT NULL, migration_type ");
    s.append(config.types.migration_type.as_str());
    s.append(" NOT NULL DEFAULT 'versioned', version INTEGER, filename ");
    s.append(config.types.filename.as_str());
    s.append(" NOT NULL, checksum ");
    s.append(config.types.checksum.as_str());
    s.append(" NOT NULL, applied_at ");
    s.append(config.types.applied_at.as_str());
    s.append(" NOT NULL DEFAULT ");
    s.append(config.sql.current_timestamp.as_str());
    s.append(", execution_time_ms ");
    s.append(config.types.execution_time_ms.as_str());
    s.append(" NOT NULL, success ");
    s.append(config.types.success.as_str());
    s.append(" NOT NULL DEFAULT ");
    s.append(config.sql.boolean_true.as_str());
    s.append(")");
    proof {
        assert(s@ =~= spec_create_table_text(*config));
    }
    s
}

// ---- regular-expression probing, through the regex crate ----
/// Whether the regex crate accepts this pattern. Uninterpreted: whatever
/// `regex::Regex::new` decides, which depends on the pattern alone.
pub uninterp spec fn regex_compiles(pattern: Seq<char>) -> bool;

/// Whether the compiled pattern matches somewhere in the text.
/// Uninterpreted: whatever `regex::Regex::is_match` decides, which depends
/// on the pattern and the text alone.
pub uninterp spec fn regex_match_of(pattern: Seq<char>, text: Seq<char>) -> bool;

/// Relies on regex::Regex::new and regex::Regex::is_match: compiling
/// succeeds or fails on the pattern alone, and a compiled pattern matches
/// as a function of pattern and text alone. `None` where the pattern does
/// not compile.
#[verifier::external_body]
fn regex_is_match(pattern: &str, text: &str) -> (r: Option<bool>)
    ensures
        r is Some <==> regex_compiles(pattern@),
        r matches Some(b) ==> b == regex_match_of(pattern@, text@),
{
    match regex::Regex::new(pattern) {
        Ok(re) => Some(re.is_match(text)),
        Err(_) => None,
    }
}

/// The lower-cased text a connection string is probed as. Uninterpreted:
/// whatever `str::to_lowercase` yields, which depends on the characters
/// alone.
pub uninterp spec fn lower_of(s: Seq<char>) -> Seq<char>;

/// Relies on str::to_lowercase: the result depends on the characters alone.
#[verifier::external_body]
pub fn lowercase(s: &str) -> (r: String)
    ensures
        r@ == lower_of(s@),
{
    s.to_lowercase()
}

/// The first pattern in the list that compiles and matches the text, if
/// any.
pub open spec fn spec_first_match(patterns: Seq<String>, text: Seq<char>, i: int) -> Option<int>
    decreases patterns.len() - i,
{
    if i < 0 || i >= patterns.len() {
        None
    } else if regex_compiles(patterns[i]@) && regex_match_of(patterns[i]@, text) {
        Some(i)
    } else {
        spec_first_match(patterns, text, i + 1)
    }
}

/// Probes the text with each pattern in order; a pattern that does not
/// compile is passed over rather than failing detection.
#[verifier::loop_isolation(false)]
pub fn first_matching_pattern(patterns: &Vec<String>, text: &str) -> (r: Option<usize>)
    ensures
        match r {
            Some(i) => spec_first_match(patterns@, text@, 0) == Some(i as int) && i
                < patterns@.len(),
            None => spec_first_match(patterns@, text@, 0) is None,
        },
{
    let mut i: usize = 0;
    while i < patterns.len()
        invariant
            0 <= i <= patterns.len(),
            spec_first_match(patterns@, text@, 0) == spec_first_match(patterns@, text@, i as int),
        decreases patterns.len() - i,
    {
        match regex_is_match(patterns[i].as_str(), text) {
            Some(true) => {
                return Some(i);
            },
            _ => {},
        }
        i = i + 1;
    }
    None
}

/// What detection yields for the standard pattern-then-fallback routine:
/// a connection pattern matching the lower-cased connection string scores
/// highest; a driver pattern against the raw string scores next; a plain
/// case-insensitive fallback term scores lowest; otherwise nothing.
pub open spec fn spec_standard_detection(
    config: DialectConfig,
    conn: Seq<char>,
    fallback_a: Seq<char>,
    fallback_b: Seq<char>,
) -> Option<(u32, Seq<char>)> {
    match spec_first_match(config.detection.connection_patterns@, lower_of(conn), 0) {
        Some(i) => Some((90u32, config.detection.connection_patterns@[i]@)),
        None => match spec_first_match(config.detection.driver_patterns@, conn, 0) {
            Some(j) => Some((80u32, config.detection.driver_patterns@[j]@)),
            None => if spec_find_ci(conn, fallback_a, 0) is Some || spec_find_ci(
                conn,
                fallback_b,
                0,
            ) is Some {
                Some((70u32, fallback_a + "|"@ + fallback_b))
            } else {
                None
            },
        },
    }
}

/// Runs the standard detection routine for one dialect, handing back the
/// confidence and the pattern that matched.
pub fn standard_detection(
    config: &DialectConfig,
    connection_string: &str,
    fallback_a: &str,
    fallback_b: &str,
) -> (r: Option<(u32, String)>)
    ensures
        match r {
            Some(p) => spec_standard_detection(
                *config,
                connection_string@,
                fallback_a@,
                fallback_b@,
            ) == Some((p.0, p.1@)),
            None => spec_standard_detection(
                *config,
                connection_string@,
                fallback_a@,
                fallback_b@,
            ) is None,
        },
{
    let conn_lower = lowercase(connection_string);
    match first_matching_pattern(&config.detection.connection_patterns, conn_lower.as_str()) {
        Some(i) => {
            let p = config.detection.connection_patterns[i].clone();
            return Some((90, p));
        },
        None => {},
    }
    match first_matching_pattern(&config.detection.driver_patterns, connection_string) {
        Some(j) => {
            let p = config.detection.driver_patterns[j].clone();
            return Some((80, p));
        },
        None => {},
    }
    if crate::text::contains_ci(connection_string, fallback_a) || crate::text::contains_ci(
        connection_string,
        fallback_b,
    ) {
        let mut p = fallback_a.to_owned();
        p.append("|");
        p.append(fallback_b);
        proof {
            assert(p@ =~= fallback_a@ + "|"@ + fallback_b@);
        }
        return Some((70, p));
    }
    None
}

} // verus!
