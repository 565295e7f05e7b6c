//! One migration file in memory: its kind, ordering key, parsed forward and
//! reverse SQL, and a checksum of the forward SQL alone.
use crate::text::{
    find_ci, lemma_find_ci_bounds, opt_str_view, spec_dec, spec_dec_pad4, spec_find_ci, spec_hex,
    spec_trim, trim_string, u32_to_string, u32_to_string_pad4, u64_to_hex_string,
};
use vstd::prelude::*;
use vstd::string::*;

verus! {

/// The two migration lifecycles: versioned files run once, in version
/// order; repeatable files run again whenever their checksum changes.
#[derive(Debug, Clone, Copy, PartialEq, Eq, Structural)]
pub enum MigrationType {
    Versioned,
    Repeatable,
}

/// One migration file, parsed.
#[derive(Debug)]
pub struct Migration {
    pub migration_type: MigrationType,
    /// Present exactly for versioned migrations.
    pub version: Option<u32>,
    pub name: String,
    pub file_path: String,
    /// The forward SQL (everything, or the section between the up and the
    /// down marker).
    pub sql_content: String,
    /// The reverse SQL, where the file carried a recognized down marker.
    pub rollback_sql: Option<String>,
    /// A stable fingerprint of the forward SQL only.
    pub checksum: String,
    /// Set only when reconstructed from a bookkeeping record.
    pub applied_at: Option<String>,
    pub execution_time_ms: Option<u32>,
    pub success: bool,
}

impl Clone for Migration {
    fn clone(&self) -> (res: Self)
        ensures
            res == *self,
    {
        Migration {
            migration_type: if self.migration_type == MigrationType::Versioned {
                MigrationType::Versioned
            } else {
                MigrationType::Repeatable
            },
            version: self.version,
            name: self.name.clone(),
            file_path: self.file_path.clone(),
            sql_content: self.sql_content.clone(),
            rollback_sql: match &self.rollback_sql {
                Some(s) => Some(s.clone()),
                None => None,
            },
            checksum: self.checksum.clone(),
            applied_at: match &self.applied_at {
                Some(s) => Some(s.clone()),
                None => None,
            },
            execution_time_ms: self.execution_time_ms,
            success: self.success,
        }
    }
}

// ---- checksum: 64-bit FNV-1a over the characters of the forward SQL ----
pub const FNV_OFFSET: u64 = 0xcbf29ce484222325;

pub const FNV_PRIME: u64 = 0x100000001b3;

/// One FNV-1a step: fold a character into the running hash.
pub open spec fn spec_fnv_step(h: u64, c: char) -> u64 {
    ((((h ^ (c as u64)) as nat) * (FNV_PRIME as nat)) % 0x10000000000000000) as u64
}

/// The 64-bit FNV-1a hash of a character sequence.
pub open spec fn spec_fnv1a(s: Seq<char>) -> u64
    decreases s.len(),
{
    if s.len() == 0 {
        FNV_OFFSET
    } else {
        spec_fnv_step(spec_fnv1a(s.drop_last()), s.last())
    }
}

/// The checksum text: the FNV-1a hash of the content, in lower-case
/// hexadecimal.
pub open spec fn spec_checksum(s: Seq<char>) -> Seq<char> {
    spec_hex(spec_fnv1a(s) as nat)
}

fn fnv_step(h: u64, c: char) -> (r: u64)
    ensures
        r == spec_fnv_step(h, c),
{
    let x: u64 = h ^ (c as u64);
    proof {
        assert((x as nat) * (FNV_PRIME as nat) <= 0xffff_ffff_ffff_ffffnat * 0x100000001b3nat)
            by (nonlinear_arith)
            requires
                x <= 0xffff_ffff_ffff_ffffnat,
        ;
    }
    let wide: u128 = (x as u128) * (FNV_PRIME as u128);
    let rem: u128 = wide % 0x10000000000000000u128;
    let r = rem as u64;
    proof {
        assert(wide as nat == (x as nat) * (FNV_PRIME as nat));
        assert(r == spec_fnv_step(h, c));
    }
    r
}

fn compute_checksum_u64(content: &str) -> (r: u64)
    ensures
        r == spec_fnv1a(content@),
{
    let n = content.unicode_len();
    let mut h: u64 = FNV_OFFSET;
    let mut i: usize = 0;
    while i < n
        invariant
            0 <= i <= n,
            n == content@.len(),
            h == spec_fnv1a(content@.take(i as int)),
        decreases n - i,
    {
        let c = content.get_char(i);
        h = fnv_step(h, c);
        proof {
            assert(content@.take(i + 1).drop_last() =~= content@.take(i as int));
            assert(content@.take(i + 1).last() == content@[i as int]);
        }
        i = i + 1;
    }
    proof {
        assert(content@.take(n as int) =~= content@);
    }
    h
}

// ---- up/down marker parsing ----
/// The text strictly between the up and the down marker, and the text
/// strictly after the down marker, where both markers occur in that order.
pub open spec fn spec_split_by(content: Seq<char>, up: Seq<char>, down: Seq<char>) -> Option<
    (Seq<char>, Seq<char>),
> {
    match spec_find_ci(content, up, 0) {
        None => None,
        Some(up_pos) => {
            let search_start = up_pos + up.len();
            match spec_find_ci(content, down, search_start) {
                None => None,
                Some(down_pos) => Some(
                    (
                        content.subrange(search_start, down_pos),
                        content.subrange(down_pos + down.len(), content.len() as int),
                    ),
                ),
            }
        },
    }
}

/// The marker-pair conventions, in priority order: the first convention
/// whose up marker is found, with a down marker after it, splits the file.
/// Otherwise the whole trimmed content is forward SQL with no reverse SQL.
pub open spec fn spec_parse_content(raw: Seq<char>) -> (Seq<char>, Option<Seq<char>>) {
    let content = spec_trim(raw);
    match spec_split_by(content, "-- +migrate Up"@, "-- +migrate Down"@) {
        Some(p) => (spec_trim(p.0), Some(spec_trim(p.1))),
        None => match spec_split_by(content, "-- UP"@, "-- DOWN"@) {
            Some(p) => (spec_trim(p.0), Some(spec_trim(p.1))),
            None => match spec_split_by(content, "-- +goose Up"@, "-- +goose Down"@) {
                Some(p) => (spec_trim(p.0), Some(spec_trim(p.1))),
                None => match spec_split_by(content, "-- @@UP@@"@, "-- @@DOWN@@"@) {
                    Some(p) => (spec_trim(p.0), Some(spec_trim(p.1))),
                    None => (content, None),
                },
            },
        },
    }
}

/// Splits `content` at an up/down marker pair, case-insensitively: the
/// first part is the text between the markers, the second the text after
/// the down marker.
fn split_by_markers(content: &str, up_marker: &str, down_marker: &str) -> (r: Option<
    (String, String),
>)
    ensures
        match r {
            Some(p) => spec_split_by(content@, up_marker@, down_marker@) == Some((p.0@, p.1@)),
            None => spec_split_by(content@, up_marker@, down_marker@) is None,
        },
{
    let n = content.unicode_len();
    match find_ci(content, up_marker, 0) {
        None => None,
        Some(up_pos) => {
            proof {
                lemma_find_ci_bounds(content@, up_marker@, 0);
            }
            let search_start = up_pos + up_marker.unicode_len();
            match find_ci(content, down_marker, search_start) {
                None => None,
                Some(down_pos) => {
                    proof {
                        lemma_find_ci_bounds(content@, down_marker@, search_start as int);
                    }
                    let up_sql = content.substring_char(search_start, down_pos);
                    let down_sql = content.substring_char(
                        down_pos + down_marker.unicode_len(),
                        n,
                    );
                    Some((up_sql.to_owned(), down_sql.to_owned()))
                },
            }
        },
    }
}

/// Parses raw file text into forward SQL and optional reverse SQL, per the
/// recognized marker conventions; both parts are trimmed.
fn parse_migration_content(raw: &str) -> (r: (String, Option<String>))
    ensures
        r.0@ == spec_parse_content(raw@).0,
        opt_str_view(r.1) == spec_parse_content(raw@).1,
{
    let content = trim_string(raw);
    if let Some((up, down)) = split_by_markers(content.as_str(), "-- +migrate Up", "-- +migrate Down") {
        return (trim_string(up.as_str()), Some(trim_string(down.as_str())));
    }
    if let Some((up, down)) = split_by_markers(content.as_str(), "-- UP", "-- DOWN") {
        return (trim_string(up.as_str()), Some(trim_string(down.as_str())));
    }
    if let Some((up, down)) = split_by_markers(content.as_str(), "-- +goose Up", "-- +goose Down") {
        return (trim_string(up.as_str()), Some(trim_string(down.as_str())));
    }
    if let Some((up, down)) = split_by_markers(content.as_str(), "-- @@UP@@", "-- @@DOWN@@") {
        return (trim_string(up.as_str()), Some(trim_string(down.as_str())));
    }
    (content, None)
}

// ---- identity and naming ----
/// The unique bookkeeping identifier: the decimal version for versioned
/// migrations, the name under an `R__` prefix for repeatable ones.
pub open spec fn spec_identifier(m: Migration) -> Seq<char> {
    match m.migration_type {
        MigrationType::Versioned => spec_dec(
            match m.version {
                Some(v) => v as nat,
                None => 0,
            },
        ),
        MigrationType::Repeatable => "R__"@ + m.name@,
    }
}

/// The canonical file name: `NNNN_name.sql` for versioned migrations
/// (version zero-padded to at least four digits), `R__name.sql` for
/// repeatable ones. A pure function of the record; it never reads a disk.
pub open spec fn spec_filename(m: Migration) -> Seq<char> {
    match m.migration_type {
        MigrationType::Versioned => spec_dec_pad4(
            match m.version {
                Some(v) => v as nat,
                None => 0,
            },
        ) + "_"@ + m.name@ + ".sql"@,
        MigrationType::Repeatable => "R__"@ + m.name@ + ".sql"@,
    }
}

impl Migration {
    /// Builds a versioned migration: the raw text is split into forward
    /// and reverse SQL and the checksum is taken over the forward SQL only.
    pub fn new(version: u32, name: String, file_path: String, sql_content: String) -> (m: Migration)
        ensures
            m.migration_type == MigrationType::Versioned,
            m.version == Some(version),
            m.name == name,
            m.file_path == file_path,
            m.sql_content@ == spec_parse_content(sql_content@).0,
            opt_str_view(m.rollback_sql) == spec_parse_content(sql_content@).1,
            m.checksum@ == spec_checksum(spec_parse_content(sql_content@).0),
            m.applied_at is None,
            m.execution_time_ms is None,
            m.success == true,
    {
        let (up_sql, down_sql) = parse_migration_content(sql_content.as_str());
        let checksum = u64_to_hex_string(compute_checksum_u64(up_sql.as_str()));
        Migration {
            migration_type: MigrationType::Versioned,
            version: Some(version),
            name,
            file_path,
            sql_content: up_sql,
            rollback_sql: down_sql,
            checksum,
            applied_at: None,
            execution_time_ms: None,
            success: true,
        }
    }

    /// Builds a repeatable migration; same parsing and checksum policy as
    /// for versioned ones, with no version.
    pub fn new_repeatable(name: String, file_path: String, sql_content: String) -> (m: Migration)
        ensures
            m.migration_type == MigrationType::Repeatable,
            m.version is None,
            m.name == name,
            m.file_path == file_path,
            m.sql_content@ == spec_parse_content(sql_content@).0,
            opt_str_view(m.rollback_sql) == spec_parse_content(sql_content@).1,
            m.checksum@ == spec_checksum(spec_parse_content(sql_content@).0),
            m.applied_at is None,
            m.execution_time_ms is None,
            m.success == true,
    {
        let (up_sql, down_sql) = parse_migration_content(sql_content.as_str());
        let checksum = u64_to_hex_string(compute_checksum_u64(up_sql.as_str()));
        Migration {
            migration_type: MigrationType::Repeatable,
            version: None,
            name,
            file_path,
            sql_content: up_sql,
            rollback_sql: down_sql,
            checksum,
            applied_at: None,
            execution_time_ms: None,
            success: true,
        }
    }

    /// Reconstructs a migration from a bookkeeping record and the file's
    /// current text: the SQL is re-parsed, while identity, checksum and
    /// outcome come from the record.
    pub fn from_applied(
        applied: &crate::tracker::version_store::AppliedMigration,
        file_path: String,
        sql_content: String,
    ) -> (m: Migration)
        ensures
            m.migration_type == applied.migration_type,
            m.version == applied.version,
            m.name@ == spec_extract_name(applied.filename@),
            m.file_path == file_path,
            m.sql_content@ == spec_parse_content(sql_content@).0,
            opt_str_view(m.rollback_sql) == spec_parse_content(sql_content@).1,
            m.checksum == applied.checksum,
            opt_str_view(m.applied_at) == Some(applied.applied_at@),
            m.execution_time_ms == Some(
                if applied.execution_time_ms >= 0 {
                    applied.execution_time_ms as u32
                } else {
                    0u32
                },
            ),
            m.success == applied.success,
    {
        let (up_sql, down_sql) = parse_migration_content(sql_content.as_str());
        let elapsed: u32 = if applied.execution_time_ms >= 0 {
            applied.execution_time_ms as u32
        } else {
            0
        };
        Migration {
            migration_type: applied.migration_type,
            version: applied.version,
            name: extract_name_from_filename(applied.filename.as_str()),
            file_path,
            sql_content: up_sql,
            rollback_sql: down_sql,
            checksum: applied.checksum.clone(),
            applied_at: Some(applied.applied_at.clone()),
            execution_time_ms: Some(elapsed),
            success: applied.success,
        }
    }

    /// True once a successful bookkeeping record has been attached.
    pub fn is_applied(&self) -> (r: bool)
        ensures
            r == (self.applied_at is Some && self.success),
    {
        self.applied_at.is_some() && self.success
    }

    /// The recorded execution time, where one is attached.
    pub fn execution_time(&self) -> (r: Option<u32>)
        ensures
            r == self.execution_time_ms,
    {
        self.execution_time_ms
    }

    /// The recorded application timestamp, where one is attached.
    pub fn applied_timestamp(&self) -> (r: Option<String>)
        ensures
            opt_str_view(r) == opt_str_view(self.applied_at),
    {
        match &self.applied_at {
            Some(s) => Some(s.clone()),
            None => None,
        }
    }

    /// The canonical file name for this record.
    pub fn filename(&self) -> (r: String)
        ensures
            r@ == spec_filename(*self),
    {
        match &self.migration_type {
            MigrationType::Versioned => {
                let v = match self.version {
                    Some(v) => v,
                    None => 0,
                };
                let mut s = u32_to_string_pad4(v);
                s.append("_");
                s.append(self.name.as_str());
                s.append(".sql");
                s
            },
            MigrationType::Repeatable => {
                let mut s = String::from_str("R__");
                s.append(self.name.as_str());
                s.append(".sql");
                s
            },
        }
    }

    /// The unique bookkeeping identifier for this record.
    pub fn identifier(&self) -> (r: String)
        ensures
            r@ == spec_identifier(*self),
    {
        match &self.migration_type {
            MigrationType::Versioned => {
                let v = match self.version {
                    Some(v) => v,
                    None => 0,
                };
                u32_to_string(v)
            },
            MigrationType::Repeatable => {
                let mut s = String::from_str("R__");
                s.append(self.name.as_str());
                s
            },
        }
    }

    /// True for repeatable migrations.
    pub fn is_repeatable(&self) -> (r: bool)
        ensures
            r == (self.migration_type == MigrationType::Repeatable),
    {
        self.migration_type == MigrationType::Repeatable
    }

    /// True where reverse SQL is present and not blank.
    pub fn has_rollback(&self) -> (r: bool)
        ensures
            r == spec_has_rollback(*self),
    {
        match &self.rollback_sql {
            Some(s) => {
                let t = trim_string(s.as_str());
                t.as_str().unicode_len() > 0
            },
            None => false,
        }
    }

    /// The reverse SQL, where the file carried one.
    pub fn get_rollback_sql(&self) -> (r: Option<&str>)
        ensures
            match r {
                Some(s) => opt_str_view(self.rollback_sql) == Some(s@),
                None => self.rollback_sql is None,
            },
    {
        match &self.rollback_sql {
            Some(s) => Some(s.as_str()),
            None => None,
        }
    }
}

/// The checksum is a pure function of the forward SQL alone: two files
/// whose forward sections agree carry the same checksum, whatever their
/// names or reverse sections — so editing only the rollback section of a
/// file leaves its fingerprint unchanged.
pub proof fn lemma_checksum_depends_on_forward_sql_only(raw1: Seq<char>, raw2: Seq<char>)
    requires
        spec_parse_content(raw1).0 == spec_parse_content(raw2).0,
    ensures
        spec_checksum(spec_parse_content(raw1).0) == spec_checksum(spec_parse_content(raw2).0),
{
}

/// Whether a migration carries reverse SQL that is not blank.
pub open spec fn spec_has_rollback(m: Migration) -> bool {
    match opt_str_view(m.rollback_sql) {
        Some(s) => spec_trim(s).len() > 0,
        None => false,
    }
}

/// A ghost image of a migration: every field as mathematical content, so
/// that contracts can speak of whole migrations as values.
#[verifier::ext_equal]
pub ghost struct MigrationView {
    pub migration_type: MigrationType,
    pub version: Option<u32>,
    pub name: Seq<char>,
    pub file_path: Seq<char>,
    pub sql_content: Seq<char>,
    pub rollback_sql: Option<Seq<char>>,
    pub checksum: Seq<char>,
    pub applied_at: Option<Seq<char>>,
    pub execution_time_ms: Option<u32>,
    pub success: bool,
}

/// The ghost image of a migration.
pub open spec fn mview(m: Migration) -> MigrationView {
    MigrationView {
        migration_type: m.migration_type,
        version: m.version,
        name: m.name@,
        file_path: m.file_path@,
        sql_content: m.sql_content@,
        rollback_sql: opt_str_view(m.rollback_sql),
        checksum: m.checksum@,
        applied_at: opt_str_view(m.applied_at),
        execution_time_ms: m.execution_time_ms,
        success: m.success,
    }
}

/// The ghost image as a function value.
pub open spec fn mview_fn() -> spec_fn(Migration) -> MigrationView {
    |m: Migration| mview(m)
}

/// The migration name carried by a file name: the stem with the `R__`
/// prefix, or the digits and first underscore, removed.
pub open spec fn spec_extract_name(filename: Seq<char>) -> Seq<char> {
    let stem = if crate::text::spec_ends_with(filename, ".sql"@) {
        filename.take(filename.len() - 4)
    } else {
        filename
    };
    if crate::text::spec_starts_with(stem, "R__"@) {
        stem.skip(3)
    } else {
        match crate::text::spec_find_char(stem, '_', 0) {
            Some(i) => stem.skip(i + 1),
            None => stem,
        }
    }
}

/// Extracts the migration name from a file name, such as the one stored in
/// a bookkeeping row.
pub fn extract_name_from_filename(filename: &str) -> (r: String)
    ensures
        r@ == spec_extract_name(filename@),
{
    let n = filename.unicode_len();
    let stem: &str = if crate::text::ends_with_str(filename, ".sql") {
        proof {
            reveal_strlit(".sql");
        }
        filename.substring_char(0, n - 4)
    } else {
        filename
    };
    proof {
        assert(stem@ == if crate::text::spec_ends_with(filename@, ".sql"@) {
            filename@.take(filename@.len() - 4)
        } else {
            filename@
        });
    }
    let m = stem.unicode_len();
    if crate::text::starts_with_str(stem, "R__") {
        proof {
            reveal_strlit("R__");
        }
        stem.substring_char(3, m).to_owned()
    } else {
        match crate::text::find_char(stem, '_', 0) {
            Some(i) => {
                proof {
                    crate::text::lemma_find_char_bounds(stem@, '_', 0);
                }
                stem.substring_char(i + 1, m).to_owned()
            },
            None => stem.to_owned(),
        }
    }
}

} // verus!
