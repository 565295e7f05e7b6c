//! The version store: the source of truth for what has been applied, when,
//! and with what result. It holds an in-memory mirror of the bookkeeping
//! table; every mutation has a matching SQL builder whose statement performs
//! the same change on the real table, so the mirror and the table move in
//! step under the single-operator model.
use crate::model::migration::{spec_filename, spec_identifier, Migration, MigrationType};
use crate::sorting::{lemma_sort_properties, spec_filter, spec_insert_sorted, spec_sort};
use crate::text::{
    opt_str_view, parse_i32_or_zero, parse_u32_or_zero, spec_dec, spec_dec_i32, spec_lower,
    spec_parse_i32_or_zero, spec_parse_u32_or_zero, spec_starts_with, spec_str_le, spec_views,
    starts_with_str, str_eq, str_eq_ci, str_le, u32_to_string,
};
use vstd::prelude::*;
use vstd::relations::{strongly_connected, transitive};
use vstd::string::*;

verus! {

/// One row of the bookkeeping table, reconstructed into memory. The
/// timestamp is carried as the text the database stored.
#[derive(Debug)]
pub struct AppliedMigration {
    pub migration_id: String,
    pub migration_type: MigrationType,
    pub version: Option<u32>,
    pub filename: String,
    pub checksum: String,
    pub applied_at: String,
    pub execution_time_ms: i32,
    pub success: bool,
}

impl Clone for AppliedMigration {
    fn clone(&self) -> (res: Self)
        ensures
            res == *self,
    {
        AppliedMigration {
            migration_id: self.migration_id.clone(),
            migration_type: self.migration_type,
            version: self.version,
            filename: self.filename.clone(),
            checksum: self.checksum.clone(),
            applied_at: self.applied_at.clone(),
            execution_time_ms: self.execution_time_ms,
            success: self.success,
        }
    }
}

/// Whether `row` is a successful record of versioned migration `v`.
pub open spec fn spec_success_row(row: AppliedMigration, v: u32) -> bool {
    row.migration_type == MigrationType::Versioned && row.version == Some(v) && row.success
}

/// Whether the table holds a successful record for versioned migration `v`.
pub open spec fn spec_is_applied(rows: Seq<AppliedMigration>, v: u32) -> bool {
    exists|i: int| 0 <= i < rows.len() && spec_success_row(#[trigger] rows[i], v)
}

/// The checksum of the first successful row carrying `id`, if any.
pub open spec fn spec_success_checksum(rows: Seq<AppliedMigration>, id: Seq<char>) -> Option<
    Seq<char>,
>
    decreases rows.len(),
{
    if rows.len() == 0 {
        None
    } else if rows.first().migration_id@ == id && rows.first().success {
        Some(rows.first().checksum@)
    } else {
        spec_success_checksum(rows.drop_first(), id)
    }
}

/// The checksum of the first row carrying `id`, successful or not.
pub open spec fn spec_any_checksum(rows: Seq<AppliedMigration>, id: Seq<char>) -> Option<Seq<char>>
    decreases rows.len(),
{
    if rows.len() == 0 {
        None
    } else if rows.first().migration_id@ == id {
        Some(rows.first().checksum@)
    } else {
        spec_any_checksum(rows.drop_first(), id)
    }
}

/// Whether a repeatable migration must run: no successful record under its
/// identifier, or one whose stored checksum differs from the current one.
pub open spec fn spec_should_run_repeatable(rows: Seq<AppliedMigration>, m: Migration) -> bool {
    match spec_success_checksum(rows, spec_identifier(m)) {
        Some(stored) => stored != m.checksum@,
        None => true,
    }
}

/// Whether a migration belongs in the pending set, given the table and the
/// baseline: a versioned migration iff it is not successfully applied and
/// lies above the baseline; a repeatable one iff it must run again.
pub open spec fn spec_is_pending(
    rows: Seq<AppliedMigration>,
    baseline: Option<u32>,
    m: Migration,
) -> bool {
    match m.migration_type {
        MigrationType::Versioned => match m.version {
            Some(v) => !spec_is_applied(rows, v) && match baseline {
                Some(b) => v > b,
                None => true,
            },
            None => false,
        },
        MigrationType::Repeatable => spec_should_run_repeatable(rows, m),
    }
}

/// The display and processing order of applied rows: versioned rows first,
/// ascending by version, then the rest, with the stored file name as the
/// tie breaker (the `ORDER BY` of the applied-rows query).
pub open spec fn spec_applied_le(a: AppliedMigration, b: AppliedMigration) -> bool {
    let ra: int = if a.migration_type == MigrationType::Versioned {
        0
    } else {
        1
    };
    let rb: int = if b.migration_type == MigrationType::Versioned {
        0
    } else {
        1
    };
    let va: int = if a.migration_type == MigrationType::Versioned {
        match a.version {
            Some(v) => v as int,
            None => 0,
        }
    } else {
        0
    };
    let vb: int = if b.migration_type == MigrationType::Versioned {
        match b.version {
            Some(v) => v as int,
            None => 0,
        }
    } else {
        0
    };
    ra < rb || (ra == rb && (va < vb || (va == vb && spec_str_le(a.filename@, b.filename@))))
}

/// The applied-row order as a function value, shared by every contract
/// that sorts with it.
pub open spec fn applied_le_fn() -> spec_fn(AppliedMigration, AppliedMigration) -> bool {
    |a: AppliedMigration, b: AppliedMigration| spec_applied_le(a, b)
}

/// The ascending order on versions as a function value.
pub open spec fn u32_le_fn() -> spec_fn(u32, u32) -> bool {
    |a: u32, b: u32| a <= b
}

/// The successful-versioned-row test as a function value.
pub open spec fn success_versioned_fn() -> spec_fn(AppliedMigration) -> bool {
    |row: AppliedMigration| row.migration_type == MigrationType::Versioned && row.success
}

/// The version carried by a row, zero where there is none, as a function
/// value.
pub open spec fn row_version_fn() -> spec_fn(AppliedMigration) -> u32 {
    |row: AppliedMigration|
        match row.version {
            Some(v) => v,
            None => 0u32,
        }
}

pub proof fn lemma_applied_le_ordering()
    ensures
        strongly_connected(applied_le_fn()),
        transitive(applied_le_fn()),
{
    let leq = applied_le_fn();
    assert forall|a: AppliedMigration, b: AppliedMigration| #[trigger] leq(a, b) || #[trigger] leq(
        b,
        a,
    ) by {
        crate::text::lemma_str_le_total(a.filename@, b.filename@);
    }
    assert forall|a: AppliedMigration, b: AppliedMigration, c: AppliedMigration|
        #[trigger] leq(a, b) && #[trigger] leq(b, c) implies leq(a, c) by {
        if spec_str_le(a.filename@, b.filename@) && spec_str_le(b.filename@, c.filename@) {
            crate::text::lemma_str_le_trans(a.filename@, b.filename@, c.filename@);
        }
    }
}

fn applied_le(a: &AppliedMigration, b: &AppliedMigration) -> (r: bool)
    ensures
        r == spec_applied_le(*a, *b),
{
    let ra: u32 = if a.migration_type == MigrationType::Versioned {
        0
    } else {
        1
    };
    let rb: u32 = if b.migration_type == MigrationType::Versioned {
        0
    } else {
        1
    };
    if ra != rb {
        return ra < rb;
    }
    let va: u32 = if a.migration_type == MigrationType::Versioned {
        match a.version {
            Some(v) => v,
            None => 0,
        }
    } else {
        0
    };
    let vb: u32 = if b.migration_type == MigrationType::Versioned {
        match b.version {
            Some(v) => v,
            None => 0,
        }
    } else {
        0
    };
    if va != vb {
        return va < vb;
    }
    str_le(a.filename.as_str(), b.filename.as_str())
}

/// Inserts one row into an already-sorted vector, keeping the order.
#[verifier::loop_isolation(false)]
fn insert_applied_sorted(v: Vec<AppliedMigration>, x: AppliedMigration) -> (r: Vec<
    AppliedMigration,
>)
    ensures
        r@ == spec_insert_sorted(x, v@, applied_le_fn()),
{
    let ghost leq = applied_le_fn();
    let mut v = v;
    let mut i: usize = 0;
    proof {
        assert(v@.skip(0) =~= v@);
        assert(v@.take(0) + spec_insert_sorted(x, v@, leq) =~= spec_insert_sorted(x, v@, leq));
    }
    while i < v.len() && applied_le(&v[i], &x)
        invariant
            0 <= i <= v.len(),
            spec_insert_sorted(x, v@, leq) == v@.take(i as int) + spec_insert_sorted(
                x,
                v@.skip(i as int),
                leq,
            ),
        decreases v.len() - i,
    {
        proof {
            let rest = v@.skip(i as int);
            assert(rest.first() == v@[i as int]);
            assert(rest.drop_first() =~= v@.skip(i + 1));
            assert(v@.take(i + 1) + spec_insert_sorted(x, v@.skip(i + 1), leq) =~= v@.take(i as int)
                + (seq![rest.first()] + spec_insert_sorted(x, rest.drop_first(), leq)));
        }
        i = i + 1;
    }
    let ghost prev = v@;
    proof {
        let rest = prev.skip(i as int);
        if i < prev.len() {
            assert(rest.first() == prev[i as int]);
            assert(!spec_applied_le(prev[i as int], x));
            assert(spec_insert_sorted(x, rest, leq) == seq![x] + rest);
        } else {
            assert(rest =~= Seq::<AppliedMigration>::empty());
            assert(spec_insert_sorted(x, rest, leq) == seq![x]);
            assert(seq![x] =~= seq![x] + rest);
        }
    }
    v.insert(i, x);
    proof {
        assert(v@ =~= prev.take(i as int) + (seq![x] + prev.skip(i as int)));
    }
    v
}

/// Inserts one version into an already-sorted vector, keeping the order.
#[verifier::loop_isolation(false)]
fn insert_u32_sorted(v: Vec<u32>, x: u32) -> (r: Vec<u32>)
    ensures
        r@ == spec_insert_sorted(x, v@, u32_le_fn()),
{
    let ghost leq = u32_le_fn();
    let mut v = v;
    let mut i: usize = 0;
    proof {
        assert(v@.skip(0) =~= v@);
        assert(v@.take(0) + spec_insert_sorted(x, v@, leq) =~= spec_insert_sorted(x, v@, leq));
    }
    while i < v.len() && v[i] <= x
        invariant
            0 <= i <= v.len(),
            spec_insert_sorted(x, v@, leq) == v@.take(i as int) + spec_insert_sorted(
                x,
                v@.skip(i as int),
                leq,
            ),
        decreases v.len() - i,
    {
        proof {
            let rest = v@.skip(i as int);
            assert(rest.first() == v@[i as int]);
            assert(rest.drop_first() =~= v@.skip(i + 1));
            assert(v@.take(i + 1) + spec_insert_sorted(x, v@.skip(i + 1), leq) =~= v@.take(i as int)
                + (seq![rest.first()] + spec_insert_sorted(x, rest.drop_first(), leq)));
        }
        i = i + 1;
    }
    let ghost prev = v@;
    proof {
        let rest = prev.skip(i as int);
        if i < prev.len() {
            assert(rest.first() == prev[i as int]);
            assert(spec_insert_sorted(x, rest, leq) == seq![x] + rest);
        } else {
            assert(rest =~= Seq::<u32>::empty());
            assert(spec_insert_sorted(x, rest, leq) == seq![x]);
            assert(seq![x] =~= seq![x] + rest);
        }
    }
    v.insert(i, x);
    proof {
        assert(v@ =~= prev.take(i as int) + (seq![x] + prev.skip(i as int)));
    }
    v
}

/// The bookkeeping-table mirror: the rows as read from the table, and the
/// baseline marker, if one is set.
pub struct VersionStore {
    rows: Vec<AppliedMigration>,
    baseline: Option<u32>,
}

impl VersionStore {
    /// The rows of the bookkeeping table, in table order.
    pub closed spec fn table(&self) -> Seq<AppliedMigration> {
        self.rows@
    }

    /// The baseline version, where one marker row exists.
    pub closed spec fn baseline_version(&self) -> Option<u32> {
        self.baseline
    }

    /// An empty store: a freshly created bookkeeping table.
    pub fn new() -> (s: VersionStore)
        ensures
            s.table() == Seq::<AppliedMigration>::empty(),
            s.baseline_version() is None,
    {
        VersionStore { rows: Vec::new(), baseline: None }
    }

    /// The applied rows, ordered versioned-ascending then repeatable by
    /// stored file name, mirroring the loader's ordering.
    #[verifier::loop_isolation(false)]
    pub fn get_applied_migrations(&self) -> (r: Vec<AppliedMigration>)
        ensures
            r@ == spec_sort(self.table(), applied_le_fn()),
            r@.to_multiset() == self.table().to_multiset(),
            vstd::relations::sorted_by(r@, applied_le_fn()),
    {
        let ghost leq = applied_le_fn();
        let mut out: Vec<AppliedMigration> = Vec::new();
        let mut i: usize = 0;
        while i < self.rows.len()
            invariant
                0 <= i <= self.rows.len(),
                out@ == spec_sort(self.rows@.take(i as int), leq),
            decreases self.rows.len() - i,
        {
            let row = self.rows[i].clone();
            proof {
                assert(self.rows@.take(i + 1).drop_last() =~= self.rows@.take(i as int));
                assert(self.rows@.take(i + 1).last() == self.rows@[i as int]);
            }
            out = insert_applied_sorted(out, row);
            i = i + 1;
        }
        proof {
            assert(self.rows@.take(self.rows@.len() as int) =~= self.rows@);
            lemma_applied_le_ordering();
            lemma_sort_properties(self.table(), leq);
        }
        out
    }

    /// The versions of successful versioned rows, ascending.
    #[verifier::loop_isolation(false)]
    pub fn get_applied_versions(&self) -> (r: Vec<u32>)
        ensures
            r@ == spec_sort(
                spec_filter(self.table(), success_versioned_fn()).map_values(row_version_fn()),
                u32_le_fn(),
            ),
    {
        let ghost keep = success_versioned_fn();
        let ghost getv = row_version_fn();
        let ghost leq = u32_le_fn();
        let mut out: Vec<u32> = Vec::new();
        let mut i: usize = 0;
        while i < self.rows.len()
            invariant
                0 <= i <= self.rows.len(),
                out@ == spec_sort(
                    spec_filter(self.rows@.take(i as int), keep).map_values(getv),
                    leq,
                ),
            decreases self.rows.len() - i,
        {
            let row = &self.rows[i];
            proof {
                assert(self.rows@.take(i + 1).drop_last() =~= self.rows@.take(i as int));
                assert(self.rows@.take(i + 1).last() == self.rows@[i as int]);
            }
            if row.migration_type == MigrationType::Versioned && row.success {
                let v = match row.version {
                    Some(v) => v,
                    None => 0,
                };
                proof {
                    let fprev = spec_filter(self.rows@.take(i as int), keep);
                    let fnext = spec_filter(self.rows@.take(i + 1), keep);
                    assert(fnext == fprev.push(self.rows@[i as int]));
                    assert(fnext.map_values(getv) =~= fprev.map_values(getv).push(v));
                    assert(fnext.map_values(getv).drop_last() =~= fprev.map_values(getv));
                }
                out = insert_u32_sorted(out, v);
            } else {
                proof {
                    assert(spec_filter(self.rows@.take(i + 1), keep) == spec_filter(
                        self.rows@.take(i as int),
                        keep,
                    ));
                }
            }
            i = i + 1;
        }
        proof {
            assert(self.rows@.take(self.rows@.len() as int) =~= self.rows@);
        }
        out
    }

    /// True only if a successful record exists for `version`.
    #[verifier::loop_isolation(false)]
    pub fn is_migration_applied(&self, version: u32) -> (r: bool)
        ensures
            r == spec_is_applied(self.table(), version),
    {
        let mut i: usize = 0;
        while i < self.rows.len()
            invariant
                0 <= i <= self.rows.len(),
                forall|k: int| 0 <= k < i ==> !spec_success_row(#[trigger] self.rows@[k], version),
            decreases self.rows.len() - i,
        {
            let row = &self.rows[i];
            if row.migration_type == MigrationType::Versioned && row.success {
                match row.version {
                    Some(v) => {
                        if v == version {
                            return true;
                        }
                    },
                    None => {},
                }
            }
            i = i + 1;
        }
        false
    }

    /// The rows exactly as the table holds them, in table order.
    #[verifier::loop_isolation(false)]
    pub fn rows_snapshot(&self) -> (r: Vec<AppliedMigration>)
        ensures
            r@ == self.table(),
    {
        let mut out: Vec<AppliedMigration> = Vec::new();
        let mut i: usize = 0;
        while i < self.rows.len()
            invariant
                0 <= i <= self.rows.len(),
                out@ == self.rows@.take(i as int),
            decreases self.rows.len() - i,
        {
            let row = self.rows[i].clone();
            out.push(row);
            proof {
                assert(out@ =~= self.rows@.take(i + 1));
            }
            i = i + 1;
        }
        proof {
            assert(self.rows@.take(self.rows@.len() as int) =~= self.rows@);
        }
        out
    }

    /// The baseline version, where a baseline marker is set.
    pub fn get_baseline_version(&self) -> (r: Option<u32>)
        ensures
            r == self.baseline_version(),
    {
        self.baseline
    }

    /// Whether a repeatable migration must run again: never run
    /// successfully, or its stored checksum differs from the current one.
    #[verifier::loop_isolation(false)]
    pub fn should_run_repeatable(&self, migration: &Migration) -> (r: bool)
        ensures
            r == spec_should_run_repeatable(self.table(), *migration),
    {
        let id = migration.identifier();
        let mut i: usize = 0;
        proof {
            assert(self.table().skip(0) =~= self.table());
        }
        while i < self.rows.len()
            invariant
                0 <= i <= self.rows.len(),
                id@ == spec_identifier(*migration),
                spec_success_checksum(self.table(), id@) == spec_success_checksum(
                    self.table().skip(i as int),
                    id@,
                ),
            decreases self.rows.len() - i,
        {
            let row = &self.rows[i];
            proof {
                assert(self.table().skip(i as int).first() == self.table()[i as int]);
                assert(self.table().skip(i as int).drop_first() =~= self.table().skip(i + 1));
            }
            if row.success && str_eq(row.migration_id.as_str(), id.as_str()) {
                return !str_eq(row.checksum.as_str(), migration.checksum.as_str());
            }
            i = i + 1;
        }
        true
    }

    /// The stored checksum under `migration_id`, successful or not.
    #[verifier::loop_isolation(false)]
    pub fn get_migration_checksum(&self, migration_id: &str) -> (r: Option<String>)
        ensures
            opt_str_view(r) == spec_any_checksum(self.table(), migration_id@),
    {
        let mut i: usize = 0;
        proof {
            assert(self.table().skip(0) =~= self.table());
        }
        while i < self.rows.len()
            invariant
                0 <= i <= self.rows.len(),
                spec_any_checksum(self.table(), migration_id@) == spec_any_checksum(
                    self.table().skip(i as int),
                    migration_id@,
                ),
            decreases self.rows.len() - i,
        {
            let row = &self.rows[i];
            proof {
                assert(self.table().skip(i as int).first() == self.table()[i as int]);
                assert(self.table().skip(i as int).drop_first() =~= self.table().skip(i + 1));
            }
            if str_eq(row.migration_id.as_str(), migration_id) {
                return Some(row.checksum.clone());
            }
            i = i + 1;
        }
        None
    }

    /// The migrations still owed work, in input order: versioned ones not
    /// yet successfully applied and above the baseline, and repeatable
    /// ones whose checksum changed or that never ran.
    #[verifier::loop_isolation(false)]
    pub fn get_pending_migrations(&self, all_migrations: &Vec<Migration>) -> (r: Vec<Migration>)
        ensures
            r@ == spec_filter(all_migrations@, pending_fn(self.table(), self.baseline_version())),
    {
        let ghost keep = pending_fn(self.table(), self.baseline_version());
        let mut pending: Vec<Migration> = Vec::new();
        let mut i: usize = 0;
        while i < all_migrations.len()
            invariant
                0 <= i <= all_migrations.len(),
                pending@ == spec_filter(all_migrations@.take(i as int), keep),
            decreases all_migrations.len() - i,
        {
            let migration = &all_migrations[i];
            proof {
                assert(all_migrations@.take(i + 1).drop_last() =~= all_migrations@.take(i as int));
                assert(all_migrations@.take(i + 1).last() == all_migrations@[i as int]);
            }
            let is_pending: bool = match &migration.migration_type {
                MigrationType::Versioned => {
                    match migration.version {
                        Some(version) => {
                            if self.is_migration_applied(version) {
                                false
                            } else {
                                match self.baseline {
                                    Some(b) => version > b,
                                    None => true,
                                }
                            }
                        },
                        None => false,
                    }
                },
                MigrationType::Repeatable => self.should_run_repeatable(migration),
            };
            if is_pending {
                pending.push(migration.clone());
            }
            i = i + 1;
        }
        proof {
            assert(all_migrations@.take(all_migrations@.len() as int) =~= all_migrations@);
        }
        pending
    }

    /// Records the start of an attempt: a provisional row (no elapsed
    /// time, not successful) is appended before execution begins, so that
    /// a crash mid-migration is later seen as a failed attempt. For a
    /// repeatable migration any earlier row under its identifier is
    /// dropped first: repeatables keep at most one current row. Returns
    /// the statements that make the same change to the real table.
    #[verifier::loop_isolation(false)]
    pub fn record_migration_start(&mut self, migration: &Migration) -> (stmts: Vec<
        (String, Vec<String>),
    >)
        ensures
            final(self).baseline_version() == old(self).baseline_version(),
            final(self).table().len() > 0,
            spec_start_row(final(self).table().last(), *migration),
            final(self).table().drop_last() == if migration.migration_type
                == MigrationType::Repeatable {
                spec_filter(old(self).table(), keep_other_id_fn(spec_identifier(*migration)))
            } else {
                old(self).table()
            },
            spec_start_stmts(stmts@, *migration),
    {
        let id = migration.identifier();
        let mut stmts: Vec<(String, Vec<String>)> = Vec::new();
        if migration.is_repeatable() {
            let ghost keep = keep_other_id_fn(id@);
            let mut kept: Vec<AppliedMigration> = Vec::new();
            let mut i: usize = 0;
            while i < self.rows.len()
                invariant
                    0 <= i <= self.rows.len(),
                    kept@ == spec_filter(self.rows@.take(i as int), keep),
                decreases self.rows.len() - i,
            {
                proof {
                    assert(self.rows@.take(i + 1).drop_last() =~= self.rows@.take(i as int));
                    assert(self.rows@.take(i + 1).last() == self.rows@[i as int]);
                }
                if !str_eq(self.rows[i].migration_id.as_str(), id.as_str()) {
                    let row = self.rows[i].clone();
                    kept.push(row);
                }
                i = i + 1;
            }
            proof {
                assert(self.rows@.take(self.rows@.len() as int) =~= self.rows@);
            }
            self.rows = kept;
            let mut params: Vec<String> = Vec::new();
            params.push(id.clone());
            let delete = String::from_str("DELETE FROM schema_migrations WHERE migration_id = ?");
            stmts.push((delete, params));
            proof {
                assert(spec_views(stmts@[0].1@) =~= seq![spec_identifier(*migration)]);
            }
        }
        let row = AppliedMigration {
            migration_id: id.clone(),
            migration_type: if migration.is_repeatable() {
                MigrationType::Repeatable
            } else {
                MigrationType::Versioned
            },
            version: migration.version,
            filename: migration.filename(),
            checksum: migration.checksum.clone(),
            applied_at: String::new(),
            execution_time_ms: 0,
            success: false,
        };
        let ghost before_push = self.rows@;
        self.rows.push(row);
        proof {
            assert(self.rows@.drop_last() =~= before_push);
        }
        let insert = insert_start_statement(migration, &id);
        stmts.push(insert);
        stmts
    }

    /// Marks every row under the migration's identifier successful, with
    /// the elapsed time. On the real table the statement also refreshes
    /// the applied-at timestamp; the mirror keeps the text it last read.
    #[verifier::loop_isolation(false)]
    pub fn record_migration_success(&mut self, migration: &Migration, execution_time_ms: i32) -> (stmt:
        (String, Vec<String>))
        ensures
            final(self).baseline_version() == old(self).baseline_version(),
            final(self).table() == old(self).table().map_values(
                mark_fn(spec_identifier(*migration), execution_time_ms, true),
            ),
            (stmt.0)@ == spec_update_sql(execution_time_ms, true),
            spec_views(stmt.1@) == seq![spec_identifier(*migration)],
    {
        let id = migration.identifier();
        self.mark_rows(&id, execution_time_ms, true);
        let stmt = update_statement(&id, execution_time_ms, true);
        stmt
    }

    /// Marks every row under the migration's identifier failed, with the
    /// elapsed time, leaving a permanent audit trail of the attempt.
    #[verifier::loop_isolation(false)]
    pub fn record_migration_failure(&mut self, migration: &Migration, execution_time_ms: i32) -> (stmt:
        (String, Vec<String>))
        ensures
            final(self).baseline_version() == old(self).baseline_version(),
            final(self).table() == old(self).table().map_values(
                mark_fn(spec_identifier(*migration), execution_time_ms, false),
            ),
            (stmt.0)@ == spec_update_sql(execution_time_ms, false),
            spec_views(stmt.1@) == seq![spec_identifier(*migration)],
    {
        let id = migration.identifier();
        self.mark_rows(&id, execution_time_ms, false);
        let stmt = update_statement(&id, execution_time_ms, false);
        stmt
    }

    #[verifier::loop_isolation(false)]
    fn mark_rows(&mut self, id: &String, execution_time_ms: i32, success: bool)
        ensures
            final(self).baseline_version() == old(self).baseline_version(),
            final(self).table() == old(self).table().map_values(
                mark_fn(id@, execution_time_ms, success),
            ),
    {
        let ghost f = mark_fn(id@, execution_time_ms, success);
        let mut out: Vec<AppliedMigration> = Vec::new();
        let mut i: usize = 0;
        while i < self.rows.len()
            invariant
                0 <= i <= self.rows.len(),
                out@ == self.rows@.take(i as int).map_values(f),
            decreases self.rows.len() - i,
        {
            let row = &self.rows[i];
            let updated = if str_eq(row.migration_id.as_str(), id.as_str()) {
                AppliedMigration {
                    migration_id: row.migration_id.clone(),
                    migration_type: row.migration_type,
                    version: row.version,
                    filename: row.filename.clone(),
                    checksum: row.checksum.clone(),
                    applied_at: row.applied_at.clone(),
                    execution_time_ms,
                    success,
                }
            } else {
                row.clone()
            };
            out.push(updated);
            proof {
                assert(out@ =~= self.rows@.take(i + 1).map_values(f));
            }
            i = i + 1;
        }
        proof {
            assert(self.rows@.take(self.rows@.len() as int) =~= self.rows@);
        }
        self.rows = out;
    }

    /// Deletes the bookkeeping row of a reversed versioned migration, so
    /// that its version becomes eligible for re-application.
    #[verifier::loop_isolation(false)]
    pub fn remove_migration(&mut self, version: u32) -> (stmt: (String, Vec<String>))
        ensures
            final(self).baseline_version() == old(self).baseline_version(),
            final(self).table() == spec_filter(old(self).table(), keep_other_version_fn(version)),
            (stmt.0)@ == spec_remove_sql(version),
            stmt.1@.len() == 0,
    {
        let ghost keep = keep_other_version_fn(version);
        let mut kept: Vec<AppliedMigration> = Vec::new();
        let mut i: usize = 0;
        while i < self.rows.len()
            invariant
                0 <= i <= self.rows.len(),
                kept@ == spec_filter(self.rows@.take(i as int), keep),
            decreases self.rows.len() - i,
        {
            proof {
                assert(self.rows@.take(i + 1).drop_last() =~= self.rows@.take(i as int));
                assert(self.rows@.take(i + 1).last() == self.rows@[i as int]);
            }
            let row = &self.rows[i];
            let is_target = row.migration_type == MigrationType::Versioned && match row.version {
                Some(v) => v == version,
                None => false,
            };
            if !is_target {
                let row = self.rows[i].clone();
                kept.push(row);
            }
            i = i + 1;
        }
        proof {
            assert(self.rows@.take(self.rows@.len() as int) =~= self.rows@);
        }
        self.rows = kept;
        let mut sql = String::from_str(
            "DELETE FROM schema_migrations WHERE migration_type = 'versioned' AND version = ",
        );
        sql.append(u32_to_string(version).as_str());
        let stmt = (sql, Vec::new());
        stmt
    }

    /// Sets the baseline marker: migrations at or below `version` are
    /// considered already represented in the target schema. The conflict
    /// check against real history is the caller's, done before this.
    pub fn create_baseline(&mut self, version: u32, description: &str) -> (stmt: (String, Vec<
        String,
    >))
        ensures
            final(self).table() == old(self).table(),
            final(self).baseline_version() == Some(version),
            (stmt.0)@ == spec_baseline_sql(version),
            spec_views(stmt.1@) == seq!["baseline_"@ + spec_dec(version as nat), description@],
    {
        self.baseline = Some(version);
        let mut marker = String::from_str("baseline_");
        marker.append(u32_to_string(version).as_str());
        let mut sql = String::from_str(
            "INSERT INTO schema_migrations (migration_id, migration_type, version, filename, checksum, applied_at, execution_time_ms, success) VALUES (?, 'versioned', ",
        );
        sql.append(u32_to_string(version).as_str());
        sql.append(", ?, 'baseline', CURRENT_TIMESTAMP, 0, 1)");
        let mut params: Vec<String> = Vec::new();
        params.push(marker);
        params.push(description.to_owned());
        proof {
            assert((sql@ == spec_baseline_sql(version)));
            assert(spec_views(params@) =~= seq![
                "baseline_"@ + spec_dec(version as nat),
                description@,
            ]);
        }
        let stmt = (sql, params);
        stmt
    }

    /// Rebuilds the mirror from raw result rows of the applied-rows query:
    /// rows of fewer than eight columns are skipped, baseline markers set
    /// the baseline, and every other row is decoded into a record.
    #[verifier::loop_isolation(false)]
    pub fn from_rows(raw: Vec<Vec<String>>) -> (s: VersionStore)
        ensures
            s.table() == spec_decoded_rows(raw@),
            s.baseline_version() == spec_decoded_baseline(raw@),
    {
        let mut store = VersionStore { rows: Vec::new(), baseline: None };
        let mut i: usize = 0;
        while i < raw.len()
            invariant
                0 <= i <= raw.len(),
                store.rows@ == spec_decoded_rows(raw@.take(i as int)),
                store.baseline == spec_decoded_baseline(raw@.take(i as int)),
            decreases raw.len() - i,
        {
            let row = &raw[i];
            proof {
                assert(raw@.take(i + 1).drop_last() =~= raw@.take(i as int));
                assert(raw@.take(i + 1).last() == raw@[i as int]);
            }
            if row.len() >= 8 {
                if starts_with_str(row[0].as_str(), "baseline_") {
                    let v = parse_u32_or_zero(row[2].as_str());
                    let better = match store.baseline {
                        Some(b) => v > b,
                        None => true,
                    };
                    if better {
                        store.baseline = Some(v);
                    }
                } else {
                    let decoded = decode_row(row);
                    store.rows.push(decoded);
                }
            }
            i = i + 1;
        }
        proof {
            assert(raw@.take(raw@.len() as int) =~= raw@);
        }
        store
    }
}

/// Reading the pending set is idempotent: it is a function of the table,
/// the baseline and the given migrations alone, so two computations with
/// no recording between them select the same migrations.
pub proof fn lemma_pending_read_idempotent(
    rows: Seq<AppliedMigration>,
    baseline: Option<u32>,
    migrations: Seq<Migration>,
    r1: Seq<Migration>,
    r2: Seq<Migration>,
)
    requires
        r1 == spec_filter(migrations, pending_fn(rows, baseline)),
        r2 == spec_filter(migrations, pending_fn(rows, baseline)),
    ensures
        r1 == r2,
{
}

/// After recording the start and then the success of a versioned
/// migration, the store reports its version applied.
pub proof fn lemma_start_then_success_applies(
    t0: Seq<AppliedMigration>,
    t1: Seq<AppliedMigration>,
    t2: Seq<AppliedMigration>,
    m: Migration,
    v: u32,
    elapsed: i32,
)
    requires
        m.migration_type == MigrationType::Versioned,
        m.version == Some(v),
        // t1 is t0 after `record_migration_start`
        t1.len() > 0,
        spec_start_row(t1.last(), m),
        t1.drop_last() == t0,
        // t2 is t1 after `record_migration_success`
        t2 == t1.map_values(mark_fn(spec_identifier(m), elapsed, true)),
    ensures
        spec_is_applied(t2, v),
{
    let j = t1.len() - 1;
    let marked = mark_fn(spec_identifier(m), elapsed, true)(t1[j]);
    assert(t2[j] == marked);
    assert(spec_success_row(t2[j], v));
}

/// After recording the start and then the failure of a versioned migration
/// that was not applied before, the store still does not report its
/// version applied, and the applied-version list excludes it.
pub proof fn lemma_start_then_failure_not_applied(
    t0: Seq<AppliedMigration>,
    t1: Seq<AppliedMigration>,
    t2: Seq<AppliedMigration>,
    m: Migration,
    v: u32,
    elapsed: i32,
)
    requires
        m.migration_type == MigrationType::Versioned,
        m.version == Some(v),
        !spec_is_applied(t0, v),
        // t1 is t0 after `record_migration_start`
        t1.len() > 0,
        spec_start_row(t1.last(), m),
        t1.drop_last() == t0,
        // t2 is t1 after `record_migration_failure`
        t2 == t1.map_values(mark_fn(spec_identifier(m), elapsed, false)),
    ensures
        !spec_is_applied(t2, v),
        v > 0 ==> !spec_filter(t2, success_versioned_fn()).map_values(row_version_fn()).contains(
            v,
        ),
        v > 0 ==> !spec_sort(
            spec_filter(t2, success_versioned_fn()).map_values(row_version_fn()),
            u32_le_fn(),
        ).contains(v),
{
    let f = mark_fn(spec_identifier(m), elapsed, false);
    assert forall|i: int| 0 <= i < t2.len() implies !spec_success_row(#[trigger] t2[i], v) by {
        assert(t2[i] == f(t1[i]));
        if i < t1.len() - 1 {
            assert(t1[i] == t0[i]);
            assert(!spec_success_row(t0[i], v));
        }
    }
    if v > 0 {
        lemma_versions_exclude_unapplied(t2, v);
    }
}

/// A version with no successful record does not appear among the applied
/// versions — neither in the selected rows nor in the sorted list the
/// store reports (for a positive version; rows without a version report
/// zero).
pub proof fn lemma_versions_exclude_unapplied(rows: Seq<AppliedMigration>, v: u32)
    requires
        !spec_is_applied(rows, v),
        v > 0,
    ensures
        !spec_filter(rows, success_versioned_fn()).map_values(row_version_fn()).contains(v),
        !spec_sort(
            spec_filter(rows, success_versioned_fn()).map_values(row_version_fn()),
            u32_le_fn(),
        ).contains(v),
{
    broadcast use vstd::seq_lib::group_to_multiset_ensures;

    let filtered = spec_filter(rows, success_versioned_fn());
    let mapped = filtered.map_values(row_version_fn());
    crate::sorting::lemma_filter_properties(rows, success_versioned_fn());
    if mapped.contains(v) {
        let i = choose|i: int| 0 <= i < mapped.len() && mapped[i] == v;
        let row = filtered[i];
        assert(success_versioned_fn()(row) && rows.contains(row));
        assert(row_version_fn()(row) == v);
        assert(row.version == Some(v)) by {
            if row.version is None {
                assert(row_version_fn()(row) == 0);
            }
        }
        let k = choose|k: int| 0 <= k < rows.len() && rows[k] == row;
        assert(spec_success_row(rows[k], v));
    }
    let sorted = spec_sort(mapped, u32_le_fn());
    assert(!sorted.contains(v)) by {
        crate::sorting::lemma_sort_properties(mapped, u32_le_fn());
        if sorted.contains(v) {
            assert(sorted.to_multiset().count(v) > 0);
            assert(mapped.to_multiset().count(v) > 0);
            assert(mapped.contains(v));
        }
    }
}

/// Rows that contradict a baseline at `version`, as a function value: a
/// baseline must not claim ground that real history already covers.
pub open spec fn baseline_conflict_fn(version: u32) -> spec_fn(AppliedMigration) -> bool {
    |row: AppliedMigration|
        match row.version {
            Some(v) => v >= version,
            None => false,
        }
}

/// The applied rows whose version lies at or above a requested baseline:
/// where any exist, the baseline must be refused.
#[verifier::loop_isolation(false)]
pub fn baseline_conflicts(applied: &Vec<AppliedMigration>, version: u32) -> (r: Vec<
    AppliedMigration,
>)
    ensures
        r@ == spec_filter(applied@, baseline_conflict_fn(version)),
{
    let ghost keep = baseline_conflict_fn(version);
    let mut out: Vec<AppliedMigration> = Vec::new();
    let mut i: usize = 0;
    while i < applied.len()
        invariant
            0 <= i <= applied.len(),
            out@ == spec_filter(applied@.take(i as int), keep),
        decreases applied.len() - i,
    {
        proof {
            assert(applied@.take(i + 1).drop_last() =~= applied@.take(i as int));
            assert(applied@.take(i + 1).last() == applied@[i as int]);
        }
        let row = &applied[i];
        let conflicts = match row.version {
            Some(v) => v >= version,
            None => false,
        };
        if conflicts {
            let row = row.clone();
            out.push(row);
        }
        i = i + 1;
    }
    proof {
        assert(applied@.take(applied@.len() as int) =~= applied@);
    }
    out
}

/// The provisional row written by `record_migration_start`.
pub open spec fn spec_start_row(row: AppliedMigration, m: Migration) -> bool {
    &&& row.migration_id@ == spec_identifier(m)
    &&& row.migration_type == m.migration_type
    &&& row.version == m.version
    &&& row.filename@ == spec_filename(m)
    &&& row.checksum@ == m.checksum@
    &&& row.applied_at@ == Seq::<char>::empty()
    &&& row.execution_time_ms == 0
    &&& row.success == false
}

/// Keeps rows whose identifier is not `id`, as a function value.
pub open spec fn keep_other_id_fn(id: Seq<char>) -> spec_fn(AppliedMigration) -> bool {
    |row: AppliedMigration| row.migration_id@ != id
}

/// Keeps rows that are not the versioned record of `version`, as a
/// function value.
pub open spec fn keep_other_version_fn(version: u32) -> spec_fn(AppliedMigration) -> bool {
    |row: AppliedMigration|
        !(row.migration_type == MigrationType::Versioned && row.version == Some(version))
}

/// The pending test over a table and baseline, as a function value.
pub open spec fn pending_fn(rows: Seq<AppliedMigration>, baseline: Option<u32>) -> spec_fn(
    Migration,
) -> bool {
    |m: Migration| spec_is_pending(rows, baseline, m)
}

/// The row update made by a success or failure record, as a function
/// value: rows under `id` get the elapsed time and the outcome.
pub open spec fn mark_fn(id: Seq<char>, t: i32, success: bool) -> spec_fn(AppliedMigration) -> AppliedMigration {
    |row: AppliedMigration|
        if row.migration_id@ == id {
            AppliedMigration {
                migration_id: row.migration_id,
                migration_type: row.migration_type,
                version: row.version,
                filename: row.filename,
                checksum: row.checksum,
                applied_at: row.applied_at,
                execution_time_ms: t,
                success,
            }
        } else {
            row
        }
}

/// The bookkeeping text for a migration kind.
pub open spec fn spec_type_str(t: MigrationType) -> Seq<char> {
    match t {
        MigrationType::Versioned => "versioned"@,
        MigrationType::Repeatable => "repeatable"@,
    }
}

/// The insert written by `record_migration_start`: parameters carry every
/// text value; the version is rendered as digits or NULL.
pub open spec fn spec_insert_start_sql(m: Migration) -> Seq<char> {
    "INSERT INTO schema_migrations (migration_id, migration_type, version, filename, checksum, applied_at, execution_time_ms, success) VALUES (?, ?, "@
        + (match m.version {
        Some(v) => spec_dec(v as nat),
        None => "NULL"@,
    }) + ", ?, ?, CURRENT_TIMESTAMP, 0, 0)"@
}

/// The statements `record_migration_start` hands back: for a repeatable
/// migration a delete of the old row, then the insert; otherwise the
/// insert alone.
pub open spec fn spec_start_stmts(stmts: Seq<(String, Vec<String>)>, m: Migration) -> bool {
    &&& stmts.len() == if m.migration_type == MigrationType::Repeatable {
        2int
    } else {
        1int
    }
    &&& (stmts.last().0)@ == spec_insert_start_sql(m)
    &&& spec_views(stmts.last().1@) == seq![
        spec_identifier(m),
        spec_type_str(m.migration_type),
        spec_filename(m),
        m.checksum@,
    ]
    &&& (m.migration_type == MigrationType::Repeatable ==> (stmts[0].0)@
        == "DELETE FROM schema_migrations WHERE migration_id = ?"@ && spec_views(stmts[0].1@)
        == seq![spec_identifier(m)])
}

/// The update written by a success or failure record.
pub open spec fn spec_update_sql(t: i32, success: bool) -> Seq<char> {
    "UPDATE schema_migrations SET execution_time_ms = "@ + spec_dec_i32(t) + (if success {
        ", success = 1, applied_at = CURRENT_TIMESTAMP WHERE migration_id = ?"@
    } else {
        ", success = 0 WHERE migration_id = ?"@
    })
}

/// The delete written by `remove_migration`.
pub open spec fn spec_remove_sql(version: u32) -> Seq<char> {
    "DELETE FROM schema_migrations WHERE migration_type = 'versioned' AND version = "@ + spec_dec(
        version as nat,
    )
}

/// The insert written by `create_baseline`.
pub open spec fn spec_baseline_sql(version: u32) -> Seq<char> {
    "INSERT INTO schema_migrations (migration_id, migration_type, version, filename, checksum, applied_at, execution_time_ms, success) VALUES (?, 'versioned', "@
        + spec_dec(version as nat) + ", ?, 'baseline', CURRENT_TIMESTAMP, 0, 1)"@
}

fn insert_start_statement(migration: &Migration, id: &String) -> (stmt: (String, Vec<String>))
    requires
        id@ == spec_identifier(*migration),
    ensures
        (stmt.0)@ == spec_insert_start_sql(*migration),
        spec_views(stmt.1@) == seq![
            spec_identifier(*migration),
            spec_type_str(migration.migration_type),
            spec_filename(*migration),
            migration.checksum@,
        ],
{
    let mut sql = String::from_str(
        "INSERT INTO schema_migrations (migration_id, migration_type, version, filename, checksum, applied_at, execution_time_ms, success) VALUES (?, ?, ",
    );
    match migration.version {
        Some(v) => sql.append(u32_to_string(v).as_str()),
        None => sql.append("NULL"),
    }
    sql.append(", ?, ?, CURRENT_TIMESTAMP, 0, 0)");
    let type_str = if migration.is_repeatable() {
        String::from_str("repeatable")
    } else {
        String::from_str("versioned")
    };
    let mut params: Vec<String> = Vec::new();
    params.push(id.clone());
    params.push(type_str);
    params.push(migration.filename());
    params.push(migration.checksum.clone());
    proof {
        assert(spec_views(params@) =~= seq![
            spec_identifier(*migration),
            spec_type_str(migration.migration_type),
            spec_filename(*migration),
            migration.checksum@,
        ]);
    }
    (sql, params)
}

fn update_statement(id: &String, t: i32, success: bool) -> (stmt: (String, Vec<String>))
    ensures
        (stmt.0)@ == spec_update_sql(t, success),
        spec_views(stmt.1@) == seq![id@],
{
    let mut sql = String::from_str("UPDATE schema_migrations SET execution_time_ms = ");
    sql.append(crate::text::i32_to_string(t).as_str());
    if success {
        sql.append(", success = 1, applied_at = CURRENT_TIMESTAMP WHERE migration_id = ?");
    } else {
        sql.append(", success = 0 WHERE migration_id = ?");
    }
    let mut params: Vec<String> = Vec::new();
    params.push(id.clone());
    proof {
        assert(spec_views(params@) =~= seq![id@]);
    }
    (sql, params)
}

/// Whether a raw result row reads as the text `true`: the accepted
/// spellings, compared without regard to ASCII case.
pub open spec fn spec_parse_bool(s: Seq<char>) -> bool {
    ||| spec_lower(s) == spec_lower("true"@)
    ||| spec_lower(s) == spec_lower("1"@)
    ||| spec_lower(s) == spec_lower("t"@)
    ||| spec_lower(s) == spec_lower("yes"@)
    ||| spec_lower(s) == spec_lower("y"@)
}

/// The record decoded from one raw result row of at least eight columns.
pub open spec fn spec_decode_row(r: Seq<String>) -> AppliedMigration {
    let repeatable = r[1]@ == "repeatable"@;
    AppliedMigration {
        migration_id: r[0],
        migration_type: if repeatable {
            MigrationType::Repeatable
        } else {
            MigrationType::Versioned
        },
        version: if repeatable {
            None
        } else {
            Some(spec_parse_u32_or_zero(r[2]@))
        },
        filename: r[3],
        checksum: r[4],
        applied_at: r[5],
        execution_time_ms: spec_parse_i32_or_zero(r[6]@),
        success: spec_parse_bool(r[7]@),
    }
}

/// Whether a raw row is a baseline marker.
pub open spec fn spec_is_baseline_row(r: Seq<String>) -> bool {
    r.len() >= 8 && spec_starts_with(r[0]@, "baseline_"@)
}

/// The records decoded from raw result rows, markers and short rows
/// skipped.
pub open spec fn spec_decoded_rows(raw: Seq<Vec<String>>) -> Seq<AppliedMigration>
    decreases raw.len(),
{
    if raw.len() == 0 {
        Seq::empty()
    } else {
        let init = spec_decoded_rows(raw.drop_last());
        let last = raw.last()@;
        if last.len() >= 8 && !spec_is_baseline_row(last) {
            init.push(spec_decode_row(last))
        } else {
            init
        }
    }
}

/// The highest baseline-marker version among raw result rows, if any.
pub open spec fn spec_decoded_baseline(raw: Seq<Vec<String>>) -> Option<u32>
    decreases raw.len(),
{
    if raw.len() == 0 {
        None
    } else {
        let init = spec_decoded_baseline(raw.drop_last());
        let last = raw.last()@;
        if spec_is_baseline_row(last) {
            let v = spec_parse_u32_or_zero(last[2]@);
            match init {
                Some(b) => if v > b {
                    Some(v)
                } else {
                    Some(b)
                },
                None => Some(v),
            }
        } else {
            init
        }
    }
}

fn decode_row(row: &Vec<String>) -> (r: AppliedMigration)
    requires
        row@.len() >= 8,
    ensures
        r == spec_decode_row(row@),
{
    let repeatable = str_eq(row[1].as_str(), "repeatable");
    AppliedMigration {
        migration_id: row[0].clone(),
        migration_type: if repeatable {
            MigrationType::Repeatable
        } else {
            MigrationType::Versioned
        },
        version: if repeatable {
            None
        } else {
            Some(parse_u32_or_zero(row[2].as_str()))
        },
        filename: row[3].clone(),
        checksum: row[4].clone(),
        applied_at: row[5].clone(),
        execution_time_ms: parse_i32_or_zero(row[6].as_str()),
        success: parse_bool(row[7].as_str()),
    }
}

/// Reads a stored boolean column, accepting the common spellings.
fn parse_bool(s: &str) -> (r: bool)
    ensures
        r == spec_parse_bool(s@),
{
    str_eq_ci(s, "true") || str_eq_ci(s, "1") || str_eq_ci(s, "t") || str_eq_ci(s, "yes")
        || str_eq_ci(s, "y")
}

/// The query that reads the whole bookkeeping table, versioned rows first
/// in version order, file name as tie breaker.
pub fn applied_rows_query() -> (r: &'static str) {
    "SELECT migration_id, migration_type, version, filename, checksum, applied_at, execution_time_ms, success FROM schema_migrations ORDER BY CASE WHEN migration_type = 'versioned' THEN 0 ELSE 1 END, CASE WHEN migration_type = 'versioned' THEN version ELSE 0 END, filename"
}

} // verus!
