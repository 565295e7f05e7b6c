//! Rollback planning: from the recorded history and a strategy, the ordered
//! list of migrations to reverse, newest first, and the up-front validation
//! that each has reverse SQL on disk. Executing the reverse SQL is
//! connection work and stays outside the library.
use crate::model::migration::{spec_has_rollback, Migration};
use crate::model::MigrationType;
use crate::sorting::{spec_filter, spec_insert_sorted, spec_sort};
use crate::text::{spec_dec, u32_to_string};
use crate::tracker::version_store::AppliedMigration;
use vstd::prelude::*;
use vstd::string::*;

verus! {

/// What can go wrong while planning or running a rollback.
#[derive(Debug)]
pub enum RollbackError {
    /// The database could not be reached or a statement failed.
    Connection(String),
    /// Another migration-level fault, in words.
    Migration(String),
    NoMigrationsToRollback,
    /// The named file carries no reverse SQL.
    NoRollbackSql(String),
    /// `ToVersion` selected nothing: no applied versioned migration lies
    /// above the target.
    InvalidTargetVersion(u32),
    /// The operator declined the confirmation gate.
    Cancelled,
    /// The named repeatable migration has no notion of undo.
    RepeatableMigrationRollback(String),
}

impl RollbackError {
    /// The human-readable text of this error.
    pub fn message(&self) -> (r: String)
        ensures
            (self matches RollbackError::Connection(s) ==> r@ == "Connection error: "@ + s@),
            (self matches RollbackError::Migration(s) ==> r@ == "Migration error: "@ + s@),
            (self is NoMigrationsToRollback ==> r@ == "No migrations to roll back"@),
            (self matches RollbackError::NoRollbackSql(f) ==> r@ == "Migration "@ + f@
                + " cannot be rolled back: no rollback SQL found"@),
            (self matches RollbackError::InvalidTargetVersion(v) ==> r@
                == "Cannot rollback to version "@ + spec_dec(v as nat)
                + ": migration not found or not applied"@),
            (self is Cancelled ==> r@ == "Rollback cancelled by user"@),
            (self matches RollbackError::RepeatableMigrationRollback(s) ==> r@
                == "Repeatable migration "@ + s@ + " cannot be rolled back"@),
    {
        match self {
            RollbackError::Connection(s) => {
                let mut t = String::from_str("Connection error: ");
                t.append(s.as_str());
                proof {
                    assert(t@ =~= "Connection error: "@ + s@);
                }
                t
            },
            RollbackError::Migration(s) => {
                let mut t = String::from_str("Migration error: ");
                t.append(s.as_str());
                proof {
                    assert(t@ =~= "Migration error: "@ + s@);
                }
                t
            },
            RollbackError::NoMigrationsToRollback => String::from_str(
                "No migrations to roll back",
            ),
            RollbackError::NoRollbackSql(f) => {
                let mut t = String::from_str("Migration ");
                t.append(f.as_str());
                t.append(" cannot be rolled back: no rollback SQL found");
                proof {
                    assert(t@ =~= "Migration "@ + f@
                        + " cannot be rolled back: no rollback SQL found"@);
                }
                t
            },
            RollbackError::InvalidTargetVersion(v) => {
                let mut t = String::from_str("Cannot rollback to version ");
                t.append(u32_to_string(*v).as_str());
                t.append(": migration not found or not applied");
                proof {
                    assert(t@ =~= "Cannot rollback to version "@ + spec_dec(*v as nat)
                        + ": migration not found or not applied"@);
                }
                t
            },
            RollbackError::Cancelled => String::from_str("Rollback cancelled by user"),
            RollbackError::RepeatableMigrationRollback(s) => {
                let mut t = String::from_str("Repeatable migration ");
                t.append(s.as_str());
                t.append(" cannot be rolled back");
                proof {
                    assert(t@ =~= "Repeatable migration "@ + s@ + " cannot be rolled back"@);
                }
                t
            },
        }
    }
}

/// How far to roll back: the N most recently applied versioned migrations,
/// or everything strictly above a target version.
#[derive(Debug, Clone, Copy, PartialEq, Eq, Structural)]
pub enum RollbackStrategy {
    Steps(u32),
    ToVersion(u32),
}

/// The ordered (newest-first) records a strategy selected, with the
/// strategy itself and a count; built once per invocation, immutable
/// thereafter.
#[derive(Debug)]
pub struct RollbackPlan {
    pub migrations_to_rollback: Vec<AppliedMigration>,
    pub strategy: RollbackStrategy,
    pub total_migrations: usize,
}

/// The rows a rollback may touch, as a function value: versioned and
/// successful; repeatables have no undo, and failed attempts were never in
/// effect.
pub open spec fn rollback_candidate_fn() -> spec_fn(AppliedMigration) -> bool {
    |row: AppliedMigration|
        row.migration_type == MigrationType::Versioned && row.success
}

/// The version a row carries, zero where there is none.
pub open spec fn spec_row_version(row: AppliedMigration) -> u32 {
    match row.version {
        Some(v) => v,
        None => 0u32,
    }
}

/// Newest-first order on rows, as a function value.
pub open spec fn version_desc_fn() -> spec_fn(AppliedMigration, AppliedMigration) -> bool {
    |a: AppliedMigration, b: AppliedMigration| spec_row_version(a) >= spec_row_version(b)
}

/// The candidate rows of a history, newest first: versioned and successful,
/// sorted descending by version.
pub open spec fn spec_rollback_candidates(applied: Seq<AppliedMigration>) -> Seq<AppliedMigration> {
    spec_sort(spec_filter(applied, rollback_candidate_fn()), version_desc_fn())
}

/// The prefix of a newest-first row list lying strictly above `target`.
pub open spec fn spec_take_above(s: Seq<AppliedMigration>, target: u32) -> Seq<AppliedMigration>
    decreases s.len(),
{
    if s.len() == 0 {
        Seq::empty()
    } else if spec_row_version(s.first()) > target {
        seq![s.first()] + spec_take_above(s.drop_first(), target)
    } else {
        Seq::empty()
    }
}

fn row_version(row: &AppliedMigration) -> (r: u32)
    ensures
        r == spec_row_version(*row),
{
    match row.version {
        Some(v) => v,
        None => 0,
    }
}

/// Inserts a row into an already newest-first-ordered vector.
#[verifier::loop_isolation(false)]
fn insert_desc_sorted(v: Vec<AppliedMigration>, x: AppliedMigration) -> (r: Vec<AppliedMigration>)
    ensures
        r@ == spec_insert_sorted(x, v@, version_desc_fn()),
{
    let ghost leq = version_desc_fn();
    let mut v = v;
    let mut i: usize = 0;
    proof {
        assert(v@.skip(0) =~= v@);
        assert(v@.take(0) + spec_insert_sorted(x, v@, leq) =~= spec_insert_sorted(x, v@, leq));
    }
    while i < v.len() && row_version(&v[i]) >= row_version(&x)
        invariant
            0 <= i <= v.len(),
            spec_insert_sorted(x, v@, leq) == v@.take(i as int) + spec_insert_sorted(
                x,
                v@.skip(i as int),
                leq,
            ),
        decreases v.len() - i,
    {
        proof {
            let rest = v@.skip(i as int);
            assert(rest.first() == v@[i as int]);
            assert(rest.drop_first() =~= v@.skip(i + 1));
            assert(v@.take(i + 1) + spec_insert_sorted(x, v@.skip(i + 1), leq) =~= v@.take(i as int)
                + (seq![rest.first()] + spec_insert_sorted(x, rest.drop_first(), leq)));
        }
        i = i + 1;
    }
    let ghost prev = v@;
    proof {
        let rest = prev.skip(i as int);
        if i < prev.len() {
            assert(rest.first() == prev[i as int]);
            assert(spec_insert_sorted(x, rest, leq) == seq![x] + rest);
        } else {
            assert(rest =~= Seq::<AppliedMigration>::empty());
            assert(spec_insert_sorted(x, rest, leq) == seq![x]);
            assert(seq![x] =~= seq![x] + rest);
        }
    }
    v.insert(i, x);
    proof {
        assert(v@ =~= prev.take(i as int) + (seq![x] + prev.skip(i as int)));
    }
    v
}

/// Computes the rollback plan for a strategy over the applied history.
/// `Steps(n)` takes the `n` newest candidates, or all of them where fewer
/// exist (a benign clamp). `ToVersion(v)` takes every candidate strictly
/// above `v` and fails with an invalid-target error where that selects
/// nothing; an empty selection is not an error under `Steps`.
#[verifier::loop_isolation(false)]
pub fn create_rollback_plan(
    applied_migrations: &Vec<AppliedMigration>,
    strategy: &RollbackStrategy,
) -> (r: Result<RollbackPlan, RollbackError>)
    ensures
        (*strategy matches RollbackStrategy::Steps(n) ==> r matches Ok(plan)
            && plan.migrations_to_rollback@ == spec_rollback_candidates(applied_migrations@).take(
            if n as int <= spec_rollback_candidates(applied_migrations@).len() {
                n as int
            } else {
                spec_rollback_candidates(applied_migrations@).len() as int
            },
        ) && plan.strategy == *strategy && plan.total_migrations
            == plan.migrations_to_rollback@.len()),
        (*strategy matches RollbackStrategy::ToVersion(v) ==> {
            let selected = spec_take_above(spec_rollback_candidates(applied_migrations@), v);
            if selected.len() == 0 {
                r == Result::<RollbackPlan, RollbackError>::Err(
                    RollbackError::InvalidTargetVersion(v),
                )
            } else {
                r matches Ok(plan) && plan.migrations_to_rollback@ == selected && plan.strategy
                    == *strategy && plan.total_migrations == selected.len()
            }
        }),
{
    let ghost keep = rollback_candidate_fn();
    let ghost leq = version_desc_fn();
    // the candidates: versioned and successful only
    let mut filtered: Vec<AppliedMigration> = Vec::new();
    let mut i: usize = 0;
    while i < applied_migrations.len()
        invariant
            0 <= i <= applied_migrations.len(),
            filtered@ == spec_filter(applied_migrations@.take(i as int), keep),
        decreases applied_migrations.len() - i,
    {
        proof {
            assert(applied_migrations@.take(i + 1).drop_last() =~= applied_migrations@.take(
                i as int,
            ));
            assert(applied_migrations@.take(i + 1).last() == applied_migrations@[i as int]);
        }
        let row = &applied_migrations[i];
        if row.migration_type == MigrationType::Versioned && row.success {
            filtered.push(row.clone());
        }
        i = i + 1;
    }
    proof {
        assert(applied_migrations@.take(applied_migrations@.len() as int)
            =~= applied_migrations@);
    }
    // newest first
    let mut sorted: Vec<AppliedMigration> = Vec::new();
    let mut i: usize = 0;
    while i < filtered.len()
        invariant
            0 <= i <= filtered.len(),
            sorted@ == spec_sort(filtered@.take(i as int), leq),
        decreases filtered.len() - i,
    {
        let row = filtered[i].clone();
        proof {
            assert(filtered@.take(i + 1).drop_last() =~= filtered@.take(i as int));
            assert(filtered@.take(i + 1).last() == filtered@[i as int]);
        }
        sorted = insert_desc_sorted(sorted, row);
        i = i + 1;
    }
    proof {
        assert(filtered@.take(filtered@.len() as int) =~= filtered@);
    }
    let ghost candidates = spec_rollback_candidates(applied_migrations@);
    proof {
        assert(sorted@ == candidates);
    }

    match strategy {
        RollbackStrategy::Steps(steps) => {
            let n: usize = if (*steps as usize) <= sorted.len() {
                *steps as usize
            } else {
                sorted.len()
            };
            let mut selected: Vec<AppliedMigration> = Vec::new();
            let mut k: usize = 0;
            while k < n
                invariant
                    0 <= k <= n <= sorted.len(),
                    selected@ == sorted@.take(k as int),
                decreases n - k,
            {
                let row = sorted[k].clone();
                selected.push(row);
                proof {
                    assert(selected@ =~= sorted@.take(k + 1));
                }
                k = k + 1;
            }
            let total = selected.len();
            Ok(RollbackPlan { migrations_to_rollback: selected, strategy: *strategy, total_migrations: total })
        },
        RollbackStrategy::ToVersion(target_version) => {
            let mut selected: Vec<AppliedMigration> = Vec::new();
            let mut k: usize = 0;
            proof {
                assert(sorted@.skip(0) =~= sorted@);
                assert(selected@ + spec_take_above(sorted@, *target_version) =~= spec_take_above(
                    sorted@,
                    *target_version,
                ));
            }
            while k < sorted.len()
                invariant
                    0 <= k <= sorted.len(),
                    selected@.len() == k,
                    spec_take_above(sorted@, *target_version) == selected@ + spec_take_above(
                        sorted@.skip(k as int),
                        *target_version,
                    ),
                    forall|p: int|
                        0 <= p < k ==> spec_row_version(#[trigger] selected@[p]) > *target_version,
                decreases sorted.len() - k,
            {
                let row = &sorted[k];
                proof {
                    assert(sorted@.skip(k as int).first() == sorted@[k as int]);
                    assert(sorted@.skip(k as int).drop_first() =~= sorted@.skip(k + 1));
                }
                if row_version(row) > *target_version {
                    let row = row.clone();
                    selected.push(row);
                    proof {
                        assert(selected@ + spec_take_above(sorted@.skip(k + 1), *target_version)
                            =~= selected@.drop_last() + (seq![sorted@[k as int]]
                            + spec_take_above(sorted@.skip(k + 1), *target_version)));
                    }
                } else {
                    proof {
                        assert(spec_take_above(sorted@.skip(k as int), *target_version)
                            =~= Seq::<AppliedMigration>::empty());
                        assert(selected@ + spec_take_above(sorted@.skip(k as int), *target_version)
                            =~= selected@);
                    }
                    break;
                }
                k = k + 1;
            }
            proof {
                if k == sorted@.len() {
                    assert(sorted@.skip(k as int) =~= Seq::<AppliedMigration>::empty());
                    assert(selected@ + spec_take_above(sorted@.skip(k as int), *target_version)
                        =~= selected@);
                }
            }
            if selected.len() == 0 {
                Err(RollbackError::InvalidTargetVersion(*target_version))
            } else {
                let total = selected.len();
                Ok(RollbackPlan { migrations_to_rollback: selected, strategy: *strategy, total_migrations: total })
            }
        },
    }
}

/// What up-front validation finds wrong with one plan entry.
pub ghost enum PlanIssue {
    /// No migration file carries this version.
    FileNotFound(u32),
    /// The file exists but has no reverse SQL; the stored file name.
    MissingRollbackSql(Seq<char>),
}

/// The first migration carrying version `v`, if any.
pub open spec fn spec_find_migration_by_version(migs: Seq<Migration>, v: u32) -> Option<Migration>
    decreases migs.len(),
{
    if migs.len() == 0 {
        None
    } else if migs.first().version == Some(v) {
        Some(migs.first())
    } else {
        spec_find_migration_by_version(migs.drop_first(), v)
    }
}

/// The first problem validation meets walking the plan in order: a row
/// whose version has no file, or whose file has no reverse SQL. Rows
/// without a version are passed over.
pub open spec fn spec_plan_issue(rows: Seq<AppliedMigration>, migs: Seq<Migration>) -> Option<
    PlanIssue,
>
    decreases rows.len(),
{
    if rows.len() == 0 {
        None
    } else {
        match rows.first().version {
            None => spec_plan_issue(rows.drop_first(), migs),
            Some(v) => match spec_find_migration_by_version(migs, v) {
                None => Some(PlanIssue::FileNotFound(v)),
                Some(m) => if !spec_has_rollback(m) {
                    Some(PlanIssue::MissingRollbackSql(rows.first().filename@))
                } else {
                    spec_plan_issue(rows.drop_first(), migs)
                },
            },
        }
    }
}

/// Finds the first loaded migration carrying version `v`.
#[verifier::loop_isolation(false)]
pub fn find_migration_by_version<'a>(migrations: &'a Vec<Migration>, v: u32) -> (r: Option<
    &'a Migration,
>)
    ensures
        match r {
            Some(m) => spec_find_migration_by_version(migrations@, v) == Some(*m),
            None => spec_find_migration_by_version(migrations@, v) is None,
        },
{
    let mut j: usize = 0;
    proof {
        assert(migrations@.skip(0) =~= migrations@);
    }
    while j < migrations.len()
        invariant
            0 <= j <= migrations.len(),
            spec_find_migration_by_version(migrations@, v) == spec_find_migration_by_version(
                migrations@.skip(j as int),
                v,
            ),
        decreases migrations.len() - j,
    {
        proof {
            assert(migrations@.skip(j as int).first() == migrations@[j as int]);
            assert(migrations@.skip(j as int).drop_first() =~= migrations@.skip(j + 1));
        }
        let m = &migrations[j];
        let matches_v = match m.version {
            Some(mv) => mv == v,
            None => false,
        };
        if matches_v {
            return Some(m);
        }
        j = j + 1;
    }
    None
}

/// Validates the whole plan up front: every targeted record must have a
/// loaded migration file carrying its version, and that file non-empty
/// reverse SQL. Walks the plan in order and reports the first offense.
#[verifier::loop_isolation(false)]
pub fn validate_rollback_plan(plan: &RollbackPlan, migrations: &Vec<Migration>) -> (r: Result<
    (),
    RollbackError,
>)
    ensures
        r is Ok <==> spec_plan_issue(plan.migrations_to_rollback@, migrations@) is None,
        (spec_plan_issue(plan.migrations_to_rollback@, migrations@) matches Some(
            PlanIssue::FileNotFound(v),
        ) ==> r matches Err(e) && e matches RollbackError::Migration(msg) && msg@
            == "Migration file not found for version "@ + spec_dec(v as nat)),
        (spec_plan_issue(plan.migrations_to_rollback@, migrations@) matches Some(
            PlanIssue::MissingRollbackSql(f),
        ) ==> r matches Err(e) && e matches RollbackError::NoRollbackSql(s) && s@ == f),
{
    let rows = &plan.migrations_to_rollback;
    let mut i: usize = 0;
    proof {
        assert(rows@.skip(0) =~= rows@);
    }
    while i < rows.len()
        invariant
            0 <= i <= rows.len(),
            spec_plan_issue(rows@, migrations@) == spec_plan_issue(
                rows@.skip(i as int),
                migrations@,
            ),
        decreases rows.len() - i,
    {
        proof {
            assert(rows@.skip(i as int).first() == rows@[i as int]);
            assert(rows@.skip(i as int).drop_first() =~= rows@.skip(i + 1));
        }
        let applied = &rows[i];
        match applied.version {
            Some(version) => {
                match find_migration_by_version(migrations, version) {
                    Some(migration) => {
                        if !migration.has_rollback() {
                            return Err(RollbackError::NoRollbackSql(applied.filename.clone()));
                        }
                    },
                    None => {
                        let mut msg = String::from_str(
                            "Migration file not found for version ",
                        );
                        msg.append(u32_to_string(version).as_str());
                        proof {
                            assert(msg@ =~= "Migration file not found for version "@ + spec_dec(
                                version as nat,
                            ));
                        }
                        return Err(RollbackError::Migration(msg));
                    },
                }
            },
            None => {},
        }
        i = i + 1;
    }
    proof {
        assert(rows@.skip(rows@.len() as int) =~= Seq::<AppliedMigration>::empty());
    }
    Ok(())
}

} // verus!
