//! The validate operation's computing core: holding the loaded files
//! against the bookkeeping table — checksum drift, failed attempts, and
//! orphaned records. Connecting and display are the caller's.
use crate::model::migration::{spec_filename, spec_identifier, Migration};
use crate::text::{spec_views, str_eq};
use crate::tracker::version_store::{spec_any_checksum, AppliedMigration, VersionStore};
use vstd::prelude::*;
use vstd::string::*;

verus! {

/// The first row of the table carrying `id`, if any.
pub open spec fn spec_find_row(rows: Seq<AppliedMigration>, id: Seq<char>) -> Option<
    AppliedMigration,
>
    decreases rows.len(),
{
    if rows.len() == 0 {
        None
    } else if rows.first().migration_id@ == id {
        Some(rows.first())
    } else {
        spec_find_row(rows.drop_first(), id)
    }
}

/// A found row carries the identifier it was found under.
pub proof fn lemma_find_row_id(rows: Seq<AppliedMigration>, id: Seq<char>)
    ensures
        spec_find_row(rows, id) matches Some(row) ==> row.migration_id@ == id,
    decreases rows.len(),
{
    if rows.len() > 0 && rows.first().migration_id@ != id {
        lemma_find_row_id(rows.drop_first(), id);
    }
}

/// The checksum drift text.
pub open spec fn spec_mismatch_msg(
    filename: Seq<char>,
    stored: Seq<char>,
    current: Seq<char>,
) -> Seq<char> {
    "Checksum mismatch for "@ + filename + ": stored="@ + stored + ", current="@ + current
}

/// The failed-attempt text.
pub open spec fn spec_failed_msg(filename: Seq<char>) -> Seq<char> {
    "Migration "@ + filename + " failed during application"@
}

/// The orphaned-record text.
pub open spec fn spec_orphan_msg(filename: Seq<char>) -> Seq<char> {
    "Migration "@ + filename + " exists in database but corresponding file not found"@
}

/// The stored checksum held against a file: the first checksum recorded
/// under the identifier, or the found row's own where none reads.
pub open spec fn spec_stored_checksum(rows: Seq<AppliedMigration>, row: AppliedMigration) -> Seq<
    char,
> {
    match spec_any_checksum(rows, row.migration_id@) {
        Some(stored) => stored,
        None => row.checksum@,
    }
}

/// The errors for one migration: a drift message where either the found
/// row's checksum or the stored one differs from the file's, and a failure
/// message where the attempt did not succeed. A file with no record is
/// merely pending, never an error.
pub open spec fn spec_file_errors(rows: Seq<AppliedMigration>, m: Migration) -> Seq<Seq<char>> {
    match spec_find_row(rows, spec_identifier(m)) {
        None => Seq::empty(),
        Some(row) => (if row.checksum@ != m.checksum@ || spec_stored_checksum(rows, row)
            != m.checksum@ {
            seq![
                spec_mismatch_msg(
                    spec_filename(m),
                    spec_stored_checksum(rows, row),
                    m.checksum@,
                ),
            ]
        } else {
            Seq::<Seq<char>>::empty()
        }) + (if !row.success {
            seq![spec_failed_msg(spec_filename(m))]
        } else {
            Seq::<Seq<char>>::empty()
        }),
    }
}

/// The per-file errors, in file order.
pub open spec fn spec_all_file_errors(rows: Seq<AppliedMigration>, migs: Seq<Migration>) -> Seq<
    Seq<char>,
>
    decreases migs.len(),
{
    if migs.len() == 0 {
        Seq::empty()
    } else {
        spec_all_file_errors(rows, migs.drop_last()) + spec_file_errors(rows, migs.last())
    }
}

/// Whether some loaded file carries this identifier.
pub open spec fn spec_has_file(migs: Seq<Migration>, id: Seq<char>) -> bool {
    exists|i: int| 0 <= i < migs.len() && spec_identifier(#[trigger] migs[i]) == id
}

/// The orphan errors, in table order: one per record without a file.
pub open spec fn spec_orphan_errors(rows: Seq<AppliedMigration>, migs: Seq<Migration>) -> Seq<
    Seq<char>,
>
    decreases rows.len(),
{
    if rows.len() == 0 {
        Seq::empty()
    } else {
        spec_orphan_errors(rows.drop_last(), migs) + (if !spec_has_file(
            migs,
            rows.last().migration_id@,
        ) {
            seq![spec_orphan_msg(rows.last().filename@)]
        } else {
            Seq::<Seq<char>>::empty()
        })
    }
}

/// Everything validation reports against the table, in report order.
pub open spec fn spec_validation_errors(
    rows: Seq<AppliedMigration>,
    migs: Seq<Migration>,
) -> Seq<Seq<char>> {
    spec_all_file_errors(rows, migs) + spec_orphan_errors(rows, migs)
}

/// Finds the bookkeeping row recorded under an identifier.
#[verifier::loop_isolation(false)]
pub fn find_applied_row<'a>(rows: &'a Vec<AppliedMigration>, id: &str) -> (r: Option<
    &'a AppliedMigration,
>)
    ensures
        match r {
            Some(row) => spec_find_row(rows@, id@) == Some(*row),
            None => spec_find_row(rows@, id@) is None,
        },
{
    let mut i: usize = 0;
    proof {
        assert(rows@.skip(0) =~= rows@);
    }
    while i < rows.len()
        invariant
            0 <= i <= rows.len(),
            spec_find_row(rows@, id@) == spec_find_row(rows@.skip(i as int), id@),
        decreases rows.len() - i,
    {
        proof {
            assert(rows@.skip(i as int).first() == rows@[i as int]);
            assert(rows@.skip(i as int).drop_first() =~= rows@.skip(i + 1));
        }
        if str_eq(rows[i].migration_id.as_str(), id) {
            return Some(&rows[i]);
        }
        i = i + 1;
    }
    None
}

#[verifier::loop_isolation(false)]
fn has_file_for(migrations: &Vec<Migration>, id: &str) -> (r: bool)
    ensures
        r == spec_has_file(migrations@, id@),
{
    let mut i: usize = 0;
    while i < migrations.len()
        invariant
            0 <= i <= migrations.len(),
            forall|k: int| 0 <= k < i ==> spec_identifier(#[trigger] migrations@[k]) != id@,
        decreases migrations.len() - i,
    {
        let mid = migrations[i].identifier();
        if str_eq(mid.as_str(), id) {
            return true;
        }
        i = i + 1;
    }
    false
}

fn mismatch_msg(filename: &String, stored: &String, current: &String) -> (r: String)
    ensures
        r@ == spec_mismatch_msg(filename@, stored@, current@),
{
    let mut s = String::from_str("Checksum mismatch for ");
    s.append(filename.as_str());
    s.append(": stored=");
    s.append(stored.as_str());
    s.append(", current=");
    s.append(current.as_str());
    proof {
        assert(s@ =~= spec_mismatch_msg(filename@, stored@, current@));
    }
    s
}

fn failed_msg(filename: &String) -> (r: String)
    ensures
        r@ == spec_failed_msg(filename@),
{
    let mut s = String::from_str("Migration ");
    s.append(filename.as_str());
    s.append(" failed during application");
    proof {
        assert(s@ =~= spec_failed_msg(filename@));
    }
    s
}

fn orphan_msg(filename: &String) -> (r: String)
    ensures
        r@ == spec_orphan_msg(filename@),
{
    let mut s = String::from_str("Migration ");
    s.append(filename.as_str());
    s.append(" exists in database but corresponding file not found");
    proof {
        assert(s@ =~= spec_orphan_msg(filename@));
    }
    s
}

/// Holds the loaded files against the bookkeeping table: a drift message
/// for every file whose recorded or stored checksum differs from its
/// current one, a failure message for every recorded failed attempt, and
/// an orphan message for every record without a file. Drift is
/// observational: it is reported here and never blocks an apply.
#[verifier::loop_isolation(false)]
pub fn collect_validation_errors(migrations: &Vec<Migration>, store: &VersionStore) -> (r: Vec<
    String,
>)
    ensures
        spec_views(r@) == spec_validation_errors(store.table(), migrations@),
{
    let rows = store.rows_snapshot();
    let ghost table = store.table();
    let mut errors: Vec<String> = Vec::new();
    let mut i: usize = 0;
    while i < migrations.len()
        invariant
            0 <= i <= migrations.len(),
            rows@ == table,
            table == store.table(),
            spec_views(errors@) == spec_all_file_errors(table, migrations@.take(i as int)),
        decreases migrations.len() - i,
    {
        proof {
            assert(migrations@.take(i + 1).drop_last() =~= migrations@.take(i as int));
            assert(migrations@.take(i + 1).last() == migrations@[i as int]);
        }
        let migration = &migrations[i];
        let id = migration.identifier();
        match find_applied_row(&rows, id.as_str()) {
            Some(row) => {
                proof {
                    assert(spec_find_row(table, spec_identifier(migrations@[i as int])) == Some(
                        *row,
                    ));
                }
                let stored = match store.get_migration_checksum(id.as_str()) {
                    Some(stored) => stored,
                    None => row.checksum.clone(),
                };
                proof {
                    lemma_find_row_id(table, id@);
                    assert(row.migration_id@ == id@);
                    assert(stored@ == spec_stored_checksum(table, *row));
                }
                let ghost before = spec_views(errors@);
                let drift = !str_eq(row.checksum.as_str(), migration.checksum.as_str()) || !str_eq(
                    stored.as_str(),
                    migration.checksum.as_str(),
                );
                if drift {
                    let filename = migration.filename();
                    errors.push(mismatch_msg(&filename, &stored, &migration.checksum));
                    proof {
                        assert(spec_views(errors@) =~= before + seq![
                            spec_mismatch_msg(
                                spec_filename(migrations@[i as int]),
                                spec_stored_checksum(table, *row),
                                migrations@[i as int].checksum@,
                            ),
                        ]);
                    }
                }
                let ghost after_drift = spec_views(errors@);
                if !row.success {
                    let filename = migration.filename();
                    errors.push(failed_msg(&filename));
                    proof {
                        assert(spec_views(errors@) =~= after_drift + seq![
                            spec_failed_msg(spec_filename(migrations@[i as int])),
                        ]);
                    }
                }
                proof {
                    assert(spec_views(errors@) =~= before + spec_file_errors(
                        table,
                        migrations@[i as int],
                    ));
                    assert(spec_views(errors@) =~= spec_all_file_errors(
                        table,
                        migrations@.take(i + 1),
                    ));
                }
            },
            None => {
                proof {
                    assert(spec_file_errors(table, migrations@[i as int])
                        =~= Seq::<Seq<char>>::empty());
                    assert(spec_views(errors@) =~= spec_all_file_errors(
                        table,
                        migrations@.take(i + 1),
                    ));
                }
            },
        }
        i = i + 1;
    }
    proof {
        assert(migrations@.take(migrations@.len() as int) =~= migrations@);
    }
    let ghost after_files = spec_views(errors@);
    let mut i: usize = 0;
    while i < rows.len()
        invariant
            0 <= i <= rows.len(),
            rows@ == table,
            table == store.table(),
            after_files == spec_all_file_errors(table, migrations@),
            spec_views(errors@) == after_files + spec_orphan_errors(
                table.take(i as int),
                migrations@,
            ),
        decreases rows.len() - i,
    {
        proof {
            assert(table.take(i + 1).drop_last() =~= table.take(i as int));
            assert(table.take(i + 1).last() == table[i as int]);
        }
        let row = &rows[i];
        let ghost before = spec_views(errors@);
        if !has_file_for(migrations, row.migration_id.as_str()) {
            errors.push(orphan_msg(&row.filename));
            proof {
                assert(spec_views(errors@) =~= before + seq![
                    spec_orphan_msg(table[i as int].filename@),
                ]);
                assert(spec_views(errors@) =~= (after_files + spec_orphan_errors(
                    table.take(i as int),
                    migrations@,
                )) + seq![spec_orphan_msg(table[i as int].filename@)]);
                assert(spec_views(errors@) =~= after_files + spec_orphan_errors(
                    table.take(i + 1),
                    migrations@,
                ));
            }
        } else {
            proof {
                assert(spec_views(errors@) =~= after_files + spec_orphan_errors(
                    table.take(i + 1),
                    migrations@,
                ));
            }
        }
        i = i + 1;
    }
    proof {
        assert(table.take(table.len() as int) =~= table);
    }
    errors
}

} // verus!
