//! Structural checks over a loaded migration set: version gaps, duplicate
//! versions, duplicate repeatable names. Issues are advisory and returned,
//! never thrown; callers choose whether they are fatal.
use crate::model::migration::{spec_filename, Migration, MigrationType};
use crate::sorting::spec_filter;
use crate::text::{
    spec_dec, spec_views, str_eq, u32_to_string, u64_to_string,
};
use vstd::prelude::*;
use vstd::string::*;

verus! {

/// The versioned-migration test as a function value.
pub open spec fn versioned_fn() -> spec_fn(Migration) -> bool {
    |m: Migration| m.migration_type == MigrationType::Versioned
}

/// The repeatable-migration test as a function value.
pub open spec fn repeatable_fn() -> spec_fn(Migration) -> bool {
    |m: Migration| m.migration_type == MigrationType::Repeatable
}

/// The version a migration carries, zero where there is none.
pub open spec fn spec_version_or_zero(m: Migration) -> u32 {
    match m.version {
        Some(v) => v,
        None => 0u32,
    }
}

/// Whether a migration carries exactly version `n`.
pub open spec fn spec_version_matches(m: Migration, n: int) -> bool {
    match m.version {
        Some(v) => v as int == n,
        None => false,
    }
}

/// The gap-issue text.
pub open spec fn spec_gap_msg(expected: nat, found: nat, filename: Seq<char>) -> Seq<char> {
    "Version gap detected: expected "@ + spec_dec(expected) + ", found "@ + spec_dec(found)
        + " in "@ + filename
}

/// The duplicate-version issue text.
pub open spec fn spec_dup_version_msg(v: nat, filename: Seq<char>) -> Seq<char> {
    "Duplicate version "@ + spec_dec(v) + " found in "@ + filename
}

/// The duplicate-repeatable-name issue text.
pub open spec fn spec_dup_name_msg(name: Seq<char>, filename: Seq<char>) -> Seq<char> {
    "Duplicate repeatable migration name '"@ + name + "' found in "@ + filename
}

/// The gap issues from position `i` on: the migration at each position of
/// the versioned subset must carry exactly position-plus-one as its
/// version.
pub open spec fn spec_gap_issues(vs: Seq<Migration>, i: int) -> Seq<Seq<char>>
    decreases vs.len() - i,
{
    if i < 0 || i >= vs.len() {
        Seq::empty()
    } else {
        (if spec_version_matches(vs[i], i + 1) {
            Seq::<Seq<char>>::empty()
        } else {
            seq![
                spec_gap_msg(
                    (i + 1) as nat,
                    spec_version_or_zero(vs[i]) as nat,
                    spec_filename(vs[i]),
                ),
            ]
        }) + spec_gap_issues(vs, i + 1)
    }
}

/// The duplicate-version issues from position `i` on: one issue per
/// repeated occurrence of a version already seen earlier in the subset.
pub open spec fn spec_dup_version_issues(vs: Seq<Migration>, i: int) -> Seq<Seq<char>>
    decreases vs.len() - i,
{
    if i < 0 || i >= vs.len() {
        Seq::empty()
    } else {
        (if exists|j: int| 0 <= j < i && (#[trigger] vs[j]).version == vs[i].version {
            seq![
                spec_dup_version_msg(spec_version_or_zero(vs[i]) as nat, spec_filename(vs[i])),
            ]
        } else {
            Seq::<Seq<char>>::empty()
        }) + spec_dup_version_issues(vs, i + 1)
    }
}

/// The duplicate-name issues from position `i` on, over the repeatable
/// subset.
pub open spec fn spec_dup_name_issues(rs: Seq<Migration>, i: int) -> Seq<Seq<char>>
    decreases rs.len() - i,
{
    if i < 0 || i >= rs.len() {
        Seq::empty()
    } else {
        (if exists|j: int| 0 <= j < i && (#[trigger] rs[j]).name@ == rs[i].name@ {
            seq![spec_dup_name_msg(rs[i].name@, spec_filename(rs[i]))]
        } else {
            Seq::<Seq<char>>::empty()
        }) + spec_dup_name_issues(rs, i + 1)
    }
}

/// Everything `validate_migration_sequence` reports, in report order.
pub open spec fn spec_sequence_issues(migrations: Seq<Migration>) -> Seq<Seq<char>> {
    let vs = spec_filter(migrations, versioned_fn());
    let rs = spec_filter(migrations, repeatable_fn());
    spec_gap_issues(vs, 0) + spec_dup_version_issues(vs, 0) + spec_dup_name_issues(rs, 0)
}

/// The validator reports zero gap issues exactly when the versioned subset,
/// in its given order, carries the versions one, two, three and so on:
/// position and version agree everywhere.
pub proof fn lemma_no_gap_issues_iff_contiguous(vs: Seq<Migration>, i: int)
    requires
        0 <= i,
    ensures
        spec_gap_issues(vs, i).len() == 0 <==> (forall|j: int|
            i <= j < vs.len() ==> spec_version_matches(#[trigger] vs[j], j + 1)),
    decreases vs.len() - i,
{
    if i < vs.len() {
        lemma_no_gap_issues_iff_contiguous(vs, i + 1);
    }
}

fn opt_u32_eq(a: Option<u32>, b: Option<u32>) -> (r: bool)
    ensures
        r == (a == b),
{
    match (a, b) {
        (Some(x), Some(y)) => x == y,
        (None, None) => true,
        _ => false,
    }
}

fn gap_issue(expected: u64, found: u32, filename: &String) -> (r: String)
    ensures
        r@ == spec_gap_msg(expected as nat, found as nat, filename@),
{
    let mut s = String::from_str("Version gap detected: expected ");
    s.append(u64_to_string(expected).as_str());
    s.append(", found ");
    s.append(u32_to_string(found).as_str());
    s.append(" in ");
    s.append(filename.as_str());
    proof {
        assert(s@ =~= spec_gap_msg(expected as nat, found as nat, filename@));
    }
    s
}

fn dup_version_issue(v: u32, filename: &String) -> (r: String)
    ensures
        r@ == spec_dup_version_msg(v as nat, filename@),
{
    let mut s = String::from_str("Duplicate version ");
    s.append(u32_to_string(v).as_str());
    s.append(" found in ");
    s.append(filename.as_str());
    proof {
        assert(s@ =~= spec_dup_version_msg(v as nat, filename@));
    }
    s
}

fn dup_name_issue(name: &String, filename: &String) -> (r: String)
    ensures
        r@ == spec_dup_name_msg(name@, filename@),
{
    let mut s = String::from_str("Duplicate repeatable migration name '");
    s.append(name.as_str());
    s.append("' found in ");
    s.append(filename.as_str());
    proof {
        assert(s@ =~= spec_dup_name_msg(name@, filename@));
    }
    s
}

/// What an optional external SQL-linting pass reports: whether the text
/// parsed, and the lint's words where it did not. Running the linting tool
/// is environment work and lives outside the library.
#[derive(Debug)]
pub struct ValidationResult {
    pub is_valid: bool,
    pub error_message: Option<String>,
}

/// Structural checks over a loaded migration set.
pub struct Validator;

impl Validator {
    /// Inspects a loaded set for structural problems, versioned and
    /// repeatable subsets independently: position-based version gaps,
    /// duplicate versions, duplicate repeatable names. Never fails; the
    /// issue texts come back for the caller to weigh.
    #[verifier::loop_isolation(false)]
    pub fn validate_migration_sequence(migrations: &Vec<Migration>) -> (r: Vec<String>)
        ensures
            spec_views(r@) == spec_sequence_issues(migrations@),
    {
        let ghost keep_v = versioned_fn();
        let ghost keep_r = repeatable_fn();
        let mut versioned: Vec<Migration> = Vec::new();
        let mut repeatable: Vec<Migration> = Vec::new();
        let mut i: usize = 0;
        while i < migrations.len()
            invariant
                0 <= i <= migrations.len(),
                versioned@ == spec_filter(migrations@.take(i as int), keep_v),
                repeatable@ == spec_filter(migrations@.take(i as int), keep_r),
            decreases migrations.len() - i,
        {
            proof {
                assert(migrations@.take(i + 1).drop_last() =~= migrations@.take(i as int));
                assert(migrations@.take(i + 1).last() == migrations@[i as int]);
            }
            let m = &migrations[i];
            if m.is_repeatable() {
                repeatable.push(m.clone());
            } else {
                versioned.push(m.clone());
            }
            i = i + 1;
        }
        proof {
            assert(migrations@.take(migrations@.len() as int) =~= migrations@);
        }
        let ghost vs = versioned@;
        let ghost rs = repeatable@;

        let mut issues: Vec<String> = Vec::new();
        // position-based gaps over the versioned subset
        let mut i: usize = 0;
        while i < versioned.len()
            invariant
                0 <= i <= versioned.len(),
                vs == versioned@,
                spec_views(issues@) + spec_gap_issues(vs, i as int) == spec_gap_issues(vs, 0),
            decreases versioned.len() - i,
        {
            let m = &versioned[i];
            let expected: u64 = (i as u64) + 1;
            let matches_position: bool = match m.version {
                Some(v) => (v as u64) == expected,
                None => false,
            };
            if !matches_position {
                let found = match m.version {
                    Some(v) => v,
                    None => 0,
                };
                let filename = m.filename();
                issues.push(gap_issue(expected, found, &filename));
                proof {
                    assert(spec_views(issues@) =~= spec_views(issues@.drop_last()) + seq![
                        spec_gap_msg((i + 1) as nat, found as nat, spec_filename(vs[i as int])),
                    ]);
                    assert(spec_views(issues@) + spec_gap_issues(vs, i + 1) =~= spec_views(
                        issues@.drop_last(),
                    ) + spec_gap_issues(vs, i as int));
                }
            } else {
                proof {
                    assert(spec_views(issues@) + spec_gap_issues(vs, i + 1) =~= spec_views(issues@)
                        + spec_gap_issues(vs, i as int));
                }
            }
            i = i + 1;
        }
        proof {
            assert(spec_views(issues@) + spec_gap_issues(vs, vs.len() as int) =~= spec_views(
                issues@,
            ));
            assert(spec_views(issues@) =~= spec_gap_issues(vs, 0));
        }
        let ghost after_gaps = spec_views(issues@);

        // duplicate versions over the versioned subset
        let mut i: usize = 0;
        while i < versioned.len()
            invariant
                0 <= i <= versioned.len(),
                vs == versioned@,
                after_gaps == spec_gap_issues(vs, 0),
                spec_views(issues@) + spec_dup_version_issues(vs, i as int) == after_gaps
                    + spec_dup_version_issues(vs, 0),
            decreases versioned.len() - i,
        {
            let m = &versioned[i];
            let mut dup = false;
            let mut j: usize = 0;
            while j < i
                invariant
                    0 <= j <= i < versioned.len(),
                    vs == versioned@,
                    dup == exists|k: int| 0 <= k < j && (#[trigger] vs[k]).version == vs[i as int].version,
                decreases i - j,
            {
                if opt_u32_eq(versioned[j].version, m.version) {
                    dup = true;
                }
                j = j + 1;
            }
            if dup {
                let found = match m.version {
                    Some(v) => v,
                    None => 0,
                };
                let filename = m.filename();
                issues.push(dup_version_issue(found, &filename));
                proof {
                    assert(spec_views(issues@) =~= spec_views(issues@.drop_last()) + seq![
                        spec_dup_version_msg(found as nat, spec_filename(vs[i as int])),
                    ]);
                    assert(spec_views(issues@) + spec_dup_version_issues(vs, i + 1) =~= spec_views(
                        issues@.drop_last(),
                    ) + spec_dup_version_issues(vs, i as int));
                }
            } else {
                proof {
                    assert(spec_views(issues@) + spec_dup_version_issues(vs, i + 1) =~= spec_views(
                        issues@,
                    ) + spec_dup_version_issues(vs, i as int));
                }
            }
            i = i + 1;
        }
        proof {
            assert(spec_views(issues@) + spec_dup_version_issues(vs, vs.len() as int) =~= spec_views(
                issues@,
            ));
            assert(spec_views(issues@) =~= after_gaps + spec_dup_version_issues(vs, 0));
        }
        let ghost after_dups = spec_views(issues@);

        // duplicate names over the repeatable subset
        let mut i: usize = 0;
        while i < repeatable.len()
            invariant
                0 <= i <= repeatable.len(),
                rs == repeatable@,
                after_dups == spec_gap_issues(vs, 0) + spec_dup_version_issues(vs, 0),
                spec_views(issues@) + spec_dup_name_issues(rs, i as int) == after_dups
                    + spec_dup_name_issues(rs, 0),
            decreases repeatable.len() - i,
        {
            let m = &repeatable[i];
            let mut dup = false;
            let mut j: usize = 0;
            while j < i
                invariant
                    0 <= j <= i < repeatable.len(),
                    rs == repeatable@,
                    dup == exists|k: int| 0 <= k < j && (#[trigger] rs[k]).name@ == rs[i as int].name@,
                decreases i - j,
            {
                if str_eq(repeatable[j].name.as_str(), m.name.as_str()) {
                    dup = true;
                }
                j = j + 1;
            }
            if dup {
                let filename = m.filename();
                issues.push(dup_name_issue(&m.name, &filename));
                proof {
                    assert(spec_views(issues@) =~= spec_views(issues@.drop_last()) + seq![
                        spec_dup_name_msg(rs[i as int].name@, spec_filename(rs[i as int])),
                    ]);
                    assert(spec_views(issues@) + spec_dup_name_issues(rs, i + 1) =~= spec_views(
                        issues@.drop_last(),
                    ) + spec_dup_name_issues(rs, i as int));
                }
            } else {
                proof {
                    assert(spec_views(issues@) + spec_dup_name_issues(rs, i + 1) =~= spec_views(
                        issues@,
                    ) + spec_dup_name_issues(rs, i as int));
                }
            }
            i = i + 1;
        }
        proof {
            assert(spec_views(issues@) + spec_dup_name_issues(rs, rs.len() as int) =~= spec_views(
                issues@,
            ));
            assert(spec_views(issues@) =~= spec_sequence_issues(migrations@));
        }
        issues
    }
}

} // verus!
