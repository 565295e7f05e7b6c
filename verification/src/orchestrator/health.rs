//! The health check's shape, and the one check that is pure: whether the
//! loaded migrations are in a clean sequence. Probing interpreters and
//! directories is environment work and lives outside the library.
use crate::model::migration::Migration;
use crate::orchestrator::validator::{spec_sequence_issues, Validator};
use crate::text::{lemma_join_push, spec_dec, spec_join, spec_views, u64_to_string};
use vstd::prelude::*;
use vstd::string::*;

verus! {

/// How one check went.
#[derive(Debug, Clone, Copy, PartialEq, Eq, Structural)]
pub enum HealthStatus {
    Pass,
    Warn,
    Fail,
}

/// One check's outcome, named and explained.
#[derive(Debug)]
pub struct HealthCheckResult {
    pub name: String,
    pub status: HealthStatus,
    pub message: String,
}

/// The message of a clean sequence check.
pub open spec fn spec_sequence_ok_msg(count: nat) -> Seq<char> {
    spec_dec(count) + " migrations in correct sequence"@
}

/// The message naming how many issues were found, with the issues joined.
pub open spec fn spec_sequence_warn_msg(issues: Seq<Seq<char>>) -> Seq<char> {
    spec_dec(issues.len()) + " sequence issues found: "@ + spec_join(issues, ", "@)
}

/// Checks the loaded set's sequence: a pass where the validator reports
/// nothing, a warning naming every issue otherwise.
#[verifier::loop_isolation(false)]
pub fn check_migration_sequence(migrations: &Vec<Migration>) -> (r: HealthCheckResult)
    ensures
        r.name@ == "Migration Sequence"@,
        r.status == (if spec_sequence_issues(migrations@).len() == 0 {
            HealthStatus::Pass
        } else {
            HealthStatus::Warn
        }),
        spec_sequence_issues(migrations@).len() == 0 ==> r.message@ == spec_sequence_ok_msg(
            migrations@.len(),
        ),
        spec_sequence_issues(migrations@).len() > 0 ==> r.message@ == spec_sequence_warn_msg(
            spec_sequence_issues(migrations@),
        ),
{
    let issues = Validator::validate_migration_sequence(migrations);
    if issues.len() == 0 {
        let mut message = u64_to_string(migrations.len() as u64);
        message.append(" migrations in correct sequence");
        proof {
            assert(message@ =~= spec_sequence_ok_msg(migrations@.len()));
        }
        HealthCheckResult {
            name: String::from_str("Migration Sequence"),
            status: HealthStatus::Pass,
            message,
        }
    } else {
        let mut message = u64_to_string(issues.len() as u64);
        message.append(" sequence issues found: ");
        let ghost head = message@;
        let mut i: usize = 0;
        proof {
            assert(spec_views(issues@).take(0) =~= Seq::<Seq<char>>::empty());
        }
        while i < issues.len()
            invariant
                0 <= i <= issues.len(),
                message@ == head + spec_join(spec_views(issues@).take(i as int), ", "@),
            decreases issues.len() - i,
        {
            proof {
                assert(spec_views(issues@).take(i + 1) =~= spec_views(issues@).take(i as int).push(
                    spec_views(issues@)[i as int],
                ));
                lemma_join_push(
                    spec_views(issues@).take(i as int),
                    ", "@,
                    spec_views(issues@)[i as int],
                );
            }
            if i > 0 {
                message.append(", ");
            }
            message.append(issues[i].as_str());
            i = i + 1;
        }
        proof {
            assert(spec_views(issues@).take(issues@.len() as int) =~= spec_views(issues@));
        }
        HealthCheckResult {
            name: String::from_str("Migration Sequence"),
            status: HealthStatus::Warn,
            message,
        }
    }
}

} // verus!
