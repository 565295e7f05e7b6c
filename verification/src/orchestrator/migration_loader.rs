//! The migration loader: turns directory entries (file name and file text)
//! into typed migration records and puts them into the one canonical
//! order every other component depends on. Reading the directory itself is
//! filesystem work and stays outside the library; the grammar and the
//! ordering are pure and verified here.
use crate::model::migration::{
    mview, mview_fn, spec_checksum, spec_parse_content, Migration, MigrationType, MigrationView,
};
use crate::sorting::{lemma_sort_properties, spec_insert_sorted, spec_sort};
use crate::text::{
    ends_with_str, find_char, lemma_find_char_bounds, parse_u32, spec_all_digits, spec_dec_val,
    spec_ends_with, spec_find_char, spec_starts_with, spec_str_le, starts_with_str, str_le,
};
use vstd::prelude::*;
use vstd::relations::{strongly_connected, transitive};
use vstd::string::*;

verus! {

/// Whether a file name follows the repeatable pattern: the literal prefix
/// `R__`, a non-empty name, and the `.sql` extension.
pub open spec fn spec_is_repeatable_filename(f: Seq<char>) -> bool {
    spec_starts_with(f, "R__"@) && spec_ends_with(f, ".sql"@) && f.len() > 7
}

/// The name inside a repeatable file name.
pub open spec fn spec_repeatable_stem(f: Seq<char>) -> Seq<char> {
    f.subrange(3, f.len() - 4)
}

/// The version and name inside a versioned file name: a run of decimal
/// digits naming a number in range, one separating underscore, and a
/// non-empty name (the `.sql` extension stripped when present).
pub open spec fn spec_versioned_parts(f: Seq<char>) -> Option<(u32, Seq<char>)> {
    match spec_find_char(f, '_', 0) {
        None => None,
        Some(i) => {
            let version_text = f.take(i);
            let name_part = f.skip(i + 1);
            let name = if spec_ends_with(name_part, ".sql"@) {
                name_part.take(name_part.len() - 4)
            } else {
                name_part
            };
            if version_text.len() > 0 && spec_all_digits(version_text) && spec_dec_val(version_text)
                <= u32::MAX && name.len() > 0 {
                Some((spec_dec_val(version_text) as u32, name))
            } else {
                None
            }
        },
    }
}

/// The record a recognized file name and its text parse to, as a ghost
/// image; `None` for a file name outside the grammar.
pub open spec fn spec_parse_entry(filename: Seq<char>, content: Seq<char>) -> Option<
    MigrationView,
> {
    if spec_is_repeatable_filename(filename) {
        Some(
            MigrationView {
                migration_type: MigrationType::Repeatable,
                version: None,
                name: spec_repeatable_stem(filename),
                file_path: filename,
                sql_content: spec_parse_content(content).0,
                rollback_sql: spec_parse_content(content).1,
                checksum: spec_checksum(spec_parse_content(content).0),
                applied_at: None,
                execution_time_ms: None,
                success: true,
            },
        )
    } else {
        match spec_versioned_parts(filename) {
            Some((v, name)) => Some(
                MigrationView {
                    migration_type: MigrationType::Versioned,
                    version: Some(v),
                    name,
                    file_path: filename,
                    sql_content: spec_parse_content(content).0,
                    rollback_sql: spec_parse_content(content).1,
                    checksum: spec_checksum(spec_parse_content(content).0),
                    applied_at: None,
                    execution_time_ms: None,
                    success: true,
                },
            ),
            None => None,
        }
    }
}

/// The records parsed from directory entries, in entry order: only `.sql`
/// files are considered, and files outside the grammar are skipped.
pub open spec fn spec_parsed_views(entries: Seq<(String, String)>) -> Seq<MigrationView>
    decreases entries.len(),
{
    if entries.len() == 0 {
        Seq::empty()
    } else {
        let init = spec_parsed_views(entries.drop_last());
        let f = entries.last().0@;
        let c = entries.last().1@;
        if spec_ends_with(f, ".sql"@) {
            match spec_parse_entry(f, c) {
                Some(v) => init.push(v),
                None => init,
            }
        } else {
            init
        }
    }
}

/// The canonical migration order: versioned migrations first, ascending by
/// version, then repeatable ones ascending by name.
pub open spec fn spec_mig_le(a: MigrationView, b: MigrationView) -> bool {
    let ra: int = if a.migration_type == MigrationType::Versioned {
        0
    } else {
        1
    };
    let rb: int = if b.migration_type == MigrationType::Versioned {
        0
    } else {
        1
    };
    if ra != rb {
        ra < rb
    } else if a.migration_type == MigrationType::Versioned {
        spec_view_version(a) <= spec_view_version(b)
    } else {
        spec_str_le(a.name, b.name)
    }
}

/// The version a ghost image carries, zero where there is none.
pub open spec fn spec_view_version(v: MigrationView) -> u32 {
    match v.version {
        Some(n) => n,
        None => 0u32,
    }
}

/// The canonical order as a function value.
pub open spec fn mig_le_fn() -> spec_fn(MigrationView, MigrationView) -> bool {
    |a: MigrationView, b: MigrationView| spec_mig_le(a, b)
}

pub proof fn lemma_mig_le_ordering()
    ensures
        strongly_connected(mig_le_fn()),
        transitive(mig_le_fn()),
{
    let leq = mig_le_fn();
    assert forall|a: MigrationView, b: MigrationView| #[trigger] leq(a, b) || #[trigger] leq(
        b,
        a,
    ) by {
        crate::text::lemma_str_le_total(a.name, b.name);
    }
    assert forall|a: MigrationView, b: MigrationView, c: MigrationView|
        #[trigger] leq(a, b) && #[trigger] leq(b, c) implies leq(a, c) by {
        if spec_str_le(a.name, b.name) && spec_str_le(b.name, c.name) {
            crate::text::lemma_str_le_trans(a.name, b.name, c.name);
        }
    }
}

/// Loading is deterministic: the loaded set is a function of the directory
/// entries alone, so two loads of the same entries yield identical ordering
/// and content.
pub proof fn lemma_load_deterministic(
    entries: Seq<(String, String)>,
    r1: Seq<MigrationView>,
    r2: Seq<MigrationView>,
)
    requires
        r1 == spec_sort(spec_parsed_views(entries), mig_le_fn()),
        r2 == spec_sort(spec_parsed_views(entries), mig_le_fn()),
    ensures
        r1 == r2,
{
}

fn mig_le(a: &Migration, b: &Migration) -> (r: bool)
    ensures
        r == spec_mig_le(mview(*a), mview(*b)),
{
    let a_versioned = !a.is_repeatable();
    let b_versioned = !b.is_repeatable();
    if a_versioned != b_versioned {
        return a_versioned;
    }
    if a_versioned {
        let va = match a.version {
            Some(v) => v,
            None => 0,
        };
        let vb = match b.version {
            Some(v) => v,
            None => 0,
        };
        va <= vb
    } else {
        str_le(a.name.as_str(), b.name.as_str())
    }
}

/// Inserts a migration into an already canonically-ordered vector.
#[verifier::loop_isolation(false)]
fn insert_migration_sorted(v: Vec<Migration>, x: Migration) -> (r: Vec<Migration>)
    ensures
        r@.map_values(mview_fn()) == spec_insert_sorted(
            mview(x),
            v@.map_values(mview_fn()),
            mig_le_fn(),
        ),
{
    let ghost leq = mig_le_fn();
    let ghost xv = mview(x);
    let mut v = v;
    let ghost vs = v@.map_values(mview_fn());
    let mut i: usize = 0;
    proof {
        assert(vs.skip(0) =~= vs);
        assert(vs.take(0) + spec_insert_sorted(xv, vs, leq) =~= spec_insert_sorted(xv, vs, leq));
    }
    while i < v.len() && mig_le(&v[i], &x)
        invariant
            0 <= i <= v.len(),
            vs == v@.map_values(mview_fn()),
            spec_insert_sorted(xv, vs, leq) == vs.take(i as int) + spec_insert_sorted(
                xv,
                vs.skip(i as int),
                leq,
            ),
        decreases v.len() - i,
    {
        proof {
            let rest = vs.skip(i as int);
            assert(rest.first() == vs[i as int]);
            assert(vs[i as int] == mview(v@[i as int]));
            assert(rest.drop_first() =~= vs.skip(i + 1));
            assert(vs.take(i + 1) + spec_insert_sorted(xv, vs.skip(i + 1), leq) =~= vs.take(i as int)
                + (seq![rest.first()] + spec_insert_sorted(xv, rest.drop_first(), leq)));
        }
        i = i + 1;
    }
    proof {
        let rest = vs.skip(i as int);
        if i < v@.len() {
            assert(rest.first() == vs[i as int]);
            assert(vs[i as int] == mview(v@[i as int]));
            assert(!spec_mig_le(mview(v@[i as int]), xv));
            assert(spec_insert_sorted(xv, rest, leq) == seq![xv] + rest);
        } else {
            assert(rest =~= Seq::<MigrationView>::empty());
            assert(spec_insert_sorted(xv, rest, leq) == seq![xv]);
            assert(seq![xv] =~= seq![xv] + rest);
        }
    }
    let ghost prev = v@;
    v.insert(i, x);
    proof {
        assert(v@ =~= prev.take(i as int) + (seq![x] + prev.skip(i as int)));
        assert(v@.map_values(mview_fn()) =~= vs.take(i as int) + (seq![xv] + vs.skip(i as int)));
    }
    v
}

/// The migration loader. Directory scanning is the caller's: it hands in
/// each file's name and text; everything from the grammar on is here.
pub struct MigrationLoader;

impl MigrationLoader {
    /// Parses one file name and its text into a migration record: the
    /// repeatable pattern first, then the versioned one; `None` (skip the
    /// file, never fail) for anything else.
    pub fn parse_migration_entry(filename: &str, sql_content: String) -> (r: Option<Migration>)
        ensures
            match r {
                Some(m) => spec_parse_entry(filename@, sql_content@) == Some(mview(m)),
                None => spec_parse_entry(filename@, sql_content@) is None,
            },
    {
        let n = filename.unicode_len();
        if starts_with_str(filename, "R__") && ends_with_str(filename, ".sql") && n > 7 {
            proof {
                reveal_strlit("R__");
                reveal_strlit(".sql");
            }
            let name = filename.substring_char(3, n - 4).to_owned();
            let m = Migration::new_repeatable(name, filename.to_owned(), sql_content);
            proof {
                assert(mview(m) =~= spec_parse_entry(filename@, sql_content@)->Some_0);
            }
            return Some(m);
        }
        proof {
            reveal_strlit("R__");
            reveal_strlit(".sql");
        }
        match find_char(filename, '_', 0) {
            None => None,
            Some(i) => {
                proof {
                    lemma_find_char_bounds(filename@, '_', 0);
                }
                let version_text = filename.substring_char(0, i);
                let name_part = filename.substring_char(i + 1, n);
                proof {
                    assert(version_text@ =~= filename@.take(i as int));
                    assert(name_part@ =~= filename@.skip(i + 1));
                }
                let np_len = name_part.unicode_len();
                let name: &str = if ends_with_str(name_part, ".sql") {
                    proof {
                        reveal_strlit(".sql");
                    }
                    name_part.substring_char(0, np_len - 4)
                } else {
                    name_part
                };
                match parse_u32(version_text) {
                    Some(version) => {
                        if name.unicode_len() > 0 {
                            let m = Migration::new(
                                version,
                                name.to_owned(),
                                filename.to_owned(),
                                sql_content,
                            );
                            proof {
                                assert(mview(m) =~= spec_parse_entry(
                                    filename@,
                                    sql_content@,
                                )->Some_0);
                            }
                            Some(m)
                        } else {
                            None
                        }
                    },
                    None => None,
                }
            },
        }
    }

    /// Turns directory entries (file name, file text) into the loaded
    /// migration set: `.sql` files inside the grammar, in the canonical
    /// order. The result is a function of the entries alone, so loading
    /// twice yields the same set.
    #[verifier::loop_isolation(false)]
    pub fn load_from_entries(entries: Vec<(String, String)>) -> (r: Vec<Migration>)
        ensures
            r@.map_values(mview_fn()) == spec_sort(spec_parsed_views(entries@), mig_le_fn()),
            vstd::relations::sorted_by(r@.map_values(mview_fn()), mig_le_fn()),
            r@.map_values(mview_fn()).to_multiset() == spec_parsed_views(entries@).to_multiset(),
    {
        let ghost leq = mig_le_fn();
        let mut out: Vec<Migration> = Vec::new();
        let mut i: usize = 0;
        while i < entries.len()
            invariant
                0 <= i <= entries.len(),
                out@.map_values(mview_fn()) == spec_sort(
                    spec_parsed_views(entries@.take(i as int)),
                    leq,
                ),
            decreases entries.len() - i,
        {
            proof {
                assert(entries@.take(i + 1).drop_last() =~= entries@.take(i as int));
                assert(entries@.take(i + 1).last() == entries@[i as int]);
            }
            let filename = &entries[i].0;
            if ends_with_str(filename.as_str(), ".sql") {
                let content = entries[i].1.clone();
                match Self::parse_migration_entry(filename.as_str(), content) {
                    Some(m) => {
                        proof {
                            let views = spec_parsed_views(entries@.take(i + 1));
                            assert(views.drop_last() =~= spec_parsed_views(
                                entries@.take(i as int),
                            ));
                        }
                        out = insert_migration_sorted(out, m);
                    },
                    None => {},
                }
            }
            i = i + 1;
        }
        proof {
            assert(entries@.take(entries@.len() as int) =~= entries@);
            lemma_mig_le_ordering();
            lemma_sort_properties(spec_parsed_views(entries@), leq);
        }
        out
    }
}

} // verus!
