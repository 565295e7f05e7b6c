//! What the core owes the statement executor: splitting a migration's SQL
//! text into single statements. Sending them to a database is connection
//! work and lives outside the library.
use crate::text::{
    lemma_join_push, spec_join, spec_split, spec_starts_with, spec_trim, spec_views, split_char,
    starts_with_str, trim_string,
};
use vstd::prelude::*;
use vstd::string::*;

verus! {

/// A line that carries a statement fragment: not blank, and not a
/// whole-line comment, after trimming.
pub open spec fn spec_keep_line(line: Seq<char>) -> bool {
    !spec_starts_with(spec_trim(line), "--"@) && spec_trim(line).len() > 0
}

/// The trimmed lines that carry statement fragments.
pub open spec fn spec_kept_lines(lines: Seq<Seq<char>>) -> Seq<Seq<char>>
    decreases lines.len(),
{
    if lines.len() == 0 {
        Seq::empty()
    } else {
        let rest = spec_kept_lines(lines.drop_first());
        if spec_keep_line(lines.first()) {
            seq![spec_trim(lines.first())] + rest
        } else {
            rest
        }
    }
}

/// The trimmed, non-empty pieces.
pub open spec fn spec_kept_pieces(pieces: Seq<Seq<char>>) -> Seq<Seq<char>>
    decreases pieces.len(),
{
    if pieces.len() == 0 {
        Seq::empty()
    } else {
        let rest = spec_kept_pieces(pieces.drop_first());
        if spec_trim(pieces.first()).len() > 0 {
            seq![spec_trim(pieces.first())] + rest
        } else {
            rest
        }
    }
}

/// What a block of migration SQL splits into: comment-only and blank lines
/// are dropped, the rest joined with spaces, and the result cut at
/// semicolons into trimmed, non-empty statements.
pub open spec fn spec_split_sql(sql: Seq<char>) -> Seq<Seq<char>> {
    spec_kept_pieces(spec_split(spec_join(spec_kept_lines(spec_split(sql, '\n')), " "@), ';'))
}

/// Splits a block of SQL into single statements: full-line comments and
/// blank lines are stripped, the rest is joined and cut at semicolons.
#[verifier::loop_isolation(false)]
pub fn split_sql_statements(sql: &str) -> (r: Vec<String>)
    ensures
        spec_views(r@) == spec_split_sql(sql@),
{
    let lines = split_char(sql, '\n');
    let ghost line_views = spec_views(lines@);
    let mut kept: Vec<String> = Vec::new();
    let mut i: usize = 0;
    proof {
        assert(line_views.skip(0) =~= line_views);
        assert(spec_views(kept@) + spec_kept_lines(line_views) =~= spec_kept_lines(line_views));
    }
    while i < lines.len()
        invariant
            0 <= i <= lines.len(),
            line_views == spec_views(lines@),
            spec_views(kept@) + spec_kept_lines(line_views.skip(i as int)) == spec_kept_lines(
                line_views,
            ),
        decreases lines.len() - i,
    {
        proof {
            assert(line_views.skip(i as int).first() == line_views[i as int]);
            assert(line_views.skip(i as int).drop_first() =~= line_views.skip(i + 1));
        }
        let trimmed = trim_string(lines[i].as_str());
        let is_comment = starts_with_str(trimmed.as_str(), "--");
        proof {
            reveal_strlit("--");
        }
        if !is_comment && trimmed.as_str().unicode_len() > 0 {
            kept.push(trimmed);
            proof {
                assert(spec_views(kept@) =~= spec_views(kept@.drop_last()) + seq![
                    spec_trim(line_views[i as int]),
                ]);
                assert(spec_views(kept@) + spec_kept_lines(line_views.skip(i + 1)) =~= spec_views(
                    kept@.drop_last(),
                ) + spec_kept_lines(line_views.skip(i as int)));
            }
        } else {
            proof {
                assert(spec_kept_lines(line_views.skip(i as int)) =~= spec_kept_lines(
                    line_views.skip(i + 1),
                ));
            }
        }
        i = i + 1;
    }
    proof {
        assert(line_views.skip(line_views.len() as int) =~= Seq::<Seq<char>>::empty());
        assert(spec_views(kept@) =~= spec_kept_lines(line_views));
    }
    // join the kept lines with single spaces
    let mut joined = String::new();
    let mut i: usize = 0;
    proof {
        assert(spec_views(kept@).take(0) =~= Seq::<Seq<char>>::empty());
    }
    while i < kept.len()
        invariant
            0 <= i <= kept.len(),
            joined@ == spec_join(spec_views(kept@).take(i as int), " "@),
        decreases kept.len() - i,
    {
        proof {
            assert(spec_views(kept@).take(i + 1) =~= spec_views(kept@).take(i as int).push(
                spec_views(kept@)[i as int],
            ));
            lemma_join_push(spec_views(kept@).take(i as int), " "@, spec_views(kept@)[i as int]);
        }
        if i > 0 {
            joined.append(" ");
        }
        joined.append(kept[i].as_str());
        i = i + 1;
    }
    proof {
        assert(spec_views(kept@).take(kept@.len() as int) =~= spec_views(kept@));
    }
    // cut at semicolons, trim, drop blanks
    let pieces = split_char(joined.as_str(), ';');
    let ghost piece_views = spec_views(pieces@);
    let mut out: Vec<String> = Vec::new();
    let mut i: usize = 0;
    proof {
        assert(piece_views.skip(0) =~= piece_views);
        assert(spec_views(out@) + spec_kept_pieces(piece_views) =~= spec_kept_pieces(piece_views));
    }
    while i < pieces.len()
        invariant
            0 <= i <= pieces.len(),
            piece_views == spec_views(pieces@),
            spec_views(out@) + spec_kept_pieces(piece_views.skip(i as int)) == spec_kept_pieces(
                piece_views,
            ),
        decreases pieces.len() - i,
    {
        proof {
            assert(piece_views.skip(i as int).first() == piece_views[i as int]);
            assert(piece_views.skip(i as int).drop_first() =~= piece_views.skip(i + 1));
        }
        let trimmed = trim_string(pieces[i].as_str());
        if trimmed.as_str().unicode_len() > 0 {
            out.push(trimmed);
            proof {
                assert(spec_views(out@) =~= spec_views(out@.drop_last()) + seq![
                    spec_trim(piece_views[i as int]),
                ]);
                assert(spec_views(out@) + spec_kept_pieces(piece_views.skip(i + 1)) =~= spec_views(
                    out@.drop_last(),
                ) + spec_kept_pieces(piece_views.skip(i as int)));
            }
        } else {
            proof {
                assert(spec_kept_pieces(piece_views.skip(i as int)) =~= spec_kept_pieces(
                    piece_views.skip(i + 1),
                ));
            }
        }
        i = i + 1;
    }
    proof {
        assert(piece_views.skip(piece_views.len() as int) =~= Seq::<Seq<char>>::empty());
        assert(spec_views(out@) =~= spec_kept_pieces(piece_views));
    }
    out
}

} // verus!
