//! Mapping a line of the working copy onto the line it had in the last
//! committed snapshot.

use vstd::prelude::*;

verus! {

/// The committed line that a working-copy line stands for, given how many
/// lines were inserted and deleted, but not yet committed, above it.
///
/// Insertions push the working-copy line down, so they are taken off again
/// (never below the first line); deletions pull it up, so they are added back.
pub open spec fn committed_line(line: int, inserted: int, deleted: int) -> int {
    (if line >= inserted { line - inserted } else { 0 }) + deleted
}

/// Computes [`committed_line`] for a cursor line and the edit counts above it.
///
/// The result is wide enough that no combination of arguments overflows.
pub fn normalize(line: u32, inserted: u32, deleted: u32) -> (committed: u64)
    ensures
        committed == committed_line(line as int, inserted as int, deleted as int),
{
    let kept: u32 = if line >= inserted { line - inserted } else { 0 };
    let wide_kept: u64 = kept as u64;
    let wide_deleted: u64 = deleted as u64;
    wide_kept + wide_deleted
}

/// The committed line is never negative.
pub proof fn lemma_committed_line_nonnegative(line: int, inserted: int, deleted: int)
    requires
        line >= 0,
        inserted >= 0,
        deleted >= 0,
    ensures
        committed_line(line, inserted, deleted) >= 0,
{
}

/// A line further down stands for a committed line that is no further up.
pub proof fn lemma_committed_line_grows_with_line(
    line: int,
    further: int,
    inserted: int,
    deleted: int,
)
    requires
        0 <= line <= further,
        inserted >= 0,
        deleted >= 0,
    ensures
        committed_line(line, inserted, deleted) <= committed_line(further, inserted, deleted),
{
}

/// More deletions above a line make it stand for a committed line that is no
/// further up.
pub proof fn lemma_committed_line_grows_with_deleted(
    line: int,
    inserted: int,
    deleted: int,
    more: int,
)
    requires
        line >= 0,
        inserted >= 0,
        0 <= deleted <= more,
    ensures
        committed_line(line, inserted, deleted) <= committed_line(line, inserted, more),
{
}

/// More insertions above a line make it stand for a committed line that is
/// no further down.
pub proof fn lemma_committed_line_shrinks_with_inserted(
    line: int,
    inserted: int,
    more: int,
    deleted: int,
)
    requires
        line >= 0,
        0 <= inserted <= more,
        deleted >= 0,
    ensures
        committed_line(line, more, deleted) <= committed_line(line, inserted, deleted),
{
}

} // verus!
