//! The attribution of a document: for each line of the document as it was
//! last committed, the revision that last changed it.

use std::collections::HashMap;
use vstd::prelude::*;
use vstd::std_specs::hash::group_hash_axioms;
use crate::line::{committed_line, normalize};

verus! {

broadcast use group_hash_axioms;

/// The identifier of a revision: twenty bytes that are never looked into.
#[derive(Clone, Copy, Debug, PartialEq, Eq, Hash)]
pub struct RevisionId {
    pub bytes: [u8; 20],
}

/// A run of lines that the history attributes to one revision.
#[derive(Clone, Copy, Debug, PartialEq, Eq)]
pub struct BlameEntry {
    /// The first line of the run, counted from zero in the committed document.
    pub start: u32,
    /// How many lines the run has.
    pub len: u32,
    /// The revision that last changed these lines.
    pub revision: RevisionId,
}

/// What the history gave for a document.
#[derive(Clone, Debug, PartialEq, Eq)]
pub enum History {
    /// The document lies in no repository.
    NoRepository,
    /// The document's path does not lie under the root of its repository.
    OutsideRepository,
    /// The runs that the history attributes, in the order in which it gave
    /// them.
    Entries(Vec<BlameEntry>),
}

/// Why a document has no attribution, or a line no record.
#[derive(Clone, Copy, Debug, PartialEq, Eq, Structural)]
pub enum AttributionError {
    /// The document lies in no repository.
    NotARepository,
    /// The document's path does not lie under the root of its repository.
    PathOutsideRepository,
    /// The history has no revision that covers the document.
    NoHistory,
    /// A line has a revision, but nothing could be learnt of that revision.
    RevisionResolutionFailed,
}

impl BlameEntry {
    /// Whether `line` lies in this run.
    pub open spec fn covers(&self, line: int) -> bool {
        self.start <= line < self.start + self.len
    }

    /// The lines of this run up to, not including, `end`, each with the
    /// run's revision.
    pub open spec fn lines_before(&self, end: int) -> Map<u32, RevisionId> {
        Map::new(|line: u32| self.covers(line as int) && line < end, |line: u32| self.revision)
    }

    /// The lines of this run, each with the run's revision.
    pub open spec fn lines(&self) -> Map<u32, RevisionId> {
        self.lines_before(self.start + self.len)
    }
}

/// The attribution that a list of runs gives: each line has the revision of
/// the last run in the list that covers it.
pub open spec fn attribution(entries: Seq<BlameEntry>) -> Map<u32, RevisionId>
    decreases entries.len(),
{
    if entries.len() == 0 {
        Map::empty()
    } else {
        attribution(entries.drop_last()).union_prefer_right(entries.last().lines())
    }
}

/// The revision that `map` has for the committed line `line`, if it has one.
pub open spec fn attributed(map: Map<u32, RevisionId>, line: int) -> Option<RevisionId> {
    if 0 <= line <= u32::MAX && map.contains_key(line as u32) {
        Some(map[line as u32])
    } else {
        None
    }
}

/// Whether some run of `entries` covers `line`.
pub open spec fn covered(entries: Seq<BlameEntry>, line: int) -> bool {
    exists|i: int| 0 <= i < entries.len() && #[trigger] entries[i].covers(line)
}

/// A line has a revision exactly if some run covers it.
pub proof fn lemma_attributed_iff_covered(entries: Seq<BlameEntry>, line: u32)
    ensures
        attribution(entries).contains_key(line) <==> covered(entries, line as int),
    decreases entries.len(),
{
    if entries.len() > 0 {
        let front = entries.drop_last();
        let last = entries.last();
        lemma_attributed_iff_covered(front, line);
        if last.covers(line as int) {
            assert(entries[entries.len() - 1].covers(line as int));
        } else if covered(front, line as int) {
            let i = choose|i: int| 0 <= i < front.len() && #[trigger] front[i].covers(line as int);
            assert(entries[i].covers(line as int));
        } else if covered(entries, line as int) {
            let i = choose|i: int|
                0 <= i < entries.len() && #[trigger] entries[i].covers(line as int);
            assert(front[i].covers(line as int));
        }
    }
}

/// A line has the revision of the last run that covers it.
pub proof fn lemma_attribution_is_last_cover(entries: Seq<BlameEntry>, line: u32, i: int)
    requires
        0 <= i < entries.len(),
        entries[i].covers(line as int),
        forall|j: int| i < j < entries.len() ==> !#[trigger] entries[j].covers(line as int),
    ensures
        attribution(entries).contains_key(line),
        attribution(entries)[line] == entries[i].revision,
    decreases entries.len(),
{
    let front = entries.drop_last();
    if i < entries.len() - 1 {
        assert(!entries[entries.len() - 1].covers(line as int));
        assert(front[i] == entries[i]);
        assert forall|j: int| i < j < front.len() implies !#[trigger] front[j].covers(
            line as int,
        ) by {
            assert(front[j] == entries[j]);
        }
        lemma_attribution_is_last_cover(front, line, i);
    }
}

/// Whether the runs follow one another without a gap, from the first line
/// of the document on.
pub open spec fn contiguous(entries: Seq<BlameEntry>) -> bool {
    &&& entries.len() > 0 ==> entries[0].start == 0
    &&& forall|i: int|
        0 <= i < entries.len() - 1 ==> (#[trigger] entries[i + 1]).start == entries[i].start
            + entries[i].len
}

/// The line after the last run; the number of lines that contiguous runs
/// cover.
pub open spec fn line_count(entries: Seq<BlameEntry>) -> int {
    if entries.len() == 0 {
        0
    } else {
        entries.last().start + entries.last().len
    }
}

/// Runs that follow one another without a gap attribute every line of the
/// document and no other: the attribution is dense.
pub proof fn lemma_contiguous_runs_are_dense(entries: Seq<BlameEntry>, line: u32)
    requires
        contiguous(entries),
    ensures
        attribution(entries).contains_key(line) <==> line < line_count(entries),
    decreases entries.len(),
{
    lemma_attributed_iff_covered(entries, line);
    if entries.len() > 0 {
        let front = entries.drop_last();
        let last = entries.last();
        assert(contiguous(front)) by {
            if front.len() > 0 {
                assert(front[0] == entries[0]);
            }
            assert forall|i: int| 0 <= i < front.len() - 1 implies (#[trigger] front[i + 1]).start
                == front[i].start + front[i].len by {
                assert(front[i + 1] == entries[i + 1]);
                assert(front[i] == entries[i]);
            }
        }
        assert(line_count(front) == last.start) by {
            if front.len() > 0 {
                assert(entries[front.len() - 1 + 1].start == entries[front.len() - 1].start
                    + entries[front.len() - 1].len);
                assert(front.last() == entries[front.len() - 1]);
            }
        }
        lemma_contiguous_runs_are_dense(front, line);
        lemma_attributed_iff_covered(front, line);
        if covered(entries, line as int) {
            let i = choose|i: int|
                0 <= i < entries.len() && #[trigger] entries[i].covers(line as int);
            if i < front.len() {
                assert(front[i].covers(line as int));
            }
        }
        if covered(front, line as int) {
            let i = choose|i: int| 0 <= i < front.len() && #[trigger] front[i].covers(line as int);
            assert(entries[i].covers(line as int));
        }
        if last.covers(line as int) {
            assert(entries[entries.len() - 1].covers(line as int));
        }
    }
}

/// The attribution of one document.
pub struct FileBlame {
    blame: HashMap<u32, RevisionId>,
    path: String,
}

impl View for FileBlame {
    type V = Map<u32, RevisionId>;

    /// The revision of each attributed line.
    closed spec fn view(&self) -> Map<u32, RevisionId> {
        self.blame@
    }
}

impl FileBlame {
    /// The path of the document, as it was given.
    pub closed spec fn spec_path(&self) -> Seq<char> {
        self.path@
    }

    /// The path of the document, as it was given.
    pub fn path(&self) -> (path: &String)
        ensures
            path@ == self.spec_path(),
    {
        &self.path
    }

    /// The attribution that `entries` give to the document at `path`.
    pub fn from_entries(path: String, entries: &Vec<BlameEntry>) -> (blame: FileBlame)
        ensures
            blame@ == attribution(entries@),
            blame.spec_path() == path@,
    {
        let mut map: HashMap<u32, RevisionId> = HashMap::new();
        let mut done: usize = 0;
        assert(entries@.take(0) =~= Seq::<BlameEntry>::empty());
        while done < entries.len()
            invariant
                done <= entries.len(),
                map@ == attribution(entries@.take(done as int)),
            decreases entries.len() - done,
        {
            let entry = entries[done];
            let end: u64 = entry.start as u64 + entry.len as u64;
            let mut line: u64 = entry.start as u64;
            let ghost before = map@;
            assert(map@ =~= before.union_prefer_right(entry.lines_before(line as int)));
            while line < end && line <= u32::MAX as u64
                invariant
                    entry.start <= line <= end,
                    end == entry.start + entry.len,
                    map@ == before.union_prefer_right(entry.lines_before(line as int)),
                decreases end - line,
            {
                map.insert(line as u32, entry.revision);
                assert(map@ =~= before.union_prefer_right(entry.lines_before(line + 1)));
                line += 1;
            }
            assert(entry.lines_before(line as int) =~= entry.lines());
            done += 1;
            assert(entries@.take(done as int).drop_last() =~= entries@.take(done - 1));
            assert(entries@.take(done as int).last() == entry);
        }
        assert(entries@.take(done as int) =~= entries@);
        FileBlame { blame: map, path }
    }

    /// The attribution of the document at `path`, from what the history gave
    /// for it; or why it has none.
    pub fn try_new(path: String, history: History) -> (built: Result<FileBlame, AttributionError>)
        ensures
            match history {
                History::NoRepository => built == Err::<FileBlame, _>(
                    AttributionError::NotARepository,
                ),
                History::OutsideRepository => built == Err::<FileBlame, _>(
                    AttributionError::PathOutsideRepository,
                ),
                History::Entries(entries) => if entries@.len() == 0 {
                    built == Err::<FileBlame, _>(AttributionError::NoHistory)
                } else {
                    &&& built is Ok
                    &&& built->Ok_0@ == attribution(entries@)
                    &&& built->Ok_0.spec_path() == path@
                },
            },
    {
        match history {
            History::NoRepository => Err(AttributionError::NotARepository),
            History::OutsideRepository => Err(AttributionError::PathOutsideRepository),
            History::Entries(entries) => {
                if entries.len() == 0 {
                    Err(AttributionError::NoHistory)
                } else {
                    Ok(FileBlame::from_entries(path, &entries))
                }
            },
        }
    }

    /// The revision of the committed line `committed`, if the line is
    /// attributed.
    pub fn lookup(&self, committed: u64) -> (revision: Option<RevisionId>)
        ensures
            revision == attributed(self@, committed as int),
    {
        if committed > u32::MAX as u64 {
            return None;
        }
        let key: u32 = committed as u32;
        match self.blame.get(&key) {
            Some(revision) => Some(*revision),
            None => None,
        }
    }

    /// The revision to blame for `line` of the working copy, above which
    /// `added` lines were inserted and `removed` lines deleted since the last
    /// commit.
    pub fn blame_for_line(&self, line: u32, added: u32, removed: u32) -> (revision: Option<
        RevisionId,
    >)
        ensures
            revision == attributed(
                self@,
                committed_line(line as int, added as int, removed as int),
            ),
    {
        self.lookup(normalize(line, added, removed))
    }
}

} // verus!
