//! From what a repository holds of a revision to the record of a line.

use vstd::prelude::*;
use crate::blame::{Field, LineBlame};
use crate::store::AttributionError;

verus! {

/// Who authored a revision, and when.
#[derive(Clone, Debug, PartialEq, Eq)]
pub struct Signature {
    pub name: String,
    pub email: String,
    /// The moment of authoring, in seconds since the Unix epoch.
    pub seconds: i64,
    /// The author's time zone, as an offset from UTC in seconds.
    pub offset: i32,
}

/// The message of a revision.
#[derive(Clone, Debug, PartialEq, Eq)]
pub struct Message {
    /// The first line.
    pub title: String,
    /// What follows the first line, if anything does.
    pub body: Option<String>,
}

/// What a repository holds of one revision. Each part may be missing.
#[derive(Clone, Debug, PartialEq, Eq)]
pub struct CommitInfo {
    /// The abbreviated hash.
    pub short_hash: Option<String>,
    pub author: Option<Signature>,
    pub message: Option<Message>,
}

/// The smallest time zone offset that has a calendar date, in seconds.
pub const MIN_OFFSET: i32 = -93_599;

/// The largest time zone offset that has a calendar date, in seconds.
pub const MAX_OFFSET: i32 = 93_599;

/// The earliest moment that has a calendar date, in seconds since the Unix
/// epoch.
pub const MIN_SECONDS: i64 = -377_705_023_201;

/// The latest moment that has a calendar date, in seconds since the Unix
/// epoch.
pub const MAX_SECONDS: i64 = 253_402_207_200;

/// Whether the moment `seconds`, read at the offset `offset`, has a calendar
/// date.
pub open spec fn has_date(seconds: int, offset: int) -> bool {
    &&& MIN_OFFSET <= offset <= MAX_OFFSET
    &&& MIN_SECONDS <= seconds <= MAX_SECONDS
}

/// The calendar date of the moment `seconds` (since the Unix epoch) in the
/// time zone that lies `offset` seconds from UTC, written as year, month and
/// day: `2018-12-24`.
pub uninterp spec fn short_date(seconds: int, offset: int) -> Seq<char>;

/// Writes the calendar date of a moment.
///
/// Trusted: the body is `gix::date::Time::format` with the format
/// `gix::date::time::format::SHORT`. That function turns the seconds and the
/// offset into a zoned time of the `jiff` crate and writes it as
/// `%Y-%m-%d`; no clock, locale or time zone database takes part, so the
/// text depends on the two numbers alone, and the contract gives it the name
/// [`short_date`]. The function panics where `jiff` has no offset or
/// timestamp for the numbers; [`has_date`] leaves those out.
#[verifier::external_body]
fn format_short_date(seconds: i64, offset: i32) -> (text: String)
    requires
        has_date(seconds as int, offset as int),
    ensures
        text@ == short_date(seconds as int, offset as int),
{
    gix::date::Time::new(seconds, offset).format(gix::date::time::format::SHORT)
}

/// The date on which a revision was authored, for the fields of a line.
pub open spec fn date_field(seconds: int, offset: int) -> Option<Seq<char>> {
    if has_date(seconds, offset) {
        Some(short_date(seconds, offset))
    } else {
        None
    }
}

/// The calendar date of the moment `seconds` at the offset `offset`, or
/// nothing where the moment has none.
pub fn commit_date(seconds: i64, offset: i32) -> (date: Option<String>)
    ensures
        match date {
            Some(text) => date_field(seconds as int, offset as int) == Some(text@),
            None => date_field(seconds as int, offset as int) is None,
        },
{
    if MIN_OFFSET <= offset && offset <= MAX_OFFSET && MIN_SECONDS <= seconds && seconds
        <= MAX_SECONDS {
        Some(format_short_date(seconds, offset))
    } else {
        None
    }
}

/// The text that `commit` has for `field`, if it has any: each field is
/// taken from the part of the commit that holds it, and is absent where that
/// part is missing; the date is absent as well where the moment of authoring
/// has no calendar date.
pub open spec fn commit_field(commit: CommitInfo, field: Field) -> Option<Seq<char>> {
    match field {
        Field::Commit => match commit.short_hash {
            Some(hash) => Some(hash@),
            None => None,
        },
        Field::Author => match commit.author {
            Some(author) => Some(author.name@),
            None => None,
        },
        Field::Email => match commit.author {
            Some(author) => Some(author.email@),
            None => None,
        },
        Field::Date => match commit.author {
            Some(author) => date_field(author.seconds as int, author.offset as int),
            None => None,
        },
        Field::Message => match commit.message {
            Some(message) => Some(message.title@),
            None => None,
        },
        Field::Body => match commit.message {
            Some(Message { body: Some(body), .. }) => Some(body@),
            _ => None,
        },
    }
}

/// The fields that `commit` has, each with its text.
pub open spec fn commit_fields(commit: CommitInfo) -> Map<Field, Seq<char>> {
    Map::new(
        |field: Field| commit_field(commit, field) is Some,
        |field: Field| commit_field(commit, field)->0,
    )
}

impl LineBlame {
    /// The record of a line whose revision is `commit`.
    pub fn from_commit(commit: CommitInfo) -> (blame: LineBlame)
        ensures
            blame@ == commit_fields(commit),
    {
        let (author_name, author_email, commit_date) = match commit.author {
            Some(author) => (
                Some(author.name),
                Some(author.email),
                commit_date(author.seconds, author.offset),
            ),
            None => (None, None, None),
        };
        let (commit_message, commit_body) = match commit.message {
            Some(message) => (Some(message.title), message.body),
            None => (None, None),
        };
        let blame = LineBlame {
            commit_hash: commit.short_hash,
            author_name,
            author_email,
            commit_date,
            commit_message,
            commit_body,
        };
        assert(blame@ =~= commit_fields(commit));
        blame
    }

    /// The record of a line whose revision was looked for in the repository:
    /// the record of the commit that was found, or the reason why there is
    /// none.
    pub fn resolve(found: Option<CommitInfo>) -> (resolved: Result<LineBlame, AttributionError>)
        ensures
            match found {
                Some(commit) => resolved is Ok && resolved->Ok_0@ == commit_fields(commit),
                None => resolved == Err::<LineBlame, _>(
                    AttributionError::RevisionResolutionFailed,
                ),
            },
    {
        match found {
            Some(commit) => Ok(LineBlame::from_commit(commit)),
            None => Err(AttributionError::RevisionResolutionFailed),
        }
    }
}

} // verus!
