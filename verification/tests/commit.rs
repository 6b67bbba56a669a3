use inline_blame::blame::{field_of, Field, LineBlame};
use inline_blame::commit::{commit_date, CommitInfo, Message, Signature};
use inline_blame::store::AttributionError;

fn bob(seconds: i64, offset: i32) -> Signature {
    Signature {
        name: "Bob TheBuilder".to_owned(),
        email: "bob@bob.com".to_owned(),
        seconds,
        offset,
    }
}

#[test]
fn date_is_the_day_at_the_authors_offset() {
    // 2018-12-24T00:00:00Z
    let midnight = 1_545_609_600;
    assert_eq!(commit_date(midnight, 0), Some("2018-12-24".to_owned()));
    assert_eq!(commit_date(midnight - 1, 0), Some("2018-12-23".to_owned()));
    assert_eq!(commit_date(midnight - 1, 3_600), Some("2018-12-24".to_owned()));
    assert_eq!(commit_date(midnight, -3_600), Some("2018-12-23".to_owned()));
    assert_eq!(commit_date(0, 0), Some("1970-01-01".to_owned()));
}

#[test]
fn date_is_absent_where_the_calendar_ends() {
    assert_eq!(commit_date(0, 93_600), None);
    assert_eq!(commit_date(0, -93_600), None);
    assert_eq!(commit_date(253_402_207_201, 0), None);
    assert_eq!(commit_date(-377_705_023_202, 0), None);
    assert_eq!(commit_date(i64::MAX, 0), None);
    assert_eq!(commit_date(i64::MIN, i32::MIN), None);
}

#[test]
fn date_reaches_the_ends_of_the_calendar() {
    assert_eq!(commit_date(253_402_207_200, 93_599), Some("9999-12-31".to_owned()));
    assert!(commit_date(-377_705_023_201, -93_599).is_some());
}

#[test]
fn a_whole_commit_fills_every_field() {
    let commit = CommitInfo {
        short_hash: Some("f14ab1cf".to_owned()),
        author: Some(bob(1_830_297_600, 0)),
        message: Some(Message {
            title: "feat!: extend house".to_owned(),
            body: Some("BREAKING CHANGE: Removed door".to_owned()),
        }),
    };
    assert_eq!(
        LineBlame::from_commit(commit),
        LineBlame {
            commit_hash: Some("f14ab1cf".to_owned()),
            author_name: Some("Bob TheBuilder".to_owned()),
            author_email: Some("bob@bob.com".to_owned()),
            commit_date: Some("2028-01-01".to_owned()),
            commit_message: Some("feat!: extend house".to_owned()),
            commit_body: Some("BREAKING CHANGE: Removed door".to_owned()),
        }
    );
}

#[test]
fn missing_parts_leave_their_fields_absent() {
    let commit = CommitInfo {
        short_hash: None,
        author: None,
        message: Some(Message { title: "fix".to_owned(), body: None }),
    };
    let blame = LineBlame::from_commit(commit);
    assert_eq!(blame.commit_hash, None);
    assert_eq!(blame.author_name, None);
    assert_eq!(blame.author_email, None);
    assert_eq!(blame.commit_date, None);
    assert_eq!(blame.commit_message, Some("fix".to_owned()));
    assert_eq!(blame.commit_body, None);

    let commit = CommitInfo { short_hash: None, author: Some(bob(0, 100_000)), message: None };
    let blame = LineBlame::from_commit(commit);
    assert_eq!(blame.author_name, Some("Bob TheBuilder".to_owned()));
    assert_eq!(blame.commit_date, None);
    assert_eq!(blame.commit_message, None);
}

#[test]
fn a_revision_that_is_not_found_is_an_error() {
    assert_eq!(LineBlame::resolve(None), Err(AttributionError::RevisionResolutionFailed));
    let commit = CommitInfo { short_hash: Some("abc".to_owned()), author: None, message: None };
    assert_eq!(
        LineBlame::resolve(Some(commit)),
        Ok(LineBlame { commit_hash: Some("abc".to_owned()), ..LineBlame::unknown() })
    );
}

#[test]
fn fields_are_found_by_their_names() {
    assert_eq!(field_of(&"commit".to_owned()), Some(Field::Commit));
    assert_eq!(field_of(&"author".to_owned()), Some(Field::Author));
    assert_eq!(field_of(&"email".to_owned()), Some(Field::Email));
    assert_eq!(field_of(&"date".to_owned()), Some(Field::Date));
    assert_eq!(field_of(&"message".to_owned()), Some(Field::Message));
    assert_eq!(field_of(&"body".to_owned()), Some(Field::Body));
    assert_eq!(field_of(&"hash".to_owned()), None);
    assert_eq!(field_of(&"".to_owned()), None);
    let blame = LineBlame { author_email: Some("bob@bob.com".to_owned()), ..LineBlame::unknown() };
    assert_eq!(blame.get(Field::Email), &Some("bob@bob.com".to_owned()));
    assert_eq!(blame.get(Field::Author), &None);
}
