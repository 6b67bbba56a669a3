//! What is known of the revision that last changed a line.

use vstd::prelude::*;
use vstd::string::StringExecFns;

verus! {

/// The fields of a revision that a template can name.
#[derive(Clone, Copy, Debug, PartialEq, Eq, Structural)]
pub enum Field {
    /// The abbreviated hash of the revision, written `commit`.
    Commit,
    /// The author's name, written `author`.
    Author,
    /// The author's e-mail address, written `email`.
    Email,
    /// The day on which the revision was authored, written `date`.
    Date,
    /// The first line of the revision's message, written `message`.
    Message,
    /// The rest of the revision's message, written `body`.
    Body,
}

/// The field that a placeholder's name stands for, if it stands for any.
pub open spec fn field_named(name: Seq<char>) -> Option<Field> {
    if name == "commit"@ {
        Some(Field::Commit)
    } else if name == "author"@ {
        Some(Field::Author)
    } else if name == "email"@ {
        Some(Field::Email)
    } else if name == "date"@ {
        Some(Field::Date)
    } else if name == "message"@ {
        Some(Field::Message)
    } else if name == "body"@ {
        Some(Field::Body)
    } else {
        None
    }
}

/// Finds the field that `name` stands for.
pub fn field_of(name: &String) -> (field: Option<Field>)
    ensures
        field == field_named(name@),
{
    if *name == String::from_str("commit") {
        Some(Field::Commit)
    } else if *name == String::from_str("author") {
        Some(Field::Author)
    } else if *name == String::from_str("email") {
        Some(Field::Email)
    } else if *name == String::from_str("date") {
        Some(Field::Date)
    } else if *name == String::from_str("message") {
        Some(Field::Message)
    } else if *name == String::from_str("body") {
        Some(Field::Body)
    } else {
        None
    }
}

/// The human-readable fields of the revision that a line is attributed to.
///
/// Every field may be absent: the line may have no revision at all, or the
/// revision may have been found without this field being available.
#[derive(Clone, PartialEq, PartialOrd, Ord, Eq, Debug)]
pub struct LineBlame {
    pub commit_hash: Option<String>,
    pub author_name: Option<String>,
    pub author_email: Option<String>,
    pub commit_date: Option<String>,
    pub commit_message: Option<String>,
    pub commit_body: Option<String>,
}

impl View for LineBlame {
    type V = Map<Field, Seq<char>>;

    /// The fields that are present, each with its text.
    open spec fn view(&self) -> Map<Field, Seq<char>> {
        Map::new(|f: Field| self.field(f) is Some, |f: Field| self.field(f)->0@)
    }
}

impl LineBlame {
    /// What is stored for `field`.
    pub open spec fn field(&self, field: Field) -> Option<String> {
        match field {
            Field::Commit => self.commit_hash,
            Field::Author => self.author_name,
            Field::Email => self.author_email,
            Field::Date => self.commit_date,
            Field::Message => self.commit_message,
            Field::Body => self.commit_body,
        }
    }

    /// The text stored for `field`, if the field is present.
    pub fn get(&self, field: Field) -> (value: &Option<String>)
        ensures
            *value == self.field(field),
            value is Some <==> self@.dom().contains(field),
            value is Some ==> value->0@ == self@[field],
    {
        match field {
            Field::Commit => &self.commit_hash,
            Field::Author => &self.author_name,
            Field::Email => &self.author_email,
            Field::Date => &self.commit_date,
            Field::Message => &self.commit_message,
            Field::Body => &self.commit_body,
        }
    }

    /// A record with no field present: what is known of a line that no
    /// revision is attributed to.
    pub fn unknown() -> (blame: LineBlame)
        ensures
            blame@ == Map::<Field, Seq<char>>::empty(),
    {
        let blame = LineBlame {
            commit_hash: None,
            author_name: None,
            author_email: None,
            commit_date: None,
            commit_message: None,
            commit_body: None,
        };
        assert(blame@ =~= Map::<Field, Seq<char>>::empty());
        blame
    }
}

} // verus!
