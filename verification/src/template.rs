//! The template language in which an annotation is written.
//!
//! A template is literal text with `{name}` placeholders. `{{` and `}}` write
//! a single brace. A placeholder whose name is no field's, or that is never
//! closed, is kept as it was written. A placeholder whose field is absent
//! writes nothing and takes the literal text beside it along: the text before
//! it, or, while nothing has been written yet, the text after it.

use vstd::prelude::*;
use vstd::string::StringExecFns;
use crate::blame::{field_named, field_of, Field, LineBlame};
use crate::text::{chars_of, push_char};

verus! {

/// One unit of a template.
pub enum Token {
    /// A character that stands for itself.
    Text(char),
    /// An opening brace and the name after it, up to the closing brace
    /// (`closed`) or to the end of the template.
    Placeholder { name: Seq<char>, closed: bool },
}

/// How many characters at the start of `t` come before its first `}`; all of
/// them where it has none.
pub open spec fn name_len(t: Seq<char>) -> nat
    decreases t.len(),
{
    if t.len() == 0 || t[0] == '}' {
        0
    } else {
        1 + name_len(t.skip(1))
    }
}

/// How many characters of `t` its first token takes up.
pub open spec fn first_len(t: Seq<char>) -> nat {
    if t.len() == 0 {
        0
    } else if t.len() >= 2 && t[0] == t[1] && (t[0] == '{' || t[0] == '}') {
        2
    } else if t[0] == '{' {
        let n = name_len(t.skip(1));
        if 1 + n < t.len() {
            n + 2
        } else {
            n + 1
        }
    } else {
        1
    }
}

/// The first token of a template that is not empty.
pub open spec fn first_token(t: Seq<char>) -> Token {
    if t.len() >= 2 && t[0] == t[1] && (t[0] == '{' || t[0] == '}') {
        Token::Text(t[0])
    } else if t[0] == '{' {
        let n = name_len(t.skip(1));
        Token::Placeholder { name: t.subrange(1, 1 + n as int), closed: 1 + n < t.len() }
    } else {
        Token::Text(t[0])
    }
}

/// The tokens of a template, in order.
pub open spec fn tokens(t: Seq<char>) -> Seq<Token>
    decreases t.len(),
{
    if t.len() == 0 {
        Seq::empty()
    } else {
        proof {
            lemma_name_len_bound(t.skip(1));
        }
        seq![first_token(t)] + tokens(t.skip(first_len(t) as int))
    }
}

/// What a token writes.
pub enum Piece {
    /// A character of literal text.
    Text(char),
    /// The text that stands in for a placeholder.
    Value(Seq<char>),
    /// Nothing: the placeholder names a field that is absent.
    Absent,
}

/// A placeholder as it was written.
pub open spec fn verbatim(name: Seq<char>, closed: bool) -> Seq<char> {
    if closed {
        (seq!['{'] + name).push('}')
    } else {
        seq!['{'] + name
    }
}

/// What `token` writes, given the fields that are present.
pub open spec fn resolve(fields: Map<Field, Seq<char>>, token: Token) -> Piece {
    match token {
        Token::Text(c) => Piece::Text(c),
        Token::Placeholder { name, closed } => {
            if closed && field_named(name) is Some {
                let field = field_named(name)->0;
                if fields.dom().contains(field) {
                    Piece::Value(fields[field])
                } else {
                    Piece::Absent
                }
            } else {
                Piece::Value(verbatim(name, closed))
            }
        },
    }
}

/// Where the writing of an annotation stands.
pub struct Scan {
    /// What has been written.
    pub written: Seq<char>,
    /// The literal text since the last placeholder, not yet written.
    pub pending: Seq<char>,
    /// Whether the pending text is to be dropped rather than written.
    pub drop_pending: bool,
}

/// The state in which nothing has been read.
pub open spec fn start() -> Scan {
    Scan { written: Seq::empty(), pending: Seq::empty(), drop_pending: false }
}

/// What has been written once the pending text is settled.
pub open spec fn settled(scan: Scan) -> Seq<char> {
    if scan.drop_pending {
        scan.written
    } else {
        scan.written + scan.pending
    }
}

/// The state after one more piece.
///
/// Literal text is held back. A value settles the text held back and is
/// written. An absent field discards the text held back; while nothing has
/// been written, it also marks the text that follows to be dropped.
pub open spec fn step(scan: Scan, piece: Piece) -> Scan {
    match piece {
        Piece::Text(c) => Scan { pending: scan.pending.push(c), ..scan },
        Piece::Value(value) => Scan {
            written: settled(scan) + value,
            pending: Seq::empty(),
            drop_pending: false,
        },
        Piece::Absent => Scan {
            written: scan.written,
            pending: Seq::empty(),
            drop_pending: scan.written.len() == 0,
        },
    }
}

/// What is written in the end when `tokens` are read from the state `scan`.
pub open spec fn run(scan: Scan, tokens: Seq<Token>, fields: Map<Field, Seq<char>>) -> Seq<char>
    decreases tokens.len(),
{
    if tokens.len() == 0 {
        settled(scan)
    } else {
        run(step(scan, resolve(fields, tokens[0])), tokens.skip(1), fields)
    }
}

/// The annotation that `template` writes, given the fields that are present.
pub open spec fn render(fields: Map<Field, Seq<char>>, template: Seq<char>) -> Seq<char> {
    run(start(), tokens(template), fields)
}

/// A name never runs past the end of the text.
pub proof fn lemma_name_len_bound(t: Seq<char>)
    ensures
        name_len(t) <= t.len(),
    decreases t.len(),
{
    if t.len() != 0 && t[0] != '}' {
        lemma_name_len_bound(t.skip(1));
    }
}

/// A name ends at the first `}`.
pub proof fn lemma_name_len_is(t: Seq<char>, n: int)
    requires
        0 <= n <= t.len(),
        forall|k: int| 0 <= k < n ==> t[k] != '}',
        n < t.len() ==> t[n] == '}',
    ensures
        name_len(t) == n,
    decreases n,
{
    if n > 0 {
        let rest = t.skip(1);
        assert forall|k: int| 0 <= k < n - 1 implies rest[k] != '}' by {
            assert(rest[k] == t[k + 1]);
        }
        lemma_name_len_is(rest, n - 1);
    }
}

/// Reading a template that starts with a token is reading that token and
/// then the rest.
pub proof fn lemma_run_first(scan: Scan, t: Seq<char>, fields: Map<Field, Seq<char>>)
    requires
        t.len() > 0,
    ensures
        run(scan, tokens(t), fields) == run(
            step(scan, resolve(fields, first_token(t))),
            tokens(t.skip(first_len(t) as int)),
            fields,
        ),
{
    let rest = tokens(t.skip(first_len(t) as int));
    let all = seq![first_token(t)] + rest;
    assert(all.skip(1) =~= rest);
    assert(all[0] == first_token(t));
}

/// Appends to `written` the text held back, unless it is to be dropped.
fn settle(written: &mut String, pending: &String, drop_pending: bool)
    ensures
        final(written)@ == settled(
            Scan { written: old(written)@, pending: pending@, drop_pending },
        ),
{
    if !drop_pending {
        written.append(pending.as_str());
    }
}

impl LineBlame {
    /// Writes the annotation for this record as `format` lays it out.
    pub fn parse_format(&self, format: &str) -> (text: String)
        ensures
            text@ == render(self@, format@),
    {
        let chars = chars_of(format);
        let n = chars.len();
        let mut written = String::new();
        let mut pending = String::new();
        let mut drop_pending = false;
        let mut i: usize = 0;
        assert(chars@.skip(0) =~= format@);
        while i < n
            invariant
                n == chars.len(),
                i <= n,
                chars@ == format@,
                run(
                    Scan { written: written@, pending: pending@, drop_pending },
                    tokens(chars@.skip(i as int)),
                    self@,
                ) == render(self@, format@),
            decreases n - i,
        {
            let ghost here = chars@.skip(i as int);
            let ghost before = Scan { written: written@, pending: pending@, drop_pending };
            proof {
                lemma_run_first(before, here, self@);
            }
            let ch = chars[i];
            if (ch == '{' || ch == '}') && i + 1 < n && chars[i + 1] == ch {
                push_char(&mut pending, ch);
                i += 2;
            } else if ch == '{' {
                let mut name = String::new();
                let mut j: usize = i + 1;
                while j < n && chars[j] != '}'
                    invariant
                        n == chars.len(),
                        i < j <= n,
                        name@ == chars@.subrange(i + 1, j as int),
                        forall|k: int| i < k < j ==> chars@[k] != '}',
                    decreases n - j,
                {
                    push_char(&mut name, chars[j]);
                    j += 1;
                    assert(name@ =~= chars@.subrange(i + 1, j as int));
                }
                let closed = j < n;
                proof {
                    let inner = here.skip(1);
                    assert forall|k: int| 0 <= k < j - i - 1 implies inner[k] != '}' by {
                        assert(inner[k] == chars@[i + 1 + k]);
                    }
                    lemma_name_len_is(inner, j - i - 1);
                    assert(here.subrange(1, j - i) =~= name@);
                    assert(first_token(here) == Token::Placeholder { name: name@, closed });
                }
                let field = if closed { field_of(&name) } else { None };
                let value = match field {
                    Some(f) => self.get(f),
                    None => &None,
                };
                if field.is_some() && value.is_none() {
                    drop_pending = written.as_str().is_empty();
                } else {
                    settle(&mut written, &pending, drop_pending);
                    drop_pending = false;
                    match value {
                        Some(text) => {
                            written.append(text.as_str());
                        },
                        None => {
                            push_char(&mut written, '{');
                            written.append(name.as_str());
                            if closed {
                                push_char(&mut written, '}');
                            }
                            assert(written@ =~= settled(before) + verbatim(name@, closed));
                        },
                    }
                }
                pending = String::new();
                i = if closed { j + 1 } else { j };
            } else {
                push_char(&mut pending, ch);
                i += 1;
            }
            assert(chars@.skip(i as int) =~= here.skip(first_len(here) as int));
        }
        settle(&mut written, &pending, drop_pending);
        written
    }
}

} // verus!
