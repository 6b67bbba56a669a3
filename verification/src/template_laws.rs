//! What holds of every annotation that a template writes.

use vstd::prelude::*;
use crate::blame::{field_named, Field};
use crate::template::{
    first_len, first_token, lemma_name_len_bound, lemma_name_len_is, render, resolve, run,
    settled, start, step, tokens, verbatim, Piece, Scan, Token,
};

verus! {

/// Text without a brace in it.
pub open spec fn brace_free(text: Seq<char>) -> bool {
    forall|k: int| 0 <= k < text.len() ==> text[k] != '{' && text[k] != '}'
}

/// A name that can stand between braces: it holds no `}`, which would end
/// it early, and does not start with `{`, which would make the opening brace
/// an escaped one.
pub open spec fn plain_name(name: Seq<char>) -> bool {
    &&& forall|k: int| 0 <= k < name.len() ==> name[k] != '}'
    &&& name.len() > 0 ==> name[0] != '{'
}

/// Text that starts with an opening brace which is not an escaped one.
pub open spec fn opens_placeholder(text: Seq<char>) -> bool {
    &&& text.len() > 0
    &&& text[0] == '{'
    &&& text.len() >= 2 ==> text[1] != '{'
}

/// The token of a character that stands for itself.
pub open spec fn literal(c: char) -> Token {
    Token::Text(c)
}

/// The tokens of literal text: one for each character.
pub open spec fn text_tokens(text: Seq<char>) -> Seq<Token>
    decreases text.len(),
{
    if text.len() == 0 {
        Seq::empty()
    } else {
        seq![literal(text[0])] + text_tokens(text.skip(1))
    }
}

/// The names of the fields are plain.
pub proof fn lemma_field_names_are_plain(name: Seq<char>)
    requires
        field_named(name) is Some,
    ensures
        plain_name(name),
{
    reveal_strlit("commit");
    reveal_strlit("author");
    reveal_strlit("email");
    reveal_strlit("date");
    reveal_strlit("message");
    reveal_strlit("body");
}

/// A template that starts with a closed placeholder has that placeholder as
/// its first token, and the tokens of what follows it after that.
pub proof fn lemma_tokens_of_placeholder(name: Seq<char>, rest: Seq<char>)
    requires
        plain_name(name),
    ensures
        tokens(verbatim(name, true) + rest) == seq![Token::Placeholder { name, closed: true }]
            + tokens(rest),
{
    let t = verbatim(name, true) + rest;
    let n = name.len() as int;
    let inner = t.skip(1);
    assert(t[0] == '{');
    assert(t[n + 1] == '}');
    assert forall|k: int| 0 <= k < n implies inner[k] != '}' by {
        assert(inner[k] == name[k]);
    }
    assert(inner[n] == '}');
    lemma_name_len_is(inner, n);
    if n > 0 {
        assert(t[1] == name[0]);
    }
    assert(t.subrange(1, 1 + n) =~= name);
    assert(first_token(t) == Token::Placeholder { name, closed: true });
    assert(first_len(t) == n + 2);
    assert(t.skip(n + 2) =~= rest);
}

/// A template that starts with a character other than a brace has that
/// character as its first token.
pub proof fn lemma_tokens_of_char(c: char, rest: Seq<char>)
    requires
        c != '{',
        c != '}',
    ensures
        tokens(seq![c] + rest) == seq![Token::Text(c)] + tokens(rest),
{
    let t = seq![c] + rest;
    assert(t[0] == c);
    assert(t.skip(1) =~= rest);
}

/// A template that starts with a doubled brace has the single brace as its
/// first token.
pub proof fn lemma_tokens_of_escape(c: char, rest: Seq<char>)
    requires
        c == '{' || c == '}',
    ensures
        tokens(seq![c, c] + rest) == seq![Token::Text(c)] + tokens(rest),
{
    let t = seq![c, c] + rest;
    assert(t[0] == c && t[1] == c);
    assert(t.skip(2) =~= rest);
}

/// Literal text without braces in front of a template is one text token for
/// each character in front of the template's tokens.
pub proof fn lemma_tokens_of_text(text: Seq<char>, rest: Seq<char>)
    requires
        brace_free(text),
    ensures
        tokens(text + rest) == text_tokens(text) + tokens(rest),
    decreases text.len(),
{
    if text.len() == 0 {
        assert(text + rest =~= rest);
        assert(text_tokens(text) + tokens(rest) =~= tokens(rest));
    } else {
        let tail = text.skip(1);
        assert(brace_free(tail)) by {
            assert forall|k: int| 0 <= k < tail.len() implies tail[k] != '{' && tail[k] != '}' by {
                assert(tail[k] == text[k + 1]);
            }
        }
        lemma_tokens_of_text(tail, rest);
        lemma_tokens_of_char(text[0], tail + rest);
        assert(seq![text[0]] + (tail + rest) =~= text + rest);
        assert(seq![Token::Text(text[0])] + (text_tokens(tail) + tokens(rest)) =~= text_tokens(text)
            + tokens(rest));
    }
}

/// Reading tokens is reading the first and then the others.
pub proof fn lemma_run_token(
    scan: Scan,
    token: Token,
    rest: Seq<Token>,
    fields: Map<Field, Seq<char>>,
)
    ensures
        run(scan, seq![token] + rest, fields) == run(
            step(scan, resolve(fields, token)),
            rest,
            fields,
        ),
{
    let all = seq![token] + rest;
    assert(all[0] == token);
    assert(all.skip(1) =~= rest);
}

/// Reading literal text only adds it to the text held back.
pub proof fn lemma_run_text(
    scan: Scan,
    text: Seq<char>,
    rest: Seq<Token>,
    fields: Map<Field, Seq<char>>,
)
    ensures
        run(scan, text_tokens(text) + rest, fields) == run(
            Scan { pending: scan.pending + text, ..scan },
            rest,
            fields,
        ),
    decreases text.len(),
{
    if text.len() == 0 {
        assert(text_tokens(text) + rest =~= rest);
        assert(scan.pending + text =~= scan.pending);
    } else {
        let tail = text.skip(1);
        let next = Scan { pending: scan.pending.push(text[0]), ..scan };
        let head = seq![Token::Text(text[0])];
        let all = text_tokens(text);
        assert(all == head + text_tokens(tail));
        assert(all + rest =~= head + (text_tokens(tail) + rest));
        lemma_run_token(scan, Token::Text(text[0]), text_tokens(tail) + rest, fields);
        lemma_run_text(next, tail, rest, fields);
        assert(next.pending + tail =~= scan.pending + text);
    }
}

/// The literal text just before a placeholder whose field is absent is
/// dropped: wherever the reading stands, it goes on as if that text had not
/// been there.
pub proof fn lemma_text_before_absent_field(
    scan: Scan,
    text: Seq<char>,
    absent: Token,
    rest: Seq<Token>,
    fields: Map<Field, Seq<char>>,
)
    requires
        resolve(fields, absent) is Absent,
    ensures
        run(scan, text_tokens(text) + (seq![absent] + rest), fields) == run(
            scan,
            seq![absent] + rest,
            fields,
        ),
{
    let held = Scan { pending: scan.pending + text, ..scan };
    lemma_run_text(scan, text, seq![absent] + rest, fields);
    lemma_run_token(held, absent, rest, fields);
    lemma_run_token(scan, absent, rest, fields);
}

/// A template without placeholders writes its own text, with each doubled
/// brace written once, whatever the fields are.
pub proof fn lemma_literal_template(fields: Map<Field, Seq<char>>, text: Seq<char>)
    requires
        brace_free(text),
    ensures
        render(fields, text) == text,
        render(fields, seq!['{', '{'] + text + seq!['}', '}']) == (seq!['{'] + text).push('}'),
{
    let none = Seq::<char>::empty();
    let no_tokens = Seq::<Token>::empty();
    assert(tokens(none) =~= no_tokens);

    lemma_tokens_of_text(text, none);
    assert(text + none =~= text);
    lemma_run_text(start(), text, no_tokens, fields);
    assert(text_tokens(text) + no_tokens =~= text_tokens(text));
    assert(none + (none + text) =~= text);

    let closing = seq!['}', '}'];
    let inner = text + closing;
    lemma_tokens_of_escape('}', none);
    assert(closing + none =~= closing);
    lemma_tokens_of_text(text, closing);
    lemma_tokens_of_escape('{', inner);
    assert(seq!['{', '{'] + inner =~= seq!['{', '{'] + text + closing);
    let after_open = Scan { pending: seq!['{'], ..start() };
    let after_text = Scan { pending: seq!['{'] + text, ..start() };
    let after_close = Scan { pending: (seq!['{'] + text).push('}'), ..start() };
    lemma_run_token(start(), Token::Text('{'), text_tokens(text) + tokens(closing), fields);
    assert(step(start(), Piece::Text('{')) == after_open) by {
        assert(none.push('{') =~= seq!['{']);
    }
    lemma_run_text(after_open, text, tokens(closing), fields);
    lemma_run_token(after_text, Token::Text('}'), no_tokens, fields);
    assert(seq![Token::Text('}')] + no_tokens =~= tokens(closing));
    assert(none + after_close.pending =~= after_close.pending);
}

/// A placeholder whose name is no field's is written as it stands.
pub proof fn lemma_unknown_placeholder(fields: Map<Field, Seq<char>>, name: Seq<char>)
    requires
        field_named(name) is None,
        plain_name(name),
    ensures
        render(fields, verbatim(name, true)) == verbatim(name, true),
{
    let none = Seq::<char>::empty();
    let no_tokens = Seq::<Token>::empty();
    let token = Token::Placeholder { name, closed: true };
    assert(tokens(none) =~= no_tokens);
    lemma_tokens_of_placeholder(name, none);
    assert(verbatim(name, true) + none =~= verbatim(name, true));
    lemma_run_token(start(), token, no_tokens, fields);
    assert(none + none + verbatim(name, true) + none =~= verbatim(name, true));
}

/// What a piece writes when nothing is dropped.
pub open spec fn written_by(piece: Piece) -> Seq<char> {
    match piece {
        Piece::Text(c) => seq![c],
        Piece::Value(value) => value,
        Piece::Absent => Seq::empty(),
    }
}

/// The tokens with each placeholder replaced by what stands in for it, and
/// nothing added or dropped.
pub open spec fn substituted(fields: Map<Field, Seq<char>>, tokens: Seq<Token>) -> Seq<char>
    decreases tokens.len(),
{
    if tokens.len() == 0 {
        Seq::empty()
    } else {
        written_by(resolve(fields, tokens[0])) + substituted(fields, tokens.skip(1))
    }
}

/// Whether no token of `tokens` names a field that is absent.
pub open spec fn nothing_absent(fields: Map<Field, Seq<char>>, tokens: Seq<Token>) -> bool {
    forall|k: int| 0 <= k < tokens.len() ==> !(#[trigger] resolve(fields, tokens[k]) is Absent)
}

/// While no field is absent, reading tokens writes the text held back and
/// then each token's own text.
pub proof fn lemma_run_substitutes(
    scan: Scan,
    tokens: Seq<Token>,
    fields: Map<Field, Seq<char>>,
)
    requires
        !scan.drop_pending,
        nothing_absent(fields, tokens),
    ensures
        run(scan, tokens, fields) == settled(scan) + substituted(fields, tokens),
    decreases tokens.len(),
{
    if tokens.len() == 0 {
        assert(settled(scan) + substituted(fields, tokens) =~= settled(scan));
    } else {
        let piece = resolve(fields, tokens[0]);
        let next = step(scan, piece);
        let rest = tokens.skip(1);
        assert(nothing_absent(fields, rest)) by {
            assert forall|k: int| 0 <= k < rest.len() implies !(#[trigger] resolve(
                fields,
                rest[k],
            ) is Absent) by {
                assert(rest[k] == tokens[k + 1]);
            }
        }
        assert(!(piece is Absent));
        lemma_run_substitutes(next, rest, fields);
        assert(settled(next) =~= settled(scan) + written_by(piece));
        assert(settled(next) + substituted(fields, rest) =~= settled(scan) + substituted(
            fields,
            tokens,
        ));
    }
}

/// With every field present a template writes its literal text and its
/// fields in the order in which it names them: nothing is dropped and
/// nothing is put between them.
pub proof fn lemma_all_fields_present(fields: Map<Field, Seq<char>>, template: Seq<char>)
    requires
        forall|field: Field| fields.dom().contains(field),
    ensures
        render(fields, template) == substituted(fields, tokens(template)),
{
    lemma_run_substitutes(start(), tokens(template), fields);
    assert(settled(start()) + substituted(fields, tokens(template)) =~= substituted(
        fields,
        tokens(template),
    ));
}

/// Two placeholders in a row, both for fields that are present, write the
/// two fields one after the other and nothing else.
pub proof fn lemma_present_fields_concatenate(
    fields: Map<Field, Seq<char>>,
    first: Seq<char>,
    second: Seq<char>,
)
    requires
        field_named(first) is Some,
        field_named(second) is Some,
        fields.dom().contains(field_named(first)->0),
        fields.dom().contains(field_named(second)->0),
    ensures
        render(fields, verbatim(first, true) + verbatim(second, true)) == fields[field_named(
            first,
        )->0] + fields[field_named(second)->0],
{
    let none = Seq::<char>::empty();
    let no_tokens = Seq::<Token>::empty();
    let a = Token::Placeholder { name: first, closed: true };
    let b = Token::Placeholder { name: second, closed: true };
    let va = fields[field_named(first)->0];
    let vb = fields[field_named(second)->0];
    lemma_field_names_are_plain(first);
    lemma_field_names_are_plain(second);
    assert(tokens(none) =~= no_tokens);
    lemma_tokens_of_placeholder(second, none);
    assert(verbatim(second, true) + none =~= verbatim(second, true));
    lemma_tokens_of_placeholder(first, verbatim(second, true));
    lemma_run_token(start(), a, seq![b] + no_tokens, fields);
    let middle = step(start(), resolve(fields, a));
    lemma_run_token(middle, b, no_tokens, fields);
    assert(middle.written =~= va);
    assert(va + none + vb + none =~= va + vb);
}

/// A placeholder at the very start whose field is absent writes nothing, and
/// the literal text after it is dropped too: the template writes what the
/// rest of it, from the next placeholder on, writes alone.
pub proof fn lemma_leading_absent_field(
    fields: Map<Field, Seq<char>>,
    name: Seq<char>,
    text: Seq<char>,
    rest: Seq<char>,
)
    requires
        field_named(name) is Some,
        !fields.dom().contains(field_named(name)->0),
        brace_free(text),
        rest.len() == 0 || opens_placeholder(rest),
    ensures
        render(fields, verbatim(name, true) + text + rest) == render(fields, rest),
{
    let none = Seq::<char>::empty();
    let token = Token::Placeholder { name, closed: true };
    lemma_field_names_are_plain(name);
    lemma_tokens_of_placeholder(name, text + rest);
    assert(verbatim(name, true) + (text + rest) =~= verbatim(name, true) + text + rest);
    lemma_tokens_of_text(text, rest);
    lemma_run_token(start(), token, text_tokens(text) + tokens(rest), fields);
    let dropped = Scan { written: none, pending: none, drop_pending: true };
    assert(step(start(), resolve(fields, token)) == dropped);
    lemma_run_text(dropped, text, tokens(rest), fields);
    let held = Scan { written: none, pending: none + text, drop_pending: true };
    if rest.len() == 0 {
        assert(tokens(rest) =~= Seq::<Token>::empty());
        assert(none + none =~= none);
    } else {
        lemma_name_len_bound(rest.skip(1));
        let next = first_token(rest);
        let others = tokens(rest.skip(first_len(rest) as int));
        lemma_run_token(held, next, others, fields);
        lemma_run_token(start(), next, others, fields);
        let piece = resolve(fields, next);
        assert(next is Placeholder);
        assert(piece !is Text);
        match piece {
            Piece::Value(value) => {
                assert(settled(held) + value =~= settled(start()) + value);
            },
            _ => {},
        }
        assert(step(held, piece) == step(start(), piece));
    }
}

} // verus!
