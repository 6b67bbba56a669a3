use inline_blame::blame::LineBlame;

fn bob() -> LineBlame {
    LineBlame {
        commit_hash: Some("f14ab1cf".to_owned()),
        author_name: Some("Bob TheBuilder".to_owned()),
        author_email: Some("bob@bob.com".to_owned()),
        commit_date: Some("2028-01-10".to_owned()),
        commit_message: Some("feat!: extend house".to_owned()),
        commit_body: Some("BREAKING CHANGE: Removed door".to_owned()),
    }
}

#[test]
fn inline_blame_format_parser() {
    let default_values = "{author}, {date} • {message} • {commit}";

    assert_eq!(
        bob().parse_format(default_values),
        "Bob TheBuilder, 2028-01-10 • feat!: extend house • f14ab1cf".to_owned()
    );
    assert_eq!(
        LineBlame { author_name: None, ..bob() }.parse_format(default_values),
        "2028-01-10 • feat!: extend house • f14ab1cf".to_owned()
    );
    assert_eq!(
        LineBlame { commit_date: None, ..bob() }.parse_format(default_values),
        "Bob TheBuilder • feat!: extend house • f14ab1cf".to_owned()
    );
    assert_eq!(
        LineBlame { commit_message: None, author_email: None, ..bob() }
            .parse_format(default_values),
        "Bob TheBuilder, 2028-01-10 • f14ab1cf".to_owned()
    );
    assert_eq!(
        LineBlame { commit_hash: None, ..bob() }.parse_format(default_values),
        "Bob TheBuilder, 2028-01-10 • feat!: extend house".to_owned()
    );
    assert_eq!(
        LineBlame { commit_date: None, author_name: None, ..bob() }.parse_format(default_values),
        "feat!: extend house • f14ab1cf".to_owned()
    );
    assert_eq!(
        LineBlame { author_name: None, commit_message: None, ..bob() }
            .parse_format(default_values),
        "2028-01-10 • f14ab1cf".to_owned()
    );
}

#[test]
fn every_field_has_its_name() {
    assert_eq!(
        bob().parse_format("{commit}|{author}|{email}|{date}|{message}|{body}"),
        "f14ab1cf|Bob TheBuilder|bob@bob.com|2028-01-10|feat!: extend house|BREAKING CHANGE: Removed door"
    );
}

#[test]
fn two_present_fields_are_written_back_to_back() {
    assert_eq!(bob().parse_format("{author}{date}"), "Bob TheBuilder2028-01-10");
    assert_eq!(bob().parse_format("{commit}{commit}"), "f14ab1cff14ab1cf");
}

#[test]
fn leading_absent_field_takes_the_text_after_it() {
    let template = "{author}, {date} • {message} • {commit}";
    let without_author = LineBlame { author_name: None, ..bob() };
    assert_eq!(
        without_author.parse_format(template),
        without_author.parse_format("{date} • {message} • {commit}")
    );
    assert_eq!(without_author.parse_format("{author} wrote this"), "");
    assert_eq!(without_author.parse_format("{author}: {commit}"), "f14ab1cf");
}

#[test]
fn text_before_a_leading_absent_field_goes_too() {
    let without_author = LineBlame { author_name: None, ..bob() };
    assert_eq!(without_author.parse_format("by {author} on {date}"), "2028-01-10");
}

#[test]
fn later_absent_field_takes_the_text_before_it() {
    let without_email = LineBlame { author_email: None, ..bob() };
    assert_eq!(without_email.parse_format("{author} <{email}> {date}"), "Bob TheBuilder> 2028-01-10");
    assert_eq!(without_email.parse_format("{author} ({email})"), "Bob TheBuilder)");
}

#[test]
fn doubled_braces_write_one_brace() {
    assert_eq!(bob().parse_format("{{literal}}"), "{literal}");
    assert_eq!(LineBlame::unknown().parse_format("{{literal}}"), "{literal}");
    assert_eq!(bob().parse_format("{{{author}}}"), "{Bob TheBuilder}");
}

#[test]
fn unknown_placeholder_is_kept() {
    assert_eq!(bob().parse_format("{nonexistent}"), "{nonexistent}");
    assert_eq!(LineBlame::unknown().parse_format("{nonexistent}"), "{nonexistent}");
    assert_eq!(bob().parse_format("{}"), "{}");
    assert_eq!(bob().parse_format("{Author}"), "{Author}");
}

#[test]
fn unterminated_placeholder_is_literal_text() {
    assert_eq!(bob().parse_format("{author"), "{author");
    assert_eq!(bob().parse_format("{date} {"), "2028-01-10 {");
    assert_eq!(bob().parse_format("{nonexistent"), "{nonexistent");
}

#[test]
fn literal_text_is_kept_to_the_end() {
    assert_eq!(bob().parse_format(""), "");
    assert_eq!(bob().parse_format("no fields at all"), "no fields at all");
    assert_eq!(bob().parse_format("{author}!"), "Bob TheBuilder!");
    assert_eq!(bob().parse_format("a } b"), "a } b");
}

#[test]
fn no_field_at_all_writes_nothing() {
    assert_eq!(LineBlame::unknown().parse_format("{author}, {date} • {message} • {commit}"), "");
}
